//! Targets and the labels assigned to them.

use crate::labels::{
    is_label_width, label_of, label_value, label_width, lemma_label_injective,
    lemma_label_value, lemma_label_width_exists, lemma_label_width_is, lemma_pow_step,
    shortfall,
};
use crate::text::{chars_of, same_text, starts_with};
use vstd::arithmetic::div_mod::{lemma_div_denominator, lemma_div_pos_is_pos, lemma_mod_bound};
use vstd::arithmetic::mul::lemma_mul_is_commutative;
use vstd::arithmetic::power::{lemma_pow0, lemma_pow1, pow};
use vstd::prelude::*;
use vstd::string::{StrSliceExecFns, StringExecFns};

verus! {

/// A clickable rectangle in absolute screen coordinates.
#[derive(Debug, Clone, Copy, PartialEq, Eq, Structural)]
pub struct Child {
    pub absolute_x: i32,
    pub absolute_y: i32,
    pub width: i32,
    pub height: i32,
}

/// A rectangle `(x, y, width, height)` that scopes discovery.
pub type Extents = (i32, i32, i32, i32);

impl Child {
    /// Both sides are strictly positive.
    pub open spec fn spec_has_area(self) -> bool {
        self.width > 0 && self.height > 0
    }

    /// All four edges of `self` lie within `region`; edges may coincide.
    pub open spec fn spec_inside(self, region: Extents) -> bool {
        &&& self.absolute_x >= region.0
        &&& self.absolute_y >= region.1
        &&& self.absolute_x + self.width <= region.0 + region.2
        &&& self.absolute_y + self.height <= region.1 + region.3
    }

    /// Containment in an optional region: no region admits everything.
    pub open spec fn spec_inside_focus(self, focus: Option<Extents>) -> bool {
        match focus {
            Some(region) => self.spec_inside(region),
            None => true,
        }
    }

    #[verifier::when_used_as_spec(spec_has_area)]
    pub fn has_area(self) -> (b: bool)
        ensures
            b == self.spec_has_area(),
    {
        self.width > 0 && self.height > 0
    }

    #[verifier::when_used_as_spec(spec_inside)]
    pub fn inside(self, region: Extents) -> (b: bool)
        ensures
            b == self.spec_inside(region),
    {
        let right: i64 = self.absolute_x as i64 + self.width as i64;
        let bottom: i64 = self.absolute_y as i64 + self.height as i64;
        let region_right: i64 = region.0 as i64 + region.2 as i64;
        let region_bottom: i64 = region.1 as i64 + region.3 as i64;
        self.absolute_x >= region.0 && self.absolute_y >= region.1 && right <= region_right
            && bottom <= region_bottom
    }

    #[verifier::when_used_as_spec(spec_inside_focus)]
    pub fn inside_focus(self, focus: Option<Extents>) -> (b: bool)
        ensures
            b == self.spec_inside_focus(focus),
    {
        match focus {
            Some(region) => self.inside(region),
            None => true,
        }
    }
}

/// One label with the target that it selects.
struct Hint {
    label: String,
    /// The characters of `label`.
    chars: Vec<char>,
    child: Child,
}

/// The map that a sequence of entries denotes: later entries win.
spec fn entries_map(entries: Seq<Hint>) -> Map<Seq<char>, Child>
    decreases entries.len(),
{
    if entries.len() == 0 {
        Map::empty()
    } else {
        entries_map(entries.drop_last()).insert(entries.last().label@, entries.last().child)
    }
}

/// No two entries carry the same label.
spec fn distinct_labels(entries: Seq<Hint>) -> bool {
    forall|i: int, j: int| 0 <= i < j < entries.len() ==> entries[i].label@ != entries[j].label@
}

/// Every entry holds the characters of its label.
spec fn spelled_out(entries: Seq<Hint>) -> bool {
    forall|i: int| 0 <= i < entries.len() ==> (#[trigger] entries[i]).chars@ == entries[i].label@
}

/// With distinct labels, the entries and the map they denote match one for one.
proof fn lemma_entries_map(entries: Seq<Hint>)
    requires
        distinct_labels(entries),
    ensures
        entries_map(entries).dom().finite(),
        entries_map(entries).dom().len() == entries.len(),
        forall|i: int|
            0 <= i < entries.len() ==> entries_map(entries).contains_key(
                #[trigger] entries[i].label@,
            ) && entries_map(entries)[entries[i].label@] == entries[i].child,
        forall|label: Seq<char>| #[trigger]
            entries_map(entries).contains_key(label) ==> exists|i: int|
                0 <= i < entries.len() && entries[i].label@ == label,
    decreases entries.len(),
{
    if entries.len() > 0 {
        let rest = entries.drop_last();
        let last = entries.last();
        lemma_entries_map(rest);
        assert forall|i: int| 0 <= i < rest.len() implies rest[i].label@ != last.label@ by {
            assert(rest[i] == entries[i]);
        }
        assert(!entries_map(rest).contains_key(last.label@));
        assert forall|i: int| 0 <= i < entries.len() implies entries_map(entries).contains_key(
            #[trigger] entries[i].label@,
        ) && entries_map(entries)[entries[i].label@] == entries[i].child by {
            if i < rest.len() {
                assert(rest[i] == entries[i]);
            }
        }
        assert forall|label: Seq<char>| #[trigger]
            entries_map(entries).contains_key(label) implies exists|i: int|
            0 <= i < entries.len() && entries[i].label@ == label by {
            if label == last.label@ {
                assert(entries[entries.len() - 1].label@ == label);
            } else {
                let i = choose|i: int| 0 <= i < rest.len() && rest[i].label@ == label;
                assert(entries[i].label@ == label);
            }
        }
    }
}

/// The labels of one discovery run, each with its target.
pub struct HintMap {
    entries: Vec<Hint>,
}

impl View for HintMap {
    type V = Map<Seq<char>, Child>;

    closed spec fn view(&self) -> Map<Seq<char>, Child> {
        entries_map(self.entries@)
    }
}

impl HintMap {
    #[verifier::type_invariant]
    spec fn well_formed(self) -> bool {
        distinct_labels(self.entries@) && spelled_out(self.entries@)
    }

    /// A map without labels.
    pub fn new() -> (map: HintMap)
        ensures
            map@ == Map::<Seq<char>, Child>::empty(),
    {
        HintMap { entries: Vec::new() }
    }

    /// The number of labels.
    pub fn len(&self) -> (n: usize)
        ensures
            self@.dom().finite(),
            n == self@.dom().len(),
    {
        proof {
            use_type_invariant(self);
            lemma_entries_map(self.entries@);
        }
        self.entries.len()
    }

    /// Whether the map holds no label.
    pub fn is_empty(&self) -> (b: bool)
        ensures
            b == (self@ == Map::<Seq<char>, Child>::empty()),
    {
        proof {
            use_type_invariant(self);
            lemma_entries_map(self.entries@);
            if self.entries@.len() > 0 {
                assert(self@.contains_key(self.entries@[0].label@));
            } else {
                assert(self@ =~= Map::<Seq<char>, Child>::empty());
            }
        }
        self.entries.len() == 0
    }

    /// The position of `label` among the entries, if it is there.
    fn position(&self, label: &[char]) -> (found: Option<usize>)
        ensures
            match found {
                Some(i) => i < self.entries@.len() && self.entries@[i as int].label@ == label@,
                None => !self@.contains_key(label@),
            },
    {
        proof {
            use_type_invariant(self);
            lemma_entries_map(self.entries@);
        }
        let mut i: usize = 0;
        while i < self.entries.len()
            invariant
                i <= self.entries@.len(),
                spelled_out(self.entries@),
                forall|k: int| 0 <= k < i ==> self.entries@[k].label@ != label@,
            decreases self.entries@.len() - i,
        {
            if same_text(self.entries[i].chars.as_slice(), label) {
                return Some(i);
            }
            i = i + 1;
        }
        None
    }

    /// The target that the label with the characters `label` selects.
    pub fn find(&self, label: &[char]) -> (found: Option<Child>)
        ensures
            found == if self@.contains_key(label@) {
                Some(self@[label@])
            } else {
                None
            },
    {
        proof {
            use_type_invariant(self);
            lemma_entries_map(self.entries@);
        }
        match self.position(label) {
            Some(i) => Some(self.entries[i].child),
            None => None,
        }
    }

    /// The target that `label` selects.
    pub fn get(&self, label: &str) -> (found: Option<Child>)
        ensures
            found == if self@.contains_key(label@) {
                Some(self@[label@])
            } else {
                None
            },
    {
        let chars = chars_of(label);
        self.find(chars.as_slice())
    }

    /// Whether some label starts with `prefix`.
    pub fn has_prefix(&self, prefix: &[char]) -> (found: bool)
        ensures
            found == exists|label: Seq<char>| #[trigger]
                self@.contains_key(label) && prefix@.is_prefix_of(label),
    {
        proof {
            use_type_invariant(self);
            lemma_entries_map(self.entries@);
        }
        let mut i: usize = 0;
        while i < self.entries.len()
            invariant
                i <= self.entries@.len(),
                spelled_out(self.entries@),
                forall|k: int|
                    0 <= k < self.entries@.len() ==> self@.contains_key(
                        #[trigger] self.entries@[k].label@,
                    ),
                forall|k: int| 0 <= k < i ==> !prefix@.is_prefix_of(self.entries@[k].label@),
            decreases self.entries@.len() - i,
        {
            if starts_with(self.entries[i].chars.as_slice(), prefix) {
                assert(self@.contains_key(self.entries@[i as int].label@));
                return true;
            }
            i = i + 1;
        }
        assert forall|label: Seq<char>| #[trigger] self@.contains_key(label) implies !prefix@.is_prefix_of(
            label,
        ) by {
            let k = choose|k: int| 0 <= k < self.entries@.len() && self.entries@[k].label@ == label;
            assert(!prefix@.is_prefix_of(self.entries@[k].label@));
        }
        false
    }

    /// The labels with their targets, each label once, in no particular
    /// order.
    pub fn entries(&self) -> (list: Vec<(String, Child)>)
        ensures
            list@.len() == self@.dom().len(),
            forall|i: int|
                0 <= i < list@.len() ==> self@.contains_key((#[trigger] list@[i]).0@)
                    && self@[list@[i].0@] == list@[i].1,
            forall|i: int, j: int| 0 <= i < j < list@.len() ==> list@[i].0@ != list@[j].0@,
            forall|label: Seq<char>| #[trigger]
                self@.contains_key(label) ==> exists|i: int|
                    0 <= i < list@.len() && list@[i].0@ == label,
    {
        proof {
            use_type_invariant(self);
            lemma_entries_map(self.entries@);
        }
        let mut list: Vec<(String, Child)> = Vec::new();
        let mut i: usize = 0;
        while i < self.entries.len()
            invariant
                i <= self.entries@.len(),
                list@.len() == i,
                forall|k: int|
                    0 <= k < i ==> (#[trigger] list@[k]).0 == self.entries@[k].label
                        && list@[k].1 == self.entries@[k].child,
            decreases self.entries@.len() - i,
        {
            list.push((self.entries[i].label.clone(), self.entries[i].child));
            i = i + 1;
        }
        assert forall|label: Seq<char>| #[trigger] self@.contains_key(label) implies exists|i: int|
            0 <= i < list@.len() && list@[i].0@ == label by {
            let k = choose|k: int| 0 <= k < self.entries@.len() && self.entries@[k].label@ == label;
            assert(list@[k].0@ == label);
        }
        list
    }

    /// Binds `label` to `child`, replacing what `label` selected before.
    pub fn insert(&mut self, label: String, child: Child)
        ensures
            final(self)@ == old(self)@.insert(label@, child),
    {
        proof {
            use_type_invariant(&*self);
        }
        let chars = chars_of(label.as_str());
        let found = self.position(chars.as_slice());
        let mut entries: Vec<Hint> = Vec::new();
        core::mem::swap(&mut self.entries, &mut entries);
        let ghost before = entries@;
        match found {
            Some(i) => {
                entries.set(i, Hint { label, chars, child });
                proof {
                    lemma_replace_entry(before, i as int, entries@[i as int]);
                }
            },
            None => {
                proof {
                    lemma_entries_map(before);
                }
                entries.push(Hint { label, chars, child });
                assert(entries@.drop_last() == before);
            },
        }
        self.entries = entries;
    }

    /// Binds `label`, which is not bound yet, to `child`.
    fn insert_new(&mut self, label: String, chars: Vec<char>, child: Child)
        requires
            chars@ == label@,
            !old(self)@.contains_key(label@),
        ensures
            final(self)@ == old(self)@.insert(label@, child),
    {
        proof {
            use_type_invariant(&*self);
            lemma_entries_map(self.entries@);
        }
        let mut entries: Vec<Hint> = Vec::new();
        core::mem::swap(&mut self.entries, &mut entries);
        let ghost before = entries@;
        entries.push(Hint { label, chars, child });
        assert(entries@.drop_last() == before);
        self.entries = entries;
    }
}

/// Replacing an entry by one with the same label rebinds that label alone.
proof fn lemma_replace_entry(entries: Seq<Hint>, at: int, entry: Hint)
    requires
        distinct_labels(entries),
        0 <= at < entries.len(),
        entries[at].label@ == entry.label@,
    ensures
        distinct_labels(entries.update(at, entry)),
        entries_map(entries.update(at, entry)) == entries_map(entries).insert(
            entry.label@,
            entry.child,
        ),
    decreases entries.len(),
{
    let updated = entries.update(at, entry);
    assert(distinct_labels(updated)) by {
        assert forall|i: int, j: int| 0 <= i < j < updated.len() implies updated[i].label@
            != updated[j].label@ by {
            assert(updated[i].label@ == entries[i].label@);
            assert(updated[j].label@ == entries[j].label@);
        }
    }
    if at == entries.len() - 1 {
        assert(updated.drop_last() == entries.drop_last());
        assert(entries_map(updated) =~= entries_map(entries).insert(entry.label@, entry.child));
    } else {
        let rest = entries.drop_last();
        assert(distinct_labels(rest)) by {
            assert forall|i: int, j: int| 0 <= i < j < rest.len() implies rest[i].label@
                != rest[j].label@ by {
                assert(rest[i] == entries[i]);
                assert(rest[j] == entries[j]);
            }
        }
        lemma_replace_entry(rest, at, entry);
        assert(updated.drop_last() == rest.update(at, entry));
        assert(updated.last() == entries.last());
        assert(entries.last().label@ != entry.label@);
        assert(entries_map(updated) =~= entries_map(entries).insert(entry.label@, entry.child));
    }
}

/// The first `count` targets, each bound to the label of its index.
pub open spec fn labelled(
    children: Seq<Child>,
    alphabet: Seq<char>,
    width: nat,
    count: nat,
) -> Map<Seq<char>, Child>
    decreases count,
{
    if count == 0 {
        Map::empty()
    } else {
        labelled(children, alphabet, width, (count - 1) as nat).insert(
            label_of((count - 1) as nat, alphabet, width),
            children[count - 1],
        )
    }
}

/// The labels of `children` over `alphabet`: nothing for no targets or no
/// alphabet, else every target under the fixed-width label of its index.
pub open spec fn hint_map(children: Seq<Child>, alphabet: Seq<char>) -> Map<Seq<char>, Child> {
    if children.len() == 0 || alphabet.len() == 0 {
        Map::empty()
    } else {
        labelled(
            children,
            alphabet,
            label_width(children.len(), alphabet.len()),
            children.len(),
        )
    }
}

/// A label is bound exactly when it is the label of one of the first `count`
/// indices.
proof fn lemma_labelled_keys(children: Seq<Child>, alphabet: Seq<char>, width: nat, count: nat)
    ensures
        forall|label: Seq<char>| #[trigger]
            labelled(children, alphabet, width, count).contains_key(label) <==> exists|i: nat|
                i < count && label_of(i, alphabet, width) == label,
    decreases count,
{
    if count > 0 {
        let before = (count - 1) as nat;
        lemma_labelled_keys(children, alphabet, width, before);
        assert forall|label: Seq<char>| #[trigger]
            labelled(children, alphabet, width, count).contains_key(label) <==> exists|i: nat|
                i < count && label_of(i, alphabet, width) == label by {
            if labelled(children, alphabet, width, count).contains_key(label) {
                if label == label_of(before, alphabet, width) {
                    assert(before < count && label_of(before, alphabet, width) == label);
                } else {
                    assert(labelled(children, alphabet, width, before).contains_key(label));
                    let i = choose|i: nat| i < before && label_of(i, alphabet, width) == label;
                    assert(i < count && label_of(i, alphabet, width) == label);
                }
            }
            if exists|i: nat| i < count && label_of(i, alphabet, width) == label {
                let i = choose|i: nat| i < count && label_of(i, alphabet, width) == label;
                if i < before {
                    assert(labelled(children, alphabet, width, before).contains_key(label));
                }
            }
        }
    }
}

/// Where no two of the first `count` indices share a label, each label is
/// bound to the target of its own index, and there are `count` labels.
proof fn lemma_labelled_values(children: Seq<Child>, alphabet: Seq<char>, width: nat, count: nat)
    requires
        alphabet.no_duplicates(),
        alphabet.len() >= 1,
        count <= pow(alphabet.len() as int, width),
    ensures
        labelled(children, alphabet, width, count).dom().finite(),
        labelled(children, alphabet, width, count).dom().len() == count,
        forall|i: nat|
            i < count ==> labelled(children, alphabet, width, count)[#[trigger] label_of(
                i,
                alphabet,
                width,
            )] == children[i as int],
    decreases count,
{
    if count > 0 {
        let before = (count - 1) as nat;
        let fresh = label_of(before, alphabet, width);
        lemma_labelled_values(children, alphabet, width, before);
        lemma_labelled_keys(children, alphabet, width, before);
        if labelled(children, alphabet, width, before).contains_key(fresh) {
            let i = choose|i: nat| i < before && label_of(i, alphabet, width) == fresh;
            lemma_label_injective(i, before, alphabet, width);
        }
        assert forall|i: nat| i < count implies labelled(
            children,
            alphabet,
            width,
            count,
        )[#[trigger] label_of(i, alphabet, width)] == children[i as int] by {
            if i < before && label_of(i, alphabet, width) == fresh {
                lemma_label_injective(i, before, alphabet, width);
            }
        }
    }
}

/// Over an alphabet of two or more distinct characters, `N` targets get `N`
/// labels, all of the width `w` that is the least `w >= 1` with `R^w >= N`;
/// the label of index `i` selects target `i`, and read back as a base-`R`
/// number it is `i` again, so the labels read back are exactly `0..N`.
pub proof fn lemma_hints_are_unique_and_fixed_width(children: Seq<Child>, alphabet: Seq<char>)
    requires
        alphabet.len() >= 2,
        alphabet.no_duplicates(),
    ensures
        hint_map(children, alphabet).dom().finite(),
        hint_map(children, alphabet).dom().len() == children.len(),
        children.len() > 0 ==> is_label_width(
            children.len(),
            alphabet.len(),
            label_width(children.len(), alphabet.len()),
        ),
        forall|label: Seq<char>| #[trigger]
            hint_map(children, alphabet).contains_key(label) ==> {
                &&& label.len() == label_width(children.len(), alphabet.len())
                &&& 0 <= label_value(label, alphabet) < children.len()
                &&& label == label_of(
                    label_value(label, alphabet) as nat,
                    alphabet,
                    label_width(children.len(), alphabet.len()),
                )
            },
        forall|i: nat|
            i < children.len() ==> {
                let label = #[trigger] label_of(
                    i,
                    alphabet,
                    label_width(children.len(), alphabet.len()),
                );
                &&& hint_map(children, alphabet).contains_key(label)
                &&& hint_map(children, alphabet)[label] == children[i as int]
                &&& label_value(label, alphabet) == i
            },
{
    let count = children.len();
    let width = label_width(count, alphabet.len());
    if count > 0 {
        lemma_label_width_exists(count, alphabet.len());
        lemma_labelled_keys(children, alphabet, width, count);
        lemma_labelled_values(children, alphabet, width, count);
        assert forall|i: nat| i < count implies label_value(
            #[trigger] label_of(i, alphabet, width),
            alphabet,
        ) == i by {
            lemma_label_value(i, alphabet, width);
        }
        assert forall|label: Seq<char>| #[trigger]
            hint_map(children, alphabet).contains_key(label) implies {
            &&& label.len() == width
            &&& 0 <= label_value(label, alphabet) < count
            &&& label == label_of(label_value(label, alphabet) as nat, alphabet, width)
        } by {
            let i = choose|i: nat| i < count && label_of(i, alphabet, width) == label;
            lemma_label_value(i, alphabet, width);
        }
    }
}

/// No label of a run is a proper prefix of another: all have one width.
pub proof fn lemma_hints_are_prefix_free(
    children: Seq<Child>,
    alphabet: Seq<char>,
    shorter: Seq<char>,
    longer: Seq<char>,
)
    requires
        hint_map(children, alphabet).contains_key(shorter),
        hint_map(children, alphabet).contains_key(longer),
        shorter.is_prefix_of(longer),
    ensures
        shorter == longer,
{
    let width = label_width(children.len(), alphabet.len());
    lemma_labelled_keys(children, alphabet, width, children.len());
    assert(shorter.len() == width);
    assert(longer.len() == width);
    assert(shorter =~= longer);
}

/// The label width for `count` targets over `radix` symbols.
fn width_for(count: usize, radix: usize) -> (width: usize)
    requires
        count >= 1,
        radix >= 1,
        radix == 1 ==> count == 1,
    ensures
        is_label_width(count as nat, radix as nat, width as nat),
{
    let mut width: usize = 1;
    let mut capacity: u128 = radix as u128;
    proof {
        lemma_pow1(radix as int);
    }
    while capacity < count as u128
        invariant
            width >= 1,
            width <= capacity,
            capacity == pow(radix as int, width as nat),
            width > 1 ==> pow(radix as int, (width - 1) as nat) < count,
            radix >= 2 || capacity >= count,
            radix >= 1,
        decreases shortfall(count as int, capacity as int),
    {
        proof {
            lemma_pow_step(radix as nat, width as nat);
            assert(capacity * radix < 0x1_0000_0000_0000_0000 * 0x1_0000_0000_0000_0000)
                by (nonlinear_arith)
                requires
                    0 <= capacity < 0x1_0000_0000_0000_0000,
                    0 <= radix < 0x1_0000_0000_0000_0000,
            ;
            assert(capacity * radix >= capacity * 2) by (nonlinear_arith)
                requires
                    capacity >= 0,
                    radix >= 2,
            ;
        }
        capacity = capacity * (radix as u128);
        width = width + 1;
    }
    width
}

/// The label of `index`, `width` characters wide, as a string and as its
/// characters.
fn make_label(index: usize, alphabet: &str, symbols: &Vec<char>, width: usize) -> (label: (
    String,
    Vec<char>,
))
    requires
        symbols@ == alphabet@,
        symbols@.len() >= 1,
    ensures
        label.0@ == label_of(index as nat, alphabet@, width as nat),
        label.1@ == label.0@,
{
    let radix = symbols.len();
    let mut digits: Vec<usize> = Vec::new();
    let mut rest: usize = index;
    let mut j: usize = 0;
    proof {
        lemma_pow0(radix as int);
    }
    while j < width
        invariant
            j <= width,
            radix >= 1,
            digits@.len() == j,
            rest == index as int / pow(radix as int, j as nat),
            forall|t: int|
                0 <= t < j ==> #[trigger] digits@[t] == (index as int / pow(
                    radix as int,
                    t as nat,
                )) % (radix as int),
        decreases width - j,
    {
        proof {
            let p = pow(radix as int, j as nat);
            lemma_pow_step(radix as nat, j as nat);
            lemma_mul_is_commutative(p, radix as int);
            lemma_div_denominator(index as int, p, radix as int);
            lemma_div_pos_is_pos(index as int, p);
        }
        digits.push(rest % radix);
        rest = rest / radix;
        j = j + 1;
    }
    let mut label = String::new();
    let mut chars: Vec<char> = Vec::new();
    let mut k: usize = width;
    while k > 0
        invariant
            k <= width,
            symbols@ == alphabet@,
            radix == alphabet@.len(),
            radix >= 1,
            digits@.len() == width,
            forall|t: int|
                0 <= t < width ==> #[trigger] digits@[t] == (index as int / pow(
                    radix as int,
                    t as nat,
                )) % (radix as int),
            label@.len() == width - k,
            chars@ == label@,
            forall|p: int|
                0 <= p < width - k ==> #[trigger] label@[p] == alphabet@[digit_at_position(
                    index,
                    radix,
                    width,
                    p,
                )],
        decreases k,
    {
        k = k - 1;
        let digit = digits[k];
        proof {
            lemma_mod_bound(index as int / pow(radix as int, k as nat), radix as int);
            assert((width - 1 - (width - 1 - k)) as nat == k as nat);
        }
        let ghost before = label@;
        label.append(alphabet.substring_char(digit, digit + 1));
        chars.push(symbols[digit]);
        assert(label@ == before.push(alphabet@[digit as int]));
    }
    assert(label@ =~= label_of(index as nat, alphabet@, width as nat));
    (label, chars)
}

/// `digit_at` on machine integers.
spec fn digit_at_position(index: usize, radix: usize, width: usize, p: int) -> int {
    crate::labels::digit_at(index as nat, radix as nat, width as nat, p)
}

/// Whether no character occurs twice.
pub fn all_distinct(symbols: &[char]) -> (b: bool)
    ensures
        b == symbols@.no_duplicates(),
{
    let mut i: usize = 0;
    while i < symbols.len()
        invariant
            i <= symbols@.len(),
            forall|p: int, q: int| 0 <= p < q < symbols@.len() && p < i ==> symbols@[p] != symbols@[q],
        decreases symbols@.len() - i,
    {
        let mut k: usize = i + 1;
        while k < symbols.len()
            invariant
                i < k <= symbols@.len(),
                forall|q: int| i < q < k ==> symbols@[i as int] != symbols@[q],
            decreases symbols@.len() - k,
        {
            if symbols[i] == symbols[k] {
                return false;
            }
            k = k + 1;
        }
        i = i + 1;
    }
    true
}

/// Assigns every target the fixed-width label of its index over `alphabet`.
///
/// No targets, or an empty alphabet, give an empty map. A one-character
/// alphabet can tell only one target apart, so it may label no more than one.
pub fn generate_hints(children: &[Child], alphabet: &str) -> (result: HintMap)
    requires
        alphabet@.len() == 1 ==> children@.len() <= 1,
    ensures
        result@ == hint_map(children@, alphabet@),
{
    let mut result = HintMap::new();
    let symbols = chars_of(alphabet);
    let radix = symbols.len();
    if children.len() == 0 || radix == 0 {
        return result;
    }
    let width = width_for(children.len(), radix);
    proof {
        lemma_label_width_is(children@.len(), radix as nat, width as nat);
    }
    // where no character repeats, no label does, and none has to be looked up
    let distinct = all_distinct(symbols.as_slice());
    let mut index: usize = 0;
    while index < children.len()
        invariant
            index <= children@.len(),
            symbols@ == alphabet@,
            radix == alphabet@.len(),
            radix >= 1,
            distinct == alphabet@.no_duplicates(),
            children@.len() <= pow(radix as int, width as nat),
            result@ == labelled(children@, alphabet@, width as nat, index as nat),
        decreases children@.len() - index,
    {
        let (label, chars) = make_label(index, alphabet, &symbols, width);
        if distinct {
            proof {
                lemma_labelled_keys(children@, alphabet@, width as nat, index as nat);
                if result@.contains_key(label@) {
                    let i = choose|i: nat|
                        i < index && label_of(i, alphabet@, width as nat) == label@;
                    lemma_label_injective(i, index as nat, alphabet@, width as nat);
                }
            }
            result.insert_new(label, chars, children[index]);
        } else {
            result.insert(label, children[index]);
        }
        index = index + 1;
    }
    result
}

/// Labels the targets where the alphabet can tell them apart: `None` where
/// a one-character alphabet is asked to label more than one target.
pub fn label_targets(children: &[Child], alphabet: &str) -> (result: Option<HintMap>)
    ensures
        match result {
            Some(hints) => hints@ == hint_map(children@, alphabet@) && !(alphabet@.len() == 1
                && children@.len() > 1),
            None => alphabet@.len() == 1 && children@.len() > 1,
        },
{
    if children.len() > 1 && alphabet.unicode_len() == 1 {
        None
    } else {
        Some(generate_hints(children, alphabet))
    }
}

} // verus!