//! Node paths and sets of them.
//!
//! A node of the accessibility tree is known by its path alone. Two paths
//! name the same node exactly when they are the same text.

use std::collections::HashMap;
use vstd::prelude::*;
use vstd::string::StringSliceAdditionalSpecFns;
use vstd::utf8::encode_utf8;

verus! {

/// The path that stands for "no node".
pub const NULL_PATH: &'static str = "/org/a11y/atspi/null";

/// The path of the root of the accessibility tree.
pub const ROOT_PATH: &'static str = "/org/a11y/atspi/accessible/root";

/// The texts of a sequence of paths.
pub open spec fn texts(paths: Seq<String>) -> Seq<Seq<char>> {
    Seq::new(paths.len(), |i: int| paths[i]@)
}

/// The number that a path is filed under: its bytes read as digits to the
/// base 31, cut to 64 bits.
pub open spec fn bucket_of(bytes: Seq<u8>) -> u64
    decreases bytes.len(),
{
    if bytes.len() == 0 {
        0
    } else {
        ((bucket_of(bytes.drop_last()) * 31 + bytes.last()) % 0x1_0000_0000_0000_0000) as u64
    }
}

/// The number that the text of a path is filed under.
pub open spec fn spec_bucket(text: Seq<char>) -> u64 {
    bucket_of(encode_utf8(text))
}

/// The number that `path` is filed under.
fn bucket(path: &String) -> (number: u64)
    ensures
        number == spec_bucket(path@),
{
    let bytes = path.as_str().as_bytes();
    let mut number: u64 = 0;
    let mut i: usize = 0;
    assert(bytes@.take(0) =~= Seq::<u8>::empty());
    while i < bytes.len()
        invariant
            i <= bytes@.len(),
            number == bucket_of(bytes@.take(i as int)),
        decreases bytes@.len() - i,
    {
        assert(bytes@.take(i + 1).drop_last() =~= bytes@.take(i as int));
        let wide: u128 = (number as u128) * 31 + (bytes[i] as u128);
        number = (wide % 0x1_0000_0000_0000_0000) as u64;
        i = i + 1;
    }
    assert(bytes@.take(i as int) =~= bytes@);
    number
}

/// The paths that a traversal has met.
pub struct PathSet {
    /// The paths, each filed under its number.
    buckets: HashMap<u64, Vec<String>>,
}

impl View for PathSet {
    type V = Set<Seq<char>>;

    closed spec fn view(&self) -> Set<Seq<char>> {
        Set::new(
            |text: Seq<char>|
                self.buckets@.contains_key(spec_bucket(text)) && texts(
                    self.buckets@[spec_bucket(text)]@,
                ).contains(text),
        )
    }
}

impl PathSet {
    #[verifier::type_invariant]
    spec fn well_formed(self) -> bool {
        forall|number: u64, i: int|
            self.buckets@.contains_key(number) && 0 <= i < self.buckets@[number]@.len()
                ==> spec_bucket(#[trigger] self.buckets@[number]@[i]@) == number
    }

    /// The empty set.
    pub fn new() -> (set: PathSet)
        ensures
            set@ == Set::<Seq<char>>::empty(),
    {
        let set = PathSet { buckets: HashMap::new() };
        assert(set@ =~= Set::<Seq<char>>::empty());
        set
    }

    /// Whether `path` is in the set.
    pub fn contains(&self, path: &String) -> (found: bool)
        ensures
            found == self@.contains(path@),
    {
        broadcast use vstd::std_specs::hash::group_hash_axioms;

        let number = bucket(path);
        match self.buckets.get(&number) {
            Some(filed) => {
                let mut i: usize = 0;
                while i < filed.len()
                    invariant
                        i <= filed@.len(),
                        number == spec_bucket(path@),
                        self.buckets@.contains_key(number),
                        self.buckets@[number] == *filed,
                        forall|k: int| 0 <= k < i ==> filed@[k]@ != path@,
                    decreases filed@.len() - i,
                {
                    if filed[i] == *path {
                        assert(texts(filed@)[i as int] == path@);
                        return true;
                    }
                    i = i + 1;
                }
                assert forall|k: int| 0 <= k < texts(filed@).len() implies texts(filed@)[k]
                    != path@ by {
                    assert(texts(filed@)[k] == filed@[k]@);
                }
                false
            },
            None => false,
        }
    }

    /// Adds `path`; says whether it was new.
    pub fn insert(&mut self, path: String) -> (added: bool)
        ensures
            added == !old(self)@.contains(path@),
            final(self)@ == old(self)@.insert(path@),
    {
        broadcast use vstd::std_specs::hash::group_hash_axioms;

        proof {
            use_type_invariant(&*self);
        }
        if self.contains(&path) {
            assert(self@.insert(path@) =~= self@);
            return false;
        }
        let ghost before = *self;
        let number = bucket(&path);
        let mut buckets: HashMap<u64, Vec<String>> = HashMap::new();
        core::mem::swap(&mut self.buckets, &mut buckets);
        let mut filed = match buckets.remove(&number) {
            Some(filed) => filed,
            None => Vec::new(),
        };
        let ghost filed_before = filed@;
        filed.push(path);
        assert(texts(filed@) =~= texts(filed_before).push(path@));
        buckets.insert(number, filed);
        self.buckets = buckets;
        assert(self@ =~= before@.insert(path@)) by {
            assert forall|text: Seq<char>|
                self@.contains(text) <==> before@.insert(path@).contains(text) by {
                if spec_bucket(text) == number {
                    if texts(filed_before).push(path@).contains(text) {
                        let k = choose|k: int|
                            0 <= k < texts(filed_before).push(path@).len() && texts(
                                filed_before,
                            ).push(path@)[k] == text;
                        if k < filed_before.len() {
                            assert(texts(filed_before)[k] == text);
                        }
                    }
                    if before.buckets@.contains_key(number) && texts(filed_before).contains(text) {
                        let k = choose|k: int|
                            0 <= k < texts(filed_before).len() && texts(filed_before)[k] == text;
                        assert(texts(filed_before).push(path@)[k] == text);
                    }
                    if text == path@ {
                        assert(texts(filed_before).push(path@)[filed_before.len() as int]
                            == text);
                    }
                }
            }
        }
        true
    }
}

} // verus!
