//! The arithmetic of fixed-width labels: how wide they are, which characters
//! they hold, and why distinct indices never share a label.

use vstd::arithmetic::div_mod::{
    lemma_div_denominator, lemma_div_pos_is_pos, lemma_fundamental_div_mod, lemma_mod_bound,
    lemma_multiply_divide_lt,
};
use vstd::arithmetic::mul::lemma_mul_is_commutative;
use vstd::arithmetic::power::{lemma_pow0, lemma_pow1, lemma_pow_adds, lemma_pow_increases, lemma_pow_positive, pow};
use vstd::prelude::*;

verus! {

/// `width` is the label width for `count` targets over `radix` symbols: the
/// least width of at least one whose `radix^width` labels suffice.
pub open spec fn is_label_width(count: nat, radix: nat, width: nat) -> bool {
    &&& width >= 1
    &&& pow(radix as int, width) >= count
    &&& width > 1 ==> pow(radix as int, (width - 1) as nat) < count
}

/// The label width for `count` targets over `radix` symbols.
pub open spec fn label_width(count: nat, radix: nat) -> nat {
    choose|width: nat| is_label_width(count, radix, width)
}

/// The digit at position `k` (0 is the most significant) of `index` written
/// in base `radix` with exactly `width` digits.
pub open spec fn digit_at(index: nat, radix: nat, width: nat, k: int) -> int {
    (index as int / pow(radix as int, (width - 1 - k) as nat)) % (radix as int)
}

/// The label of `index`: its `width` base-`radix` digits, most significant
/// first, each written as the alphabet's character of that rank.
pub open spec fn label_of(index: nat, alphabet: Seq<char>, width: nat) -> Seq<char> {
    Seq::new(width, |k: int| alphabet[digit_at(index, alphabet.len(), width, k)])
}

/// The number that a label spells: each character counts as its rank in the
/// alphabet, most significant first.
pub open spec fn label_value(label: Seq<char>, alphabet: Seq<char>) -> int
    decreases label.len(),
{
    if label.len() == 0 {
        0
    } else {
        label_value(label.drop_last(), alphabet) * alphabet.len() + alphabet.index_of(
            label.last(),
        )
    }
}

/// One more power of the radix is one more multiplication.
pub proof fn lemma_pow_step(radix: nat, e: nat)
    ensures
        pow(radix as int, e + 1) == pow(radix as int, e) * radix,
        radix >= 1 ==> pow(radix as int, e) >= 1,
{
    lemma_pow_adds(radix as int, e, 1);
    lemma_pow1(radix as int);
    if radix >= 1 {
        lemma_pow_positive(radix as int, e);
    }
}

/// At most one width fits a given count and radix.
pub proof fn lemma_label_width_unique(count: nat, radix: nat, w1: nat, w2: nat)
    requires
        radix >= 1,
        is_label_width(count, radix, w1),
        is_label_width(count, radix, w2),
    ensures
        w1 == w2,
{
    if w1 < w2 {
        lemma_pow_increases(radix, w1, (w2 - 1) as nat);
    } else if w2 < w1 {
        lemma_pow_increases(radix, w2, (w1 - 1) as nat);
    }
}

/// A width that fits is the label width.
pub proof fn lemma_label_width_is(count: nat, radix: nat, width: nat)
    requires
        radix >= 1,
        is_label_width(count, radix, width),
    ensures
        label_width(count, radix) == width,
{
    lemma_label_width_unique(count, radix, width, label_width(count, radix));
}

/// How many labels `capacity` falls short of `count`.
pub open spec fn shortfall(count: int, capacity: int) -> nat {
    if capacity < count {
        (count - capacity) as nat
    } else {
        0
    }
}

/// From a width whose predecessors all fall short, some width fits.
proof fn lemma_label_width_search(count: nat, radix: nat, from: nat) -> (width: nat)
    requires
        radix >= 2,
        from >= 1,
        from > 1 ==> pow(radix as int, (from - 1) as nat) < count,
    ensures
        is_label_width(count, radix, width),
    decreases shortfall(count as int, pow(radix as int, from)),
{
    lemma_pow_step(radix, from);
    if pow(radix as int, from) >= count {
        from
    } else {
        assert(pow(radix as int, from) * radix >= pow(radix as int, from) * 2)
            by (nonlinear_arith)
            requires
                pow(radix as int, from) >= 1,
                radix >= 2,
        ;
        lemma_label_width_search(count, radix, from + 1)
    }
}

/// Over two or more symbols every count has its label width.
pub proof fn lemma_label_width_exists(count: nat, radix: nat)
    requires
        radix >= 2,
    ensures
        is_label_width(count, radix, label_width(count, radix)),
{
    let width = lemma_label_width_search(count, radix, 1);
    assert(is_label_width(count, radix, width));
}

/// Dropping the last character of a label leaves the label of the index
/// divided by the radix, one character narrower.
pub proof fn lemma_label_drop_last(index: nat, alphabet: Seq<char>, width: nat)
    requires
        alphabet.len() >= 1,
        width >= 1,
    ensures
        label_of(index, alphabet, width).drop_last() == label_of(
            index / alphabet.len(),
            alphabet,
            (width - 1) as nat,
        ),
        label_of(index, alphabet, width).last() == alphabet[(index % alphabet.len()) as int],
{
    let radix = alphabet.len();
    let full = label_of(index, alphabet, width);
    let rest = label_of(index / radix, alphabet, (width - 1) as nat);
    lemma_div_pos_is_pos(index as int, radix as int);
    assert forall|k: int| 0 <= k < width - 1 implies full.drop_last()[k] == rest[k] by {
        let e = (width - 2 - k) as nat;
        lemma_pow_step(radix, e);
        lemma_mul_is_commutative(pow(radix as int, e), radix as int);
        lemma_div_denominator(index as int, radix as int, pow(radix as int, e));
        assert((width - 1 - k) as nat == e + 1);
        assert(digit_at(index, radix, width, k) == digit_at(
            index / radix,
            radix,
            (width - 1) as nat,
            k,
        ));
    }
    assert(full.drop_last() =~= rest);
    lemma_pow0(radix as int);
    assert((width - 1 - (width - 1)) as nat == 0);
    assert(digit_at(index, radix, width, width - 1) == index % radix);
}

/// Reading a label back gives the index that it was made from.
pub proof fn lemma_label_value(index: nat, alphabet: Seq<char>, width: nat)
    requires
        alphabet.no_duplicates(),
        alphabet.len() >= 1,
        index < pow(alphabet.len() as int, width),
    ensures
        label_value(label_of(index, alphabet, width), alphabet) == index,
    decreases width,
{
    let radix = alphabet.len();
    let label = label_of(index, alphabet, width);
    if width == 0 {
        lemma_pow0(radix as int);
    } else {
        lemma_label_drop_last(index, alphabet, width);
        lemma_pow_step(radix, (width - 1) as nat);
        assert(pow(radix as int, width) == pow(radix as int, (width - 1) as nat) * radix);
        lemma_mul_is_commutative(pow(radix as int, (width - 1) as nat), radix as int);
        lemma_multiply_divide_lt(
            index as int,
            radix as int,
            pow(radix as int, (width - 1) as nat),
        );
        lemma_div_pos_is_pos(index as int, radix as int);
        lemma_label_value(index / radix, alphabet, (width - 1) as nat);
        let d = (index % radix) as int;
        lemma_mod_bound(index as int, radix as int);
        assert(alphabet.index_of(alphabet[d]) == d) by {
            let found = alphabet.index_of(alphabet[d]);
            assert(0 <= found < alphabet.len() && alphabet[found] == alphabet[d]);
        }
        lemma_fundamental_div_mod(index as int, radix as int);
        assert((index / radix) * radix == radix * (index / radix)) by {
            lemma_mul_is_commutative((index / radix) as int, radix as int);
        }
    }
}

/// Two indices below `radix^width` with the same label are the same index.
pub proof fn lemma_label_injective(i: nat, j: nat, alphabet: Seq<char>, width: nat)
    requires
        alphabet.no_duplicates(),
        alphabet.len() >= 1,
        i < pow(alphabet.len() as int, width),
        j < pow(alphabet.len() as int, width),
        label_of(i, alphabet, width) == label_of(j, alphabet, width),
    ensures
        i == j,
{
    lemma_label_value(i, alphabet, width);
    lemma_label_value(j, alphabet, width);
}

} // verus!
