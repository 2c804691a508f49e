//! Texts as sequences of characters: what the parsers and the label lookup
//! share.

use vstd::prelude::*;

verus! {

/// The characters of `text`.
pub fn chars_of(text: &str) -> (chars: Vec<char>)
    ensures
        chars@ == text@,
{
    let mut chars: Vec<char> = Vec::new();
    for c in it: text.chars()
        invariant
            chars@ == text@.take(it.index() as int),
            it.seq() == text@,
    {
        chars.push(c);
    }
    chars
}

/// Whether `text` starts with `prefix`.
pub fn starts_with(text: &[char], prefix: &[char]) -> (b: bool)
    ensures
        b == prefix@.is_prefix_of(text@),
{
    if prefix.len() > text.len() {
        return false;
    }
    let mut i: usize = 0;
    while i < prefix.len()
        invariant
            i <= prefix@.len() <= text@.len(),
            forall|k: int| 0 <= k < i ==> prefix@[k] == text@[k],
        decreases prefix@.len() - i,
    {
        if prefix[i] != text[i] {
            return false;
        }
        i = i + 1;
    }
    assert(prefix@ =~= text@.subrange(0, prefix@.len() as int));
    true
}

/// Whether two texts are the same.
pub fn same_text(left: &[char], right: &[char]) -> (b: bool)
    ensures
        b == (left@ == right@),
{
    let same = left.len() == right.len() && starts_with(left, right);
    proof {
        if same {
            assert(left@ =~= right@);
        }
    }
    same
}

/// Whether `c` is white space: the characters with the Unicode property
/// `White_Space`.
pub open spec fn spec_is_whitespace(c: char) -> bool {
    let code = c as u32;
    ||| 0x09 <= code <= 0x0D
    ||| code == 0x20
    ||| code == 0x85
    ||| code == 0xA0
    ||| code == 0x1680
    ||| 0x2000 <= code <= 0x200A
    ||| code == 0x2028
    ||| code == 0x2029
    ||| code == 0x202F
    ||| code == 0x205F
    ||| code == 0x3000
}

#[verifier::when_used_as_spec(spec_is_whitespace)]
pub fn is_whitespace(c: char) -> (b: bool)
    ensures
        b == spec_is_whitespace(c),
{
    let code = c as u32;
    (0x09 <= code && code <= 0x0D) || code == 0x20 || code == 0x85 || code == 0xA0 || code
        == 0x1680 || (0x2000 <= code && code <= 0x200A) || code == 0x2028 || code == 0x2029
        || code == 0x202F || code == 0x205F || code == 0x3000
}

/// `text` without the white space at its start.
pub open spec fn spec_trim_start(text: Seq<char>) -> Seq<char>
    decreases text.len(),
{
    if text.len() > 0 && spec_is_whitespace(text[0]) {
        spec_trim_start(text.skip(1))
    } else {
        text
    }
}

/// `text` without the white space at its end.
pub open spec fn spec_trim_end(text: Seq<char>) -> Seq<char>
    decreases text.len(),
{
    if text.len() > 0 && spec_is_whitespace(text.last()) {
        spec_trim_end(text.drop_last())
    } else {
        text
    }
}

/// `text` without the white space at its ends.
pub open spec fn spec_trim(text: Seq<char>) -> Seq<char> {
    spec_trim_end(spec_trim_start(text))
}

/// `chars` without the white space at its ends, as the positions where what
/// is left starts and ends.
pub fn trim(chars: &[char]) -> (range: (usize, usize))
    ensures
        range.0 <= range.1 <= chars@.len(),
        chars@.subrange(range.0 as int, range.1 as int) == spec_trim(chars@),
{
    let to = chars.len();
    let mut start: usize = 0;
    assert(chars@.subrange(0, to as int) =~= chars@);
    while start < to && is_whitespace(chars[start])
        invariant
            start <= to == chars@.len(),
            spec_trim_start(chars@.subrange(start as int, to as int)) == spec_trim_start(chars@),
        decreases to - start,
    {
        assert(chars@.subrange(start as int, to as int).skip(1) =~= chars@.subrange(
            start + 1,
            to as int,
        ));
        start = start + 1;
    }
    let mut end = to;
    while end > start && is_whitespace(chars[end - 1])
        invariant
            start <= end <= to == chars@.len(),
            spec_trim_end(chars@.subrange(start as int, end as int)) == spec_trim_end(
                chars@.subrange(start as int, to as int),
            ),
        decreases end - start,
    {
        assert(chars@.subrange(start as int, end as int).drop_last() =~= chars@.subrange(
            start as int,
            end - 1,
        ));
        end = end - 1;
    }
    (start, end)
}

/// A line break is at `at`, and none before it.
pub open spec fn is_first_break(text: Seq<char>, at: int) -> bool {
    &&& 0 <= at < text.len()
    &&& text[at] == '\n'
    &&& forall|k: int| 0 <= k < at ==> text[k] != '\n'
}

/// `line` without the carriage return at its end, if it has one.
pub open spec fn spec_strip_return(line: Seq<char>) -> Seq<char> {
    if line.len() > 0 && line.last() == '\r' {
        line.drop_last()
    } else {
        line
    }
}

/// The lines of `text`. A line ends with a line feed, which may follow a
/// carriage return; neither belongs to the line. What follows the last line
/// feed is a line too, unless it is empty.
pub open spec fn spec_lines(text: Seq<char>) -> Seq<Seq<char>>
    decreases text.len(),
{
    if text.len() == 0 {
        Seq::empty()
    } else if exists|at: int| is_first_break(text, at) {
        let at = choose|at: int| is_first_break(text, at);
        seq![spec_strip_return(text.subrange(0, at))] + spec_lines(text.skip(at + 1))
    } else {
        seq![text]
    }
}

/// The parts of `chars` that `ranges` delimit.
pub open spec fn cut(chars: Seq<char>, ranges: Seq<(usize, usize)>) -> Seq<Seq<char>> {
    Seq::new(ranges.len(), |i: int| chars.subrange(ranges[i].0 as int, ranges[i].1 as int))
}

/// The lines of `chars`, as the positions where each starts and ends.
pub fn lines(chars: &[char]) -> (ranges: Vec<(usize, usize)>)
    ensures
        cut(chars@, ranges@) == spec_lines(chars@),
        forall|i: int|
            0 <= i < ranges@.len() ==> (#[trigger] ranges@[i]).0 <= ranges@[i].1 <= chars@.len(),
{
    let mut ranges: Vec<(usize, usize)> = Vec::new();
    let mut start: usize = 0;
    let mut at: usize = 0;
    assert(chars@.skip(0) =~= chars@);
    while at < chars.len()
        invariant
            start <= at <= chars@.len(),
            forall|k: int| start <= k < at ==> chars@[k] != '\n',
            spec_lines(chars@) == cut(chars@, ranges@) + spec_lines(chars@.skip(start as int)),
            forall|i: int|
                0 <= i < ranges@.len() ==> (#[trigger] ranges@[i]).0 <= ranges@[i].1
                    <= chars@.len(),
        decreases chars@.len() - at,
    {
        if chars[at] == '\n' {
            let end = if at > start && chars[at - 1] == '\r' {
                (at - 1) as usize
            } else {
                at
            };
            proof {
                let rest = chars@.skip(start as int);
                assert(is_first_break(rest, at - start));
                let found = choose|found: int| is_first_break(rest, found);
                assert(found == at - start) by {
                    if found < at - start {
                        assert(rest[found] == chars@[start + found]);
                    } else if found > at - start {
                        assert(rest[at - start] == '\n');
                    }
                }
                assert(rest.subrange(0, at - start) =~= chars@.subrange(start as int, at as int));
                assert(spec_strip_return(chars@.subrange(start as int, at as int))
                    =~= chars@.subrange(start as int, end as int));
                assert(rest.skip(at - start + 1) =~= chars@.skip(at + 1));
                assert(cut(chars@, ranges@.push((start, end))) =~= cut(chars@, ranges@) + seq![
                    chars@.subrange(start as int, end as int),
                ]);
            }
            ranges.push((start, end));
            start = at + 1;
        }
        at = at + 1;
    }
    if start < chars.len() {
        proof {
            let rest = chars@.skip(start as int);
            assert(!(exists|found: int| is_first_break(rest, found))) by {
                if exists|found: int| is_first_break(rest, found) {
                    let found = choose|found: int| is_first_break(rest, found);
                    assert(rest[found] == chars@[start + found]);
                }
            }
            assert(rest =~= chars@.subrange(start as int, chars@.len() as int));
            assert(cut(chars@, ranges@.push((start, chars@.len() as usize))) =~= cut(
                chars@,
                ranges@,
            ) + seq![rest]);
        }
        ranges.push((start, chars.len()));
    } else {
        assert(chars@.skip(start as int) =~= Seq::<char>::empty());
    }
    ranges
}

/// Whether `pattern` occurs in `text`.
pub open spec fn spec_contains(text: Seq<char>, pattern: Seq<char>) -> bool {
    exists|at: int|
        0 <= at <= text.len() - pattern.len() && #[trigger] text.subrange(
            at,
            at + pattern.len(),
        ) == pattern
}

/// Whether `pattern` occurs in `text`.
pub fn contains(text: &[char], pattern: &[char]) -> (found: bool)
    ensures
        found == spec_contains(text@, pattern@),
{
    if pattern.len() > text.len() {
        return false;
    }
    let last = text.len() - pattern.len();
    let mut at: usize = 0;
    while at <= last
        invariant
            at <= last + 1,
            last == text@.len() - pattern@.len(),
            pattern@.len() <= text@.len() <= usize::MAX,
            forall|k: int| 0 <= k < at ==> #[trigger] text@.subrange(k, k + pattern@.len()) != pattern@,
        decreases last + 1 - at,
    {
        let mut i: usize = 0;
        let mut same = true;
        while i < pattern.len()
            invariant
                at <= last,
                last == text@.len() - pattern@.len(),
                pattern@.len() <= text@.len() <= usize::MAX,
                i <= pattern@.len(),
                same ==> forall|k: int| 0 <= k < i ==> text@[at + k] == pattern@[k],
                !same ==> exists|k: int| 0 <= k < pattern@.len() && text@[at + k] != pattern@[k],
            decreases pattern@.len() - i,
        {
            if text[at + i] != pattern[i] {
                same = false;
            }
            i = i + 1;
        }
        if same {
            assert(text@.subrange(at as int, at + pattern@.len()) =~= pattern@);
            return true;
        } else {
            let ghost k = choose|k: int| 0 <= k < pattern@.len() && text@[at + k] != pattern@[k];
            assert(text@.subrange(at as int, at + pattern@.len())[k] != pattern@[k]);
        }
        at = at + 1;
    }
    false
}

/// Whether every character is a decimal digit.
pub open spec fn all_digits(text: Seq<char>) -> bool {
    forall|i: int| 0 <= i < text.len() ==> '0' <= #[trigger] text[i] && text[i] <= '9'
}

/// The number that decimal digits spell.
pub open spec fn digits_value(digits: Seq<char>) -> int
    decreases digits.len(),
{
    if digits.len() == 0 {
        0
    } else {
        digits_value(digits.drop_last()) * 10 + (digits.last() as u32 - '0' as u32)
    }
}

/// The 32-bit number that `text` spells: a sign, `+` or `-`, if it likes,
/// and then decimal digits, one at least, nothing else.
pub open spec fn spec_parse_i32(text: Seq<char>) -> Option<i32> {
    let negative = text.len() > 0 && text[0] == '-';
    let digits = if text.len() > 0 && (text[0] == '-' || text[0] == '+') {
        text.skip(1)
    } else {
        text
    };
    let value = if negative {
        -digits_value(digits)
    } else {
        digits_value(digits)
    };
    if digits.len() > 0 && all_digits(digits) && i32::MIN <= value <= i32::MAX {
        Some(value as i32)
    } else {
        None
    }
}

/// More digits do not spell a smaller number.
proof fn lemma_digits_grow(digits: Seq<char>, count: int)
    requires
        all_digits(digits),
        0 <= count <= digits.len(),
    ensures
        0 <= digits_value(digits.take(count)) <= digits_value(digits),
    decreases digits.len() - count,
{
    if count == 0 {
        assert(digits.take(0) =~= Seq::<char>::empty());
        lemma_digits_nonnegative(digits);
    } else if count < digits.len() {
        lemma_digits_grow(digits, count + 1);
        assert(digits.take(count + 1).drop_last() =~= digits.take(count));
        lemma_digits_nonnegative(digits.take(count));
    } else {
        assert(digits.take(count) =~= digits);
        lemma_digits_nonnegative(digits);
    }
}

/// Digits spell no negative number.
proof fn lemma_digits_nonnegative(digits: Seq<char>)
    requires
        all_digits(digits),
    ensures
        digits_value(digits) >= 0,
    decreases digits.len(),
{
    if digits.len() > 0 {
        lemma_digits_nonnegative(digits.drop_last());
    }
}

/// The 32-bit number that `chars` spell.
pub fn parse_i32(chars: &[char]) -> (number: Option<i32>)
    ensures
        number == spec_parse_i32(chars@),
{
    let ghost text = chars@;
    let to = chars.len();
    if to == 0 {
        return None;
    }
    let negative = chars[0] == '-';
    let first: usize = if chars[0] == '-' || chars[0] == '+' {
        1
    } else {
        0
    };
    let ghost digits = chars@.subrange(first as int, to as int);
    assert(digits =~= if text[0] == '-' || text[0] == '+' {
        text.skip(1)
    } else {
        text
    });
    if first == to {
        return None;
    }
    let mut value: i64 = 0;
    let mut at: usize = first;
    assert(digits.take(0) =~= Seq::<char>::empty());
    while at < to
        invariant
            first <= at <= to == chars@.len(),
            first < to,
            text == chars@,
            negative == (text[0] == '-'),
            digits == if text[0] == '-' || text[0] == '+' {
                text.skip(1)
            } else {
                text
            },
            digits == chars@.subrange(first as int, to as int),
            all_digits(digits.take(at - first)),
            value == digits_value(digits.take(at - first)),
            0 <= value <= 0x8000_0000,
        decreases to - at,
    {
        let c = chars[at];
        assert(digits[at - first] == c);
        if c < '0' || c > '9' {
            return None;
        }
        proof {
            assert(digits.take(at - first + 1).drop_last() =~= digits.take(at - first));
            assert(digits.take(at - first + 1).last() == c);
        }
        value = value * 10 + ((c as u32) - ('0' as u32)) as i64;
        if value > 0x8000_0000 {
            proof {
                if all_digits(digits) {
                    lemma_digits_grow(digits, at - first + 1);
                }
            }
            return None;
        }
        at = at + 1;
    }
    assert(digits.take(at - first) =~= digits);
    if negative {
        Some((-value) as i32)
    } else if value > i32::MAX as i64 {
        None
    } else {
        Some(value as i32)
    }
}

} // verus!
