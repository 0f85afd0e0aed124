//! Character-level helpers: digits, decimal numbers and splitting.

use vstd::prelude::*;

verus! {

/// `c` is one of the ASCII digits `0` to `9`.
pub open spec fn is_digit(c: char) -> bool {
    48 <= c as u32 <= 57
}

/// The value of an ASCII digit.
pub open spec fn digit_value(c: char) -> nat {
    (c as u32 - 48) as nat
}

/// Every character of `s` is an ASCII digit.
pub open spec fn all_digits(s: Seq<char>) -> bool {
    forall|i: int| 0 <= i < s.len() ==> is_digit(#[trigger] s[i])
}

/// The number that the digits of `s` write in base ten.
pub open spec fn decimal_value(s: Seq<char>) -> nat
    decreases s.len(),
{
    if s.len() == 0 {
        0
    } else {
        decimal_value(s.drop_last()) * 10 + digit_value(s.last())
    }
}

/// `s` is a numeral that a `u32` holds: one or more digits, and nothing else.
pub open spec fn is_u32_numeral(s: Seq<char>) -> bool {
    s.len() > 0 && all_digits(s) && decimal_value(s) <= u32::MAX
}

/// The pieces of `s` between occurrences of `sep`, as `str::split` yields them:
/// one more piece than there are separators, empty pieces included.
pub open spec fn split(s: Seq<char>, sep: char) -> Seq<Seq<char>>
    decreases s.len(),
{
    if s.len() == 0 {
        seq![Seq::empty()]
    } else {
        let init = split(s.drop_last(), sep);
        if s.last() == sep {
            init.push(Seq::empty())
        } else {
            init.update(init.len() - 1, init.last().push(s.last()))
        }
    }
}

/// The contents of each vector of `v`.
pub open spec fn views(v: Seq<Vec<char>>) -> Seq<Seq<char>> {
    v.map_values(|x: Vec<char>| x@)
}

/// A longer prefix of digits never writes a smaller number.
pub proof fn lemma_decimal_prefix_le(s: Seq<char>, i: int, j: int)
    requires
        0 <= i <= j <= s.len(),
    ensures
        decimal_value(s.take(i)) <= decimal_value(s.take(j)),
    decreases j - i,
{
    if i < j {
        lemma_decimal_prefix_le(s, i, j - 1);
        assert(s.take(j).drop_last() =~= s.take(j - 1));
    }
}

/// A digit string that does not start with `0` and has two or more digits is at least ten.
pub proof fn lemma_decimal_two_digits(s: Seq<char>)
    requires
        s.len() >= 2,
        all_digits(s),
        digit_value(s[0]) != 0,
    ensures
        decimal_value(s) >= 10,
{
    lemma_decimal_prefix_le(s, 2, s.len() as int);
    let t = s.take(2);
    assert(t.drop_last() =~= s.take(1));
    assert(s.take(1).drop_last() =~= Seq::<char>::empty());
    assert(s.take(s.len() as int) =~= s);
    assert(is_digit(s[0]) && is_digit(s[1]));
    assert(s.take(1).last() == s[0]);
    assert(decimal_value(s.take(1).drop_last()) == 0);
    assert(decimal_value(s.take(1)) == digit_value(s[0]));
    assert(decimal_value(t) == decimal_value(s.take(1)) * 10 + digit_value(s[1]));
}

/// Characters with the same code are the same character.
pub proof fn lemma_char_eq(a: char, b: char)
    requires
        a as u32 == b as u32,
    ensures
        a == b,
{
    assert((a as u32) as char == a);
    assert((b as u32) as char == b);
}

/// Relies on `String::push`: appends the character at the end of the string.
#[verifier::external_body]
pub(crate) fn push_char(s: &mut String, c: char)
    ensures
        final(s)@ == old(s)@.push(c),
{
    s.push(c);
}

/// The characters of `s`, one per element.
pub fn chars_of(s: &str) -> (r: Vec<char>)
    ensures
        r@ == s@,
{
    let n = s.unicode_len();
    let mut r: Vec<char> = Vec::new();
    let mut i: usize = 0;
    while i < n
        invariant
            n == s@.len(),
            i <= n,
            r@ =~= s@.take(i as int),
        decreases n - i,
    {
        let c = s.get_char(i);
        r.push(c);
        i += 1;
        assert(r@ =~= s@.take(i as int));
    }
    r
}

/// The characters of `s` from position `lo` on.
pub fn suffix(s: &Vec<char>, lo: usize) -> (r: Vec<char>)
    requires
        lo <= s@.len(),
    ensures
        r@ == s@.skip(lo as int),
{
    let mut r: Vec<char> = Vec::new();
    let mut i: usize = lo;
    while i < s.len()
        invariant
            lo <= i <= s@.len(),
            r@ =~= s@.subrange(lo as int, i as int),
        decreases s@.len() - i,
    {
        r.push(s[i]);
        i += 1;
        assert(r@ =~= s@.subrange(lo as int, i as int));
    }
    assert(r@ =~= s@.skip(lo as int));
    r
}

/// `c` occurs in `s`.
pub fn contains_char(s: &Vec<char>, c: char) -> (r: bool)
    ensures
        r == s@.contains(c),
{
    let mut i: usize = 0;
    while i < s.len()
        invariant
            i <= s@.len(),
            forall|k: int| 0 <= k < i ==> s@[k] != c,
        decreases s@.len() - i,
    {
        if s[i] == c {
            return true;
        }
        i += 1;
    }
    false
}

/// Reads `s` as a decimal number no greater than `bound`; `None` where `s` is
/// empty, holds anything but digits, or writes a greater number.
pub fn parse_bounded(s: &Vec<char>, bound: u32) -> (r: Option<u32>)
    ensures
        r matches Some(v) ==> s@.len() > 0 && all_digits(s@) && v == decimal_value(s@) && v
            <= bound,
        r is None ==> !(s@.len() > 0 && all_digits(s@) && decimal_value(s@) <= bound),
{
    if s.len() == 0 {
        return None;
    }
    let mut v: u64 = 0;
    let mut i: usize = 0;
    while i < s.len()
        invariant
            i <= s@.len(),
            all_digits(s@.take(i as int)),
            v == decimal_value(s@.take(i as int)),
            v <= bound,
        decreases s@.len() - i,
    {
        let c = s[i];
        if !(48 <= c as u32 && c as u32 <= 57) {
            assert(!is_digit(s@[i as int]));
            return None;
        }
        let d = (c as u32 - 48) as u64;
        assert(s@.take(i + 1).drop_last() =~= s@.take(i as int));
        v = v * 10 + d;
        if v > bound as u64 {
            proof {
                lemma_decimal_prefix_le(s@, i + 1, s@.len() as int);
                assert(s@.take(s@.len() as int) =~= s@);
            }
            return None;
        }
        i += 1;
        assert forall|k: int| 0 <= k < i implies is_digit(#[trigger] s@.take(i as int)[k]) by {
            if k < i - 1 {
                assert(s@.take(i as int)[k] == s@.take(i - 1)[k]);
            }
        }
    }
    assert(s@.take(s@.len() as int) =~= s@);
    Some(v as u32)
}

/// Cuts `s` at each `sep`.
pub fn split_on(s: &Vec<char>, sep: char) -> (r: Vec<Vec<char>>)
    ensures
        views(r@) == split(s@, sep),
{
    let mut parts: Vec<Vec<char>> = Vec::new();
    let mut cur: Vec<char> = Vec::new();
    let mut i: usize = 0;
    assert(s@.take(0) =~= Seq::<char>::empty());
    assert(views(parts@).push(cur@) =~= split(s@.take(0), sep));
    while i < s.len()
        invariant
            i <= s@.len(),
            views(parts@).push(cur@) == split(s@.take(i as int), sep),
        decreases s@.len() - i,
    {
        let c = s[i];
        let ghost before = s@.take(i as int);
        assert(s@.take(i + 1).drop_last() =~= before);
        if c == sep {
            parts.push(cur);
            cur = Vec::new();
        } else {
            cur.push(c);
        }
        i += 1;
        assert(views(parts@).push(cur@) =~= split(s@.take(i as int), sep));
    }
    parts.push(cur);
    assert(s@.take(s@.len() as int) =~= s@);
    assert(views(parts@) =~= split(s@, sep));
    parts
}

} // verus!
