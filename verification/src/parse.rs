//! Interpretation of console input: reading a cell number out of a typed
//! line, and reading the answer to the replay prompt.

use vstd::prelude::*;
use vstd::string::StrSliceExecFns;

verus! {

/// The characters ignored at either end of a typed line: the ASCII
/// whitespace set (space, tab, line feed, form feed, carriage return).
pub open spec fn is_space_char(c: char) -> bool {
    c == ' ' || c == '\t' || c == '\n' || c == '\u{c}' || c == '\r'
}

/// A decimal digit.
pub open spec fn is_digit_char(c: char) -> bool {
    48 <= c as int && c as int <= 57
}

/// Numeric value of a decimal digit.
pub open spec fn digit_val(c: char) -> int {
    c as int - 48
}

/// The sequence with its leading whitespace removed.
pub open spec fn trim_front(s: Seq<char>) -> Seq<char>
    decreases s.len(),
{
    if s.len() > 0 && is_space_char(s[0]) {
        trim_front(s.drop_first())
    } else {
        s
    }
}

/// The sequence with its trailing whitespace removed.
pub open spec fn trim_back(s: Seq<char>) -> Seq<char>
    decreases s.len(),
{
    if s.len() > 0 && is_space_char(s.last()) {
        trim_back(s.drop_last())
    } else {
        s
    }
}

/// The sequence with whitespace removed from both ends.
pub open spec fn trim_spec(s: Seq<char>) -> Seq<char> {
    trim_back(trim_front(s))
}

/// All characters are decimal digits.
pub open spec fn all_digits(s: Seq<char>) -> bool {
    forall|i: int| 0 <= i < s.len() ==> is_digit_char(#[trigger] s[i])
}

/// Value of a digit string read in base ten.
pub open spec fn dec_value(s: Seq<char>) -> int
    decreases s.len(),
{
    if s.len() == 0 {
        0
    } else {
        dec_value(s.drop_last()) * 10 + digit_val(s.last())
    }
}

/// What a typed line means as a cell number: after trimming whitespace it
/// must be one or more decimal digits whose value fits in a `u32`;
/// anything else is not a number.
pub open spec fn parse_number_spec(s: Seq<char>) -> Option<u32> {
    let t = trim_spec(s);
    if t.len() > 0 && all_digits(t) && dec_value(t) <= u32::MAX {
        Some(dec_value(t) as u32)
    } else {
        None
    }
}

/// The answer to the replay prompt declines another round: ignoring
/// surrounding whitespace and letter case, it is exactly "n".
pub open spec fn declines_replay(s: Seq<char>) -> bool {
    trim_spec(s) =~= seq!['n'] || trim_spec(s) =~= seq!['N']
}

proof fn lemma_trim_front_skip(s: Seq<char>, k: int)
    requires
        0 <= k <= s.len(),
        forall|i: int| 0 <= i < k ==> is_space_char(#[trigger] s[i]),
        k == s.len() || !is_space_char(s[k]),
    ensures
        trim_front(s) =~= s.subrange(k, s.len() as int),
    decreases k,
{
    if k == 0 {
        assert(trim_front(s) =~= s.subrange(0, s.len() as int));
    } else {
        let t = s.drop_first();
        lemma_trim_front_skip(t, k - 1);
        assert(t.subrange(k - 1, t.len() as int) =~= s.subrange(k, s.len() as int));
    }
}

proof fn lemma_trim_back_skip(s: Seq<char>, e: int)
    requires
        0 <= e <= s.len(),
        forall|i: int| e <= i < s.len() ==> is_space_char(#[trigger] s[i]),
        e == 0 || !is_space_char(s[e - 1]),
    ensures
        trim_back(s) =~= s.subrange(0, e),
    decreases s.len(),
{
    if e == s.len() {
        assert(trim_back(s) =~= s.subrange(0, e));
    } else {
        let t = s.drop_last();
        lemma_trim_back_skip(t, e);
        assert(t.subrange(0, e) =~= s.subrange(0, e));
    }
}

proof fn lemma_dec_value_nonneg(s: Seq<char>)
    requires
        all_digits(s),
    ensures
        dec_value(s) >= 0,
    decreases s.len(),
{
    if s.len() > 0 {
        assert(forall|i: int|
            0 <= i < s.drop_last().len() ==> is_digit_char(#[trigger] s.drop_last()[i]));
        lemma_dec_value_nonneg(s.drop_last());
    }
}

proof fn lemma_dec_value_prefix_le(s: Seq<char>, m: int)
    requires
        all_digits(s),
        0 <= m <= s.len(),
    ensures
        dec_value(s.subrange(0, m)) <= dec_value(s),
    decreases s.len() - m,
{
    if m == s.len() {
        assert(s.subrange(0, m) =~= s);
    } else {
        let p = s.subrange(0, m + 1);
        assert(p.drop_last() =~= s.subrange(0, m));
        assert(forall|i: int|
            0 <= i < s.subrange(0, m).len() ==> is_digit_char(#[trigger] s.subrange(0, m)[i]));
        lemma_dec_value_nonneg(s.subrange(0, m));
        assert(dec_value(p) == dec_value(s.subrange(0, m)) * 10 + digit_val(s[m]));
        lemma_dec_value_prefix_le(s, m + 1);
    }
}

/// Whether `c` is ignored at the ends of a typed line.
fn is_space(c: char) -> (r: bool)
    ensures
        r == is_space_char(c),
{
    c == ' ' || c == '\t' || c == '\n' || c == '\u{c}' || c == '\r'
}

/// Finds the span `[start, end)` of `s` that remains once whitespace is
/// removed from both ends.
fn trim_bounds(s: &str) -> (bounds: (usize, usize))
    ensures
        bounds.0 <= bounds.1 <= s@.len(),
        trim_spec(s@) == s@.subrange(bounds.0 as int, bounds.1 as int),
{
    let n = s.unicode_len();
    let mut start: usize = 0;
    loop
        invariant
            0 <= start <= n,
            n == s@.len(),
            forall|i: int| 0 <= i < start ==> is_space_char(#[trigger] s@[i]),
        ensures
            0 <= start <= n,
            forall|i: int| 0 <= i < start ==> is_space_char(#[trigger] s@[i]),
            start == n || !is_space_char(s@[start as int]),
        decreases n - start,
    {
        if start >= n {
            break;
        }
        let c = s.get_char(start);
        if !is_space(c) {
            break;
        }
        start = start + 1;
    }
    let mut end: usize = n;
    loop
        invariant
            start <= end <= n,
            n == s@.len(),
            forall|i: int| end <= i < n ==> is_space_char(#[trigger] s@[i]),
        ensures
            start <= end <= n,
            forall|i: int| end <= i < n ==> is_space_char(#[trigger] s@[i]),
            end == start || !is_space_char(s@[end - 1]),
        decreases end,
    {
        if end <= start {
            break;
        }
        let c = s.get_char(end - 1);
        if !is_space(c) {
            break;
        }
        end = end - 1;
    }
    proof {
        lemma_trim_front_skip(s@, start as int);
        lemma_trim_back_skip(
            s@.subrange(start as int, s@.len() as int),
            end - start,
        );
        assert(s@.subrange(start as int, s@.len() as int).subrange(0, end - start) =~= s@.subrange(
            start as int,
            end as int,
        ));
        assert(trim_spec(s@) == s@.subrange(start as int, end as int));
    }
    (start, end)
}

/// Reads a typed line as a decimal cell number: whitespace at either end is
/// ignored, and the rest must be one or more digits whose value fits in a
/// `u32`; any other line is no number at all.
pub fn parse_number(s: &str) -> (r: Option<u32>)
    ensures
        r == parse_number_spec(s@),
{
    let (start, end) = trim_bounds(s);
    let ghost t = trim_spec(s@);
    if start == end {
        proof {
            assert(t.len() == 0);
        }
        return None;
    }
    let mut acc: u32 = 0;
    let mut i: usize = start;
    loop
        invariant
            start <= i <= end,
            end <= s@.len(),
            start < end,
            t == s@.subrange(start as int, end as int),
            t == trim_spec(s@),
            forall|j: int| start <= j < i ==> is_digit_char(#[trigger] s@[j]),
            acc == dec_value(s@.subrange(start as int, i as int)),
        ensures
            i == end,
            forall|j: int| start <= j < i ==> is_digit_char(#[trigger] s@[j]),
            acc == dec_value(s@.subrange(start as int, i as int)),
        decreases end - i,
    {
        if i >= end {
            break;
        }
        let c = s.get_char(i);
        let v = c as u32;
        if v < 48 || v > 57 {
            proof {
                assert(t[i - start] == s@[i as int]);
                assert(!is_digit_char(t[i - start]));
                assert(!all_digits(t));
            }
            return None;
        }
        let d = v - 48;
        let wide: u64 = acc as u64 * 10 + d as u64;
        proof {
            assert(s@.subrange(start as int, i + 1).drop_last() =~= s@.subrange(
                start as int,
                i as int,
            ));
            assert(dec_value(s@.subrange(start as int, i + 1)) == acc * 10 + digit_val(s@[i as int]));
        }
        if wide > 0xffff_ffffu64 {
            proof {
                if all_digits(t) {
                    assert(t.subrange(0, i + 1 - start) =~= s@.subrange(start as int, i + 1));
                    lemma_dec_value_prefix_le(t, i + 1 - start);
                    assert(dec_value(t) > u32::MAX);
                }
            }
            return None;
        }
        acc = wide as u32;
        i = i + 1;
        proof {
            assert(forall|j: int| start <= j < i ==> is_digit_char(#[trigger] s@[j]));
        }
    }
    proof {
        assert(t =~= s@.subrange(start as int, end as int));
        assert(forall|j: int| 0 <= j < t.len() ==> is_digit_char(#[trigger] t[j]));
        assert(all_digits(t));
        assert(dec_value(t) == acc);
        assert(parse_number_spec(s@) == Some(acc));
    }
    Some(acc)
}

/// Reads the answer to the replay prompt: after trimming whitespace it must
/// be exactly the letter n, in either case, to decline another round.
pub fn is_decline(answer: &str) -> (r: bool)
    ensures
        r == declines_replay(answer@),
{
    let (start, end) = trim_bounds(answer);
    if end - start != 1 {
        proof {
            assert(trim_spec(answer@).len() != 1);
            assert(seq!['n'].len() == 1 && seq!['N'].len() == 1);
        }
        return false;
    }
    let c = answer.get_char(start);
    proof {
        assert(trim_spec(answer@)[0] == answer@[start as int]);
        assert(trim_spec(answer@).len() == 1);
    }
    c == 'n' || c == 'N'
}

} // verus!
