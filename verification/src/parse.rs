//! Parsing one line of player input as a base-10 unsigned integer.
//!
//! A line is accepted when, after stripping leading and trailing ASCII
//! whitespace, it is a non-empty run of decimal digits whose value fits in
//! `u32`. Anything else is unparseable and the caller re-prompts.

use vstd::prelude::*;

verus! {

/// ASCII whitespace, the characters stripped from either end of a line.
pub open spec fn is_space_char(c: char) -> bool {
    c == ' ' || c == '\t' || c == '\n' || c == '\r'
}

/// A decimal digit.
pub open spec fn is_digit_char(c: char) -> bool {
    '0' as int <= c as int <= '9' as int
}

/// The numeric value of a decimal digit.
pub open spec fn digit_value(c: char) -> int {
    c as int - '0' as int
}

/// Every character of the sequence is a decimal digit.
pub open spec fn all_digits(s: Seq<char>) -> bool {
    forall|i: int| 0 <= i < s.len() ==> is_digit_char(s[i])
}

/// The base-10 value of a digit sequence (most significant digit first).
pub open spec fn seq_value(s: Seq<char>) -> int
    decreases s.len(),
{
    if s.len() == 0 {
        0
    } else {
        seq_value(s.drop_last()) * 10 + digit_value(s.last())
    }
}

/// The sequence with its leading whitespace removed.
pub open spec fn trim_front(s: Seq<char>) -> Seq<char>
    decreases s.len(),
{
    if s.len() > 0 && is_space_char(s[0]) {
        trim_front(s.drop_first())
    } else {
        s
    }
}

/// The sequence with its trailing whitespace removed.
pub open spec fn trim_back(s: Seq<char>) -> Seq<char>
    decreases s.len(),
{
    if s.len() > 0 && is_space_char(s.last()) {
        trim_back(s.drop_last())
    } else {
        s
    }
}

/// The sequence with whitespace removed from both ends.
pub open spec fn trim_spec(s: Seq<char>) -> Seq<char> {
    trim_back(trim_front(s))
}

/// What parsing a line yields: the value of its trimmed digit run, or
/// nothing when the trimmed line is empty, holds a non-digit, or names a
/// value above `u32::MAX`.
pub open spec fn parse_spec(s: Seq<char>) -> Option<u32> {
    let t = trim_spec(s);
    if t.len() > 0 && all_digits(t) && seq_value(t) <= u32::MAX {
        Some(seq_value(t) as u32)
    } else {
        None
    }
}

/// Dropping `k` leading whitespace characters, up to the first
/// non-whitespace one, is exactly what `trim_front` does.
proof fn lemma_trim_front_is_skip(s: Seq<char>, k: int)
    requires
        0 <= k <= s.len(),
        forall|j: int| 0 <= j < k ==> is_space_char(s[j]),
        k == s.len() || !is_space_char(s[k]),
    ensures
        trim_front(s) == s.skip(k),
    decreases k,
{
    if k == 0 {
        assert(s.skip(0) =~= s);
    } else {
        let s1 = s.drop_first();
        assert(forall|j: int| 0 <= j < k - 1 ==> is_space_char(#[trigger] s1[j]));
        lemma_trim_front_is_skip(s1, k - 1);
        assert(s1.skip(k - 1) =~= s.skip(k));
    }
}

/// Dropping the whitespace characters after position `h`, the last
/// non-whitespace one, is exactly what `trim_back` does.
proof fn lemma_trim_back_is_take(s: Seq<char>, h: int)
    requires
        0 <= h <= s.len(),
        forall|j: int| h <= j < s.len() ==> is_space_char(s[j]),
        h == 0 || !is_space_char(s[h - 1]),
    ensures
        trim_back(s) == s.take(h),
    decreases s.len() - h,
{
    if h == s.len() {
        assert(s.take(h) =~= s);
    } else {
        let s1 = s.drop_last();
        lemma_trim_back_is_take(s1, h);
        assert(s1.take(h) =~= s.take(h));
    }
}

/// The value of a digit run never goes down as the run is extended.
proof fn lemma_seq_value_grows(t: Seq<char>, k: int, m: int)
    requires
        all_digits(t),
        0 <= k <= m <= t.len(),
    ensures
        0 <= seq_value(t.take(k)) <= seq_value(t.take(m)),
    decreases m - k,
{
    if k == m {
        lemma_seq_value_nonneg(t.take(k));
    } else {
        lemma_seq_value_grows(t, k, m - 1);
        assert(t.take(m).drop_last() =~= t.take(m - 1));
        assert(is_digit_char(t[m - 1]));
    }
}

/// The value of an all-digit run is never negative.
proof fn lemma_seq_value_nonneg(t: Seq<char>)
    requires
        all_digits(t),
    ensures
        seq_value(t) >= 0,
    decreases t.len(),
{
    if t.len() > 0 {
        assert(all_digits(t.drop_last()));
        lemma_seq_value_nonneg(t.drop_last());
        assert(is_digit_char(t.last()));
    }
}

/// Parses a line as a base-10 unsigned integer, after stripping leading and
/// trailing ASCII whitespace; rejects empty runs, non-digits, and values
/// that do not fit in `u32`.
pub fn parse_guess(s: &str) -> (r: Option<u32>)
    ensures
        r == parse_spec(s@),
{
    let n = s.unicode_len();

    // Scan past leading whitespace.
    let mut lo: usize = 0;
    while lo < n && is_space(s.get_char(lo))
        invariant
            0 <= lo <= n,
            n == s@.len(),
            forall|j: int| 0 <= j < lo ==> is_space_char(s@[j]),
        decreases n - lo,
    {
        lo = lo + 1;
    }

    if lo == n {
        // All whitespace: the trimmed line is empty.
        proof {
            lemma_trim_front_is_skip(s@, lo as int);
            assert(s@.skip(n as int) =~= Seq::<char>::empty());
        }
        return None;
    }

    // Scan back over trailing whitespace; stops at lo, where a
    // non-whitespace character stands.
    let mut hi: usize = n;
    while hi > lo + 1 && is_space(s.get_char(hi - 1))
        invariant
            lo < hi <= n,
            n == s@.len(),
            forall|j: int| hi <= j < n ==> is_space_char(s@[j]),
        decreases hi,
    {
        hi = hi - 1;
    }

    let ghost t = trim_spec(s@);
    proof {
        lemma_trim_front_is_skip(s@, lo as int);
        if is_space_char(s@[hi - 1]) {
            // Only possible when hi == lo + 1, yet s@[lo] is not whitespace.
            assert(hi - 1 == lo as int);
            assert(false);
        }
        lemma_trim_back_is_take(s@.skip(lo as int), hi - lo);
        assert(t =~= s@.subrange(lo as int, hi as int));
    }

    // Accumulate the value of the digit run s[lo..hi].
    let mut acc: u32 = 0;
    let mut i: usize = lo;
    while i < hi
        invariant
            lo <= i <= hi <= n,
            n == s@.len(),
            t == s@.subrange(lo as int, hi as int),
            t == trim_spec(s@),
            forall|j: int| 0 <= j < i - lo ==> is_digit_char(t[j]),
            acc == seq_value(t.take(i - lo)),
        decreases hi - i,
    {
        let c = s.get_char(i);
        proof {
            assert(t[i - lo] == s@[i as int]);
        }
        if !(c as u32 >= 48 && c as u32 <= 57) {
            // A non-digit inside the trimmed run: unparseable.
            proof {
                assert(!is_digit_char(t[i - lo]));
            }
            return None;
        }
        let d = c as u32 - 48;
        proof {
            assert(t.take(i - lo + 1).drop_last() =~= t.take(i - lo));
            assert(t.take(i - lo + 1).last() == t[i - lo]);
        }
        if acc > 429496729 || (acc == 429496729 && d > 5) {
            // The run's value exceeds u32::MAX: unparseable.
            proof {
                let k = i - lo + 1;
                assert(seq_value(t.take(k)) > u32::MAX);
                if all_digits(t) {
                    lemma_seq_value_grows(t, k, t.len() as int);
                    assert(t.take(t.len() as int) =~= t);
                }
            }
            return None;
        }
        acc = acc * 10 + d;
        i = i + 1;
    }
    proof {
        assert(t.take(hi - lo) =~= t);
        assert(all_digits(t));
    }
    Some(acc)
}

/// Whether one character is ASCII whitespace.
fn is_space(c: char) -> (r: bool)
    ensures
        r == is_space_char(c),
{
    c == ' ' || c == '\t' || c == '\n' || c == '\r'
}

} // verus!
