//! Reading a guess out of one line of untrusted text: strip the blanks at
//! either end, then read the remainder as a base-10 unsigned integer. A line
//! that is empty after trimming, holds a non-digit, or names a value too
//! large for `u32` is malformed and yields nothing.

use vstd::prelude::*;

verus! {

/// A character the parser strips from either end of a line: the blanks that
/// ordinary console input carries.
pub open spec fn is_space(c: char) -> bool {
    c == ' ' || c == '\t' || c == '\n' || c == '\r'
}

/// A base-10 digit.
pub open spec fn is_digit(c: char) -> bool {
    48 <= c as u32 && c as u32 <= 57
}

/// The value of one digit character.
pub open spec fn digit_val(c: char) -> int {
    c as u32 - 48
}

/// Every character of `s` is a base-10 digit.
pub open spec fn all_digits(s: Seq<char>) -> bool {
    forall|i: int| 0 <= i < s.len() ==> is_digit(#[trigger] s[i])
}

/// The integer a string of digits names, most significant digit first.
pub open spec fn digits_value(s: Seq<char>) -> int
    decreases s.len(),
{
    if s.len() == 0 {
        0
    } else {
        digits_value(s.drop_last()) * 10 + digit_val(s.last())
    }
}

/// `s` without its leading blanks.
pub open spec fn trim_start_spec(s: Seq<char>) -> Seq<char>
    decreases s.len(),
{
    if s.len() > 0 && is_space(s[0]) {
        trim_start_spec(s.subrange(1, s.len() as int))
    } else {
        s
    }
}

/// `s` without its trailing blanks.
pub open spec fn trim_end_spec(s: Seq<char>) -> Seq<char>
    decreases s.len(),
{
    if s.len() > 0 && is_space(s.last()) {
        trim_end_spec(s.drop_last())
    } else {
        s
    }
}

/// `s` without blanks at either end.
pub open spec fn trim_spec(s: Seq<char>) -> Seq<char> {
    trim_end_spec(trim_start_spec(s))
}

/// What one line of text parses to: the value of its trimmed digits, or
/// nothing when the trimmed line is empty, holds a non-digit, or names a
/// value above `u32::MAX`.
pub open spec fn parse_spec(s: Seq<char>) -> Option<u32> {
    let t = trim_spec(s);
    if t.len() > 0 && all_digits(t) && digits_value(t) <= u32::MAX {
        Some(digits_value(t) as u32)
    } else {
        None
    }
}

proof fn lemma_digits_value_nonneg(s: Seq<char>)
    requires
        all_digits(s),
    ensures
        digits_value(s) >= 0,
    decreases s.len(),
{
    if s.len() > 0 {
        assert(all_digits(s.drop_last()));
        lemma_digits_value_nonneg(s.drop_last());
    }
}

proof fn lemma_digits_value_snoc(s: Seq<char>, a: int, i: int)
    requires
        0 <= a <= i < s.len(),
    ensures
        digits_value(s.subrange(a, i + 1)) == digits_value(s.subrange(a, i)) * 10 + digit_val(
            s[i],
        ),
{
    let t = s.subrange(a, i + 1);
    assert(t.drop_last() =~= s.subrange(a, i));
    assert(t.last() == s[i]);
}

proof fn lemma_digits_value_grows(t: Seq<char>, k: int)
    requires
        all_digits(t),
        0 <= k <= t.len(),
    ensures
        digits_value(t) >= digits_value(t.subrange(0, k)),
    decreases t.len() - k,
{
    if k == t.len() {
        assert(t.subrange(0, k) =~= t);
    } else {
        lemma_digits_value_snoc(t, 0, k);
        assert(all_digits(t.subrange(0, k)));
        lemma_digits_value_nonneg(t.subrange(0, k));
        lemma_digits_value_grows(t, k + 1);
    }
}

proof fn lemma_trim_start_at(s: Seq<char>, i: int)
    requires
        0 <= i <= s.len(),
        forall|j: int| 0 <= j < i ==> is_space(s[j]),
        i == s.len() || !is_space(s[i]),
    ensures
        trim_start_spec(s) == s.subrange(i, s.len() as int),
    decreases i,
{
    if i == 0 {
        assert(s.subrange(0, s.len() as int) =~= s);
    } else {
        let s1 = s.subrange(1, s.len() as int);
        assert(forall|j: int| 0 <= j < i - 1 ==> is_space(#[trigger] s1[j]));
        lemma_trim_start_at(s1, i - 1);
        assert(s1.subrange(i - 1, s1.len() as int) =~= s.subrange(i, s.len() as int));
    }
}

proof fn lemma_trim_end_at(t: Seq<char>, k: int)
    requires
        0 <= k <= t.len(),
        forall|j: int| k <= j < t.len() ==> is_space(t[j]),
        k == 0 || !is_space(t[k - 1]),
    ensures
        trim_end_spec(t) == t.subrange(0, k),
    decreases t.len() - k,
{
    if k == t.len() {
        assert(t.subrange(0, k) =~= t);
    } else {
        assert(is_space(t.last()));
        let t1 = t.drop_last();
        assert(forall|j: int| k <= j < t1.len() ==> is_space(#[trigger] t1[j]));
        lemma_trim_end_at(t1, k);
        assert(t1.subrange(0, k) =~= t.subrange(0, k));
    }
}

fn is_space_char(c: char) -> (r: bool)
    ensures
        r == is_space(c),
{
    c == ' ' || c == '\t' || c == '\n' || c == '\r'
}

/// Read one line of untrusted text as a guess: the value of its trimmed
/// digits, or nothing when the line is malformed.
pub fn parse_guess(line: &str) -> (r: Option<u32>)
    ensures
        r == parse_spec(line@),
{
    let ghost s = line@;
    let n: usize = line.unicode_len();
    let mut a: usize = 0;
    while a < n && is_space_char(line.get_char(a))
        invariant
            s == line@,
            n == s.len(),
            0 <= a <= n,
            forall|j: int| 0 <= j < a ==> is_space(s[j]),
        decreases n - a,
    {
        a = a + 1;
    }
    proof {
        lemma_trim_start_at(s, a as int);
    }
    let ghost t0 = trim_start_spec(s);
    let mut b: usize = n;
    while b > a && is_space_char(line.get_char(b - 1))
        invariant
            s == line@,
            n == s.len(),
            0 <= a <= b <= n,
            forall|j: int| b <= j < n ==> is_space(s[j]),
        decreases b,
    {
        b = b - 1;
    }
    proof {
        assert(forall|j: int|
            b - a <= j < t0.len() ==> is_space(#[trigger] t0[j]) && t0[j] == s[a + j]);
        lemma_trim_end_at(t0, b - a);
        assert(trim_spec(s) =~= s.subrange(a as int, b as int));
    }
    let ghost t = trim_spec(s);
    if a == b {
        assert(t.len() == 0);
        return None;
    }
    let mut v: u64 = 0;
    let mut i: usize = a;
    while i < b
        invariant
            s == line@,
            n == s.len(),
            0 <= a <= i <= b <= n,
            t == trim_spec(s),
            t == s.subrange(a as int, b as int),
            forall|j: int| a <= j < i ==> is_digit(s[j]),
            v == digits_value(s.subrange(a as int, i as int)),
            v <= u32::MAX,
        decreases b - i,
    {
        let c = line.get_char(i);
        let u = c as u32;
        if !(48 <= u && u <= 57) {
            proof {
                assert(t[i - a] == s[i as int]);
                assert(!is_digit(t[i - a]));
            }
            return None;
        }
        let d: u64 = (u - 48) as u64;
        let w: u64 = v * 10 + d;
        proof {
            lemma_digits_value_snoc(s, a as int, i as int);
            assert(digits_value(s.subrange(a as int, i + 1)) == w);
        }
        if w > 0xFFFF_FFFF {
            proof {
                if all_digits(t) {
                    assert(t.subrange(0, i + 1 - a) =~= s.subrange(a as int, i + 1));
                    lemma_digits_value_grows(t, i + 1 - a);
                    assert(digits_value(t) > u32::MAX);
                }
            }
            return None;
        }
        v = w;
        i = i + 1;
    }
    proof {
        assert(t =~= s.subrange(a as int, i as int));
        assert(forall|j: int| 0 <= j < t.len() ==> is_digit(#[trigger] t[j]));
    }
    Some(v as u32)
}

} // verus!
