//! Verified text helpers: decimal rendering and parsing of integers, and
//! character-exact comparison, search and prefix tests on strings. These
//! carry the string manipulation the engine needs — command arguments,
//! address rewriting, file names — with contracts over `Seq<char>`.

use vstd::prelude::*;

verus! {

/// The digit character for a value below ten.
pub open spec fn digit_char(d: int) -> char {
    if d == 0 {
        '0'
    } else if d == 1 {
        '1'
    } else if d == 2 {
        '2'
    } else if d == 3 {
        '3'
    } else if d == 4 {
        '4'
    } else if d == 5 {
        '5'
    } else if d == 6 {
        '6'
    } else if d == 7 {
        '7'
    } else if d == 8 {
        '8'
    } else {
        '9'
    }
}

/// The decimal rendering of `n`, most significant digit first, without
/// leading zeros (a single zero for 0).
pub open spec fn dec_digits(n: nat) -> Seq<char>
    decreases n,
{
    if n < 10 {
        seq![digit_char(n as int)]
    } else {
        dec_digits(n / 10).push(digit_char((n % 10) as int))
    }
}

/// The one-character string for a digit.
fn digit_str(d: u32) -> (r: &'static str)
    requires
        d < 10,
    ensures
        r@.len() == 1,
        r@[0] == digit_char(d as int),
{
    proof {
        reveal_strlit("0");
        reveal_strlit("1");
        reveal_strlit("2");
        reveal_strlit("3");
        reveal_strlit("4");
        reveal_strlit("5");
        reveal_strlit("6");
        reveal_strlit("7");
        reveal_strlit("8");
        reveal_strlit("9");
    }
    match d {
        0 => "0",
        1 => "1",
        2 => "2",
        3 => "3",
        4 => "4",
        5 => "5",
        6 => "6",
        7 => "7",
        8 => "8",
        _ => "9",
    }
}

/// Renders `n` in decimal.
pub fn u32_to_string(n: u32) -> (r: String)
    ensures
        r@ == dec_digits(n as nat),
    decreases n,
{
    if n < 10 {
        let d = digit_str(n);
        let r = d.to_owned();
        proof {
            assert(r@ =~= seq![digit_char(n as int)]);
        }
        r
    } else {
        let mut s = u32_to_string(n / 10);
        s.append(digit_str(n % 10));
        proof {
            assert(s@ =~= dec_digits((n / 10) as nat).push(digit_char((n % 10) as int)));
        }
        s
    }
}

/// Whether `c` is a decimal digit.
pub open spec fn is_dec_digit(c: char) -> bool {
    48 <= c as int && c as int <= 57
}

/// The value of a digit character.
pub open spec fn digit_val(c: char) -> int {
    c as int - 48
}

/// Whether every character of `s` is a decimal digit.
pub open spec fn all_digits(s: Seq<char>) -> bool {
    forall|i: int| 0 <= i < s.len() ==> is_dec_digit(#[trigger] s[i])
}

/// The number a digit sequence denotes, most significant digit first.
pub open spec fn dec_value(s: Seq<char>) -> int
    decreases s.len(),
{
    if s.len() == 0 {
        0
    } else {
        dec_value(s.drop_last()) * 10 + digit_val(s.last())
    }
}

/// A digit sequence denotes a value of at least zero.
pub proof fn lemma_dec_value_nonneg(s: Seq<char>)
    requires
        all_digits(s),
    ensures
        dec_value(s) >= 0,
    decreases s.len(),
{
    if s.len() > 0 {
        assert(is_dec_digit(s[s.len() - 1]));
        assert(forall|i: int| 0 <= i < s.drop_last().len() ==> #[trigger] s.drop_last()[i] == s[i]);
        lemma_dec_value_nonneg(s.drop_last());
    }
}

/// The value of a prefix of a digit sequence never exceeds the whole.
pub proof fn lemma_dec_value_prefix(s: Seq<char>, j: int)
    requires
        all_digits(s),
        0 <= j <= s.len(),
    ensures
        dec_value(s.subrange(0, j)) <= dec_value(s),
    decreases s.len() - j,
{
    assert(forall|k: int| 0 <= k < s.len() ==> is_dec_digit(#[trigger] s[k]));
    if j == s.len() {
        assert(s.subrange(0, j) =~= s);
    } else {
        let p = s.subrange(0, j);
        let p1 = s.subrange(0, j + 1);
        assert(p1.drop_last() =~= p);
        assert(p1.last() == s[j]);
        assert(forall|k: int| 0 <= k < p.len() ==> #[trigger] p[k] == s[k]);
        lemma_dec_value_nonneg(p);
        assert(is_dec_digit(s[j]));
        assert(dec_value(p1) == dec_value(p) * 10 + digit_val(s[j]));
        assert(dec_value(p) <= dec_value(p1));
        lemma_dec_value_prefix(s, j + 1);
    }
}

/// Parses a decimal integer: `Some` exactly on nonempty all-digit strings
/// whose value fits in a `u32`, returning that value.
pub fn parse_u32(s: &str) -> (r: Option<u32>)
    ensures
        r is Some <==> (s@.len() > 0 && all_digits(s@) && dec_value(s@) <= u32::MAX),
        r is Some ==> r.unwrap() as int == dec_value(s@),
{
    let len = s.unicode_len();
    if len == 0 {
        return None;
    }
    let mut val: u32 = 0;
    for i in 0..len
        invariant
            len == s@.len(),
            forall|j: int| 0 <= j < i as int ==> is_dec_digit(#[trigger] s@[j]),
            val as int == dec_value(s@.subrange(0, i as int)),
    {
        let c = s.get_char(i);
        let cu = c as u32;
        if cu < 48 || cu > 57 {
            assert(!is_dec_digit(s@[i as int]));
            return None;
        }
        let d = cu - 48;
        let wide: u64 = val as u64 * 10 + d as u64;
        proof {
            assert(s@.subrange(0, i + 1).drop_last() =~= s@.subrange(0, i as int));
            assert(s@.subrange(0, i + 1).last() == s@[i as int]);
        }
        if wide > u32::MAX as u64 {
            proof {
                if all_digits(s@) && dec_value(s@) <= u32::MAX {
                    lemma_dec_value_prefix(s@, i + 1);
                }
            }
            return None;
        }
        val = wide as u32;
    }
    proof {
        assert(s@.subrange(0, len as int) =~= s@);
    }
    Some(val)
}

/// Whether every character of `s` is a decimal digit.
pub fn check_all_digits(s: &str) -> (r: bool)
    ensures
        r == all_digits(s@),
{
    let len = s.unicode_len();
    for i in 0..len
        invariant
            len == s@.len(),
            forall|j: int| 0 <= j < i as int ==> is_dec_digit(#[trigger] s@[j]),
    {
        let cu = s.get_char(i) as u32;
        if cu < 48 || cu > 57 {
            assert(!is_dec_digit(s@[i as int]));
            return false;
        }
    }
    true
}

/// Whether two strings hold the same characters.
pub fn str_eq_str(a: &str, b: &str) -> (r: bool)
    ensures
        r == (a@ == b@),
{
    let la = a.unicode_len();
    let lb = b.unicode_len();
    if la != lb {
        return false;
    }
    for i in 0..la
        invariant
            la == a@.len(),
            la == b@.len(),
            forall|j: int| 0 <= j < i as int ==> #[trigger] a@[j] == b@[j],
    {
        if a.get_char(i) != b.get_char(i) {
            return false;
        }
    }
    proof {
        assert(a@ =~= b@);
    }
    true
}

/// Whether `p` is a prefix of `s`.
pub open spec fn is_prefix(s: Seq<char>, p: Seq<char>) -> bool {
    p.len() <= s.len() && s.subrange(0, p.len() as int) == p
}

/// Whether `s` starts with `p`.
pub fn str_starts_with(s: &str, p: &str) -> (r: bool)
    ensures
        r == is_prefix(s@, p@),
{
    let ls = s.unicode_len();
    let lp = p.unicode_len();
    if lp > ls {
        return false;
    }
    for i in 0..lp
        invariant
            ls == s@.len(),
            lp == p@.len(),
            lp <= ls,
            forall|j: int| 0 <= j < i as int ==> #[trigger] s@[j] == p@[j],
    {
        if s.get_char(i) != p.get_char(i) {
            assert(s@.subrange(0, lp as int)[i as int] != p@[i as int]);
            return false;
        }
    }
    proof {
        assert(s@.subrange(0, lp as int) =~= p@);
    }
    true
}

/// The first position of `c` in `s` at or after `from`, or `s.len()` when
/// there is none.
pub open spec fn index_of_char(s: Seq<char>, c: char, from: int) -> int
    decreases s.len() - from,
{
    if from < 0 || from >= s.len() {
        s.len() as int
    } else if s[from] == c {
        from
    } else {
        index_of_char(s, c, from + 1)
    }
}

proof fn lemma_index_of_char_found(s: Seq<char>, c: char, from: int, i: int)
    requires
        0 <= from <= i < s.len(),
        s[i] == c,
        forall|j: int| from <= j < i ==> #[trigger] s[j] != c,
    ensures
        index_of_char(s, c, from) == i,
    decreases i - from,
{
    if from < i {
        lemma_index_of_char_found(s, c, from + 1, i);
    }
}

proof fn lemma_index_of_char_none(s: Seq<char>, c: char, from: int)
    requires
        0 <= from <= s.len(),
        forall|j: int| from <= j < s.len() ==> #[trigger] s[j] != c,
    ensures
        index_of_char(s, c, from) == s.len(),
    decreases s.len() - from,
{
    if from < s.len() {
        lemma_index_of_char_none(s, c, from + 1);
    }
}

/// The first position of `c` in `s` at or after `from`, or the length of
/// `s` when there is none.
pub fn find_char_from(s: &str, c: char, from: usize) -> (r: usize)
    requires
        from <= s@.len(),
    ensures
        r as int == index_of_char(s@, c, from as int),
        from <= r <= s@.len(),
        r < s@.len() ==> s@[r as int] == c,
{
    let len = s.unicode_len();
    let mut i = from;
    while i < len
        invariant
            len == s@.len(),
            from <= i <= len,
            forall|j: int| from <= j < i as int ==> #[trigger] s@[j] != c,
        decreases len - i,
    {
        if s.get_char(i) == c {
            proof {
                lemma_index_of_char_found(s@, c, from as int, i as int);
            }
            return i;
        }
        i = i + 1;
    }
    proof {
        lemma_index_of_char_none(s@, c, from as int);
    }
    len
}

/// Whether `p` is a suffix of `s`.
pub open spec fn is_suffix(s: Seq<char>, p: Seq<char>) -> bool {
    p.len() <= s.len() && s.subrange(s.len() - p.len(), s.len() as int) == p
}

/// Whether `s` ends with `p`.
pub fn str_ends_with(s: &str, p: &str) -> (r: bool)
    ensures
        r == is_suffix(s@, p@),
{
    let ls = s.unicode_len();
    let lp = p.unicode_len();
    if lp > ls {
        return false;
    }
    let r = match_at(s, p, ls - lp);
    r
}

/// The first position of `c` in `s`, if any.
pub fn find_char(s: &str, c: char) -> (r: Option<usize>)
    ensures
        match r {
            Some(i) => i < s@.len() && s@[i as int] == c && forall|j: int|
                0 <= j < i as int ==> #[trigger] s@[j] != c,
            None => forall|j: int| 0 <= j < s@.len() ==> #[trigger] s@[j] != c,
        },
{
    let len = s.unicode_len();
    for i in 0..len
        invariant
            len == s@.len(),
            forall|j: int| 0 <= j < i as int ==> #[trigger] s@[j] != c,
    {
        if s.get_char(i) == c {
            return Some(i);
        }
    }
    None
}

/// Whether `p` occurs in `s` as a contiguous substring.
pub open spec fn has_substring(s: Seq<char>, p: Seq<char>) -> bool {
    exists|i: int| 0 <= i <= s.len() - p.len() && #[trigger] s.subrange(i, i + p.len() as int) == p
}

/// Whether `p` matches `s` at offset `i`.
fn match_at(s: &str, p: &str, i: usize) -> (r: bool)
    requires
        i + p@.len() <= s@.len(),
    ensures
        r == (s@.subrange(i as int, i + p@.len() as int) == p@),
{
    let ls = s.unicode_len();
    let lp = p.unicode_len();
    for j in 0..lp
        invariant
            ls == s@.len(),
            lp == p@.len(),
            i + p@.len() <= s@.len(),
            forall|t: int| 0 <= t < j as int ==> #[trigger] s@[i + t] == p@[t],
    {
        if s.get_char(i + j) != p.get_char(j) {
            assert(s@.subrange(i as int, i + p@.len() as int)[j as int] != p@[j as int]);
            return false;
        }
    }
    proof {
        assert forall|t: int|
            0 <= t < p@.len() implies s@.subrange(i as int, i + p@.len() as int)[t] == p@[t] by {
            assert(s@[i + t] == p@[t]);
        }
        assert(s@.subrange(i as int, i + p@.len() as int) =~= p@);
    }
    true
}

/// Whether `s` contains `p`.
pub fn str_contains(s: &str, p: &str) -> (r: bool)
    ensures
        r == has_substring(s@, p@),
{
    let ls = s.unicode_len();
    let lp = p.unicode_len();
    if lp > ls {
        return false;
    }
    if lp == 0 {
        proof {
            let z: int = 0;
            assert(s@.subrange(z, z + p@.len() as int) =~= p@);
            assert(has_substring(s@, p@));
        }
        return true;
    }
    let end = ls - lp;
    for i in 0..end + 1
        invariant
            ls == s@.len(),
            lp == p@.len(),
            0 < lp <= ls,
            end == ls - lp,
            forall|k: int| 0 <= k < i as int ==> #[trigger] s@.subrange(k, k + p@.len() as int)
                != p@,
    {
        if match_at(s, p, i) {
            proof {
                assert(has_substring(s@, p@)) by {
                    assert(0 <= i as int <= s@.len() - p@.len());
                    assert(s@.subrange(i as int, i as int + p@.len() as int) == p@);
                }
            }
            return true;
        }
    }
    false
}

} // verus!
