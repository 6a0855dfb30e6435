//! Verified text utilities: decimal numbers as strings, string equality,
//! substring search, and case folding.
//!
//! Field values read from the log store are decimal strings (timestamps,
//! severities, pids), and the match protocol is built from `NAME=value`
//! strings, so the engine needs exact reasoning about both directions of
//! the decimal conversion and about substring containment.

use vstd::prelude::*;

verus! {

/// A decimal digit.
pub open spec fn is_digit(c: char) -> bool {
    48 <= c as u32 <= 57
}

/// The numeric value of one decimal digit.
pub open spec fn digit_val(c: char) -> nat {
    (c as u32 - 48) as nat
}

/// The digit character for a value below ten.
pub open spec fn digit_char(d: nat) -> char {
    if d == 0 {
        '0'
    } else if d == 1 {
        '1'
    } else if d == 2 {
        '2'
    } else if d == 3 {
        '3'
    } else if d == 4 {
        '4'
    } else if d == 5 {
        '5'
    } else if d == 6 {
        '6'
    } else if d == 7 {
        '7'
    } else if d == 8 {
        '8'
    } else {
        '9'
    }
}

/// A non-empty string of decimal digits.
pub open spec fn is_dec_string(s: Seq<char>) -> bool {
    s.len() > 0 && forall|i: int| 0 <= i < s.len() ==> is_digit(#[trigger] s[i])
}

/// The number denoted by a string of decimal digits.
pub open spec fn dec_val(s: Seq<char>) -> nat
    decreases s.len(),
{
    if s.len() == 0 {
        0
    } else {
        dec_val(s.drop_last()) * 10 + digit_val(s.last())
    }
}

/// The canonical decimal rendering of a number (no leading zeros except "0").
pub open spec fn dec_of(n: nat) -> Seq<char>
    decreases n,
{
    if n < 10 {
        seq![digit_char(n)]
    } else {
        dec_of(n / 10).push(digit_char(n % 10))
    }
}

/// The digit character of `d`, as a one-character string slice.
fn digit_str(d: u64) -> (r: &'static str)
    requires
        d < 10,
    ensures
        r@ =~= seq![digit_char(d as nat)],
{
    proof {
        reveal_strlit("0");
        reveal_strlit("1");
        reveal_strlit("2");
        reveal_strlit("3");
        reveal_strlit("4");
        reveal_strlit("5");
        reveal_strlit("6");
        reveal_strlit("7");
        reveal_strlit("8");
        reveal_strlit("9");
    }
    if d == 0 {
        "0"
    } else if d == 1 {
        "1"
    } else if d == 2 {
        "2"
    } else if d == 3 {
        "3"
    } else if d == 4 {
        "4"
    } else if d == 5 {
        "5"
    } else if d == 6 {
        "6"
    } else if d == 7 {
        "7"
    } else if d == 8 {
        "8"
    } else {
        "9"
    }
}

/// Renders a number in decimal, the way the store formats numeric fields.
pub fn u64_to_string(n: u64) -> (r: String)
    ensures
        r@ == dec_of(n as nat),
    decreases n,
{
    if n < 10 {
        String::from_str(digit_str(n))
    } else {
        let mut s = u64_to_string(n / 10);
        s.append(digit_str(n % 10));
        assert(s@ == dec_of(n as nat));
        s
    }
}

/// Appending one digit multiplies the prefix value by ten and adds the digit.
proof fn lemma_dec_val_step(s: Seq<char>, i: int)
    requires
        0 <= i < s.len(),
    ensures
        dec_val(s.subrange(0, i + 1)) == dec_val(s.subrange(0, i)) * 10 + digit_val(s[i]),
{
    let t = s.subrange(0, i + 1);
    assert(t.drop_last() =~= s.subrange(0, i));
    assert(t.last() == s[i]);
}

/// A longer digit prefix never denotes a smaller number.
proof fn lemma_dec_val_mono(s: Seq<char>, i: int, j: int)
    requires
        0 <= i <= j <= s.len(),
    ensures
        dec_val(s.subrange(0, i)) <= dec_val(s.subrange(0, j)),
    decreases j - i,
{
    if i < j {
        lemma_dec_val_mono(s, i, j - 1);
        lemma_dec_val_step(s, j - 1);
        assert(dec_val(s.subrange(0, j - 1)) * 10 + digit_val(s[j - 1]) >= dec_val(
            s.subrange(0, j - 1),
        )) by (nonlinear_arith);
    }
}

/// Parses a non-empty, all-digit string as an unsigned number, the way the
/// engine reads numeric field values. Returns `None` on any other input and
/// on numbers that do not fit.
pub fn parse_u64(s: &str) -> (r: Option<u64>)
    ensures
        r matches Some(n) ==> is_dec_string(s@) && dec_val(s@) == n,
        r is None ==> !is_dec_string(s@) || dec_val(s@) > u64::MAX,
{
    let len = s.unicode_len();
    if len == 0 {
        return None;
    }
    let mut acc: u64 = 0;
    let mut i: usize = 0;
    while i < len
        invariant
            0 < len == s@.len(),
            0 <= i <= len,
            forall|k: int| 0 <= k < i ==> is_digit(#[trigger] s@[k]),
            acc == dec_val(s@.subrange(0, i as int)),
        decreases len - i,
    {
        let c = s.get_char(i);
        let v = c as u32;
        if v < 48 || v > 57 {
            assert(!is_digit(s@[i as int]));
            return None;
        }
        let d = (v - 48) as u64;
        proof {
            lemma_dec_val_step(s@, i as int);
        }
        let shifted = match acc.checked_mul(10) {
            Some(x) => x,
            None => {
                proof {
                    assert(dec_val(s@.subrange(0, i + 1 as int)) > u64::MAX) by (nonlinear_arith)
                        requires
                            dec_val(s@.subrange(0, i + 1 as int)) == dec_val(
                                s@.subrange(0, i as int),
                            ) * 10 + digit_val(s@[i as int]),
                            dec_val(s@.subrange(0, i as int)) * 10 > u64::MAX,
                    ;
                    lemma_dec_val_mono(s@, i + 1 as int, s@.len() as int);
                    assert(s@.subrange(0, s@.len() as int) =~= s@);
                }
                return None;
            },
        };
        let total = match shifted.checked_add(d) {
            Some(x) => x,
            None => {
                proof {
                    lemma_dec_val_mono(s@, i + 1 as int, s@.len() as int);
                    assert(s@.subrange(0, s@.len() as int) =~= s@);
                }
                return None;
            },
        };
        acc = total;
        i = i + 1;
    }
    proof {
        assert(s@.subrange(0, len as int) =~= s@);
    }
    Some(acc)
}

/// Digit characters denote their digit.
proof fn lemma_digit_char_val(d: nat)
    requires
        d < 10,
    ensures
        is_digit(digit_char(d)),
        digit_val(digit_char(d)) == d,
{
}

/// The canonical rendering is made of digits and denotes the number itself.
pub proof fn lemma_dec_of_val(n: nat)
    ensures
        is_dec_string(dec_of(n)),
        dec_val(dec_of(n)) == n,
    decreases n,
{
    assert(dec_val(Seq::<char>::empty()) == 0);
    if n < 10 {
        lemma_digit_char_val(n);
        assert(dec_of(n).drop_last() =~= Seq::<char>::empty());
        assert(dec_of(n).last() == digit_char(n));
        assert(dec_val(dec_of(n)) == dec_val(Seq::<char>::empty()) * 10 + digit_val(
            digit_char(n),
        ));
    } else {
        lemma_dec_of_val(n / 10);
        lemma_digit_char_val(n % 10);
        assert(dec_of(n).drop_last() =~= dec_of(n / 10));
        assert(dec_val(dec_of(n)) == (n / 10) * 10 + n % 10);
        assert((n / 10) * 10 + n % 10 == n) by (nonlinear_arith);
        assert(forall|i: int|
            0 <= i < dec_of(n).len() ==> is_digit(#[trigger] dec_of(n)[i]));
    }
}

/// Character-for-character string equality.
pub fn str_eq(a: &str, b: &str) -> (r: bool)
    ensures
        r == (a@ == b@),
{
    let alen = a.unicode_len();
    let blen = b.unicode_len();
    if alen != blen {
        return false;
    }
    let mut i: usize = 0;
    while i < alen
        invariant
            alen == a@.len() && blen == b@.len() && alen == blen,
            0 <= i <= alen,
            forall|k: int| 0 <= k < i ==> a@[k] == b@[k],
        decreases alen - i,
    {
        if a.get_char(i) != b.get_char(i) {
            return false;
        }
        i = i + 1;
    }
    proof {
        assert(a@ =~= b@);
    }
    true
}

/// `needle` occurs as a contiguous run of characters inside `hay`.
pub open spec fn is_substring_of(needle: Seq<char>, hay: Seq<char>) -> bool {
    exists|i: int|
        0 <= i && i + needle.len() <= hay.len() && #[trigger] hay.subrange(i, i + needle.len())
            == needle
}

/// `needle` occurs in `hay` starting exactly at position `at`.
fn matches_at(hay: &str, needle: &str, at: usize) -> (r: bool)
    requires
        at + needle@.len() <= hay@.len(),
        hay@.len() <= usize::MAX,
    ensures
        r == (hay@.subrange(at as int, at + needle@.len()) == needle@),
{
    let nlen = needle.unicode_len();
    let mut j: usize = 0;
    while j < nlen
        invariant
            nlen == needle@.len(),
            at + nlen <= hay@.len(),
            hay@.len() <= usize::MAX,
            0 <= j <= nlen,
            forall|k: int| 0 <= k < j ==> hay@[at + k] == needle@[k],
        decreases nlen - j,
    {
        if hay.get_char(at + j) != needle.get_char(j) {
            proof {
                let sub = hay@.subrange(at as int, at + needle@.len());
                assert(sub[j as int] == hay@[at + j]);
            }
            return false;
        }
        j = j + 1;
    }
    proof {
        assert(hay@.subrange(at as int, at + needle@.len()) =~= needle@);
    }
    true
}

/// Substring search: does `hay` contain `needle`?
pub fn str_contains(hay: &str, needle: &str) -> (r: bool)
    ensures
        r == is_substring_of(needle@, hay@),
{
    let hlen = hay.unicode_len();
    let nlen = needle.unicode_len();
    if nlen > hlen {
        return false;
    }
    if nlen == 0 {
        proof {
            assert(hay@.subrange(0, 0 + needle@.len() as int) =~= needle@);
        }
        return true;
    }
    let mut i: usize = 0;
    let last = hlen - nlen;
    while i <= last
        invariant
            hlen == hay@.len() && nlen == needle@.len(),
            0 < nlen <= hlen,
            last == hlen - nlen,
            0 <= i <= last + 1,
            forall|k: int|
                0 <= k < i ==> #[trigger] hay@.subrange(k, k + needle@.len()) != needle@,
        decreases last + 1 - i,
    {
        if matches_at(hay, needle, i) {
            return true;
        }
        i = i + 1;
    }
    false
}

/// Whitespace as the clock-tick probe's output carries it.
pub open spec fn is_space(c: char) -> bool {
    c == ' ' || c == '\n' || c == '\t' || c == '\r'
}

/// How many whitespace characters the string starts with.
pub open spec fn ws_prefix(s: Seq<char>) -> int
    decreases s.len(),
{
    if s.len() > 0 && is_space(s[0]) {
        1 + ws_prefix(s.drop_first())
    } else {
        0
    }
}

/// How many whitespace characters the string ends with.
pub open spec fn ws_suffix(s: Seq<char>) -> int
    decreases s.len(),
{
    if s.len() > 0 && is_space(s.last()) {
        1 + ws_suffix(s.drop_last())
    } else {
        0
    }
}

/// The string without its leading and trailing whitespace.
pub open spec fn spec_trim(s: Seq<char>) -> Seq<char> {
    if ws_prefix(s) == s.len() {
        Seq::empty()
    } else {
        s.subrange(ws_prefix(s), s.len() - ws_suffix(s))
    }
}

/// The leading-whitespace count is the first non-space position.
proof fn lemma_ws_prefix(s: Seq<char>)
    ensures
        0 <= ws_prefix(s) <= s.len(),
        forall|k: int| 0 <= k < ws_prefix(s) ==> is_space(s[k]),
        ws_prefix(s) < s.len() ==> !is_space(s[ws_prefix(s)]),
    decreases s.len(),
{
    if s.len() > 0 && is_space(s[0]) {
        let rest = s.drop_first();
        lemma_ws_prefix(rest);
        assert forall|k: int| 0 <= k < ws_prefix(s) implies is_space(s[k]) by {
            if k > 0 {
                assert(rest[k - 1] == s[k]);
            }
        }
        if ws_prefix(s) < s.len() {
            assert(rest[ws_prefix(s) - 1] == s[ws_prefix(s)]);
        }
    }
}

/// The trailing-whitespace count is the first non-space position from the
/// end.
proof fn lemma_ws_suffix(s: Seq<char>)
    ensures
        0 <= ws_suffix(s) <= s.len(),
        forall|k: int| s.len() - ws_suffix(s) <= k < s.len() ==> is_space(s[k]),
        ws_suffix(s) < s.len() ==> !is_space(s[s.len() - ws_suffix(s) - 1]),
    decreases s.len(),
{
    if s.len() > 0 && is_space(s.last()) {
        let rest = s.drop_last();
        lemma_ws_suffix(rest);
        assert forall|k: int| s.len() - ws_suffix(s) <= k < s.len() implies is_space(s[k]) by {
            if k < s.len() - 1 {
                assert(rest[k] == s[k]);
            }
        }
        if ws_suffix(s) < s.len() {
            assert(rest[s.len() - ws_suffix(s) - 1] == s[s.len() - ws_suffix(s) - 1]);
        }
    }
}

/// Reads the machine's clock-tick rate from the probe's raw output: the
/// output trimmed of surrounding whitespace, as a decimal number. Returns
/// `None` when what remains is not a number that fits.
pub fn parse_clicks(raw: &str) -> (r: Option<u64>)
    ensures
        ({
            let t = spec_trim(raw@);
            &&& (r matches Some(n) ==> is_dec_string(t) && dec_val(t) == n)
            &&& (r is None ==> !is_dec_string(t) || dec_val(t) > u64::MAX)
        }),
{
    proof {
        lemma_ws_prefix(raw@);
        lemma_ws_suffix(raw@);
    }
    let len = raw.unicode_len();
    let mut start: usize = 0;
    while start < len && is_space_exec(raw.get_char(start))
        invariant
            len == raw@.len(),
            0 <= start <= len,
            forall|k: int| 0 <= k < start ==> is_space(raw@[k]),
        decreases len - start,
    {
        start = start + 1;
    }
    proof {
        if (start as int) < ws_prefix(raw@) {
            assert(is_space(raw@[start as int]));
            assert(false);
        }
        if ws_prefix(raw@) < start as int {
            assert(!is_space(raw@[ws_prefix(raw@)]));
            assert(false);
        }
    }
    if start == len {
        return None;
    }
    let mut end: usize = len;
    while end > start && is_space_exec(raw.get_char(end - 1))
        invariant
            len == raw@.len(),
            start < len,
            !is_space(raw@[start as int]),
            start <= end <= len,
            forall|k: int| end <= k < len ==> is_space(raw@[k]),
        decreases end,
    {
        end = end - 1;
    }
    proof {
        if (len - end) < ws_suffix(raw@) {
            // then position end - 1 is inside the whitespace suffix
            assert(end > start);
            assert(is_space(raw@[end - 1]));
            assert(raw@.len() - ws_suffix(raw@) <= end - 1);
            assert(false);
        }
        if ws_suffix(raw@) < (len - end) {
            assert(!is_space(raw@[len - ws_suffix(raw@) - 1]));
            assert(end <= len - ws_suffix(raw@) - 1);
            assert(false);
        }
        assert(spec_trim(raw@) == raw@.subrange(start as int, end as int));
    }
    let trimmed = raw.substring_char(start, end);
    parse_u64(trimmed)
}

/// Whitespace test on one character.
fn is_space_exec(c: char) -> (r: bool)
    ensures
        r == is_space(c),
{
    c == ' ' || c == '\n' || c == '\t' || c == '\r'
}

/// What `str::to_lowercase` returns: Unicode lowercasing, a function of the
/// characters alone.
pub uninterp spec fn lower_of(s: Seq<char>) -> Seq<char>;

/// Relies on `str::to_lowercase` from std: the result depends only on the
/// input characters.
#[verifier::external_body]
pub fn to_lowercase(s: &str) -> (r: String)
    ensures
        r@ == lower_of(s@),
{
    s.to_lowercase()
}

} // verus!
