//! Character-class checks, text normalisation and a lenient check-digit
//! computation over MRZ text.

use crate::checksum::weight;
use vstd::prelude::*;
use vstd::string::*;

verus! {

/// An upper-case ASCII letter.
pub open spec fn is_upper_char(c: char) -> bool {
    'A' <= c && c <= 'Z'
}

/// An ASCII decimal digit.
pub open spec fn is_digit_char(c: char) -> bool {
    '0' <= c && c <= '9'
}

/// A character allowed in an MRZ field: upper-case letter, digit or `<`.
pub open spec fn is_mrz_alnum_char(c: char) -> bool {
    is_upper_char(c) || is_digit_char(c) || c == '<'
}

/// Every character of `s` is an MRZ field character.
pub open spec fn all_mrz_alnum(s: Seq<char>) -> bool {
    forall|i: int| 0 <= i < s.len() ==> is_mrz_alnum_char(#[trigger] s[i])
}

/// Every character of `s` is a digit.
pub open spec fn all_digits(s: Seq<char>) -> bool {
    forall|i: int| 0 <= i < s.len() ==> is_digit_char(#[trigger] s[i])
}

/// Every character of `s` is an upper-case letter.
pub open spec fn all_upper(s: Seq<char>) -> bool {
    forall|i: int| 0 <= i < s.len() ==> is_upper_char(#[trigger] s[i])
}

/// The value of a character in the lenient checksum: digits 0-9, letters
/// 10-35, anything else (the filler included) 0.
pub open spec fn lenient_value(c: char) -> nat {
    if is_digit_char(c) {
        (c as u32 - '0' as u32) as nat
    } else if is_upper_char(c) {
        (c as u32 - 'A' as u32 + 10) as nat
    } else {
        0
    }
}

/// Sum of value times the 7-3-1 weight over the characters of `s`.
pub open spec fn lenient_sum(s: Seq<char>) -> nat
    decreases s.len(),
{
    if s.len() == 0 {
        0
    } else {
        lenient_sum(s.drop_last()) + lenient_value(s.last()) * weight(s.len() - 1)
    }
}

/// The decimal value of `c`, if it is a digit.
pub open spec fn digit_of(c: char) -> Option<nat> {
    if is_digit_char(c) {
        Some((c as u32 - '0' as u32) as nat)
    } else {
        None
    }
}

/// What `str::trim` returns on text `s`.
pub uninterp spec fn trim_of(s: Seq<char>) -> Seq<char>;

/// What `str::to_uppercase` returns on text `s`.
pub uninterp spec fn uppercase_of(s: Seq<char>) -> Seq<char>;

/// Relies on `str::trim`: leading and trailing whitespace removed; the
/// result depends on the text alone.
#[verifier::external_body]
pub(crate) fn trim_text(s: &str) -> (r: String)
    ensures
        r@ == trim_of(s@),
{
    s.trim().to_string()
}

/// Relies on `str::to_uppercase`: the upper-case mapping of each character;
/// the result depends on the text alone.
#[verifier::external_body]
fn uppercase_text(s: &str) -> (r: String)
    ensures
        r@ == uppercase_of(s@),
{
    s.to_uppercase()
}

/// Checks that every character of `field` is an upper-case letter, a digit
/// or the filler `<`.
pub fn is_valid_alphanumeric(field: &str) -> (r: bool)
    ensures
        r == all_mrz_alnum(field@),
{
    let n = field.unicode_len();
    let mut i: usize = 0;
    while i < n
        invariant
            n == field@.len(),
            i <= n,
            forall|j: int| 0 <= j < i ==> is_mrz_alnum_char(#[trigger] field@[j]),
        decreases n - i,
    {
        let c = field.get_char(i);
        if !(('A' <= c && c <= 'Z') || ('0' <= c && c <= '9') || c == '<') {
            return false;
        }
        i = i + 1;
    }
    true
}

/// Checks that every character of `field` is a decimal digit.
pub fn is_valid_numeric(field: &str) -> (r: bool)
    ensures
        r == all_digits(field@),
{
    let n = field.unicode_len();
    let mut i: usize = 0;
    while i < n
        invariant
            n == field@.len(),
            i <= n,
            forall|j: int| 0 <= j < i ==> is_digit_char(#[trigger] field@[j]),
        decreases n - i,
    {
        let c = field.get_char(i);
        if !('0' <= c && c <= '9') {
            return false;
        }
        i = i + 1;
    }
    true
}

/// Checks that every character of `field` is an upper-case ASCII letter.
pub fn is_valid_uppercase(field: &str) -> (r: bool)
    ensures
        r == all_upper(field@),
{
    let n = field.unicode_len();
    let mut i: usize = 0;
    while i < n
        invariant
            n == field@.len(),
            i <= n,
            forall|j: int| 0 <= j < i ==> is_upper_char(#[trigger] field@[j]),
        decreases n - i,
    {
        let c = field.get_char(i);
        if !('A' <= c && c <= 'Z') {
            return false;
        }
        i = i + 1;
    }
    true
}

/// `field` with surrounding whitespace removed, in upper case.
pub fn normalize_field(field: &str) -> (r: String)
    ensures
        r@ == uppercase_of(trim_of(field@)),
{
    let trimmed = trim_text(field);
    uppercase_text(trimmed.as_str())
}

fn char_value(c: char) -> (r: u32)
    ensures
        r == lenient_value(c),
{
    if '0' <= c && c <= '9' {
        c as u32 - '0' as u32
    } else if 'A' <= c && c <= 'Z' {
        c as u32 - 'A' as u32 + 10
    } else {
        0
    }
}

/// The 7-3-1 weighted check digit of `data`, counting any character that
/// is not a digit or an upper-case letter as 0.
pub fn calculate_mrz_checksum(data: &str) -> (r: u32)
    ensures
        r == lenient_sum(data@) % 10,
{
    let n = data.unicode_len();
    let mut sum: u32 = 0;
    let mut i: usize = 0;
    while i < n
        invariant
            n == data@.len(),
            i <= n,
            sum == lenient_sum(data@.subrange(0, i as int)) % 10,
        decreases n - i,
    {
        let c = data.get_char(i);
        let v = char_value(c);
        let w: u32 = if i % 3 == 0 {
            7
        } else if i % 3 == 1 {
            3
        } else {
            1
        };
        assert(v <= 35 && w <= 7 && sum < 10);
        assert(v * w <= 245) by (nonlinear_arith)
            requires
                v <= 35,
                w <= 7,
        ;
        proof {
            let prefix = data@.subrange(0, i as int);
            let next = data@.subrange(0, i as int + 1);
            assert(next.drop_last() =~= prefix);
            assert(w as nat == weight(i as int));
            crate::checksum::lemma_mod_add(lenient_sum(prefix), (v as nat) * (w as nat));
        }
        sum = (sum + v * w) % 10;
        i = i + 1;
    }
    assert(data@.subrange(0, n as int) =~= data@);
    sum
}

} // verus!
