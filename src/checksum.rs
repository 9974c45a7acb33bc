//! The ICAO 9303 check-digit algorithm.

use vstd::prelude::*;

verus! {

/// The filler character `<`.
pub const FILLER: u8 = 0x3c;
/// The character `0`.
pub const DIGIT_ZERO: u8 = 0x30;
/// The character `9`.
pub const DIGIT_NINE: u8 = 0x39;
/// The character `A`.
pub const LETTER_A: u8 = 0x41;
/// The character `Z`.
pub const LETTER_Z: u8 = 0x5a;

/// Characters that may appear in a checksummed MRZ span: digits, upper-case
/// letters and the filler `<`.
pub open spec fn is_mrz_char(b: u8) -> bool {
    (DIGIT_ZERO <= b && b <= DIGIT_NINE) || (LETTER_A <= b && b <= LETTER_Z) || b == FILLER
}

/// Numeric value of an MRZ character: digits map to 0-9, letters to 10-35,
/// the filler to 0.
pub open spec fn mrz_value(b: u8) -> nat {
    if DIGIT_ZERO <= b && b <= DIGIT_NINE {
        (b - DIGIT_ZERO) as nat
    } else if LETTER_A <= b && b <= LETTER_Z {
        (b - LETTER_A + 10) as nat
    } else {
        0
    }
}

/// The weight of position `i`: 7, 3, 1, repeated.
pub open spec fn weight(i: int) -> nat {
    if i % 3 == 0 {
        7
    } else if i % 3 == 1 {
        3
    } else {
        1
    }
}

/// Sum of `value * weight` over all positions of `s`.
pub open spec fn weighted_sum(s: Seq<u8>) -> nat
    decreases s.len(),
{
    if s.len() == 0 {
        0
    } else {
        weighted_sum(s.drop_last()) + mrz_value(s.last()) * weight(s.len() - 1)
    }
}

pub open spec fn all_mrz_chars(s: Seq<u8>) -> bool {
    forall|i: int| 0 <= i < s.len() ==> is_mrz_char(#[trigger] s[i])
}

/// The check digit of `s`, or `None` when `s` holds a byte outside `[0-9A-Z<]`.
pub open spec fn checksum_of(s: Seq<u8>) -> Option<u8> {
    if all_mrz_chars(s) {
        Some((weighted_sum(s) % 10) as u8)
    } else {
        None
    }
}

fn char_value(c: u8) -> (r: Option<u8>)
    ensures
        r == (if is_mrz_char(c) { Some(mrz_value(c) as u8) } else { None::<u8> }),
{
    if DIGIT_ZERO <= c && c <= DIGIT_NINE {
        Some(c - DIGIT_ZERO)
    } else if LETTER_A <= c && c <= LETTER_Z {
        Some(c - LETTER_A + 10)
    } else if c == FILLER {
        Some(0)
    } else {
        None
    }
}

/// Computes the ICAO check digit of `data`: each byte's value times the weight
/// of its position (7, 3, 1 cyclically, restarting at the first byte), summed,
/// modulo 10. Returns `None` if any byte is outside `[0-9A-Z<]`.
pub fn compute_checksum(data: &[u8]) -> (r: Option<u8>)
    ensures
        r == checksum_of(data@),
        r is Some ==> r->0 < 10,
{
    let weights: [u32; 3] = [7, 3, 1];
    let mut sum: u32 = 0;
    let mut i: usize = 0;
    while i < data.len()
        invariant
            i <= data@.len(),
            weights@ == seq![7u32, 3u32, 1u32],
            all_mrz_chars(data@.subrange(0, i as int)),
            sum as nat == weighted_sum(data@.subrange(0, i as int)) % 10,
        decreases data@.len() - i,
    {
        let b = data[i];
        let val = match char_value(b) {
            Some(v) => v,
            None => {
                assert(!all_mrz_chars(data@));
                return None;
            },
        };
        let w = weights[i % 3];
        assert(val <= 35 && w <= 7 && sum < 10);
        assert((val as u32) * w <= 245) by (nonlinear_arith)
            requires
                val <= 35,
                w <= 7,
        ;
        proof {
            let prefix = data@.subrange(0, i as int);
            let next = data@.subrange(0, i as int + 1);
            assert(next.drop_last() =~= prefix);
            assert(next.last() == b);
            assert(w as nat == weight(i as int));
            assert(all_mrz_chars(next)) by {
                assert forall|j: int| 0 <= j < next.len() implies is_mrz_char(#[trigger] next[j]) by {
                    if j < i {
                        assert(next[j] == prefix[j]);
                    }
                }
            }
            lemma_mod_add(weighted_sum(prefix), (val as nat) * (w as nat));
        }
        sum = (sum + val as u32 * w) % 10;
        i = i + 1;
    }
    assert(data@.subrange(0, data@.len() as int) =~= data@);
    Some(sum as u8)
}

/// Reducing modulo 10 before adding does not change the sum modulo 10.
pub proof fn lemma_mod_add(a: nat, b: nat)
    ensures
        ((a % 10) + b) % 10 == (a + b) % 10,
{
    vstd::arithmetic::div_mod::lemma_add_mod_noop(a as int, b as int, 10);
    vstd::arithmetic::div_mod::lemma_mod_twice(b as int, 10);
    vstd::arithmetic::div_mod::lemma_add_mod_noop((a % 10) as int, b as int, 10);
    vstd::arithmetic::div_mod::lemma_mod_twice(a as int, 10);
}

} // verus!
