//! Repair of a field whose check digit fails, by searching its OCR variants.

use crate::checked_field::CheckedField;
use crate::checksum::{checksum_of, compute_checksum, DIGIT_NINE, DIGIT_ZERO, FILLER};
use crate::ocr::{
    all_distinct, bfs_order, is_bfs_enumeration, is_variant, listed, ocr_permutations,
    substitution_count, views,
};
use crate::{MRZChecksumError, MRZParseError};
use vstd::prelude::*;

verus! {

/// `s` without its trailing filler characters.
pub open spec fn trim_fillers(s: Seq<u8>) -> Seq<u8>
    decreases s.len(),
{
    if s.len() > 0 && s.last() == FILLER {
        trim_fillers(s.drop_last())
    } else {
        s
    }
}

/// Every trailing filler of `s` is dropped, nothing else.
pub proof fn lemma_trim_fillers_prefix(s: Seq<u8>)
    ensures
        trim_fillers(s).len() <= s.len(),
        trim_fillers(s) == s.subrange(0, trim_fillers(s).len() as int),
        forall|i: int| trim_fillers(s).len() <= i < s.len() ==> s[i] == FILLER,
    decreases s.len(),
{
    if s.len() > 0 && s.last() == FILLER {
        lemma_trim_fillers_prefix(s.drop_last());
        assert(trim_fillers(s) == trim_fillers(s.drop_last()));
        assert(s.drop_last().subrange(0, trim_fillers(s).len() as int) =~= s.subrange(
            0,
            trim_fillers(s).len() as int,
        ));
        assert forall|i: int| trim_fillers(s).len() <= i < s.len() implies s[i] == FILLER by {
            if i < s.len() - 1 {
                assert(s.drop_last()[i] == s[i]);
            } else {
                assert(s[i] == s.last());
            }
        }
    } else {
        assert(trim_fillers(s) == s);
        assert(s.subrange(0, s.len() as int) =~= s);
    }
}

/// The value of a check-digit byte, if it is a decimal digit.
pub open spec fn digit_value(c: u8) -> Option<u8> {
    if DIGIT_ZERO <= c && c <= DIGIT_NINE {
        Some((c - DIGIT_ZERO) as u8)
    } else {
        None
    }
}

/// `t` has check digit `digit`.
pub open spec fn passes(t: Seq<u8>, digit: u8) -> bool {
    checksum_of(t) == Some(digit)
}

/// `v` is an acceptable repair of `raw`: a variant of the field (trailing
/// fillers removed) within `max_depth` substitutions that has check digit
/// `digit`, and no variant with fewer substitutions has it.
pub open spec fn is_repair(raw: Seq<u8>, digit: u8, max_depth: int, v: Seq<u8>) -> bool {
    let s = trim_fillers(raw);
    &&& is_variant(s, v)
    &&& substitution_count(s, v) <= max_depth
    &&& passes(v, digit)
    &&& forall|t: Seq<u8>|
        is_variant(s, t) && substitution_count(s, t) < substitution_count(s, v) ==> !passes(
            t,
            digit,
        )
}

/// The search for a repair of `raw` ran out of its `cap` candidates: for
/// every variant within `max_depth` that has check digit `digit`, `cap`
/// distinct variants that needed no more substitutions were tried and failed.
pub open spec fn repair_exhausted(raw: Seq<u8>, digit: u8, max_depth: int, cap: int) -> bool {
    let s = trim_fillers(raw);
    forall|t: Seq<u8>|
        is_variant(s, t) && substitution_count(s, t) <= max_depth && passes(t, digit) ==> exists|
            w: Seq<Seq<u8>>,
        |
            {
                &&& w.len() == cap
                &&& w.no_duplicates()
                &&& forall|i: int|
                    0 <= i < w.len() ==> is_variant(s, #[trigger] w[i]) && substitution_count(
                        s,
                        w[i],
                    ) <= substitution_count(s, t) && !passes(w[i], digit)
            }
}

/// The first string of `list` that has check digit `digit`.
pub open spec fn first_passing(list: Seq<Seq<u8>>, digit: u8) -> Option<Seq<u8>>
    decreases list.len(),
{
    if list.len() == 0 {
        None
    } else if passes(list[0], digit) {
        Some(list[0])
    } else {
        first_passing(list.drop_first(), digit)
    }
}

/// The repair that the search finds: the first variant, in breadth-first
/// order, that has check digit `digit`.
pub open spec fn repair_of(raw: Seq<u8>, digit: u8, max_depth: int, cap: int) -> Option<Seq<u8>> {
    first_passing(bfs_order(trim_fillers(raw), max_depth, cap), digit)
}

/// The length of `raw` without its trailing fillers.
pub fn trimmed_len(raw: &[u8]) -> (k: usize)
    ensures
        k <= raw@.len(),
        raw@.subrange(0, k as int) == trim_fillers(raw@),
{
    let mut k: usize = raw.len();
    assert(raw@.subrange(0, k as int) =~= raw@);
    while k > 0 && raw[k - 1] == FILLER
        invariant
            k <= raw@.len(),
            trim_fillers(raw@.subrange(0, k as int)) == trim_fillers(raw@),
        decreases k,
    {
        assert(raw@.subrange(0, k as int).drop_last() =~= raw@.subrange(0, k as int - 1));
        k = k - 1;
    }
    k
}

/// Tries to repair a field whose check digit fails: trailing fillers are
/// removed, the OCR variants of what remains are enumerated breadth first (at
/// most `max_depth` substitutions, at most `M` candidates, trimmed fields up
/// to `N` bytes), and the first candidate whose check digit is `expected_checksum`
/// is returned as a valid field. When none is found, or `expected_checksum`
/// is not a digit, the error is `field_kind`.
pub fn correct_checked_field<const N: usize, const M: usize>(
    raw: &[u8],
    expected_checksum: u8,
    max_depth: usize,
    field_kind: MRZChecksumError,
) -> (r: Result<CheckedField<Vec<u8>>, MRZParseError>)
    requires
        N > 0,
        M > 0,
        trim_fillers(raw@).len() <= N,
    ensures
        digit_value(expected_checksum) matches Some(d) ==> repair_of(
            raw@,
            d,
            max_depth as int,
            M as int,
        ) == (match r {
            Ok(f) => Some(f.spec_value()@),
            Err(_) => None::<Seq<u8>>,
        }),
        match r {
            Ok(f) => {
                &&& digit_value(expected_checksum) matches Some(d) && is_repair(
                    raw@,
                    d,
                    max_depth as int,
                    f.spec_value()@,
                )
                &&& f.spec_error() is None
                &&& f.spec_check_digit() == Some(expected_checksum)
            },
            Err(e) => {
                &&& e == MRZParseError::InvalidChecksumField(field_kind)
                &&& digit_value(expected_checksum) matches Some(d) ==> repair_exhausted(
                    raw@,
                    d,
                    max_depth as int,
                    M as int,
                )
            },
        },
{
    if !(DIGIT_ZERO <= expected_checksum && expected_checksum <= DIGIT_NINE) {
        return Err(MRZParseError::from_checksum(field_kind));
    }
    let expected = expected_checksum - DIGIT_ZERO;
    let k = trimmed_len(raw);
    let cleaned = &raw[0..k];
    let ghost s = cleaned@;
    assert(s == trim_fillers(raw@));
    let permutations = ocr_permutations::<N, M>(cleaned, max_depth);
    assert(views(permutations@).subrange(0, permutations@.len() as int) =~= views(permutations@));
    let mut j: usize = 0;
    while j < permutations.len()
        invariant
            j <= permutations@.len(),
            is_bfs_enumeration(s, max_depth as int, M as int, permutations@),
            s == trim_fillers(raw@),
            DIGIT_ZERO <= expected_checksum <= DIGIT_NINE,
            expected == expected_checksum - DIGIT_ZERO,
            forall|q: int| 0 <= q < j ==> !passes(#[trigger] permutations@[q]@, expected),
            views(permutations@) == bfs_order(s, max_depth as int, M as int),
            first_passing(views(permutations@), expected) == first_passing(
                views(permutations@).subrange(j as int, permutations@.len() as int),
                expected,
            ),
        decreases permutations@.len() - j,
    {
        let candidate = permutations[j].as_slice();
        let ghost rest = views(permutations@).subrange(j as int, permutations@.len() as int);
        assert(rest[0] == permutations@[j as int]@);
        if compute_checksum(candidate) == Some(expected) {
            let value = crate::ocr::copy_bytes(candidate);
            proof {
                let v = permutations@[j as int]@;
                assert forall|t: Seq<u8>|
                    is_variant(s, t) && substitution_count(s, t) < substitution_count(
                        s,
                        v,
                    ) implies !passes(t, expected) by {
                    if listed(permutations@, t) {
                        let q = choose|q: int|
                            0 <= q < permutations@.len() && #[trigger] permutations@[q]@ == t;
                        if q >= j {
                            assert(substitution_count(s, permutations@[j as int]@)
                                <= substitution_count(s, permutations@[q]@));
                        }
                    } else {
                        let last = permutations@.len() - 1;
                        assert(substitution_count(s, permutations@[j as int]@)
                            <= substitution_count(s, permutations@[last]@));
                    }
                }
            }
            return Ok(CheckedField::new(value, None, expected_checksum));
        }
        assert(rest.drop_first() =~= views(permutations@).subrange(
            j as int + 1,
            permutations@.len() as int,
        ));
        j = j + 1;
    }
    proof {
        assert(views(permutations@).subrange(
            permutations@.len() as int,
            permutations@.len() as int,
        ) =~= Seq::<Seq<u8>>::empty());
        let w = permutations@.map_values(|v: Vec<u8>| v@);
        assert forall|t: Seq<u8>|
            is_variant(s, t) && substitution_count(s, t) <= max_depth && passes(
                t,
                expected,
            ) implies exists|w: Seq<Seq<u8>>|
            {
                &&& w.len() == M as int
                &&& w.no_duplicates()
                &&& forall|i: int|
                    0 <= i < w.len() ==> is_variant(s, #[trigger] w[i]) && substitution_count(
                        s,
                        w[i],
                    ) <= substitution_count(s, t) && !passes(w[i], expected)
            } by {
            if listed(permutations@, t) {
                let q = choose|q: int|
                    0 <= q < permutations@.len() && #[trigger] permutations@[q]@ == t;
                assert(!passes(permutations@[q]@, expected));
            }
            let last = permutations@.len() - 1;
            assert forall|i: int| 0 <= i < w.len() implies is_variant(s, #[trigger] w[i])
                && substitution_count(s, w[i]) <= substitution_count(s, t) && !passes(
                w[i],
                expected,
            ) by {
                assert(w[i] == permutations@[i]@);
                assert(substitution_count(s, permutations@[i]@) <= substitution_count(
                    s,
                    permutations@[last]@,
                ));
            }
            assert forall|a: int, b: int| 0 <= a < w.len() && 0 <= b < w.len() && a != b implies w[a]
                != w[b] by {
                assert(all_distinct(permutations@));
                if a < b {
                    assert(permutations@[a]@ != permutations@[b]@);
                } else {
                    assert(permutations@[b]@ != permutations@[a]@);
                }
            }
        }
    }
    Err(MRZParseError::from_checksum(field_kind))
}

} // verus!
