//! A decoded field together with the outcome of its check-digit validation.

use crate::checksum::FILLER;
use crate::{checksum_error_name, MRZChecksumError};
use vstd::prelude::*;
use vstd::string::*;

verus! {

/// A decoded value, the checksum error it carries if validation failed, and
/// the raw check digit read beside it (`None` when that byte was the filler).
///
/// The value is kept whether or not its check digit was valid, so callers can
/// still inspect (or try to repair) what was read.
#[derive(Debug, Clone, PartialEq, Eq)]
pub struct CheckedField<T> {
    value: T,
    error: Option<MRZChecksumError>,
    check_digit: Option<u8>,
}

impl<T> CheckedField<T> {
    /// The stored value.
    pub closed spec fn spec_value(&self) -> T {
        self.value
    }

    /// The stored checksum error.
    pub closed spec fn spec_error(&self) -> Option<MRZChecksumError> {
        self.error
    }

    /// The stored check digit byte.
    pub closed spec fn spec_check_digit(&self) -> Option<u8> {
        self.check_digit
    }

    /// Pairs `value` with `error` and the raw check byte; a filler check byte
    /// means that no check digit is present.
    pub fn new(value: T, error: Option<MRZChecksumError>, raw_check_char: u8) -> (r: Self)
        ensures
            r.spec_value() == value,
            r.spec_error() == error,
            r.spec_check_digit() == (if raw_check_char == FILLER {
                None
            } else {
                Some(raw_check_char)
            }),
    {
        let check_digit = if raw_check_char == FILLER {
            None
        } else {
            Some(raw_check_char)
        };
        CheckedField { value, error, check_digit }
    }

    /// `true` when the field carries no checksum error.
    pub fn is_valid(&self) -> (r: bool)
        ensures
            r == (self.spec_error() is None),
    {
        self.error.is_none()
    }

    /// The checksum error, if any.
    pub fn error(&self) -> (r: Option<&MRZChecksumError>)
        ensures
            r == (match self.spec_error() {
                Some(e) => Some(&e),
                None => None::<&MRZChecksumError>,
            }),
    {
        match &self.error {
            Some(e) => Some(e),
            None => None,
        }
    }

    /// The stored value.
    pub fn value(&self) -> (r: &T)
        ensures
            *r == self.spec_value(),
    {
        &self.value
    }

    /// Gives up the field, returning its value.
    pub fn into_inner(self) -> (r: T)
        ensures
            r == self.spec_value(),
    {
        self.value
    }

    /// Transforms the value by `f`, keeping the error and the check digit.
    pub fn map<U, F: FnOnce(T) -> U>(self, f: F) -> (r: CheckedField<U>)
        requires
            f.requires((self.spec_value(),)),
        ensures
            f.ensures((self.spec_value(),), r.spec_value()),
            r.spec_error() == self.spec_error(),
            r.spec_check_digit() == self.spec_check_digit(),
    {
        CheckedField { value: f(self.value), error: self.error, check_digit: self.check_digit }
    }

    /// `true` when the field carries a checksum error.
    pub fn has_error(&self) -> (r: bool)
        ensures
            r == (self.spec_error() is Some),
    {
        self.error.is_some()
    }

    /// A field that borrows this one's value, with the same error and check
    /// digit.
    pub fn as_ref(&self) -> (r: CheckedField<&T>)
        ensures
            *r.spec_value() == self.spec_value(),
            r.spec_error() == self.spec_error(),
            r.spec_check_digit() == self.spec_check_digit(),
    {
        CheckedField { value: &self.value, error: self.error, check_digit: self.check_digit }
    }

    /// Replaces the error, if there is one, by `f` of it; keeps the value and
    /// the check digit.
    pub fn map_error<F: FnOnce(MRZChecksumError) -> MRZChecksumError>(self, f: F) -> (r:
        CheckedField<T>)
        requires
            self.spec_error() matches Some(e) ==> f.requires((e,)),
        ensures
            r.spec_value() == self.spec_value(),
            r.spec_check_digit() == self.spec_check_digit(),
            self.spec_error() is None ==> r.spec_error() is None,
            self.spec_error() matches Some(e) ==> (r.spec_error() matches Some(n) && f.ensures(
                (e,),
                n,
            )),
    {
        let error = match self.error {
            Some(e) => Some(f(e)),
            None => None,
        };
        CheckedField { value: self.value, error, check_digit: self.check_digit }
    }

    /// The check digit byte, if one was present.
    pub fn check_digit(&self) -> (r: Option<u8>)
        ensures
            r == self.spec_check_digit(),
    {
        self.check_digit
    }

    /// Records `digit` as the check digit.
    pub fn set_check_digit(&mut self, digit: u8)
        ensures
            final(self).spec_check_digit() == Some(digit),
            final(self).spec_value() == old(self).spec_value(),
            final(self).spec_error() == old(self).spec_error(),
    {
        self.check_digit = Some(digit);
    }
}

/// The bytes of a field followed by its check digit, the filler standing in
/// for an absent one.
pub open spec fn with_check(value: Seq<u8>, check_digit: Option<u8>) -> Seq<u8> {
    value.push(
        match check_digit {
            Some(d) => d,
            None => FILLER,
        },
    )
}

impl<const N: usize> CheckedField<[u8; N]> {
    /// The width of the value plus one for the check digit.
    pub fn len_with_check() -> (r: usize)
        requires
            N < usize::MAX,
        ensures
            r == N + 1,
    {
        N + 1
    }

    /// The value bytes followed by the check digit (the filler if absent).
    pub fn as_slice_with_check(&self) -> (r: Vec<u8>)
        ensures
            r@ == with_check(self.spec_value()@, self.spec_check_digit()),
    {
        let mut result: Vec<u8> = Vec::new();
        let mut i: usize = 0;
        while i < N
            invariant
                i <= N,
                self.spec_value()@.len() == N,
                self.value == self.spec_value(),
                result@ == self.spec_value()@.subrange(0, i as int),
            decreases N - i,
        {
            result.push(self.value[i]);
            i = i + 1;
            assert(result@ =~= self.spec_value()@.subrange(0, i as int));
        }
        assert(result@ =~= self.spec_value()@);
        match self.check_digit {
            Some(d) => result.push(d),
            None => result.push(FILLER),
        }
        result
    }
}

impl CheckedField<Vec<u8>> {
    /// The length of the value plus one for the check digit.
    pub fn len_with_check(&self) -> (r: usize)
        requires
            self.spec_value()@.len() < usize::MAX,
        ensures
            r == self.spec_value()@.len() + 1,
    {
        self.value.len() + 1
    }

    /// The value bytes followed by the check digit (the filler if absent).
    pub fn as_slice_with_check(&self) -> (r: Vec<u8>)
        ensures
            r@ == with_check(self.spec_value()@, self.spec_check_digit()),
    {
        let mut result = crate::ocr::copy_bytes(self.value.as_slice());
        match self.check_digit {
            Some(d) => result.push(d),
            None => result.push(FILLER),
        }
        result
    }
}

impl<'a> CheckedField<&'a str> {
    /// The value as text, followed by ` (invalid: <kind>)` when the field
    /// carries a checksum error.
    pub fn to_display_string(&self) -> (r: String)
        ensures
            r@ == (match self.spec_error() {
                Some(e) => self.spec_value()@ + " (invalid: "@ + checksum_error_name(e) + ")"@,
                None => self.spec_value()@,
            }),
    {
        let mut out = String::from_str(self.value);
        match &self.error {
            Some(e) => {
                out.append(" (invalid: ");
                out.append(e.as_str());
                out.append(")");
            },
            None => {},
        }
        out
    }
}

} // verus!
