//! The decoded document record shared by the TD1 and TD3 layouts.

use crate::checksum::FILLER;
use vstd::prelude::*;

verus! {

/// Width of the date fields (YYMMDD).
pub const ICAO_COMMON_DATE_LEN: usize = 6;
/// Width of the document code field.
pub const ICAO_COMMON_DOC_CODE_LEN: usize = 2;
/// Width of the country code fields.
pub const ICAO_COMMON_COUNTRY_CODE_LEN: usize = 3;
/// Width of the document number field.
pub const ICAO_COMMON_DOC_NUM_MAX_LEN: usize = 9;
/// Width of the TD3 name field.
pub const ICAO_TD3_NAME_MAX_LEN: usize = 39;
/// Width of the TD3 optional data field 1 (personal number and its check digit).
pub const ICAO_TD3_OPTIONAL1_MAX_LEN: usize = 15;
/// Width of the TD3 optional data field 2 (upper line, positions 28 to 43).
pub const ICAO_TD3_OPTIONAL2_MAX_LEN: usize = 15;
/// Width of the TD1 name field.
pub const ICAO_TD1_NAME_MAX_LEN: usize = 30;
/// Width of the TD1 optional data field 1.
pub const ICAO_TD1_OPTIONAL1_MAX_LEN: usize = 15;
/// Width of the TD1 optional data field 2.
pub const ICAO_TD1_OPTIONAL2_MAX_LEN: usize = 11;

/// The space character.
pub const SPACE: u8 = 0x20;

/// A decoded ICAO document, generic over the widths of its name and two
/// optional data fields. Text fields hold the raw, filler-padded MRZ bytes.
#[derive(Debug, Clone, PartialEq, Eq)]
pub struct MrzIcao<const NAME_LEN: usize, const OPT1_LEN: usize, const OPT2_LEN: usize> {
    /// Document code (e.g. `P<` for a passport).
    pub document_code: [u8; ICAO_COMMON_DOC_CODE_LEN],
    /// Issuing state or organisation.
    pub issuing_state: [u8; ICAO_COMMON_COUNTRY_CODE_LEN],
    /// Raw name field: surname, `<<`, given names separated by `<`.
    pub name: Vec<u8>,
    /// Nationality.
    pub nationality: [u8; ICAO_COMMON_COUNTRY_CODE_LEN],
    /// Sex: `M`, `F` or the filler.
    pub sex: u8,
    /// Document number, as repaired if its check digit needed OCR repair.
    pub document_number: Vec<u8>,
    /// Whether the document number passed its check digit.
    pub document_number_check_valid: bool,
    /// Birth date (YYMMDD).
    pub birth_date: [u8; ICAO_COMMON_DATE_LEN],
    /// Whether the birth date passed its check digit.
    pub birth_date_check_valid: bool,
    /// Expiry date (YYMMDD).
    pub expiry_date: [u8; ICAO_COMMON_DATE_LEN],
    /// Whether the expiry date passed its check digit.
    pub expiry_date_check_valid: bool,
    /// The composite check: `None` when its digit is the filler (absent).
    pub final_check_valid: Option<bool>,
    /// Optional data field 1.
    pub optional_data1: Vec<u8>,
    /// Optional data field 2.
    pub optional_data2: Vec<u8>,
}

/// A TD3 (passport) record.
pub type MrzIcaoTd3 = MrzIcao<
    ICAO_TD3_NAME_MAX_LEN,
    ICAO_TD3_OPTIONAL1_MAX_LEN,
    ICAO_TD3_OPTIONAL2_MAX_LEN,
>;

/// A TD1 (identity card) record.
pub type MrzIcaoTd1 = MrzIcao<
    ICAO_TD1_NAME_MAX_LEN,
    ICAO_TD1_OPTIONAL1_MAX_LEN,
    ICAO_TD1_OPTIONAL2_MAX_LEN,
>;

/// The outcome of decoding MRZ lines.
#[derive(Debug, Clone, PartialEq, Eq)]
pub enum ParsedMRZ {
    /// A TD3 document.
    MrzIcaoTd3(MrzIcaoTd3),
    /// A TD1 document.
    MrzIcaoTd1(MrzIcaoTd1),
    /// No document.
    Unknown,
}

/// `s[i..i+2]` is the name delimiter `<<`.
pub open spec fn delimiter_at(s: Seq<u8>, i: int) -> bool {
    0 <= i && i + 1 < s.len() && s[i] == FILLER && s[i + 1] == FILLER
}

/// The first position at or after `i` where the delimiter `<<` starts, or
/// `s.len()` if there is none.
pub open spec fn first_delimiter_from(s: Seq<u8>, i: int) -> int
    decreases s.len() - i,
{
    if i + 1 >= s.len() {
        s.len() as int
    } else if delimiter_at(s, i) {
        i
    } else {
        first_delimiter_from(s, i + 1)
    }
}

/// The surname: the name field up to the first `<<`.
pub open spec fn surname_of(name: Seq<u8>) -> Seq<u8> {
    name.subrange(0, first_delimiter_from(name, 0))
}

/// What follows the first `<<` of the name field (empty if there is none).
pub open spec fn given_part_of(name: Seq<u8>) -> Seq<u8> {
    let d = first_delimiter_from(name, 0);
    if d + 2 <= name.len() {
        name.subrange(d + 2, name.len() as int)
    } else {
        Seq::empty()
    }
}

/// `s` with each filler replaced by a space.
pub open spec fn fillers_to_spaces(s: Seq<u8>) -> Seq<u8> {
    s.map_values(|b: u8| if b == FILLER { SPACE } else { b })
}

/// `s` without its trailing spaces.
pub open spec fn trim_spaces(s: Seq<u8>) -> Seq<u8>
    decreases s.len(),
{
    if s.len() > 0 && s.last() == SPACE {
        trim_spaces(s.drop_last())
    } else {
        s
    }
}

/// The given names: what follows the first `<<`, fillers turned to spaces,
/// trailing spaces removed.
pub open spec fn given_names_of(name: Seq<u8>) -> Seq<u8> {
    trim_spaces(fillers_to_spaces(given_part_of(name)))
}

proof fn lemma_first_delimiter_bounds(s: Seq<u8>, i: int)
    requires
        0 <= i,
    ensures
        i <= first_delimiter_from(s, i) <= s.len() || (i + 1 >= s.len() && first_delimiter_from(s, i) == s.len()),
        first_delimiter_from(s, i) < s.len() ==> delimiter_at(s, first_delimiter_from(s, i)),
    decreases s.len() - i,
{
    if i + 1 < s.len() && !delimiter_at(s, i) {
        lemma_first_delimiter_bounds(s, i + 1);
    }
}

/// The position of the first `<<` in `name`, or its length.
fn find_delimiter(name: &[u8]) -> (d: usize)
    ensures
        d == first_delimiter_from(name@, 0),
        d <= name@.len(),
{
    let mut i: usize = 0;
    while i < name.len() && i + 1 < name.len() && !(name[i] == FILLER && name[i + 1] == FILLER)
        invariant
            i <= name@.len(),
            first_delimiter_from(name@, i as int) == first_delimiter_from(name@, 0),
        decreases name@.len() - i,
    {
        i = i + 1;
    }
    if i < name.len() && i + 1 < name.len() {
        i
    } else {
        name.len()
    }
}

/// The surname in a raw name field: everything before the first `<<`.
pub fn split_surname(name: &[u8]) -> (r: Vec<u8>)
    ensures
        r@ == surname_of(name@),
{
    let d = find_delimiter(name);
    crate::ocr::copy_bytes(&name[0..d])
}

/// The given names in a raw name field: what follows the first `<<`, each
/// `<` turned into a space, trailing spaces removed.
pub fn split_given_names(name: &[u8]) -> (r: Vec<u8>)
    ensures
        r@ == given_names_of(name@),
{
    let d = find_delimiter(name);
    let start: usize = if name.len() - d >= 2 {
        d + 2
    } else {
        name.len()
    };
    let ghost part = given_part_of(name@);
    assert(part =~= name@.subrange(start as int, name@.len() as int));
    let mut out: Vec<u8> = Vec::new();
    let mut i: usize = start;
    while i < name.len()
        invariant
            start <= i <= name@.len(),
            part == name@.subrange(start as int, name@.len() as int),
            out@ == fillers_to_spaces(part).subrange(0, i - start),
        decreases name@.len() - i,
    {
        let b = name[i];
        if b == FILLER {
            out.push(SPACE);
        } else {
            out.push(b);
        }
        i = i + 1;
        assert(out@ =~= fillers_to_spaces(part).subrange(0, i - start));
    }
    assert(out@ =~= fillers_to_spaces(part));
    let ghost full = out@;
    while out.len() > 0 && out[out.len() - 1] == SPACE
        invariant
            trim_spaces(out@) == trim_spaces(full),
        decreases out@.len(),
    {
        let ghost prev = out@;
        out.pop();
        assert(out@ =~= prev.drop_last());
    }
    out
}

impl<const NAME_LEN: usize, const OPT1_LEN: usize, const OPT2_LEN: usize> MrzIcao<
    NAME_LEN,
    OPT1_LEN,
    OPT2_LEN,
> {
    /// Every variable-width field fits its width.
    pub open spec fn wf(&self) -> bool {
        &&& self.name@.len() <= NAME_LEN
        &&& self.optional_data1@.len() <= OPT1_LEN
        &&& self.optional_data2@.len() <= OPT2_LEN
        &&& self.document_number@.len() <= ICAO_COMMON_DOC_NUM_MAX_LEN
    }

    /// The sex byte.
    pub fn sex(&self) -> (r: u8)
        ensures
            r == self.sex,
    {
        self.sex
    }

    /// The document number.
    pub fn document_number(&self) -> (r: &[u8])
        ensures
            r@ == self.document_number@,
    {
        self.document_number.as_slice()
    }

    /// The birth date (YYMMDD).
    pub fn birth_date(&self) -> (r: &[u8; ICAO_COMMON_DATE_LEN])
        ensures
            *r == self.birth_date,
    {
        &self.birth_date
    }

    /// The expiry date (YYMMDD).
    pub fn expiry_date(&self) -> (r: &[u8; ICAO_COMMON_DATE_LEN])
        ensures
            *r == self.expiry_date,
    {
        &self.expiry_date
    }

    /// Whether the document number passed its check digit.
    pub fn is_document_number_valid(&self) -> (r: bool)
        ensures
            r == self.document_number_check_valid,
    {
        self.document_number_check_valid
    }

    /// Whether the birth date passed its check digit.
    pub fn is_birth_date_valid(&self) -> (r: bool)
        ensures
            r == self.birth_date_check_valid,
    {
        self.birth_date_check_valid
    }

    /// Whether the expiry date passed its check digit.
    pub fn is_expiry_date_valid(&self) -> (r: bool)
        ensures
            r == self.expiry_date_check_valid,
    {
        self.expiry_date_check_valid
    }

    /// The composite check: `None` when absent.
    pub fn is_final_check_valid(&self) -> (r: Option<bool>)
        ensures
            r == self.final_check_valid,
    {
        self.final_check_valid
    }

    /// The surname, read from the raw name field.
    pub fn surname(&self) -> (r: Vec<u8>)
        ensures
            r@ == surname_of(self.name@),
    {
        split_surname(self.name.as_slice())
    }

    /// The given names, read from the raw name field.
    pub fn given_names(&self) -> (r: Vec<u8>)
        ensures
            r@ == given_names_of(self.name@),
    {
        split_given_names(self.name.as_slice())
    }

    /// The issuing state.
    pub fn issuing_state(&self) -> (r: &[u8; ICAO_COMMON_COUNTRY_CODE_LEN])
        ensures
            *r == self.issuing_state,
    {
        &self.issuing_state
    }

    /// The nationality.
    pub fn nationality(&self) -> (r: &[u8; ICAO_COMMON_COUNTRY_CODE_LEN])
        ensures
            *r == self.nationality,
    {
        &self.nationality
    }

    /// The document code.
    pub fn document_code(&self) -> (r: &[u8; ICAO_COMMON_DOC_CODE_LEN])
        ensures
            *r == self.document_code,
    {
        &self.document_code
    }

    /// The raw name field.
    pub fn raw_name(&self) -> (r: &[u8])
        ensures
            r@ == self.name@,
    {
        self.name.as_slice()
    }

    /// Whether a composite check digit was present.
    pub fn has_final_check(&self) -> (r: bool)
        ensures
            r == self.final_check_valid is Some,
    {
        self.final_check_valid.is_some()
    }

    /// Optional data field 1.
    pub fn optional_data1(&self) -> (r: &[u8])
        ensures
            r@ == self.optional_data1@,
    {
        self.optional_data1.as_slice()
    }

    /// Optional data field 2.
    pub fn optional_data2(&self) -> (r: &[u8])
        ensures
            r@ == self.optional_data2@,
    {
        self.optional_data2.as_slice()
    }
}

/// The fields common to the ICAO layouts, for code that handles TD1 and
/// TD3 records alike.
pub trait MrzIcaoCommonFields {
    /// Model of `sex`.
    spec fn spec_sex(&self) -> u8;

    /// The sex byte (`M`, `F` or the filler).
    fn sex(&self) -> (r: u8)
        ensures
            r == self.spec_sex(),
    ;

    /// Model of `document_number`.
    spec fn spec_document_number(&self) -> Seq<u8>;

    /// The document number.
    fn document_number(&self) -> (r: &[u8])
        ensures
            r@ == self.spec_document_number(),
    ;

    /// Model of `birth_date`.
    spec fn spec_birth_date(&self) -> Seq<u8>;

    /// The birth date (YYMMDD).
    fn birth_date(&self) -> (r: &[u8; ICAO_COMMON_DATE_LEN])
        ensures
            r@ == self.spec_birth_date(),
    ;

    /// Model of `expiry_date`.
    spec fn spec_expiry_date(&self) -> Seq<u8>;

    /// The expiry date (YYMMDD).
    fn expiry_date(&self) -> (r: &[u8; ICAO_COMMON_DATE_LEN])
        ensures
            r@ == self.spec_expiry_date(),
    ;

    /// Model of `is_document_number_valid`.
    spec fn spec_is_document_number_valid(&self) -> bool;

    /// Whether the document number passed its check digit.
    fn is_document_number_valid(&self) -> (r: bool)
        ensures
            r == self.spec_is_document_number_valid(),
    ;

    /// Model of `is_birth_date_valid`.
    spec fn spec_is_birth_date_valid(&self) -> bool;

    /// Whether the birth date passed its check digit.
    fn is_birth_date_valid(&self) -> (r: bool)
        ensures
            r == self.spec_is_birth_date_valid(),
    ;

    /// Model of `is_expiry_date_valid`.
    spec fn spec_is_expiry_date_valid(&self) -> bool;

    /// Whether the expiry date passed its check digit.
    fn is_expiry_date_valid(&self) -> (r: bool)
        ensures
            r == self.spec_is_expiry_date_valid(),
    ;

    /// Model of `is_final_check_valid`.
    spec fn spec_is_final_check_valid(&self) -> Option<bool>;

    /// The composite check: `None` when absent.
    fn is_final_check_valid(&self) -> (r: Option<bool>)
        ensures
            r == self.spec_is_final_check_valid(),
    ;

    /// Model of `surname`.
    spec fn spec_surname(&self) -> Seq<u8>;

    /// The surname, read from the name field.
    fn surname(&self) -> (r: Vec<u8>)
        ensures
            r@ == self.spec_surname(),
    ;

    /// Model of `given_names`.
    spec fn spec_given_names(&self) -> Seq<u8>;

    /// The given names, read from the name field.
    fn given_names(&self) -> (r: Vec<u8>)
        ensures
            r@ == self.spec_given_names(),
    ;

    /// Model of `issuing_state`.
    spec fn spec_issuing_state(&self) -> Seq<u8>;

    /// The issuing state.
    fn issuing_state(&self) -> (r: &[u8; ICAO_COMMON_COUNTRY_CODE_LEN])
        ensures
            r@ == self.spec_issuing_state(),
    ;

    /// Model of `nationality`.
    spec fn spec_nationality(&self) -> Seq<u8>;

    /// The nationality.
    fn nationality(&self) -> (r: &[u8; ICAO_COMMON_COUNTRY_CODE_LEN])
        ensures
            r@ == self.spec_nationality(),
    ;

    /// Model of `document_code`.
    spec fn spec_document_code(&self) -> Seq<u8>;

    /// The document code.
    fn document_code(&self) -> (r: &[u8; ICAO_COMMON_DOC_CODE_LEN])
        ensures
            r@ == self.spec_document_code(),
    ;

    /// Model of `raw_name`.
    spec fn spec_raw_name(&self) -> Seq<u8>;

    /// The raw name field.
    fn raw_name(&self) -> (r: &[u8])
        ensures
            r@ == self.spec_raw_name(),
    ;

    /// Model of `has_final_check`.
    spec fn spec_has_final_check(&self) -> bool;

    /// Whether a composite check digit was present.
    fn has_final_check(&self) -> (r: bool)
        ensures
            r == self.spec_has_final_check(),
    ;

    /// Model of `optional_data1`.
    spec fn spec_optional_data1(&self) -> Seq<u8>;

    /// Optional data field 1.
    fn optional_data1(&self) -> (r: &[u8])
        ensures
            r@ == self.spec_optional_data1(),
    ;

    /// Model of `optional_data2`.
    spec fn spec_optional_data2(&self) -> Seq<u8>;

    /// Optional data field 2.
    fn optional_data2(&self) -> (r: &[u8])
        ensures
            r@ == self.spec_optional_data2(),
    ;
}

impl<const NAME_LEN: usize, const OPT1_LEN: usize, const OPT2_LEN: usize> MrzIcaoCommonFields for MrzIcao<
    NAME_LEN,
    OPT1_LEN,
    OPT2_LEN,
> {
    open spec fn spec_sex(&self) -> u8 {
        self.sex
    }

    fn sex(&self) -> (r: u8) {
        MrzIcao::sex(self)
    }

    open spec fn spec_document_number(&self) -> Seq<u8> {
        self.document_number@
    }

    fn document_number(&self) -> (r: &[u8]) {
        MrzIcao::document_number(self)
    }

    open spec fn spec_birth_date(&self) -> Seq<u8> {
        self.birth_date@
    }

    fn birth_date(&self) -> (r: &[u8; ICAO_COMMON_DATE_LEN]) {
        MrzIcao::birth_date(self)
    }

    open spec fn spec_expiry_date(&self) -> Seq<u8> {
        self.expiry_date@
    }

    fn expiry_date(&self) -> (r: &[u8; ICAO_COMMON_DATE_LEN]) {
        MrzIcao::expiry_date(self)
    }

    open spec fn spec_is_document_number_valid(&self) -> bool {
        self.document_number_check_valid
    }

    fn is_document_number_valid(&self) -> (r: bool) {
        MrzIcao::is_document_number_valid(self)
    }

    open spec fn spec_is_birth_date_valid(&self) -> bool {
        self.birth_date_check_valid
    }

    fn is_birth_date_valid(&self) -> (r: bool) {
        MrzIcao::is_birth_date_valid(self)
    }

    open spec fn spec_is_expiry_date_valid(&self) -> bool {
        self.expiry_date_check_valid
    }

    fn is_expiry_date_valid(&self) -> (r: bool) {
        MrzIcao::is_expiry_date_valid(self)
    }

    open spec fn spec_is_final_check_valid(&self) -> Option<bool> {
        self.final_check_valid
    }

    fn is_final_check_valid(&self) -> (r: Option<bool>) {
        MrzIcao::is_final_check_valid(self)
    }

    open spec fn spec_surname(&self) -> Seq<u8> {
        surname_of(self.name@)
    }

    fn surname(&self) -> (r: Vec<u8>) {
        MrzIcao::surname(self)
    }

    open spec fn spec_given_names(&self) -> Seq<u8> {
        given_names_of(self.name@)
    }

    fn given_names(&self) -> (r: Vec<u8>) {
        MrzIcao::given_names(self)
    }

    open spec fn spec_issuing_state(&self) -> Seq<u8> {
        self.issuing_state@
    }

    fn issuing_state(&self) -> (r: &[u8; ICAO_COMMON_COUNTRY_CODE_LEN]) {
        MrzIcao::issuing_state(self)
    }

    open spec fn spec_nationality(&self) -> Seq<u8> {
        self.nationality@
    }

    fn nationality(&self) -> (r: &[u8; ICAO_COMMON_COUNTRY_CODE_LEN]) {
        MrzIcao::nationality(self)
    }

    open spec fn spec_document_code(&self) -> Seq<u8> {
        self.document_code@
    }

    fn document_code(&self) -> (r: &[u8; ICAO_COMMON_DOC_CODE_LEN]) {
        MrzIcao::document_code(self)
    }

    open spec fn spec_raw_name(&self) -> Seq<u8> {
        self.name@
    }

    fn raw_name(&self) -> (r: &[u8]) {
        MrzIcao::raw_name(self)
    }

    open spec fn spec_has_final_check(&self) -> bool {
        self.final_check_valid is Some
    }

    fn has_final_check(&self) -> (r: bool) {
        MrzIcao::has_final_check(self)
    }

    open spec fn spec_optional_data1(&self) -> Seq<u8> {
        self.optional_data1@
    }

    fn optional_data1(&self) -> (r: &[u8]) {
        MrzIcao::optional_data1(self)
    }

    open spec fn spec_optional_data2(&self) -> Seq<u8> {
        self.optional_data2@
    }

    fn optional_data2(&self) -> (r: &[u8]) {
        MrzIcao::optional_data2(self)
    }
}

} // verus!
