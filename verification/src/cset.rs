//! The `CSET` character-set chunk.
//!
//! Eight bytes: code page, country code, language code and dialect,
//! each a little-endian `u16`. A zero country, or a zero
//! language-and-dialect pair, means the default (USA, US English).
use vstd::prelude::*;

use crate::error::{Error, Result};
use crate::le::{le_u16, read_u16};

verus! {

/// FourCC of the character-set chunk (`CSET`).
pub const FOURCC_CSET: [u8; 4] = [0x43, 0x53, 0x45, 0x54];

/// Size of a `CSET` body.
pub const CSET_LEN: usize = 8;

/// Country code assumed for a zero country field (USA).
pub const DEFAULT_COUNTRY: u16 = 1;

/// Language code assumed for a zero language/dialect pair (English).
pub const DEFAULT_LANGUAGE: u16 = 9;

/// Dialect assumed for a zero language/dialect pair (US English).
pub const DEFAULT_DIALECT: u16 = 1;

/// The name of a country code.
pub open spec fn country_text(code: u16) -> Option<Seq<char>> {
    match code {
        1 => Some("USA"@),
        2 => Some("Canada"@),
        3 => Some("Latin America"@),
        30 => Some("Greece"@),
        31 => Some("Netherlands"@),
        32 => Some("Belgium"@),
        33 => Some("France"@),
        34 => Some("Spain"@),
        39 => Some("Italy"@),
        41 => Some("Switzerland"@),
        43 => Some("Austria"@),
        44 => Some("United Kingdom"@),
        45 => Some("Denmark"@),
        46 => Some("Sweden"@),
        47 => Some("Norway"@),
        49 => Some("West Germany"@),
        52 => Some("Mexico"@),
        55 => Some("Brazil"@),
        61 => Some("Australia"@),
        64 => Some("New Zealand"@),
        81 => Some("Japan"@),
        82 => Some("Korea"@),
        86 => Some("People's Republic of China"@),
        88 => Some("Taiwan"@),
        90 => Some("Turkey"@),
        351 => Some("Portugal"@),
        352 => Some("Luxembourg"@),
        354 => Some("Iceland"@),
        358 => Some("Finland"@),
        _ => None,
    }
}

/// The name of a language and dialect.
pub open spec fn language_text(language: u16, dialect: u16) -> Option<Seq<char>> {
    match (language, dialect) {
        (1, 1) => Some("Arabic"@),
        (2, 1) => Some("Bulgarian"@),
        (3, 1) => Some("Catalan"@),
        (4, 1) => Some("Traditional Chinese"@),
        (4, 2) => Some("Simplified Chinese"@),
        (5, 1) => Some("Czech"@),
        (6, 1) => Some("Danish"@),
        (7, 1) => Some("German"@),
        (7, 2) => Some("Swiss German"@),
        (8, 1) => Some("Greek"@),
        (9, 1) => Some("US English"@),
        (9, 2) => Some("UK English"@),
        (10, 1) => Some("Spanish"@),
        (10, 2) => Some("Spanish Mexican"@),
        (11, 1) => Some("Finnish"@),
        (12, 1) => Some("French"@),
        (12, 2) => Some("Belgian French"@),
        (12, 3) => Some("Canadian French"@),
        (12, 4) => Some("Swiss French"@),
        (13, 1) => Some("Hebrew"@),
        (14, 1) => Some("Hungarian"@),
        (15, 1) => Some("Icelandic"@),
        (16, 1) => Some("Italian"@),
        (16, 2) => Some("Swiss Italian"@),
        (17, 1) => Some("Japanese"@),
        (18, 1) => Some("Korean"@),
        (19, 1) => Some("Dutch"@),
        (19, 2) => Some("Belgian Dutch"@),
        (20, 1) => Some("Norwegian - Bokmal"@),
        (20, 2) => Some("Norwegian - Nynorsk"@),
        (21, 1) => Some("Polish"@),
        (22, 1) => Some("Brazilian Portuguese"@),
        (22, 2) => Some("Portuguese"@),
        (23, 1) => Some("Rhaeto-Romanic"@),
        (24, 1) => Some("Romanian"@),
        (25, 1) => Some("Russian"@),
        (26, 1) => Some("Serbo-Croatian (Latin)"@),
        (26, 2) => Some("Serbo-Croatian (Cyrillic)"@),
        (27, 1) => Some("Slovak"@),
        (28, 1) => Some("Albanian"@),
        (29, 1) => Some("Swedish"@),
        (30, 1) => Some("Thai"@),
        (31, 1) => Some("Turkish"@),
        (32, 1) => Some("Urdu"@),
        (33, 1) => Some("Bahasa"@),
        _ => None,
    }
}

/// The name of a registered country code, `None` for any other code.
pub fn country_name(code: u16) -> (r: Option<&'static str>)
    ensures
        r is None <==> country_text(code) is None,
        r matches Some(s) ==> country_text(code) == Some(s@),
{
    match code {
        1 => Some("USA"),
        2 => Some("Canada"),
        3 => Some("Latin America"),
        30 => Some("Greece"),
        31 => Some("Netherlands"),
        32 => Some("Belgium"),
        33 => Some("France"),
        34 => Some("Spain"),
        39 => Some("Italy"),
        41 => Some("Switzerland"),
        43 => Some("Austria"),
        44 => Some("United Kingdom"),
        45 => Some("Denmark"),
        46 => Some("Sweden"),
        47 => Some("Norway"),
        49 => Some("West Germany"),
        52 => Some("Mexico"),
        55 => Some("Brazil"),
        61 => Some("Australia"),
        64 => Some("New Zealand"),
        81 => Some("Japan"),
        82 => Some("Korea"),
        86 => Some("People's Republic of China"),
        88 => Some("Taiwan"),
        90 => Some("Turkey"),
        351 => Some("Portugal"),
        352 => Some("Luxembourg"),
        354 => Some("Iceland"),
        358 => Some("Finland"),
        _ => None,
    }
}

/// [`country_name`], with code `0` read as the default country.
pub fn country_name_defaulted(code: u16) -> (r: Option<&'static str>)
    ensures
        r is None <==> country_text(if code == 0 { DEFAULT_COUNTRY } else { code }) is None,
        r matches Some(s) ==> country_text(if code == 0 { DEFAULT_COUNTRY } else { code })
            == Some(s@),
{
    if code == 0 {
        country_name(DEFAULT_COUNTRY)
    } else {
        country_name(code)
    }
}

/// The name of a registered language and dialect, `None` otherwise.
pub fn language_name(language: u16, dialect: u16) -> (r: Option<&'static str>)
    ensures
        r is None <==> language_text(language, dialect) is None,
        r matches Some(s) ==> language_text(language, dialect) == Some(s@),
{
    match (language, dialect) {
        (1, 1) => Some("Arabic"),
        (2, 1) => Some("Bulgarian"),
        (3, 1) => Some("Catalan"),
        (4, 1) => Some("Traditional Chinese"),
        (4, 2) => Some("Simplified Chinese"),
        (5, 1) => Some("Czech"),
        (6, 1) => Some("Danish"),
        (7, 1) => Some("German"),
        (7, 2) => Some("Swiss German"),
        (8, 1) => Some("Greek"),
        (9, 1) => Some("US English"),
        (9, 2) => Some("UK English"),
        (10, 1) => Some("Spanish"),
        (10, 2) => Some("Spanish Mexican"),
        (11, 1) => Some("Finnish"),
        (12, 1) => Some("French"),
        (12, 2) => Some("Belgian French"),
        (12, 3) => Some("Canadian French"),
        (12, 4) => Some("Swiss French"),
        (13, 1) => Some("Hebrew"),
        (14, 1) => Some("Hungarian"),
        (15, 1) => Some("Icelandic"),
        (16, 1) => Some("Italian"),
        (16, 2) => Some("Swiss Italian"),
        (17, 1) => Some("Japanese"),
        (18, 1) => Some("Korean"),
        (19, 1) => Some("Dutch"),
        (19, 2) => Some("Belgian Dutch"),
        (20, 1) => Some("Norwegian - Bokmal"),
        (20, 2) => Some("Norwegian - Nynorsk"),
        (21, 1) => Some("Polish"),
        (22, 1) => Some("Brazilian Portuguese"),
        (22, 2) => Some("Portuguese"),
        (23, 1) => Some("Rhaeto-Romanic"),
        (24, 1) => Some("Romanian"),
        (25, 1) => Some("Russian"),
        (26, 1) => Some("Serbo-Croatian (Latin)"),
        (26, 2) => Some("Serbo-Croatian (Cyrillic)"),
        (27, 1) => Some("Slovak"),
        (28, 1) => Some("Albanian"),
        (29, 1) => Some("Swedish"),
        (30, 1) => Some("Thai"),
        (31, 1) => Some("Turkish"),
        (32, 1) => Some("Urdu"),
        (33, 1) => Some("Bahasa"),
        _ => None,
    }
}

/// The language and dialect named by a pair, a zero pair read as the
/// default.
pub open spec fn defaulted_language(language: u16, dialect: u16) -> (u16, u16) {
    if language == 0 && dialect == 0 {
        (DEFAULT_LANGUAGE, DEFAULT_DIALECT)
    } else {
        (language, dialect)
    }
}

/// [`language_name`], with the pair `(0, 0)` read as the default.
pub fn language_name_defaulted(language: u16, dialect: u16) -> (r: Option<&'static str>)
    ensures
        r is None <==> language_text(defaulted_language(language, dialect).0, defaulted_language(language, dialect).1) is None,
        r matches Some(s) ==> language_text(defaulted_language(language, dialect).0, defaulted_language(language, dialect).1) == Some(s@),
{
    if language == 0 && dialect == 0 {
        language_name(DEFAULT_LANGUAGE, DEFAULT_DIALECT)
    } else {
        language_name(language, dialect)
    }
}

/// A decoded `CSET` chunk.
#[derive(Clone, Copy, Debug, Default, PartialEq, Eq, Hash)]
pub struct CharacterSet {
    /// Code page (`0` = default).
    pub code_page: u16,
    /// Country code (`0` = default).
    pub country_code: u16,
    /// Language code.
    pub language_code: u16,
    /// Dialect.
    pub dialect: u16,
}

impl CharacterSet {
    /// Decode a `CSET` body; it must be exactly 8 bytes.
    pub fn parse(body: &[u8]) -> (r: Result<Self>)
        ensures
            r is Ok <==> body@.len() == CSET_LEN,
            r matches Ok(c) ==> c == (CharacterSet {
                code_page: le_u16(body@, 0),
                country_code: le_u16(body@, 2),
                language_code: le_u16(body@, 4),
                dialect: le_u16(body@, 6),
            }),
    {
        if body.len() != CSET_LEN {
            return Err(Error::invalid("RIFF: CSET chunk is not 8 bytes"));
        }
        Ok(
            CharacterSet {
                code_page: read_u16(body, 0),
                country_code: read_u16(body, 2),
                language_code: read_u16(body, 4),
                dialect: read_u16(body, 6),
            },
        )
    }

    /// The country name, a zero code read as the default.
    pub fn country(&self) -> (r: Option<&'static str>)
        ensures
            r is None <==> country_text(if self.country_code == 0 { DEFAULT_COUNTRY } else { self.country_code }) is None,
            r matches Some(s) ==> country_text(if self.country_code == 0 { DEFAULT_COUNTRY } else { self.country_code }) == Some(s@),
    {
        country_name_defaulted(self.country_code)
    }

    /// The language name, a zero pair read as the default.
    pub fn language(&self) -> (r: Option<&'static str>)
        ensures
            r is None <==> language_text(defaulted_language(self.language_code, self.dialect).0, defaulted_language(self.language_code, self.dialect).1) is None,
            r matches Some(s) ==> language_text(defaulted_language(self.language_code, self.dialect).0, defaulted_language(self.language_code, self.dialect).1) == Some(s@),
    {
        language_name_defaulted(self.language_code, self.dialect)
    }

    /// `true` for the default code page (`0`).
    pub fn is_default_code_page(&self) -> (r: bool)
        ensures
            r == (self.code_page == 0),
    {
        self.code_page == 0
    }
}

} // verus!
