//! The case styles an event string can be required to follow, and the
//! conversions between them, which the `inflections` crate performs.

use vstd::prelude::*;

use crate::text::str_eq;

verus! {

/// What `inflections::case::to_camel_case` returns for a string.
pub uninterp spec fn inflect_camel_case(s: Seq<char>) -> Seq<char>;

/// What `inflections::case::to_constant_case` returns for a string.
pub uninterp spec fn inflect_constant_case(s: Seq<char>) -> Seq<char>;

/// What `inflections::case::to_kebab_case` returns for a string.
pub uninterp spec fn inflect_kebab_case(s: Seq<char>) -> Seq<char>;

/// What `inflections::case::to_lower_case` returns for a string.
pub uninterp spec fn inflect_lower_case(s: Seq<char>) -> Seq<char>;

/// What `inflections::case::to_pascal_case` returns for a string.
pub uninterp spec fn inflect_pascal_case(s: Seq<char>) -> Seq<char>;

/// What `inflections::case::to_sentence_case` returns for a string.
pub uninterp spec fn inflect_sentence_case(s: Seq<char>) -> Seq<char>;

/// What `inflections::case::to_snake_case` returns for a string.
pub uninterp spec fn inflect_snake_case(s: Seq<char>) -> Seq<char>;

/// What `inflections::case::to_title_case` returns for a string.
pub uninterp spec fn inflect_title_case(s: Seq<char>) -> Seq<char>;

/// What `inflections::case::to_train_case` returns for a string.
pub uninterp spec fn inflect_train_case(s: Seq<char>) -> Seq<char>;

/// What `inflections::case::to_upper_case` returns for a string.
pub uninterp spec fn inflect_upper_case(s: Seq<char>) -> Seq<char>;

/// Calls `inflections::case::to_camel_case`; its result is a function of
/// the string alone, named `inflect_camel_case`.
#[verifier::external_body]
fn to_camel_case(s: &str) -> (r: String)
    ensures
        r@ == inflect_camel_case(s@),
{
    inflections::case::to_camel_case(s)
}

/// Calls `inflections::case::to_constant_case`; its result is a function
/// of the string alone, named `inflect_constant_case`.
#[verifier::external_body]
fn to_constant_case(s: &str) -> (r: String)
    ensures
        r@ == inflect_constant_case(s@),
{
    inflections::case::to_constant_case(s)
}

/// Calls `inflections::case::to_kebab_case`; its result is a function of
/// the string alone, named `inflect_kebab_case`.
#[verifier::external_body]
fn to_kebab_case(s: &str) -> (r: String)
    ensures
        r@ == inflect_kebab_case(s@),
{
    inflections::case::to_kebab_case(s)
}

/// Calls `inflections::case::to_lower_case`; its result is a function of
/// the string alone, named `inflect_lower_case`.
#[verifier::external_body]
fn to_lower_case(s: &str) -> (r: String)
    ensures
        r@ == inflect_lower_case(s@),
{
    inflections::case::to_lower_case(s)
}

/// Calls `inflections::case::to_pascal_case`; its result is a function of
/// the string alone, named `inflect_pascal_case`.
#[verifier::external_body]
fn to_pascal_case(s: &str) -> (r: String)
    ensures
        r@ == inflect_pascal_case(s@),
{
    inflections::case::to_pascal_case(s)
}

/// Calls `inflections::case::to_sentence_case`; its result is a function
/// of the string alone, named `inflect_sentence_case`.
#[verifier::external_body]
fn to_sentence_case(s: &str) -> (r: String)
    ensures
        r@ == inflect_sentence_case(s@),
{
    inflections::case::to_sentence_case(s)
}

/// Calls `inflections::case::to_snake_case`; its result is a function of
/// the string alone, named `inflect_snake_case`.
#[verifier::external_body]
fn to_snake_case(s: &str) -> (r: String)
    ensures
        r@ == inflect_snake_case(s@),
{
    inflections::case::to_snake_case(s)
}

/// Calls `inflections::case::to_title_case`; its result is a function of
/// the string alone, named `inflect_title_case`.
#[verifier::external_body]
fn to_title_case(s: &str) -> (r: String)
    ensures
        r@ == inflect_title_case(s@),
{
    inflections::case::to_title_case(s)
}

/// Calls `inflections::case::to_train_case`; its result is a function of
/// the string alone, named `inflect_train_case`.
#[verifier::external_body]
fn to_train_case(s: &str) -> (r: String)
    ensures
        r@ == inflect_train_case(s@),
{
    inflections::case::to_train_case(s)
}

/// Calls `inflections::case::to_upper_case`; its result is a function of
/// the string alone, named `inflect_upper_case`.
#[verifier::external_body]
fn to_upper_case(s: &str) -> (r: String)
    ensures
        r@ == inflect_upper_case(s@),
{
    inflections::case::to_upper_case(s)
}

/// A case convention for event strings.
#[derive(Debug, Clone, Copy, PartialEq, Eq, Structural)]
pub enum CaseStyle {
    CamelCase,
    ConstantCase,
    KebabCase,
    LowerCase,
    PascalCase,
    SentenceCase,
    SnakeCase,
    TitleCase,
    TrainCase,
    UpperCase,
}

impl CaseStyle {
    /// The name of each style, as configuration writes it and as
    /// feedback shows it.
    pub open spec fn spec_name(self) -> Seq<char> {
        match self {
            CaseStyle::CamelCase => "camel_case"@,
            CaseStyle::ConstantCase => "constant_case"@,
            CaseStyle::KebabCase => "kebab_case"@,
            CaseStyle::LowerCase => "lower_case"@,
            CaseStyle::PascalCase => "pascal_case"@,
            CaseStyle::SentenceCase => "sentence_case"@,
            CaseStyle::SnakeCase => "snake_case"@,
            CaseStyle::TitleCase => "title_case"@,
            CaseStyle::TrainCase => "train_case"@,
            CaseStyle::UpperCase => "upper_case"@,
        }
    }

    /// The name of the style.
    pub fn as_str(&self) -> (r: &'static str)
        ensures
            r@ == self.spec_name(),
    {
        match self {
            CaseStyle::CamelCase => "camel_case",
            CaseStyle::ConstantCase => "constant_case",
            CaseStyle::KebabCase => "kebab_case",
            CaseStyle::LowerCase => "lower_case",
            CaseStyle::PascalCase => "pascal_case",
            CaseStyle::SentenceCase => "sentence_case",
            CaseStyle::SnakeCase => "snake_case",
            CaseStyle::TitleCase => "title_case",
            CaseStyle::TrainCase => "train_case",
            CaseStyle::UpperCase => "upper_case",
        }
    }

    /// The style a configuration value names: each style's name, and the
    /// spellings `kebab-case`, `camelCase`, `PascalCase` and
    /// `SCREAMING_SNAKE_CASE`.
    pub open spec fn spec_parse(s: Seq<char>) -> Option<CaseStyle> {
        if s == "camel_case"@ || s == "camelCase"@ {
            Some(CaseStyle::CamelCase)
        } else if s == "constant_case"@ || s == "SCREAMING_SNAKE_CASE"@ {
            Some(CaseStyle::ConstantCase)
        } else if s == "kebab_case"@ || s == "kebab-case"@ {
            Some(CaseStyle::KebabCase)
        } else if s == "lower_case"@ {
            Some(CaseStyle::LowerCase)
        } else if s == "pascal_case"@ || s == "PascalCase"@ {
            Some(CaseStyle::PascalCase)
        } else if s == "sentence_case"@ {
            Some(CaseStyle::SentenceCase)
        } else if s == "snake_case"@ {
            Some(CaseStyle::SnakeCase)
        } else if s == "title_case"@ {
            Some(CaseStyle::TitleCase)
        } else if s == "train_case"@ {
            Some(CaseStyle::TrainCase)
        } else if s == "upper_case"@ {
            Some(CaseStyle::UpperCase)
        } else {
            None
        }
    }

    /// Reads a style from a configuration value.
    pub fn parse(s: &str) -> (r: Option<CaseStyle>)
        ensures
            r == CaseStyle::spec_parse(s@),
    {
        if str_eq(s, "camel_case") || str_eq(s, "camelCase") {
            Some(CaseStyle::CamelCase)
        } else if str_eq(s, "constant_case") || str_eq(s, "SCREAMING_SNAKE_CASE") {
            Some(CaseStyle::ConstantCase)
        } else if str_eq(s, "kebab_case") || str_eq(s, "kebab-case") {
            Some(CaseStyle::KebabCase)
        } else if str_eq(s, "lower_case") {
            Some(CaseStyle::LowerCase)
        } else if str_eq(s, "pascal_case") || str_eq(s, "PascalCase") {
            Some(CaseStyle::PascalCase)
        } else if str_eq(s, "sentence_case") {
            Some(CaseStyle::SentenceCase)
        } else if str_eq(s, "snake_case") {
            Some(CaseStyle::SnakeCase)
        } else if str_eq(s, "title_case") {
            Some(CaseStyle::TitleCase)
        } else if str_eq(s, "train_case") {
            Some(CaseStyle::TrainCase)
        } else if str_eq(s, "upper_case") {
            Some(CaseStyle::UpperCase)
        } else {
            None
        }
    }

    /// `s` rewritten in this style.
    pub open spec fn spec_convert(self, s: Seq<char>) -> Seq<char> {
        match self {
            CaseStyle::CamelCase => inflect_camel_case(s),
            CaseStyle::ConstantCase => inflect_constant_case(s),
            CaseStyle::KebabCase => inflect_kebab_case(s),
            CaseStyle::LowerCase => inflect_lower_case(s),
            CaseStyle::PascalCase => inflect_pascal_case(s),
            CaseStyle::SentenceCase => inflect_sentence_case(s),
            CaseStyle::SnakeCase => inflect_snake_case(s),
            CaseStyle::TitleCase => inflect_title_case(s),
            CaseStyle::TrainCase => inflect_train_case(s),
            CaseStyle::UpperCase => inflect_upper_case(s),
        }
    }

    /// `s` follows this style: rewriting it in the style leaves it as it is.
    pub open spec fn spec_is_match(self, s: Seq<char>) -> bool {
        self.spec_convert(s) == s
    }

    /// Rewrites `s` in this style.
    pub fn convert(&self, s: &str) -> (r: String)
        ensures
            r@ == self.spec_convert(s@),
    {
        match self {
            CaseStyle::CamelCase => to_camel_case(s),
            CaseStyle::ConstantCase => to_constant_case(s),
            CaseStyle::KebabCase => to_kebab_case(s),
            CaseStyle::LowerCase => to_lower_case(s),
            CaseStyle::PascalCase => to_pascal_case(s),
            CaseStyle::SentenceCase => to_sentence_case(s),
            CaseStyle::SnakeCase => to_snake_case(s),
            CaseStyle::TitleCase => to_title_case(s),
            CaseStyle::TrainCase => to_train_case(s),
            CaseStyle::UpperCase => to_upper_case(s),
        }
    }

    /// Whether `s` already follows this style.
    pub fn is_match(&self, s: &str) -> (r: bool)
        ensures
            r == self.spec_is_match(s@),
    {
        let converted = self.convert(s);
        str_eq(converted.as_str(), s)
    }
}

} // verus!
