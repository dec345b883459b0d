//! Case conversions delegated to `heck`, `Inflector` and std.
//!
//! Each conversion is a pure function of its argument, so its result is
//! given a name here; the library states its own contracts over these names.

use vstd::prelude::*;

verus! {

/// The string that `heck::ToSnakeCase::to_snake_case` makes of `s`.
pub uninterp spec fn heck_snake_case(s: Seq<char>) -> Seq<char>;

/// The string that `heck::ToPascalCase::to_pascal_case` makes of `s`.
pub uninterp spec fn heck_pascal_case(s: Seq<char>) -> Seq<char>;

/// The string that `inflector::cases::snakecase::to_snake_case` makes of `s`.
pub uninterp spec fn inflector_snake_case(s: Seq<char>) -> Seq<char>;

/// The string that `inflector::string::pluralize::to_plural` makes of `s`.
pub uninterp spec fn inflector_plural(s: Seq<char>) -> Seq<char>;

/// The string that std's `str::to_lowercase` makes of `s`.
pub uninterp spec fn std_lowercase(s: Seq<char>) -> Seq<char>;

/// The characters that std's `char::to_uppercase` yields for `c`.
pub uninterp spec fn std_char_uppercase(c: char) -> Seq<char>;

/// Calls `heck::ToSnakeCase::to_snake_case`.  Trusted: its result is
/// `heck_snake_case` of the argument, which holds as heck's conversion
/// depends on nothing but the string it is given.
#[verifier::external_body]
pub(crate) fn snake_case(s: &str) -> (res: String)
    ensures
        res@ == heck_snake_case(s@),
{
    heck::ToSnakeCase::to_snake_case(s)
}

/// Calls `heck::ToPascalCase::to_pascal_case`.  Trusted: its result is
/// `heck_pascal_case` of the argument.
#[verifier::external_body]
pub(crate) fn pascal_case(s: &str) -> (res: String)
    ensures
        res@ == heck_pascal_case(s@),
{
    heck::ToPascalCase::to_pascal_case(s)
}

/// Calls `inflector::cases::snakecase::to_snake_case`.  Trusted: its result
/// is `inflector_snake_case` of the argument.
#[verifier::external_body]
pub(crate) fn inflector_snake(s: &str) -> (res: String)
    ensures
        res@ == inflector_snake_case(s@),
{
    inflector::cases::snakecase::to_snake_case(s)
}

/// Calls `inflector::string::pluralize::to_plural`.  Trusted: its result is
/// `inflector_plural` of the argument.
#[verifier::external_body]
pub(crate) fn plural(s: &str) -> (res: String)
    ensures
        res@ == inflector_plural(s@),
{
    inflector::string::pluralize::to_plural(s)
}

/// Calls std's `str::to_lowercase`.  Trusted: its result is `std_lowercase`
/// of the argument (std's lowercase mapping does not depend on a locale).
#[verifier::external_body]
pub(crate) fn lowercase(s: &str) -> (res: String)
    ensures
        res@ == std_lowercase(s@),
{
    s.to_lowercase()
}

/// Calls std's `char::to_uppercase` and collects the characters it yields.
/// Trusted: the result is `std_char_uppercase` of the character (std's
/// uppercase mapping does not depend on a locale).
#[verifier::external_body]
pub(crate) fn char_uppercase(c: char) -> (res: String)
    ensures
        res@ == std_char_uppercase(c),
{
    c.to_uppercase().collect()
}

} // verus!
