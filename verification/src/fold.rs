use vstd::prelude::*;

use convert_case::Casing;

use crate::ops::{all_ascii, lower_pair};

verus! {

/// What `str::to_lowercase` returns for a given character sequence.
pub uninterp spec fn lower_of(s: Seq<char>) -> Seq<char>;

/// What `str::to_uppercase` returns for a given character sequence.
pub uninterp spec fn upper_of(s: Seq<char>) -> Seq<char>;

/// What convert_case's camel conversion returns for a given character sequence.
pub uninterp spec fn camel_of(s: Seq<char>) -> Seq<char>;

/// What convert_case's snake conversion returns for a given character sequence.
pub uninterp spec fn snake_of(s: Seq<char>) -> Seq<char>;

/// What slug's slug generation returns for a given character sequence.
pub uninterp spec fn slug_of(s: Seq<char>) -> Seq<char>;

/// Relies on `str::to_lowercase`: full Unicode lowercasing, a function of the
/// characters alone. Per the Unicode simple lowercase mappings, on an all-ASCII
/// string it lowers each capital letter 'A'..='Z' by 32 code points and keeps
/// every other character unchanged.
#[verifier::external_body]
pub(crate) fn lowercase(s: &str) -> (r: String)
    ensures
        r@ == lower_of(s@),
        all_ascii(s@) ==> r@.len() == s@.len() && (forall|i: int|
            0 <= i < s@.len() ==> #[trigger] lower_pair(s@[i], r@[i])),
{
    s.to_lowercase()
}

/// Relies on `str::to_uppercase`: full Unicode uppercasing, a function of the
/// characters alone.
#[verifier::external_body]
pub(crate) fn uppercase(s: &str) -> (r: String)
    ensures
        r@ == upper_of(s@),
{
    s.to_uppercase()
}

/// Relies on convert_case's `Casing::to_case` with the camel convention: a
/// re-casing of the input on word boundaries, a function of the characters
/// alone.
#[verifier::external_body]
pub(crate) fn to_camel(s: &str) -> (r: String)
    ensures
        r@ == camel_of(s@),
{
    s.to_case(convert_case::Case::Camel)
}

/// Relies on convert_case's `Casing::to_case` with the snake convention: a
/// re-casing of the input on word boundaries, a function of the characters
/// alone.
#[verifier::external_body]
pub(crate) fn to_snake(s: &str) -> (r: String)
    ensures
        r@ == snake_of(s@),
{
    s.to_case(convert_case::Case::Snake)
}

/// Relies on slug's `slugify`: a lowercase URL-safe slug of the input, a
/// function of the characters alone.
#[verifier::external_body]
pub(crate) fn to_slug(s: &str) -> (r: String)
    ensures
        r@ == slug_of(s@),
{
    slug::slugify(s)
}

} // verus!
