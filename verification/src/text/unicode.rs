//! Character classes and case mappings of the standard library, as the rest of
//! the crate sees them.
use vstd::prelude::*;

verus! {

/// Whether the standard library classifies `c` as alphabetic or numeric.
pub uninterp spec fn alphanumeric(c: char) -> bool;

/// Whether the standard library classifies `c` as alphabetic.
pub uninterp spec fn alphabetic(c: char) -> bool;

/// Whether the standard library classifies `c` as uppercase.
pub uninterp spec fn uppercase(c: char) -> bool;

/// Whether the standard library classifies `c` as lowercase.
pub uninterp spec fn lowercase(c: char) -> bool;

/// Whether the standard library classifies `c` as white space.
pub uninterp spec fn whitespace(c: char) -> bool;

/// The characters that `c` lowercases to.
pub uninterp spec fn lowercase_mapping(c: char) -> Seq<char>;

/// The characters that `c` uppercases to.
pub uninterp spec fn uppercase_mapping(c: char) -> Seq<char>;

/// The text that `s` lowercases to, as a whole.
pub uninterp spec fn lowercased(s: Seq<char>) -> Seq<char>;

/// The text that `s` uppercases to, as a whole.
pub uninterp spec fn uppercased(s: Seq<char>) -> Seq<char>;

/// `char::is_alphanumeric` answers by the character alone; the answer is named
/// [`alphanumeric`].
pub assume_specification[ char::is_alphanumeric ](c: char) -> (r: bool)
    ensures
        r == alphanumeric(c),
;

/// `char::is_alphabetic` answers by the character alone; the answer is named
/// [`alphabetic`].
pub assume_specification[ char::is_alphabetic ](c: char) -> (r: bool)
    ensures
        r == alphabetic(c),
;

/// `char::is_uppercase` answers by the character alone; the answer is named
/// [`uppercase`].
pub assume_specification[ char::is_uppercase ](c: char) -> (r: bool)
    ensures
        r == uppercase(c),
;

/// `char::is_lowercase` answers by the character alone; the answer is named
/// [`lowercase`].
pub assume_specification[ char::is_lowercase ](c: char) -> (r: bool)
    ensures
        r == lowercase(c),
;

/// `char::is_whitespace` answers by the character alone; the answer is named
/// [`whitespace`].
pub assume_specification[ char::is_whitespace ](c: char) -> (r: bool)
    ensures
        r == whitespace(c),
;

/// `String::push` appends one character.
pub assume_specification[ String::push ](s: &mut String, c: char)
    ensures
        final(s)@ == old(s)@.push(c),
;

/// `String::push_str` appends a whole text.
pub assume_specification[ String::push_str ](s: &mut String, t: &str)
    ensures
        final(s)@ == old(s)@ + t@,
;

/// `char::to_lowercase` yields the lowercase mapping of the character, which is
/// one or more characters and depends on the character alone.
#[verifier::external_body]
pub(crate) fn to_lowercase(c: char) -> (r: Vec<char>)
    ensures
        r@ == lowercase_mapping(c),
        r@.len() >= 1,
{
    c.to_lowercase().collect()
}

/// `char::to_uppercase` yields the uppercase mapping of the character, which is
/// one or more characters and depends on the character alone.
#[verifier::external_body]
pub(crate) fn to_uppercase(c: char) -> (r: Vec<char>)
    ensures
        r@ == uppercase_mapping(c),
        r@.len() >= 1,
{
    c.to_uppercase().collect()
}

/// `str::to_lowercase` depends on the text alone; its result is named
/// [`lowercased`].
#[verifier::external_body]
pub(crate) fn lowercase_text(s: &str) -> (r: String)
    ensures
        r@ == lowercased(s@),
{
    s.to_lowercase()
}

/// `str::to_uppercase` depends on the text alone; its result is named
/// [`uppercased`].
#[verifier::external_body]
pub(crate) fn uppercase_text(s: &str) -> (r: String)
    ensures
        r@ == uppercased(s@),
{
    s.to_uppercase()
}

} // verus!
