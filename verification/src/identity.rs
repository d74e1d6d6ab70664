//! Name-based identifiers and URL slugs. The hashing is uuid's, the
//! transliteration and normalisation slugify's.

use vstd::prelude::*;
use uuid::Uuid;

verus! {

/// The lower-case hyphenated text of the version-5 UUID that uuid computes
/// for `name` in the URL namespace.
pub uninterp spec fn uuid_v5_url(name: Seq<char>) -> Seq<char>;

/// What slugify makes of `text` with the given stop words, separator and
/// length cap.
pub uninterp spec fn slugified(
    text: Seq<char>,
    stop_words: Seq<char>,
    sep: Seq<char>,
    max_length: Option<usize>,
) -> Seq<char>;

/// Whether `c` may stand in a slug made with the separator `sep`: a lower-case
/// ASCII letter, a digit or the separator.
pub open spec fn is_slug_char(c: char, sep: char) -> bool {
    ('a' <= c && c <= 'z') || ('0' <= c && c <= '9') || c == sep
}

/// Whether a slug neither starts nor ends with the separator and never holds
/// two separators in a row.
pub open spec fn is_tidy(slug: Seq<char>, sep: char) -> bool {
    &&& slug.len() > 0 ==> slug[0] != sep && slug.last() != sep
    &&& forall|i: int| 0 < i < slug.len() ==> !(#[trigger] slug[i] == sep && slug[i - 1] == sep)
}

/// Whether `c` is a lower-case hexadecimal digit.
pub open spec fn is_lower_hex(c: char) -> bool {
    ('0' <= c && c <= '9') || ('a' <= c && c <= 'f')
}

/// The shape of a version-5 UUID in hyphenated form: 36 characters, hyphens
/// after the groups of 8, 4, 4 and 4 digits, lower-case hexadecimal digits
/// elsewhere, the version digit `5` and a variant digit of `8` to `b`.
pub open spec fn is_uuid_v5_text(id: Seq<char>) -> bool {
    &&& id.len() == 36
    &&& forall|i: int|
        0 <= i < 36 ==> if i == 8 || i == 13 || i == 18 || i == 23 {
            #[trigger] id[i] == '-'
        } else {
            is_lower_hex(id[i])
        }
    &&& id[14] == '5'
    &&& (id[19] == '8' || id[19] == '9' || id[19] == 'a' || id[19] == 'b')
}

/// Whether every character of a slug is a lower-case ASCII letter, a digit
/// or the separator.
pub open spec fn all_slug_chars(slug: Seq<char>, sep: char) -> bool {
    forall|i: int| 0 <= i < slug.len() ==> is_slug_char(#[trigger] slug[i], sep)
}

/// Calls `Uuid::new_v5` with `Uuid::NAMESPACE_URL` and the bytes of `name`,
/// and writes the result in hyphenated form. The text depends on `name`
/// alone. The builder sets the version to 5 and the variant to that of
/// RFC 4122, and the formatter writes 32 lower-case hexadecimal digits in
/// groups of 8, 4, 4, 4 and 12 with hyphens between them.
#[verifier::external_body]
pub(crate) fn uuid_v5_url_of(name: &str) -> (r: String)
    ensures
        r@ == uuid_v5_url(name@),
        is_uuid_v5_text(r@),
{
    Uuid::new_v5(&Uuid::NAMESPACE_URL, name.as_bytes()).hyphenated().to_string()
}

/// Calls `slugify::slugify`. It indexes the first character of the separator
/// and writes it as one byte, so the separator must start with an ASCII
/// character. The result depends on the arguments alone. It is built from
/// lower-case ASCII letters, digits and that first character only, and with a
/// cap it is cut to at most that many characters. It writes a separator only
/// after a letter or a digit and strips one from the end, so where the
/// separator is itself no letter or digit the result is tidy. Empty text
/// gives an empty result.
#[verifier::external_body]
pub(crate) fn slugify_of(
    text: &str,
    stop_words: &str,
    sep: &str,
    max_length: Option<usize>,
) -> (r: String)
    requires
        sep@.len() > 0,
        (sep@[0] as u32) < 128,
    ensures
        r@ == slugified(text@, stop_words@, sep@, max_length),
        max_length matches Some(cap) ==> r@.len() <= cap,
        all_slug_chars(r@, sep@[0]),
        text@.len() == 0 ==> r@.len() == 0,
        !(('a' <= sep@[0] && sep@[0] <= 'z') || ('0' <= sep@[0] && sep@[0] <= '9')) ==> is_tidy(
            r@,
            sep@[0],
        ),
{
    slugify::slugify(text, stop_words, sep, max_length)
}

} // verus!
