//! Conversion of post markup to plain text.

use crate::pattern::{pattern_compiles, replace_matches, replaced_matches, PatternRefused};
use crate::text::{
    from_char_range, from_chars, replace_all, replace_all_chars, to_chars, trim, trim_bounds,
};
use vstd::prelude::*;

verus! {

/// The pattern of a tag: an opening angle bracket, anything but a closing
/// one, and a closing one.
pub const TAG_PATTERN: &'static str = "<[^>]*>";

/// `s` with line-break and paragraph-break markup turned into newlines.
pub open spec fn with_line_breaks(s: Seq<char>) -> Seq<char> {
    replace_all(
        replace_all(replace_all(s, "<br />"@, "\n"@), "<br>"@, "\n"@),
        "</p><p>"@,
        "\n\n"@,
    )
}

/// `s` with the five known entities decoded, one kind after the other:
/// `&quot;`, `&amp;`, `&lt;`, `&gt;`, `&#39;`.
pub open spec fn with_entities_decoded(s: Seq<char>) -> Seq<char> {
    replace_all(
        replace_all(
            replace_all(replace_all(replace_all(s, "&quot;"@, "\""@), "&amp;"@, "&"@), "&lt;"@, "<"@),
            "&gt;"@,
            ">"@,
        ),
        "&#39;"@,
        "'"@,
    )
}

/// What becomes of text whose tags are already gone: entities are decoded,
/// then surrounding white space is dropped.
pub open spec fn tidied(stripped: Seq<char>) -> Seq<char> {
    trim(with_entities_decoded(stripped))
}

/// The plain text of `html`: breaks become newlines, the remaining tags are
/// removed, entities are decoded and the result is trimmed.
pub open spec fn plain_text(html: Seq<char>) -> Seq<char> {
    tidied(replaced_matches(TAG_PATTERN@, with_line_breaks(html), ""@))
}

/// Turns line-break and paragraph-break markup into newlines.
pub fn break_lines(html: &str) -> (out: String)
    ensures
        out@ == with_line_breaks(html@),
{
    let text = to_chars(html);
    let text = replace_all_chars(&text, &to_chars("<br />"), &to_chars("\n"));
    let text = replace_all_chars(&text, &to_chars("<br>"), &to_chars("\n"));
    let text = replace_all_chars(&text, &to_chars("</p><p>"), &to_chars("\n\n"));
    from_chars(&text)
}

/// Decodes the five known entities in text without tags and trims it.
pub fn tidy(stripped: &str) -> (out: String)
    ensures
        out@ == tidied(stripped@),
{
    let text = to_chars(stripped);
    let text = replace_all_chars(&text, &to_chars("&quot;"), &to_chars("\""));
    let text = replace_all_chars(&text, &to_chars("&amp;"), &to_chars("&"));
    let text = replace_all_chars(&text, &to_chars("&lt;"), &to_chars("<"));
    let text = replace_all_chars(&text, &to_chars("&gt;"), &to_chars(">"));
    let text = replace_all_chars(&text, &to_chars("&#39;"), &to_chars("'"));
    let (from, to) = trim_bounds(&text);
    from_char_range(&text, from, to)
}

/// Converts post markup to plain text. Fails only where the engine refuses
/// the tag pattern.
pub fn clean_html(html: &str) -> (out: Result<String, PatternRefused>)
    ensures
        out is Ok <==> pattern_compiles(TAG_PATTERN@),
        out matches Ok(text) ==> text@ == plain_text(html@),
{
    let broken = break_lines(html);
    match replace_matches(TAG_PATTERN, broken.as_str(), "") {
        Ok(stripped) => Ok(tidy(stripped.as_str())),
        Err(_) => Err(PatternRefused),
    }
}

} // verus!
