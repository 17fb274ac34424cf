use vstd::prelude::*;

verus! {

#[verifier::external_type_specification]
#[verifier::external_body]
pub struct ExFont(fontdue::Font);

/// Whether a byte sequence is a well-formed font file (at face index zero).
/// Parsing is a pure function of the bytes.
pub uninterp spec fn parses_as_font(bytes: Seq<u8>) -> bool;

/// Relies on ttf_parser::Face::parse: it accepts exactly the byte sequences
/// that form a well-formed font file, reading nothing but the bytes.
#[verifier::external_body]
fn face_parses(bytes: &Vec<u8>) -> (r: bool)
    ensures
        r == parses_as_font(bytes@),
{
    ttf_parser::Face::parse(bytes.as_slice(), 0).is_ok()
}

/// The set of characters the rasterizer's parsed font has a glyph for.
pub uninterp spec fn font_glyph_set(f: fontdue::Font) -> Set<char>;

/// Relies on fontdue::Font::has_glyph: a pure lookup of the character in the
/// parsed font's character map.
pub assume_specification[ fontdue::Font::has_glyph ](f: &fontdue::Font, character: char) -> (r:
    bool)
    ensures
        r == font_glyph_set(*f).contains(character),
;

/// Whether a character counts as Unicode whitespace.
pub uninterp spec fn is_unicode_whitespace(c: char) -> bool;

/// Relies on char::is_whitespace: a pure property of the character.
#[verifier::external_body]
pub(crate) fn char_is_whitespace(c: char) -> (r: bool)
    ensures
        r == is_unicode_whitespace(c),
{
    c.is_whitespace()
}

/// A construction failure: the font bytes are malformed, or the font exposes
/// no horizontal line metrics at the requested size.
#[derive(Clone, Copy, Debug, PartialEq, Eq, Structural)]
pub enum FontError {
    Parse,
    NoLineMetrics,
}

impl FontError {
    /// The fixed human-readable description of the failure.
    pub fn message(&self) -> (r: &'static str)
        ensures
            *self is Parse ==> r@ == "Font Parsing Error"@,
            *self is NoLineMetrics ==> r@ == "font does not have horizontal line metrics"@,
    {
        match self {
            FontError::Parse => "Font Parsing Error",
            FontError::NoLineMetrics => "font does not have horizontal line metrics",
        }
    }
}

/// Rejects byte buffers that do not parse as a font file; a cache is only ever
/// constructed over bytes this function accepts.
pub fn validate_font_bytes(bytes: &Vec<u8>) -> (r: Result<(), FontError>)
    ensures
        r is Ok <==> parses_as_font(bytes@),
        r is Err ==> r == Result::<(), FontError>::Err(FontError::Parse),
{
    if face_parses(bytes) {
        Ok(())
    } else {
        Err(FontError::Parse)
    }
}

/// Whether the font has a glyph for the character, as the rasterizer reports
/// it.
pub fn glyph_is_in_font(font: &fontdue::Font, ch: char) -> (r: bool)
    ensures
        r == font_glyph_set(*font).contains(ch),
{
    font.has_glyph(ch)
}

} // verus!
