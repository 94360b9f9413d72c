//! Reading the glyphs of a font's Unicode character map.
use vstd::prelude::*;
use ttf_parser::{Face, FaceParsingError};
use crate::selection::{GlyphCandidate, candidates_view};
use crate::text::chars_of;

verus! {

#[verifier::external_type_specification]
#[verifier::external_body]
pub struct ExFace<'a>(Face<'a>);

#[verifier::external_type_specification]
#[verifier::external_body]
pub struct ExFaceParsingError(FaceParsingError);

/// Whether the bytes parse as a font face.
pub uninterp spec fn face_parses(data: Seq<u8>) -> bool;

/// The number of subtables in the face's character map, if it has one.
pub uninterp spec fn cmap_subtable_count(data: Seq<u8>) -> Option<u16>;

/// Whether a subtable of the character map has a Unicode encoding; `None`
/// where the subtable cannot be read.
pub uninterp spec fn subtable_is_unicode(data: Seq<u8>, index: u16) -> Option<bool>;

/// The codepoints that a subtable of the character map lists, in its order.
pub uninterp spec fn subtable_codepoints(data: Seq<u8>, index: u16) -> Seq<u32>;

/// The glyph that the face maps a character to.
pub uninterp spec fn glyph_index_of(data: Seq<u8>, c: char) -> Option<u16>;

/// The name that the face gives a glyph.
pub uninterp spec fn glyph_name_of(data: Seq<u8>, glyph: u16) -> Option<Seq<char>>;

/// Whether `u` is a Unicode scalar value: at most U+10FFFF and no surrogate.
pub open spec fn is_scalar(u: u32) -> bool {
    u <= 0x10FFFF && !(0xD800 <= u && u <= 0xDFFF)
}

/// The character whose scalar value is `u`, if there is one.
pub open spec fn char_of(u: u32) -> Option<char> {
    if is_scalar(u) {
        Some(u as char)
    } else {
        None
    }
}

/// The name a glyph is listed under: its own, or "unnamed" where it has none.
pub open spec fn name_or_unnamed(n: Option<Seq<char>>) -> Seq<char> {
    match n {
        Some(s) => s,
        None => seq!['u', 'n', 'n', 'a', 'm', 'e', 'd'],
    }
}

/// Why the glyphs of a font cannot be read.
#[derive(Clone, Copy, Debug, PartialEq, Eq, Structural)]
pub enum FontError {
    /// The bytes do not parse as a font.
    MalformedFont,
    /// The font has no Unicode subtable in a character map.
    MissingCharacterMap,
}

/// A parsed font face together with the bytes it was parsed from.
pub struct FontFace<'a> {
    data: &'a [u8],
    face: Face<'a>,
}

impl<'a> FontFace<'a> {
    /// The bytes the face was parsed from.
    pub closed spec fn bytes(&self) -> Seq<u8> {
        self.data@
    }
}

/// Relies on `ttf_parser::Face::parse` (face index 0): it fails exactly where
/// the bytes are no font, and depends on nothing but the bytes.
#[verifier::external_body]
fn parse_face<'a>(data: &'a [u8]) -> (r: Result<Face<'a>, FaceParsingError>)
    ensures
        r.is_ok() == face_parses(data@),
{
    Face::parse(data, 0)
}

/// Relies on `ttf_parser::cmap::Subtables::len`, reached through
/// `Face::tables().cmap`: the number of encoding records, or `None` where the
/// face has no character map.
#[verifier::external_body]
fn cmap_len(font: &FontFace) -> (r: Option<u16>)
    ensures
        r == cmap_subtable_count(font.bytes()),
{
    match font.face.tables().cmap {
        Some(cmap) => Some(cmap.subtables.len()),
        None => None,
    }
}

/// Relies on `ttf_parser::cmap::Subtable::is_unicode`, on the subtable that
/// `Subtables::get` reads at `index`; `None` where that read fails.
#[verifier::external_body]
fn subtable_unicode(font: &FontFace, index: u16) -> (r: Option<bool>)
    ensures
        r == subtable_is_unicode(font.bytes(), index),
{
    match font.face.tables().cmap {
        Some(cmap) => match cmap.subtables.get(index) {
            Some(sub) => Some(sub.is_unicode()),
            None => None,
        },
        None => None,
    }
}

/// Relies on `ttf_parser::cmap::Subtable::codepoints`: every codepoint that
/// the subtable at `index` lists, in its own order.
#[verifier::external_body]
fn codepoints(font: &FontFace, index: u16) -> (r: Vec<u32>)
    ensures
        r@ == subtable_codepoints(font.bytes(), index),
{
    let mut out: Vec<u32> = Vec::new();
    if let Some(cmap) = font.face.tables().cmap {
        if let Some(sub) = cmap.subtables.get(index) {
            sub.codepoints(|c| out.push(c));
        }
    }
    out
}

/// Relies on `ttf_parser::Face::glyph_index`: the glyph that the face's
/// Unicode subtables map `c` to.
#[verifier::external_body]
fn glyph_index(font: &FontFace, c: char) -> (r: Option<u16>)
    ensures
        r == glyph_index_of(font.bytes(), c),
{
    match font.face.glyph_index(c) {
        Some(g) => Some(g.0),
        None => None,
    }
}

/// Relies on `ttf_parser::Face::glyph_name`: the name of the glyph in the
/// face's `post` or `CFF` table.
#[verifier::external_body]
fn glyph_name(font: &FontFace, glyph: u16) -> (r: Option<Vec<char>>)
    ensures
        r matches Some(v) ==> glyph_name_of(font.bytes(), glyph) == Some(v@),
        r is None ==> glyph_name_of(font.bytes(), glyph) is None,
{
    match font.face.glyph_name(ttf_parser::GlyphId(glyph)) {
        Some(name) => Some(name.chars().collect()),
        None => None,
    }
}

/// Relies on `char::from_u32`: the character of a Unicode scalar value, and
/// `None` for any other number.
#[verifier::external_body]
fn scalar_char(u: u32) -> (r: Option<char>)
    ensures
        r == char_of(u),
{
    char::from_u32(u)
}

/// Parses a font face from its bytes.
pub fn open_face<'a>(data: &'a [u8]) -> (r: Result<FontFace<'a>, FontError>)
    ensures
        match r {
            Ok(f) => face_parses(data@) && f.bytes() == data@,
            Err(e) => !face_parses(data@) && e == FontError::MalformedFont,
        },
{
    match parse_face(data) {
        Ok(face) => Ok(FontFace { data, face }),
        Err(_) => Err(FontError::MalformedFont),
    }
}

/// The first subtable, from `i` on, that can be read and has a Unicode
/// encoding; subtables that cannot be read are passed over.
pub open spec fn first_unicode_from(data: Seq<u8>, i: int, n: int) -> Option<u16>
    decreases n - i,
{
    if i < 0 || i >= n {
        None
    } else {
        match subtable_is_unicode(data, i as u16) {
            Some(true) => Some(i as u16),
            _ => first_unicode_from(data, i + 1, n),
        }
    }
}

/// The candidates of a list of codepoints, in its order: codepoints that are
/// no scalar value, or that map to no glyph, yield none.
pub open spec fn candidates_of(data: Seq<u8>, cps: Seq<u32>) -> Seq<(char, Seq<char>)>
    decreases cps.len(),
{
    if cps.len() == 0 {
        Seq::empty()
    } else {
        let prev = candidates_of(data, cps.drop_last());
        match char_of(cps.last()) {
            None => prev,
            Some(c) => match glyph_index_of(data, c) {
                None => prev,
                Some(g) => prev.push((c, name_or_unnamed(glyph_name_of(data, g)))),
            },
        }
    }
}

/// The glyph candidates of a font, or why there are none.
pub open spec fn font_glyphs(data: Seq<u8>) -> Result<Seq<(char, Seq<char>)>, FontError> {
    if !face_parses(data) {
        Err(FontError::MalformedFont)
    } else {
        match cmap_subtable_count(data) {
            None => Err(FontError::MissingCharacterMap),
            Some(n) => match first_unicode_from(data, 0, n as int) {
                None => Err(FontError::MissingCharacterMap),
                Some(i) => Ok(candidates_of(data, subtable_codepoints(data, i))),
            },
        }
    }
}

/// The first readable Unicode subtable of the face's character map.
fn find_unicode_subtable(font: &FontFace) -> (r: Option<u16>)
    ensures
        match cmap_subtable_count(font.bytes()) {
            None => r is None,
            Some(n) => r == first_unicode_from(font.bytes(), 0, n as int),
        },
{
    let n = match cmap_len(font) {
        Some(n) => n,
        None => return None,
    };
    let mut i: u16 = 0;
    while i < n
        invariant
            cmap_subtable_count(font.bytes()) == Some(n),
            i <= n,
            first_unicode_from(font.bytes(), 0, n as int) == first_unicode_from(
                font.bytes(),
                i as int,
                n as int,
            ),
        decreases n - i,
    {
        if let Some(true) = subtable_unicode(font, i) {
            return Some(i);
        }
        i = i + 1;
    }
    None
}

/// The glyph candidates of a list of codepoints, each with its glyph's name.
fn glyph_candidates(font: &FontFace, cps: &Vec<u32>) -> (r: Vec<GlyphCandidate>)
    ensures
        candidates_view(r@) == candidates_of(font.bytes(), cps@),
{
    let mut out: Vec<GlyphCandidate> = Vec::new();
    let mut i: usize = 0;
    while i < cps.len()
        invariant
            i <= cps@.len(),
            candidates_view(out@) == candidates_of(font.bytes(), cps@.subrange(0, i as int)),
        decreases cps.len() - i,
    {
        let ghost pre = cps@.subrange(0, i as int);
        let ghost next = cps@.subrange(0, i + 1);
        proof {
            assert(next.drop_last() =~= pre);
            assert(next.last() == cps@[i as int]);
        }
        if let Some(c) = scalar_char(cps[i]) {
            if let Some(g) = glyph_index(font, c) {
                let raw_name = match glyph_name(font, g) {
                    Some(name) => name,
                    None => {
                        proof { reveal_strlit("unnamed"); }
                        let v = chars_of("unnamed");
                        assert(v@ =~= name_or_unnamed(None));
                        v
                    },
                };
                let cand = GlyphCandidate { codepoint: c, raw_name };
                out.push(cand);
                assert(candidates_view(out@) =~= candidates_of(font.bytes(), pre).push(cand@));
            }
        }
        assert(candidates_view(out@) == candidates_of(font.bytes(), next));
        i = i + 1;
    }
    assert(cps@.subrange(0, cps@.len() as int) =~= cps@);
    out
}

/// The glyph candidates of a font: for each codepoint of its first readable
/// Unicode character-map subtable that maps to a glyph, the character and the
/// glyph's name ("unnamed" where it has none).
pub fn read_glyphs(data: &[u8]) -> (r: Result<Vec<GlyphCandidate>, FontError>)
    ensures
        match r {
            Ok(v) => font_glyphs(data@) == Ok::<_, FontError>(candidates_view(v@)),
            Err(e) => font_glyphs(data@) == Err::<Seq<(char, Seq<char>)>, _>(e),
        },
{
    let font = open_face(data)?;
    let index = match find_unicode_subtable(&font) {
        Some(i) => i,
        None => return Err(FontError::MissingCharacterMap),
    };
    let cps = codepoints(&font, index);
    Ok(glyph_candidates(&font, &cps))
}

} // verus!
