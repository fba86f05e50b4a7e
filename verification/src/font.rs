//! The font collaborator: queries against a parsed font face.
//!
//! Parsing the font binary is not this library's concern; a parsed
//! `ttf_parser::Face` is taken as an opaque collaborator, and each query the
//! pipeline needs is a small trusted call. What the answers mean for the
//! derived artifacts is stated and proved in the functions that consume
//! them.

use vstd::prelude::*;
use vstd::string::StrSliceExecFns;

use crate::metrics::RawFontMetrics;

verus! {

#[verifier::external_type_specification]
#[verifier::external_body]
pub struct ExFace<'a>(ttf_parser::Face<'a>);

/// Relies on `ttf_parser::Face::glyph_index`: resolves a code point through
/// the font's character map; `None` when the font has no glyph for it. The
/// font may still answer with glyph id zero, the missing glyph; callers
/// treat that as unmapped.
#[verifier::external_body]
fn glyph_index(face: &ttf_parser::Face, ch: char) -> (r: Option<u16>) {
    face.glyph_index(ch).map(|g| g.0)
}

/// Relies on `ttf_parser::Face::glyph_hor_advance`: the glyph's horizontal
/// advance in raw font units, `None` when the font has no metric for it.
#[verifier::external_body]
fn glyph_hor_advance(face: &ttf_parser::Face, glyph: u16) -> (r: Option<u16>) {
    face.glyph_hor_advance(ttf_parser::GlyphId(glyph))
}

/// Relies on `ttf_parser::Face::number_of_glyphs`: how many glyphs the font
/// holds.
#[verifier::external_body]
pub fn number_of_glyphs(face: &ttf_parser::Face) -> (r: u16) {
    face.number_of_glyphs()
}

/// Relies on `ttf_parser::Face::ascender`: the horizontal ascender in raw
/// font units.
#[verifier::external_body]
fn ascender(face: &ttf_parser::Face) -> (r: i16) {
    face.ascender()
}

/// Relies on `ttf_parser::Face::descender`: the horizontal descender in raw
/// font units.
#[verifier::external_body]
fn descender(face: &ttf_parser::Face) -> (r: i16) {
    face.descender()
}

/// Relies on `ttf_parser::Face::typographic_ascender`: the OS/2 typographic
/// ascender, when the font has one.
#[verifier::external_body]
fn typographic_ascender(face: &ttf_parser::Face) -> (r: Option<i16>) {
    face.typographic_ascender()
}

/// Relies on `ttf_parser::Face::typographic_descender`: the OS/2
/// typographic descender, when the font has one.
#[verifier::external_body]
fn typographic_descender(face: &ttf_parser::Face) -> (r: Option<i16>) {
    face.typographic_descender()
}

/// Relies on `ttf_parser::Face::capital_height`: the capital height, when
/// the font has one.
#[verifier::external_body]
fn capital_height(face: &ttf_parser::Face) -> (r: Option<i16>) {
    face.capital_height()
}

/// Relies on `ttf_parser::Face::weight` and `Weight::to_number`: the weight
/// class on the usual 100–900 scale.
#[verifier::external_body]
fn weight_class(face: &ttf_parser::Face) -> (r: u16) {
    face.weight().to_number()
}

/// Relies on `ttf_parser::Face::is_italic`.
#[verifier::external_body]
fn is_italic(face: &ttf_parser::Face) -> (r: bool) {
    face.is_italic()
}

/// Relies on `ttf_parser::Face::is_monospaced`.
#[verifier::external_body]
fn is_monospaced(face: &ttf_parser::Face) -> (r: bool) {
    face.is_monospaced()
}

/// Relies on `ttf_parser::Face::global_bounding_box`: the font's bounding
/// box in raw font units, as (x_min, y_min, x_max, y_max).
#[verifier::external_body]
fn global_bounding_box(face: &ttf_parser::Face) -> (r: (i16, i16, i16, i16)) {
    let rect = face.global_bounding_box();
    (rect.x_min, rect.y_min, rect.x_max, rect.y_max)
}

/// Gathers the raw metrics the descriptor derivation needs, each through
/// one collaborator query.
pub fn read_metrics(face: &ttf_parser::Face) -> RawFontMetrics {
    let (x_min, y_min, x_max, y_max) = global_bounding_box(face);
    RawFontMetrics {
        ascender: ascender(face),
        descender: descender(face),
        typographic_ascender: typographic_ascender(face),
        typographic_descender: typographic_descender(face),
        capital_height: capital_height(face),
        x_min,
        y_min,
        x_max,
        y_max,
        weight_class: weight_class(face),
        is_italic: is_italic(face),
        is_monospaced: is_monospaced(face),
    }
}

/// Resolves every character of the text through the font's character map,
/// in order: one `(character, optional glyph)` pair per character.
pub fn lookup_pairs(face: &ttf_parser::Face, text: &str) -> (r: Vec<(char, Option<u16>)>)
    ensures
        r@.len() == text@.len(),
        forall|i: int| 0 <= i < r@.len() ==> (#[trigger] r@[i]).0 == text@[i],
{
    let n = text.unicode_len();
    let mut r: Vec<(char, Option<u16>)> = Vec::new();
    let mut i: usize = 0;
    while i < n
        invariant
            n == text@.len(),
            i <= n,
            r@.len() == i,
            forall|k: int| 0 <= k < i ==> (#[trigger] r@[k]).0 == text@[k],
        decreases n - i,
    {
        let ch = text.get_char(i);
        r.push((ch, glyph_index(face, ch)));
        i += 1;
    }
    r
}

/// Looks up the horizontal advance of each listed glyph, in order: entry
/// `j` is glyph `keys[j]`'s advance in raw font units, zero when the font
/// reports none. The values come from the opaque face, so nothing more can
/// be stated of them; `fill_width_table` consumes them with an exact
/// contract.
pub fn gather_advances(face: &ttf_parser::Face, keys: &Vec<u16>) -> (advances: Vec<u16>)
    ensures
        advances@.len() == keys@.len(),
{
    let mut advances: Vec<u16> = Vec::new();
    let mut j: usize = 0;
    while j < keys.len()
        invariant
            j <= keys@.len(),
            advances@.len() == j,
        decreases keys@.len() - j,
    {
        let advance = match glyph_hor_advance(face, keys[j]) {
            Some(a) => a,
            None => 0,
        };
        advances.push(advance);
        j += 1;
    }
    advances
}

/// Fills the dense width table of a font with `num_glyphs` glyphs: slot
/// `keys[j]` holds `advances[j]`, every other slot holds zero. The keys are
/// strictly ascending, so each slot is written at most once; a key at or
/// beyond the glyph count has no slot and is skipped.
pub fn fill_width_table(num_glyphs: u16, keys: &Vec<u16>, advances: &Vec<u16>) -> (w: Vec<u16>)
    requires
        keys@.len() == advances@.len(),
        forall|j1: int, j2: int| 0 <= j1 < j2 < keys@.len() ==> keys@[j1] < keys@[j2],
    ensures
        w@.len() == num_glyphs as nat,
        forall|j: int|
            0 <= j < keys@.len() && ((#[trigger] keys@[j]) as int) < num_glyphs as int
                ==> w@[keys@[j] as int] == advances@[j],
        forall|g: int|
            0 <= g < num_glyphs as int && !keys@.contains(g as u16) ==> w@[g] == 0u16,
{
    let n = num_glyphs as usize;
    let mut w: Vec<u16> = Vec::new();
    let mut i: usize = 0;
    while i < n
        invariant
            i <= n,
            w@.len() == i,
            forall|g: int| 0 <= g < i ==> w@[g] == 0u16,
        decreases n - i,
    {
        w.push(0);
        i += 1;
    }
    let mut j: usize = 0;
    while j < keys.len()
        invariant
            keys@.len() == advances@.len(),
            forall|j1: int, j2: int| 0 <= j1 < j2 < keys@.len() ==> keys@[j1] < keys@[j2],
            j <= keys@.len(),
            w@.len() == num_glyphs as nat,
            forall|jj: int|
                0 <= jj < j && ((#[trigger] keys@[jj]) as int) < num_glyphs as int
                    ==> w@[keys@[jj] as int] == advances@[jj],
            forall|g: int|
                0 <= g < num_glyphs as int && !keys@.contains(g as u16) ==> w@[g] == 0u16,
        decreases keys@.len() - j,
    {
        let g = keys[j];
        if (g as usize) < w.len() {
            proof {
                // this key's slot is a key's slot: the zero clause spares it
                assert(keys@.contains(g));
                // earlier keys are strictly smaller, so their slots stay
                assert(forall|jj: int| 0 <= jj < j ==> keys@[jj] < g);
            }
            w.set(g as usize, advances[j]);
        }
        j += 1;
    }
    w
}

} // verus!
