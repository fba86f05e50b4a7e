//! The pipeline: from a parsed font and a text to every derived artifact a
//! PDF writer needs to embed the subset font and render the text.
//!
//! One run resolves the text's characters, derives the glyph set and the
//! display sequence, the width runs, the reverse character map, the subset
//! tag and base font name, the descriptor data, and the compressed embedded
//! font stream. Any failing stage aborts the run; nothing partial is
//! produced.

use vstd::prelude::*;
use vstd::string::StringExecFns;

use crate::cmap::{build_reverse_cmap, cmap_spec};
use crate::embed::{embed_font, embedded_font_spec};
use crate::errors::PipelineError;
use crate::font::{fill_width_table, gather_advances, lookup_pairs, number_of_glyphs, read_metrics};
use crate::glyphs::{
    GlyphSet, be_bytes, build_glyph_set, display_sequence, encode_display, entries_from,
    entry_from, entry_witnessed, key_displayed, keys_displayed,
};
use crate::metrics::{FontDescriptorMetrics, RawFontMetrics, derive_metrics, descriptor_spec};
use crate::tag::{TAG_LEN, sip13_of, subset_tag, tag_of};
use crate::widths::{WidthRun, encode_from, encode_widths};

verus! {

/// Everything one pipeline run derives for the PDF writer. The resolved
/// pairs, the dense width table and the raw metrics are kept as ghost
/// records, so that every artifact's meaning can be stated against them.
pub struct PdfFontArtifacts {
    /// The subset tag, a plus sign, and the PostScript name.
    pub base_font: String,
    /// The glyph set: used glyphs in ascending order with first-seen text.
    pub glyph_set: GlyphSet,
    /// One glyph id per character of the text, in order.
    pub display_glyphs: Vec<u16>,
    /// The display sequence as content-stream bytes, big-endian pairs.
    pub encoded_text: Vec<u8>,
    /// The non-zero width runs of the width table.
    pub width_runs: Vec<WidthRun>,
    /// The reverse character map: glyph id to code points, ascending.
    pub reverse_cmap: Vec<(u16, Vec<char>)>,
    /// The derived descriptor data in raw font units and milli-PDF-units.
    pub descriptor: FontDescriptorMetrics,
    /// The deflated bytes of the embedded (subset or full) font.
    pub font_stream: Vec<u8>,
    /// How many glyphs the font holds; the width table's length.
    pub num_glyphs: u16,
    /// The resolved `(character, glyph)` pairs of the text.
    pub pairs: Ghost<Seq<(char, Option<u16>)>>,
    /// The dense width table the runs were encoded from.
    pub width_table: Ghost<Seq<u16>>,
    /// The looked-up advance of each glyph-set key, in key order.
    pub advances: Ghost<Seq<u16>>,
    /// The raw metrics the descriptor was derived from.
    pub raw_metrics: Ghost<RawFontMetrics>,
}

/// Runs the whole pipeline for one (font, text) pair.
///
/// Fails exactly when some character of the text resolves to no usable
/// glyph, with that character named; every other stage always succeeds,
/// unavailable subsetting being recovered by embedding the full font.
pub fn build_pdf_font(
    face: &ttf_parser::Face,
    font_data: &Vec<u8>,
    index: u32,
    text: &str,
    postscript_name: &str,
) -> (r: Result<PdfFontArtifacts, PipelineError>)
    ensures
        r matches Ok(a) ==> {
            // the ghost pairs record the lookup of exactly this text
            &&& a.pairs@.len() == text@.len()
            &&& forall|i: int| 0 <= i < a.pairs@.len() ==> (#[trigger] a.pairs@[i]).0 == text@[i]
            // the glyph set is well-formed and faithful to the lookup
            &&& a.glyph_set.wf()
            &&& entries_from(a.glyph_set@, a.pairs@)
            &&& forall|i: int, g: u16|
                0 <= i < a.pairs@.len() && (#[trigger] a.pairs@[i]).1 == Some(g) && g != 0u16
                    ==> #[trigger] a.glyph_set.spec_has_key(g)
            // every character contributes exactly one display glyph
            &&& a.display_glyphs@.len() == text@.len()
            &&& forall|i: int|
                0 <= i < a.pairs@.len() ==> (#[trigger] a.pairs@[i]).1 == Some(
                    a.display_glyphs@[i],
                ) && a.display_glyphs@[i] != 0u16
            &&& a.encoded_text@ == be_bytes(a.display_glyphs@)
            // the glyph set holds exactly the glyphs the text displays
            &&& keys_displayed(a.glyph_set@, a.display_glyphs@)
            &&& forall|i: int|
                0 <= i < a.display_glyphs@.len() ==> #[trigger] a.glyph_set.spec_has_key(
                    a.display_glyphs@[i],
                )
            // width runs encode the dense width table, which is zero
            // outside the glyph set
            &&& a.width_table@.len() == a.num_glyphs as nat
            &&& a.width_runs@ == encode_from(a.width_table@, 0)
            &&& a.advances@.len() == a.glyph_set@.len()
            &&& forall|j: int|
                0 <= j < a.glyph_set@.len() && (((#[trigger] a.glyph_set@[j]).0) as int)
                    < a.num_glyphs as int ==> a.width_table@[a.glyph_set@[j].0 as int]
                    == a.advances@[j]
            &&& forall|g: int|
                0 <= g < a.num_glyphs as int && !a.glyph_set.spec_has_key(g as u16)
                    ==> a.width_table@[g] == 0u16
            // the reverse map is the glyph set's non-empty entries
            &&& a.reverse_cmap@.map_values(|e: (u16, Vec<char>)| (e.0, e.1@)) == cmap_spec(
                a.glyph_set@,
            )
            // the base font name is the tag, a plus sign, and the name
            &&& a.base_font@ == tag_of(sip13_of(a.glyph_set@), TAG_LEN as nat) + "+"@
                + postscript_name@
            // the embedded stream is the deflated subset-or-full font
            &&& a.font_stream@ == embedded_font_spec(
                font_data@,
                index,
                a.glyph_set.spec_keys(),
            )
            // the descriptor is derived from the recorded raw metrics
            &&& a.descriptor == descriptor_spec(a.raw_metrics@, postscript_name@)
        },
        r matches Err(e) ==> exists|i: int|
            0 <= i < text@.len() && e == PipelineError::UnmappableCharacter(#[trigger] text@[i]),
{
    let pairs = lookup_pairs(face, text);
    let display_glyphs = match display_sequence(&pairs) {
        Ok(d) => d,
        Err(e) => {
            proof {
                let i = choose|i: int|
                    {
                        &&& 0 <= i < pairs@.len()
                        &&& crate::glyphs::unmappable(#[trigger] pairs@[i])
                        &&& e == PipelineError::UnmappableCharacter(pairs@[i].0)
                        &&& forall|k: int|
                            0 <= k < i ==> !crate::glyphs::unmappable(#[trigger] pairs@[k])
                    };
                assert(text@[i] == pairs@[i].0);
            }
            return Err(e);
        },
    };
    let glyph_set = build_glyph_set(&pairs);
    let encoded_text = encode_display(&display_glyphs);
    let num_glyphs = number_of_glyphs(face);
    let keys = glyph_set.keys();
    proof {
        // the keys inherit the set's strictly ascending order
        assert forall|j1: int, j2: int| 0 <= j1 < j2 < keys@.len() implies keys@[j1]
            < keys@[j2] by {
            assert(keys@[j1] == glyph_set@[j1].0 && keys@[j2] == glyph_set@[j2].0);
        }
    }
    let advances = gather_advances(face, &keys);
    let width_table = fill_width_table(num_glyphs, &keys, &advances);
    proof {
        // a glyph id outside the set is outside the key list
        assert forall|g: int|
            0 <= g < num_glyphs as int && !glyph_set.spec_has_key(
                g as u16,
            ) implies width_table@[g] == 0u16 by {
            if keys@.contains(g as u16) {
                let j = choose|j: int| 0 <= j < keys@.len() && keys@[j] == g as u16;
                assert(glyph_set@[j].0 == g as u16);
                assert(glyph_set.spec_has_key(g as u16));
            }
        }
        // each key's slot carries its gathered advance
        assert forall|j: int|
            0 <= j < glyph_set@.len() && (((#[trigger] glyph_set@[j]).0) as int)
                < num_glyphs as int implies width_table@[glyph_set@[j].0 as int]
            == advances@[j] by {
            assert(keys@[j] == glyph_set@[j].0);
        }
    }
    let width_runs = encode_widths(&width_table);
    let reverse_cmap = build_reverse_cmap(&glyph_set);
    let tag = subset_tag(&glyph_set);
    let base_font = tag.concat("+").concat(postscript_name);
    let font_stream = embed_font(font_data, index, &keys);
    let raw = read_metrics(face);
    let descriptor = derive_metrics(&raw, postscript_name);
    proof {
        // each glyph of the set is displayed by its witness pair
        assert forall|j: int| 0 <= j < glyph_set@.len() implies #[trigger] key_displayed(
            glyph_set@,
            display_glyphs@,
            j,
        ) by {
            assert(entry_witnessed(glyph_set@, pairs@, j));
            let i = choose|i: int| entry_from(pairs@, glyph_set@[j], i);
            assert(pairs@[i].1 == Some(display_glyphs@[i]));
            assert(0 <= i < display_glyphs@.len() && display_glyphs@[i] == glyph_set@[j].0);
        }
        assert(keys_displayed(glyph_set@, display_glyphs@));
        // each displayed glyph is a key of the set
        assert forall|i: int| 0 <= i < display_glyphs@.len() implies #[trigger] glyph_set
            .spec_has_key(display_glyphs@[i]) by {
            assert(pairs@[i].1 == Some(display_glyphs@[i]));
        }
    }
    Ok(
        PdfFontArtifacts {
            base_font,
            glyph_set,
            display_glyphs,
            encoded_text,
            width_runs,
            reverse_cmap,
            descriptor,
            font_stream,
            num_glyphs,
            pairs: Ghost(pairs@),
            width_table: Ghost(width_table@),
            advances: Ghost(advances@),
            raw_metrics: Ghost(raw),
        },
    )
}

} // verus!
