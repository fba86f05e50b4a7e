//! Verified core of a PDF font-embedding pipeline.
//!
//! Starting from a text string and the metrics of a parsed font, the library
//! derives the data a PDF consumer needs to render and extract that text:
//! a minimal glyph subset with a stable six-letter tag, a run-length-encoded
//! glyph-width table, a reverse character map for text extraction, and the
//! font-descriptor flags and metrics.

mod cmap;
mod embed;
mod errors;
mod font;
mod glyphs;
mod metrics;
mod pipeline;
mod tag;
mod widths;

pub use cmap::{build_reverse_cmap, cmap_spec, lemma_cmap_all_kept, lemma_reverse_cmap_round_trip};
pub use embed::{COMPRESSION_LEVEL, deflate, embed_font, embedded_font_spec, subset_of, zlib_of};
pub use errors::PipelineError;
pub use font::{fill_width_table, gather_advances, lookup_pairs, number_of_glyphs, read_metrics};
pub use glyphs::{GlyphSet, be_bytes, build_glyph_set, display_sequence, encode_display, entries_from, entry_from, entry_witnessed, key_displayed, keys_displayed, unmappable};
pub use metrics::{FontDescriptorMetrics, FontFlagSet, RawFontMetrics, contains_substr, derive_metrics, descriptor_spec, fallback, spec_contains, stem_v_milli_spec};
pub use pipeline::{PdfFontArtifacts, build_pdf_font};
pub use tag::{TAG_LEN, hash128, lemma_subset_tag_pure, lemma_tag_of_props, sip13_of, subset_tag, tag_of};
pub use widths::{WidthRun, decode, decode_at, encode_from, encode_widths, lemma_width_round_trip, run_end};
