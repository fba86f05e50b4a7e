//! Preparing the embedded font stream.
//!
//! The raw font bytes are reduced to the used glyphs by the subsetting
//! collaborator — which keeps glyph ids stable, so the identity CID mapping
//! stays valid — and the result is deflate-compressed. When the collaborator
//! cannot subset the font, the pipeline recovers by embedding the full font
//! bytes instead; compression always applies.

use vstd::prelude::*;

verus! {

/// The compression level handed to the deflate collaborator.
pub const COMPRESSION_LEVEL: u8 = 6;

/// What `subsetter::subset` returns for these font bytes, face index and
/// glyph list: the reduced font, or nothing when it cannot subset.
pub uninterp spec fn subset_of(data: Seq<u8>, index: u32, glyphs: Seq<u16>) -> Option<Seq<u8>>;

/// Relies on `subsetter::subset` with `subsetter::Profile::pdf`: a pure
/// function of the font bytes, the face index and the glyph list; it keeps
/// the glyph ids of the listed glyphs stable. An error is mapped to `None`.
#[verifier::external_body]
fn try_subset(data: &Vec<u8>, index: u32, glyphs: &Vec<u16>) -> (r: Option<Vec<u8>>)
    ensures
        match r {
            Some(v) => subset_of(data@, index, glyphs@) == Some(v@),
            None => subset_of(data@, index, glyphs@) is None,
        },
{
    let profile = subsetter::Profile::pdf(glyphs.as_slice());
    subsetter::subset(data.as_slice(), index, profile).ok()
}

/// What `miniz_oxide`'s zlib compression returns for these bytes at this
/// level.
pub uninterp spec fn zlib_of(data: Seq<u8>, level: u8) -> Seq<u8>;

/// Relies on `miniz_oxide::deflate::compress_to_vec_zlib`: a pure function
/// of the input bytes and the compression level, producing a zlib stream.
#[verifier::external_body]
fn compress_zlib(data: &Vec<u8>, level: u8) -> (r: Vec<u8>)
    ensures
        r@ == zlib_of(data@, level),
{
    miniz_oxide::deflate::compress_to_vec_zlib(data.as_slice(), level)
}

/// Compresses bytes with the pipeline's fixed compression level; the
/// consumer reverses it with the standard flate filter.
pub fn deflate(data: &Vec<u8>) -> (r: Vec<u8>)
    ensures
        r@ == zlib_of(data@, COMPRESSION_LEVEL),
{
    compress_zlib(data, COMPRESSION_LEVEL)
}

/// The bytes of the embedded font stream: the subset when the collaborator
/// produced one, the full font otherwise, deflated either way.
pub open spec fn embedded_font_spec(data: Seq<u8>, index: u32, glyphs: Seq<u16>) -> Seq<u8> {
    match subset_of(data, index, glyphs) {
        Some(s) => zlib_of(s, COMPRESSION_LEVEL),
        None => zlib_of(data, COMPRESSION_LEVEL),
    }
}

/// Produces the embedded font stream for the used glyphs: the subsetted
/// font when subsetting is available, the full font bytes otherwise,
/// compressed in either case.
pub fn embed_font(data: &Vec<u8>, index: u32, glyphs: &Vec<u16>) -> (r: Vec<u8>)
    ensures
        r@ == embedded_font_spec(data@, index, glyphs@),
{
    match try_subset(data, index, glyphs) {
        Some(subsetted) => deflate(&subsetted),
        None => deflate(data),
    }
}

} // verus!
