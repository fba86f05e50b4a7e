//! The reverse character map: glyph id to Unicode code points.
//!
//! For text extraction a PDF consumer needs, for each glyph of the subset,
//! the code points it stands for. The builder turns a glyph set into that
//! table: entries stay in ascending glyph order, each carries the code
//! points of its text fragment in source order, and entries with an empty
//! fragment are left out.

use vstd::prelude::*;
use vstd::string::StrSliceExecFns;

use crate::glyphs::{GlyphSet, entries_from};

verus! {

/// The reverse map of a glyph set: its entries with a non-empty fragment,
/// in order.
pub open spec fn cmap_spec(entries: Seq<(u16, Seq<char>)>) -> Seq<(u16, Seq<char>)> {
    entries.filter(|e: (u16, Seq<char>)| e.1.len() > 0)
}

/// The characters of a string, as a vector, in order.
fn string_chars(s: &String) -> (r: Vec<char>)
    ensures
        r@ == s@,
{
    let n = s.as_str().unicode_len();
    let mut r: Vec<char> = Vec::new();
    let mut i: usize = 0;
    while i < n
        invariant
            n == s@.len(),
            i <= n,
            r@ =~= s@.take(i as int),
        decreases n - i,
    {
        r.push(s.as_str().get_char(i));
        i += 1;
    }
    proof {
        assert(r@ =~= s@);
    }
    r
}

/// Builds the reverse character map of a glyph set: one entry per glyph
/// with a non-empty fragment, in ascending glyph order, the fragment's code
/// points in their source order.
pub fn build_reverse_cmap(gs: &GlyphSet) -> (r: Vec<(u16, Vec<char>)>)
    ensures
        r@.map_values(|e: (u16, Vec<char>)| (e.0, e.1@)) == cmap_spec(gs@),
{
    let ghost pred = |e: (u16, Seq<char>)| e.1.len() > 0;
    let ghost f = |e: (u16, Vec<char>)| (e.0, e.1@);
    let mut r: Vec<(u16, Vec<char>)> = Vec::new();
    let mut j: usize = 0;
    while j < gs.entries.len()
        invariant
            j <= gs@.len(),
            gs@.len() == gs.entries@.len(),
            r@.map_values(|e: (u16, Vec<char>)| (e.0, e.1@)) == gs@.take(j as int).filter(
                |e: (u16, Seq<char>)| e.1.len() > 0,
            ),
        decreases gs@.len() - j,
    {
        let ghost prefix = gs@.take(j as int);
        let ghost prefix1 = gs@.take(j as int + 1);
        proof {
            reveal(Seq::filter);
            assert(prefix1.drop_last() =~= prefix);
            assert(prefix1.last() == gs@[j as int]);
        }
        let g = gs.entries[j].0;
        let fragment = &gs.entries[j].1;
        if fragment.as_str().unicode_len() > 0 {
            let chars = string_chars(fragment);
            let ghost before = r@;
            r.push((g, chars));
            proof {
                assert(gs@[j as int] == (g, fragment@));
                assert(r@.map_values(|e: (u16, Vec<char>)| (e.0, e.1@)) =~= before.map_values(
                    |e: (u16, Vec<char>)| (e.0, e.1@),
                ).push((g, fragment@)));
                assert(prefix1.filter(|e: (u16, Seq<char>)| e.1.len() > 0) == prefix.filter(
                    |e: (u16, Seq<char>)| e.1.len() > 0,
                ).push(gs@[j as int]));
            }
        } else {
            proof {
                assert(gs@[j as int] == (g, fragment@));
                assert(prefix1.filter(|e: (u16, Seq<char>)| e.1.len() > 0) == prefix.filter(
                    |e: (u16, Seq<char>)| e.1.len() > 0,
                ));
            }
        }
        j += 1;
    }
    proof {
        assert(gs@.take(gs@.len() as int) =~= gs@);
    }
    r
}

/// A set whose fragments are all non-empty is its own reverse map: nothing
/// is filtered away.
pub proof fn lemma_cmap_all_kept(entries: Seq<(u16, Seq<char>)>)
    requires
        forall|j: int| 0 <= j < entries.len() ==> (#[trigger] entries[j]).1.len() > 0,
    ensures
        cmap_spec(entries) == entries,
    decreases entries.len(),
{
    reveal(Seq::filter);
    if entries.len() > 0 {
        lemma_cmap_all_kept(entries.drop_last());
        assert(entries =~= entries.drop_last().push(entries.last()));
        assert(cmap_spec(entries) =~= cmap_spec(entries.drop_last()).push(entries.last()));
    }
}

/// Round trip through the reverse map: a well-formed glyph set built from a
/// resolved text keeps every glyph, and each reverse-map entry carries
/// exactly the first-seen character that produced its glyph.
pub proof fn lemma_reverse_cmap_round_trip(gs: GlyphSet, pairs: Seq<(char, Option<u16>)>)
    requires
        gs.wf(),
        entries_from(gs@, pairs),
    ensures
        cmap_spec(gs@) == gs@,
        entries_from(cmap_spec(gs@), pairs),
{
    lemma_cmap_all_kept(gs@);
}

} // verus!
