//! Mapping a text to its glyphs.
//!
//! The font collaborator resolves each character of the text to an optional
//! glyph id; the functions here work on that list of `(char, Option<u16>)`
//! pairs. One pass derives the display sequence (one glyph per character,
//! failing fast on a character with no glyph), the other the glyph set: the
//! unique glyph ids in ascending order, each paired with the first character
//! that produced it. Glyph id zero denotes the missing glyph and is treated
//! as unmapped throughout.

use vstd::prelude::*;

use crate::errors::PipelineError;

verus! {

/// A character resolves to no usable glyph: either the lookup failed or it
/// produced glyph id zero, the conventional missing glyph.
pub open spec fn unmappable(p: (char, Option<u16>)) -> bool {
    p.1 is None || p.1 == Some(0u16)
}

/// An ordered mapping from glyph id to the non-empty text fragment whose
/// first character produced that glyph; keys unique, non-zero and ascending.
pub struct GlyphSet {
    pub entries: Vec<(u16, String)>,
}

impl View for GlyphSet {
    type V = Seq<(u16, Seq<char>)>;

    open spec fn view(&self) -> Seq<(u16, Seq<char>)> {
        self.entries@.map_values(|p: (u16, String)| (p.0, p.1@))
    }
}

impl GlyphSet {
    /// Keys are strictly ascending (hence unique), never the missing glyph,
    /// and every fragment is non-empty.
    pub open spec fn wf(&self) -> bool {
        &&& forall|j1: int, j2: int|
            0 <= j1 < j2 < self@.len() ==> self@[j1].0 < self@[j2].0
        &&& forall|j: int| 0 <= j < self@.len() ==> (#[trigger] self@[j]).1.len() > 0
        &&& forall|j: int| 0 <= j < self@.len() ==> (#[trigger] self@[j]).0 != 0u16
    }

    /// The glyph ids of the set, in ascending order.
    pub open spec fn spec_keys(&self) -> Seq<u16> {
        self@.map_values(|e: (u16, Seq<char>)| e.0)
    }

    /// Whether some entry carries the glyph id `g`.
    pub open spec fn spec_has_key(&self, g: u16) -> bool {
        exists|j: int| 0 <= j < self@.len() && (#[trigger] self@[j]).0 == g
    }

    /// The glyph ids of the set as a vector, ascending.
    pub fn keys(&self) -> (r: Vec<u16>)
        ensures
            r@ == self.spec_keys(),
    {
        let mut r: Vec<u16> = Vec::new();
        let mut j: usize = 0;
        while j < self.entries.len()
            invariant
                j <= self.entries@.len(),
                r@ =~= self.spec_keys().take(j as int),
            decreases self.entries@.len() - j,
        {
            r.push(self.entries[j].0);
            j += 1;
        }
        proof {
            assert(r@ =~= self.spec_keys());
        }
        r
    }

    /// How many glyphs the set holds.
    pub fn len(&self) -> (n: usize)
        ensures
            n == self@.len(),
    {
        self.entries.len()
    }
}

/// Entry `e` records that pair `i` is the first of `pairs` to resolve to
/// `e`'s glyph, and that `e`'s fragment is that pair's character.
pub open spec fn entry_from(pairs: Seq<(char, Option<u16>)>, e: (u16, Seq<char>), i: int) -> bool {
    &&& 0 <= i < pairs.len()
    &&& pairs[i].1 == Some(e.0)
    &&& e.1 == seq![pairs[i].0]
    &&& forall|k: int| 0 <= k < i ==> (#[trigger] pairs[k]).1 != Some(e.0)
}

/// Entry `j` of the set is witnessed by some first pair.
pub open spec fn entry_witnessed(
    gs: Seq<(u16, Seq<char>)>,
    pairs: Seq<(char, Option<u16>)>,
    j: int,
) -> bool {
    exists|i: int| entry_from(pairs, gs[j], i)
}

/// Every entry of the set is witnessed by the first pair that resolved to
/// its glyph.
pub open spec fn entries_from(
    gs: Seq<(u16, Seq<char>)>,
    pairs: Seq<(char, Option<u16>)>,
) -> bool {
    forall|j: int| 0 <= j < gs.len() ==> #[trigger] entry_witnessed(gs, pairs, j)
}

/// Entry `j`'s glyph id occurs in the display sequence.
pub open spec fn key_displayed(gs: Seq<(u16, Seq<char>)>, display: Seq<u16>, j: int) -> bool {
    exists|i: int| 0 <= i < display.len() && display[i] == gs[j].0
}

/// Every glyph of the set occurs in the display sequence: the set holds no
/// glyph the text does not reference.
pub open spec fn keys_displayed(gs: Seq<(u16, Seq<char>)>, display: Seq<u16>) -> bool {
    forall|j: int| 0 <= j < gs.len() ==> #[trigger] key_displayed(gs, display, j)
}

/// The glyph set of a resolved text.
///
/// The returned set holds exactly the non-zero glyph ids that some pair
/// resolved to, in ascending order, each mapped to the one-character
/// fragment of the first pair that resolved to it.
pub fn build_glyph_set(pairs: &Vec<(char, Option<u16>)>) -> (gs: GlyphSet)
    ensures
        gs.wf(),
        // soundness: every entry's glyph was produced by some pair, and its
        // fragment is the single character of the first such pair
        entries_from(gs@, pairs@),
        // completeness: every non-zero glyph some pair resolved to is a key
        forall|i: int, g: u16|
            0 <= i < pairs@.len() && (#[trigger] pairs@[i]).1 == Some(g) && g != 0u16
                ==> #[trigger] gs.spec_has_key(g),
{
    let mut gs = GlyphSet { entries: Vec::new() };
    let mut i: usize = 0;
    while i < pairs.len()
        invariant
            i <= pairs@.len(),
            gs.wf(),
            entries_from(gs@, pairs@),
            forall|ii: int, g: u16|
                0 <= ii < i && (#[trigger] pairs@[ii]).1 == Some(g) && g != 0u16
                    ==> #[trigger] gs.spec_has_key(g),
        decreases pairs@.len() - i,
    {
        let (ch, glyph) = pairs[i];
        if let Some(g) = glyph {
            if g != 0 {
                let ghost pre = gs;
                // find the insertion position that keeps the keys ascending
                let mut pos: usize = 0;
                while pos < gs.entries.len() && gs.entries[pos].0 < g
                    invariant
                        gs == pre,
                        pos <= gs.entries@.len(),
                        forall|j: int| 0 <= j < pos ==> (#[trigger] gs@[j]).0 < g,
                    decreases gs.entries@.len() - pos,
                {
                    pos += 1;
                }
                let present = pos < gs.entries.len() && gs.entries[pos].0 == g;
                if present {
                    proof {
                        assert(gs@[pos as int].0 == g);
                        assert(gs.spec_has_key(g));
                    }
                } else {
                    proof {
                        assert(pos as int == pre@.len() || pre@[pos as int].0 > g);
                    }
                    let fragment = char_encode(ch);
                    gs.entries.insert(pos, (g, fragment));
                    proof {
                        let p = pos as int;
                        assert(gs@ =~= pre@.insert(p, (g, seq![ch])));
                        assert(forall|j: int| 0 <= j < p ==> #[trigger] gs@[j] == pre@[j]);
                        assert(forall|j: int|
                            p < j < gs@.len() ==> #[trigger] gs@[j] == pre@[j - 1]);
                        assert(gs@[p] == (g, seq![ch]));
                        // the keys stay strictly ascending around the insertion
                        assert forall|j1: int, j2: int|
                            0 <= j1 < j2 < gs@.len() implies gs@[j1].0 < gs@[j2].0 by {
                            if j1 < p && j2 > p {
                                assert(pre@[j1].0 < g);
                                assert(j2 - 1 == p || pre@[p].0 < pre@[j2 - 1].0);
                            } else if j2 == p {
                                assert(pre@[j1].0 < g);
                            } else if j1 == p {
                                assert(j2 - 1 == p || pre@[p].0 < pre@[j2 - 1].0);
                            }
                        }
                        // no earlier pair produced the new glyph, else it
                        // would already be a key
                        assert forall|k: int| 0 <= k < i implies (#[trigger] pairs@[k]).1
                            != Some(g) by {
                            if pairs@[k].1 == Some(g) {
                                assert(pre.spec_has_key(g));
                                let j = choose|j: int|
                                    0 <= j < pre@.len() && (#[trigger] pre@[j]).0 == g;
                                if j < p {
                                    assert(pre@[j].0 < g);
                                } else {
                                    assert(j == p || pre@[p].0 < pre@[j].0);
                                }
                            }
                        }
                        // every key of the old set is still a key
                        assert forall|gk: u16| pre.spec_has_key(gk) implies gs.spec_has_key(
                            gk,
                        ) by {
                            let j = choose|j: int|
                                0 <= j < pre@.len() && (#[trigger] pre@[j]).0 == gk;
                            if j < p {
                                assert(gs@[j].0 == gk);
                            } else {
                                assert(gs@[j + 1].0 == gk);
                            }
                        }
                        assert(gs.spec_has_key(g));
                        // each old entry keeps its witness pair, the new one
                        // is witnessed by the current pair
                        assert forall|j: int| 0 <= j < gs@.len() implies #[trigger] entry_witnessed(
                            gs@,
                            pairs@,
                            j,
                        ) by {
                            if j == p {
                                assert(entry_from(pairs@, gs@[j], i as int));
                            } else {
                                let jo = if j < p {
                                    j
                                } else {
                                    j - 1
                                };
                                assert(gs@[j] == pre@[jo]);
                                assert(entry_witnessed(pre@, pairs@, jo));
                                let ii = choose|ii: int| entry_from(pairs@, pre@[jo], ii);
                                assert(entry_from(pairs@, gs@[j], ii));
                            }
                        }
                        assert(entries_from(gs@, pairs@));
                    }
                }
            }
        }
        i += 1;
    }
    gs
}

/// Relies on `char::to_string` of std: the resulting string holds exactly
/// the one character it was made from.
#[verifier::external_body]
fn char_encode(ch: char) -> (r: String)
    ensures
        r@ == seq![ch],
{
    ch.to_string()
}

/// The display glyph sequence of a resolved text: one glyph per character,
/// in order. Fails with `UnmappableCharacter` on the first character whose
/// lookup produced no usable glyph; no character is silently dropped.
pub fn display_sequence(pairs: &Vec<(char, Option<u16>)>) -> (r: Result<
    Vec<u16>,
    PipelineError,
>)
    ensures
        r matches Ok(seq) ==> {
            &&& seq@.len() == pairs@.len()
            &&& forall|i: int|
                0 <= i < pairs@.len() ==> (#[trigger] pairs@[i]).1 == Some(seq@[i])
                    && seq@[i] != 0u16
        },
        r matches Err(e) ==> exists|i: int|
            {
                &&& 0 <= i < pairs@.len()
                &&& unmappable(#[trigger] pairs@[i])
                &&& e == PipelineError::UnmappableCharacter(pairs@[i].0)
                &&& forall|k: int| 0 <= k < i ==> !unmappable(#[trigger] pairs@[k])
            },
        r is Err <==> exists|i: int| 0 <= i < pairs@.len() && unmappable(#[trigger] pairs@[i]),
{
    let mut out: Vec<u16> = Vec::new();
    let mut i: usize = 0;
    while i < pairs.len()
        invariant
            i <= pairs@.len(),
            out@.len() == i,
            forall|k: int|
                0 <= k < i ==> (#[trigger] pairs@[k]).1 == Some(out@[k]) && out@[k] != 0u16,
        decreases pairs@.len() - i,
    {
        let (ch, glyph) = pairs[i];
        match glyph {
            Some(g) if g != 0 => {
                out.push(g);
            },
            _ => {
                return Err(PipelineError::UnmappableCharacter(ch));
            },
        }
        i += 1;
    }
    Ok(out)
}

/// Big-endian two-byte encoding of each glyph id, in sequence order.
pub open spec fn be_bytes(gs: Seq<u16>) -> Seq<u8> {
    Seq::new(
        2 * gs.len(),
        |k: int|
            if k % 2 == 0 {
                (gs[k / 2] >> 8u16) as u8
            } else {
                (gs[k / 2] & 0xffu16) as u8
            },
    )
}

/// Encodes the display glyph sequence as the byte string of a PDF content
/// stream: each 16-bit glyph id becomes two bytes, high byte first.
pub fn encode_display(glyphs: &Vec<u16>) -> (r: Vec<u8>)
    ensures
        r@ == be_bytes(glyphs@),
{
    let mut out: Vec<u8> = Vec::new();
    let mut i: usize = 0;
    while i < glyphs.len()
        invariant
            i <= glyphs@.len(),
            out@.len() == 2 * i,
            forall|k: int| 0 <= k < 2 * i ==> out@[k] == be_bytes(glyphs@)[k],
        decreases glyphs@.len() - i,
    {
        let g = glyphs[i];
        out.push((g >> 8) as u8);
        out.push((g & 0xff) as u8);
        proof {
            assert((2 * i as int) % 2 == 0 && (2 * i as int) / 2 == i as int);
            assert((2 * i as int + 1) % 2 == 1 && (2 * i as int + 1) / 2 == i as int);
        }
        i += 1;
    }
    proof {
        assert(out@ =~= be_bytes(glyphs@));
    }
    out
}

} // verus!
