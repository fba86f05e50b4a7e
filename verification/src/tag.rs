//! The subset tag: a stable six-letter identifier of a glyph set.
//!
//! PDF consumers tell independently subsetted fonts with the same PostScript
//! name apart by a short prefix. The tag is derived from a 128-bit digest of
//! the glyph set's contents in their canonical ascending-key order, by six
//! rounds of taking the remainder modulo 26 as the next letter and dividing
//! the digest by 26.

use vstd::prelude::*;

use crate::glyphs::GlyphSet;

verus! {

/// How many letters a subset tag has.
pub const TAG_LEN: usize = 6;

/// The 128-bit digest that `hash128` computes of a glyph set's contents.
pub uninterp spec fn sip13_of(entries: Seq<(u16, Seq<char>)>) -> u128;

/// Relies on siphasher's `SipHasher13` with its fixed default keys, driven
/// by std's `Hash` for `Vec<(u16, String)>`: the hasher is keyed with
/// constants and std's `Hash` feeds it the entries deterministically, so
/// within a build the digest is a pure function of the entries' contents.
/// (std's `Hash` prefixes lengths as `usize`, so builds of different
/// pointer width may digest differently; no contract relies on more.)
#[verifier::external_body]
pub fn hash128(glyphs: &GlyphSet) -> (r: u128)
    ensures
        r == sip13_of(glyphs@),
{
    let mut state = siphasher::sip128::SipHasher13::new();
    std::hash::Hash::hash(&glyphs.entries, &mut state);
    siphasher::sip128::Hasher128::finish128(&state).as_u128()
}

/// The upper-case alphabet the tag draws its letters from.
pub open spec fn tag_alphabet() -> Seq<char> {
    seq![
        'A', 'B', 'C', 'D', 'E', 'F', 'G', 'H', 'I', 'J', 'K', 'L', 'M', 'N', 'O', 'P', 'Q', 'R',
        'S', 'T', 'U', 'V', 'W', 'X', 'Y', 'Z',
    ]
}

/// The `k` letters derived from the digest `h`, first letter first.
pub open spec fn tag_of(h: u128, k: nat) -> Seq<char>
    decreases k,
{
    if k == 0 {
        Seq::empty()
    } else {
        seq![tag_alphabet()[h as int % 26]] + tag_of(h / 26, (k - 1) as nat)
    }
}

/// A derived tag has exactly `k` letters, all upper-case A through Z.
pub proof fn lemma_tag_of_props(h: u128, k: nat)
    ensures
        tag_of(h, k).len() == k,
        forall|i: int|
            0 <= i < k ==> 65 <= (#[trigger] tag_of(h, k)[i]) as u32 <= 90,
    decreases k,
{
    if k > 0 {
        lemma_tag_of_props(h / 26, (k - 1) as nat);
        assert(forall|i: int|
            1 <= i < k ==> tag_of(h, k)[i] == tag_of(h / 26, (k - 1) as nat)[i - 1]);
        assert(0 <= h as int % 26 < 26);
    }
}

/// The subset tag is a pure function of the glyph set's contents: equal
/// contents give the identical tag, whatever produced the set.
pub proof fn lemma_subset_tag_pure(g1: Seq<(u16, Seq<char>)>, g2: Seq<(u16, Seq<char>)>)
    requires
        g1 == g2,
    ensures
        tag_of(sip13_of(g1), TAG_LEN as nat) == tag_of(sip13_of(g2), TAG_LEN as nat),
{
}

/// Derives the six-letter tag of a glyph set: six digits of its digest in
/// base 26, each mapped to an upper-case letter, most significant selection
/// first.
pub fn subset_tag(glyphs: &GlyphSet) -> (r: String)
    ensures
        r@ == tag_of(sip13_of(glyphs@), TAG_LEN as nat),
        r@.len() == TAG_LEN,
        forall|i: int| 0 <= i < r@.len() ==> 65 <= (#[trigger] r@[i]) as u32 <= 90,
{
    let alphabet: &str = "ABCDEFGHIJKLMNOPQRSTUVWXYZ";
    proof {
        reveal_strlit("ABCDEFGHIJKLMNOPQRSTUVWXYZ");
        assert(alphabet@ =~= tag_alphabet());
        assert forall|i: int| 0 <= i < alphabet@.len() implies (alphabet@[i] as u32) < 128 by {
            assert(tag_alphabet()[i] as u32 <= 90);
        }
        assert(alphabet.is_ascii());
    }
    let mut h = hash128(glyphs);
    let ghost h0 = h;
    let mut tag = String::new();
    let mut k: usize = 0;
    while k < TAG_LEN
        invariant
            k <= TAG_LEN,
            alphabet@ == tag_alphabet(),
            alphabet.is_ascii(),
            tag_of(h0, TAG_LEN as nat) == tag@ + tag_of(h, (TAG_LEN - k) as nat),
            tag@.len() == k,
        decreases TAG_LEN - k,
    {
        let d = (h % 26) as usize;
        let letter = alphabet.substring_ascii(d, d + 1);
        proof {
            assert(letter@ =~= seq![tag_alphabet()[d as int]]);
        }
        tag.append(letter);
        h = h / 26;
        k += 1;
        proof {
            assert(tag_of(h0, TAG_LEN as nat) =~= tag@ + tag_of(h, (TAG_LEN - k) as nat));
        }
    }
    proof {
        assert(tag_of(h, 0nat) =~= Seq::<char>::empty());
        assert(tag@ =~= tag_of(h0, TAG_LEN as nat));
        lemma_tag_of_props(h0, TAG_LEN as nat);
    }
    tag
}

} // verus!
