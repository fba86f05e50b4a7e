//! Deriving PDF font-descriptor data from raw font metrics.
//!
//! The font collaborator reports its metrics in raw font units together with
//! a few boolean traits; the deriver resolves the documented fallbacks
//! (typographic values first, the generic ascender otherwise), computes the
//! flag set, and derives the stem width from the weight class. Values stay
//! in exact integer form: raw font units, and thousandths of a PDF unit for
//! the stem width; the caller scales them into PDF text space by the font's
//! units per em.

use vstd::prelude::*;
use vstd::string::StrSliceExecFns;

verus! {

/// Metrics of a parsed font, in raw font units.
#[derive(Clone, Copy, Debug)]
pub struct RawFontMetrics {
    pub ascender: i16,
    pub descender: i16,
    pub typographic_ascender: Option<i16>,
    pub typographic_descender: Option<i16>,
    pub capital_height: Option<i16>,
    pub x_min: i16,
    pub y_min: i16,
    pub x_max: i16,
    pub y_max: i16,
    pub weight_class: u16,
    pub is_italic: bool,
    pub is_monospaced: bool,
}

/// The font-descriptor flag set, as named capabilities; the writer
/// serializes them into the descriptor's bit positions.
#[derive(Clone, Copy, Debug, PartialEq, Eq, Structural)]
pub struct FontFlagSet {
    pub serif: bool,
    pub fixed_pitch: bool,
    pub italic: bool,
    pub symbolic: bool,
    pub small_cap: bool,
}

/// Derived font-descriptor data: the flag set, the resolved vertical
/// metrics and bounding box in raw font units, and the stem width in
/// thousandths of a PDF unit.
#[derive(Clone, Copy, Debug)]
pub struct FontDescriptorMetrics {
    pub flags: FontFlagSet,
    pub ascent: i16,
    pub descent: i16,
    pub cap_height: i16,
    pub x_min: i16,
    pub y_min: i16,
    pub x_max: i16,
    pub y_max: i16,
    pub stem_v_milli: i32,
}

/// `needle` occurs in `hay` as a contiguous substring.
pub open spec fn spec_contains(hay: Seq<char>, needle: Seq<char>) -> bool {
    exists|i: int|
        0 <= i <= hay.len() - needle.len() && #[trigger] hay.subrange(i, i + needle.len())
            == needle
}

/// Whether `needle` occurs in `hay`, scanning every character position.
pub fn contains_substr(hay: &str, needle: &str) -> (r: bool)
    ensures
        r == spec_contains(hay@, needle@),
{
    let n = hay.unicode_len();
    let m = needle.unicode_len();
    if m > n {
        return false;
    }
    if m == 0 {
        proof {
            assert(hay@.subrange(0, 0 + needle@.len() as int) =~= needle@);
        }
        return true;
    }
    let mut i: usize = 0;
    while i <= n - m
        invariant
            n == hay@.len(),
            m == needle@.len(),
            0 < m <= n,
            i <= n - m + 1,
            forall|ii: int|
                0 <= ii < i ==> #[trigger] hay@.subrange(ii, ii + needle@.len()) != needle@,
        decreases n - i,
    {
        let mut j: usize = 0;
        let mut hit = true;
        while j < m
            invariant
                n == hay@.len(),
                m == needle@.len(),
                m <= n,
                i <= n - m,
                j <= m,
                hit ==> forall|k: int| 0 <= k < j ==> hay@[i + k] == needle@[k],
                !hit ==> hay@.subrange(i as int, i as int + needle@.len()) != needle@,
            decreases m - j,
        {
            if hay.get_char(i + j) != needle.get_char(j) {
                proof {
                    assert(hay@.subrange(i as int, i as int + needle@.len())[j as int]
                        == hay@[i + j]);
                }
                hit = false;
                j = m;
            } else {
                j += 1;
            }
        }
        if hit {
            proof {
                assert(hay@.subrange(i as int, i as int + needle@.len()) =~= needle@);
            }
            return true;
        }
        i += 1;
    }
    proof {
        assert forall|ii: int|
            0 <= ii <= hay@.len() - needle@.len() implies #[trigger] hay@.subrange(
            ii,
            ii + needle@.len(),
        ) != needle@ by {
            assert(ii < i);
        }
    }
    false
}

/// The documented fallback: the typographic value when the font has one,
/// the generic value otherwise.
pub open spec fn fallback(specific: Option<i16>, generic: i16) -> i16 {
    match specific {
        Some(v) => v,
        None => generic,
    }
}

/// The stem width in thousandths of a PDF unit: 10 + 0.244 * (weight - 50)
/// PDF units, kept exact as an integer.
pub open spec fn stem_v_milli_spec(weight_class: u16) -> int {
    10000 + 244 * (weight_class as int - 50)
}

/// The descriptor that `derive_metrics` produces for these raw metrics and
/// this PostScript name.
pub open spec fn descriptor_spec(raw: RawFontMetrics, name: Seq<char>) -> FontDescriptorMetrics {
    FontDescriptorMetrics {
        flags: FontFlagSet {
            serif: spec_contains(name, "Serif"@),
            fixed_pitch: raw.is_monospaced,
            italic: raw.is_italic,
            symbolic: true,
            small_cap: true,
        },
        ascent: fallback(raw.typographic_ascender, raw.ascender),
        descent: fallback(raw.typographic_descender, raw.descender),
        cap_height: fallback(raw.capital_height, raw.ascender),
        x_min: raw.x_min,
        y_min: raw.y_min,
        x_max: raw.x_max,
        y_max: raw.y_max,
        stem_v_milli: stem_v_milli_spec(raw.weight_class) as i32,
    }
}

/// Derives the descriptor data of a font: the flag set (serif iff the
/// PostScript name contains "Serif" — a documented heuristic; symbolic and
/// small-cap always set for this pipeline's use), the vertical metrics with
/// their fallbacks resolved, the bounding box, and the stem width derived
/// from the weight class.
pub fn derive_metrics(raw: &RawFontMetrics, postscript_name: &str) -> (r: FontDescriptorMetrics)
    ensures
        r.flags.serif == spec_contains(postscript_name@, "Serif"@),
        r.flags.fixed_pitch == raw.is_monospaced,
        r.flags.italic == raw.is_italic,
        r.flags.symbolic,
        r.flags.small_cap,
        r.ascent == fallback(raw.typographic_ascender, raw.ascender),
        r.descent == fallback(raw.typographic_descender, raw.descender),
        r.cap_height == fallback(raw.capital_height, raw.ascender),
        r.x_min == raw.x_min && r.y_min == raw.y_min && r.x_max == raw.x_max && r.y_max
            == raw.y_max,
        r.stem_v_milli as int == stem_v_milli_spec(raw.weight_class),
        r == descriptor_spec(*raw, postscript_name@),
{
    let serif = contains_substr(postscript_name, "Serif");
    let ascent = match raw.typographic_ascender {
        Some(v) => v,
        None => raw.ascender,
    };
    let descent = match raw.typographic_descender {
        Some(v) => v,
        None => raw.descender,
    };
    let cap_height = match raw.capital_height {
        Some(v) => v,
        None => raw.ascender,
    };
    let stem_v_milli: i32 = 10000 + 244 * (raw.weight_class as i32 - 50);
    FontDescriptorMetrics {
        flags: FontFlagSet {
            serif,
            fixed_pitch: raw.is_monospaced,
            italic: raw.is_italic,
            symbolic: true,
            small_cap: true,
        },
        ascent,
        descent,
        cap_height,
        x_min: raw.x_min,
        y_min: raw.y_min,
        x_max: raw.x_max,
        y_max: raw.y_max,
        stem_v_milli,
    }
}

} // verus!
