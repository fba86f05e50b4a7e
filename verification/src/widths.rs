//! Run-length encoding of a dense glyph-width table.
//!
//! A width table is a dense array of advance widths in raw font units,
//! indexed by glyph id. The encoder compresses it into maximal runs of
//! consecutive glyph ids sharing one width and emits only the runs whose
//! width is non-zero; decoding the runs and filling every gap with zero
//! reproduces the table exactly.

use vstd::prelude::*;

verus! {

/// A maximal contiguous range of glyph ids `start..=end` that share one
/// non-zero advance width, in raw font units.
#[derive(Clone, Copy, Debug, PartialEq, Eq, Structural)]
pub struct WidthRun {
    pub start: u16,
    pub end: u16,
    pub width: u16,
}

/// The first index after `i` where the width changes, or the end of the
/// table: the run that begins at `i` covers exactly `i..run_end(w, i)`.
pub open spec fn run_end(w: Seq<u16>, i: int) -> int
    decreases w.len() - i when i < w.len()
{
    if i < 0 {
        0
    } else if i + 1 >= w.len() {
        w.len() as int
    } else if w[i + 1] == w[i] {
        run_end(w, i + 1)
    } else {
        i + 1
    }
}

pub proof fn lemma_run_end_props(w: Seq<u16>, i: int)
    requires
        0 <= i < w.len(),
    ensures
        i < run_end(w, i) <= w.len(),
        forall|k: int| i <= k < run_end(w, i) ==> w[k] == w[i],
        run_end(w, i) == w.len() || w[run_end(w, i)] != w[i],
    decreases w.len() - i,
{
    if i + 1 < w.len() && w[i + 1] == w[i] {
        lemma_run_end_props(w, i + 1);
    }
}

/// A run end is pinned down by its characteristic properties.
pub proof fn lemma_run_end_unique(w: Seq<u16>, i: int, e: int)
    requires
        0 <= i < e <= w.len(),
        forall|k: int| i <= k < e ==> w[k] == w[i],
        e == w.len() || w[e] != w[i],
    ensures
        run_end(w, i) == e,
    decreases w.len() - i,
{
    if i + 1 < w.len() && w[i + 1] == w[i] {
        if e == i + 1 {
            assert(w[e] == w[i]);
        }
        lemma_run_end_unique(w, i + 1, e);
    }
}

/// The runs of `w` from index `i` on: one maximal run per step, kept only
/// when its width is non-zero.
pub open spec fn encode_from(w: Seq<u16>, i: int) -> Seq<WidthRun>
    decreases w.len() - i,
    via encode_from_decreases
{
    if i < 0 || i >= w.len() {
        Seq::empty()
    } else {
        let e = run_end(w, i);
        let rest = encode_from(w, e);
        if w[i] == 0u16 {
            rest
        } else {
            seq![WidthRun { start: i as u16, end: (e - 1) as u16, width: w[i] }] + rest
        }
    }
}

#[via_fn]
proof fn encode_from_decreases(w: Seq<u16>, i: int) {
    if 0 <= i < w.len() {
        lemma_run_end_props(w, i);
    }
}

/// The width encoded at position `g`: the width of the run that covers `g`,
/// or zero when no run does.
pub open spec fn decode_at(runs: Seq<WidthRun>, g: int) -> u16
    decreases runs.len(),
{
    if runs.len() == 0 {
        0u16
    } else if runs[0].start <= g <= runs[0].end {
        runs[0].width
    } else {
        decode_at(runs.drop_first(), g)
    }
}

/// The dense width table of length `n` that a run sequence denotes.
pub open spec fn decode(runs: Seq<WidthRun>, n: nat) -> Seq<u16> {
    Seq::new(n, |g: int| decode_at(runs, g))
}

/// Every run emitted from index `i` on lies inside `i..w.len()`, carries a
/// non-zero width, and the runs are in strictly ascending, disjoint order.
pub proof fn lemma_encode_wf(w: Seq<u16>, i: int)
    requires
        0 <= i,
        w.len() <= 0x10000,
    ensures
        forall|j: int|
            0 <= j < encode_from(w, i).len() ==> {
                let r = #[trigger] encode_from(w, i)[j];
                i <= r.start as int && r.start <= r.end && (r.end as int) < w.len() && r.width
                    != 0u16
            },
        forall|j1: int, j2: int|
            0 <= j1 < j2 < encode_from(w, i).len() ==> encode_from(w, i)[j1].end < encode_from(
                w,
                i,
            )[j2].start,
    decreases w.len() - i,
{
    if i < w.len() {
        lemma_run_end_props(w, i);
        let e = run_end(w, i);
        lemma_encode_wf(w, e);
        let rest = encode_from(w, e);
        if w[i] != 0u16 {
            let r0 = WidthRun { start: i as u16, end: (e - 1) as u16, width: w[i] };
            assert(encode_from(w, i) == seq![r0] + rest);
            assert(forall|j: int| 0 <= j < rest.len() ==> (seq![r0] + rest)[j + 1] == rest[j]);
        }
    }
}

/// No run covers position `g`, so `g` decodes to zero.
proof fn lemma_decode_uncovered(runs: Seq<WidthRun>, g: int)
    requires
        forall|j: int|
            0 <= j < runs.len() ==> !((#[trigger] runs[j]).start <= g <= runs[j].end),
    ensures
        decode_at(runs, g) == 0u16,
    decreases runs.len(),
{
    if runs.len() > 0 {
        assert(forall|j: int|
            0 <= j < runs.drop_first().len() ==> runs.drop_first()[j] == runs[j + 1]);
        lemma_decode_uncovered(runs.drop_first(), g);
    }
}

/// Decoding the runs emitted from index `i` reproduces `w` at every position
/// at or after `i`.
proof fn lemma_decode_encode_from(w: Seq<u16>, i: int)
    requires
        0 <= i,
        w.len() <= 0x10000,
    ensures
        forall|g: int| i <= g < w.len() ==> decode_at(encode_from(w, i), g) == w[g],
    decreases w.len() - i,
{
    if i < w.len() {
        lemma_run_end_props(w, i);
        let e = run_end(w, i);
        lemma_decode_encode_from(w, e);
        lemma_encode_wf(w, e);
        let rest = encode_from(w, e);
        if w[i] == 0u16 {
            assert(encode_from(w, i) == rest);
            assert forall|g: int| i <= g < e implies decode_at(rest, g) == w[g] by {
                assert(forall|j: int|
                    0 <= j < rest.len() ==> !((#[trigger] rest[j]).start <= g <= rest[j].end));
                lemma_decode_uncovered(rest, g);
                assert(w[g] == w[i]);
            }
        } else {
            let r0 = WidthRun { start: i as u16, end: (e - 1) as u16, width: w[i] };
            let runs = encode_from(w, i);
            assert(runs == seq![r0] + rest);
            assert(runs[0] == r0);
            assert(runs.drop_first() =~= rest);
            assert forall|g: int| i <= g < w.len() implies decode_at(runs, g) == w[g] by {
                if g < e {
                    assert(r0.start as int == i && r0.end as int == e - 1);
                    assert(decode_at(runs, g) == r0.width);
                    assert(w[g] == w[i]);
                } else {
                    assert(!(r0.start <= g <= r0.end));
                    assert(decode_at(runs, g) == decode_at(rest, g));
                }
            }
        }
    }
}

/// Round-trip law: decoding the encoded runs, with every gap filled by zero,
/// reproduces the original width table exactly.
pub proof fn lemma_width_round_trip(w: Seq<u16>)
    requires
        w.len() <= 0x10000,
    ensures
        decode(encode_from(w, 0), w.len()) == w,
{
    lemma_decode_encode_from(w, 0);
    assert(decode(encode_from(w, 0), w.len()) =~= w);
}

/// Compresses a dense width table into its maximal non-zero runs, in one
/// left-to-right scan.
pub fn encode_widths(widths: &Vec<u16>) -> (runs: Vec<WidthRun>)
    requires
        widths@.len() <= 0x10000,
    ensures
        runs@ == encode_from(widths@, 0),
{
    let n = widths.len();
    let mut runs: Vec<WidthRun> = Vec::new();
    let mut i: usize = 0;
    while i < n
        invariant
            n == widths@.len(),
            n <= 0x10000,
            i <= n,
            encode_from(widths@, 0) == runs@ + encode_from(widths@, i as int),
        decreases n - i,
    {
        let wi = widths[i];
        let mut j = i + 1;
        while j < n && widths[j] == wi
            invariant
                n == widths@.len(),
                i < j <= n,
                wi == widths@[i as int],
                forall|k: int| i <= k < j ==> widths@[k] == wi,
            decreases n - j,
        {
            j += 1;
        }
        proof {
            lemma_run_end_unique(widths@, i as int, j as int);
        }
        let ghost e = run_end(widths@, i as int);
        let ghost rest = encode_from(widths@, e);
        if wi != 0 {
            let r = WidthRun { start: i as u16, end: (j - 1) as u16, width: wi };
            proof {
                assert(encode_from(widths@, i as int) == seq![r] + rest);
            }
            runs.push(r);
            proof {
                assert(runs@ + rest =~= runs@.drop_last() + (seq![r] + rest));
            }
        } else {
            proof {
                assert(encode_from(widths@, i as int) == rest);
            }
        }
        i = j;
    }
    proof {
        assert(encode_from(widths@, n as int) =~= Seq::empty());
        assert(runs@ =~= runs@ + Seq::<WidthRun>::empty());
    }
    runs
}

} // verus!
