//! Laws of the matcher, stated over the model and proved once for all
//! patterns, chunks and haystacks.

use crate::model::PatternElement;
use crate::model::all_matches;
use crate::model::captures;
use crate::model::chunk_result;
use crate::model::drop_indices;
use crate::model::elem_matches;
use crate::model::lemma_captures_entries;
use crate::model::matches_up_to;
use crate::model::window_captures;
use crate::model::window_count;
use vstd::prelude::*;

verus! {

/// Determinism: the matcher is a pure function of pattern and haystack, so
/// any two results of the same scan are the same sequence.
pub proof fn lemma_matcher_deterministic(
    elems: Seq<PatternElement>,
    hay: Seq<u8>,
    r1: Seq<(u8, usize)>,
    r2: Seq<(u8, usize)>,
)
    requires
        r1 == all_matches(elems, hay),
        r2 == all_matches(elems, hay),
    ensures
        r1 == r2,
{
}

/// Projection consistency: the plain scan is the indexed scan with the
/// index component dropped, order preserved.
pub proof fn lemma_projection_consistency(
    elems: Seq<PatternElement>,
    hay: Seq<u8>,
    with_index: Seq<(u8, usize)>,
    plain: Seq<u8>,
)
    requires
        with_index == all_matches(elems, hay),
        plain == drop_indices(all_matches(elems, hay)),
    ensures
        plain == drop_indices(with_index),
{
}

/// Short-circuit: one mismatching literal anywhere in the window empties the
/// whole chunk result, however many placeholders stand before or after it.
pub proof fn lemma_short_circuit(elems: Seq<PatternElement>, chunk: Seq<u8>, i: int)
    requires
        elems.len() == chunk.len(),
        0 <= i < elems.len(),
        elems[i] matches PatternElement::Literal(b) && chunk[i] != b,
    ensures
        chunk_result(elems, chunk) == Seq::<(u8, usize)>::empty(),
{
    assert(!elem_matches(elems[i], chunk[i]));
}

proof fn lemma_captures_no_placeholder(elems: Seq<PatternElement>, chunk: Seq<u8>)
    requires
        forall|i: int| 0 <= i < elems.len() ==> !((#[trigger] elems[i]) is Placeholder),
    ensures
        captures(elems, chunk) == Seq::<(u8, usize)>::empty(),
    decreases elems.len(),
{
    if elems.len() > 0 {
        assert forall|k: int| 0 <= k < elems.len() - 1 implies !((#[trigger] elems.drop_last()[k])
            is Placeholder) by {
            assert(elems.drop_last()[k] == elems[k]);
        }
        lemma_captures_no_placeholder(elems.drop_last(), chunk);
        assert(!(elems[elems.len() - 1] is Placeholder));
    }
}

/// A pattern without placeholders captures nothing from a single chunk, even
/// where every literal matches.
pub proof fn lemma_no_placeholders_chunk(elems: Seq<PatternElement>, chunk: Seq<u8>)
    requires
        forall|i: int| 0 <= i < elems.len() ==> !((#[trigger] elems[i]) is Placeholder),
    ensures
        chunk_result(elems, chunk) == Seq::<(u8, usize)>::empty(),
{
    lemma_captures_no_placeholder(elems, chunk);
}

proof fn lemma_matches_up_to_no_placeholder(elems: Seq<PatternElement>, hay: Seq<u8>, nw: int)
    requires
        forall|i: int| 0 <= i < elems.len() ==> !((#[trigger] elems[i]) is Placeholder),
    ensures
        matches_up_to(elems, hay, nw) == Seq::<(u8, usize)>::empty(),
    decreases nw,
{
    if nw > 0 {
        lemma_matches_up_to_no_placeholder(elems, hay, nw - 1);
        lemma_captures_no_placeholder(elems, hay.subrange(nw - 1, nw - 1 + elems.len()));
        assert(window_captures(elems, hay, nw - 1) =~= Seq::<(u8, usize)>::empty());
        assert(matches_up_to(elems, hay, nw) =~= Seq::<(u8, usize)>::empty());
    }
}

/// A pattern without placeholders yields an empty result from every scan of
/// every haystack, independent of whether it matched anywhere: match success
/// and a nonempty result are not the same signal.
pub proof fn lemma_no_placeholders_scan(elems: Seq<PatternElement>, hay: Seq<u8>)
    requires
        forall|i: int| 0 <= i < elems.len() ==> !((#[trigger] elems[i]) is Placeholder),
    ensures
        all_matches(elems, hay) == Seq::<(u8, usize)>::empty(),
        drop_indices(all_matches(elems, hay)) == Seq::<u8>::empty(),
    decreases hay.len(),
{
    lemma_matches_up_to_no_placeholder(elems, hay, window_count(elems, hay));
    assert(drop_indices(Seq::<(u8, usize)>::empty()) =~= Seq::<u8>::empty());
}

/// Whether `e` is the capture of the placeholder at offset `i` of a window
/// of the haystack starting at offset `w`.
pub open spec fn capture_at(
    elems: Seq<PatternElement>,
    hay: Seq<u8>,
    w: int,
    i: int,
    e: (u8, usize),
) -> bool {
    &&& 0 <= w
    &&& w + elems.len() <= hay.len()
    &&& 0 <= i < elems.len()
    &&& elems[i] is Placeholder
    &&& e.1 == w + i
    &&& e.0 == hay[w + i]
}

/// Whether `e` is the capture of some placeholder of some window that fits
/// inside the haystack.
pub open spec fn captured_from_window(elems: Seq<PatternElement>, hay: Seq<u8>, e: (u8, usize)) -> bool {
    exists|w: int, i: int| capture_at(elems, hay, w, i, e)
}

proof fn lemma_matches_up_to_entries(elems: Seq<PatternElement>, hay: Seq<u8>, nw: int)
    requires
        elems.len() <= usize::MAX,
        hay.len() <= usize::MAX,
        nw <= 0 || nw + elems.len() <= hay.len() + 1,
    ensures
        forall|k: int|
            0 <= k < matches_up_to(elems, hay, nw).len() ==> captured_from_window(
                elems,
                hay,
                #[trigger] matches_up_to(elems, hay, nw)[k],
            ),
    decreases nw,
{
    if nw > 0 {
        lemma_matches_up_to_entries(elems, hay, nw - 1);
        let w = nw - 1;
        let chunk = hay.subrange(w, w + elems.len());
        lemma_captures_entries(elems, chunk);
        let cur = matches_up_to(elems, hay, nw);
        let prev = matches_up_to(elems, hay, w);
        let wcs = window_captures(elems, hay, w);
        assert forall|k: int| 0 <= k < cur.len() implies captured_from_window(
            elems,
            hay,
            cur[k],
        ) by {
            if k < prev.len() {
                assert(cur[k] == prev[k]);
            } else {
                let c = chunk_result(elems, chunk)[k - prev.len()];
                assert(cur[k] == wcs[k - prev.len()]);
                assert(wcs[k - prev.len()] == (c.0, (c.1 + w) as usize));
                assert(c.1 < elems.len() && elems[c.1 as int] is Placeholder && c.0 == chunk[c.1 as int]);
                assert(chunk[c.1 as int] == hay[w + c.1]);
                assert(capture_at(elems, hay, w, c.1 as int, cur[k]));
            }
        }
    }
}

/// Index correctness: every reported pair `(byte, index)` points back into
/// the haystack — `hay[index] == byte` — and its index is a window offset
/// shifted by the offset of a placeholder inside the pattern.
pub proof fn lemma_index_correctness(elems: Seq<PatternElement>, hay: Seq<u8>)
    requires
        elems.len() <= usize::MAX,
        hay.len() <= usize::MAX,
    ensures
        forall|k: int|
            0 <= k < all_matches(elems, hay).len() ==> captured_from_window(
                elems,
                hay,
                #[trigger] all_matches(elems, hay)[k],
            ),
        forall|k: int|
            0 <= k < all_matches(elems, hay).len() ==> (#[trigger] all_matches(elems, hay)[k]).1
                < hay.len() && hay[all_matches(elems, hay)[k].1 as int] == all_matches(
                elems,
                hay,
            )[k].0,
{
    lemma_matches_up_to_entries(elems, hay, window_count(elems, hay));
    assert forall|k: int| 0 <= k < all_matches(elems, hay).len() implies captured_from_window(
        elems,
        hay,
        #[trigger] all_matches(elems, hay)[k],
    ) by {
        assert(all_matches(elems, hay)[k] == matches_up_to(
            elems,
            hay,
            window_count(elems, hay),
        )[k]);
    }
    assert forall|k: int| 0 <= k < all_matches(elems, hay).len() implies (#[trigger] all_matches(
        elems,
        hay,
    )[k]).1 < hay.len() && hay[all_matches(elems, hay)[k].1 as int] == all_matches(elems, hay)[k].0 by {
        let e = all_matches(elems, hay)[k];
        assert(captured_from_window(elems, hay, e));
        let (w, i) = choose|w: int, i: int| capture_at(elems, hay, w, i, e);
        assert(e.1 == w + i && e.0 == hay[w + i]);
    }
}

} // verus!
