//! The mathematical model of matching: what it means for a compiled pattern
//! to match a window of bytes, and which placeholder captures a match yields.

use vstd::prelude::*;

verus! {

/// One position of a compiled pattern: either an exact byte that the window
/// must carry at this offset, or a placeholder that accepts any byte and
/// reports the byte it covered.
#[derive(Copy, Clone, Eq, PartialEq, Ord, PartialOrd, Hash, Debug)]
pub enum PatternElement {
    Literal(u8),
    Placeholder,
}

/// Whether a single element accepts the byte `b`.
pub open spec fn elem_matches(e: PatternElement, b: u8) -> bool {
    match e {
        PatternElement::Literal(x) => b == x,
        PatternElement::Placeholder => true,
    }
}

/// Whether a whole chunk satisfies every element of the pattern, position by
/// position. Only the first `elems.len()` bytes of `chunk` are consulted.
pub open spec fn chunk_matches(elems: Seq<PatternElement>, chunk: Seq<u8>) -> bool {
    forall|i: int| 0 <= i < elems.len() ==> elem_matches(elems[i], chunk[i])
}

/// The placeholder captures of a matching chunk: for every placeholder at
/// offset `i`, the pair `(chunk[i], i)`, in ascending order of `i`.
pub open spec fn captures(elems: Seq<PatternElement>, chunk: Seq<u8>) -> Seq<(u8, usize)>
    decreases elems.len(),
{
    if elems.len() == 0 {
        Seq::empty()
    } else {
        let rest = captures(elems.drop_last(), chunk);
        if elems.last() is Placeholder {
            rest.push((chunk[elems.len() - 1], (elems.len() - 1) as usize))
        } else {
            rest
        }
    }
}

/// What comparing one chunk returns: the captures when every literal agrees,
/// and nothing at all otherwise (a failed chunk never yields a partial result).
pub open spec fn chunk_result(elems: Seq<PatternElement>, chunk: Seq<u8>) -> Seq<(u8, usize)> {
    if chunk_matches(elems, chunk) {
        captures(elems, chunk)
    } else {
        Seq::empty()
    }
}

/// The contribution of the window starting at offset `w` of the haystack,
/// with capture positions shifted to absolute haystack indices.
pub open spec fn window_captures(elems: Seq<PatternElement>, hay: Seq<u8>, w: int) -> Seq<
    (u8, usize),
> {
    chunk_result(elems, hay.subrange(w, w + elems.len())).map_values(
        |p: (u8, usize)| (p.0, (p.1 + w) as usize),
    )
}

/// The concatenated captures of the windows starting at offsets `0 .. n`,
/// in ascending window order.
pub open spec fn matches_up_to(elems: Seq<PatternElement>, hay: Seq<u8>, n: int) -> Seq<
    (u8, usize),
>
    decreases n,
{
    if n <= 0 {
        Seq::empty()
    } else {
        matches_up_to(elems, hay, n - 1) + window_captures(elems, hay, n - 1)
    }
}

/// How many windows a scan visits: one per offset at which the whole pattern
/// still fits inside the haystack, and none when the haystack is shorter.
pub open spec fn window_count(elems: Seq<PatternElement>, hay: Seq<u8>) -> int {
    if hay.len() >= elems.len() {
        hay.len() - elems.len() + 1
    } else {
        0
    }
}

/// Every capture of a full left-to-right scan of the haystack.
pub open spec fn all_matches(elems: Seq<PatternElement>, hay: Seq<u8>) -> Seq<(u8, usize)> {
    matches_up_to(elems, hay, window_count(elems, hay))
}

/// Every capture of a chunk names a placeholder offset inside the pattern
/// and carries the byte of the chunk at that offset.
pub proof fn lemma_captures_entries(elems: Seq<PatternElement>, chunk: Seq<u8>)
    requires
        elems.len() <= usize::MAX,
    ensures
        forall|k: int| 0 <= k < captures(elems, chunk).len() ==> {
            &&& (#[trigger] captures(elems, chunk)[k]).1 < elems.len()
            &&& elems[captures(elems, chunk)[k].1 as int] is Placeholder
            &&& captures(elems, chunk)[k].0 == chunk[captures(elems, chunk)[k].1 as int]
        },
    decreases elems.len(),
{
    if elems.len() > 0 {
        let prefix = elems.drop_last();
        lemma_captures_entries(prefix, chunk);
        let c = captures(elems, chunk);
        let rest = captures(prefix, chunk);
        assert forall|k: int| 0 <= k < c.len() implies {
            &&& c[k].1 < elems.len()
            &&& elems[c[k].1 as int] is Placeholder
            &&& c[k].0 == chunk[c[k].1 as int]
        } by {
            if k < rest.len() {
                assert(c[k] == rest[k]);
                assert(prefix[rest[k].1 as int] == elems[rest[k].1 as int]);
            } else {
                assert(c[k] == (chunk[elems.len() - 1], (elems.len() - 1) as usize));
            }
        }
    }
}

/// A pattern of no elements matches every window and captures nothing, so a
/// scan with it yields the empty sequence however many windows it visits.
pub proof fn lemma_matches_up_to_empty(elems: Seq<PatternElement>, hay: Seq<u8>, n: int)
    requires
        elems.len() == 0,
    ensures
        matches_up_to(elems, hay, n) == Seq::<(u8, usize)>::empty(),
    decreases n,
{
    if n > 0 {
        lemma_matches_up_to_empty(elems, hay, n - 1);
        assert(window_captures(elems, hay, n - 1) =~= Seq::<(u8, usize)>::empty());
        assert(matches_up_to(elems, hay, n) =~= Seq::<(u8, usize)>::empty());
    }
}

/// The same captures with the index component dropped, order preserved.
pub open spec fn drop_indices(ms: Seq<(u8, usize)>) -> Seq<u8> {
    ms.map_values(|p: (u8, usize)| p.0)
}

} // verus!
