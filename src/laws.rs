use vstd::prelude::*;

use crate::pattern::leftmost_match;
use crate::region::{run, step, FilterState};
use crate::text::lossy_utf8;

verus! {

/// A match, where there is one, lies within `text`.
pub open spec fn within(m: Option<(int, int)>, text: Seq<u8>) -> bool {
    m matches Some((s, e)) ==> 0 <= s <= e <= text.len()
}

/// Each chunk decodes to itself: it is valid UTF-8.
pub open spec fn decodes_unchanged(chunks: Seq<Seq<u8>>) -> bool {
    forall|i: int| 0 <= i < chunks.len() ==> #[trigger] lossy_utf8(chunks[i]) == chunks[i]
}

/// The start pattern `sp` matches in none of the chunks.
pub open spec fn no_start_match(sp: Seq<char>, chunks: Seq<Seq<u8>>) -> bool {
    forall|i: int| 0 <= i < chunks.len() ==> #[trigger] leftmost_match(sp, chunks[i]) is None
}

/// A run over a single chunk is one step.
proof fn lemma_run_one(state: FilterState, sp: Seq<char>, ep: Seq<char>, c: Seq<u8>)
    ensures
        run(state, sp, ep, seq![c]) == step(state, sp, ep, c),
{
    let chunks = seq![c];
    assert(chunks.drop_first() =~= Seq::<Seq<u8>>::empty());
    assert(run(step(state, sp, ep, c).0, sp, ep, Seq::<Seq<u8>>::empty()).1 == Seq::<u8>::empty());
    assert(step(state, sp, ep, c).1 + Seq::<u8>::empty() =~= step(state, sp, ep, c).1);
}

/// A run over two chunks is two steps, the second from the state the first
/// leaves.
proof fn lemma_run_two(state: FilterState, sp: Seq<char>, ep: Seq<char>, a: Seq<u8>, b: Seq<u8>)
    ensures
        run(state, sp, ep, seq![a, b]) == (
        step(step(state, sp, ep, a).0, sp, ep, b).0,
        step(state, sp, ep, a).1 + step(step(state, sp, ep, a).0, sp, ep, b).1),
{
    let chunks = seq![a, b];
    assert(chunks.drop_first() =~= seq![b]);
    lemma_run_one(step(state, sp, ep, a).0, sp, ep, b);
}

/// Where the start pattern matches in no chunk, the output is the input
/// exactly, however it was cut into chunks, and the filter ends outside any
/// region.
pub proof fn lemma_passthrough_without_start(sp: Seq<char>, ep: Seq<char>, chunks: Seq<Seq<u8>>)
    requires
        decodes_unchanged(chunks),
        no_start_match(sp, chunks),
    ensures
        run(FilterState::Outside, sp, ep, chunks) == (FilterState::Outside, chunks.flatten()),
    decreases chunks.len(),
{
    if chunks.len() > 0 {
        let rest = chunks.drop_first();
        assert(lossy_utf8(chunks[0]) == chunks[0]);
        assert(leftmost_match(sp, chunks[0]) is None);
        assert forall|i: int| 0 <= i < rest.len() implies #[trigger] lossy_utf8(rest[i])
            == rest[i] && leftmost_match(sp, rest[i]) is None by {
            assert(rest[i] == chunks[i + 1]);
        }
        lemma_passthrough_without_start(sp, ep, rest);
    }
}

/// Filtering the filter's own output again, with patterns whose start pattern
/// matches none of its chunks, gives that output back unchanged.
pub proof fn lemma_passthrough_is_idempotent(
    sp: Seq<char>,
    ep: Seq<char>,
    chunks: Seq<Seq<u8>>,
    sp2: Seq<char>,
    ep2: Seq<char>,
    again: Seq<Seq<u8>>,
)
    requires
        again.flatten() == run(FilterState::Outside, sp, ep, chunks).1,
        decodes_unchanged(again),
        no_start_match(sp2, again),
    ensures
        run(FilterState::Outside, sp2, ep2, again).1 == run(FilterState::Outside, sp, ep, chunks).1,
{
    lemma_passthrough_without_start(sp2, ep2, again);
}

/// A chunk with one start match and an end match after it, read from outside
/// a region: the output is the text before the start match, the start match,
/// the end match and the text after it; only what lies between the two
/// matches is removed, and the region is closed.
pub proof fn lemma_single_region(
    sp: Seq<char>,
    ep: Seq<char>,
    chunk: Seq<u8>,
    s: int,
    e: int,
    s2: int,
    e2: int,
)
    requires
        0 <= s <= e <= chunk.len(),
        0 <= s2 <= e2 <= chunk.len() - e,
        lossy_utf8(chunk) == chunk,
        leftmost_match(sp, chunk) == Some((s, e)),
        leftmost_match(ep, chunk.subrange(e, chunk.len() as int)) == Some((s2, e2)),
    ensures
        run(FilterState::Outside, sp, ep, seq![chunk]) == (
        FilterState::Outside,
        chunk.subrange(0, s) + chunk.subrange(s, e) + chunk.subrange(e + s2, e + e2)
            + chunk.subrange(e + e2, chunk.len() as int)),
{
    let n = chunk.len() as int;
    lemma_run_one(FilterState::Outside, sp, ep, chunk);
    assert(chunk.subrange(0, e) + chunk.subrange(e + s2, n) =~= chunk.subrange(
        0,
        s,
    ) + chunk.subrange(s, e) + chunk.subrange(e + s2, e + e2) + chunk.subrange(e + e2, n));
}

/// Moving a chunk boundary to fall before a region does not change the output,
/// so long as no match spans the boundary: the start pattern matches nowhere in
/// the first piece `a`, and in the second piece `b` it matches where it
/// matched in the whole chunk.
pub proof fn lemma_split_before_region(
    sp: Seq<char>,
    ep: Seq<char>,
    a: Seq<u8>,
    b: Seq<u8>,
    s: int,
    e: int,
)
    requires
        0 <= s <= e <= b.len(),
        lossy_utf8(a) == a,
        lossy_utf8(b) == b,
        lossy_utf8(a + b) == a + b,
        leftmost_match(sp, a) is None,
        leftmost_match(sp, b) == Some((s, e)),
        leftmost_match(sp, a + b) == Some((a.len() + s, a.len() + e)),
        within(leftmost_match(ep, b.subrange(e, b.len() as int)), b.subrange(e, b.len() as int)),
    ensures
        run(FilterState::Outside, sp, ep, seq![a + b]) == run(FilterState::Outside, sp, ep, seq![a, b]),
{
    let c = a + b;
    let k = a.len() as int;
    assert(c.subrange(k + e, c.len() as int) =~= b.subrange(e, b.len() as int));
    lemma_run_one(FilterState::Outside, sp, ep, c);
    lemma_run_two(FilterState::Outside, sp, ep, a, b);
    assert(a.subrange(0, a.len() as int) =~= a);
    let em = leftmost_match(ep, b.subrange(e, b.len() as int));
    match em {
        Some((s2, _)) => {
            assert(c.subrange(0, k + e) + c.subrange(k + e + s2, c.len() as int) =~= a + (
            b.subrange(0, e) + b.subrange(e + s2, b.len() as int)));
        },
        None => {
            assert(c.subrange(0, k + e) =~= a + b.subrange(0, e));
        },
    }
}

/// Moving a chunk boundary to fall after a region does not change the output,
/// so long as the region and its matches lie within the first piece `a`, both
/// searches find there what they found in the whole chunk, and the start
/// pattern matches nowhere in the second piece `b`.
pub proof fn lemma_split_after_region(
    sp: Seq<char>,
    ep: Seq<char>,
    a: Seq<u8>,
    b: Seq<u8>,
    s: int,
    e: int,
    s2: int,
    e2: int,
)
    requires
        0 <= s <= e,
        0 <= s2 <= e2,
        e + e2 <= a.len(),
        lossy_utf8(a) == a,
        lossy_utf8(b) == b,
        lossy_utf8(a + b) == a + b,
        leftmost_match(sp, a) == Some((s, e)),
        leftmost_match(sp, a + b) == Some((s, e)),
        leftmost_match(ep, a.subrange(e, a.len() as int)) == Some((s2, e2)),
        leftmost_match(ep, (a + b).subrange(e, (a + b).len() as int)) == Some((s2, e2)),
        leftmost_match(sp, b) is None,
    ensures
        run(FilterState::Outside, sp, ep, seq![a + b]) == run(FilterState::Outside, sp, ep, seq![a, b]),
{
    let c = a + b;
    lemma_run_one(FilterState::Outside, sp, ep, c);
    lemma_run_two(FilterState::Outside, sp, ep, a, b);
    assert(a.subrange(0, a.len() as int) =~= a);
    assert(b.subrange(0, b.len() as int) =~= b);
    assert(c.subrange(0, e) + c.subrange(e + s2, c.len() as int) =~= (a.subrange(0, e)
        + a.subrange(e + s2, a.len() as int)) + b);
}

} // verus!
