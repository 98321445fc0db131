use vstd::prelude::*;
use vstd::slice::slice_subrange;
use vstd::string::StringSliceAdditionalSpecFns;

use crate::pattern::{find, leftmost_match, positions, Pattern};
use crate::text::{decode_lossy, lossy_utf8};

verus! {

/// Whether the filter is currently inside a region that it discards.
#[derive(Clone, Copy, Debug, PartialEq, Eq, Structural)]
pub enum FilterState {
    /// Not discarding: bytes pass through.
    Outside,
    /// A start match was seen and its end match was not yet.
    InsideRegion,
}

/// The text in which the end pattern is searched: what follows the start match
/// when there is one, else the whole chunk.
pub open spec fn end_haystack(text: Seq<u8>, start_match: Option<(int, int)>) -> Seq<u8> {
    match start_match {
        Some((_, e)) => text.subrange(e, text.len() as int),
        None => text,
    }
}

/// Next state and forwarded bytes for one decoded chunk `text`, given the
/// start match in `text` and the end match in `end_haystack(text, start_match)`.
///
/// A start match seen while outside forwards everything up to its end; an end
/// match forwards itself and all that follows it, and closes the region. With
/// no start match, an outside chunk passes whole and an inside chunk forwards
/// only from its end match on.
pub open spec fn outcome(
    state: FilterState,
    text: Seq<u8>,
    start_match: Option<(int, int)>,
    end_match: Option<(int, int)>,
) -> (FilterState, Seq<u8>) {
    match start_match {
        Some((_, e)) => {
            let kept = if state == FilterState::Outside {
                text.subrange(0, e)
            } else {
                Seq::empty()
            };
            match end_match {
                Some((s2, _)) => (FilterState::Outside, kept + text.subrange(e + s2, text.len() as int)),
                None => (FilterState::InsideRegion, kept),
            }
        },
        None => match state {
            FilterState::Outside => (FilterState::Outside, text),
            FilterState::InsideRegion => match end_match {
                Some((s2, _)) => (FilterState::Outside, text.subrange(s2, text.len() as int)),
                None => (FilterState::InsideRegion, Seq::empty()),
            },
        },
    }
}

/// One step of the filter on a raw chunk: decode it, search the start pattern
/// `sp` in it and the end pattern `ep` where the step looks for it.
pub open spec fn step(state: FilterState, sp: Seq<char>, ep: Seq<char>, chunk: Seq<u8>) -> (
    FilterState,
    Seq<u8>,
) {
    let text = lossy_utf8(chunk);
    let start_match = leftmost_match(sp, text);
    outcome(state, text, start_match, leftmost_match(ep, end_haystack(text, start_match)))
}

/// The filter run over a sequence of chunks from `state`: the final state and
/// all forwarded bytes in order.
pub open spec fn run(state: FilterState, sp: Seq<char>, ep: Seq<char>, chunks: Seq<Seq<u8>>) -> (
    FilterState,
    Seq<u8>,
)
    decreases chunks.len(),
{
    if chunks.len() == 0 {
        (state, Seq::empty())
    } else {
        let first = step(state, sp, ep, chunks[0]);
        let rest = run(first.0, sp, ep, chunks.drop_first());
        (rest.0, first.1 + rest.1)
    }
}

/// `input` cut into consecutive chunks of `size` bytes; the last may be shorter.
pub open spec fn chunks_of(input: Seq<u8>, size: nat) -> Seq<Seq<u8>>
    recommends
        size > 0,
    decreases input.len(),
{
    if input.len() == 0 || size == 0 {
        Seq::empty()
    } else if input.len() <= size {
        seq![input]
    } else {
        seq![input.take(size as int)] + chunks_of(input.skip(size as int), size)
    }
}

/// Appends `src[from..to]` to `out`.
fn push_range(out: &mut Vec<u8>, src: &[u8], from: usize, to: usize)
    requires
        from <= to <= src@.len(),
    ensures
        final(out)@ == old(out)@ + src@.subrange(from as int, to as int),
{
    let mut i: usize = from;
    while i < to
        invariant
            from <= i <= to <= src@.len(),
            out@ == old(out)@ + src@.subrange(from as int, i as int),
        decreases to - i,
    {
        out.push(src[i]);
        i = i + 1;
        assert(out@ =~= old(out)@ + src@.subrange(from as int, i as int));
    }
}

/// Decides one chunk from the matches found in it: `start_match` in `text`,
/// and `end_match` in `end_haystack(text, start_match)` (which the decision
/// ignores where it needs no end search).
pub fn apply_matches(
    state: FilterState,
    text: &[u8],
    start_match: Option<(usize, usize)>,
    end_match: Option<(usize, usize)>,
) -> (r: (FilterState, Vec<u8>))
    requires
        start_match matches Some((s, e)) ==> s <= e <= text@.len(),
        end_match matches Some((s, e)) ==> s <= e <= end_haystack(
            text@,
            positions(start_match),
        ).len(),
    ensures
        r.0 == outcome(state, text@, positions(start_match), positions(end_match)).0,
        r.1@ == outcome(state, text@, positions(start_match), positions(end_match)).1,
{
    let mut out: Vec<u8> = Vec::new();
    let n: usize = text.len();
    match start_match {
        Some((_, e)) => {
            if state == FilterState::Outside {
                push_range(&mut out, text, 0, e);
            }
            match end_match {
                Some((s2, _)) => {
                    assert(end_haystack(text@, positions(start_match)).len() == n - e);
                    push_range(&mut out, text, e + s2, n);
                    (FilterState::Outside, out)
                },
                None => (FilterState::InsideRegion, out),
            }
        },
        None => match state {
            FilterState::Outside => {
                push_range(&mut out, text, 0, text.len());
                assert(text@.subrange(0, text@.len() as int) =~= text@);
                (FilterState::Outside, out)
            },
            FilterState::InsideRegion => match end_match {
                Some((s2, _)) => {
                    push_range(&mut out, text, s2, text.len());
                    (FilterState::Outside, out)
                },
                None => (FilterState::InsideRegion, out),
            },
        },
    }
}

/// Processes one raw chunk: decodes it lossily, finds the start pattern in it
/// and the end pattern where needed, and returns the next state with the bytes
/// to forward.
pub fn filter_step(state: FilterState, start: &Pattern, end: &Pattern, chunk: &[u8]) -> (r: (
    FilterState,
    Vec<u8>,
))
    ensures
        r.0 == step(state, start.source(), end.source(), chunk@).0,
        r.1@ == step(state, start.source(), end.source(), chunk@).1,
{
    let decoded = decode_lossy(chunk);
    let text: &str = decoded.as_str();
    let bytes: &[u8] = text.as_bytes();
    let start_match = find(start, text);
    let end_match = match start_match {
        Some((_, e)) => {
            let (_, rest) = text.split_at(e);
            find(end, rest)
        },
        None => {
            if state == FilterState::InsideRegion {
                find(end, text)
            } else {
                None
            }
        },
    };
    apply_matches(state, bytes, start_match, end_match)
}

/// Runs the filter over all of `input`, read in chunks of `size` bytes, and
/// returns what it forwards. A region still open at the end is dropped.
pub fn filter_bytes(start: &Pattern, end: &Pattern, input: &[u8], size: usize) -> (r: Vec<u8>)
    requires
        size > 0,
    ensures
        r@ == run(FilterState::Outside, start.source(), end.source(), chunks_of(input@, size as nat)).1,
{
    let ghost sp = start.source();
    let ghost ep = end.source();
    let n: usize = input.len();
    let mut state = FilterState::Outside;
    let mut out: Vec<u8> = Vec::new();
    let mut pos: usize = 0;
    assert(input@.skip(0) =~= input@);
    while pos < n
        invariant
            pos <= n == input@.len(),
            size > 0,
            sp == start.source(),
            ep == end.source(),
            run(FilterState::Outside, sp, ep, chunks_of(input@, size as nat)) == (
            run(state, sp, ep, chunks_of(input@.skip(pos as int), size as nat)).0,
            out@ + run(state, sp, ep, chunks_of(input@.skip(pos as int), size as nat)).1),
        decreases n - pos,
    {
        let stop: usize = if n - pos <= size {
            n
        } else {
            pos + size
        };
        let chunk = slice_subrange(input, pos, stop);
        let (next, mut forwarded) = filter_step(state, start, end, chunk);
        proof {
            let rest = input@.skip(pos as int);
            let tail = input@.skip(stop as int);
            let chunks = chunks_of(rest, size as nat);
            assert(chunk@ =~= rest.take((stop - pos) as int));
            assert(rest.skip((stop - pos) as int) =~= tail);
            if n - pos <= size {
                assert(chunk@ =~= rest);
                assert(tail =~= Seq::<u8>::empty());
                assert(chunks =~= seq![rest]);
            } else {
                assert(chunks =~= seq![chunk@] + chunks_of(tail, size as nat));
            }
            assert(chunks[0] == chunk@);
            assert(chunks.drop_first() =~= chunks_of(tail, size as nat));
            let later = run(next, sp, ep, chunks_of(tail, size as nat));
            assert(out@ + (forwarded@ + later.1) =~= (out@ + forwarded@) + later.1);
        }
        out.append(&mut forwarded);
        state = next;
        pos = stop;
    }
    assert(input@.skip(n as int) =~= Seq::<u8>::empty());
    assert(out@ + Seq::<u8>::empty() =~= out@);
    out
}

/// The filter as a value: the two patterns and the current state.
pub struct RegionFilter {
    pub start: Pattern,
    pub end: Pattern,
    pub state: FilterState,
}

impl RegionFilter {
    /// A filter that starts outside any region.
    pub fn new(start: Pattern, end: Pattern) -> (r: RegionFilter)
        ensures
            r.start == start,
            r.end == end,
            r.state == FilterState::Outside,
    {
        RegionFilter { start, end, state: FilterState::Outside }
    }

    /// Processes the next chunk of the stream and returns the bytes to forward.
    pub fn feed(&mut self, chunk: &[u8]) -> (r: Vec<u8>)
        ensures
            final(self).start == old(self).start,
            final(self).end == old(self).end,
            final(self).state == step(
                old(self).state,
                old(self).start.source(),
                old(self).end.source(),
                chunk@,
            ).0,
            r@ == step(old(self).state, old(self).start.source(), old(self).end.source(), chunk@).1,
    {
        let (next, forwarded) = filter_step(self.state, &self.start, &self.end, chunk);
        self.state = next;
        forwarded
    }

    /// Whether a region is open, waiting for its end match.
    pub fn is_inside(&self) -> (r: bool)
        ensures
            r == (self.state == FilterState::InsideRegion),
    {
        self.state == FilterState::InsideRegion
    }
}

} // verus!
