use vstd::prelude::*;

verus! {

/// An in-memory sink: forwarded bytes are kept in order until the stream has
/// been read to its end, and are then emitted at once.
pub struct Output {
    pub buffer: Vec<u8>,
}

impl Output {
    /// An empty sink.
    pub fn new() -> (r: Output)
        ensures
            r.buffer@ == Seq::<u8>::empty(),
    {
        Output { buffer: Vec::new() }
    }

    /// Appends `data` after everything written so far.
    pub fn write(&mut self, data: &[u8])
        ensures
            final(self).buffer@ == old(self).buffer@ + data@,
    {
        let mut i: usize = 0;
        while i < data.len()
            invariant
                i <= data@.len(),
                self.buffer@ == old(self).buffer@ + data@.subrange(0, i as int),
            decreases data@.len() - i,
        {
            self.buffer.push(data[i]);
            i = i + 1;
            assert(self.buffer@ =~= old(self).buffer@ + data@.subrange(0, i as int));
        }
        assert(data@.subrange(0, data@.len() as int) =~= data@);
    }
}

} // verus!
