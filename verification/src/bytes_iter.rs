//! Byte-wise lookahead over a peekable stream.

use vstd::prelude::*;
use crate::{ErrorKind, avail_from};
use crate::detail::PeekReadImpl;
use crate::detail::cursor::PeekCursorState;

verus! {

/// Walks the bytes ahead of a stream's read cursor one at a time, without
/// consuming any of them.
///
/// Each [`PeekBytes::next`] hands out the byte at the peek cursor and moves
/// the cursor past it; the stream itself is left untouched. Give the stream
/// back with [`PeekBytes::into_inner`], which also ends the peek session.
pub struct PeekBytes<T> {
    inner: T,
    state: PeekCursorState,
}

impl<T: PeekReadImpl> PeekBytes<T> {
    /// The bytes the walk covers: what lay ahead of the read cursor when it
    /// began.
    pub closed spec fn stream(&self) -> Seq<u8> {
        self.inner.remaining()
    }

    /// How many bytes have been handed out.
    pub closed spec fn off(&self) -> int {
        self.inner.peek_off(&self.state)
    }

    /// The walk's invariant.
    pub closed spec fn wf(&self) -> bool {
        &&& self.inner.wf()
        &&& 0 <= self.off() <= self.stream().len() <= usize::MAX
    }

    /// True when the wrapped source can never fail.
    pub closed spec fn infallible(&self) -> bool {
        self.inner.infallible()
    }

    /// Starts a byte walk at `inner`'s read cursor.
    pub fn new(inner: T) -> (r: PeekBytes<T>)
        requires
            inner.wf(),
            inner.idle(),
            inner.remaining().len() <= usize::MAX,
        ensures
            r.wf(),
            r.stream() == inner.remaining(),
            r.off() == 0,
            r.infallible() == inner.infallible(),
    {
        let state = PeekCursorState::new();
        proof {
            inner.lemma_idle_off(&state);
        }
        PeekBytes { inner, state }
    }

    /// Hands out the next byte of lookahead: nothing once the stream's end
    /// is reached, and the source's failure where it has one to report.
    pub fn next(&mut self) -> (r: Option<Result<u8, ErrorKind>>)
        requires
            old(self).wf(),
        ensures
            final(self).wf(),
            final(self).stream() == old(self).stream(),
            final(self).infallible() == old(self).infallible(),
            match r {
                None => old(self).off() == old(self).stream().len() && final(self).off() == old(
                    self,
                ).off(),
                Some(Ok(b)) => {
                    &&& old(self).off() < old(self).stream().len()
                    &&& b == old(self).stream()[old(self).off()]
                    &&& final(self).off() == old(self).off() + 1
                },
                Some(Err(e)) => final(self).off() == old(self).off() && !(e is UnexpectedEof),
            },
            old(self).infallible() ==> !(r matches Some(v) && v is Err),
    {
        proof {
            self.inner.lemma_off_bounds(&self.state);
        }
        let p = match self.inner.peek_stream_position(&mut self.state) {
            Ok(p) => p,
            Err(e) => { return Some(Err(e)); },
        };
        if p >= usize::MAX as u64 {
            return None;
        }
        match self.inner.peek_read(&mut self.state, 1) {
            Ok(v) => {
                if v.len() == 0 {
                    proof {
                        assert(avail_from(self.stream(), self.off()) == 0);
                    }
                    None
                } else {
                    Some(Ok(v[0]))
                }
            },
            Err(e) => Some(Err(e)),
        }
    }

    /// Ends the walk and returns the stream, its read cursor where it was.
    pub fn into_inner(self) -> (r: T)
        requires
            self.wf(),
        ensures
            r.wf(),
            r.idle(),
            r.infallible() == self.infallible(),
            self.infallible() ==> r.remaining() == self.stream(),
    {
        let PeekBytes { mut inner, mut state } = self;
        inner.peek_drop(&mut state);
        inner
    }
}

} // verus!
