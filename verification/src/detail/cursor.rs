//! The session state record and the peek-cursor object.

use vstd::prelude::*;
use crate::{ErrorKind, SeekFrom, avail_from, peek_window, suffix_from, utf8_chars, clamped_add};
use crate::detail::PeekReadImpl;

verus! {

/// The internal state of one peek session. See [`crate::PeekReadImpl`].
///
/// A fresh state is created whenever a peek session starts and discarded when
/// it ends; it never outlives the session.
#[derive(Clone, Copy, Debug)]
pub struct PeekCursorState {
    /// Offset of the peek cursor relative to the read cursor, as tracked by
    /// backing implementations that keep their session position here.
    pub peek_pos: u64,
}

impl PeekCursorState {
    /// Creates a zeroed session state: the peek cursor starts at the read
    /// cursor.
    pub fn new() -> (r: PeekCursorState)
        ensures
            r.peek_pos == 0,
    {
        PeekCursorState { peek_pos: 0 }
    }
}

/// A peek session over a borrowed stream wrapper: reads and seeks on it look
/// ahead of the wrapper's read cursor without consuming anything.
///
/// The cursor holds the wrapper exclusively for the session. End the session
/// with [`PeekCursor::finish`], which runs the wrapper's cleanup; for the
/// seeking wrapper that restores the source's native position, so a session
/// that is abandoned without `finish` leaves that restore to the next one.
pub struct PeekCursor<'a, T: PeekReadImpl> {
    /// The wrapper being peeked.
    pub inner: &'a mut T,
    /// The session's state.
    pub state: PeekCursorState,
}

impl<'a, T: PeekReadImpl> PeekCursor<'a, T> {
    /// The bytes the session can look at: what lay ahead of the wrapper's
    /// read cursor when the session began.
    pub open spec fn stream(&self) -> Seq<u8> {
        self.inner.remaining()
    }

    /// The peek cursor's offset within [`Self::stream`].
    pub open spec fn off(&self) -> int {
        self.inner.peek_off(&self.state)
    }

    /// The wrapper's invariant, which every session operation preserves.
    pub open spec fn wf(&self) -> bool {
        self.inner.wf()
    }

    /// True when the wrapped source can never fail.
    pub open spec fn infallible(&self) -> bool {
        self.inner.infallible()
    }

    /// The largest representable peek offset.
    pub open spec fn max_off(&self) -> int {
        self.inner.max_off()
    }

    /// Starts a peek session on `inner` with a zeroed state.
    ///
    /// Unless you are implementing [`crate::PeekRead`] yourself you will
    /// never call this; see [`crate::PeekRead::peek`] instead.
    pub fn new(inner: &'a mut T) -> (r: PeekCursor<'a, T>)
        requires
            inner.wf(),
        ensures
            r.state.peek_pos == 0,
            *r.inner == *old(inner),
            *final(inner) == *final(r.inner),
    {
        PeekCursor { inner, state: PeekCursorState::new() }
    }

    /// Reads up to `n` bytes at the peek cursor, advancing it; short only at
    /// the end of the stream.
    pub fn read(&mut self, n: usize) -> (r: Result<Vec<u8>, ErrorKind>)
        requires
            old(self).wf(),
            old(self).off() + n <= usize::MAX,
        ensures
            final(self).wf(),
            final(self).stream() == old(self).stream(),
            final(self).infallible() == old(self).infallible(),
            final(self).max_off() == old(self).max_off(),
            r matches Ok(v) ==> {
                &&& v@ == peek_window(old(self).stream(), old(self).off(), n as int)
                &&& final(self).off() == old(self).off() + v@.len()
            },
            r is Err ==> final(self).off() == old(self).off(),
            old(self).infallible() ==> r is Ok,
            *final(old(self).inner) == *final(final(self).inner),
    {
        self.inner.peek_read(&mut self.state, n)
    }

    /// Reads exactly `n` bytes at the peek cursor, or fails with
    /// [`ErrorKind::UnexpectedEof`].
    pub fn read_exact(&mut self, n: usize) -> (r: Result<Vec<u8>, ErrorKind>)
        requires
            old(self).wf(),
            old(self).off() + n <= usize::MAX,
        ensures
            final(self).wf(),
            final(self).stream() == old(self).stream(),
            final(self).infallible() == old(self).infallible(),
            final(self).max_off() == old(self).max_off(),
            r matches Ok(v) ==> {
                &&& n <= avail_from(old(self).stream(), old(self).off())
                &&& v@ == suffix_from(old(self).stream(), old(self).off()).take(n as int)
                &&& final(self).off() == old(self).off() + n
            },
            old(self).infallible() ==> (r is Ok <==> n <= avail_from(
                old(self).stream(),
                old(self).off(),
            )),
            old(self).infallible() && n > avail_from(old(self).stream(), old(self).off()) ==> r
                == Err::<Vec<u8>, ErrorKind>(ErrorKind::UnexpectedEof),
            *final(old(self).inner) == *final(final(self).inner),
    {
        self.inner.peek_read_exact(&mut self.state, n)
    }

    /// Reads everything from the peek cursor to the end of the stream.
    pub fn read_to_end(&mut self) -> (r: Result<Vec<u8>, ErrorKind>)
        requires
            old(self).wf(),
            old(self).stream().len() <= usize::MAX,
        ensures
            final(self).wf(),
            final(self).stream() == old(self).stream(),
            final(self).infallible() == old(self).infallible(),
            final(self).max_off() == old(self).max_off(),
            r matches Ok(v) ==> {
                &&& v@ == suffix_from(old(self).stream(), old(self).off())
                &&& final(self).off() == old(self).off() + v@.len()
            },
            old(self).infallible() ==> r is Ok,
            *final(old(self).inner) == *final(final(self).inner),
    {
        self.inner.peek_read_to_end(&mut self.state)
    }

    /// Reads everything from the peek cursor to the end of the stream as
    /// text, failing with [`ErrorKind::InvalidData`] on bytes that are not
    /// valid UTF-8.
    pub fn read_to_string(&mut self) -> (r: Result<String, ErrorKind>)
        requires
            old(self).wf(),
            old(self).stream().len() <= usize::MAX,
        ensures
            final(self).wf(),
            final(self).stream() == old(self).stream(),
            final(self).infallible() == old(self).infallible(),
            final(self).max_off() == old(self).max_off(),
            r matches Ok(s) ==> utf8_chars(suffix_from(old(self).stream(), old(self).off()))
                == Some(s@),
            old(self).infallible() ==> (match utf8_chars(
                suffix_from(old(self).stream(), old(self).off()),
            ) {
                Some(cs) => r matches Ok(s) && s@ == cs,
                None => r == Err::<String, ErrorKind>(ErrorKind::InvalidData),
            }),
            *final(old(self).inner) == *final(final(self).inner),
    {
        self.inner.peek_read_to_string(&mut self.state)
    }

    /// Returns buffered lookahead at the peek cursor without advancing it:
    /// at least one byte, or nothing exactly at the end of the stream.
    pub fn fill_buf(&mut self) -> (r: Result<Vec<u8>, ErrorKind>)
        requires
            old(self).wf(),
            old(self).off() < usize::MAX,
        ensures
            final(self).wf(),
            final(self).stream() == old(self).stream(),
            final(self).infallible() == old(self).infallible(),
            final(self).max_off() == old(self).max_off(),
            r matches Ok(v) ==> {
                &&& v@.len() <= avail_from(old(self).stream(), old(self).off())
                &&& v@ == suffix_from(old(self).stream(), old(self).off()).take(v@.len() as int)
                &&& (v@.len() == 0 <==> avail_from(old(self).stream(), old(self).off()) == 0)
                &&& final(self).off() == old(self).off()
            },
            old(self).infallible() ==> r is Ok,
            *final(old(self).inner) == *final(final(self).inner),
    {
        self.inner.peek_fill_buf(&mut self.state)
    }

    /// Advances the peek cursor over `amt` bytes of the last fill view.
    pub fn consume(&mut self, amt: usize)
        requires
            old(self).wf(),
            old(self).off() + amt <= u64::MAX,
        ensures
            final(self).wf(),
            final(self).stream() == old(self).stream(),
            final(self).infallible() == old(self).infallible(),
            final(self).max_off() == old(self).max_off(),
            final(self).off() == old(self).off() + amt || final(self).off() == old(self).off(),
            old(self).infallible() && old(self).off() + amt <= old(self).max_off()
                ==> final(self).off() == old(self).off() + amt,
            *final(old(self).inner) == *final(final(self).inner),
    {
        self.inner.peek_consume(&mut self.state, amt)
    }

    /// Moves the peek cursor: `Start(0)` is the read cursor's position,
    /// targets before it clamp to it, and targets beyond the representable
    /// range fail with [`ErrorKind::InvalidSeek`].
    pub fn seek(&mut self, pos: SeekFrom) -> (r: Result<u64, ErrorKind>)
        requires
            old(self).wf(),
            pos is End ==> old(self).stream().len() <= usize::MAX,
        ensures
            final(self).wf(),
            final(self).stream() == old(self).stream(),
            final(self).infallible() == old(self).infallible(),
            final(self).max_off() == old(self).max_off(),
            ({
                let target = match pos {
                    SeekFrom::Start(o) => o as int,
                    SeekFrom::Current(d) => clamped_add(old(self).off(), d as int),
                    SeekFrom::End(d) => clamped_add(old(self).stream().len() as int, d as int),
                };
                &&& (r matches Ok(p) ==> final(self).off() == target && p == target)
                &&& (old(self).infallible() ==> (if target <= old(self).max_off() {
                    r is Ok
                } else {
                    &&& r == Err::<u64, ErrorKind>(ErrorKind::InvalidSeek)
                    &&& final(self).off() == old(self).off()
                }))
            }),
            *final(old(self).inner) == *final(final(self).inner),
    {
        self.inner.peek_seek(&mut self.state, pos)
    }

    /// Reports the peek cursor's position: its offset from the read cursor.
    pub fn stream_position(&mut self) -> (r: Result<u64, ErrorKind>)
        requires
            old(self).wf(),
        ensures
            final(self).wf(),
            final(self).stream() == old(self).stream(),
            final(self).infallible() == old(self).infallible(),
            final(self).max_off() == old(self).max_off(),
            r matches Ok(p) ==> p == old(self).off() && final(self).off() == old(self).off(),
            old(self).infallible() ==> r is Ok,
            *final(old(self).inner) == *final(final(self).inner),
    {
        self.inner.peek_stream_position(&mut self.state)
    }

    /// Ends the session, running the wrapper's cleanup: afterwards the
    /// wrapper is idle again and, as long as its source does not fail, its
    /// remaining bytes are exactly what they were when the session began.
    pub fn finish(self)
        requires
            self.inner.wf(),
        ensures
            final(self.inner).wf(),
            final(self.inner).idle(),
            final(self.inner).infallible() == old(self.inner).infallible(),
            old(self.inner).infallible() ==> {
                &&& final(self.inner).remaining() == old(self.inner).remaining()
                &&& final(self.inner).max_off() == old(self.inner).max_off()
            },
    {
        let PeekCursor { inner, mut state } = self;
        inner.peek_drop(&mut state);
    }
}

} // verus!
