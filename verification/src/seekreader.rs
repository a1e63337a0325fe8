//! A wrapper that adds peeking to any source with native seek support.

use vstd::prelude::*;
use crate::{ErrorKind, PeekRead, SeekFrom, peek_window, read_window, suffix_from};
use crate::detail::{INTERRUPT_RETRIES, PeekReadImpl};
use crate::detail::cursor::{PeekCursor, PeekCursorState};
use crate::source::SeekSource;
use crate::util::{seek_add_clamped, seek_add_offset};

verus! {

/// Looking at a stream's contents through a base offset is the same as
/// looking at the suffix from that base: a window read at absolute position
/// `pos` equals the window read at the relative offset `pos - base`.
proof fn lemma_window_shift(content: Seq<u8>, base: int, pos: int, n: int)
    requires
        0 <= base <= pos,
        0 <= n,
    ensures
        peek_window(content, pos, n) == peek_window(suffix_from(content, base), pos - base, n),
        suffix_from(content, pos) == suffix_from(suffix_from(content, base), pos - base),
{
    assert(peek_window(content, pos, n) =~= peek_window(
        suffix_from(content, base),
        pos - base,
        n,
    ));
    assert(suffix_from(content, pos) =~= suffix_from(suffix_from(content, base), pos - base));
}

/// A wrapper for a seekable source that supports peeking by seeking.
///
/// A peek session lazily records the source's position when it starts; peek
/// reads then move the source directly, and ending the session seeks the
/// source back to the recorded start. Nothing is buffered.
pub struct SeekPeekReader<R> {
    inner: R,
    start_pos: Option<u64>,
}

impl<R: SeekSource> SeekPeekReader<R> {
    /// The read cursor's position: the session's start while one is open,
    /// the source's own position otherwise.
    pub closed spec fn base(&self) -> int {
        match self.start_pos {
            Some(p) => p as int,
            None => self.inner.pos(),
        }
    }

    /// The wrapped source.
    pub closed spec fn spec_inner(&self) -> R {
        self.inner
    }

    /// Creates a new [`SeekPeekReader`] over `reader`.
    ///
    /// When a peek session on this reader ends, the source is seeked back
    /// to the position it had when the session began.
    pub fn new(reader: R) -> (r: SeekPeekReader<R>)
        requires
            reader.seek_wf(),
        ensures
            r.wf(),
            r.idle(),
            r.remaining() == suffix_from(reader.content(), reader.pos()),
            r.infallible() == reader.infallible(),
            r.spec_inner() == reader,
    {
        SeekPeekReader { inner: reader, start_pos: None }
    }

    /// Gets a reference to the underlying reader.
    ///
    /// It is inadvisable to directly read from the underlying reader.
    pub fn get_ref(&self) -> (r: &R)
        ensures
            *r == self.spec_inner(),
    {
        &self.inner
    }

    /// Gets a mutable reference to the underlying reader.
    ///
    /// It is inadvisable to directly read from the underlying reader.
    pub fn get_mut(&mut self) -> (r: &mut R)
        ensures
            *r == old(self).spec_inner(),
            final(self).spec_inner() == *final(r),
            final(self).idle() == old(self).idle(),
            final(self).spec_inner().seek_wf() ==> final(self).wf(),
    {
        &mut self.inner
    }

    /// Unwraps this reader, returning the underlying source.
    pub fn into_inner(self) -> (r: R)
        ensures
            r == self.spec_inner(),
    {
        self.inner
    }

    /// Records the session's start position if this is the session's first
    /// operation, and returns it.
    fn init_start_pos(&mut self) -> (r: Result<u64, ErrorKind>)
        requires
            old(self).wf(),
        ensures
            final(self).wf(),
            final(self).spec_inner().content() == old(self).spec_inner().content(),
            final(self).spec_inner().pos() == old(self).spec_inner().pos(),
            final(self).infallible() == old(self).infallible(),
            final(self).base() == old(self).base(),
            r matches Ok(p) ==> p == old(self).base() && final(self).start_pos == Some(p),
            r is Err ==> final(self).start_pos == old(self).start_pos,
            r matches Err(e) ==> !(e is UnexpectedEof),
            old(self).infallible() ==> r is Ok,
    {
        match self.start_pos {
            Some(p) => Ok(p),
            None => {
                match self.inner.stream_position() {
                    Ok(p) => {
                        self.start_pos = Some(p);
                        Ok(p)
                    },
                    Err(e) => Err(e),
                }
            },
        }
    }
}

impl<R: SeekSource> PeekReadImpl for SeekPeekReader<R> {
    open spec fn remaining(&self) -> Seq<u8> {
        suffix_from(self.spec_inner().content(), self.base())
    }

    closed spec fn wf(&self) -> bool {
        self.inner.seek_wf()
    }

    closed spec fn idle(&self) -> bool {
        self.start_pos is None
    }

    closed spec fn infallible(&self) -> bool {
        self.inner.infallible()
    }

    closed spec fn peek_off(&self, state: &PeekCursorState) -> int {
        if self.inner.pos() >= self.base() {
            self.inner.pos() - self.base()
        } else {
            0
        }
    }

    closed spec fn max_off(&self) -> int {
        u64::MAX - self.base()
    }

    proof fn lemma_off_bounds(&self, state: &PeekCursorState) {
        self.inner.lemma_seek_bounds();
    }

    proof fn lemma_idle_off(&self, state: &PeekCursorState) {
    }

    fn peek_seek(&mut self, state: &mut PeekCursorState, pos: SeekFrom) -> (r: Result<
        u64,
        ErrorKind,
    >) {
        proof {
            self.inner.lemma_seek_bounds();
        }
        let start = match self.init_start_pos() {
            Ok(p) => p,
            Err(e) => { return Err(e); },
        };
        match pos {
            SeekFrom::Start(o) => {
                if o > u64::MAX - start {
                    return Err(ErrorKind::InvalidSeek);
                }
                match self.inner.seek_to(start + o) {
                    Ok(_) => Ok(o),
                    Err(e) => Err(e),
                }
            },
            SeekFrom::Current(d) => {
                let cur = match self.inner.stream_position() {
                    Ok(c) => c,
                    Err(e) => { return Err(e); },
                };
                let off: u64 = if cur >= start {
                    cur - start
                } else {
                    0
                };
                let t = match seek_add_clamped(off, d) {
                    Ok(t) => t,
                    Err(e) => { return Err(e); },
                };
                if t > u64::MAX - start {
                    return Err(ErrorKind::InvalidSeek);
                }
                match self.inner.seek_to(start + t) {
                    Ok(_) => Ok(t),
                    Err(e) => Err(e),
                }
            },
            SeekFrom::End(d) => {
                let cur = match self.inner.stream_position() {
                    Ok(c) => c,
                    Err(e) => { return Err(e); },
                };
                let end = match self.inner.seek_to_end() {
                    Ok(p) => p,
                    Err(e) => { return Err(e); },
                };
                let end_off: u64 = if end >= start {
                    end - start
                } else {
                    0
                };
                let t = match seek_add_clamped(end_off, d) {
                    Ok(t) => t,
                    Err(e) => {
                        match self.inner.seek_to(cur) {
                            Ok(_) => {},
                            Err(_) => {},
                        }
                        return Err(e);
                    },
                };
                if t > u64::MAX - start {
                    match self.inner.seek_to(cur) {
                        Ok(_) => {},
                        Err(_) => {},
                    }
                    return Err(ErrorKind::InvalidSeek);
                }
                match self.inner.seek_to(start + t) {
                    Ok(_) => Ok(t),
                    Err(e) => Err(e),
                }
            },
        }
    }

    fn peek_read(&mut self, state: &mut PeekCursorState, n: usize) -> (r: Result<
        Vec<u8>,
        ErrorKind,
    >) {
        proof {
            self.inner.lemma_seek_bounds();
        }
        let start = match self.init_start_pos() {
            Ok(p) => p,
            Err(e) => { return Err(e); },
        };
        let cur = match self.inner.stream_position() {
            Ok(c) => c,
            Err(e) => { return Err(e); },
        };
        if cur < start {
            match self.inner.seek_to(start) {
                Ok(_) => {},
                Err(e) => { return Err(e); },
            }
        }
        let ghost eff = if cur >= start {
            cur as int
        } else {
            start as int
        };
        match self.inner.read_upto(n) {
            Ok(v) => {
                proof {
                    lemma_window_shift(
                        self.spec_inner().content(),
                        start as int,
                        eff,
                        n as int,
                    );
                }
                Ok(v)
            },
            Err(e) => Err(e),
        }
    }

    fn peek_fill_buf(&mut self, state: &mut PeekCursorState) -> (r: Result<Vec<u8>, ErrorKind>) {
        proof {
            self.inner.lemma_seek_bounds();
        }
        let start = match self.init_start_pos() {
            Ok(p) => p,
            Err(e) => { return Err(e); },
        };
        let cur = match self.inner.stream_position() {
            Ok(c) => c,
            Err(e) => { return Err(e); },
        };
        let eff: u64 = if cur >= start {
            cur
        } else {
            match self.inner.seek_to(start) {
                Ok(_) => {},
                Err(e) => { return Err(e); },
            }
            start
        };
        match self.inner.read_upto(1) {
            Ok(v) => {
                if v.len() > 0 {
                    match self.inner.seek_to(eff) {
                        Ok(_) => {},
                        Err(e) => { return Err(e); },
                    }
                }
                proof {
                    lemma_window_shift(
                        self.spec_inner().content(),
                        start as int,
                        eff as int,
                        1,
                    );
                    assert(v@ =~= suffix_from(old(self).remaining(), old(self).peek_off(
                        old(state),
                    )).take(v@.len() as int));
                }
                Ok(v)
            },
            Err(e) => Err(e),
        }
    }

    fn peek_stream_position(&mut self, state: &mut PeekCursorState) -> (r: Result<
        u64,
        ErrorKind,
    >) {
        proof {
            self.inner.lemma_seek_bounds();
        }
        let start = match self.init_start_pos() {
            Ok(p) => p,
            Err(e) => { return Err(e); },
        };
        let cur = match self.inner.stream_position() {
            Ok(c) => c,
            Err(e) => { return Err(e); },
        };
        if cur >= start {
            Ok(cur - start)
        } else {
            Ok(0)
        }
    }

    fn peek_consume(&mut self, state: &mut PeekCursorState, amt: usize) {
        proof {
            self.inner.lemma_seek_bounds();
        }
        let start = match self.init_start_pos() {
            Ok(p) => p,
            Err(_) => { return ; },
        };
        let cur = match self.inner.stream_position() {
            Ok(c) => c,
            Err(_) => { return ; },
        };
        let eff: u64 = if cur >= start {
            cur
        } else {
            start
        };
        if amt as u64 > u64::MAX - eff {
            return ;
        }
        match self.inner.seek_to(eff + amt as u64) {
            Ok(_) => {},
            Err(_) => {},
        }
    }

    fn peek_drop(&mut self, state: &mut PeekCursorState) {
        match self.start_pos {
            Some(p) => {
                let mut attempts: u64 = 0;
                loop
                    invariant
                        self.inner.seek_wf(),
                        self.inner.content() == old(self).spec_inner().content(),
                        self.inner.infallible() == old(self).infallible(),
                        self.start_pos == Some(p),
                        p as int == old(self).base(),
                        attempts <= INTERRUPT_RETRIES,
                    ensures
                        self.inner.seek_wf(),
                        self.inner.content() == old(self).spec_inner().content(),
                        self.inner.infallible() == old(self).infallible(),
                        self.start_pos == Some(p),
                        old(self).infallible() ==> self.inner.pos() == p,
                    decreases INTERRUPT_RETRIES - attempts,
                {
                    match self.inner.seek_to(p) {
                        Ok(_) => { break ; },
                        Err(e) => {
                            if matches!(e, ErrorKind::Interrupted) && attempts
                                < INTERRUPT_RETRIES {
                                attempts = attempts + 1;
                            } else {
                                break ;
                            }
                        },
                    }
                }
                self.start_pos = None;
            },
            None => {},
        }
    }
}

impl<R: SeekSource> PeekRead for SeekPeekReader<R> {
    fn peek<'a>(&'a mut self) -> (r: PeekCursor<'a, SeekPeekReader<R>>) {
        self.start_pos = None;
        PeekCursor::new(self)
    }

    fn read(&mut self, n: usize) -> (r: Result<Vec<u8>, ErrorKind>) {
        proof {
            self.inner.lemma_seek_bounds();
        }
        match self.inner.read_upto(n) {
            Ok(v) => {
                proof {
                    lemma_window_shift(
                        self.spec_inner().content(),
                        old(self).base(),
                        old(self).base(),
                        n as int,
                    );
                    lemma_window_shift(
                        self.spec_inner().content(),
                        old(self).base(),
                        old(self).base() + v@.len(),
                        0,
                    );
                    assert(final(self).remaining() =~= old(self).remaining().skip(
                        v@.len() as int));
                }
                Ok(v)
            },
            Err(e) => Err(e),
        }
    }
}

impl<R: SeekSource> SeekPeekReader<R> {
    /// Moves the read cursor itself, forwarding to the source's seek: an
    /// absolute target, or one relative to the current position or the end,
    /// failing with [`ErrorKind::InvalidSeek`] on a target below zero or
    /// beyond the 64-bit range.
    pub fn seek(&mut self, pos: SeekFrom) -> (r: Result<u64, ErrorKind>)
        requires
            old(self).wf(),
            old(self).idle(),
        ensures
            final(self).wf(),
            final(self).idle(),
            final(self).infallible() == old(self).infallible(),
            final(self).spec_inner().content() == old(self).spec_inner().content(),
            r matches Ok(p) ==> {
                &&& final(self).spec_inner().pos() == p
                &&& p == match pos {
                    SeekFrom::Start(o) => o as int,
                    SeekFrom::Current(d) => old(self).spec_inner().pos() + d,
                    SeekFrom::End(d) => old(self).spec_inner().content().len() + d,
                }
            },
            old(self).infallible() ==> {
                let target = match pos {
                    SeekFrom::Start(o) => o as int,
                    SeekFrom::Current(d) => old(self).spec_inner().pos() + d,
                    SeekFrom::End(d) => old(self).spec_inner().content().len() + d,
                };
                if 0 <= target <= u64::MAX {
                    r is Ok
                } else {
                    r == Err::<u64, ErrorKind>(ErrorKind::InvalidSeek)
                }
            },
    {
        proof {
            self.inner.lemma_seek_bounds();
        }
        match pos {
            SeekFrom::Start(o) => {
                match self.inner.seek_to(o) {
                    Ok(p) => Ok(p),
                    Err(e) => Err(e),
                }
            },
            SeekFrom::Current(d) => {
                let cur = match self.inner.stream_position() {
                    Ok(c) => c,
                    Err(e) => { return Err(e); },
                };
                let t = match seek_add_offset(cur, d) {
                    Ok(t) => t,
                    Err(e) => { return Err(e); },
                };
                match self.inner.seek_to(t) {
                    Ok(p) => Ok(p),
                    Err(e) => Err(e),
                }
            },
            SeekFrom::End(d) => {
                let end = match self.inner.seek_to_end() {
                    Ok(p) => p,
                    Err(e) => { return Err(e); },
                };
                let t = match seek_add_offset(end, d) {
                    Ok(t) => t,
                    Err(e) => { return Err(e); },
                };
                match self.inner.seek_to(t) {
                    Ok(p) => Ok(p),
                    Err(e) => Err(e),
                }
            },
        }
    }

    /// Reports the read cursor's absolute position in the source.
    pub fn stream_position(&mut self) -> (r: Result<u64, ErrorKind>)
        requires
            old(self).wf(),
            old(self).idle(),
        ensures
            final(self).wf(),
            final(self).idle(),
            final(self).infallible() == old(self).infallible(),
            final(self).spec_inner().content() == old(self).spec_inner().content(),
            final(self).spec_inner().pos() == old(self).spec_inner().pos(),
            r matches Ok(p) ==> p == old(self).spec_inner().pos(),
            old(self).infallible() ==> r is Ok,
    {
        self.inner.stream_position()
    }
}

} // verus!
