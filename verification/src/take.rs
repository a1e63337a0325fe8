//! A size-limited sub-stream: at most `limit` bytes of the wrapped stream.

use vstd::prelude::*;
use crate::{ErrorKind, PeekRead, SeekFrom, peek_window, read_window, suffix_from};
use crate::detail::PeekReadImpl;
use crate::detail::cursor::{PeekCursor, PeekCursorState};
use crate::util::seek_add_clamped;

verus! {

/// A wrapper exposing at most `limit` upcoming bytes of a peekable stream:
/// reads, peeks and seeks all stop at the limit as if the stream ended
/// there, and ordinary reads count against it.
pub struct Take<T> {
    inner: T,
    limit: u64,
}

impl<T: PeekRead> Take<T> {
    /// The number of upcoming bytes still allowed through.
    pub closed spec fn spec_limit(&self) -> int {
        self.limit as int
    }

    /// The wrapped stream.
    pub closed spec fn spec_inner(&self) -> T {
        self.inner
    }

    /// How much of the wrapped stream is exposed: its remaining length,
    /// cut off at the limit.
    pub open spec fn exposed(&self) -> int {
        if self.spec_limit() <= self.spec_inner().remaining().len() {
            self.spec_limit()
        } else {
            self.spec_inner().remaining().len() as int
        }
    }

    /// Creates a sub-stream of `inner` that ends after `limit` bytes.
    pub fn new(inner: T, limit: u64) -> (r: Take<T>)
        requires
            inner.wf(),
        ensures
            r.wf(),
            r.spec_inner() == inner,
            r.spec_limit() == limit,
            r.idle() == inner.idle(),
            r.infallible() == inner.infallible(),
            r.remaining() == inner.remaining().take(r.exposed()),
    {
        Take { inner, limit }
    }

    /// The number of upcoming bytes still allowed through.
    pub fn limit(&self) -> (r: u64)
        ensures
            r == self.spec_limit(),
    {
        self.limit
    }

    /// Replaces the limit on upcoming bytes.
    pub fn set_limit(&mut self, limit: u64)
        requires
            old(self).wf(),
        ensures
            final(self).wf(),
            final(self).spec_inner() == old(self).spec_inner(),
            final(self).spec_limit() == limit,
    {
        self.limit = limit;
    }

    /// Unwraps this sub-stream, returning the wrapped stream.
    pub fn into_inner(self) -> (r: T)
        ensures
            r == self.spec_inner(),
    {
        self.inner
    }
}

impl<T: PeekRead> PeekReadImpl for Take<T> {
    open spec fn remaining(&self) -> Seq<u8> {
        self.spec_inner().remaining().take(self.exposed())
    }

    open spec fn wf(&self) -> bool {
        self.spec_inner().wf()
    }

    open spec fn idle(&self) -> bool {
        self.spec_inner().idle()
    }

    open spec fn infallible(&self) -> bool {
        self.spec_inner().infallible()
    }

    open spec fn peek_off(&self, state: &PeekCursorState) -> int {
        self.spec_inner().peek_off(state)
    }

    open spec fn max_off(&self) -> int {
        self.spec_inner().max_off()
    }

    proof fn lemma_off_bounds(&self, state: &PeekCursorState) {
        self.inner.lemma_off_bounds(state);
    }

    proof fn lemma_idle_off(&self, state: &PeekCursorState) {
        self.inner.lemma_idle_off(state);
    }

    fn peek_seek(&mut self, state: &mut PeekCursorState, pos: SeekFrom) -> (r: Result<
        u64,
        ErrorKind,
    >) {
        proof {
            self.inner.lemma_off_bounds(state);
        }
        match pos {
            SeekFrom::Start(o) => self.inner.peek_seek(state, SeekFrom::Start(o)),
            SeekFrom::Current(d) => self.inner.peek_seek(state, SeekFrom::Current(d)),
            SeekFrom::End(d) => {
                let off0 = match self.inner.peek_stream_position(state) {
                    Ok(p) => p,
                    Err(e) => { return Err(e); },
                };
                // The sub-stream's end: the limit, unless the wrapped stream
                // ends first. Found by walking the wrapped stream from the
                // read cursor, never past the limit.
                match self.inner.peek_seek(state, SeekFrom::Start(0)) {
                    Ok(_) => {},
                    Err(e) => { return Err(e); },
                }
                let ghost rem0 = old(self).remaining();
                let mut scanned: u64 = 0;
                loop
                    invariant
                        self.inner.wf(),
                        rem0 == old(self).remaining(),
                        self.spec_limit() == old(self).spec_limit(),
                        self.spec_inner().remaining() == old(self).spec_inner().remaining(),
                        self.spec_inner().infallible() == old(self).spec_inner().infallible(),
                        self.spec_inner().max_off() == old(self).spec_inner().max_off(),
                        rem0.len() <= usize::MAX,
                        rem0.len() == old(self).exposed(),
                        self.inner.peek_off(state) == scanned as int,
                        scanned <= rem0.len(),
                        scanned <= self.spec_limit(),
                    ensures
                        self.inner.wf(),
                        self.spec_limit() == old(self).spec_limit(),
                        self.spec_inner().remaining() == old(self).spec_inner().remaining(),
                        self.spec_inner().infallible() == old(self).spec_inner().infallible(),
                        self.spec_inner().max_off() == old(self).spec_inner().max_off(),
                        scanned == old(self).exposed(),
                    decreases rem0.len() - scanned,
                {
                    let cap: u64 = usize::MAX as u64 - scanned;
                    let left = self.limit - scanned;
                    let room: u64 = if left <= cap {
                        left
                    } else {
                        cap
                    };
                    let chunk: usize = if room >= 32 {
                        32
                    } else {
                        room as usize
                    };
                    if chunk == 0 {
                        proof {
                            assert(scanned == old(self).exposed());
                        }
                        break ;
                    }
                    match self.inner.peek_read(state, chunk) {
                        Ok(v) => {
                            if v.len() == 0 {
                                proof {
                                    assert(scanned == old(self).exposed());
                                }
                                break ;
                            }
                            scanned = scanned + v.len() as u64;
                        },
                        Err(e) => { return Err(e); },
                    }
                }
                let target = match seek_add_clamped(scanned, d) {
                    Ok(t) => t,
                    Err(e) => {
                        match self.inner.peek_seek(state, SeekFrom::Start(off0)) {
                            Ok(_) => {},
                            Err(_) => {},
                        }
                        return Err(e);
                    },
                };
                match self.inner.peek_seek(state, SeekFrom::Start(target)) {
                    Ok(p) => Ok(p),
                    Err(e) => {
                        match self.inner.peek_seek(state, SeekFrom::Start(off0)) {
                            Ok(_) => {},
                            Err(_) => {},
                        }
                        Err(e)
                    },
                }
            },
        }
    }

    fn peek_read(&mut self, state: &mut PeekCursorState, n: usize) -> (r: Result<
        Vec<u8>,
        ErrorKind,
    >) {
        proof {
            self.inner.lemma_off_bounds(state);
        }
        let off = match self.inner.peek_stream_position(state) {
            Ok(p) => p,
            Err(e) => { return Err(e); },
        };
        if off >= self.limit {
            proof {
                assert(peek_window(old(self).remaining(), off as int, n as int)
                    =~= Seq::<u8>::empty());
            }
            return Ok(Vec::new());
        }
        let room = self.limit - off;
        let m: usize = if (n as u64) <= room {
            n
        } else {
            room as usize
        };
        match self.inner.peek_read(state, m) {
            Ok(v) => {
                proof {
                    assert(v@ =~= peek_window(old(self).remaining(), off as int, n as int));
                }
                Ok(v)
            },
            Err(e) => Err(e),
        }
    }

    fn peek_fill_buf(&mut self, state: &mut PeekCursorState) -> (r: Result<Vec<u8>, ErrorKind>) {
        proof {
            self.inner.lemma_off_bounds(state);
        }
        let off = match self.inner.peek_stream_position(state) {
            Ok(p) => p,
            Err(e) => { return Err(e); },
        };
        if off >= self.limit {
            return Ok(Vec::new());
        }
        let room = self.limit - off;
        match self.inner.peek_fill_buf(state) {
            Ok(mut v) => {
                let ghost v0 = v@;
                if (v.len() as u64) > room {
                    v.truncate(room as usize);
                }
                proof {
                    let irem = old(self).spec_inner().remaining();
                    let trem = old(self).remaining();
                    assert(trem.len() == old(self).exposed());
                    if v0.len() > 0 {
                        assert(off < old(self).exposed());
                        assert forall|k: int| 0 <= k < v@.len() implies v@[k] == suffix_from(
                            trem,
                            off as int,
                        )[k] by {
                            assert(off + k < old(self).exposed());
                            assert(v@[k] == v0[k]);
                            assert(v0[k] == suffix_from(irem, off as int)[k]);
                            assert(suffix_from(trem, off as int)[k] == trem[off + k]);
                            assert(trem[off + k] == irem[off + k]);
                        }
                    }
                    assert(v@ =~= suffix_from(trem, off as int).take(v@.len() as int));
                }
                Ok(v)
            },
            Err(e) => Err(e),
        }
    }

    fn peek_stream_position(&mut self, state: &mut PeekCursorState) -> (r: Result<
        u64,
        ErrorKind,
    >) {
        self.inner.peek_stream_position(state)
    }

    fn peek_consume(&mut self, state: &mut PeekCursorState, amt: usize) {
        self.inner.peek_consume(state, amt)
    }

    fn peek_drop(&mut self, state: &mut PeekCursorState) {
        self.inner.peek_drop(state)
    }
}

impl<T: PeekRead> PeekRead for Take<T> {
    fn peek<'a>(&'a mut self) -> (r: PeekCursor<'a, Take<T>>) {
        let r = PeekCursor::new(self);
        proof {
            r.inner.lemma_idle_off(&r.state);
        }
        r
    }

    fn read(&mut self, n: usize) -> (r: Result<Vec<u8>, ErrorKind>) {
        let k: usize = if (n as u64) <= self.limit {
            n
        } else {
            self.limit as usize
        };
        match self.inner.read(k) {
            Ok(v) => {
                self.limit = self.limit - v.len() as u64;
                proof {
                    assert(v@ =~= read_window(old(self).remaining(), n as int));
                    assert(self.remaining() =~= old(self).remaining().skip(v@.len() as int));
                }
                Ok(v)
            },
            Err(e) => Err(e),
        }
    }
}

} // verus!
