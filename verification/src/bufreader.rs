//! A buffering wrapper that adds peeking to any forward-only source.

use vstd::prelude::*;
use crate::{ErrorKind, PeekRead, SeekFrom, peek_window, read_window, suffix_from};
use crate::detail::PeekReadImpl;
use crate::detail::cursor::{PeekCursor, PeekCursorState};
use crate::source::{ReadSource, read_upto_retrying};
use crate::util::{copy_range, seek_add_clamped};

verus! {

/// The least request made of the source when scanning for the stream's end.
const MIN_READ_TO_END: usize = 32;

/// Buffers at least this large are considered for compaction when their
/// front slack grows past half of them.
const COMPACT_THRESHOLD: usize = 24576;

/// How many bytes one buffer request pulls from the source: the shortfall,
/// raised to the configured minimum read size, but no more than the source
/// still has.
pub open spec fn pull_size(shortfall: int, min_read: int, pending: int) -> int {
    let asked = if shortfall >= min_read {
        shortfall
    } else {
        min_read
    };
    if asked <= pending {
        asked
    } else {
        pending
    }
}

/// A wrapper for a forward-only source that supports peeking by buffering.
///
/// Bytes between the read cursor and the furthest point ever peeked are held
/// in an elastic buffer: the live bytes are `buf_storage[buf_begin..]`, and
/// the slack in front of them makes pushing bytes back with
/// [`BufPeekReader::unread`] cheap when done repeatedly.
pub struct BufPeekReader<R> {
    buf_storage: Vec<u8>,
    buf_begin: usize,
    desired_front_space: usize,
    min_read_size: usize,
    inner: R,
}

impl<R: ReadSource> BufPeekReader<R> {
    /// The buffered bytes: what lies between the read cursor and the
    /// furthest point pulled from the source.
    pub closed spec fn buffered(&self) -> Seq<u8> {
        self.buf_storage@.skip(self.buf_begin as int)
    }

    /// The wrapped source.
    pub closed spec fn spec_inner(&self) -> R {
        self.inner
    }

    /// The configured minimum size of reads against the source.
    pub closed spec fn spec_min_read_size(&self) -> int {
        self.min_read_size as int
    }

    /// Creates a new [`BufPeekReader`] over `reader`, with nothing buffered.
    pub fn new(reader: R) -> (r: BufPeekReader<R>)
        requires
            reader.src_wf(),
        ensures
            r.wf(),
            r.remaining() == reader.pending(),
            r.infallible() == reader.infallible(),
            r.buffered() == Seq::<u8>::empty(),
            r.spec_min_read_size() == 0,
    {
        let r = BufPeekReader {
            buf_storage: Vec::new(),
            buf_begin: 0,
            desired_front_space: 32,
            min_read_size: 0,
            inner: reader,
        };
        proof {
            assert(r.buffered() =~= Seq::<u8>::empty());
            assert(r.remaining() =~= r.inner.pending());
        }
        r
    }

    /// Pushes `data` into the stream at the front: the read cursor moves
    /// back over it, so the next reads return `data` before anything else.
    pub fn unread(&mut self, data: &[u8])
        requires
            old(self).wf(),
        ensures
            final(self).wf(),
            final(self).remaining() == data@ + old(self).remaining(),
            final(self).buffered() == data@ + old(self).buffered(),
            final(self).infallible() == old(self).infallible(),
            final(self).spec_min_read_size() == old(self).spec_min_read_size(),
            final(self).spec_inner() == old(self).spec_inner(),
    {
        let n = data.len();
        self.ensure_space_at_front(n);
        let ghost mid = *self;
        let start = self.buf_begin - n;
        let mut i: usize = 0;
        while i < n
            invariant
                self.buf_begin == mid.buf_begin,
                self.buf_storage@.len() == mid.buf_storage@.len(),
                n <= self.buf_begin <= self.buf_storage@.len(),
                start == self.buf_begin - n,
                i <= n,
                n == data@.len(),
                self.buf_storage@.skip(self.buf_begin as int) == mid.buffered(),
                self.buf_storage@.subrange(start as int, start as int + i as int) == data@.take(
                    i as int,
                ),
                self.desired_front_space == mid.desired_front_space,
                self.min_read_size == mid.min_read_size,
                self.inner == mid.inner,
            decreases n - i,
        {
            self.buf_storage.set(start + i, data[i]);
            i = i + 1;
            proof {
                assert(self.buf_storage@.skip(self.buf_begin as int) =~= mid.buffered());
                assert(self.buf_storage@.subrange(start as int, start as int + i as int)
                    =~= data@.take(i as int));
            }
        }
        self.buf_begin = start;
        proof {
            assert(self.buffered() =~= data@ + mid.buffered());
            assert(self.remaining() =~= data@ + old(self).remaining());
        }
    }

    /// Sets the minimum size used when reading from the underlying source.
    /// Larger values batch source reads, at the price of requesting more
    /// than a caller asked for; zero, the default, reads only on demand.
    pub fn set_min_read_size(&mut self, nbytes: usize)
        requires
            old(self).wf(),
        ensures
            final(self).wf(),
            final(self).remaining() == old(self).remaining(),
            final(self).buffered() == old(self).buffered(),
            final(self).infallible() == old(self).infallible(),
            final(self).spec_min_read_size() == nbytes,
            final(self).spec_inner() == old(self).spec_inner(),
    {
        self.min_read_size = nbytes;
    }

    /// The configured minimum read size. See [`Self::set_min_read_size`].
    pub fn min_read_size(&self) -> (r: usize)
        ensures
            r == self.spec_min_read_size(),
    {
        self.min_read_size
    }

    /// Returns a copy of the internally buffered data. Unlike
    /// [`Self::fill_buf`], this does not pull from the source when the
    /// buffer is empty.
    pub fn buffer(&self) -> (r: Vec<u8>)
        requires
            self.wf(),
        ensures
            r@ == self.buffered(),
    {
        let len = self.buf_storage.len();
        copy_range(&self.buf_storage, self.buf_begin, len - self.buf_begin)
    }

    /// Gets a reference to the underlying reader.
    ///
    /// It is inadvisable to directly read from the underlying reader.
    pub fn get_ref(&self) -> (r: &R)
        ensures
            *r == self.spec_inner(),
    {
        &self.inner
    }

    /// Gets a mutable reference to the underlying reader.
    ///
    /// It is inadvisable to directly read from the underlying reader.
    pub fn get_mut(&mut self) -> (r: &mut R)
        requires
            old(self).wf(),
        ensures
            *r == old(self).spec_inner(),
            final(self).spec_inner() == *final(r),
            final(self).buffered() == old(self).buffered(),
            final(self).spec_min_read_size() == old(self).spec_min_read_size(),
            final(self).spec_inner().src_wf() ==> final(self).wf(),
    {
        &mut self.inner
    }

    /// Unwraps this reader, returning the underlying source. Anything still
    /// buffered, including unread bytes, is lost.
    pub fn into_inner(self) -> (r: R)
        ensures
            r == self.spec_inner(),
    {
        self.inner
    }

    /// The number of buffered bytes.
    fn buffered_len(&self) -> (r: usize)
        requires
            self.wf(),
        ensures
            r == self.buffered().len(),
    {
        self.buf_storage.len() - self.buf_begin
    }

    /// Makes room at the end of the storage: when the front slack has grown
    /// to half of a sizeable buffer, the live bytes shift down, shrinking
    /// the slack kept for future pushbacks.
    fn request_space_at_end(&mut self)
        requires
            old(self).wf(),
        ensures
            final(self).wf(),
            final(self).buffered() == old(self).buffered(),
            final(self).remaining() == old(self).remaining(),
            final(self).infallible() == old(self).infallible(),
            final(self).spec_min_read_size() == old(self).spec_min_read_size(),
            final(self).spec_inner() == old(self).spec_inner(),
    {
        let len = self.buf_storage.len();
        if len >= COMPACT_THRESHOLD && self.buf_begin >= len / 2 {
            self.desired_front_space = (if self.desired_front_space <= self.buf_begin {
                self.desired_front_space
            } else {
                self.buf_begin
            }) / 3 * 2;
            let mut compacted = copy_range(&self.buf_storage, 0, self.desired_front_space);
            let mut live = copy_range(&self.buf_storage, self.buf_begin, len - self.buf_begin);
            compacted.append(&mut live);
            self.buf_storage = compacted;
            self.buf_begin = self.desired_front_space;
            proof {
                assert(self.buffered() =~= old(self).buffered());
                assert(self.remaining() =~= old(self).remaining());
            }
        }
    }

    /// Makes sure at least `nbytes` of slack lie in front of the live
    /// bytes, growing the desired slack geometrically so that repeated
    /// small pushbacks stay cheap.
    fn ensure_space_at_front(&mut self, nbytes: usize)
        requires
            old(self).wf(),
        ensures
            final(self).wf(),
            nbytes <= final(self).buf_begin,
            final(self).buffered() == old(self).buffered(),
            final(self).remaining() == old(self).remaining(),
            final(self).infallible() == old(self).infallible(),
            final(self).spec_min_read_size() == old(self).spec_min_read_size(),
            final(self).spec_inner() == old(self).spec_inner(),
    {
        if nbytes > self.buf_begin {
            let base = if self.desired_front_space >= nbytes {
                self.desired_front_space
            } else {
                nbytes
            };
            self.desired_front_space = if base <= (usize::MAX - 32) / 2 {
                2 * base + 32
            } else {
                usize::MAX
            };
            let extra = self.desired_front_space - self.buf_begin;
            let mut grown: Vec<u8> = Vec::new();
            let mut i: usize = 0;
            while i < extra
                invariant
                    i <= extra,
                    grown@.len() == i,
                decreases extra - i,
            {
                grown.push(0);
                i = i + 1;
            }
            grown.append(&mut self.buf_storage);
            self.buf_storage = grown;
            self.buf_begin = self.buf_begin + extra;
            proof {
                assert(self.buffered() =~= old(self).buffered());
                assert(self.remaining() =~= old(self).remaining());
            }
        }
    }

    /// Tries to fill the buffer to at least `nbytes` live bytes, pulling
    /// what is missing from the source, but never less than the configured
    /// minimum read size. Reaching the end of the source first is not an
    /// error: the buffer is simply left shorter, and reads observe the
    /// shortfall naturally.
    fn request_buffer(&mut self, nbytes: usize) -> (r: Result<(), ErrorKind>)
        requires
            old(self).wf(),
        ensures
            final(self).wf(),
            final(self).remaining() == old(self).remaining(),
            final(self).infallible() == old(self).infallible(),
            final(self).spec_min_read_size() == old(self).spec_min_read_size(),
            r is Ok ==> final(self).buffered().len() == if nbytes <= old(self).buffered().len() {
                old(self).buffered().len() as int
            } else {
                old(self).buffered().len() + pull_size(
                    nbytes - old(self).buffered().len(),
                    old(self).spec_min_read_size(),
                    old(self).spec_inner().pending().len() as int,
                )
            },
            r is Err ==> final(self).buffered() == old(self).buffered(),
            r matches Err(e) ==> !(e is UnexpectedEof),
            old(self).infallible() ==> r is Ok,
    {
        let blen = self.buffered_len();
        if nbytes > blen {
            let needed = nbytes - blen;
            let read_size = if needed >= self.min_read_size {
                needed
            } else {
                self.min_read_size
            };
            self.request_space_at_end();
            match read_upto_retrying(&mut self.inner, read_size) {
                Ok(mut v) => {
                    self.buf_storage.append(&mut v);
                    proof {
                        assert(self.buffered() =~= old(self).buffered()
                            + old(self).spec_inner().pending().take(
                            self.buffered().len() - old(self).buffered().len(),
                        ));
                        assert(self.remaining() =~= old(self).remaining());
                    }
                    Ok(())
                },
                Err(e) => Err(e),
            }
        } else {
            Ok(())
        }
    }
}

impl<R: ReadSource> PeekReadImpl for BufPeekReader<R> {
    open spec fn remaining(&self) -> Seq<u8> {
        self.buffered() + self.spec_inner().pending()
    }

    closed spec fn wf(&self) -> bool {
        self.buf_begin <= self.buf_storage@.len() && self.inner.src_wf()
    }

    open spec fn idle(&self) -> bool {
        true
    }

    closed spec fn infallible(&self) -> bool {
        self.inner.infallible()
    }

    open spec fn peek_off(&self, state: &PeekCursorState) -> int {
        state.peek_pos as int
    }

    open spec fn max_off(&self) -> int {
        u64::MAX as int
    }

    proof fn lemma_off_bounds(&self, state: &PeekCursorState) {
    }

    proof fn lemma_idle_off(&self, state: &PeekCursorState) {
    }

    fn peek_seek(&mut self, state: &mut PeekCursorState, pos: SeekFrom) -> (r: Result<
        u64,
        ErrorKind,
    >) {
        let target = match pos {
            SeekFrom::Start(o) => o,
            SeekFrom::Current(d) => match seek_add_clamped(state.peek_pos, d) {
                Ok(t) => t,
                Err(e) => { return Err(e); },
            },
            SeekFrom::End(d) => {
                loop
                    invariant
                        self.wf(),
                        self.remaining() == old(self).remaining(),
                        self.infallible() == old(self).infallible(),
                        self.spec_min_read_size() == old(self).spec_min_read_size(),
                        old(self).remaining().len() <= usize::MAX,
                        self.buffered().len() <= self.remaining().len(),
                    ensures
                        self.wf(),
                        self.remaining() == old(self).remaining(),
                        self.infallible() == old(self).infallible(),
                        self.spec_min_read_size() == old(self).spec_min_read_size(),
                        self.buffered() == self.remaining(),
                    decreases old(self).remaining().len() - self.buffered().len(),
                {
                    let before = self.buffered_len();
                    let requested = if before <= (usize::MAX - MIN_READ_TO_END) / 2 {
                        let doubled = 2 * before;
                        if doubled >= MIN_READ_TO_END {
                            doubled
                        } else {
                            MIN_READ_TO_END
                        }
                    } else {
                        usize::MAX
                    };
                    match self.request_buffer(requested) {
                        Ok(()) => {},
                        Err(e) => { return Err(e); },
                    }
                    if self.buffered_len() == before {
                        proof {
                            assert(self.buffered() =~= self.remaining());
                        }
                        break ;
                    }
                }
                let total = self.buffered_len();
                match seek_add_clamped(total as u64, d) {
                    Ok(t) => t,
                    Err(e) => { return Err(e); },
                }
            },
        };
        state.peek_pos = target;
        Ok(target)
    }

    fn peek_read(&mut self, state: &mut PeekCursorState, n: usize) -> (r: Result<
        Vec<u8>,
        ErrorKind,
    >) {
        let pp = state.peek_pos as usize;
        match self.request_buffer(pp + n) {
            Ok(()) => {},
            Err(e) => { return Err(e); },
        }
        let blen = self.buf_storage.len() - self.buf_begin;
        if pp >= blen {
            proof {
                assert(peek_window(self.remaining(), pp as int, n as int) =~= Seq::<u8>::empty());
            }
            return Ok(Vec::new());
        }
        let cnt = if n <= blen - pp {
            n
        } else {
            blen - pp
        };
        let v = copy_range(&self.buf_storage, self.buf_begin + pp, cnt);
        proof {
            assert(self.buffered() =~= self.remaining().take(self.buffered().len() as int));
            assert(v@ =~= peek_window(self.remaining(), pp as int, n as int));
        }
        state.peek_pos = state.peek_pos + cnt as u64;
        Ok(v)
    }

    fn peek_fill_buf(&mut self, state: &mut PeekCursorState) -> (r: Result<Vec<u8>, ErrorKind>) {
        let pp = state.peek_pos as usize;
        match self.request_buffer(pp + 1) {
            Ok(()) => {},
            Err(e) => { return Err(e); },
        }
        let blen = self.buf_storage.len() - self.buf_begin;
        if pp >= blen {
            return Ok(Vec::new());
        }
        let v = copy_range(&self.buf_storage, self.buf_begin + pp, blen - pp);
        proof {
            assert(self.buffered() =~= self.remaining().take(self.buffered().len() as int));
            assert(v@ =~= suffix_from(self.remaining(), pp as int).take(v@.len() as int));
        }
        Ok(v)
    }

    fn peek_stream_position(&mut self, state: &mut PeekCursorState) -> (r: Result<
        u64,
        ErrorKind,
    >) {
        Ok(state.peek_pos)
    }

    fn peek_consume(&mut self, state: &mut PeekCursorState, amt: usize) {
        state.peek_pos = state.peek_pos + amt as u64;
    }

    fn peek_drop(&mut self, state: &mut PeekCursorState) {
    }
}

impl<R: ReadSource> PeekRead for BufPeekReader<R> {
    fn peek<'a>(&'a mut self) -> (r: PeekCursor<'a, BufPeekReader<R>>) {
        PeekCursor::new(self)
    }

    fn read(&mut self, n: usize) -> (r: Result<Vec<u8>, ErrorKind>) {
        let blen = self.buf_storage.len() - self.buf_begin;
        if blen == 0 {
            // Nothing buffered: pass the read straight through to the source.
            proof {
                assert(old(self).buffered() =~= Seq::<u8>::empty());
                assert(self.remaining() =~= self.inner.pending());
            }
            match self.inner.read_upto(n) {
                Ok(v) => {
                    proof {
                        assert(v@ =~= read_window(old(self).remaining(), n as int));
                        assert(self.remaining() =~= old(self).remaining().skip(v@.len() as int));
                    }
                    Ok(v)
                },
                Err(e) => Err(e),
            }
        } else {
            let k = if n <= blen {
                n
            } else {
                blen
            };
            let mut v = copy_range(&self.buf_storage, self.buf_begin, k);
            if n > k {
                match self.inner.read_upto(n - k) {
                    Ok(mut w) => {
                        self.buf_begin = self.buf_begin + k;
                        let got = w.len();
                        v.append(&mut w);
                        proof {
                            assert(v@ =~= read_window(old(self).remaining(), n as int));
                            assert(self.remaining() =~= old(self).remaining().skip(
                                v@.len() as int));
                        }
                        Ok(v)
                    },
                    Err(e) => Err(e),
                }
            } else {
                self.buf_begin = self.buf_begin + k;
                proof {
                    assert(v@ =~= read_window(old(self).remaining(), n as int));
                    assert(self.remaining() =~= old(self).remaining().skip(v@.len() as int));
                }
                Ok(v)
            }
        }
    }
}

impl<R: ReadSource> BufPeekReader<R> {
    /// Returns buffered bytes at the read cursor, pulling from the source
    /// when nothing is buffered: at least one byte, or nothing exactly at
    /// the end of the stream.
    pub fn fill_buf(&mut self) -> (r: Result<Vec<u8>, ErrorKind>)
        requires
            old(self).wf(),
        ensures
            final(self).wf(),
            final(self).remaining() == old(self).remaining(),
            final(self).infallible() == old(self).infallible(),
            final(self).spec_min_read_size() == old(self).spec_min_read_size(),
            r matches Ok(v) ==> {
                &&& v@ == old(self).remaining().take(v@.len() as int)
                &&& (v@.len() == 0 <==> old(self).remaining().len() == 0)
            },
            old(self).infallible() ==> r is Ok,
    {
        let req = if self.min_read_size >= 1 {
            self.min_read_size
        } else {
            1
        };
        match self.request_buffer(req) {
            Ok(()) => {},
            Err(e) => { return Err(e); },
        }
        let blen = self.buf_storage.len() - self.buf_begin;
        let v = copy_range(&self.buf_storage, self.buf_begin, blen);
        proof {
            assert(v@ =~= old(self).remaining().take(v@.len() as int));
        }
        Ok(v)
    }

    /// Consumes `amt` bytes of the buffered data at the read cursor; at
    /// most what is buffered is consumed.
    pub fn consume(&mut self, amt: usize)
        requires
            old(self).wf(),
        ensures
            final(self).wf(),
            final(self).remaining() == old(self).remaining().skip(
                if amt <= old(self).buffered().len() {
                    amt as int
                } else {
                    old(self).buffered().len() as int
                },
            ),
            final(self).infallible() == old(self).infallible(),
            final(self).spec_min_read_size() == old(self).spec_min_read_size(),
            final(self).spec_inner() == old(self).spec_inner(),
    {
        let blen = self.buf_storage.len() - self.buf_begin;
        if amt >= blen {
            self.buf_begin = self.buf_storage.len();
        } else {
            self.buf_begin = self.buf_begin + amt;
        }
        proof {
            assert(self.remaining() =~= old(self).remaining().skip(
                if amt <= old(self).buffered().len() {
                    amt as int
                } else {
                    old(self).buffered().len() as int
                },
            ));
        }
    }
}

} // verus!
