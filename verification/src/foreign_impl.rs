//! Adapters for common stream shapes: empty streams and fixed byte slices.

use vstd::prelude::*;
use crate::{ErrorKind, PeekRead, SeekFrom, avail_from, peek_window, read_window, suffix_from};
use crate::detail::PeekReadImpl;
use crate::detail::cursor::{PeekCursor, PeekCursorState};
use crate::source::{ReadSource, SeekSource};
use crate::util::{copy_range, seek_add_clamped};

verus! {

/// A stream with no contents: every read returns nothing, immediately.
pub struct Empty {}

impl Empty {
    /// Creates an empty stream.
    pub fn new() -> (r: Empty)
        ensures
            r.remaining() == Seq::<u8>::empty(),
    {
        Empty {}
    }
}

impl PeekReadImpl for Empty {
    open spec fn remaining(&self) -> Seq<u8> {
        Seq::empty()
    }

    open spec fn wf(&self) -> bool {
        true
    }

    open spec fn idle(&self) -> bool {
        true
    }

    open spec fn infallible(&self) -> bool {
        true
    }

    open spec fn peek_off(&self, state: &PeekCursorState) -> int {
        state.peek_pos as int
    }

    open spec fn max_off(&self) -> int {
        u64::MAX as int
    }

    proof fn lemma_off_bounds(&self, state: &PeekCursorState) {
    }

    proof fn lemma_idle_off(&self, state: &PeekCursorState) {
    }

    fn peek_seek(&mut self, state: &mut PeekCursorState, pos: SeekFrom) -> (r: Result<
        u64,
        ErrorKind,
    >) {
        let target = match pos {
            SeekFrom::Start(o) => o,
            SeekFrom::Current(d) => match seek_add_clamped(state.peek_pos, d) {
                Ok(t) => t,
                Err(e) => { return Err(e); },
            },
            SeekFrom::End(d) => match seek_add_clamped(0, d) {
                Ok(t) => t,
                Err(e) => { return Err(e); },
            },
        };
        state.peek_pos = target;
        Ok(target)
    }

    fn peek_read(&mut self, state: &mut PeekCursorState, n: usize) -> (r: Result<
        Vec<u8>,
        ErrorKind,
    >) {
        Ok(Vec::new())
    }

    fn peek_fill_buf(&mut self, state: &mut PeekCursorState) -> (r: Result<Vec<u8>, ErrorKind>) {
        Ok(Vec::new())
    }

    fn peek_stream_position(&mut self, state: &mut PeekCursorState) -> (r: Result<
        u64,
        ErrorKind,
    >) {
        Ok(state.peek_pos)
    }

    fn peek_consume(&mut self, state: &mut PeekCursorState, amt: usize) {
        state.peek_pos = state.peek_pos + amt as u64;
    }

    fn peek_drop(&mut self, state: &mut PeekCursorState) {
    }
}

impl PeekRead for Empty {
    fn peek<'a>(&'a mut self) -> (r: PeekCursor<'a, Empty>) {
        PeekCursor::new(self)
    }

    fn read(&mut self, n: usize) -> (r: Result<Vec<u8>, ErrorKind>) {
        proof {
            assert(read_window(self.remaining(), n as int) =~= Seq::<u8>::empty());
        }
        Ok(Vec::new())
    }
}

/// An in-memory stream over a fixed block of bytes, with a read position.
///
/// It can serve as a source for either wrapper, and it supports peeking
/// directly: the whole content is already addressable, so peek operations
/// work on sub-ranges and the session offset lives entirely in the session
/// state.
pub struct Cursor {
    data: Vec<u8>,
    pos: u64,
}

impl Cursor {
    /// The stream's full contents.
    pub closed spec fn spec_data(&self) -> Seq<u8> {
        self.data@
    }

    /// The read position.
    pub closed spec fn spec_pos(&self) -> int {
        self.pos as int
    }

    /// Creates a stream over `data`, positioned at its start.
    pub fn new(data: Vec<u8>) -> (r: Cursor)
        ensures
            r.spec_data() == data@,
            r.spec_pos() == 0,
    {
        Cursor { data, pos: 0 }
    }

    /// Returns the full contents, giving up the stream.
    pub fn into_inner(self) -> (r: Vec<u8>)
        ensures
            r@ == self.spec_data(),
    {
        self.data
    }

    /// The current read position.
    pub fn position(&self) -> (r: u64)
        ensures
            r == self.spec_pos(),
    {
        self.pos
    }

    /// How many bytes lie between the read position and the end.
    fn ahead(&self) -> (r: u64)
        ensures
            r == avail_from(self.spec_data(), self.spec_pos()),
            r == self.remaining().len(),
            r <= self.spec_data().len() <= usize::MAX,
    {
        let len = self.data.len();
        if self.pos <= len as u64 {
            len as u64 - self.pos
        } else {
            0
        }
    }
}

impl PeekReadImpl for Cursor {
    open spec fn remaining(&self) -> Seq<u8> {
        suffix_from(self.spec_data(), self.spec_pos())
    }

    open spec fn wf(&self) -> bool {
        true
    }

    open spec fn idle(&self) -> bool {
        true
    }

    open spec fn infallible(&self) -> bool {
        true
    }

    open spec fn peek_off(&self, state: &PeekCursorState) -> int {
        state.peek_pos as int
    }

    open spec fn max_off(&self) -> int {
        u64::MAX as int
    }

    proof fn lemma_off_bounds(&self, state: &PeekCursorState) {
    }

    proof fn lemma_idle_off(&self, state: &PeekCursorState) {
    }

    fn peek_seek(&mut self, state: &mut PeekCursorState, pos: SeekFrom) -> (r: Result<
        u64,
        ErrorKind,
    >) {
        let target = match pos {
            SeekFrom::Start(o) => o,
            SeekFrom::Current(d) => match seek_add_clamped(state.peek_pos, d) {
                Ok(t) => t,
                Err(e) => { return Err(e); },
            },
            SeekFrom::End(d) => match seek_add_clamped(self.ahead(), d) {
                Ok(t) => t,
                Err(e) => { return Err(e); },
            },
        };
        state.peek_pos = target;
        Ok(target)
    }

    fn peek_read(&mut self, state: &mut PeekCursorState, n: usize) -> (r: Result<
        Vec<u8>,
        ErrorKind,
    >) {
        let avail = self.ahead();
        if state.peek_pos >= avail {
            proof {
                assert(peek_window(self.remaining(), state.peek_pos as int, n as int)
                    =~= Seq::<u8>::empty());
            }
            return Ok(Vec::new());
        }
        let left = avail - state.peek_pos;
        let cnt: u64 = if (n as u64) <= left {
            n as u64
        } else {
            left
        };
        let start = self.pos + state.peek_pos;
        let v = copy_range(&self.data, start as usize, cnt as usize);
        proof {
            assert(v@ =~= peek_window(self.remaining(), state.peek_pos as int, n as int));
        }
        state.peek_pos = state.peek_pos + cnt;
        Ok(v)
    }

    fn peek_fill_buf(&mut self, state: &mut PeekCursorState) -> (r: Result<Vec<u8>, ErrorKind>) {
        let avail = self.ahead();
        if state.peek_pos >= avail {
            return Ok(Vec::new());
        }
        let left = avail - state.peek_pos;
        let start = self.pos + state.peek_pos;
        let v = copy_range(&self.data, start as usize, left as usize);
        proof {
            assert(v@ =~= suffix_from(self.remaining(), state.peek_pos as int).take(
                v@.len() as int));
        }
        Ok(v)
    }

    fn peek_stream_position(&mut self, state: &mut PeekCursorState) -> (r: Result<
        u64,
        ErrorKind,
    >) {
        Ok(state.peek_pos)
    }

    fn peek_consume(&mut self, state: &mut PeekCursorState, amt: usize) {
        state.peek_pos = state.peek_pos + amt as u64;
    }

    fn peek_drop(&mut self, state: &mut PeekCursorState) {
    }
}

impl PeekRead for Cursor {
    fn peek<'a>(&'a mut self) -> (r: PeekCursor<'a, Cursor>) {
        PeekCursor::new(self)
    }

    fn read(&mut self, n: usize) -> (r: Result<Vec<u8>, ErrorKind>) {
        let r = ReadSource::read_upto(self, n);
        proof {
            if r is Ok {
                assert(r->Ok_0@ =~= read_window(old(self).remaining(), n as int));
            }
        }
        r
    }
}

impl ReadSource for Cursor {
    open spec fn pending(&self) -> Seq<u8> {
        suffix_from(self.spec_data(), self.spec_pos())
    }

    open spec fn src_wf(&self) -> bool {
        true
    }

    open spec fn infallible(&self) -> bool {
        true
    }

    fn read_upto(&mut self, n: usize) -> (r: Result<Vec<u8>, ErrorKind>) {
        let avail = self.ahead();
        if avail == 0 {
            return Ok(Vec::new());
        }
        let cnt: u64 = if (n as u64) <= avail {
            n as u64
        } else {
            avail
        };
        let ghost before = self.pending();
        let v = copy_range(&self.data, self.pos as usize, cnt as usize);
        self.pos = self.pos + cnt;
        proof {
            assert(ReadSource::src_wf(self));
            assert(ReadSource::infallible(self));
            assert(v@ =~= before.take(v@.len() as int));
            assert(self.pending() =~= before.skip(v@.len() as int));
        }
        Ok(v)
    }
}

impl SeekSource for Cursor {
    open spec fn content(&self) -> Seq<u8> {
        self.spec_data()
    }

    open spec fn pos(&self) -> int {
        self.spec_pos()
    }

    open spec fn seek_wf(&self) -> bool {
        true
    }

    open spec fn infallible(&self) -> bool {
        true
    }

    proof fn lemma_seek_bounds(&self) {
        vstd::std_specs::vec::axiom_spec_len(&self.data);
    }

    fn read_upto(&mut self, n: usize) -> (r: Result<Vec<u8>, ErrorKind>) {
        let avail = self.ahead();
        if avail == 0 {
            proof {
                assert(peek_window(self.content(), self.pos as int, n as int)
                    =~= Seq::<u8>::empty());
            }
            return Ok(Vec::new());
        }
        let cnt: u64 = if (n as u64) <= avail {
            n as u64
        } else {
            avail
        };
        let v = copy_range(&self.data, self.pos as usize, cnt as usize);
        proof {
            assert(v@ =~= peek_window(self.content(), self.pos as int, n as int));
        }
        self.pos = self.pos + cnt;
        Ok(v)
    }

    fn seek_to(&mut self, target: u64) -> (r: Result<u64, ErrorKind>) {
        self.pos = target;
        Ok(target)
    }

    fn seek_to_end(&mut self) -> (r: Result<u64, ErrorKind>) {
        self.pos = self.data.len() as u64;
        Ok(self.pos)
    }

    fn stream_position(&mut self) -> (r: Result<u64, ErrorKind>) {
        Ok(self.pos)
    }
}

} // verus!
