//! Peekable reading over byte streams.
//!
//! A stream wrapped in one of the readers here can be inspected ahead of its
//! read cursor: a peek session reads, seeks and checks future bytes without
//! consuming them, so the next ordinary read still sees them. Two backing
//! strategies are provided: [`BufPeekReader`] materializes looked-at bytes in
//! an elastic buffer and works over any forward-only source, while
//! [`SeekPeekReader`] uses the source's own seek support and restores the
//! position when the session ends.

use vstd::prelude::*;

mod bufreader;
mod bytes_iter;
mod detail;
mod foreign_impl;
mod ops;
mod seekreader;
mod source;
mod take;
mod util;

pub use bufreader::BufPeekReader;
pub use bytes_iter::PeekBytes;
pub use detail::PeekReadImpl;
pub use detail::cursor::{PeekCursor, PeekCursorState};
pub use foreign_impl::{Cursor, Empty};
pub use ops::{Op, Peeker, Target, TopLevelOp, assert_reseq, assert_reseq_bytes,
    assert_reseq_text, check_ops, reasonable, vecs_equal};
pub use seekreader::SeekPeekReader;
pub use source::{ReadSource, SeekSource};
pub use take::Take;
pub use util::seek_add_offset;
pub(crate) use util::matches_at;

verus! {

/// The kinds of failure a stream operation can report.
#[derive(Clone, Copy, Debug, PartialEq, Eq, Structural)]
pub enum ErrorKind {
    /// An exact-size read ended before the requested bytes were available.
    UnexpectedEof,
    /// Bytes that were required to be text were not valid UTF-8.
    InvalidData,
    /// A seek computation went below zero or above the 64-bit range.
    InvalidSeek,
    /// A transient condition; the operation may be retried.
    Interrupted,
    /// Any other failure of the underlying source.
    Other,
}

/// A seek target, relative to the start, the current position or the end of
/// the stream being seeked.
#[derive(Clone, Copy, Debug, PartialEq, Eq, Structural)]
pub enum SeekFrom {
    /// An absolute offset. For a peek cursor, `Start(0)` is the position of
    /// the read cursor at the moment the peek session began.
    Start(u64),
    /// An offset relative to the current position.
    Current(i64),
    /// An offset relative to the end of the stream.
    End(i64),
}

/// The text encoded by a byte sequence under UTF-8, or nothing when the
/// bytes are not valid UTF-8. The encoding fixes the result from the bytes
/// alone; the library leaves computing it to the standard library (see
/// `bytes_to_string`).
pub uninterp spec fn utf8_chars(bytes: Seq<u8>) -> Option<Seq<char>>;

/// The bytes of `rem` from offset `off` on; empty when `off` runs past the end.
pub open spec fn suffix_from(rem: Seq<u8>, off: int) -> Seq<u8> {
    if off <= rem.len() {
        rem.skip(off)
    } else {
        Seq::empty()
    }
}

/// How many bytes of `rem` lie at or after offset `off`.
pub open spec fn avail_from(rem: Seq<u8>, off: int) -> int {
    if off <= rem.len() {
        rem.len() - off
    } else {
        0
    }
}

/// The bytes a peek read of `n` bytes at offset `off` yields: up to `n` bytes
/// of `rem` starting at `off`, short only where the stream ends.
pub open spec fn peek_window(rem: Seq<u8>, off: int, n: int) -> Seq<u8> {
    if n <= avail_from(rem, off) {
        suffix_from(rem, off).take(n)
    } else {
        suffix_from(rem, off)
    }
}

/// The bytes a main-cursor read of `n` bytes yields: up to `n` bytes from the
/// front of `rem`.
pub open spec fn read_window(rem: Seq<u8>, n: int) -> Seq<u8> {
    peek_window(rem, 0, n)
}

/// Basic facts about a peek window: how long it is, and that it is a prefix
/// of the bytes at and after the peek offset.
pub proof fn lemma_peek_window_props(rem: Seq<u8>, off: int, n: int)
    requires
        0 <= off,
        0 <= n,
    ensures
        suffix_from(rem, off).len() == avail_from(rem, off),
        peek_window(rem, off, n).len() == if n <= avail_from(rem, off) {
            n
        } else {
            avail_from(rem, off)
        },
        peek_window(rem, off, n) == suffix_from(rem, off).take(
            peek_window(rem, off, n).len() as int,
        ),
{
    assert(peek_window(rem, off, n) =~= suffix_from(rem, off).take(
        peek_window(rem, off, n).len() as int,
    ));
}

/// `off + delta`, clamped from below at zero. A peek cursor can never move
/// before the read cursor, so seeks saturate there instead of failing.
pub open spec fn clamped_add(off: int, delta: int) -> int {
    if off + delta >= 0 {
        off + delta
    } else {
        0
    }
}

/// A peek read never disturbs the main cursor: what a main read returns is
/// determined by the remaining bytes alone, and peek operations leave those
/// unchanged, so a peek read at offset zero sees exactly what a main read of
/// the same size would return.
pub proof fn lemma_peek_at_start_matches_read(rem: Seq<u8>, n: int)
    ensures
        peek_window(rem, 0, n) == read_window(rem, n),
{
}

/// Unread bytes come back first: after pushing `data` in front of remaining
/// bytes `rest`, a read of exactly `data.len()` bytes returns `data` again.
pub proof fn lemma_unread_round_trip(data: Seq<u8>, rest: Seq<u8>)
    ensures
        read_window(data + rest, data.len() as int) == data,
{
    assert(read_window(data + rest, data.len() as int) =~= data);
}

/// A stream that supports peeking ahead of its read cursor.
///
/// Beyond ordinary reads, such a stream opens peek sessions: a
/// [`PeekCursor`] that reads and seeks ahead without consuming anything,
/// never moving before the read cursor. `peek().seek(SeekFrom::Start(0))` is
/// defined to be the read cursor's position.
pub trait PeekRead: PeekReadImpl {
    /// Opens a peek session: reading from or seeking the returned cursor
    /// does not affect the read cursor, only the peek cursor. End it with
    /// [`PeekCursor::finish`] to run the wrapper's cleanup.
    fn peek<'a>(&'a mut self) -> (r: PeekCursor<'a, Self>)
        requires
            old(self).wf(),
            old(self).idle(),
        ensures
            r.state.peek_pos == 0,
            r.inner.wf(),
            r.inner.idle(),
            r.inner.remaining() == old(self).remaining(),
            r.inner.infallible() == old(self).infallible(),
            r.inner.max_off() == old(self).max_off(),
            r.inner.peek_off(&r.state) == 0,
            *final(self) == *final(r.inner),
    ;

    /// Reads up to `n` bytes at the read cursor, consuming them; short only
    /// at the end of the stream.
    fn read(&mut self, n: usize) -> (r: Result<Vec<u8>, ErrorKind>)
        requires
            old(self).wf(),
            old(self).idle(),
        ensures
            final(self).wf(),
            final(self).idle(),
            final(self).infallible() == old(self).infallible(),
            r matches Ok(v) ==> {
                &&& v@ == read_window(old(self).remaining(), n as int)
                &&& final(self).remaining() == old(self).remaining().skip(v@.len() as int)
            },
            r is Err ==> final(self).remaining() == old(self).remaining(),
            r matches Err(e) ==> !(e is UnexpectedEof),
            old(self).infallible() ==> r is Ok,
    ;

    /// Reads exactly `n` bytes at the read cursor, or fails with
    /// [`ErrorKind::UnexpectedEof`] when the stream ends first.
    fn read_exact(&mut self, n: usize) -> (r: Result<Vec<u8>, ErrorKind>)
        requires
            old(self).wf(),
            old(self).idle(),
        ensures
            final(self).wf(),
            final(self).idle(),
            final(self).infallible() == old(self).infallible(),
            r matches Ok(v) ==> {
                &&& n <= old(self).remaining().len()
                &&& v@ == old(self).remaining().take(n as int)
                &&& final(self).remaining() == old(self).remaining().skip(n as int)
            },
            old(self).infallible() ==> (r is Ok <==> n <= old(self).remaining().len()),
            old(self).infallible() && n > old(self).remaining().len() ==> r == Err::<
                Vec<u8>,
                ErrorKind,
            >(ErrorKind::UnexpectedEof),
            r == Err::<Vec<u8>, ErrorKind>(ErrorKind::UnexpectedEof) ==> old(
                self,
            ).remaining().len() < n,
    {
        match self.read(n) {
            Ok(v) => {
                proof {
                    lemma_peek_window_props(old(self).remaining(), 0, n as int);
                }
                if v.len() < n {
                    Err(ErrorKind::UnexpectedEof)
                } else {
                    Ok(v)
                }
            },
            Err(e) => Err(e),
        }
    }

    /// Reads everything from the read cursor to the end of the stream,
    /// consuming it. Transient interruptions are retried.
    fn read_to_end(&mut self) -> (r: Result<Vec<u8>, ErrorKind>)
        requires
            old(self).wf(),
            old(self).idle(),
            old(self).remaining().len() <= usize::MAX,
        ensures
            final(self).wf(),
            final(self).idle(),
            final(self).infallible() == old(self).infallible(),
            r matches Ok(v) ==> {
                &&& v@ == old(self).remaining()
                &&& final(self).remaining() == Seq::<u8>::empty()
            },
            old(self).infallible() ==> r is Ok,
    {
        let mut out: Vec<u8> = Vec::new();
        let mut attempts: u64 = 0;
        loop
            invariant
                self.wf(),
                self.idle(),
                self.infallible() == old(self).infallible(),
                old(self).remaining().len() <= usize::MAX,
                out@ == old(self).remaining().take(out@.len() as int),
                self.remaining() == old(self).remaining().skip(out@.len() as int),
                out@.len() <= old(self).remaining().len(),
                attempts <= detail::INTERRUPT_RETRIES,
            decreases
                old(self).remaining().len() - out@.len(),
                detail::INTERRUPT_RETRIES - attempts,
        {
            match self.read(32) {
                Ok(mut v) => {
                    if v.len() == 0 {
                        proof {
                            assert(out@ =~= old(self).remaining());
                            assert(self.remaining() =~= Seq::<u8>::empty());
                        }
                        return Ok(out);
                    }
                    out.append(&mut v);
                    attempts = 0;
                    proof {
                        assert(out@ =~= old(self).remaining().take(out@.len() as int));
                        assert(self.remaining() =~= old(self).remaining().skip(
                            out@.len() as int));
                    }
                },
                Err(e) => {
                    if matches!(e, ErrorKind::Interrupted) && attempts < detail::INTERRUPT_RETRIES {
                        attempts = attempts + 1;
                    } else {
                        return Err(e);
                    }
                },
            }
        }
    }

    /// Reads everything from the read cursor to the end of the stream as
    /// text, consuming it; fails with [`ErrorKind::InvalidData`] when the
    /// bytes are not valid UTF-8, the stream being consumed either way.
    fn read_to_string(&mut self) -> (r: Result<String, ErrorKind>)
        requires
            old(self).wf(),
            old(self).idle(),
            old(self).remaining().len() <= usize::MAX,
        ensures
            final(self).wf(),
            final(self).idle(),
            final(self).infallible() == old(self).infallible(),
            r matches Ok(s) ==> utf8_chars(old(self).remaining()) == Some(s@),
            old(self).infallible() ==> (match utf8_chars(old(self).remaining()) {
                Some(cs) => r matches Ok(s) && s@ == cs,
                None => r == Err::<String, ErrorKind>(ErrorKind::InvalidData),
            }),
    {
        let v = match self.read_to_end() {
            Ok(v) => v,
            Err(e) => { return Err(e); },
        };
        crate::util::bytes_to_string(v)
    }

    /// Whether the upcoming bytes of the stream equal `bytes`, checked over
    /// a peek session and without advancing the stream.
    fn starts_with(&mut self, bytes: &[u8]) -> (r: Result<bool, ErrorKind>)
        requires
            old(self).wf(),
            old(self).idle(),
        ensures
            final(self).wf(),
            final(self).idle(),
            final(self).infallible() == old(self).infallible(),
            r matches Ok(b) ==> b == (bytes@.len() <= old(self).remaining().len() && old(
                self,
            ).remaining().take(bytes@.len() as int) == bytes@),
            old(self).infallible() ==> {
                &&& r is Ok
                &&& final(self).remaining() == old(self).remaining()
                &&& final(self).max_off() == old(self).max_off()
            },
    {
        let ghost rem0 = old(self).remaining();
        let total = bytes.len();
        let mut state = PeekCursorState::new();
        proof {
            self.lemma_idle_off(&state);
        }
        let mut i: usize = 0;
        loop
            invariant
                self.wf(),
                rem0 == old(self).remaining(),
                self.remaining() == rem0,
                self.infallible() == old(self).infallible(),
                self.max_off() == old(self).max_off(),
                self.peek_off(&state) == i as int,
                total == bytes@.len(),
                i <= total,
                i <= rem0.len(),
                rem0.take(i as int) == bytes@.take(i as int),
            decreases total - i,
        {
            if i == total {
                self.peek_drop(&mut state);
                proof {
                    assert(rem0.take(total as int) =~= bytes@);
                }
                return Ok(true);
            }
            let chunk: usize = if total - i <= 32 {
                total - i
            } else {
                32
            };
            match self.peek_read_exact(&mut state, chunk) {
                Ok(v) => {
                    if matches_at(&v, bytes, i) {
                        proof {
                            assert(v@.len() == chunk);
                            assert(v@ == bytes@.subrange(i as int, (i + chunk) as int));
                            assert forall|k: int| i <= k < i + chunk implies rem0[k]
                                == bytes@[k] by {
                                assert(rem0[k] == suffix_from(rem0, i as int).take(
                                    chunk as int,
                                )[k - i]);
                                assert(bytes@[k] == bytes@.subrange(
                                    i as int,
                                    (i + chunk) as int,
                                )[k - i]);
                            }
                            assert(rem0.take((i + chunk) as int) =~= bytes@.take(
                                (i + chunk) as int,
                            ));
                        }
                        i = i + chunk;
                    } else {
                        self.peek_drop(&mut state);
                        proof {
                            assert(!(bytes@.len() <= rem0.len() && rem0.take(bytes@.len() as int)
                                == bytes@)) by {
                                if bytes@.len() <= rem0.len() && rem0.take(bytes@.len() as int)
                                    == bytes@ {
                                    assert(rem0.skip(i as int).take(chunk as int) =~= bytes@.subrange(
                                        i as int,
                                        (i + chunk) as int,
                                    ));
                                }
                            }
                        }
                        return Ok(false);
                    }
                },
                Err(e) => {
                    self.peek_drop(&mut state);
                    if matches!(e, ErrorKind::UnexpectedEof) {
                        return Ok(false);
                    } else {
                        return Err(e);
                    }
                },
            }
        }
    }

    /// Hands the stream to a byte-wise lookahead walk. See [`PeekBytes`].
    fn peek_bytes(self) -> (r: PeekBytes<Self>)
        requires
            self.wf(),
            self.idle(),
            self.remaining().len() <= usize::MAX,
        ensures
            r.wf(),
            r.stream() == self.remaining(),
            r.off() == 0,
            r.infallible() == self.infallible(),
    {
        PeekBytes::new(self)
    }

    /// Consumes `bytes` from the stream when they are next up, leaving the
    /// stream unchanged otherwise; reports whether they were found and
    /// removed.
    fn consume_prefix(&mut self, bytes: &[u8]) -> (r: Result<bool, ErrorKind>)
        requires
            old(self).wf(),
            old(self).idle(),
        ensures
            final(self).wf(),
            final(self).idle(),
            final(self).infallible() == old(self).infallible(),
            r matches Ok(b) ==> b == (bytes@.len() <= old(self).remaining().len() && old(
                self,
            ).remaining().take(bytes@.len() as int) == bytes@),
            old(self).infallible() ==> {
                let found = bytes@.len() <= old(self).remaining().len() && old(
                    self,
                ).remaining().take(bytes@.len() as int) == bytes@;
                &&& r == Ok::<bool, ErrorKind>(found)
                &&& (found ==> final(self).remaining() == old(self).remaining().skip(
                    bytes@.len() as int,
                ))
                &&& (!found ==> final(self).remaining() == old(self).remaining())
            },
    {
        match self.starts_with(bytes) {
            Ok(true) => {
                match self.read_exact(bytes.len()) {
                    Ok(_) => Ok(true),
                    Err(e) => Err(e),
                }
            },
            Ok(false) => Ok(false),
            Err(e) => Err(e),
        }
    }
}

} // verus!

