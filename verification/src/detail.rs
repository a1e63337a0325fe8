//! The contract every peeking stream wrapper implements.

pub mod cursor;

use vstd::prelude::*;
use crate::{ErrorKind, SeekFrom, avail_from, clamped_add, peek_window, suffix_from, utf8_chars};
use crate::util::bytes_to_string;
use cursor::PeekCursorState;

verus! {

/// How often a transient interruption from the source is retried before the
/// signal is passed to the caller after all.
pub const INTERRUPT_RETRIES: u64 = 64;

/// The primitive operations a stream wrapper provides to support peeking,
/// together with the model they are specified against.
///
/// A wrapper models the stream as the sequence of bytes still ahead of its
/// read cursor, [`Self::remaining`]. A peek session is a
/// [`PeekCursorState`] value threaded through every call; the session's
/// position within `remaining` is [`Self::peek_off`]. The central promise of
/// every peek primitive is that `remaining` is left untouched: peeking is
/// side-effect-free on the read cursor.
pub trait PeekReadImpl: Sized {
    /// The bytes still ahead of the read cursor. During a peek session this
    /// is measured from where the read cursor stood when the session began.
    spec fn remaining(&self) -> Seq<u8>;

    /// The wrapper's internal invariant.
    spec fn wf(&self) -> bool;

    /// True when no peek session is open, so ordinary reads may proceed.
    spec fn idle(&self) -> bool;

    /// True when the underlying source can never fail; all peek operations
    /// on such a wrapper succeed (except seeks past the 64-bit range).
    spec fn infallible(&self) -> bool;

    /// The peek cursor's offset relative to the read cursor.
    spec fn peek_off(&self, state: &PeekCursorState) -> int;

    /// The largest offset the peek cursor can represent; seeks beyond it
    /// fail with [`ErrorKind::InvalidSeek`].
    spec fn max_off(&self) -> int;

    /// The peek offset is never negative and always representable.
    proof fn lemma_off_bounds(&self, state: &PeekCursorState)
        requires
            self.wf(),
        ensures
            0 <= self.peek_off(state) <= self.max_off() <= u64::MAX,
    ;

    /// A fresh session starts at the read cursor: with no session open and a
    /// zeroed state, the peek offset is zero.
    proof fn lemma_idle_off(&self, state: &PeekCursorState)
        requires
            self.wf(),
            self.idle(),
            state.peek_pos == 0,
        ensures
            self.peek_off(state) == 0,
    ;

    /// Moves the peek cursor. `Start(0)` is the read cursor's position;
    /// targets before it clamp to it, and targets beyond the representable
    /// range fail with [`ErrorKind::InvalidSeek`]. Seeking past the end of
    /// the stream is allowed; reads there simply return nothing.
    fn peek_seek(&mut self, state: &mut PeekCursorState, pos: SeekFrom) -> (r: Result<
        u64,
        ErrorKind,
    >)
        requires
            old(self).wf(),
            pos is End ==> old(self).remaining().len() <= usize::MAX,
        ensures
            final(self).wf(),
            final(self).remaining() == old(self).remaining(),
            final(self).infallible() == old(self).infallible(),
            final(self).max_off() == old(self).max_off(),
            ({
                let target = match pos {
                    SeekFrom::Start(o) => o as int,
                    SeekFrom::Current(d) => clamped_add(
                        old(self).peek_off(old(state)),
                        d as int,
                    ),
                    SeekFrom::End(d) => clamped_add(
                        old(self).remaining().len() as int,
                        d as int,
                    ),
                };
                &&& (r matches Ok(p) ==> final(self).peek_off(final(state)) == target && p
                    == target)
                &&& (old(self).infallible() ==> (if target <= old(self).max_off() {
                    r is Ok
                } else {
                    &&& r == Err::<u64, ErrorKind>(ErrorKind::InvalidSeek)
                    &&& final(self).peek_off(final(state)) == old(self).peek_off(old(state))
                }))
            }),
    ;

    /// Reads up to `n` bytes at the peek cursor and advances it by the bytes
    /// returned. The result is short only where the stream ends.
    fn peek_read(&mut self, state: &mut PeekCursorState, n: usize) -> (r: Result<
        Vec<u8>,
        ErrorKind,
    >)
        requires
            old(self).wf(),
            old(self).peek_off(old(state)) + n <= usize::MAX,
        ensures
            final(self).wf(),
            final(self).remaining() == old(self).remaining(),
            final(self).infallible() == old(self).infallible(),
            final(self).max_off() == old(self).max_off(),
            r matches Ok(v) ==> {
                &&& v@ == peek_window(
                    old(self).remaining(),
                    old(self).peek_off(old(state)),
                    n as int,
                )
                &&& final(self).peek_off(final(state)) == old(self).peek_off(old(state))
                    + v@.len()
            },
            r is Err ==> final(self).peek_off(final(state)) == old(self).peek_off(old(state)),
            r matches Err(e) ==> !(e is UnexpectedEof),
            old(self).infallible() ==> r is Ok,
    ;

    /// Returns buffered lookahead at the peek cursor without advancing it:
    /// at least one byte unless the stream has ended there, in which case
    /// the result is empty.
    fn peek_fill_buf(&mut self, state: &mut PeekCursorState) -> (r: Result<Vec<u8>, ErrorKind>)
        requires
            old(self).wf(),
            old(self).peek_off(old(state)) < usize::MAX,
        ensures
            final(self).wf(),
            final(self).remaining() == old(self).remaining(),
            final(self).infallible() == old(self).infallible(),
            final(self).max_off() == old(self).max_off(),
            r matches Ok(v) ==> {
                &&& v@.len() <= avail_from(
                    old(self).remaining(),
                    old(self).peek_off(old(state)),
                )
                &&& v@ == suffix_from(
                    old(self).remaining(),
                    old(self).peek_off(old(state)),
                ).take(v@.len() as int)
                &&& (v@.len() == 0 <==> avail_from(
                    old(self).remaining(),
                    old(self).peek_off(old(state)),
                ) == 0)
                &&& final(self).peek_off(final(state)) == old(self).peek_off(old(state))
            },
            old(self).infallible() ==> r is Ok,
    ;

    /// Advances the peek cursor by `amt`, marking that many bytes of the
    /// last fill view as peeked. Best-effort: a wrapper whose source fails
    /// while repositioning leaves the cursor where it was.
    fn peek_consume(&mut self, state: &mut PeekCursorState, amt: usize)
        requires
            old(self).wf(),
            old(self).peek_off(old(state)) + amt <= u64::MAX,
        ensures
            final(self).wf(),
            final(self).remaining() == old(self).remaining(),
            final(self).infallible() == old(self).infallible(),
            final(self).max_off() == old(self).max_off(),
            final(self).peek_off(final(state)) == old(self).peek_off(old(state)) + amt
                || final(self).peek_off(final(state)) == old(self).peek_off(old(state)),
            old(self).infallible() && old(self).peek_off(old(state)) + amt <= old(
                self,
            ).max_off() ==> final(self).peek_off(final(state)) == old(self).peek_off(old(state))
                + amt,
    ;

    /// Ends the peek session: runs whatever cleanup the wrapper needs, such
    /// as restoring the source's native position for a seeking wrapper. With
    /// a source that can fail, a failed restore is swallowed and the read
    /// cursor may be left moved; this mirrors the stream's best-effort
    /// cleanup and is the one operation that may disturb `remaining`.
    fn peek_drop(&mut self, state: &mut PeekCursorState)
        requires
            old(self).wf(),
        ensures
            final(self).wf(),
            final(self).idle(),
            final(self).infallible() == old(self).infallible(),
            old(self).infallible() ==> {
                &&& final(self).remaining() == old(self).remaining()
                &&& final(self).max_off() == old(self).max_off()
            },
    ;

    /// Reports the peek cursor's position: its offset from the read cursor.
    fn peek_stream_position(&mut self, state: &mut PeekCursorState) -> (r: Result<
        u64,
        ErrorKind,
    >)
        requires
            old(self).wf(),
        ensures
            final(self).wf(),
            final(self).remaining() == old(self).remaining(),
            final(self).infallible() == old(self).infallible(),
            final(self).max_off() == old(self).max_off(),
            final(self).peek_off(final(state)) == old(self).peek_off(old(state)),
            r matches Ok(p) ==> p == old(self).peek_off(old(state)),
            r matches Err(e) ==> !(e is UnexpectedEof),
            old(self).infallible() ==> r is Ok,
    ;

    /// Reads exactly `n` bytes at the peek cursor, or fails with
    /// [`ErrorKind::UnexpectedEof`] when the stream ends first. Transient
    /// interruptions are retried.
    fn peek_read_exact(&mut self, state: &mut PeekCursorState, n: usize) -> (r: Result<
        Vec<u8>,
        ErrorKind,
    >)
        requires
            old(self).wf(),
            old(self).peek_off(old(state)) + n <= usize::MAX,
        ensures
            final(self).wf(),
            final(self).remaining() == old(self).remaining(),
            final(self).infallible() == old(self).infallible(),
            final(self).max_off() == old(self).max_off(),
            r matches Ok(v) ==> {
                &&& n <= avail_from(old(self).remaining(), old(self).peek_off(old(state)))
                &&& v@ == suffix_from(
                    old(self).remaining(),
                    old(self).peek_off(old(state)),
                ).take(n as int)
                &&& final(self).peek_off(final(state)) == old(self).peek_off(old(state)) + n
            },
            old(self).infallible() ==> (r is Ok <==> n <= avail_from(
                old(self).remaining(),
                old(self).peek_off(old(state)),
            )),
            old(self).infallible() && n > avail_from(
                old(self).remaining(),
                old(self).peek_off(old(state)),
            ) ==> r == Err::<Vec<u8>, ErrorKind>(ErrorKind::UnexpectedEof),
            r == Err::<Vec<u8>, ErrorKind>(ErrorKind::UnexpectedEof) ==> avail_from(
                old(self).remaining(),
                old(self).peek_off(old(state)),
            ) < n && final(self).peek_off(final(state)) == old(self).peek_off(old(state))
                + avail_from(old(self).remaining(), old(self).peek_off(old(state))),
            r matches Err(e) ==> (e is UnexpectedEof || final(self).peek_off(final(state))
                == old(self).peek_off(old(state))),
    {
        proof {
            self.lemma_off_bounds(state);
        }
        let mut attempts: u64 = 0;
        loop
            invariant
                self.wf(),
                self.remaining() == old(self).remaining(),
                self.infallible() == old(self).infallible(),
                self.max_off() == old(self).max_off(),
                self.peek_off(state) == old(self).peek_off(old(state)),
                0 <= old(self).peek_off(old(state)),
                old(self).peek_off(old(state)) + n <= usize::MAX,
                attempts <= INTERRUPT_RETRIES,
            decreases INTERRUPT_RETRIES - attempts,
        {
            match self.peek_read(state, n) {
                Ok(v) => {
                    proof {
                        crate::lemma_peek_window_props(
                            old(self).remaining(),
                            old(self).peek_off(old(state)),
                            n as int,
                        );
                    }
                    if v.len() < n {
                        return Err(ErrorKind::UnexpectedEof);
                    }
                    proof {
                        assert(v@ =~= suffix_from(
                            old(self).remaining(),
                            old(self).peek_off(old(state)),
                        ).take(n as int));
                    }
                    return Ok(v);
                },
                Err(e) => {
                    if matches!(e, ErrorKind::Interrupted) && attempts < INTERRUPT_RETRIES {
                        attempts = attempts + 1;
                    } else {
                        return Err(e);
                    }
                },
            }
        }
    }

    /// Reads all bytes from the peek cursor to the end of the stream,
    /// advancing the cursor past them. Transient interruptions are retried.
    fn peek_read_to_end(&mut self, state: &mut PeekCursorState) -> (r: Result<Vec<u8>, ErrorKind>)
        requires
            old(self).wf(),
            old(self).remaining().len() <= usize::MAX,
        ensures
            final(self).wf(),
            final(self).remaining() == old(self).remaining(),
            final(self).infallible() == old(self).infallible(),
            final(self).max_off() == old(self).max_off(),
            r matches Ok(v) ==> {
                &&& v@ == suffix_from(old(self).remaining(), old(self).peek_off(old(state)))
                &&& final(self).peek_off(final(state)) == old(self).peek_off(old(state))
                    + v@.len()
            },
            old(self).infallible() ==> r is Ok,
    {
        proof {
            self.lemma_off_bounds(state);
        }
        let mut p = match self.peek_stream_position(state) {
            Ok(p) => p,
            Err(e) => { return Err(e); },
        };
        let ghost off0 = old(self).peek_off(old(state));
        let mut out: Vec<u8> = Vec::new();
        let mut attempts: u64 = 0;
        loop
            invariant
                self.wf(),
                self.remaining() == old(self).remaining(),
                self.infallible() == old(self).infallible(),
                self.max_off() == old(self).max_off(),
                old(self).remaining().len() <= usize::MAX,
                off0 == old(self).peek_off(old(state)),
                0 <= off0 <= u64::MAX,
                self.peek_off(state) == off0 + out@.len(),
                p == off0 + out@.len(),
                out@ == suffix_from(old(self).remaining(), off0).take(out@.len() as int),
                out@.len() <= avail_from(old(self).remaining(), off0),
                attempts <= INTERRUPT_RETRIES,
            decreases
                avail_from(old(self).remaining(), off0) - out@.len(),
                INTERRUPT_RETRIES - attempts,
        {
            let chunk: usize = if p >= usize::MAX as u64 {
                0
            } else if (usize::MAX as u64) - p < 32 {
                ((usize::MAX as u64) - p) as usize
            } else {
                32
            };
            if chunk == 0 {
                proof {
                    assert(out@ =~= suffix_from(old(self).remaining(), off0));
                }
                return Ok(out);
            }
            match self.peek_read(state, chunk) {
                Ok(mut v) => {
                    if v.len() == 0 {
                        proof {
                            assert(out@ =~= suffix_from(old(self).remaining(), off0));
                        }
                        return Ok(out);
                    }
                    let got = v.len();
                    out.append(&mut v);
                    p = p + got as u64;
                    attempts = 0;
                    proof {
                        assert(out@ =~= suffix_from(old(self).remaining(), off0).take(
                            out@.len() as int));
                    }
                },
                Err(e) => {
                    if matches!(e, ErrorKind::Interrupted) && attempts < INTERRUPT_RETRIES {
                        attempts = attempts + 1;
                    } else {
                        return Err(e);
                    }
                },
            }
        }
    }

    /// Reads all bytes from the peek cursor to the end of the stream as
    /// text, failing with [`ErrorKind::InvalidData`] when they are not valid
    /// UTF-8. Transient interruptions are retried.
    fn peek_read_to_string(&mut self, state: &mut PeekCursorState) -> (r: Result<
        String,
        ErrorKind,
    >)
        requires
            old(self).wf(),
            old(self).remaining().len() <= usize::MAX,
        ensures
            final(self).wf(),
            final(self).remaining() == old(self).remaining(),
            final(self).infallible() == old(self).infallible(),
            final(self).max_off() == old(self).max_off(),
            r matches Ok(s) ==> {
                &&& utf8_chars(
                    suffix_from(old(self).remaining(), old(self).peek_off(old(state))),
                ) == Some(s@)
                &&& final(self).peek_off(final(state)) == old(self).peek_off(old(state))
                    + avail_from(old(self).remaining(), old(self).peek_off(old(state)))
            },
            old(self).infallible() ==> (match utf8_chars(
                suffix_from(old(self).remaining(), old(self).peek_off(old(state))),
            ) {
                Some(cs) => r matches Ok(s) && s@ == cs,
                None => r == Err::<String, ErrorKind>(ErrorKind::InvalidData),
            }),
            old(self).infallible() ==> final(self).peek_off(final(state)) == old(self).peek_off(
                old(state),
            ) + avail_from(old(self).remaining(), old(self).peek_off(old(state))),
    {
        proof {
            self.lemma_off_bounds(state);
            crate::lemma_peek_window_props(
                self.remaining(),
                self.peek_off(state),
                0,
            );
        }
        let v = match self.peek_read_to_end(state) {
            Ok(v) => v,
            Err(e) => { return Err(e); },
        };
        bytes_to_string(v)
    }
}

} // verus!
