//! The collaborator interface a wrapped byte source must offer.
//!
//! A source hands out bytes sequentially; a seekable source additionally
//! exposes its full contents through absolute positioning. Short results are
//! reserved for the end of the stream: a request is answered with as many
//! bytes as asked for while bytes remain. A std-style source that may return
//! fewer for other reasons is adapted by a retry loop outside this crate.

use vstd::prelude::*;
use crate::ErrorKind;
use crate::detail::INTERRUPT_RETRIES;

verus! {

/// A forward-only byte source: the model is the sequence of bytes it has yet
/// to yield.
pub trait ReadSource: Sized {
    /// The bytes this source will still yield, in order.
    spec fn pending(&self) -> Seq<u8>;

    /// The source's own invariant.
    spec fn src_wf(&self) -> bool;

    /// True when this source can never fail.
    spec fn infallible(&self) -> bool;

    /// Yields the next `min(n, pending)` bytes. An empty result for a
    /// nonzero request means the stream has ended. A failing call yields
    /// nothing: the pending bytes are all still there afterwards.
    fn read_upto(&mut self, n: usize) -> (r: Result<Vec<u8>, ErrorKind>)
        requires
            old(self).src_wf(),
        ensures
            final(self).src_wf(),
            final(self).infallible() == old(self).infallible(),
            r matches Ok(v) ==> {
                &&& v@.len() == if n <= old(self).pending().len() {
                    n as int
                } else {
                    old(self).pending().len() as int
                }
                &&& v@ == old(self).pending().take(v@.len() as int)
                &&& final(self).pending() == old(self).pending().skip(v@.len() as int)
            },
            r is Err ==> final(self).pending() == old(self).pending(),
            r matches Err(e) ==> !(e is UnexpectedEof),
            old(self).infallible() ==> r is Ok,
    ;
}

/// Reads from a source as [`ReadSource::read_upto`] does, retrying a
/// bounded number of times when the source reports a transient interruption.
pub(crate) fn read_upto_retrying<R: ReadSource>(src: &mut R, n: usize) -> (r: Result<
    Vec<u8>,
    ErrorKind,
>)
    requires
        old(src).src_wf(),
    ensures
        final(src).src_wf(),
        final(src).infallible() == old(src).infallible(),
        r matches Ok(v) ==> {
            &&& v@.len() == if n <= old(src).pending().len() {
                n as int
            } else {
                old(src).pending().len() as int
            }
            &&& v@ == old(src).pending().take(v@.len() as int)
            &&& final(src).pending() == old(src).pending().skip(v@.len() as int)
        },
        r is Err ==> final(src).pending() == old(src).pending(),
        r matches Err(e) ==> !(e is UnexpectedEof),
        old(src).infallible() ==> r is Ok,
{
    let mut attempts: u64 = 0;
    loop
        invariant
            src.src_wf(),
            src.pending() == old(src).pending(),
            src.infallible() == old(src).infallible(),
            attempts <= INTERRUPT_RETRIES,
        decreases INTERRUPT_RETRIES - attempts,
    {
        match src.read_upto(n) {
            Ok(v) => { return Ok(v); },
            Err(e) => {
                if matches!(e, ErrorKind::Interrupted) && attempts < INTERRUPT_RETRIES {
                    attempts = attempts + 1;
                } else {
                    return Err(e);
                }
            },
        }
    }
}

/// A random-access byte source: the model is its full contents and the
/// current position. The position may be placed past the end; reads there
/// yield nothing.
pub trait SeekSource: Sized {
    /// The source's full contents.
    spec fn content(&self) -> Seq<u8>;

    /// The current read position within (or past) the contents.
    spec fn pos(&self) -> int;

    /// The source's own invariant.
    spec fn seek_wf(&self) -> bool;

    /// True when this source can never fail.
    spec fn infallible(&self) -> bool;

    /// Positions and contents stay within the 64-bit range.
    proof fn lemma_seek_bounds(&self)
        requires
            self.seek_wf(),
        ensures
            0 <= self.pos() <= u64::MAX,
            self.content().len() <= u64::MAX,
    ;

    /// Yields the next `min(n, what lies from the position to the end)`
    /// bytes and advances the position by as many. A failing call moves
    /// nothing.
    fn read_upto(&mut self, n: usize) -> (r: Result<Vec<u8>, ErrorKind>)
        requires
            old(self).seek_wf(),
        ensures
            final(self).seek_wf(),
            final(self).infallible() == old(self).infallible(),
            final(self).content() == old(self).content(),
            r matches Ok(v) ==> {
                &&& v@ == crate::peek_window(old(self).content(), old(self).pos(), n as int)
                &&& final(self).pos() == old(self).pos() + v@.len()
            },
            r is Err ==> final(self).pos() == old(self).pos(),
            r matches Err(e) ==> !(e is UnexpectedEof),
            old(self).infallible() ==> r is Ok,
    ;

    /// Moves the position to the absolute offset `target`, which may lie
    /// past the end. A failing call moves nothing.
    fn seek_to(&mut self, target: u64) -> (r: Result<u64, ErrorKind>)
        requires
            old(self).seek_wf(),
        ensures
            final(self).seek_wf(),
            final(self).infallible() == old(self).infallible(),
            final(self).content() == old(self).content(),
            r matches Ok(p) ==> p == target && final(self).pos() == target,
            r is Err ==> final(self).pos() == old(self).pos(),
            r matches Err(e) ==> !(e is UnexpectedEof),
            old(self).infallible() ==> r is Ok,
    ;

    /// Moves the position to the end of the contents and reports it. A
    /// failing call moves nothing.
    fn seek_to_end(&mut self) -> (r: Result<u64, ErrorKind>)
        requires
            old(self).seek_wf(),
        ensures
            final(self).seek_wf(),
            final(self).infallible() == old(self).infallible(),
            final(self).content() == old(self).content(),
            r matches Ok(p) ==> p == old(self).content().len() && final(self).pos() == old(
                self,
            ).content().len(),
            r is Err ==> final(self).pos() == old(self).pos(),
            r matches Err(e) ==> !(e is UnexpectedEof),
            old(self).infallible() ==> r is Ok,
    ;

    /// Reports the current position without moving it.
    fn stream_position(&mut self) -> (r: Result<u64, ErrorKind>)
        requires
            old(self).seek_wf(),
        ensures
            final(self).seek_wf(),
            final(self).infallible() == old(self).infallible(),
            final(self).content() == old(self).content(),
            final(self).pos() == old(self).pos(),
            r matches Ok(p) ==> p == old(self).pos(),
            r matches Err(e) ==> !(e is UnexpectedEof),
            old(self).infallible() ==> r is Ok,
    ;
}

} // verus!
