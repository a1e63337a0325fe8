//! A differential interpreter over the peek interface.
//!
//! The two backing strategies promise the same observable behaviour: over
//! equal streams, equal operation sequences give byte-identical results and
//! identical error kinds. [`check_ops`] runs one operation sequence against
//! two peek sessions and compares every result; its contract proves that on
//! streams whose sources cannot fail the comparison never finds a
//! difference.

use vstd::prelude::*;
use crate::{ErrorKind, SeekFrom};
use crate::detail::PeekReadImpl;
use crate::detail::cursor::PeekCursorState;

verus! {

/// Which backing strategy a differential run drives.
#[derive(Clone, Copy, Debug, PartialEq, Eq, Structural)]
pub enum Peeker {
    /// The buffering wrapper.
    Buf,
    /// The seeking wrapper.
    Seek,
    /// A bare in-memory stream.
    Cursor,
}

/// One operation of a differential run: a peek-cursor method and its
/// argument.
#[derive(Clone, Copy, Debug)]
pub enum Op {
    /// Read up to this many bytes.
    Read(usize),
    /// Ask for buffered lookahead.
    FillBuff,
    /// Mark bytes of the last lookahead as peeked.
    Consume(usize),
    /// Read exactly this many bytes.
    ReadExact(usize),
    /// Read everything to the end.
    ReadToEnd,
    /// Read everything to the end as text.
    ReadToString,
    /// Seek to an absolute peek offset.
    SeekStart(u64),
    /// Seek relative to the end.
    SeekEnd(i64),
    /// Seek relative to the current peek offset.
    SeekCurrent(i64),
    /// Report the peek offset.
    StreamPosition,
}

/// Whether every argument of the operation is small, as
/// [`Op::make_reasonable`] leaves them.
pub open spec fn reasonable(op: Op) -> bool {
    match op {
        Op::Read(n) => n < 10000,
        Op::Consume(n) => n < 10000,
        Op::ReadExact(n) => n < 10000,
        Op::SeekStart(n) => n < 10000,
        Op::SeekEnd(n) => -10000 < n < 10000,
        Op::SeekCurrent(n) => -10000 < n < 10000,
        _ => true,
    }
}

impl Op {
    /// Shrinks the operation's argument to under ten thousand, so that a
    /// run of operations stays within any stream's representable range. The
    /// operation keeps its meaning: the argument is reduced to its
    /// remainder, keeping its sign.
    pub fn make_reasonable(self) -> (r: Op)
        ensures
            reasonable(r),
            match (self, r) {
                (Op::Read(a), Op::Read(b)) => b == a % 10000,
                (Op::Consume(a), Op::Consume(b)) => b == a % 10000,
                (Op::ReadExact(a), Op::ReadExact(b)) => b == a % 10000,
                (Op::SeekStart(a), Op::SeekStart(b)) => b == a % 10000,
                (Op::SeekEnd(a), Op::SeekEnd(b)) => (a - b) % 10000 == 0 && (a >= 0 ==> b >= 0)
                    && (a <= 0 ==> b <= 0),
                (Op::SeekCurrent(a), Op::SeekCurrent(b)) => (a - b) % 10000 == 0 && (a >= 0
                    ==> b >= 0) && (a <= 0 ==> b <= 0),
                (Op::FillBuff, Op::FillBuff) => true,
                (Op::ReadToEnd, Op::ReadToEnd) => true,
                (Op::ReadToString, Op::ReadToString) => true,
                (Op::StreamPosition, Op::StreamPosition) => true,
                _ => false,
            },
    {
        match self {
            Op::Read(n) => Op::Read(n % 10000),
            Op::Consume(n) => Op::Consume(n % 10000),
            Op::ReadExact(n) => Op::ReadExact(n % 10000),
            Op::SeekStart(n) => Op::SeekStart(n % 10000),
            Op::SeekEnd(n) => Op::SeekEnd(n % 10000),
            Op::SeekCurrent(n) => Op::SeekCurrent(n % 10000),
            unchanged => unchanged,
        }
    }
}

/// A sequence of operations for a differential run, either inside one peek
/// session or directly on the stream, or a pushback of bytes.
#[derive(Clone, Debug)]
pub enum TopLevelOp {
    /// Run the operations inside one peek session.
    SeqWithPeek(Vec<Op>),
    /// Run the consuming operations on the stream itself.
    SeqWithoutPeek(Vec<Op>),
    /// Push these bytes back in front of the read cursor.
    Unread(Vec<u8>),
}

/// A whole differential run: the stream contents, the operations, and the
/// strategy to hold against a bare in-memory reference.
#[derive(Clone, Debug)]
pub struct Target {
    /// The stream contents.
    pub refdat: Vec<u8>,
    /// The operations to run.
    pub top_level_ops: Vec<TopLevelOp>,
    /// The strategy under test.
    pub peeker: Peeker,
}

/// Whether both results succeeded with the same position, or failed with
/// the same error kind.
pub fn assert_reseq(x: &Result<u64, ErrorKind>, y: &Result<u64, ErrorKind>) -> (r: bool)
    ensures
        r == match (x, y) {
            (Ok(a), Ok(b)) => a == b,
            (Err(a), Err(b)) => a == b,
            _ => false,
        },
{
    match (x, y) {
        (Ok(a), Ok(b)) => *a == *b,
        (Err(a), Err(b)) => *a == *b,
        _ => false,
    }
}

/// Whether two byte vectors hold the same bytes.
pub fn vecs_equal(a: &Vec<u8>, b: &Vec<u8>) -> (r: bool)
    ensures
        r == (a@ == b@),
{
    let n = a.len();
    if n != b.len() {
        proof {
            assert(a@ != b@);
        }
        return false;
    }
    let mut i: usize = 0;
    while i < n
        invariant
            n == a@.len() == b@.len(),
            i <= n,
            forall|j: int| 0 <= j < i as int ==> a@[j] == b@[j],
        decreases n - i,
    {
        if a[i] != b[i] {
            proof {
                assert(a@[i as int] != b@[i as int]);
            }
            return false;
        }
        i = i + 1;
    }
    proof {
        assert(a@ =~= b@);
    }
    true
}

/// Whether both results succeeded with the same bytes, or failed with the
/// same error kind.
pub fn assert_reseq_bytes(x: &Result<Vec<u8>, ErrorKind>, y: &Result<Vec<u8>, ErrorKind>) -> (r:
    bool)
    ensures
        r == match (x, y) {
            (Ok(a), Ok(b)) => a@ == b@,
            (Err(a), Err(b)) => a == b,
            _ => false,
        },
{
    match (x, y) {
        (Ok(a), Ok(b)) => vecs_equal(a, b),
        (Err(a), Err(b)) => *a == *b,
        _ => false,
    }
}

/// Whether both results succeeded with the same text, or failed with the
/// same error kind.
pub fn assert_reseq_text(x: &Result<String, ErrorKind>, y: &Result<String, ErrorKind>) -> (r:
    bool)
    ensures
        r == match (x, y) {
            (Ok(a), Ok(b)) => a@ == b@,
            (Err(a), Err(b)) => a == b,
            _ => false,
        },
{
    match (x, y) {
        (Ok(a), Ok(b)) => *a == *b,
        (Err(a), Err(b)) => *a == *b,
        _ => false,
    }
}

/// Runs one operation sequence against two peek sessions and compares every
/// result, as the cross-implementation invariant demands: over the same
/// remaining bytes and the same starting offset, two wrappers whose sources
/// cannot fail answer every operation identically, so this always returns
/// true. Lookahead views are compared over their common length, since how
/// much lookahead a strategy hands out in one step is its own affair.
pub fn check_ops<T: PeekReadImpl, U: PeekReadImpl>(
    ops: &Vec<Op>,
    x: &mut T,
    sx: &mut PeekCursorState,
    y: &mut U,
    sy: &mut PeekCursorState,
) -> (r: bool)
    requires
        old(x).wf(),
        old(y).wf(),
        old(x).infallible(),
        old(y).infallible(),
        old(x).remaining() == old(y).remaining(),
        old(x).peek_off(old(sx)) == old(y).peek_off(old(sy)),
        old(x).peek_off(old(sx)) + old(x).remaining().len() + 10000 * (ops@.len() + 1)
            <= old(x).max_off(),
        old(x).peek_off(old(sx)) + old(x).remaining().len() + 10000 * (ops@.len() + 1)
            <= old(y).max_off(),
        old(x).peek_off(old(sx)) + old(x).remaining().len() + 10000 * (ops@.len() + 1)
            <= usize::MAX,
    ensures
        r == true,
        final(x).wf(),
        final(y).wf(),
        final(x).remaining() == old(x).remaining(),
        final(y).remaining() == old(y).remaining(),
        final(x).infallible(),
        final(y).infallible(),
        final(x).peek_off(final(sx)) == final(y).peek_off(final(sy)),
    {
        proof {
            x.lemma_off_bounds(sx);
            y.lemma_off_bounds(sy);
        }
        let ghost off0 = old(x).peek_off(old(sx));
        let ghost rem = old(x).remaining();
        let ghost bound = off0 + rem.len() + 10000 * (ops@.len() + 1);
        let total = ops.len();
        let mut bufsize_x: usize = 0;
        let mut bufsize_y: usize = 0;
        let mut i: usize = 0;
        while i < total
            invariant
                x.wf(),
                y.wf(),
                x.infallible(),
                y.infallible(),
                rem == old(x).remaining(),
                x.remaining() == rem,
                y.remaining() == rem,
                x.max_off() == old(x).max_off(),
                y.max_off() == old(y).max_off(),
                x.peek_off(sx) == y.peek_off(sy),
                0 <= x.peek_off(sx),
                0 <= off0,
                rem.len() <= usize::MAX,
                x.peek_off(sx) <= off0 + rem.len() + 10000 * (i as int + 1),
                bound == off0 + rem.len() + 10000 * (ops@.len() + 1),
                bound <= old(x).max_off(),
                bound <= old(y).max_off(),
                bound <= usize::MAX,
                off0 + rem.len() + 10000 * (i as int + 1) <= bound,
                total == ops@.len(),
                i <= total,
            decreases total - i,
        {
            let op = ops[i].make_reasonable();
            proof {
                assert(off0 + rem.len() + 10000 * (i as int + 2) <= bound) by (nonlinear_arith)
                    requires
                        i as int + 1 <= ops@.len(),
                        bound == off0 + rem.len() + 10000 * (ops@.len() + 1),
                ;
            }
            match op {
                Op::Read(n) => {
                    let rx = x.peek_read(sx, n);
                    let ry = y.peek_read(sy, n);
                    if let Ok(v) = &rx {
                        bufsize_x = if bufsize_x >= v.len() {
                            bufsize_x - v.len()
                        } else {
                            0
                        };
                        bufsize_y = if bufsize_y >= v.len() {
                            bufsize_y - v.len()
                        } else {
                            0
                        };
                    }
                    if !assert_reseq_bytes(&rx, &ry) {
                        return false;
                    }
                },
                Op::ReadExact(n) => {
                    let rx = x.peek_read_exact(sx, n);
                    let ry = y.peek_read_exact(sy, n);
                    if !assert_reseq_bytes(&rx, &ry) {
                        return false;
                    }
                },
                Op::ReadToEnd => {
                    let rx = x.peek_read_to_end(sx);
                    let ry = y.peek_read_to_end(sy);
                    if !assert_reseq_bytes(&rx, &ry) {
                        return false;
                    }
                    bufsize_x = 0;
                    bufsize_y = 0;
                },
                Op::ReadToString => {
                    let rx = x.peek_read_to_string(sx);
                    let ry = y.peek_read_to_string(sy);
                    if !assert_reseq_text(&rx, &ry) {
                        return false;
                    }
                    bufsize_x = 0;
                    bufsize_y = 0;
                },
                Op::SeekStart(n) => {
                    let rx = x.peek_seek(sx, SeekFrom::Start(n));
                    let ry = y.peek_seek(sy, SeekFrom::Start(n));
                    if !assert_reseq(&rx, &ry) {
                        return false;
                    }
                },
                Op::SeekEnd(n) => {
                    let rx = x.peek_seek(sx, SeekFrom::End(n));
                    let ry = y.peek_seek(sy, SeekFrom::End(n));
                    if !assert_reseq(&rx, &ry) {
                        return false;
                    }
                },
                Op::SeekCurrent(n) => {
                    let rx = x.peek_seek(sx, SeekFrom::Current(n));
                    let ry = y.peek_seek(sy, SeekFrom::Current(n));
                    if !assert_reseq(&rx, &ry) {
                        return false;
                    }
                },
                Op::StreamPosition => {
                    let rx = x.peek_stream_position(sx);
                    let ry = y.peek_stream_position(sy);
                    if !assert_reseq(&rx, &ry) {
                        return false;
                    }
                },
                Op::FillBuff => {
                    let rx = x.peek_fill_buf(sx);
                    let ry = y.peek_fill_buf(sy);
                    match (rx, ry) {
                        (Ok(vx), Ok(vy)) => {
                            bufsize_x = vx.len();
                            bufsize_y = vy.len();
                            let common = if bufsize_x <= bufsize_y {
                                bufsize_x
                            } else {
                                bufsize_y
                            };
                            let px = crate::util::copy_range(&vx, 0, common);
                            let py = crate::util::copy_range(&vy, 0, common);
                            proof {
                                assert(px@ =~= py@);
                            }
                            if !vecs_equal(&px, &py) {
                                return false;
                            }
                        },
                        _ => { return false; },
                    }
                },
                Op::Consume(n) => {
                    let m0 = if n <= bufsize_x {
                        n
                    } else {
                        bufsize_x
                    };
                    let m = if m0 <= bufsize_y {
                        m0
                    } else {
                        bufsize_y
                    };
                    x.peek_consume(sx, m);
                    y.peek_consume(sy, m);
                    bufsize_x = bufsize_x - m;
                    bufsize_y = bufsize_y - m;
                },
            }
            i = i + 1;
        }
        true
    }

} // verus!
