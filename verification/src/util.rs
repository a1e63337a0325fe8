//! Offset arithmetic and byte-block helpers shared by the stream wrappers.

use vstd::prelude::*;
use crate::ErrorKind;

verus! {

/// Relies on `String::from_utf8`: decodes the bytes that are valid UTF-8
/// into the text they encode, and fails exactly on those that are not.
#[verifier::external_body]
pub(crate) fn bytes_to_string(v: Vec<u8>) -> (r: Result<String, ErrorKind>)
    ensures
        match crate::utf8_chars(v@) {
            Some(cs) => r matches Ok(s) && s@ == cs,
            None => r == Err::<String, ErrorKind>(ErrorKind::InvalidData),
        },
{
    match String::from_utf8(v) {
        Ok(s) => Ok(s),
        Err(_) => Err(ErrorKind::InvalidData),
    }
}

/// Whether `v` holds exactly the bytes of `pat` from `at` on, `v.len()` of
/// them.
pub(crate) fn matches_at(v: &Vec<u8>, pat: &[u8], at: usize) -> (r: bool)
    requires
        at + v@.len() <= pat@.len(),
    ensures
        r == (v@ == pat@.subrange(at as int, at as int + v@.len())),
{
    let n = v.len();
    let plen = pat.len();
    let mut j: usize = 0;
    while j < n
        invariant
            n == v@.len(),
            plen == pat@.len(),
            at + n <= plen,
            j <= n,
            v@.take(j as int) == pat@.subrange(at as int, at as int + j as int),
        decreases n - j,
    {
        if v[j] != pat[at + j] {
            proof {
                assert(v@[j as int] != pat@.subrange(at as int, at as int + n as int)[j as int]);
            }
            return false;
        }
        j = j + 1;
        proof {
            assert(v@.take(j as int) =~= pat@.subrange(at as int, at as int + j as int));
        }
    }
    proof {
        assert(v@ =~= pat@.subrange(at as int, at as int + n as int));
    }
    true
}

/// Copies `count` bytes of `v` starting at `start` into a fresh vector.
pub(crate) fn copy_range(v: &Vec<u8>, start: usize, count: usize) -> (r: Vec<u8>)
    requires
        start + count <= v@.len(),
    ensures
        r@ == v@.subrange(start as int, start as int + count as int),
{
    let vlen = v.len();
    let mut out: Vec<u8> = Vec::new();
    let mut i: usize = 0;
    while i < count
        invariant
            start + count <= vlen,
            vlen == v@.len(),
            i <= count,
            out@ == v@.subrange(start as int, start as int + i as int),
        decreases count - i,
    {
        out.push(v[start + i]);
        i = i + 1;
        proof {
            assert(out@ =~= v@.subrange(start as int, start as int + i as int));
        }
    }
    out
}

/// Adds a signed offset to a peek-cursor offset, clamping at zero.
///
/// A peek cursor may never move before the read cursor, so a target below
/// zero lands on zero instead of failing; only 64-bit overflow is an error.
pub(crate) fn seek_add_clamped(current: u64, offset: i64) -> (r: Result<u64, ErrorKind>)
    ensures
        current + offset <= u64::MAX ==> r == Ok::<u64, ErrorKind>(
            crate::clamped_add(current as int, offset as int) as u64,
        ),
        current + offset > u64::MAX ==> r == Err::<u64, ErrorKind>(ErrorKind::InvalidSeek),
{
    if offset >= 0 {
        let delta = offset as u64;
        if current <= u64::MAX - delta {
            Ok(current + delta)
        } else {
            Err(ErrorKind::InvalidSeek)
        }
    } else if offset == i64::MIN {
        if current >= 9223372036854775808u64 {
            Ok(current - 9223372036854775808u64)
        } else {
            Ok(0)
        }
    } else {
        let magnitude = (-offset) as u64;
        if current >= magnitude {
            Ok(current - magnitude)
        } else {
            Ok(0)
        }
    }
}

/// Adds a signed offset to an unsigned stream position.
///
/// Fails with [`ErrorKind::InvalidSeek`] when the mathematical result would
/// be negative or would not fit in 64 bits.
pub fn seek_add_offset(current: u64, offset: i64) -> (r: Result<u64, ErrorKind>)
    ensures
        0 <= current + offset <= u64::MAX ==> r == Ok::<u64, ErrorKind>((current + offset) as u64),
        current + offset < 0 ==> r == Err::<u64, ErrorKind>(ErrorKind::InvalidSeek),
        current + offset > u64::MAX ==> r == Err::<u64, ErrorKind>(ErrorKind::InvalidSeek),
{
    if offset >= 0 {
        let delta = offset as u64;
        if current <= u64::MAX - delta {
            Ok(current + delta)
        } else {
            Err(ErrorKind::InvalidSeek)
        }
    } else {
        // The magnitude of i64::MIN does not fit in i64, so it is written
        // out rather than negated.
        let magnitude = if offset == i64::MIN {
            9223372036854775808u64
        } else {
            (-offset) as u64
        };
        if current >= magnitude {
            Ok(current - magnitude)
        } else {
            Err(ErrorKind::InvalidSeek)
        }
    }
}

} // verus!
