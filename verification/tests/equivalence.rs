//! Differential runs: the buffering and the seeking strategy, and the bare
//! in-memory stream, must answer identical operation sequences identically.

use peekread::{
    BufPeekReader, Cursor, ErrorKind, Op, PeekCursorState, PeekRead, PeekReadImpl, Peeker,
    SeekPeekReader, Target, TopLevelOp, assert_reseq, assert_reseq_bytes, assert_reseq_text,
    check_ops, vecs_equal,
};

fn sample_ops() -> Vec<Op> {
    vec![
        Op::FillBuff,
        Op::Read(3),
        Op::StreamPosition,
        Op::Consume(2),
        Op::ReadExact(4),
        Op::SeekCurrent(-2),
        Op::Read(5),
        Op::SeekStart(1),
        Op::ReadToString,
        Op::SeekEnd(-6),
        Op::ReadToEnd,
        Op::SeekCurrent(-1000000),
        Op::StreamPosition,
        Op::ReadExact(10000),
        Op::Read(10000),
    ]
}

fn sample_data() -> Vec<u8> {
    b"The quick brown fox jumps over the lazy dog".to_vec()
}

#[test]
fn buffering_matches_reference() {
    let mut reference = Cursor::new(sample_data());
    let mut wrapper = BufPeekReader::new(Cursor::new(sample_data()));
    let mut sr = PeekCursorState::new();
    let mut sw = PeekCursorState::new();
    assert!(check_ops(&sample_ops(), &mut reference, &mut sr, &mut wrapper, &mut sw));
}

#[test]
fn seeking_matches_reference() {
    let mut reference = Cursor::new(sample_data());
    let mut wrapper = SeekPeekReader::new(Cursor::new(sample_data()));
    let mut sr = PeekCursorState::new();
    let mut sw = PeekCursorState::new();
    assert!(check_ops(&sample_ops(), &mut reference, &mut sr, &mut wrapper, &mut sw));
}

#[test]
fn buffering_matches_seeking() {
    let mut buf = BufPeekReader::new(Cursor::new(sample_data()));
    let mut seek = SeekPeekReader::new(Cursor::new(sample_data()));
    let mut sb = PeekCursorState::new();
    let mut ss = PeekCursorState::new();
    assert!(check_ops(&sample_ops(), &mut buf, &mut sb, &mut seek, &mut ss));
}

#[test]
fn equivalence_on_empty_stream() {
    let mut buf = BufPeekReader::new(Cursor::new(Vec::new()));
    let mut seek = SeekPeekReader::new(Cursor::new(Vec::new()));
    let mut sb = PeekCursorState::new();
    let mut ss = PeekCursorState::new();
    assert!(check_ops(&sample_ops(), &mut buf, &mut sb, &mut seek, &mut ss));
}

#[test]
fn make_reasonable_shrinks_arguments() {
    match Op::Read(123456).make_reasonable() {
        Op::Read(n) => assert_eq!(n, 3456),
        _ => panic!("variant changed"),
    }
    match Op::SeekEnd(-123456).make_reasonable() {
        Op::SeekEnd(n) => assert_eq!(n, -3456),
        _ => panic!("variant changed"),
    }
    match Op::FillBuff.make_reasonable() {
        Op::FillBuff => {},
        _ => panic!("variant changed"),
    }
}

#[test]
fn reseq_comparisons() {
    assert!(assert_reseq(&Ok(3), &Ok(3)));
    assert!(!assert_reseq(&Ok(3), &Ok(4)));
    assert!(assert_reseq(&Err(ErrorKind::InvalidSeek), &Err(ErrorKind::InvalidSeek)));
    assert!(!assert_reseq(&Ok(3), &Err(ErrorKind::InvalidSeek)));
    assert!(!assert_reseq(&Err(ErrorKind::Other), &Err(ErrorKind::InvalidSeek)));
    assert!(assert_reseq_bytes(&Ok(vec![1, 2]), &Ok(vec![1, 2])));
    assert!(!assert_reseq_bytes(&Ok(vec![1, 2]), &Ok(vec![1, 3])));
    assert!(assert_reseq_text(&Ok("a".to_string()), &Ok("a".to_string())));
    assert!(!assert_reseq_text(&Ok("a".to_string()), &Err(ErrorKind::InvalidData)));
    assert!(vecs_equal(&vec![5, 6], &vec![5, 6]));
    assert!(!vecs_equal(&vec![5, 6], &vec![5, 6, 7]));
}

fn rest_of(c: &mut Cursor) -> Vec<u8> {
    let mut state = PeekCursorState::new();
    let rest = c.peek_read_to_end(&mut state).unwrap();
    c.peek_drop(&mut state);
    rest
}

fn peek_run<T: PeekRead>(wrapper: &mut T, reference: &mut Cursor, ops: &Vec<Op>) -> bool {
    let mut scratch = Cursor::new(rest_of(reference));
    let mut ss = PeekCursorState::new();
    let mut sw = PeekCursorState::new();
    let ok = check_ops(ops, &mut scratch, &mut ss, wrapper, &mut sw);
    wrapper.peek_drop(&mut sw);
    ok
}

fn main_run<T: PeekRead>(wrapper: &mut T, reference: &mut Cursor, ops: &Vec<Op>) -> bool {
    for op in ops.iter() {
        match op.make_reasonable() {
            Op::Read(n) => {
                let a = wrapper.read(n);
                let b = reference.read(n);
                if !assert_reseq_bytes(&a, &b) {
                    return false;
                }
            },
            Op::ReadExact(n) => {
                let a = wrapper.read_exact(n);
                let b = reference.read_exact(n);
                if !assert_reseq_bytes(&a, &b) {
                    return false;
                }
            },
            _ => {},
        }
    }
    true
}

/// Drives a whole differential target, as a consumer of the library would:
/// peek sessions are compared against a scratch stream over the reference's
/// remaining bytes, ordinary reads are compared pairwise, and pushed-back
/// bytes are spliced into the reference.
fn run_target(t: &Target) -> bool {
    let mut buf_reference = Cursor::new(t.refdat.clone());
    let mut seek_reference = Cursor::new(t.refdat.clone());
    let mut cursor_reference = Cursor::new(t.refdat.clone());
    let mut buf_peeked = BufPeekReader::new(Cursor::new(t.refdat.clone()));
    let mut seek_peeked = SeekPeekReader::new(Cursor::new(t.refdat.clone()));
    let mut cursor_peeked = Cursor::new(t.refdat.clone());

    for top in t.top_level_ops.iter() {
        let ok = match top {
            TopLevelOp::SeqWithPeek(ops) => match t.peeker {
                Peeker::Buf => peek_run(&mut buf_peeked, &mut buf_reference, ops),
                Peeker::Seek => peek_run(&mut seek_peeked, &mut seek_reference, ops),
                Peeker::Cursor => peek_run(&mut cursor_peeked, &mut cursor_reference, ops),
            },
            TopLevelOp::SeqWithoutPeek(ops) => match t.peeker {
                Peeker::Buf => main_run(&mut buf_peeked, &mut buf_reference, ops),
                Peeker::Seek => main_run(&mut seek_peeked, &mut seek_reference, ops),
                Peeker::Cursor => main_run(&mut cursor_peeked, &mut cursor_reference, ops),
            },
            TopLevelOp::Unread(data) => {
                buf_peeked.unread(data);
                let mut spliced = data.clone();
                spliced.extend(rest_of(&mut buf_reference));
                buf_reference = Cursor::new(spliced);
                true
            },
        };
        if !ok {
            return false;
        }
    }
    true
}

#[test]
fn target_run_buffering_with_unread() {
    let t = Target {
        refdat: b"a small stream of sample bytes".to_vec(),
        top_level_ops: vec![
            TopLevelOp::SeqWithPeek(sample_ops()),
            TopLevelOp::SeqWithoutPeek(vec![Op::Read(4), Op::ReadExact(3)]),
            TopLevelOp::Unread(b"put back".to_vec()),
            TopLevelOp::SeqWithPeek(sample_ops()),
            TopLevelOp::SeqWithoutPeek(vec![Op::ReadExact(12), Op::Read(10000)]),
        ],
        peeker: Peeker::Buf,
    };
    assert!(run_target(&t));
}

#[test]
fn target_run_seeking() {
    let t = Target {
        refdat: b"a small stream of sample bytes".to_vec(),
        top_level_ops: vec![
            TopLevelOp::SeqWithPeek(sample_ops()),
            TopLevelOp::SeqWithoutPeek(vec![Op::Read(4), Op::ReadExact(3)]),
            TopLevelOp::SeqWithPeek(vec![Op::Read(2), Op::SeekEnd(-1), Op::ReadToEnd]),
        ],
        peeker: Peeker::Seek,
    };
    assert!(run_target(&t));
}

#[test]
fn target_run_cursor() {
    let t = Target {
        refdat: b"plain cursor data".to_vec(),
        top_level_ops: vec![
            TopLevelOp::SeqWithPeek(sample_ops()),
            TopLevelOp::SeqWithoutPeek(vec![Op::ReadExact(5)]),
            TopLevelOp::SeqWithPeek(vec![Op::ReadToString]),
        ],
        peeker: Peeker::Cursor,
    };
    assert!(run_target(&t));
}
