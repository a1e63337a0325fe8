use peekread::{
    BufPeekReader, Cursor, Empty, ErrorKind, PeekBytes, PeekRead, SeekFrom, SeekPeekReader,
    Take, seek_add_offset,
};

#[test]
fn hello_world_scenario_buffering() {
    let mut r = BufPeekReader::new(Cursor::new(b"hello world".to_vec()));
    let mut p = r.peek();
    let view = p.fill_buf().unwrap();
    assert!(view.len() >= 1);
    assert_eq!(view[0], b'h');
    p.consume(6);
    let rest = p.read(100).unwrap();
    assert_eq!(rest, b"world".to_vec());
    p.finish();
    let main = r.read(100).unwrap();
    assert_eq!(main, b"hello world".to_vec());
}

#[test]
fn hello_world_scenario_seeking() {
    let mut r = SeekPeekReader::new(Cursor::new(b"hello world".to_vec()));
    let mut p = r.peek();
    let view = p.fill_buf().unwrap();
    assert!(view.len() >= 1);
    assert_eq!(view[0], b'h');
    p.consume(6);
    let rest = p.read(100).unwrap();
    assert_eq!(rest, b"world".to_vec());
    p.finish();
    let main = r.read(100).unwrap();
    assert_eq!(main, b"hello world".to_vec());
}

#[test]
fn hello_world_scenario_cursor() {
    let mut r = Cursor::new(b"hello world".to_vec());
    let mut p = r.peek();
    let view = p.fill_buf().unwrap();
    assert_eq!(view, b"hello world".to_vec());
    p.consume(6);
    let rest = p.read(100).unwrap();
    assert_eq!(rest, b"world".to_vec());
    p.finish();
    let main = r.read(100).unwrap();
    assert_eq!(main, b"hello world".to_vec());
}

#[test]
fn empty_stream_peek_reads_nothing() {
    let mut r = Empty::new();
    let mut p = r.peek();
    let v = p.read(10).unwrap();
    assert_eq!(v.len(), 0);
    let pos = p.seek(SeekFrom::End(0)).unwrap();
    assert_eq!(pos, 0);
    p.finish();

    let mut b = BufPeekReader::new(Cursor::new(Vec::new()));
    let mut p = b.peek();
    assert_eq!(p.read(10).unwrap().len(), 0);
    assert_eq!(p.seek(SeekFrom::End(0)).unwrap(), 0);
    p.finish();

    let mut s = SeekPeekReader::new(Cursor::new(Vec::new()));
    let mut p = s.peek();
    assert_eq!(p.read(10).unwrap().len(), 0);
    assert_eq!(p.seek(SeekFrom::End(0)).unwrap(), 0);
    p.finish();
}

#[test]
fn starts_with_gif_signature() {
    let mut r = BufPeekReader::new(Cursor::new(b"GIF89a rest of the image".to_vec()));
    assert_eq!(r.starts_with(b"GIF89a").unwrap(), true);
    // The main cursor is untouched by the check.
    let main = r.read(6).unwrap();
    assert_eq!(main, b"GIF89a".to_vec());
}

#[test]
fn consume_prefix_advances_main_cursor() {
    let mut r = SeekPeekReader::new(Cursor::new(b"GIF89a rest of the image".to_vec()));
    assert_eq!(r.starts_with(b"GIF89a").unwrap(), true);
    assert_eq!(r.consume_prefix(b"GIF89a").unwrap(), true);
    let main = r.read(5).unwrap();
    assert_eq!(main, b" rest".to_vec());
}

#[test]
fn consume_prefix_leaves_stream_on_mismatch() {
    let mut r = BufPeekReader::new(Cursor::new(b"PNG data".to_vec()));
    assert_eq!(r.starts_with(b"GIF89a").unwrap(), false);
    assert_eq!(r.consume_prefix(b"GIF89a").unwrap(), false);
    let main = r.read(8).unwrap();
    assert_eq!(main, b"PNG data".to_vec());
}

#[test]
fn starts_with_longer_than_stream_is_false() {
    let mut r = BufPeekReader::new(Cursor::new(b"GIF".to_vec()));
    assert_eq!(r.starts_with(b"GIF89a").unwrap(), false);
    assert_eq!(r.read(3).unwrap(), b"GIF".to_vec());
}

#[test]
fn seek_current_clamps_at_read_cursor() {
    let mut r = BufPeekReader::new(Cursor::new(b"0123456789".to_vec()));
    let mut p = r.peek();
    assert_eq!(p.seek(SeekFrom::Start(5)).unwrap(), 5);
    assert_eq!(p.seek(SeekFrom::Current(-1000000)).unwrap(), 0);
    assert_eq!(p.stream_position().unwrap(), 0);
    p.finish();

    let mut s = SeekPeekReader::new(Cursor::new(b"0123456789".to_vec()));
    let mut p = s.peek();
    assert_eq!(p.seek(SeekFrom::Start(5)).unwrap(), 5);
    assert_eq!(p.seek(SeekFrom::Current(-1000000)).unwrap(), 0);
    assert_eq!(p.stream_position().unwrap(), 0);
    p.finish();
}

#[test]
fn stream_position_follows_seek_start() {
    let mut r = SeekPeekReader::new(Cursor::new(b"0123456789".to_vec()));
    let mut p = r.peek();
    for k in [0u64, 3, 7, 10] {
        assert_eq!(p.seek(SeekFrom::Start(k)).unwrap(), k);
        assert_eq!(p.stream_position().unwrap(), k);
    }
    p.finish();
}

#[test]
fn peek_at_start_matches_main_read() {
    let mut r = BufPeekReader::new(Cursor::new(b"abcdef".to_vec()));
    let mut p = r.peek();
    assert_eq!(p.seek(SeekFrom::Start(0)).unwrap(), 0);
    let ahead = p.read(3).unwrap();
    p.finish();
    let main = r.read(3).unwrap();
    assert_eq!(ahead, main);
}

#[test]
fn unread_round_trip() {
    let mut r = BufPeekReader::new(Cursor::new(b"stream".to_vec()));
    r.unread(b"abc");
    assert_eq!(r.read(3).unwrap(), b"abc".to_vec());
    assert_eq!(r.read(6).unwrap(), b"stream".to_vec());
}

#[test]
fn unread_after_partial_read() {
    let mut r = BufPeekReader::new(Cursor::new(b"hello world".to_vec()));
    let first = r.read(6).unwrap();
    assert_eq!(first, b"hello ".to_vec());
    r.unread(&first);
    assert_eq!(r.read(11).unwrap(), b"hello world".to_vec());
}

#[test]
fn peeking_is_side_effect_free() {
    let mut r = SeekPeekReader::new(Cursor::new(b"untouched by peeking".to_vec()));
    let mut p = r.peek();
    let _ = p.read(5).unwrap();
    let _ = p.seek(SeekFrom::End(-3)).unwrap();
    let _ = p.read(3).unwrap();
    let _ = p.fill_buf().unwrap();
    p.consume(2);
    let _ = p.read_to_end().unwrap();
    p.finish();
    assert_eq!(r.read(100).unwrap(), b"untouched by peeking".to_vec());
}

#[test]
fn peek_read_exact_eof() {
    let mut r = BufPeekReader::new(Cursor::new(b"abc".to_vec()));
    let mut p = r.peek();
    assert_eq!(p.read_exact(4), Err(ErrorKind::UnexpectedEof));
    p.finish();
    let mut p = r.peek();
    assert_eq!(p.read_exact(3).unwrap(), b"abc".to_vec());
    p.finish();
}

#[test]
fn main_read_exact_eof() {
    let mut r = SeekPeekReader::new(Cursor::new(b"abc".to_vec()));
    assert_eq!(r.read_exact(4), Err(ErrorKind::UnexpectedEof));
}

#[test]
fn read_to_string_valid_utf8() {
    let mut r = BufPeekReader::new(Cursor::new("h\u{00e9}llo w\u{00f6}rld".as_bytes().to_vec()));
    let mut p = r.peek();
    assert_eq!(p.read_to_string().unwrap(), "h\u{00e9}llo w\u{00f6}rld".to_string());
    p.finish();
}

#[test]
fn read_to_string_invalid_utf8() {
    let mut r = BufPeekReader::new(Cursor::new(vec![b'a', 0xff, 0xfe]));
    let mut p = r.peek();
    assert_eq!(p.read_to_string(), Err(ErrorKind::InvalidData));
    p.finish();
}

#[test]
fn seek_overflow_is_invalid_seek() {
    let mut r = BufPeekReader::new(Cursor::new(b"abc".to_vec()));
    let mut p = r.peek();
    assert_eq!(p.seek(SeekFrom::Start(u64::MAX)).unwrap(), u64::MAX);
    assert_eq!(p.seek(SeekFrom::Current(1)), Err(ErrorKind::InvalidSeek));
    p.finish();
}

#[test]
fn seek_past_end_reads_nothing() {
    let mut r = BufPeekReader::new(Cursor::new(b"abc".to_vec()));
    let mut p = r.peek();
    assert_eq!(p.seek(SeekFrom::Start(10)).unwrap(), 10);
    assert_eq!(p.read(5).unwrap().len(), 0);
    assert_eq!(p.fill_buf().unwrap().len(), 0);
    p.finish();
}

#[test]
fn seek_from_end() {
    let mut r = BufPeekReader::new(Cursor::new(b"0123456789".to_vec()));
    let mut p = r.peek();
    assert_eq!(p.seek(SeekFrom::End(0)).unwrap(), 10);
    assert_eq!(p.seek(SeekFrom::End(-4)).unwrap(), 6);
    assert_eq!(p.read(2).unwrap(), b"67".to_vec());
    assert_eq!(p.seek(SeekFrom::End(-1000)).unwrap(), 0);
    p.finish();
}

#[test]
fn seek_add_offset_values() {
    assert_eq!(seek_add_offset(5, -3), Ok(2));
    assert_eq!(seek_add_offset(5, 3), Ok(8));
    assert_eq!(seek_add_offset(5, -6), Err(ErrorKind::InvalidSeek));
    assert_eq!(seek_add_offset(u64::MAX, 1), Err(ErrorKind::InvalidSeek));
    assert_eq!(seek_add_offset(0, i64::MIN), Err(ErrorKind::InvalidSeek));
    assert_eq!(seek_add_offset(9223372036854775808, i64::MIN), Ok(0));
    assert_eq!(seek_add_offset(0, 0), Ok(0));
}

#[test]
fn buffering_getters() {
    let mut r = BufPeekReader::new(Cursor::new(b"xyz".to_vec()));
    assert_eq!(r.min_read_size(), 0);
    r.set_min_read_size(4096);
    assert_eq!(r.min_read_size(), 4096);
    assert_eq!(r.buffer().len(), 0);
    let mut p = r.peek();
    let _ = p.read(2).unwrap();
    p.finish();
    // The peeked bytes stay buffered ahead of the read cursor.
    assert!(r.buffer().len() >= 2);
    assert_eq!(r.get_ref().position(), 3);
    let _ = r.get_mut();
    let inner = r.into_inner();
    assert_eq!(inner.into_inner(), b"xyz".to_vec());
}

#[test]
fn buffering_fill_and_consume() {
    let mut r = BufPeekReader::new(Cursor::new(b"abcdef".to_vec()));
    r.set_min_read_size(4);
    let v = r.fill_buf().unwrap();
    assert_eq!(v, b"abcd".to_vec());
    r.consume(2);
    assert_eq!(r.read(2).unwrap(), b"cd".to_vec());
}

#[test]
fn seeking_main_cursor() {
    let mut r = SeekPeekReader::new(Cursor::new(b"0123456789".to_vec()));
    assert_eq!(r.stream_position().unwrap(), 0);
    assert_eq!(r.seek(SeekFrom::Start(4)).unwrap(), 4);
    assert_eq!(r.read(2).unwrap(), b"45".to_vec());
    assert_eq!(r.seek(SeekFrom::Current(-2)).unwrap(), 4);
    assert_eq!(r.seek(SeekFrom::End(-1)).unwrap(), 9);
    assert_eq!(r.read(5).unwrap(), b"9".to_vec());
    assert_eq!(r.seek(SeekFrom::Current(-100)), Err(ErrorKind::InvalidSeek));
    assert_eq!(r.get_ref().position(), 10);
    let _ = r.get_mut();
    assert_eq!(r.into_inner().into_inner(), b"0123456789".to_vec());
}

#[test]
fn take_limits_reads() {
    let mut t = Take::new(Cursor::new(b"0123456789".to_vec()), 4);
    assert_eq!(t.limit(), 4);
    let mut p = t.peek();
    assert_eq!(p.read(100).unwrap(), b"0123".to_vec());
    assert_eq!(p.seek(SeekFrom::End(0)).unwrap(), 4);
    assert_eq!(p.seek(SeekFrom::End(-2)).unwrap(), 2);
    assert_eq!(p.read_to_end().unwrap(), b"23".to_vec());
    p.finish();
    assert_eq!(t.read(100).unwrap(), b"0123".to_vec());
    assert_eq!(t.limit(), 0);
    assert_eq!(t.read(100).unwrap().len(), 0);
}

#[test]
fn take_longer_than_stream() {
    let mut t = Take::new(Cursor::new(b"ab".to_vec()), 100);
    let mut p = t.peek();
    assert_eq!(p.seek(SeekFrom::End(0)).unwrap(), 2);
    assert_eq!(p.seek(SeekFrom::Start(0)).unwrap(), 0);
    assert_eq!(p.read(100).unwrap(), b"ab".to_vec());
    p.finish();
    t.set_limit(1);
    assert_eq!(t.read(100).unwrap(), b"a".to_vec());
    assert_eq!(t.into_inner().position(), 1);
}

#[test]
fn main_read_to_end_consumes() {
    let mut r = SeekPeekReader::new(Cursor::new(b"all of it".to_vec()));
    assert_eq!(r.read_to_end().unwrap(), b"all of it".to_vec());
    assert_eq!(r.read_to_end().unwrap().len(), 0);
}

#[test]
fn main_read_to_string() {
    let mut r = BufPeekReader::new(Cursor::new("gr\u{00fc}ner text".as_bytes().to_vec()));
    assert_eq!(r.read_to_string().unwrap(), "gr\u{00fc}ner text".to_string());
    let mut bad = BufPeekReader::new(Cursor::new(vec![0xc3, 0x28]));
    assert_eq!(bad.read_to_string(), Err(ErrorKind::InvalidData));
}

#[test]
fn take_over_buffering_wrapper() {
    let inner = BufPeekReader::new(Cursor::new(b"layered streams".to_vec()));
    let mut t = Take::new(inner, 7);
    let mut p = t.peek();
    assert_eq!(p.seek(SeekFrom::End(0)).unwrap(), 7);
    assert_eq!(p.seek(SeekFrom::Start(2)).unwrap(), 2);
    assert_eq!(p.read(100).unwrap(), b"yered".to_vec());
    p.finish();
    assert_eq!(t.read(100).unwrap(), b"layered".to_vec());
}

#[test]
fn empty_prefix_always_matches() {
    let mut r = Empty::new();
    assert_eq!(r.starts_with(b"").unwrap(), true);
    assert_eq!(r.consume_prefix(b"").unwrap(), true);
    let mut c = Cursor::new(b"x".to_vec());
    assert_eq!(c.starts_with(b"").unwrap(), true);
}

#[test]
fn cursor_accessors() {
    let mut c = Cursor::new(b"data".to_vec());
    assert_eq!(c.position(), 0);
    assert_eq!(c.read(2).unwrap(), b"da".to_vec());
    assert_eq!(c.position(), 2);
    assert_eq!(c.into_inner(), b"data".to_vec());
}

#[test]
fn peek_bytes_walks_without_consuming() {
    let r = BufPeekReader::new(Cursor::new(b"xyz".to_vec()));
    let mut walk = PeekBytes::new(r);
    assert_eq!(walk.next(), Some(Ok(b'x')));
    assert_eq!(walk.next(), Some(Ok(b'y')));
    assert_eq!(walk.next(), Some(Ok(b'z')));
    assert_eq!(walk.next(), None);
    assert_eq!(walk.next(), None);
    let mut r = walk.into_inner();
    assert_eq!(r.read(3).unwrap(), b"xyz".to_vec());
}

#[test]
fn peek_bytes_from_trait() {
    let r = SeekPeekReader::new(Cursor::new(b"ab".to_vec()));
    let mut walk = r.peek_bytes();
    assert_eq!(walk.next(), Some(Ok(b'a')));
    assert_eq!(walk.next(), Some(Ok(b'b')));
    assert_eq!(walk.next(), None);
    let mut r = walk.into_inner();
    assert_eq!(r.read(2).unwrap(), b"ab".to_vec());
}
