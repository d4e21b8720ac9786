use x11::bytes::{
    pad, read_string, read_u16, read_u32, read_u8, skip, write_u16, write_u32, write_u8,
    CodecError, Reader,
};

#[test]
fn padding_of_each_residue() {
    assert_eq!(pad(0), 0);
    assert_eq!(pad(1), 3);
    assert_eq!(pad(2), 2);
    assert_eq!(pad(3), 1);
    for n in 0..4 {
        let p = pad(n);
        assert!(p < 4);
        assert_eq!((n + p) % 4, 0);
    }
}

#[test]
fn padding_beyond_one_word() {
    assert_eq!(pad(4), 0);
    assert_eq!(pad(5), 3);
    assert_eq!(pad(8), 0);
    assert_eq!(pad(1021), 3);
}

#[test]
fn integers_round_trip_big_endian() {
    let mut w: Vec<u8> = Vec::new();
    write_u8(&mut w, 0xab);
    write_u16(&mut w, 0x1234);
    write_u32(&mut w, 0xdeadbeef);
    assert_eq!(w, vec![0xab, 0x12, 0x34, 0xde, 0xad, 0xbe, 0xef]);
    let mut r = Reader::new(w);
    assert_eq!(read_u8(&mut r), Ok(0xab));
    assert_eq!(read_u16(&mut r), Ok(0x1234));
    assert_eq!(read_u32(&mut r), Ok(0xdeadbeef));
    assert_eq!(r.left(), 0);
}

#[test]
fn short_reads_fail_without_consuming() {
    let mut r = Reader::new(vec![0x01]);
    assert_eq!(read_u16(&mut r), Err(CodecError::UnexpectedEnd));
    assert_eq!(read_u32(&mut r), Err(CodecError::UnexpectedEnd));
    assert_eq!(skip(&mut r, 2), Err(CodecError::UnexpectedEnd));
    assert_eq!(r.left(), 1);
    assert_eq!(read_u8(&mut r), Ok(0x01));
    assert_eq!(read_u8(&mut r), Err(CodecError::UnexpectedEnd));
}

#[test]
fn skip_consumes_exactly() {
    let mut r = Reader::new(vec![1, 2, 3, 4, 5]);
    assert_eq!(skip(&mut r, 3), Ok(()));
    assert_eq!(read_u8(&mut r), Ok(4));
    assert_eq!(r.left(), 1);
}

#[test]
fn text_reads_ascii() {
    let mut r = Reader::new(b"hello!more".to_vec());
    assert_eq!(read_string(&mut r, 6).unwrap(), "hello!");
    assert_eq!(r.left(), 4);
}

#[test]
fn text_decodes_multibyte_utf8() {
    // 0xc3 0xa9 is one two-byte character
    let mut r = Reader::new(vec![0x68, 0xc3, 0xa9, 0x21]);
    let s = read_string(&mut r, 3).unwrap();
    assert_eq!(s, String::from_utf8(vec![0x68, 0xc3, 0xa9]).unwrap());
    assert_eq!(s.chars().count(), 2);
    assert_eq!(r.left(), 1);
}

#[test]
fn text_rejects_invalid_utf8() {
    // 0xc3 must be followed by a continuation byte
    let mut r = Reader::new(vec![0xc3, 0x28, 0x01]);
    assert_eq!(read_string(&mut r, 3), Err(CodecError::InvalidText));
    assert_eq!(r.left(), 3);
}

#[test]
fn text_rejects_lone_continuation_byte() {
    let mut r = Reader::new(vec![0x80]);
    assert_eq!(read_string(&mut r, 1), Err(CodecError::InvalidText));
    assert_eq!(r.left(), 1);
}

#[test]
fn text_rejects_short_buffer() {
    let mut r = Reader::new(vec![0x68, 0x69]);
    assert_eq!(read_string(&mut r, 3), Err(CodecError::UnexpectedEnd));
    assert_eq!(r.left(), 2);
}
