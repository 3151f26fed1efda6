use rafthttp::error::Error;
use rafthttp::reader::{BytesReader, ExactReaderCloser, LimitedBufferReader};

#[test]
#[allow(non_snake_case)]
fn test_exact_reader_closer_ExpectEOF() {
    let x = "hello".as_bytes().to_vec();
    let mut r = ExactReaderCloser::new(BytesReader::new(x), 3);
    let mut buf = [0; 3];
    let n = r.read(&mut buf).unwrap();
    assert_eq!(n, 3);
    assert_eq!(buf, ['h' as u8, 'e' as u8, 'l' as u8]);
    let n = r.read(&mut buf).unwrap_err();
    assert_eq!(n, Error::ErrExpectEOF);
}

#[test]
#[allow(non_snake_case)]
fn test_exact_reader_closer_ShortRead() {
    let mut r = ExactReaderCloser::new(BytesReader::new("hello".as_bytes().to_vec()), 6);
    let mut buf = [0; 3];
    let n = r.read(&mut buf).unwrap();
    assert_eq!(n, 3);
    assert_eq!(buf, ['h' as u8, 'e' as u8, 'l' as u8]);
    let n = r.read(&mut buf).unwrap();
    assert_eq!(n, 2);
    assert_eq!(buf, ['l' as u8, 'o' as u8, 'l' as u8]);
    let n = r.read(&mut buf).unwrap_err();
    assert_eq!(n, Error::ErrShortRead);
}

#[test]
fn test_limited_buffer_reader() {
    let mut r = LimitedBufferReader::new(BytesReader::new("hello".as_bytes().to_vec()), 3);
    let mut buf = [0; 3];
    let n = r.read(&mut buf).unwrap();
    assert_eq!(n, 3);
    assert_eq!(buf, ['h' as u8, 'e' as u8, 'l' as u8]);
    let n = r.read(&mut buf).unwrap();
    assert_eq!(n, 2);
    assert_eq!(buf, ['l' as u8, 'o' as u8, 'l' as u8]);
    let n = r.read(&mut buf).unwrap();
    assert_eq!(n, 0);
    assert_eq!(buf, ['l' as u8, 'o' as u8, 'l' as u8]);
}

#[test]
fn limited_reader_leaves_tail_of_large_buffer() {
    let mut r = LimitedBufferReader::new(BytesReader::new(b"abcdef".to_vec()), 2);
    let mut buf = [9u8; 5];
    let n = r.read(&mut buf).unwrap();
    assert_eq!(n, 2);
    assert_eq!(buf, [b'a', b'b', 9, 9, 9]);
}

#[test]
fn exact_reader_exact_length_reads_to_end() {
    let mut r = ExactReaderCloser::new(BytesReader::new(b"abc".to_vec()), 3);
    let mut buf = [0u8; 8];
    assert_eq!(r.read(&mut buf), Ok(3));
    assert_eq!(&buf[..3], b"abc");
    // at the end, with all bytes delivered, a read of nothing is no error
    assert_eq!(r.read(&mut buf), Ok(0));
}

#[test]
fn exact_reader_record_read_outcomes() {
    let mut r = ExactReaderCloser::new(BytesReader::new(Vec::new()), 4);
    assert_eq!(r.record_read(2), Ok(2));
    assert_eq!(r.record_read(0), Err(Error::ErrShortRead));
    assert_eq!(r.record_read(2), Ok(2));
    assert_eq!(r.record_read(1), Err(Error::ErrExpectEOF));
}

#[test]
fn bytes_reader_hands_out_in_order() {
    let mut b = BytesReader::new(b"xyz".to_vec());
    let mut buf = [0u8; 2];
    assert_eq!(b.read_bytes(&mut buf), 2);
    assert_eq!(buf, [b'x', b'y']);
    assert_eq!(b.read_bytes(&mut buf), 1);
    assert_eq!(buf, [b'z', b'y']);
    assert_eq!(b.read_bytes(&mut buf), 0);
}

#[test]
fn error_messages() {
    assert_eq!(Error::ErrShortRead.message(), "ioutil: short read");
    assert_eq!(Error::ErrExpectEOF.message(), "ioutil: expect EOF");
    assert_eq!(Error::ErrSend.message(), "send error");
    assert_eq!(Error::ErrNoDBSnapshot.message(), "snap: snapshot file doesn't exist");
    assert_eq!(Error::ErrNoSnapshot.message(), "snap: no available snapshot");
    assert_eq!(Error::ErrEmptySnapshot.message(), "snap: empty snapshot");
    assert_eq!(Error::ErrCRCMismatch.message(), "snap: crc mismatch");
}

#[test]
fn exact_reader_reaches_end_exactly() {
    let mut r = ExactReaderCloser::new(BytesReader::new(b"hello".to_vec()), 5);
    let mut buf = [0u8; 3];
    assert_eq!(r.read(&mut buf), Ok(3));
    assert_eq!(&buf, b"hel");
    assert_eq!(r.read(&mut buf), Ok(2));
    assert_eq!(&buf, b"lol");
    assert_eq!(r.read(&mut buf), Ok(0));
    let mut e = ExactReaderCloser::new(BytesReader::new(vec![]), 0);
    assert_eq!(e.read(&mut [0u8; 4]), Ok(0));
    let mut over = ExactReaderCloser::new(BytesReader::new(b"hello".to_vec()), 0);
    assert_eq!(over.read(&mut [0u8; 3]), Err(Error::ErrExpectEOF));
}

#[test]
fn limited_reader_hands_on_the_first_bytes() {
    let mut r = LimitedBufferReader::new(BytesReader::new(b"hello".to_vec()), 2);
    let mut p = [0u8; 5];
    assert_eq!(r.read(&mut p).unwrap(), 2);
    assert_eq!(p, [b'h', b'e', 0, 0, 0]);
}
