use bytes::BytesMut;
use rtmp::netio::errors::{IOCause, IOReadError, IOReadErrorValue};
use rtmp::netio::reader::{NetworkReader, Reader};
use std::io;
use std::time::Duration;

fn reader_over(bytes: &[u8]) -> Reader {
    Reader::new(BytesMut::from(bytes))
}

fn elapsed_read() -> tokio::time::Elapsed {
    let mut runtime = tokio::runtime::Builder::new()
        .basic_scheduler()
        .enable_time()
        .build()
        .unwrap();
    runtime
        .block_on(async {
            tokio::time::timeout(Duration::from_millis(1), std::future::pending::<()>()).await
        })
        .unwrap_err()
}

#[test]
fn read_bytes_takes_from_the_front() {
    let mut reader = reader_over(&[1, 2, 3, 4, 5]);
    let head = reader.read_bytes(2).unwrap();
    assert_eq!(&head[..], &[1u8, 2][..]);
    assert_eq!(reader.len(), 3);
    let rest = reader.read_bytes(3).unwrap();
    assert_eq!(&rest[..], &[3u8, 4, 5][..]);
    assert_eq!(reader.len(), 0);
}

#[test]
fn read_bytes_short_buffer_is_left_unchanged() {
    let mut reader = reader_over(&[1, 2, 3]);
    let err = reader.read_bytes(4).unwrap_err();
    assert!(matches!(err.value, IOReadErrorValue::NotEnoughBytes));
    assert_eq!(reader.len(), 3);
    assert_eq!(&reader.read_bytes(3).unwrap()[..], &[1u8, 2, 3][..]);
}

#[test]
fn read_bytes_of_nothing_takes_nothing() {
    let mut reader = reader_over(&[7, 8]);
    let head = reader.read_bytes(0).unwrap();
    assert_eq!(head.len(), 0);
    assert_eq!(reader.len(), 2);
    let mut empty = reader_over(&[]);
    assert_eq!(empty.read_bytes(0).unwrap().len(), 0);
    assert!(matches!(
        empty.read_bytes(1).unwrap_err().value,
        IOReadErrorValue::NotEnoughBytes
    ));
}

#[test]
fn read_bytes_whole_buffer() {
    let mut reader = reader_over(&[9, 8, 7]);
    assert_eq!(&reader.read_bytes(3).unwrap()[..], &[9u8, 8, 7][..]);
    assert_eq!(reader.len(), 0);
}

#[test]
fn advance_bytes_copies_without_consuming() {
    let mut reader = reader_over(&[1, 2, 3, 4]);
    let peeked = reader.advance_bytes(3).unwrap();
    assert_eq!(&peeked[..], &[1u8, 2, 3][..]);
    assert_eq!(reader.len(), 4);
    let read = reader.read_bytes(3).unwrap();
    assert_eq!(&read[..], &peeked[..]);
    assert_eq!(reader.len(), 1);
}

#[test]
fn advance_bytes_short_buffer_fails() {
    let mut reader = reader_over(&[1, 2]);
    let err = reader.advance_bytes(3).unwrap_err();
    assert!(matches!(err.value, IOReadErrorValue::NotEnoughBytes));
    assert_eq!(reader.len(), 2);
}

#[test]
fn advance_bytes_copy_is_independent() {
    let mut reader = reader_over(&[1, 2, 3]);
    let mut peeked = reader.advance_bytes(2).unwrap();
    peeked[0] = 99;
    assert_eq!(&reader.read_bytes(3).unwrap()[..], &[1u8, 2, 3][..]);
}

#[test]
fn extend_from_slice_appends_at_the_back() {
    let mut reader = reader_over(&[1, 2]);
    reader.extend_from_slice(&[3, 4, 5]);
    assert_eq!(reader.len(), 5);
    assert_eq!(&reader.read_bytes(5).unwrap()[..], &[1u8, 2, 3, 4, 5][..]);
    reader.extend_from_slice(&[]);
    assert_eq!(reader.len(), 0);
    reader.extend_from_slice(&[6]);
    assert_eq!(reader.read_u8().unwrap(), 6);
}

#[test]
fn read_after_partial_consumption_and_extension() {
    let mut reader = reader_over(&[1, 2, 3]);
    assert_eq!(reader.read_u8().unwrap(), 1);
    reader.extend_from_slice(&[4]);
    assert_eq!(&reader.read_bytes(3).unwrap()[..], &[2u8, 3, 4][..]);
}

#[test]
fn read_u8_takes_one_byte() {
    let mut reader = reader_over(&[0xAB, 0xCD]);
    assert_eq!(reader.read_u8().unwrap(), 0xAB);
    assert_eq!(reader.len(), 1);
    assert_eq!(reader.read_u8().unwrap(), 0xCD);
    assert!(matches!(
        reader.read_u8().unwrap_err().value,
        IOReadErrorValue::NotEnoughBytes
    ));
}

#[test]
fn advance_u8_leaves_the_byte() {
    let mut reader = reader_over(&[0xAB, 0xCD]);
    assert_eq!(reader.advance_u8().unwrap(), 0xAB);
    assert_eq!(reader.len(), 2);
    assert_eq!(reader.read_u8().unwrap(), 0xAB);
    let mut empty = reader_over(&[]);
    assert!(matches!(
        empty.advance_u8().unwrap_err().value,
        IOReadErrorValue::NotEnoughBytes
    ));
}

#[test]
fn read_u16_is_big_endian() {
    let mut reader = reader_over(&[0x01, 0x02, 0xFF]);
    assert_eq!(reader.read_u16().unwrap(), 0x0102);
    assert_eq!(reader.len(), 1);
    assert!(matches!(
        reader.read_u16().unwrap_err().value,
        IOReadErrorValue::NotEnoughBytes
    ));
    assert_eq!(reader.len(), 1);
    let mut high = reader_over(&[0xFF, 0xFE]);
    assert_eq!(high.read_u16().unwrap(), 0xFFFE);
}

#[test]
fn read_u24_fills_the_low_three_bytes() {
    let mut reader = reader_over(&[0x01, 0x02, 0x03, 0x04]);
    assert_eq!(reader.read_u24().unwrap(), 0x0001_0203);
    assert_eq!(reader.len(), 1);
    let mut high = reader_over(&[0xFF, 0xFF, 0xFF]);
    assert_eq!(high.read_u24().unwrap(), 0x00FF_FFFF);
    let mut short = reader_over(&[1, 2]);
    assert!(matches!(
        short.read_u24().unwrap_err().value,
        IOReadErrorValue::NotEnoughBytes
    ));
    assert_eq!(short.len(), 2);
}

#[test]
fn advance_u24_leaves_the_bytes() {
    let mut reader = reader_over(&[0x00, 0x01, 0x0B, 0x04]);
    assert_eq!(reader.advance_u24().unwrap(), 267);
    assert_eq!(reader.len(), 4);
    assert_eq!(reader.read_u24().unwrap(), 267);
    let mut short = reader_over(&[1, 2]);
    assert!(matches!(
        short.advance_u24().unwrap_err().value,
        IOReadErrorValue::NotEnoughBytes
    ));
}

#[test]
fn read_u32_is_big_endian() {
    let mut reader = reader_over(&[0x01, 0x02, 0x03, 0x04, 0x05]);
    assert_eq!(reader.read_u32().unwrap(), 0x0102_0304);
    assert_eq!(reader.len(), 1);
    let mut high = reader_over(&[0xFF, 0xFF, 0xFF, 0xFE]);
    assert_eq!(high.read_u32().unwrap(), 0xFFFF_FFFE);
    let mut short = reader_over(&[1, 2, 3]);
    assert!(matches!(
        short.read_u32().unwrap_err().value,
        IOReadErrorValue::NotEnoughBytes
    ));
    assert_eq!(short.len(), 3);
}

#[test]
fn read_u64_is_big_endian() {
    let mut reader = reader_over(&[0x01, 0x02, 0x03, 0x04, 0x05, 0x06, 0x07, 0x08, 0x09]);
    assert_eq!(reader.read_u64().unwrap(), 0x0102_0304_0506_0708);
    assert_eq!(reader.len(), 1);
    let mut short = reader_over(&[1, 2, 3, 4, 5, 6, 7]);
    assert!(matches!(
        short.read_u64().unwrap_err().value,
        IOReadErrorValue::NotEnoughBytes
    ));
    assert_eq!(short.len(), 7);
}

#[test]
fn read_u64_gives_the_bits_of_a_float() {
    let mut reader = reader_over(&1.5f64.to_be_bytes());
    assert_eq!(f64::from_bits(reader.read_u64().unwrap()), 1.5);
    let mut pi = reader_over(&std::f64::consts::PI.to_be_bytes());
    assert_eq!(f64::from_bits(pi.read_u64().unwrap()), std::f64::consts::PI);
}

#[test]
fn read_bytes_cursor_stands_at_the_start() {
    let mut reader = reader_over(&[1, 2, 3, 4]);
    let cursor = reader.read_bytes_cursor(3).unwrap();
    assert_eq!(cursor.position(), 0);
    assert_eq!(&cursor.get_ref()[..], &[1u8, 2, 3][..]);
    assert_eq!(reader.len(), 1);
    assert!(matches!(
        reader.read_bytes_cursor(2).unwrap_err().value,
        IOReadErrorValue::NotEnoughBytes
    ));
    assert_eq!(reader.len(), 1);
}

#[test]
fn advance_bytes_cursor_leaves_the_buffer() {
    let mut reader = reader_over(&[1, 2, 3, 4]);
    let cursor = reader.advance_bytes_cursor(2).unwrap();
    assert_eq!(cursor.position(), 0);
    assert_eq!(&cursor.get_ref()[..], &[1u8, 2][..]);
    assert_eq!(reader.len(), 4);
    assert!(matches!(
        reader.advance_bytes_cursor(5).unwrap_err().value,
        IOReadErrorValue::NotEnoughBytes
    ));
}

#[test]
fn network_reader_starts_empty() {
    let network_reader = NetworkReader::new(Duration::from_millis(250));
    assert_eq!(network_reader.reader.len(), 0);
    assert_eq!(network_reader.timeout, Duration::from_millis(250));
}

#[test]
fn try_next_appends_what_arrived() {
    let mut network_reader = NetworkReader::new(Duration::from_secs(1));
    network_reader
        .try_next(Ok(Ok(Some(BytesMut::from(&[1u8, 2][..])))))
        .unwrap();
    network_reader
        .try_next(Ok(Ok(Some(BytesMut::from(&[3u8][..])))))
        .unwrap();
    assert_eq!(network_reader.reader.len(), 3);
    assert_eq!(
        &network_reader.reader.read_bytes(3).unwrap()[..],
        &[1u8, 2, 3][..]
    );
    assert_eq!(network_reader.timeout, Duration::from_secs(1));
}

#[test]
fn try_next_end_of_stream_is_an_io_error() {
    let mut network_reader = NetworkReader::new(Duration::from_secs(1));
    network_reader
        .try_next(Ok(Ok(Some(BytesMut::from(&[1u8, 2][..])))))
        .unwrap();
    let err = network_reader.try_next(Ok(Ok(None))).unwrap_err();
    assert!(matches!(
        err.value,
        IOReadErrorValue::IO(IOCause::EndOfStream)
    ));
    assert_eq!(network_reader.reader.len(), 2);
}

#[test]
fn try_next_transport_error_keeps_its_cause() {
    let mut network_reader = NetworkReader::new(Duration::from_secs(1));
    let cause = io::Error::new(io::ErrorKind::ConnectionReset, "reset by peer");
    let err = network_reader.try_next(Ok(Err(cause))).unwrap_err();
    match err.value {
        IOReadErrorValue::IO(IOCause::Transport(inner)) => {
            assert_eq!(inner.kind(), io::ErrorKind::ConnectionReset);
            assert_eq!(format!("{}", inner), "reset by peer");
        }
        _ => panic!("expected a transport error"),
    }
    assert_eq!(network_reader.reader.len(), 0);
}

#[test]
fn try_next_timeout_keeps_what_was_buffered() {
    let mut network_reader = NetworkReader::new(Duration::from_millis(1));
    network_reader
        .try_next(Ok(Ok(Some(BytesMut::from(&[5u8, 6, 7][..])))))
        .unwrap();
    let err = network_reader.try_next(Err(elapsed_read())).unwrap_err();
    assert!(matches!(err.value, IOReadErrorValue::TimeoutError(_)));
    assert_eq!(network_reader.reader.len(), 3);
    assert_eq!(network_reader.reader.read_u24().unwrap(), 0x0005_0607);
    network_reader
        .try_next(Ok(Ok(Some(BytesMut::from(&[8u8][..])))))
        .unwrap();
    assert_eq!(network_reader.reader.read_u8().unwrap(), 8);
}

#[test]
fn io_read_error_from_its_causes() {
    let from_io = IOReadError::from(io::Error::new(io::ErrorKind::BrokenPipe, "pipe"));
    match from_io.value {
        IOReadErrorValue::IO(IOCause::Transport(inner)) => {
            assert_eq!(inner.kind(), io::ErrorKind::BrokenPipe)
        }
        _ => panic!("expected a transport error"),
    }
    let from_elapsed = IOReadError::from(elapsed_read());
    assert!(matches!(
        from_elapsed.value,
        IOReadErrorValue::TimeoutError(_)
    ));
}
