use console_session::ring::RingCursor;
use console_session::{realized_capacity, BufferError, CircularBuffer};

#[test]
fn test_ring_buffer_write() {
    let test_str = b"0123456789ABCDEF";
    let ring_buffer_size = 64 * 1024;
    let mut ring_buffer = CircularBuffer::new(ring_buffer_size).unwrap();

    for _ in 0..16 * 1024 {
        ring_buffer.write(test_str);
    }

    let ring_buffer_slice = ring_buffer.to_slice();

    assert_eq!(test_str, &ring_buffer_slice[..16]);
    assert_eq!(test_str, &ring_buffer_slice[ring_buffer_size - 16..]);
    assert_eq!(ring_buffer.capacity(), ring_buffer.len());
}

#[test]
fn test_ring_buffer_write2() {
    let test_str = b"12345";
    let ring_buffer_size = 64 * 1024;
    let mut ring_buffer = CircularBuffer::new(ring_buffer_size).unwrap();

    for _ in 0..16 * 1024 {
        ring_buffer.write(test_str);
    }

    let ring_buffer_slice = ring_buffer.to_slice();

    assert_eq!(ring_buffer.capacity(), ring_buffer.len());
    assert_eq!(
        test_str,
        &ring_buffer_slice[ring_buffer.len() - test_str.len()..]
    );
}

#[test]
fn capacity_rounds_up_to_power_of_two_multiple() {
    assert_eq!(realized_capacity(70000, 65536), Some(131072));
    assert_eq!(realized_capacity(65536, 65536), Some(65536));
    assert_eq!(realized_capacity(65537, 65536), Some(131072));
    assert_eq!(realized_capacity(0, 65536), Some(65536));
    assert_eq!(realized_capacity(1, 65536), Some(65536));
    assert_eq!(realized_capacity(100, 4096), Some(4096));
    assert_eq!(realized_capacity(5000, 4096), Some(8192));
    assert_eq!(realized_capacity(3, 1), Some(4));
}

#[test]
fn capacity_refused_without_power_of_two_granularity() {
    assert_eq!(realized_capacity(10, 0), None);
    assert_eq!(realized_capacity(10, 3), None);
    assert_eq!(realized_capacity(10, 65535), None);
    assert_eq!(realized_capacity(usize::MAX, 65536), None);
}

#[test]
fn new_refuses_oversized_request() {
    assert!(matches!(
        CircularBuffer::new(usize::MAX),
        Err(BufferError::Allocation)
    ));
    assert!(matches!(
        CircularBuffer::with_granularity(16, 12),
        Err(BufferError::Allocation)
    ));
}

#[test]
fn writes_wrapping_an_exact_multiple_of_capacity() {
    let pattern = b"0123456789ABCDEF";
    let mut buffer = CircularBuffer::new(70000).unwrap();
    assert_eq!(buffer.capacity(), 131072);
    for _ in 0..16384 {
        assert_eq!(buffer.write(pattern), 16);
    }
    assert_eq!(buffer.len(), 131072);
    assert!(buffer.is_full());
    let view = buffer.to_slice();
    assert_eq!(&view[..16], pattern);
    assert_eq!(&view[view.len() - 16..], pattern);
}

#[test]
fn write_into_empty_reads_back() {
    let mut buffer = CircularBuffer::with_granularity(1, 16).unwrap();
    assert_eq!(buffer.capacity(), 16);
    assert_eq!(buffer.len(), 0);
    assert!(!buffer.is_full());
    assert_eq!(buffer.to_slice(), b"");
    assert_eq!(buffer.write(b"hello"), 5);
    assert_eq!(buffer.to_slice(), b"hello");
    assert_eq!(buffer.write(b""), 0);
    assert_eq!(buffer.to_slice(), b"hello");
}

#[test]
fn write_exactly_capacity_fills() {
    let mut buffer = CircularBuffer::with_granularity(8, 8).unwrap();
    assert_eq!(buffer.write(b"abcdefgh"), 8);
    assert!(buffer.is_full());
    assert_eq!(buffer.to_slice(), b"abcdefgh");
}

#[test]
fn overwrite_drops_oldest_across_wrap() {
    let mut buffer = CircularBuffer::with_granularity(8, 8).unwrap();
    buffer.write(b"abcde");
    buffer.write(b"fghij");
    assert_eq!(buffer.len(), 8);
    assert_eq!(buffer.to_slice(), b"cdefghij");
    buffer.write(b"kl");
    assert_eq!(buffer.to_slice(), b"efghijkl");
    buffer.write(b"mnopqrs");
    assert_eq!(buffer.to_slice(), b"lmnopqrs");
}

#[test]
fn long_single_write_takes_leading_bytes() {
    let mut buffer = CircularBuffer::with_granularity(4, 4).unwrap();
    buffer.write(b"xy");
    assert_eq!(buffer.write(b"0123456789"), 4);
    assert_eq!(buffer.len(), 4);
    assert_eq!(buffer.to_slice(), b"0123");
}

#[test]
fn capacity_one_takes_first_byte() {
    let mut buffer = CircularBuffer::with_granularity(1, 1).unwrap();
    assert_eq!(buffer.capacity(), 1);
    assert_eq!(buffer.write(&[1, 2]), 1);
    assert_eq!(buffer.to_slice(), &[1]);
}

#[test]
fn write_all_style_resend_does_not_duplicate() {
    let mut buffer = CircularBuffer::with_granularity(4, 4).unwrap();
    let input = b"abcdef";
    let mut sent = 0;
    let mut all = Vec::new();
    while sent < input.len() {
        let n = buffer.write(&input[sent..]);
        all.extend_from_slice(&input[sent..sent + n]);
        sent += n;
    }
    assert_eq!(all, input.to_vec());
    assert_eq!(buffer.to_slice(), b"cdef");
}

#[test]
fn cursor_accounting_wraps_and_overwrites() {
    let mut c = RingCursor::new(8);
    assert_eq!((c.head(), c.tail(), c.len()), (0, 0, 0));
    c.commit_write(5);
    assert_eq!((c.head(), c.tail(), c.len()), (0, 5, 5));
    c.commit_write(2);
    assert_eq!((c.head(), c.tail(), c.len()), (0, 7, 7));
    assert!(!c.is_full());
    c.commit_write(3);
    assert_eq!((c.head(), c.tail(), c.len()), (2, 2, 8));
    assert!(c.is_full());
    c.commit_write(0);
    assert_eq!((c.head(), c.tail(), c.len()), (2, 2, 8));
    c.commit_write(8);
    assert_eq!((c.head(), c.tail(), c.len()), (2, 2, 8));
    assert_eq!(c.capacity(), 8);
}

#[test]
fn partial_fill_then_wrap_stays_contiguous() {
    let mut buffer = CircularBuffer::with_granularity(8, 8).unwrap();
    buffer.write(b"123456");
    buffer.write(b"78");
    buffer.write(b"9");
    assert_eq!(buffer.to_slice(), b"23456789");
    let mut expected: Vec<u8> = b"23456789".to_vec();
    for round in 0..20u8 {
        let chunk = [b'a' + round, b'A' + round, b'0' + (round % 10)];
        buffer.write(&chunk);
        expected.extend_from_slice(&chunk);
        let keep = expected.len() - 8;
        assert_eq!(buffer.to_slice(), &expected[keep..]);
    }
}
