use teletypewriter_pipes::ring::SpscBuffer;
use teletypewriter_pipes::{CHUNK_LEN, RING_CAPACITY};

#[test]
fn new_ring_is_empty_with_its_capacity() {
    let ring = SpscBuffer::new(8);
    assert_eq!(ring.capacity(), 8);
    assert_eq!(ring.len(), 0);
    assert!(ring.is_empty());
    assert!(!ring.is_full());
}

#[test]
fn ring_sizes_match_the_pumps() {
    assert_eq!(RING_CAPACITY, 65536);
    assert_eq!(CHUNK_LEN, 65535);
    let ring = SpscBuffer::new(RING_CAPACITY);
    assert_eq!(ring.capacity(), 65536);
}

#[test]
fn bytes_come_out_in_the_order_they_went_in() {
    let mut ring = SpscBuffer::new(16);
    assert_eq!(ring.write_from_slice(&[1, 2, 3]), 3);
    assert_eq!(ring.write_from_slice(&[4, 5]), 2);
    let mut out = [0u8; 5];
    assert_eq!(ring.read_to_slice(&mut out), 5);
    assert_eq!(out, [1, 2, 3, 4, 5]);
    assert!(ring.is_empty());
}

#[test]
fn write_takes_only_what_fits() {
    let mut ring = SpscBuffer::new(4);
    assert_eq!(ring.write_from_slice(&[9, 8, 7, 6, 5, 4]), 4);
    assert!(ring.is_full());
    assert_eq!(ring.write_from_slice(&[1]), 0);
    let mut out = [0u8; 8];
    assert_eq!(ring.read_to_slice(&mut out), 4);
    assert_eq!(out, [9, 8, 7, 6, 0, 0, 0, 0]);
}

#[test]
fn read_takes_only_what_the_buffer_holds_and_leaves_its_tail() {
    let mut ring = SpscBuffer::new(8);
    ring.write_from_slice(&[1, 2, 3, 4, 5]);
    let mut out = [0xAAu8; 3];
    assert_eq!(ring.read_to_slice(&mut out), 3);
    assert_eq!(out, [1, 2, 3]);
    assert_eq!(ring.len(), 2);
    let mut rest = [0xEEu8; 4];
    assert_eq!(ring.read_to_slice(&mut rest), 2);
    assert_eq!(rest, [4, 5, 0xEE, 0xEE]);
}

#[test]
fn ring_wraps_around_its_end() {
    let mut ring = SpscBuffer::new(4);
    assert_eq!(ring.write_from_slice(&[1, 2, 3]), 3);
    let mut two = [0u8; 2];
    assert_eq!(ring.read_to_slice(&mut two), 2);
    assert_eq!(two, [1, 2]);
    assert_eq!(ring.write_from_slice(&[4, 5, 6, 7]), 3);
    assert!(ring.is_full());
    let mut out = [0u8; 4];
    assert_eq!(ring.read_to_slice(&mut out), 4);
    assert_eq!(out, [3, 4, 5, 6]);
    assert!(ring.is_empty());
}

#[test]
fn empty_slices_move_nothing() {
    let mut ring = SpscBuffer::new(4);
    assert_eq!(ring.write_from_slice(&[]), 0);
    let mut none: [u8; 0] = [];
    assert_eq!(ring.read_to_slice(&mut none), 0);
    ring.write_from_slice(&[1]);
    assert_eq!(ring.read_to_slice(&mut none), 0);
    assert_eq!(ring.len(), 1);
}

#[test]
fn stream_survives_many_wraps() {
    let mut ring = SpscBuffer::new(7);
    let input: Vec<u8> = (0..200u32).map(|i| (i * 31 % 251) as u8).collect();
    let mut output = Vec::new();
    let mut sent = 0;
    let mut buf = [0u8; 3];
    while output.len() < input.len() {
        let end = (sent + 5).min(input.len());
        sent += ring.write_from_slice(&input[sent..end]);
        let n = ring.read_to_slice(&mut buf);
        output.extend_from_slice(&buf[..n]);
        assert!(ring.len() <= ring.capacity());
    }
    assert_eq!(output, input);
}
