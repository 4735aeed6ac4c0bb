use serial_pcap::staging::{UartBuf, UART_BUF_CAP};

#[test]
fn new_buffer_is_empty() {
    let b = UartBuf::new();
    assert!(b.is_empty());
    assert_eq!(b.len(), 0);
    assert_eq!(b.as_slice(), &[] as &[u8]);
    assert_eq!(b.tail_capacity(), UART_BUF_CAP);
}

#[test]
fn write_then_consume_keeps_order() {
    let mut b = UartBuf::new();
    b.write(&[1, 2, 3, 4]);
    b.write(&[5]);
    assert_eq!(b.as_slice(), &[1, 2, 3, 4, 5]);
    b.consume(2);
    assert_eq!(b.as_slice(), &[3, 4, 5]);
    assert_eq!(b.len(), 3);
    b.consume(10);
    assert!(b.is_empty());
}

#[test]
fn write_compacts_before_dropping() {
    let mut b = UartBuf::new();
    let first: Vec<u8> = (0..15).collect();
    b.write(&first);
    b.consume(10);
    assert_eq!(b.as_slice(), &[10, 11, 12, 13, 14]);
    // 5 bytes of tail are free, 15 in all: ten more fit after compaction.
    let more: Vec<u8> = (100..110).collect();
    b.write(&more);
    let mut want: Vec<u8> = (10..15).collect();
    want.extend(100..110);
    assert_eq!(b.as_slice(), want.as_slice());
}

#[test]
fn write_overflow_drops_only_the_oldest_needed() {
    let mut b = UartBuf::new();
    let first: Vec<u8> = (0..15).collect();
    b.write(&first);
    let more: Vec<u8> = (100..110).collect();
    b.write(&more);
    // 25 bytes were offered to a 20-byte buffer: the oldest 5 are gone.
    let mut want: Vec<u8> = (5..15).collect();
    want.extend(100..110);
    assert_eq!(b.len(), UART_BUF_CAP);
    assert_eq!(b.as_slice(), want.as_slice());
}

#[test]
fn write_longer_than_capacity_keeps_its_tail() {
    let mut b = UartBuf::new();
    b.write(&[7, 8]);
    let big: Vec<u8> = (0..30).collect();
    b.write(&big);
    let want: Vec<u8> = (10..30).collect();
    assert_eq!(b.as_slice(), want.as_slice());
}

#[test]
fn tail_slice_makes_room_and_incr_len_counts_it() {
    let mut b = UartBuf::new();
    let first: Vec<u8> = (0..18).collect();
    b.write(&first);
    b.consume(16);
    assert_eq!(b.tail_capacity(), 2);
    let room = b.tail_slice(5);
    assert!(room >= 5);
    assert_eq!(b.as_slice(), &[16, 17]);
    assert_eq!(room, UART_BUF_CAP - 2);
    b.incr_len(100);
    assert_eq!(b.len(), UART_BUF_CAP);
    assert_eq!(&b.as_slice()[..2], &[16, 17]);
}

#[test]
fn tail_slice_on_full_buffer_drops_oldest() {
    let mut b = UartBuf::new();
    let first: Vec<u8> = (0..20).collect();
    b.write(&first);
    let room = b.tail_slice(1);
    assert_eq!(room, 1);
    let want: Vec<u8> = (1..20).collect();
    assert_eq!(b.as_slice(), want.as_slice());
}

#[test]
fn dropped_bytes_are_counted() {
    let mut b = UartBuf::new();
    assert_eq!(b.dropped(), 0);
    let first: Vec<u8> = (0..15).collect();
    b.write(&first);
    assert_eq!(b.dropped(), 0);
    let more: Vec<u8> = (100..110).collect();
    b.write(&more);
    assert_eq!(b.dropped(), 5);
    b.consume(3);
    assert_eq!(b.dropped(), 5);
    let big: Vec<u8> = (0..30).collect();
    b.write(&big);
    // 17 held plus 30 offered, 20 kept.
    assert_eq!(b.dropped(), 5 + 27);
    b.tail_slice(1);
    assert_eq!(b.dropped(), 5 + 27 + 1);
}
