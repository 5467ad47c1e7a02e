use indtp::{Batch, BatchIterator, Error, Frame, HEADER_SIZE};

#[test]
fn batch_push_then_iterate_roundtrip() {
    // Count byte, first record (4 + 3 bytes), second record (2 + 3 bytes).
    let frame = Frame::new_lite(&mut vec![0u8; 64], 0x01, 0x00, 1 + 7 + 5).unwrap();
    let mut batch = Batch::new(frame);
    batch.push_sample(1_000_000, &[1, 2, 3]).unwrap();
    batch.push_sample(1_000_100, &[4, 5, 6]).unwrap();
    let frame = batch.finish();

    let payload = frame.payload().unwrap();
    assert_eq!(payload[0], 2);
    assert_eq!(&payload[1..5], &1_000_000u32.to_le_bytes());
    assert_eq!(&payload[8..10], &100u16.to_le_bytes());

    let mut it = BatchIterator::new(payload, 3).unwrap();
    assert_eq!(it.size_hint(), (2, Some(2)));
    let (t0, d0) = it.next().unwrap().unwrap();
    assert_eq!(t0, 1_000_000);
    assert_eq!(d0, &[1, 2, 3]);
    let (t1, d1) = it.next().unwrap().unwrap();
    assert_eq!(t1, 1_000_100);
    assert_eq!(d1, &[4, 5, 6]);
    assert!(it.next().is_none());
    assert_eq!(it.size_hint(), (0, Some(0)));
}

#[test]
fn batch_timestamp_wraps_around() {
    let frame = Frame::new_lite(&mut vec![0u8; 64], 0x01, 0x00, 1 + 4 + 2).unwrap();
    let mut batch = Batch::new(frame);
    batch.push_sample(u32::MAX - 1, &[]).unwrap();
    batch.push_sample(3, &[]).unwrap();
    let frame = batch.finish();
    let mut it = BatchIterator::new(frame.payload().unwrap(), 0).unwrap();
    assert_eq!(it.next().unwrap().unwrap().0, u32::MAX - 1);
    assert_eq!(it.next().unwrap().unwrap().0, 3);
}

#[test]
fn batch_push_overflow() {
    let frame = Frame::new_lite(&mut vec![0u8; 64], 0x01, 0x00, 1 + 4 + 2).unwrap();
    let mut batch = Batch::new(frame);
    assert_eq!(batch.push_sample(7, &[1, 2, 3]), Err(Error::BufferOverflow));
    batch.push_sample(7, &[1, 2]).unwrap();
    assert_eq!(batch.push_sample(8, &[]), Err(Error::BufferOverflow));
    let frame = batch.finish();
    assert_eq!(frame.payload().unwrap()[0], 1);
}

#[test]
fn batch_without_samples_leaves_count_alone() {
    let mut bytes = vec![0u8; 64];
    bytes[HEADER_SIZE] = 0x5A;
    let frame = Frame::new_lite(&mut bytes, 0x01, 0x00, 8).unwrap();
    let frame = Batch::new(frame).finish();
    assert_eq!(frame.payload().unwrap()[0], 0x5A);
}

#[test]
fn batch_iterator_rejects_short_payloads() {
    assert_eq!(BatchIterator::new(&[], 4), Err(Error::ParseError));
    assert_eq!(BatchIterator::new(&[1, 0, 0], 4), Err(Error::ParseError));
    let mut it = BatchIterator::new(&[0], 4).unwrap();
    assert!(it.next().is_none());
}

#[test]
fn batch_iterator_reports_missing_data() {
    // One sample announced, timestamp present, data (4 bytes) missing.
    let payload = [1u8, 10, 0, 0, 0, 0xAA];
    let mut it = BatchIterator::new(&payload, 4).unwrap();
    assert_eq!(it.next(), Some(Err(Error::ParseError)));
    assert_eq!(it.next(), None);
    assert_eq!(it.size_hint(), (0, Some(0)));
}
