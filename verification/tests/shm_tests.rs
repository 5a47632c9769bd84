use aetherless::error::SharedMemoryError;
use aetherless::shm::ring_buffer::RingBuffer;
use aetherless::shm::validator::{PayloadType, PayloadValidator, MAX_PAYLOAD_SIZE};
use aetherless::shm::SharedMemoryRegion;

#[test]
fn test_shm_size_validation() {
    assert!(SharedMemoryRegion::create("test-small", 100).is_err());
    assert!(SharedMemoryRegion::create("test-large", SharedMemoryRegion::MAX_SIZE + 1).is_err());
}

#[test]
fn test_shm_empty_name() {
    assert!(SharedMemoryRegion::create("", 4096).is_err());
}

#[test]
fn test_align_up() {
    assert_eq!(RingBuffer::align_up(1, 8), 8);
    assert_eq!(RingBuffer::align_up(8, 8), 8);
    assert_eq!(RingBuffer::align_up(9, 8), 16);
    assert_eq!(RingBuffer::align_up(0, 8), 0);
}

#[test]
fn validator_test_checksum_validation() {
    let payload = b"Hello, World!";
    let checksum = PayloadValidator::calculate_checksum(payload);

    assert!(PayloadValidator::validate_checksum(payload, checksum).is_ok());
    assert!(PayloadValidator::validate_checksum(payload, checksum + 1).is_err());
}

#[test]
fn integration_tests_test_checksum_validation() {
    let payload = b"Test payload data";
    let checksum = PayloadValidator::calculate_checksum(payload);

    assert!(PayloadValidator::validate_checksum(payload, checksum).is_ok());
    assert!(PayloadValidator::validate_checksum(payload, checksum + 1).is_err());
}

#[test]
fn test_size_validation() {
    let small_payload = vec![0u8; 100];
    assert!(PayloadValidator::validate_for_write(&small_payload).is_ok());

    let empty_payload: &[u8] = &[];
    assert!(PayloadValidator::validate_for_write(empty_payload).is_err());
}

#[test]
fn test_payload_type_conversion() {
    assert_eq!(PayloadType::try_from(1).unwrap(), PayloadType::InvokeRequest);
    assert_eq!(PayloadType::try_from(2).unwrap(), PayloadType::InvokeResponse);
    assert!(PayloadType::try_from(99).is_err());
}

#[test]
fn checksum_is_crc32() {
    assert_eq!(PayloadValidator::calculate_checksum(b"123456789"), 0xCBF4_3926);
    assert_eq!(PayloadValidator::calculate_checksum(b""), 0);
}

#[test]
fn oversized_payload_is_refused_with_its_size() {
    let big = vec![1u8; MAX_PAYLOAD_SIZE + 1];
    match PayloadValidator::validate_for_write(&big) {
        Err(SharedMemoryError::PayloadTooLarge { size, max }) => {
            assert_eq!(size, MAX_PAYLOAD_SIZE + 1);
            assert_eq!(max, MAX_PAYLOAD_SIZE);
        }
        _ => panic!("expected a payload that is too large"),
    }
}

#[test]
fn mismatched_checksum_reports_both_values() {
    match PayloadValidator::validate_checksum(b"abc", 7) {
        Err(SharedMemoryError::ChecksumMismatch { expected, actual }) => {
            assert_eq!(expected, 7);
            assert_eq!(actual, PayloadValidator::calculate_checksum(b"abc"));
        }
        _ => panic!("expected a mismatch"),
    }
}

#[test]
fn structure_reads_the_type_tag() {
    let info = PayloadValidator::validate_structure(&[2, 0, 0, 0, 9, 9]).unwrap();
    assert_eq!(info.payload_type, 2);
    assert_eq!(info.data_offset, 4);
    assert_eq!(info.data_length, 2);
    assert!(PayloadValidator::validate_structure(&[1, 2, 3]).is_err());
    for t in 1u32..=5 {
        assert_eq!(PayloadType::try_from(t).unwrap().tag(), t);
    }
}

#[test]
fn region_is_zero_filled_and_named() {
    let r = SharedMemoryRegion::create("ring", 4096).unwrap();
    assert_eq!(r.name(), "ring");
    assert_eq!(r.size(), 4096);
    assert!(r.as_slice().iter().all(|b| *b == 0));
}

#[test]
fn ring_buffer_reads_back_what_was_written_in_order() {
    let region = SharedMemoryRegion::create("ring-fifo", 4096).unwrap();
    let mut rb = RingBuffer::new(region).unwrap();
    assert!(rb.is_empty());
    assert_eq!(rb.capacity(), 4096 - 24);
    rb.write(b"first").unwrap();
    rb.write(b"second message").unwrap();
    assert_eq!(rb.readable_bytes(), 16 + 24);
    assert_eq!(rb.available_space(), 4096 - 24 - 40);
    assert_eq!(rb.read().unwrap(), b"first".to_vec());
    assert_eq!(rb.read().unwrap(), b"second message".to_vec());
    assert!(rb.is_empty());
    assert!(matches!(rb.read(), Err(SharedMemoryError::RingBufferEmpty)));
}

#[test]
fn ring_buffer_full_is_refused_and_wraps_around() {
    let region = SharedMemoryRegion::create("ring-wrap", 4096).unwrap();
    let mut rb = RingBuffer::new(region).unwrap();
    let payload = vec![7u8; 1000];
    for _ in 0..4 {
        rb.write(&payload).unwrap();
    }
    assert!(matches!(rb.write(&payload), Err(SharedMemoryError::RingBufferFull { size: 1000 })));
    for _ in 0..4 {
        assert_eq!(rb.read().unwrap(), payload);
    }
    for round in 0..20u8 {
        let p = vec![round; 300];
        rb.write(&p).unwrap();
        assert_eq!(rb.read().unwrap(), p);
    }
    assert!(rb.is_empty());
}

#[test]
fn ring_buffer_needs_room_for_its_header() {
    let region = SharedMemoryRegion::open("tiny", vec![0u8; 4096]).unwrap();
    assert!(RingBuffer::new(region).is_ok());
    assert!(SharedMemoryRegion::open("tiny", vec![0u8; 10]).is_err());
}

#[test]
fn region_errors_explain_the_refusal() {
    match SharedMemoryRegion::create("small", 100) {
        Err(SharedMemoryError::CreateFailed { name, reason }) => {
            assert_eq!(name, "small");
            assert_eq!(reason, "Size 100 is below minimum 4096");
        }
        _ => panic!("expected a refusal"),
    }
    match SharedMemoryRegion::create("large", SharedMemoryRegion::MAX_SIZE + 1) {
        Err(SharedMemoryError::CreateFailed { reason, .. }) => {
            assert_eq!(reason, "Size 1073741825 exceeds maximum 1073741824")
        }
        _ => panic!("expected a refusal"),
    }
    match SharedMemoryRegion::create("", 4096) {
        Err(SharedMemoryError::CreateFailed { reason, .. }) => assert_eq!(reason, "Name cannot be empty"),
        _ => panic!("expected a refusal"),
    }
    match SharedMemoryRegion::open("taken", vec![0u8; 10]) {
        Err(SharedMemoryError::CreateFailed { reason, .. }) => assert_eq!(reason, "Invalid size: 10"),
        _ => panic!("expected a refusal"),
    }
}

#[test]
fn unknown_payload_tag_is_named() {
    match PayloadType::try_from(9u32) {
        Err(SharedMemoryError::InvalidBufferState { reason }) => assert_eq!(reason, "Unknown payload type: 9"),
        _ => panic!("expected a refusal"),
    }
}

fn written_ring(payloads: &[&[u8]]) -> Vec<u8> {
    let region = SharedMemoryRegion::create("ring-producer", 4096).unwrap();
    let mut rb = RingBuffer::new(region).unwrap();
    for p in payloads {
        rb.write(p).unwrap();
    }
    rb.region().as_slice().to_vec()
}

#[test]
fn consumer_opening_a_ring_reads_what_the_producer_wrote() {
    let bytes = written_ring(&[b"hello", b"world!"]);
    let mut consumer = RingBuffer::open(SharedMemoryRegion::open("ring-consumer", bytes).unwrap()).unwrap();
    assert_eq!(consumer.read().unwrap(), b"hello".to_vec());
    assert_eq!(consumer.read().unwrap(), b"world!".to_vec());
    assert!(matches!(consumer.read(), Err(SharedMemoryError::RingBufferEmpty)));
}

#[test]
fn corrupted_payload_is_refused_by_its_checksum() {
    let mut bytes = written_ring(&[b"hello"]);
    // The payload starts after the ring header (24 bytes) and the entry header (8 bytes).
    bytes[24 + 8] ^= 0xff;
    let mut consumer = RingBuffer::open(SharedMemoryRegion::open("ring-corrupt", bytes).unwrap()).unwrap();
    match consumer.read() {
        Err(SharedMemoryError::ChecksumMismatch { expected, actual }) => {
            assert_eq!(expected, PayloadValidator::calculate_checksum(b"hello"));
            assert_ne!(actual, expected);
        }
        other => panic!("expected a checksum mismatch, got {:?}", other),
    }
    // Nothing was consumed.
    assert_eq!(consumer.readable_bytes(), 16);
}

#[test]
fn entry_longer_than_what_is_pending_is_incomplete() {
    let mut bytes = written_ring(&[b"hello"]);
    // Record a payload length of 100 in the entry header.
    bytes[24] = 100;
    let mut consumer = RingBuffer::open(SharedMemoryRegion::open("ring-short", bytes).unwrap()).unwrap();
    match consumer.read() {
        Err(SharedMemoryError::InvalidBufferState { reason }) => assert_eq!(reason, "Incomplete entry in buffer"),
        other => panic!("expected an incomplete entry, got {:?}", other),
    }
}

#[test]
fn test_ring_buffer_write_read() {
    let region = SharedMemoryRegion::create("test_ring", 64 * 1024).expect("Failed to create SHM region");
    let mut buffer = RingBuffer::new(region).expect("Failed to create ring buffer");
    let payload = b"Hello, Aetherless!";
    buffer.write(payload).expect("Failed to write");
    let read_data = buffer.read().expect("Failed to read");
    assert_eq!(read_data, payload);
}

#[test]
fn empty_payload_reason() {
    match PayloadValidator::validate_for_write(&[]) {
        Err(SharedMemoryError::InvalidBufferState { reason }) => assert_eq!(reason, "Cannot write empty payload"),
        other => panic!("unexpected: {:?}", other),
    }
}

#[test]
fn short_payload_reason() {
    match PayloadValidator::validate_structure(&[1, 0, 0]) {
        Err(SharedMemoryError::InvalidBufferState { reason }) => assert_eq!(reason, "Payload too short for header"),
        other => panic!("unexpected: {:?}", other),
    }
    let info = PayloadValidator::validate_structure(&[0x01, 0x02, 0x03, 0x04, 0xFF]).unwrap();
    assert_eq!(info.payload_type, 0x04030201);
    assert_eq!(info.data_offset, 4);
    assert_eq!(info.data_length, 1);
}

#[test]
fn region_requests_are_checked_without_allocating() {
    assert!(SharedMemoryRegion::check_request("ok", 4096).is_ok());
    match SharedMemoryRegion::check_request("ok", 100) {
        Err(SharedMemoryError::CreateFailed { reason, .. }) => assert_eq!(reason, "Size 100 is below minimum 4096"),
        other => panic!("unexpected: {:?}", other),
    }
    match SharedMemoryRegion::check_request("", 4096) {
        Err(SharedMemoryError::CreateFailed { reason, .. }) => assert_eq!(reason, "Name cannot be empty"),
        other => panic!("unexpected: {:?}", other),
    }
}

#[test]
fn second_handle_reads_what_the_first_wrote() {
    let region = SharedMemoryRegion::create("rb-shared", 4096).unwrap();
    let mut writer = RingBuffer::new(region).unwrap();
    writer.write(b"first").unwrap();
    writer.write(b"second").unwrap();
    let copy = SharedMemoryRegion::open("rb-shared", writer.region().as_slice().to_vec()).unwrap();
    let mut reader = RingBuffer::open(copy).unwrap();
    assert_eq!(reader.capacity(), writer.capacity());
    assert_eq!(reader.readable_bytes(), writer.readable_bytes());
    assert_eq!(reader.available_space(), writer.available_space());
    assert_eq!(reader.read().unwrap(), b"first".to_vec());
    assert_eq!(reader.read().unwrap(), b"second".to_vec());
    assert!(matches!(reader.read(), Err(SharedMemoryError::RingBufferEmpty)));
}

#[test]
fn write_then_read_in_order() {
    let region = SharedMemoryRegion::create("rb-order", 4096).unwrap();
    let mut rb = RingBuffer::new(region).unwrap();
    rb.write(b"one").unwrap();
    rb.write(b"two").unwrap();
    assert_eq!(rb.read().unwrap(), b"one".to_vec());
    rb.write(b"three").unwrap();
    assert_eq!(rb.read().unwrap(), b"two".to_vec());
    assert_eq!(rb.read().unwrap(), b"three".to_vec());
    assert!(rb.is_empty());
}

#[test]
fn fifo_over_many_writes_and_reads_with_wrap() {
    let region = SharedMemoryRegion::create("rb-wrap", 4096).unwrap();
    let mut rb = RingBuffer::new(region).unwrap();
    assert_eq!(rb.capacity(), 4096 - 24);
    for round in 0..20u8 {
        let payloads: Vec<Vec<u8>> = (0..5u8).map(|i| vec![round ^ i; 100 + i as usize * 37]).collect();
        for p in &payloads {
            rb.write(p).unwrap();
            assert_eq!(rb.available_space() + rb.readable_bytes(), rb.capacity());
        }
        for p in &payloads {
            assert_eq!(&rb.read().unwrap(), p);
            assert_eq!(rb.available_space() + rb.readable_bytes(), rb.capacity());
        }
        assert!(matches!(rb.read(), Err(SharedMemoryError::RingBufferEmpty)));
    }
}
