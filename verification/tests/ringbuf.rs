use chatapi::ringbuf::buffer::{BufferError, StreamingRingBuffer};

#[test]
fn push_and_pop_roundtrip() {
    let mut buf = StreamingRingBuffer::new(1024);
    let data = b"hello ring buffer";
    let written = buf.push_bytes(data).unwrap();
    assert_eq!(written, data.len());

    let mut out = vec![0u8; 64];
    let read = buf.pop_bytes(&mut out).unwrap();
    assert_eq!(read, data.len());
    assert_eq!(&out[..read], data);
}

#[test]
fn pop_available_drains_all() {
    let mut buf = StreamingRingBuffer::new(256);
    buf.push_bytes(b"abc").unwrap();
    buf.push_bytes(b"def").unwrap();
    let drained = buf.pop_available().unwrap();
    assert_eq!(drained, b"abcdef");
}

#[test]
fn backpressure_at_80_percent() {
    let mut buf = StreamingRingBuffer::new(100);
    let data = vec![0u8; 79];
    buf.push_bytes(&data).unwrap();
    assert!(!buf.is_backpressure());
    buf.push_bytes(&[0]).unwrap();
    assert!(!buf.is_backpressure());
    buf.pop_available().unwrap();
    let data = vec![0u8; 82];
    buf.push_bytes(&data).unwrap();
    assert!(buf.is_backpressure());
}

#[test]
fn utilization_ratio() {
    let mut buf = StreamingRingBuffer::new(100);
    assert_eq!(buf.available_read(), 0);
    buf.push_bytes(&[0u8; 50]).unwrap();
    let u = 1.0 - (buf.available_write() as f64 / buf.capacity() as f64);
    assert!((u - 0.5).abs() < 0.01);
}

#[test]
fn push_stops_at_capacity_and_refuses_over_threshold() {
    let mut buf = StreamingRingBuffer::new(10);
    assert_eq!(buf.push_bytes(&[1u8; 15]).unwrap(), 10);
    match buf.push_bytes(&[2u8]) {
        Err(BufferError::Backpressure { used, capacity }) => {
            assert_eq!(used, 10);
            assert_eq!(capacity, 10);
        }
        _ => panic!("expected backpressure"),
    }
    assert_eq!(buf.available_read(), 10);
}

#[test]
fn zero_capacity_means_default() {
    let buf = StreamingRingBuffer::new(0);
    assert_eq!(buf.capacity(), 262_144);
    assert_eq!(buf.available_write(), 262_144);
}

#[test]
fn partial_pop_leaves_the_rest_in_order() {
    let mut buf = StreamingRingBuffer::new(16);
    buf.push_bytes(b"abcdef").unwrap();
    let mut out = [0u8; 4];
    assert_eq!(buf.pop_bytes(&mut out).unwrap(), 4);
    assert_eq!(&out, b"abcd");
    assert_eq!(buf.pop_available().unwrap(), b"ef");
}
