use reg_atomic::swo::port::{Port, PortChunk, PortSink};
use reg_atomic::swo::PORTS_COUNT;

#[test]
fn port_bounds() {
    // The largest valid index succeeds; anything at or beyond PORTS_COUNT
    // names no port and is rejected by the hardware glue before this
    // constructor can run.
    let _ = Port::new(PORTS_COUNT - 1);
    let _ = Port::new(0);
}

#[test]
fn word_write_round_trip() {
    let port = Port::new(0);
    let mut sink = PortSink::new();
    port.write(&mut sink, 0xAABB_CCDDu32);
    assert_eq!(sink.chunks, vec![PortChunk::Word(0xAABB_CCDD)]);
    // An external read of the last-written word sees the value's bytes in
    // big-endian order.
    assert_eq!(sink.byte_log(), vec![0xAA, 0xBB, 0xCC, 0xDD]);
}

#[test]
fn half_and_byte_writes() {
    let port = Port::new(1);
    let mut sink = PortSink::new();
    port.write(&mut sink, 0xBEEFu16).write(&mut sink, 0x7Fu8);
    assert_eq!(
        sink.chunks,
        vec![PortChunk::Half(0xBEEF), PortChunk::Byte(0x7F)]
    );
    assert_eq!(sink.byte_log(), vec![0xBE, 0xEF, 0x7F]);
}

#[test]
fn bulk_short_is_bytewise() {
    let port = Port::new(2);
    let mut sink = PortSink::new();
    port.write_bytes(&mut sink, 0x2000_0000, &[1, 2, 3]);
    // Fewer than four bytes: every emitted unit is byte-sized.
    assert_eq!(
        sink.chunks,
        vec![PortChunk::Byte(1), PortChunk::Byte(2), PortChunk::Byte(3)]
    );
    assert_eq!(sink.byte_log(), vec![1, 2, 3]);
}

#[test]
fn bulk_aligned_packs_words() {
    let port = Port::new(2);
    let mut sink = PortSink::new();
    port.write_bytes(&mut sink, 0x2000_0000, &[1, 2, 3, 4, 5, 6, 7, 8]);
    // Aligned buffer: the whole transfer is two packed words.
    assert_eq!(
        sink.chunks,
        vec![PortChunk::Word(0x0102_0304), PortChunk::Word(0x0506_0708)]
    );
    assert_eq!(sink.byte_log(), vec![1, 2, 3, 4, 5, 6, 7, 8]);
}

#[test]
fn bulk_misaligned_split() {
    let port = Port::new(3);
    let bytes: Vec<u8> = (10..20).collect();
    let mut sink = PortSink::new();
    // A buffer one byte past a word boundary: three single bytes bring
    // the pointer to alignment, one whole word follows, three single
    // bytes remain.
    port.write_bytes(&mut sink, 0x2000_0001, &bytes);
    assert_eq!(
        sink.chunks,
        vec![
            PortChunk::Byte(10),
            PortChunk::Byte(11),
            PortChunk::Byte(12),
            PortChunk::Word(0x0D0E_0F10),
            PortChunk::Byte(17),
            PortChunk::Byte(18),
            PortChunk::Byte(19),
        ]
    );
    // Exactly the input bytes, in order.
    assert_eq!(sink.byte_log(), bytes);
    let words = sink
        .chunks
        .iter()
        .filter(|c| matches!(c, PortChunk::Word(_)))
        .count();
    assert_eq!(words, (bytes.len() - 3 - 3) / 4);
}

#[test]
fn bulk_empty() {
    let port = Port::new(4);
    let mut sink = PortSink::new();
    port.write_bytes(&mut sink, 0x2000_0000, &[]);
    assert!(sink.chunks.is_empty());
    assert!(sink.byte_log().is_empty());
}

#[test]
fn write_str_streams_utf8() {
    let port = Port::new(5);
    let mut sink = PortSink::new();
    port.write_str(&mut sink, 0x2000_0002, "hello, trace");
    assert_eq!(sink.byte_log(), b"hello, trace".to_vec());
}

#[test]
fn writes_chain_in_order() {
    let port = Port::new(6);
    let mut sink = PortSink::new();
    port.write(&mut sink, 0x11u8)
        .write(&mut sink, 0x2233u16)
        .write(&mut sink, 0x4455_6677u32);
    assert_eq!(sink.byte_log(), vec![0x11, 0x22, 0x33, 0x44, 0x55, 0x66, 0x77]);
}
