use glasses::frameconv::decode::{
    decode_hap_instructions, decode_hap_packet, read_le32_words, try_decode_hap_packet,
};
use glasses::frameconv::snappy::{decompress_or_raw, decompressed_or_raw};

fn header(size: usize, kind: u8) -> Vec<u8> {
    vec![
        (size & 0xff) as u8,
        ((size >> 8) & 0xff) as u8,
        ((size >> 16) & 0xff) as u8,
        kind,
    ]
}

fn section(kind: u8, data: &[u8]) -> Vec<u8> {
    let mut v = header(data.len(), kind);
    v.extend_from_slice(data);
    v
}

fn snappy(data: &[u8]) -> Vec<u8> {
    snap::raw::Encoder::new().compress_vec(data).unwrap()
}

fn sample_frame() -> Vec<u8> {
    (0..64u32).map(|i| (i % 7) as u8).collect()
}

#[test]
fn short_packet_is_returned_unchanged() {
    assert_eq!(decode_hap_packet(&[]), Vec::<u8>::new());
    assert_eq!(decode_hap_packet(&[1, 2, 3]), vec![1, 2, 3]);
}

#[test]
fn uncompressed_sections_return_their_payload() {
    for kind in [0xAB, 0xAE, 0xAF] {
        let packet = section(kind, &[9, 8, 7, 6]);
        assert_eq!(decode_hap_packet(&packet), vec![9, 8, 7, 6]);
    }
}

#[test]
fn unknown_section_type_returns_payload() {
    let packet = section(0x42, &[1, 2]);
    assert_eq!(decode_hap_packet(&packet), vec![1, 2]);
}

#[test]
fn payload_is_cut_at_the_end_of_the_packet() {
    let mut packet = header(100, 0xAB);
    packet.extend_from_slice(&[5, 6, 7]);
    assert_eq!(decode_hap_packet(&packet), vec![5, 6, 7]);
}

#[test]
fn payload_stops_at_the_announced_size() {
    let mut packet = header(2, 0xAB);
    packet.extend_from_slice(&[5, 6, 7, 8]);
    assert_eq!(decode_hap_packet(&packet), vec![5, 6]);
}

#[test]
fn snappy_sections_are_decompressed() {
    let frame = sample_frame();
    for kind in [0xBB, 0xBE, 0xBF] {
        let packet = section(kind, &snappy(&frame));
        assert_eq!(decode_hap_packet(&packet), frame);
    }
}

#[test]
fn invalid_snappy_falls_back_to_the_raw_payload() {
    let bad = [0xff, 0xff, 0xff, 0xff, 0xff, 0xff];
    let packet = section(0xBB, &bad);
    assert_eq!(decode_hap_packet(&packet), bad.to_vec());
}

#[test]
fn decompress_or_raw_decompresses_valid_data() {
    let frame = sample_frame();
    let compressed = snappy(&frame);
    assert_ne!(compressed, frame);
    assert_eq!(decompress_or_raw(&compressed), frame);
    assert_eq!(decompress_or_raw(&[]), Vec::<u8>::new());
}

#[test]
fn decompressed_or_raw_prefers_the_decompressed_bytes() {
    assert_eq!(decompressed_or_raw(&[1, 2], Some(vec![3, 4, 5])), vec![3, 4, 5]);
    assert_eq!(decompressed_or_raw(&[1, 2], None), vec![1, 2]);
}

fn complex_payload(compressors: &[u8], sizes: &[u32], frame: &[u8]) -> Vec<u8> {
    let mut instructions = section(0x02, compressors);
    let words: Vec<u8> = sizes.iter().flat_map(|s| s.to_le_bytes()).collect();
    instructions.extend(section(0x03, &words));
    let mut payload = section(0x01, &instructions);
    payload.extend_from_slice(frame);
    payload
}

#[test]
fn complex_sections_decode_chunk_by_chunk() {
    let first = vec![1u8, 2, 3, 4];
    let second = sample_frame();
    let second_packed = snappy(&second);
    let mut frame = first.clone();
    frame.extend_from_slice(&second_packed);
    let payload = complex_payload(&[0x0A, 0x0B], &[4, second_packed.len() as u32], &frame);
    let mut expected = first.clone();
    expected.extend_from_slice(&second);
    assert_eq!(decode_hap_instructions(&payload), expected);
    for kind in [0xCB, 0xCE, 0xCF] {
        let packet = section(kind, &payload);
        assert_eq!(decode_hap_packet(&packet), expected);
    }
}

#[test]
fn chunks_past_the_end_of_the_frame_are_dropped() {
    let frame = vec![1u8, 2, 3, 4, 5, 6];
    let payload = complex_payload(&[0x0A, 0x0A, 0x0A], &[2, 3, 10], &frame);
    assert_eq!(decode_hap_instructions(&payload), vec![1, 2, 3, 4, 5]);
}

#[test]
fn chunks_without_a_compressor_entry_are_kept_raw() {
    let frame = vec![1u8, 2, 3, 4];
    let payload = complex_payload(&[], &[1, 3], &frame);
    assert_eq!(decode_hap_instructions(&payload), vec![1, 2, 3, 4]);
}

#[test]
fn frame_without_chunk_sizes_is_returned_whole() {
    let mut payload = section(0x01, &section(0x02, &[0x0B]));
    payload.extend_from_slice(&[7, 7, 7]);
    assert_eq!(decode_hap_instructions(&payload), vec![7, 7, 7]);
}

#[test]
fn payload_without_instructions_container_is_unchanged() {
    let payload = section(0x05, &[1, 2, 3]);
    assert_eq!(decode_hap_instructions(&payload), payload);
    assert_eq!(decode_hap_instructions(&[1, 2]), vec![1, 2]);
    let mut truncated = header(50, 0x01);
    truncated.extend_from_slice(&[1, 2, 3]);
    assert_eq!(decode_hap_instructions(&truncated), truncated);
}

#[test]
fn last_table_of_each_kind_wins() {
    let frame = vec![1u8, 2, 3, 4];
    let mut instructions = section(0x03, &1u32.to_le_bytes());
    instructions.extend(section(0x03, &[2, 0, 0, 0, 2, 0, 0, 0]));
    instructions.extend(section(0x02, &[0x0B, 0x0B]));
    instructions.extend(section(0x02, &[0x0A, 0x0A]));
    let mut payload = section(0x01, &instructions);
    payload.extend_from_slice(&frame);
    assert_eq!(decode_hap_instructions(&payload), frame);
}

#[test]
fn truncated_instruction_section_ends_the_table_walk() {
    let frame = vec![1u8, 2, 3, 4];
    let mut instructions = section(0x03, &2u32.to_le_bytes());
    instructions.extend(header(40, 0x03));
    let mut payload = section(0x01, &instructions);
    payload.extend_from_slice(&frame);
    assert_eq!(decode_hap_instructions(&payload), vec![1, 2]);
}

#[test]
fn ragged_chunk_size_table_cannot_be_decoded() {
    let mut payload = section(0x01, &section(0x03, &[1, 0, 0]));
    payload.extend_from_slice(&[1, 2, 3]);
    let packet = section(0xCB, &payload);
    assert_eq!(try_decode_hap_packet(&packet), None);
    let fine = section(0xAB, &[1, 2, 3]);
    assert_eq!(try_decode_hap_packet(&fine), Some(vec![1, 2, 3]));
}

#[test]
fn le32_words_are_little_endian() {
    assert_eq!(read_le32_words(&[1, 0, 0, 0, 0x78, 0x56, 0x34, 0x12]), vec![1, 0x12345678]);
    assert_eq!(read_le32_words(&[]), Vec::<u32>::new());
}
