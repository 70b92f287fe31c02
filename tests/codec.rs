use goster::cobs::{cobs_decode, cobs_encode, DecodeError};
use goster::frame::{encode_goster_frame, header_crc16};
use goster::protocol::{
    serialize_header, GosterHeader, CMD_METRICS_REPORT, CMD_TIME_SYNC, FRAME_BUF_SIZE,
    GOSTER_MAGIC, GOSTER_VERSION, PAYLOAD_SIZE,
};

fn stuff(input: &[u8]) -> Vec<u8> {
    let mut out = vec![0u8; input.len() + input.len() / 254 + 2];
    let n = cobs_encode(input, &mut out).unwrap();
    out.truncate(n);
    out
}

fn round_trip(payload: &[u8]) -> Vec<u8> {
    let stuffed = stuff(payload);
    assert_eq!(*stuffed.last().unwrap(), 0);
    let body = &stuffed[..stuffed.len() - 1];
    assert!(!body.contains(&0));
    let mut out = vec![0u8; payload.len()];
    let n = cobs_decode(body, &mut out).unwrap();
    out.truncate(n);
    out
}

#[test]
fn stuffing_round_trips_short_payloads() {
    for payload in [
        vec![],
        vec![0u8],
        vec![0u8, 0u8],
        vec![1u8],
        vec![0x11, 0x22, 0x00, 0x33],
        vec![0x11, 0x00, 0x00, 0x00],
        vec![0x00, 0x52, 0x00],
    ] {
        assert_eq!(round_trip(&payload), payload);
    }
}

#[test]
fn stuffing_round_trips_long_runs() {
    for len in [253usize, 254, 255, 300, 508, 509, PAYLOAD_SIZE] {
        let nonzero: Vec<u8> = (0..len).map(|i| (i % 255 + 1) as u8).collect();
        assert_eq!(round_trip(&nonzero), nonzero);
        let mixed: Vec<u8> = (0..len).map(|i| (i % 7) as u8).collect();
        assert_eq!(round_trip(&mixed), mixed);
    }
}

#[test]
fn stuffing_known_encodings() {
    assert_eq!(stuff(&[]), vec![0x01, 0x00]);
    assert_eq!(stuff(&[0x00]), vec![0x01, 0x01, 0x00]);
    assert_eq!(stuff(&[0x11, 0x22, 0x00, 0x33]), vec![0x03, 0x11, 0x22, 0x02, 0x33, 0x00]);
    let run: Vec<u8> = vec![0xAB; 254];
    let s = stuff(&run);
    assert_eq!(s.len(), 257);
    assert_eq!(s[0], 0xFF);
    assert_eq!(&s[1..255], &run[..]);
    assert_eq!(&s[255..], &[0x01, 0x00]);
}

#[test]
fn stuffing_needs_worst_case_room() {
    let input = [1u8, 2, 3];
    let mut small = [0xEEu8; 4];
    assert_eq!(cobs_encode(&input, &mut small), Err(()));
    assert_eq!(small, [0xEE; 4]);
    let mut exact = [0xEEu8; 5];
    assert_eq!(cobs_encode(&input, &mut exact), Ok(5));
    assert_eq!(exact, [0x04, 1, 2, 3, 0]);
}

#[test]
fn decode_rejects_embedded_zero_count() {
    let stream = [0x03, 0x11, 0x22, 0x00, 0x02, 0x33];
    let mut out = [0xEEu8; 8];
    assert_eq!(cobs_decode(&stream, &mut out), Err(DecodeError::ZeroCount));
    let mut tiny = [0u8; 1];
    assert_eq!(cobs_decode(&[0x00], &mut tiny), Err(DecodeError::ZeroCount));
}

#[test]
fn decode_reports_truncation() {
    let mut out = [0u8; 8];
    assert_eq!(cobs_decode(&[0x05, 0x11, 0x22], &mut out), Err(DecodeError::Truncated));
}

#[test]
fn decode_reports_full_output() {
    let mut out = [0u8; 2];
    assert_eq!(cobs_decode(&[0x04, 0x11, 0x22, 0x33], &mut out), Err(DecodeError::OutputFull));
    let mut two = [0u8; 2];
    assert_eq!(cobs_decode(&[0x03, 0x11, 0x22, 0x01], &mut two), Err(DecodeError::OutputFull));
    let mut three = [0u8; 3];
    assert_eq!(cobs_decode(&[0x03, 0x11, 0x22, 0x01], &mut three), Ok(3));
    assert_eq!(three, [0x11, 0x22, 0x00]);
}

#[test]
fn decode_empty_stream() {
    let mut out = [0u8; 4];
    assert_eq!(cobs_decode(&[], &mut out), Ok(0));
}

fn crc16(bytes: &[u8]) -> u16 {
    crc::Crc::<u16>::new(&crc::CRC_16_MODBUS).checksum(bytes)
}

fn crc32(bytes: &[u8]) -> u32 {
    crc::Crc::<u32>::new(&crc::CRC_32_ISO_HDLC).checksum(bytes)
}

fn header_with(cmd_id: u16, length: u32) -> GosterHeader {
    let mut h = GosterHeader::default();
    h.cmd_id = cmd_id;
    h.length = length;
    h.nonce[4] = 9;
    h
}

fn header_wire(h: &GosterHeader) -> [u8; 32] {
    let mut buf = [0u8; 32];
    serialize_header(h, &mut buf);
    buf
}

#[test]
fn header_layout_is_little_endian() {
    let mut h = GosterHeader::default();
    h.status = 0x0201;
    h.cmd_id = CMD_TIME_SYNC;
    h.key_id = 0x0605_0403;
    h.length = 0x0A09_0807;
    h.nonce = [0x10, 0x11, 0x12, 0x13, 0x14, 0x15, 0x16, 0x17, 0x18, 0x19, 0x1A, 0x1B];
    h.h_crc16 = 0xBEEF;
    h.padding = 0x0102;
    let b = header_wire(&h);
    assert_eq!(&b[0..2], &[0x59, 0x57]);
    assert_eq!(b[2], GOSTER_VERSION);
    assert_eq!(b[3], 0);
    assert_eq!(&b[4..6], &[0x01, 0x02]);
    assert_eq!(&b[6..8], &[0x04, 0x02]);
    assert_eq!(&b[8..12], &[0x03, 0x04, 0x05, 0x06]);
    assert_eq!(&b[12..16], &[0x07, 0x08, 0x09, 0x0A]);
    assert_eq!(&b[16..28], &h.nonce);
    assert_eq!(&b[28..30], &[0xEF, 0xBE]);
    assert_eq!(&b[30..32], &[0x02, 0x01]);
}

#[test]
fn header_crc_covers_first_28_bytes() {
    let h = header_with(CMD_METRICS_REPORT, 17);
    let expected = crc16(&header_wire(&h)[..28]);
    assert_eq!(header_crc16(&h), expected);
    assert_ne!(expected, 0);
}

#[test]
fn header_crc_is_stable_under_recomputation() {
    let mut h = header_with(CMD_METRICS_REPORT, 273);
    let first = header_crc16(&h);
    h.h_crc16 = first;
    h.padding = 0xFFFF;
    assert_eq!(header_crc16(&h), first);
    assert_eq!(header_crc16(&h), header_crc16(&h));
}

#[test]
fn header_crc_changes_with_any_covered_byte() {
    let h = header_with(CMD_METRICS_REPORT, 17);
    let base = header_crc16(&h);
    let bytes = header_wire(&h);
    for i in 0..28 {
        let mut changed = bytes;
        changed[i] ^= 0x01;
        let mut g = h;
        g.magic = u16::from_le_bytes([changed[0], changed[1]]);
        g.version = changed[2];
        g.flags = changed[3];
        g.status = u16::from_le_bytes([changed[4], changed[5]]);
        g.cmd_id = u16::from_le_bytes([changed[6], changed[7]]);
        g.key_id = u32::from_le_bytes([changed[8], changed[9], changed[10], changed[11]]);
        g.length = u32::from_le_bytes([changed[12], changed[13], changed[14], changed[15]]);
        g.nonce.copy_from_slice(&changed[16..28]);
        assert_ne!(header_crc16(&g), base, "byte {}", i);
    }
}

fn encode(cmd_id: u16, payload: &[u8], seq: u64) -> (Vec<u8>, Vec<u8>) {
    let mut buffer = vec![0xEEu8; FRAME_BUF_SIZE];
    let mut temp = vec![0xEEu8; FRAME_BUF_SIZE];
    let n = encode_goster_frame(cmd_id, payload, seq, &mut buffer, &mut temp).unwrap();
    buffer.truncate(n);
    temp.truncate(32 + payload.len() + 16);
    (buffer, temp)
}

#[test]
fn frame_layout_and_checksums() {
    let payload = [0xDE, 0xAD, 0x00, 0xBE, 0xEF];
    let seq = 0x0102_0304_0506_0708u64;
    let (wire, frame) = encode(CMD_METRICS_REPORT, &payload, seq);
    assert_eq!(frame.len(), 53);
    assert_eq!(u16::from_le_bytes([frame[0], frame[1]]), GOSTER_MAGIC);
    assert_eq!(frame[2], GOSTER_VERSION);
    assert_eq!(u16::from_le_bytes([frame[6], frame[7]]), CMD_METRICS_REPORT);
    assert_eq!(u32::from_le_bytes([frame[12], frame[13], frame[14], frame[15]]), 5);
    assert_eq!(&frame[16..20], &[0, 0, 0, 0]);
    assert_eq!(&frame[20..28], &seq.to_le_bytes());
    assert_eq!(u16::from_le_bytes([frame[28], frame[29]]), crc16(&frame[..28]));
    assert_eq!(&frame[30..32], &[0, 0]);
    assert_eq!(&frame[32..37], &payload);
    assert_eq!(&frame[37..41], &crc32(&frame[..37]).to_le_bytes());
    assert_eq!(&frame[41..53], &[0u8; 12]);
    assert_eq!(wire, stuff(&frame));
    let mut decoded = [0u8; 64];
    let n = cobs_decode(&wire[..wire.len() - 1], &mut decoded).unwrap();
    assert_eq!(&decoded[..n], &frame[..]);
}

#[test]
fn frame_carries_sequence_number_at_wrap() {
    let (_, frame) = encode(CMD_METRICS_REPORT, &[1, 2, 3], u64::MAX);
    assert_eq!(&frame[20..28], &[0xFF; 8]);
    let (_, frame) = encode(CMD_METRICS_REPORT, &[1, 2, 3], 0);
    assert_eq!(&frame[20..28], &[0; 8]);
}

#[test]
fn frame_of_largest_payload_fits_buffers() {
    let payload: Vec<u8> = (0..PAYLOAD_SIZE).map(|i| (i % 256) as u8).collect();
    let (wire, frame) = encode(CMD_METRICS_REPORT, &payload, 7);
    assert_eq!(frame.len(), 32 + PAYLOAD_SIZE + 16);
    assert!(wire.len() <= FRAME_BUF_SIZE);
}

#[test]
fn frame_encode_fails_cleanly_when_undersized() {
    let payload = [1u8, 2, 3, 4];
    let mut buffer = vec![0xEEu8; FRAME_BUF_SIZE];
    let mut temp = vec![0xEEu8; 32 + 4 + 15];
    assert_eq!(encode_goster_frame(CMD_METRICS_REPORT, &payload, 1, &mut buffer, &mut temp), Err(()));
    assert!(buffer.iter().all(|b| *b == 0xEE));
    assert!(temp.iter().all(|b| *b == 0xEE));
    let mut temp = vec![0xEEu8; 32 + 4 + 16];
    let mut buffer = vec![0xEEu8; 52 + 52 / 254 + 1];
    assert_eq!(encode_goster_frame(CMD_METRICS_REPORT, &payload, 1, &mut buffer, &mut temp), Err(()));
    assert!(buffer.iter().all(|b| *b == 0xEE));
    assert!(temp.iter().all(|b| *b == 0xEE));
    let mut buffer = vec![0xEEu8; 52 + 52 / 254 + 2];
    assert!(encode_goster_frame(CMD_METRICS_REPORT, &payload, 1, &mut buffer, &mut temp).is_ok());
}
