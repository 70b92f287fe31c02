//! Building a complete frame: header, payload, checksummed footer, stuffed for
//! the wire.
use vstd::prelude::*;
use vstd::slice::slice_subrange;
use crate::cobs::{cobs_encode, cobs_stuffed, stuffed_capacity};
use crate::protocol::{
    header_bytes, le16, le32, le64, overwrite, put_u32, put_u64, serialize_header, GosterHeader,
    FOOTER_LEN, GOSTER_MAGIC, GOSTER_VERSION, HEADER_CRC_SPAN, HEADER_LEN,
};

verus! {

/// The CRC-16/MODBUS checksum of `data`.
pub uninterp spec fn crc16_modbus(data: Seq<u8>) -> u16;

/// The CRC-32/ISO-HDLC checksum of `data`.
pub uninterp spec fn crc32_iso_hdlc(data: Seq<u8>) -> u32;

/// Relies on `crc::Crc::<u16>::checksum` with the `CRC_16_MODBUS` parameters:
/// the checksum is a function of the bytes alone.
#[verifier::external_body]
fn modbus_checksum(data: &[u8]) -> (r: u16)
    ensures
        r == crc16_modbus(data@),
{
    crc::Crc::<u16>::new(&crc::CRC_16_MODBUS).checksum(data)
}

/// Relies on `crc::Crc::<u32>::checksum` with the `CRC_32_ISO_HDLC` parameters:
/// the checksum is a function of the bytes alone.
#[verifier::external_body]
fn hdlc_checksum(data: &[u8]) -> (r: u32)
    ensures
        r == crc32_iso_hdlc(data@),
{
    crc::Crc::<u32>::new(&crc::CRC_32_ISO_HDLC).checksum(data)
}

/// The 28 checksummed header bytes of a frame: protocol magic and version,
/// the command, the payload length and the sequence number in nonce bytes 4..12;
/// every other field zero.
pub open spec fn header_prefix(cmd_id: u16, length: u32, seq: u64) -> Seq<u8> {
    le16(GOSTER_MAGIC) + seq![GOSTER_VERSION, 0u8] + le16(0) + le16(cmd_id) + le32(0) + le32(
        length,
    ) + seq![0u8, 0u8, 0u8, 0u8] + le64(seq)
}

/// The full 32-byte header: the prefix, its CRC-16, and zero padding.
pub open spec fn frame_header(cmd_id: u16, length: u32, seq: u64) -> Seq<u8> {
    let p = header_prefix(cmd_id, length, seq);
    p + le16(crc16_modbus(p)) + le16(0)
}

/// The unstuffed frame: header, payload, then a footer holding the CRC-32 of
/// header and payload followed by 12 zero bytes.
#[verifier::opaque]
pub open spec fn frame_bytes(cmd_id: u16, payload: Seq<u8>, seq: u64) -> Seq<u8> {
    let body = frame_header(cmd_id, payload.len() as u32, seq) + payload;
    body + le32(crc32_iso_hdlc(body)) + Seq::new(12, |i: int| 0u8)
}

/// The CRC-16 of a header's first 28 bytes; its own checksum field and the
/// padding are not covered.
pub fn header_crc16(header: &GosterHeader) -> (r: u16)
    ensures
        r == crc16_modbus(header_bytes(*header).take(HEADER_CRC_SPAN as int)),
{
    let mut header_buf = [0u8; HEADER_LEN];
    serialize_header(header, &mut header_buf);
    let covered = slice_subrange(header_buf.as_slice(), 0, HEADER_CRC_SPAN);
    assert(covered@ =~= header_bytes(*header).take(HEADER_CRC_SPAN as int));
    modbus_checksum(covered)
}

/// The header checksum is stable under recomputation: it covers header bytes
/// 0..28 only, so writing a checksum value and padding into a header leaves
/// the checksum computed from it unchanged.
pub proof fn header_crc_stable(h: GosterHeader, crc: u16, padding: u16)
    ensures
        crc16_modbus(header_bytes((GosterHeader { h_crc16: crc, padding, ..h })).take(
            HEADER_CRC_SPAN as int,
        )) == crc16_modbus(header_bytes(h).take(HEADER_CRC_SPAN as int)),
{
    let sealed = GosterHeader { h_crc16: crc, padding, ..h };
    assert(header_bytes(sealed).take(HEADER_CRC_SPAN as int) =~= header_bytes(h).take(
        HEADER_CRC_SPAN as int,
    ));
}

/// Writes the 16-byte footer at `at`: `crc` little-endian, then 12 zero bytes.
pub fn write_footer(buf: &mut [u8], at: usize, crc: u32)
    requires
        at + FOOTER_LEN <= old(buf)@.len(),
    ensures
        final(buf)@ == overwrite(old(buf)@, at as int, le32(crc) + Seq::new(12, |i: int| 0u8)),
{
    put_u32(buf, at, crc);
    let mut i: usize = 0;
    while i < 12
        invariant
            0 <= i <= 12,
            at + FOOTER_LEN <= buf.len(),
            buf@.len() == old(buf)@.len(),
            forall|j: int| 0 <= j < at + 4 ==> buf@[j] == overwrite(old(buf)@, at as int, le32(crc))[j],
            forall|j: int| at + 4 <= j < at + 4 + i ==> buf@[j] == 0,
            forall|j: int| at + 4 + i <= j < buf@.len() ==> buf@[j] == old(buf)@[j],
        decreases 12 - i,
    {
        buf[at + 4 + i] = 0;
        i = i + 1;
    }
    assert(buf@ =~= overwrite(old(buf)@, at as int, le32(crc) + Seq::new(12, |i: int| 0u8)));
}


/// Encodes one frame carrying `payload` under command `cmd_id` and sequence
/// number `seq` into `buffer`, stuffed and ending in the `0x00` delimiter;
/// `temp_buf` holds the unstuffed frame on the way. Returns the number of bytes
/// written to `buffer`.
///
/// Fails, changing neither buffer, when the payload is too long for the
/// header's length field, when `temp_buf` cannot hold the unstuffed frame, or
/// when `buffer` is shorter than the worst-case stuffed size of the frame.
pub fn encode_goster_frame(
    cmd_id: u16,
    payload: &[u8],
    seq: u64,
    buffer: &mut [u8],
    temp_buf: &mut [u8],
) -> (r: Result<usize, ()>)
    ensures
        final(buffer)@.len() == old(buffer)@.len(),
        final(temp_buf)@.len() == old(temp_buf)@.len(),
        r.is_err() <==> {
            ||| payload@.len() > u32::MAX
            ||| old(temp_buf)@.len() < HEADER_LEN + payload@.len() + FOOTER_LEN
            ||| old(buffer)@.len() < stuffed_capacity(HEADER_LEN + payload@.len() + FOOTER_LEN)
        },
        r.is_err() ==> final(buffer)@ == old(buffer)@ && final(temp_buf)@ == old(temp_buf)@,
        r matches Ok(n) ==> {
            let frame = frame_bytes(cmd_id, payload@, seq);
            &&& n <= old(buffer)@.len()
            &&& n == cobs_stuffed(frame).len() + 1
            &&& final(buffer)@.take(n as int) == cobs_stuffed(frame) + seq![0u8]
            &&& final(temp_buf)@.take(frame.len() as int) == frame
        },
{
    let plen = payload.len();
    if plen > u32::MAX as usize {
        return Err(());
    }
    if temp_buf.len() < HEADER_LEN + FOOTER_LEN || temp_buf.len() - (HEADER_LEN + FOOTER_LEN)
        < plen {
        return Err(());
    }
    let total = HEADER_LEN + plen + FOOTER_LEN;
    if buffer.len() < 2 || buffer.len() - 2 < total || buffer.len() - 2 - total < total / 254 {
        return Err(());
    }
    let mut i: usize = 0;
    while i < plen
        invariant
            plen == payload@.len(),
            HEADER_LEN + plen + FOOTER_LEN <= temp_buf.len(),
            temp_buf@.len() == old(temp_buf)@.len(),
            i <= plen,
            forall|j: int| 0 <= j < i ==> temp_buf@[HEADER_LEN + j] == payload@[j],
        decreases plen - i,
    {
        temp_buf[HEADER_LEN + i] = payload[i];
        i = i + 1;
    }
    let mut header = GosterHeader::default();
    header.cmd_id = cmd_id;
    header.length = plen as u32;
    let mut nonce = [0u8; 12];
    put_u64(&mut nonce, 4, seq);
    header.nonce = nonce;
    let ghost prefix = header_prefix(cmd_id, plen as u32, seq);
    assert(header_bytes(header).take(HEADER_CRC_SPAN as int) =~= prefix);
    header.h_crc16 = header_crc16(&header);
    assert(header_bytes(header) =~= frame_header(cmd_id, plen as u32, seq));
    serialize_header(&header, temp_buf);
    let body = slice_subrange(temp_buf, 0, HEADER_LEN + plen);
    let ghost body_bytes = frame_header(cmd_id, plen as u32, seq) + payload@;
    assert(body@ =~= body_bytes);
    let crc = hdlc_checksum(body);
    write_footer(temp_buf, HEADER_LEN + plen, crc);
    let framed = slice_subrange(temp_buf, 0, total);
    reveal(frame_bytes);
    assert(framed@ =~= frame_bytes(cmd_id, payload@, seq));
    cobs_encode(framed, buffer)
}

} // verus!
