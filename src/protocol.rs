//! Wire constants, the fixed 32-byte frame header and its little-endian layout.
use vstd::prelude::*;

verus! {

/// Most samples one channel buffer holds before it must be drained.
pub const MAX_SAMPLES: usize = 64;

/// Bytes of a serialized metric report: 17 fixed bytes plus 4 per sample.
pub const PAYLOAD_SIZE: usize = 17 + MAX_SAMPLES * 4;

/// Header, largest payload, footer and room for the stuffing overhead.
pub const FRAME_BUF_SIZE: usize = 32 + PAYLOAD_SIZE + 16 + 32;

/// Bytes of the frame header.
pub const HEADER_LEN: usize = 32;

/// Bytes of the frame footer: CRC-32 and 12 reserved zero bytes.
pub const FOOTER_LEN: usize = 16;

/// Header bytes covered by the header checksum.
pub const HEADER_CRC_SPAN: usize = 28;

pub const SENSOR_TYPE_TEMP: u8 = 0x01;

pub const SENSOR_TYPE_HUMI: u8 = 0x02;

pub const SENSOR_TYPE_PM25: u8 = 0x03;

pub const SENSOR_TYPE_LUX: u8 = 0x04;

pub const GOSTER_MAGIC: u16 = 0x5759;

pub const GOSTER_VERSION: u8 = 0x01;

pub const CMD_METRICS_REPORT: u16 = 0x0101;

pub const CMD_HEARTBEAT: u16 = 0x0104;

pub const CMD_TIME_SYNC: u16 = 0x0204;

/// Little-endian bytes of a `u16`.
pub open spec fn le16(x: u16) -> Seq<u8> {
    seq![(x % 256) as u8, (x / 256) as u8]
}

/// Little-endian bytes of a `u32`.
pub open spec fn le32(x: u32) -> Seq<u8> {
    seq![
        (x % 256) as u8,
        (x / 0x100 % 256) as u8,
        (x / 0x1_0000 % 256) as u8,
        (x / 0x100_0000) as u8,
    ]
}

/// Little-endian bytes of a `u64`.
pub open spec fn le64(x: u64) -> Seq<u8> {
    seq![
        (x % 256) as u8,
        (x / 0x100 % 256) as u8,
        (x / 0x1_0000 % 256) as u8,
        (x / 0x100_0000 % 256) as u8,
        (x / 0x1_0000_0000 % 256) as u8,
        (x / 0x100_0000_0000 % 256) as u8,
        (x / 0x1_0000_0000_0000 % 256) as u8,
        (x / 0x100_0000_0000_0000) as u8,
    ]
}

/// The `u16` whose little-endian bytes start `s`.
pub open spec fn read_le16(s: Seq<u8>) -> u16 {
    (s[0] as int + 0x100 * s[1]) as u16
}

/// The `u64` whose little-endian bytes start `s`.
pub open spec fn read_le64(s: Seq<u8>) -> u64 {
    (s[0] as int + 0x100 * s[1] + 0x1_0000 * s[2] + 0x100_0000 * s[3] + 0x1_0000_0000 * s[4]
        + 0x100_0000_0000 * s[5] + 0x1_0000_0000_0000 * s[6] + 0x100_0000_0000_0000
        * s[7]) as u64
}

/// The fixed frame header, in wire order.
#[derive(Debug, Clone, Copy)]
pub struct GosterHeader {
    pub magic: u16,
    pub version: u8,
    pub flags: u8,
    pub status: u16,
    pub cmd_id: u16,
    pub key_id: u32,
    pub length: u32,
    pub nonce: [u8; 12],
    pub h_crc16: u16,
    pub padding: u16,
}

/// The 32 bytes of a header: each field little-endian, at its fixed offset.
pub open spec fn header_bytes(h: GosterHeader) -> Seq<u8> {
    le16(h.magic) + seq![h.version, h.flags] + le16(h.status) + le16(h.cmd_id) + le32(h.key_id)
        + le32(h.length) + h.nonce@ + le16(h.h_crc16) + le16(h.padding)
}

impl Default for GosterHeader {
    fn default() -> (h: GosterHeader)
        ensures
            h.magic == GOSTER_MAGIC,
            h.version == GOSTER_VERSION,
            h.flags == 0,
            h.status == 0,
            h.cmd_id == 0,
            h.key_id == 0,
            h.length == 0,
            h.nonce@ == Seq::new(12, |i: int| 0u8),
            h.h_crc16 == 0,
            h.padding == 0,
    {
        let h = GosterHeader {
            magic: GOSTER_MAGIC,
            version: GOSTER_VERSION,
            flags: 0,
            status: 0,
            cmd_id: 0,
            key_id: 0,
            length: 0,
            nonce: [0u8; 12],
            h_crc16: 0,
            padding: 0,
        };
        assert(h.nonce@ =~= Seq::new(12, |i: int| 0u8));
        h
    }
}

/// `s` with `w` written over it from index `at`.
pub open spec fn overwrite(s: Seq<u8>, at: int, w: Seq<u8>) -> Seq<u8> {
    s.take(at) + w + s.skip(at + w.len())
}

/// Writes `x` little-endian at `at`.
pub fn put_u16(buf: &mut [u8], at: usize, x: u16)
    requires
        at + 2 <= old(buf)@.len(),
    ensures
        final(buf)@ == overwrite(old(buf)@, at as int, le16(x)),
{
    buf[at] = (x % 256) as u8;
    buf[at + 1] = (x / 256) as u8;
    assert(buf@ =~= overwrite(old(buf)@, at as int, le16(x)));
}

/// Writes `x` little-endian at `at`.
pub fn put_u32(buf: &mut [u8], at: usize, x: u32)
    requires
        at + 4 <= old(buf)@.len(),
    ensures
        final(buf)@ == overwrite(old(buf)@, at as int, le32(x)),
{
    buf[at] = (x % 256) as u8;
    buf[at + 1] = (x / 0x100 % 256) as u8;
    buf[at + 2] = (x / 0x1_0000 % 256) as u8;
    buf[at + 3] = (x / 0x100_0000) as u8;
    assert(buf@ =~= overwrite(old(buf)@, at as int, le32(x)));
}

/// Writes `x` little-endian at `at`.
pub fn put_u64(buf: &mut [u8], at: usize, x: u64)
    requires
        at + 8 <= old(buf)@.len(),
    ensures
        final(buf)@ == overwrite(old(buf)@, at as int, le64(x)),
{
    buf[at] = (x % 256) as u8;
    buf[at + 1] = (x / 0x100 % 256) as u8;
    buf[at + 2] = (x / 0x1_0000 % 256) as u8;
    buf[at + 3] = (x / 0x100_0000 % 256) as u8;
    buf[at + 4] = (x / 0x1_0000_0000 % 256) as u8;
    buf[at + 5] = (x / 0x100_0000_0000 % 256) as u8;
    buf[at + 6] = (x / 0x1_0000_0000_0000 % 256) as u8;
    buf[at + 7] = (x / 0x100_0000_0000_0000) as u8;
    assert(buf@ =~= overwrite(old(buf)@, at as int, le64(x)));
}

/// Writes the header's 32 wire bytes over the start of `buf`.
pub fn serialize_header(header: &GosterHeader, buf: &mut [u8])
    requires
        old(buf)@.len() >= HEADER_LEN,
    ensures
        final(buf)@ == overwrite(old(buf)@, 0, header_bytes(*header)),
{
    put_u16(buf, 0, header.magic);
    buf[2] = header.version;
    buf[3] = header.flags;
    put_u16(buf, 4, header.status);
    put_u16(buf, 6, header.cmd_id);
    put_u32(buf, 8, header.key_id);
    put_u32(buf, 12, header.length);
    let mut i: usize = 0;
    while i < 12
        invariant
            0 <= i <= 12,
            buf@.len() == old(buf)@.len(),
            old(buf)@.len() >= HEADER_LEN,
            forall|j: int| 0 <= j < i ==> buf@[16 + j] == header.nonce@[j],
            forall|j: int| 0 <= j < 16 ==> buf@[j] == #[trigger] header_bytes(*header)[j],
            forall|j: int| 28 <= j < buf@.len() ==> buf@[j] == old(buf)@[j],
        decreases 12 - i,
    {
        buf[16 + i] = header.nonce[i];
        i = i + 1;
    }
    put_u16(buf, 28, header.h_crc16);
    put_u16(buf, 30, header.padding);
    assert(buf@ =~= overwrite(old(buf)@, 0, header_bytes(*header)));
}

} // verus!
