//! The W25Q64 SPI NOR flash: its geometry, command framing, and the plans
//! that reads, page programs and sector erases follow. The SPI transfers are
//! made by the caller.
use vstd::prelude::*;

verus! {

pub const SECTOR_SIZE: u32 = 4096;

pub const PAGE_SIZE: u32 = 256;

pub const CAPACITY: u32 = 8 * 1024 * 1024;

pub const CMD_PAGE_PROGRAM: u8 = 0x02;

pub const CMD_READ_DATA: u8 = 0x03;

pub const CMD_READ_STATUS: u8 = 0x05;

pub const CMD_WRITE_ENABLE: u8 = 0x06;

pub const CMD_SECTOR_ERASE: u8 = 0x20;

/// A failed flash operation.
#[derive(Debug)]
pub enum DeviceError<SpiErr> {
    /// The SPI bus reported an error.
    Spi(SpiErr),
    /// The operation reaches past the end of the chip.
    AddressOutOfBounds,
}

/// The chip on its SPI bus and chip-select pin.
pub struct W25q64Device<SPI, CS> {
    spi_inst: SPI,
    cs_pin: CS,
}

impl<SPI, CS> W25q64Device<SPI, CS> {
    pub closed spec fn spi(&self) -> SPI {
        self.spi_inst
    }

    pub closed spec fn cs(&self) -> CS {
        self.cs_pin
    }

    pub fn new(spi_inst: SPI, cs_pin: CS) -> (d: W25q64Device<SPI, CS>)
        ensures
            d.spi() == spi_inst,
            d.cs() == cs_pin,
    {
        W25q64Device { spi_inst, cs_pin }
    }

    /// The bus and the chip-select pin, to run a transfer on.
    pub fn parts(&mut self) -> (r: (&mut SPI, &mut CS))
        ensures
            *r.0 == old(self).spi(),
            *r.1 == old(self).cs(),
            final(self).spi() == *final(r.0),
            final(self).cs() == *final(r.1),
    {
        (&mut self.spi_inst, &mut self.cs_pin)
    }
}

/// The four bytes that start a command at `addr`: the opcode, then the
/// address's low 24 bits, most significant first.
pub open spec fn command_bytes(op: u8, addr: u32) -> Seq<u8> {
    seq![op, (addr / 0x1_0000 % 256) as u8, (addr / 0x100 % 256) as u8, (addr % 256) as u8]
}

pub fn command(op: u8, addr: u32) -> (r: [u8; 4])
    ensures
        r@ == command_bytes(op, addr),
{
    let r = [op, (addr / 0x1_0000 % 256) as u8, (addr / 0x100 % 256) as u8, (addr % 256) as u8];
    assert(r@ =~= command_bytes(op, addr));
    r
}

/// Whether a status register value says the chip is still busy.
pub fn is_busy(status: u8) -> (r: bool)
    ensures
        r == (status % 2 == 1),
{
    status % 2 == 1
}

/// Checks that `len` bytes from `addr` lie on the chip.
pub fn check_range<E>(addr: u32, len: usize) -> (r: Result<(), DeviceError<E>>)
    ensures
        r is Ok <==> addr + len <= CAPACITY,
        r matches Err(e) ==> e is AddressOutOfBounds,
{
    if len > CAPACITY as usize || addr > CAPACITY - len as u32 {
        Err(DeviceError::AddressOutOfBounds)
    } else {
        Ok(())
    }
}

/// One page program: `len` bytes of the data, from `offset` in it, written at
/// `addr`.
#[derive(Debug, Clone, Copy, PartialEq, Eq, Structural)]
pub struct PageChunk {
    pub addr: u32,
    pub offset: usize,
    pub len: usize,
}

/// The bytes that fit from `addr` to the end of its page.
pub open spec fn page_room(addr: int) -> int {
    PAGE_SIZE - addr % (PAGE_SIZE as int)
}

/// Splits writing `len` bytes at `addr` into page programs: consecutive
/// chunks, each running to the end of its page or to the end of the data.
pub fn plan_page_writes(addr: u32, len: usize) -> (r: Vec<PageChunk>)
    requires
        addr + len <= u32::MAX,
    ensures
        len == 0 <==> r@.len() == 0,
        r@.len() > 0 ==> r@[0].addr == addr && r@[0].offset == 0,
        r@.len() > 0 ==> r@.last().offset + r@.last().len == len,
        forall|i: int|
            0 <= i < r@.len() ==> {
                &&& (#[trigger] r@[i]).addr == addr + r@[i].offset
                &&& 0 < r@[i].len <= page_room(r@[i].addr as int)
                &&& r@[i].offset + r@[i].len == len || r@[i].len == page_room(r@[i].addr as int)
            },
        forall|i: int|
            0 <= i < r@.len() - 1 ==> #[trigger] r@[i + 1].offset == r@[i].offset + r@[i].len,
{
    let mut plan: Vec<PageChunk> = Vec::new();
    let mut offset: usize = 0;
    while offset < len
        invariant
            offset <= len,
            addr + len <= u32::MAX,
            offset == 0 <==> plan@.len() == 0,
            plan@.len() > 0 ==> plan@[0].addr == addr && plan@[0].offset == 0,
            plan@.len() > 0 ==> plan@.last().offset + plan@.last().len == offset,
            forall|i: int|
                0 <= i < plan@.len() ==> {
                    &&& (#[trigger] plan@[i]).addr == addr + plan@[i].offset
                    &&& 0 < plan@[i].len <= page_room(plan@[i].addr as int)
                    &&& plan@[i].offset + plan@[i].len == len || plan@[i].len == page_room(
                        plan@[i].addr as int,
                    )
                },
            forall|i: int|
                0 <= i < plan@.len() - 1 ==> #[trigger] plan@[i + 1].offset == plan@[i].offset
                    + plan@[i].len,
        decreases len - offset,
    {
        let at = addr + offset as u32;
        let room = (PAGE_SIZE - at % PAGE_SIZE) as usize;
        let remaining = len - offset;
        let chunk = if remaining < room {
            remaining
        } else {
            room
        };
        plan.push(PageChunk { addr: at, offset, len: chunk });
        offset = offset + chunk;
    }
    plan
}

/// The sector addresses an erase of `from..to` touches: `from`, then every
/// `SECTOR_SIZE` bytes on, while below `to`.
pub fn plan_erase(from: u32, to: u32) -> (r: Vec<u32>)
    ensures
        forall|i: int| 0 <= i < r@.len() ==> #[trigger] r@[i] == from + i * SECTOR_SIZE,
        forall|i: int| 0 <= i < r@.len() ==> #[trigger] r@[i] < to,
        from + r@.len() * SECTOR_SIZE >= to,
{
    let mut plan: Vec<u32> = Vec::new();
    let mut current: u64 = from as u64;
    while current < to as u64
        invariant
            current == from + plan@.len() * SECTOR_SIZE,
            forall|i: int| 0 <= i < plan@.len() ==> #[trigger] plan@[i] == from + i * SECTOR_SIZE,
            forall|i: int| 0 <= i < plan@.len() ==> #[trigger] plan@[i] < to,
            plan@.len() > 0 ==> current <= to + SECTOR_SIZE,
        decreases to + SECTOR_SIZE - current,
    {
        plan.push(current as u32);
        current = current + SECTOR_SIZE as u64;
    }
    plan
}

} // verus!
