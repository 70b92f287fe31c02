//! Layout of the persistent store on external flash: a key-value map region
//! and a queue region. Reading and writing them is asynchronous flash I/O and
//! is done by the caller over these regions.
use vstd::prelude::*;
use core::ops::Range;

verus! {

/// A key-value map and a queue sharing one flash address range: the map
/// takes the front, the queue the last `map_total_size` bytes.
pub struct Storage<'a, FLASH> {
    flash: &'a mut FLASH,
    map_range: Range<u32>,
    queue_range: Range<u32>,
}

impl<'a, FLASH> Storage<'a, FLASH> {
    /// Splits `start_addr..end_addr` at `end_addr - map_total_size`.
    pub fn new(flash: &'a mut FLASH, start_addr: u32, end_addr: u32, map_total_size: u32) -> (s:
        Storage<'a, FLASH>)
        requires
            map_total_size <= end_addr,
        ensures
            s.device() == *old(flash),
            s.map_range().start == start_addr,
            s.map_range().end == end_addr - map_total_size,
            s.queue_range().start == end_addr - map_total_size,
            s.queue_range().end == end_addr,
    {
        let split = end_addr - map_total_size;
        Storage { flash, map_range: Range { start: start_addr, end: split }, queue_range: Range {
            start: split,
            end: end_addr,
        } }
    }

    pub closed spec fn map_range(&self) -> Range<u32> {
        self.map_range
    }

    pub closed spec fn queue_range(&self) -> Range<u32> {
        self.queue_range
    }

    /// The addresses of the key-value map.
    pub fn map_region(&self) -> (r: Range<u32>)
        ensures
            r == self.map_range(),
    {
        Range { start: self.map_range.start, end: self.map_range.end }
    }

    /// The addresses of the queue.
    pub fn queue_region(&self) -> (r: Range<u32>)
        ensures
            r == self.queue_range(),
    {
        Range { start: self.queue_range.start, end: self.queue_range.end }
    }

    pub closed spec fn device(&self) -> FLASH {
        *self.flash
    }

    /// The flash device the store lives on.
    pub fn flash(&mut self) -> (r: &mut FLASH)
        ensures
            *r == old(self).device(),
            final(self).device() == *final(r),
            final(self).map_range() == old(self).map_range(),
            final(self).queue_range() == old(self).queue_range(),
    {
        &mut *self.flash
    }
}

/// A key-value map over one flash address range.
pub struct GosterStorage<'a, FLASH> {
    flash: &'a mut FLASH,
    range: Range<u32>,
}

impl<'a, FLASH> GosterStorage<'a, FLASH> {
    pub fn new(flash: &'a mut FLASH, start_addr: u32, end_addr: u32) -> (s: GosterStorage<
        'a,
        FLASH,
    >)
        ensures
            s.device() == *old(flash),
            s.range().start == start_addr,
            s.range().end == end_addr,
    {
        GosterStorage { flash, range: Range { start: start_addr, end: end_addr } }
    }

    pub closed spec fn range(&self) -> Range<u32> {
        self.range
    }

    /// The addresses of the map.
    pub fn region(&self) -> (r: Range<u32>)
        ensures
            r == self.range(),
    {
        Range { start: self.range.start, end: self.range.end }
    }

    pub closed spec fn device(&self) -> FLASH {
        *self.flash
    }

    /// The flash device the map lives on.
    pub fn flash(&mut self) -> (r: &mut FLASH)
        ensures
            *r == old(self).device(),
            final(self).device() == *final(r),
            final(self).range() == old(self).range(),
    {
        &mut *self.flash
    }
}

} // verus!
