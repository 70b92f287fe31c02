//! Identity of the microcontroller the node runs on.
use vstd::prelude::*;

verus! {

#[verifier::external_type_specification]
#[verifier::external_body]
pub struct ExHeaplessString<const N: usize>(heapless::String<N>);

/// The UTF-8 bytes a 24-byte string holds.
pub uninterp spec fn text_bytes(s: heapless::String<24>) -> Seq<u8>;

/// Relies on `heapless::String::new`: a new string is empty.
#[verifier::external_body]
fn text_new() -> (s: heapless::String<24>)
    ensures
        text_bytes(s) == Seq::<u8>::empty(),
{
    heapless::String::new()
}

/// Relies on `heapless::String::push`: an ASCII character is one byte,
/// appended while the string has room; a full string is left as it was.
#[verifier::external_body]
fn text_push(s: &mut heapless::String<24>, c: char) -> (r: Result<(), ()>)
    requires
        (c as u32) < 128,
    ensures
        text_bytes(*old(s)).len() < 24 ==> r is Ok,
        text_bytes(*old(s)).len() < 24 ==> text_bytes(*final(s)) == text_bytes(*old(s)).push(
            c as u8,
        ),
        text_bytes(*old(s)).len() >= 24 ==> r is Err,
        text_bytes(*old(s)).len() >= 24 ==> text_bytes(*final(s)) == text_bytes(*old(s)),
{
    s.push(c)
}

/// The unique ID, flash size and revision read from the chip.
pub struct DeviceMeta {
    pub uid: [u8; 12],
    pub flash_size: u16,
    pub dev_id: u16,
    pub rev_id: u16,
}

/// The upper-case hexadecimal digit for `d`, ASCII-encoded.
pub open spec fn hex_digit(d: u8) -> u8 {
    if d < 10 {
        (0x30 + d) as u8
    } else {
        (0x41 + d - 10) as u8
    }
}

/// Each byte of `b` as two upper-case hexadecimal digits, high digit first.
pub open spec fn hex_upper(b: Seq<u8>) -> Seq<u8>
    decreases b.len(),
{
    if b.len() == 0 {
        Seq::empty()
    } else {
        hex_upper(b.drop_last()) + seq![hex_digit(b.last() / 16), hex_digit(b.last() % 16)]
    }
}

proof fn lemma_hex_upper_len(b: Seq<u8>)
    ensures
        hex_upper(b).len() == 2 * b.len(),
    decreases b.len(),
{
    if b.len() > 0 {
        lemma_hex_upper_len(b.drop_last());
    }
}

fn hex_char(d: u8) -> (c: char)
    requires
        d < 16,
    ensures
        (c as u32) < 128,
        c as u8 == hex_digit(d),
{
    if d < 10 {
        (0x30 + d) as char
    } else {
        (0x41 + d - 10) as char
    }
}

impl DeviceMeta {
    /// The unique ID as 24 upper-case hexadecimal digits.
    pub fn uid_hex(&self) -> (s: heapless::String<24>)
        ensures
            text_bytes(s) == hex_upper(self.uid@),
    {
        let mut s = text_new();
        let mut i: usize = 0;
        while i < 12
            invariant
                i <= 12,
                text_bytes(s) == hex_upper(self.uid@.take(i as int)),
            decreases 12 - i,
        {
            let b = self.uid[i];
            proof {
                lemma_hex_upper_len(self.uid@.take(i as int));
                assert(self.uid@.take(i + 1).drop_last() =~= self.uid@.take(i as int));
            }
            let _ = text_push(&mut s, hex_char(b / 16));
            let _ = text_push(&mut s, hex_char(b % 16));
            i = i + 1;
        }
        assert(self.uid@.take(12) =~= self.uid@);
        s
    }
}

} // verus!
