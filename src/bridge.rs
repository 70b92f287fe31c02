//! The link to the radio peer: a three-state readiness machine, the receive
//! path that turns bytes into events, and the send path that turns reports
//! into frames. The serial port itself stays with the caller, who hands in
//! what was read and transmits what is produced.
use vstd::prelude::*;
use vstd::slice::slice_subrange;
use crate::cobs::{cobs_decode, cobs_stuffed, cobs_unstuffed, stuffed_capacity};
use crate::frame::{encode_goster_frame, frame_bytes};
use crate::protocol::{
    read_le16, read_le64, CMD_METRICS_REPORT, CMD_TIME_SYNC, FOOTER_LEN, FRAME_BUF_SIZE, HEADER_LEN,
    PAYLOAD_SIZE,
};
use crate::report::{report_payload, serialize_report, MetricReport};

verus! {

/// Byte the peer sends when it is awake and ready to receive.
pub const HANDSHAKE_BYTE: u8 = 0x52;

/// Byte that ends every frame; sent alone, it is the wake pulse.
pub const FRAME_DELIMITER: u8 = 0x00;

/// Bytes of an incoming frame that are kept.
pub const RX_BUF_LEN: usize = 128;

/// Delay steps a bounded wait for the handshake may take.
pub const WAIT_STEP_LIMIT: u32 = 5000;

/// Delay steps between wake pulses during a bounded wait.
pub const WAKE_RESEND_STEPS: u32 = 500;

/// Readiness of the peer.
#[derive(Debug, Clone, Copy, PartialEq, Eq, Structural)]
pub enum LinkState {
    NotReady,
    AwaitingReady,
    Ready,
}

/// What moves the link from one state to another.
#[derive(Debug, Clone, Copy, PartialEq, Eq, Structural)]
pub enum LinkEvent {
    /// A wake pulse went out.
    WakeSent,
    /// The peer sent the handshake byte.
    HandshakeReceived,
    /// A time-sync frame arrived, which shows the peer is awake.
    TimeSyncReceived,
    /// A whole batch went out; the next one must handshake again.
    BatchSent,
}

/// What the receive path reports to the caller.
#[derive(Debug, Clone, Copy, PartialEq, Eq, Structural)]
pub enum BridgeEvent {
    /// Nothing for the caller to act on.
    NoEvent,
    /// The peer's clock, in milliseconds since the epoch.
    TimeSync(u64),
    /// The peer signalled readiness.
    EspReady,
}

/// One attempt to read the serial port.
#[derive(Debug, Clone, Copy, PartialEq, Eq, Structural)]
pub enum SerialRead {
    Byte(u8),
    /// Nothing was waiting.
    WouldBlock,
    /// An overrun or framing error; the port clears it itself.
    Fault,
}

/// How to behave when a batch is due and the peer is not ready.
#[derive(Debug, Clone, Copy, PartialEq, Eq, Structural)]
pub enum SendMode {
    /// Report `NotReady` at once; the caller wakes the peer and retries.
    Cooperative,
    /// Wake the peer and wait for it, a bounded number of steps.
    BoundedWait,
}

/// Why a batch was not sent.
#[derive(Debug, Clone, Copy, PartialEq, Eq, Structural)]
pub enum SendError {
    /// The peer has not signalled readiness.
    NotReady,
    /// The peer did not signal readiness within the wait bound.
    LinkTimeout,
}

/// How a batch send begins.
#[derive(Debug, Clone, Copy, PartialEq, Eq, Structural)]
pub enum SendStart {
    /// The peer is ready; send now.
    Ready,
    /// A bounded wait has begun: flush stale received bytes, send the wake
    /// pulse, then run `wait_step` until it answers.
    WaitForPeer,
}

/// One step of a bounded wait for the handshake.
#[derive(Debug, Clone, Copy, PartialEq, Eq, Structural)]
pub enum WaitStep {
    /// The peer is ready; send now.
    Ready,
    /// Delay one step, then read again.
    Waiting,
    /// Send another wake pulse, delay one step, then read again.
    ResendWake,
}

/// The state that `e` moves the link to from `s`.
pub open spec fn link_next(s: LinkState, e: LinkEvent) -> LinkState {
    match e {
        LinkEvent::WakeSent => if s == LinkState::Ready {
            LinkState::Ready
        } else {
            LinkState::AwaitingReady
        },
        LinkEvent::HandshakeReceived => LinkState::Ready,
        LinkEvent::TimeSyncReceived => LinkState::Ready,
        LinkEvent::BatchSent => LinkState::NotReady,
    }
}

/// The link's transition function.
pub fn next_state(s: LinkState, e: LinkEvent) -> (r: LinkState)
    ensures
        r == link_next(s, e),
{
    match e {
        LinkEvent::WakeSent => if s == LinkState::Ready {
            LinkState::Ready
        } else {
            LinkState::AwaitingReady
        },
        LinkEvent::HandshakeReceived => LinkState::Ready,
        LinkEvent::TimeSyncReceived => LinkState::Ready,
        LinkEvent::BatchSent => LinkState::NotReady,
    }
}

/// The event a received frame (delimiter removed) gives: a time sync when it
/// decodes into at most `RX_BUF_LEN` bytes, holds at least header and 8
/// payload bytes, and carries the time-sync command; otherwise none.
pub open spec fn frame_event(frame: Seq<u8>) -> BridgeEvent {
    match cobs_unstuffed(frame, RX_BUF_LEN as int) {
        Ok(d) => if d.len() >= 40 && read_le16(d.subrange(6, 8)) == CMD_TIME_SYNC {
            BridgeEvent::TimeSync(read_le64(d.subrange(32, 40)))
        } else {
            BridgeEvent::NoEvent
        },
        Err(_) => BridgeEvent::NoEvent,
    }
}

/// The sequence number after `s`, wrapping to 0 after the largest.
pub open spec fn next_seq(s: u64) -> u64 {
    if s == u64::MAX {
        0
    } else {
        (s + 1) as u64
    }
}

/// The bytes that carry `payload` under command `cmd_id` and number `seq`:
/// the stuffed frame and its delimiter.
pub open spec fn wire_frame(cmd_id: u16, payload: Seq<u8>, seq: u64) -> Seq<u8> {
    cobs_stuffed(frame_bytes(cmd_id, payload, seq)) + seq![0u8]
}

/// How many of `reports` have samples, and so are sent.
pub open spec fn reports_sent(reports: Seq<MetricReport>) -> nat
    decreases reports.len(),
{
    if reports.len() == 0 {
        0
    } else {
        reports_sent(reports.drop_last()) + if reports.last().count > 0 {
            1nat
        } else {
            0nat
        }
    }
}

/// `seq` advanced `n` times.
pub open spec fn seq_after(seq: u64, n: nat) -> u64
    decreases n,
{
    if n == 0 {
        seq
    } else {
        next_seq(seq_after(seq, (n - 1) as nat))
    }
}

/// Sequence numbers count frames modulo 2^64: after `n` frames sent from
/// number `seq`, the next number is `(seq + n) mod 2^64`, so each frame adds
/// exactly one and the largest number is followed by 0.
pub proof fn sequence_advances_by_count(seq: u64, n: nat)
    ensures
        seq_after(seq, n) == (seq + n) % 0x1_0000_0000_0000_0000,
    decreases n,
{
    if n > 0 {
        sequence_advances_by_count(seq, (n - 1) as nat);
        let m: int = 0x1_0000_0000_0000_0000;
        let prev = (seq + n - 1) % m;
        assert((prev + 1) % m == (seq + n) % m) by {
            vstd::arithmetic::div_mod::lemma_add_mod_noop(seq + n - 1, 1, m);
            vstd::arithmetic::div_mod::lemma_small_mod(1, m as nat);
        }
        assert(prev + 1 < m ==> (prev + 1) % m == prev + 1) by {
            if prev + 1 < m {
                vstd::arithmetic::div_mod::lemma_small_mod((prev + 1) as nat, m as nat);
            }
        }
        assert(prev + 1 == m ==> (prev + 1) % m == 0) by {
            if prev + 1 == m {
                vstd::arithmetic::div_mod::lemma_mod_self_0(m);
            }
        }
    }
}

/// The step count after one more step of a bounded wait without the
/// handshake, when `w` steps were counted before it; it stops at the limit.
pub open spec fn wait_count_after(w: int) -> int {
    if w + 1 >= WAIT_STEP_LIMIT {
        WAIT_STEP_LIMIT as int
    } else {
        w + 1
    }
}

/// What a step of a bounded wait without the handshake answers when `w`
/// steps were counted before it.
pub open spec fn wait_answer(w: int) -> Result<WaitStep, SendError> {
    let steps = w + 1;
    if steps >= WAIT_STEP_LIMIT {
        Err(SendError::LinkTimeout)
    } else if steps % (WAKE_RESEND_STEPS as int) == 0 {
        Ok(WaitStep::ResendWake)
    } else {
        Ok(WaitStep::Waiting)
    }
}

/// The step count after `n` steps of a fresh bounded wait without the
/// handshake.
pub open spec fn waited_after(n: nat) -> int
    decreases n,
{
    if n == 0 {
        0
    } else {
        wait_count_after(waited_after((n - 1) as nat))
    }
}

proof fn lemma_waited_after(n: nat)
    ensures
        waited_after(n) == if n >= WAIT_STEP_LIMIT {
            WAIT_STEP_LIMIT as int
        } else {
            n as int
        },
    decreases n,
{
    if n > 0 {
        lemma_waited_after((n - 1) as nat);
    }
}

/// A bounded wait in which the handshake never comes ends after exactly
/// `WAIT_STEP_LIMIT` steps. Its `n`-th step (from 1, the wait started by
/// `begin_send`) asks for another wake pulse when `n` is a multiple of
/// `WAKE_RESEND_STEPS` below the limit and otherwise just waits; step
/// `WAIT_STEP_LIMIT`, and every step after it, fails with `LinkTimeout`.
pub proof fn bounded_wait_without_handshake(n: nat)
    requires
        n >= 1,
    ensures
        waited_after(n) == if n >= WAIT_STEP_LIMIT {
            WAIT_STEP_LIMIT as int
        } else {
            n as int
        },
        n >= WAIT_STEP_LIMIT ==> wait_answer(waited_after((n - 1) as nat)) == Err::<
            WaitStep,
            SendError,
        >(SendError::LinkTimeout),
        n < WAIT_STEP_LIMIT && (n as int) % (WAKE_RESEND_STEPS as int) == 0 ==> wait_answer(
            waited_after((n - 1) as nat),
        ) == Ok::<WaitStep, SendError>(WaitStep::ResendWake),
        n < WAIT_STEP_LIMIT && (n as int) % (WAKE_RESEND_STEPS as int) != 0 ==> wait_answer(
            waited_after((n - 1) as nat),
        ) == Ok::<WaitStep, SendError>(WaitStep::Waiting),
{
    lemma_waited_after(n);
    lemma_waited_after((n - 1) as nat);
}

/// The bytes a batch goes out as: one frame per report with samples, in
/// order, numbered from `seq` up.
pub open spec fn batch_wire(reports: Seq<MetricReport>, seq: u64) -> Seq<u8>
    decreases reports.len(),
{
    if reports.len() == 0 {
        Seq::empty()
    } else {
        let before = reports.drop_last();
        let r = reports.last();
        batch_wire(before, seq) + if r.count > 0 {
            wire_frame(CMD_METRICS_REPORT, report_payload(r), seq_after(seq, reports_sent(before)))
        } else {
            Seq::empty()
        }
    }
}

/// The bridge's protocol state: readiness, the frame being received, the
/// send sequence number and the buffers a frame is built in.
pub struct EspBridge {
    rx_buf: [u8; RX_BUF_LEN],
    rx_idx: usize,
    tx_seq: u64,
    tx_buf: [u8; FRAME_BUF_SIZE],
    scratch_buf: [u8; FRAME_BUF_SIZE],
    state: LinkState,
    wait_steps: u32,
}

impl EspBridge {
    /// Receive index and wait counter within their bounds.
    pub closed spec fn wf(self) -> bool {
        &&& self.rx_idx <= RX_BUF_LEN
        &&& self.wait_steps <= WAIT_STEP_LIMIT
    }

    pub closed spec fn link(self) -> LinkState {
        self.state
    }

    /// Bytes of the incoming frame received so far.
    pub closed spec fn pending(self) -> Seq<u8> {
        self.rx_buf@.take(self.rx_idx as int)
    }

    /// Sequence number of the next frame sent.
    pub closed spec fn seq(self) -> u64 {
        self.tx_seq
    }

    /// Steps taken by the current bounded wait.
    pub closed spec fn waited(self) -> u32 {
        self.wait_steps
    }

    /// The transmit buffer.
    pub closed spec fn tx(self) -> Seq<u8> {
        self.tx_buf@
    }

    /// A bridge that has heard nothing from the peer, whose first frame is
    /// numbered 0.
    pub fn new() -> (b: EspBridge)
        ensures
            b.wf(),
            b.link() == LinkState::NotReady,
            b.pending() == Seq::<u8>::empty(),
            b.seq() == 0,
            b.waited() == 0,
    {
        EspBridge::with_sequence(0)
    }

    /// Like `new`, with the first frame numbered `tx_seq`, as when resuming
    /// a numbering kept across restarts.
    pub fn with_sequence(tx_seq: u64) -> (b: EspBridge)
        ensures
            b.wf(),
            b.link() == LinkState::NotReady,
            b.pending() == Seq::<u8>::empty(),
            b.seq() == tx_seq,
            b.waited() == 0,
    {
        let b = EspBridge {
            rx_buf: [0u8; RX_BUF_LEN],
            rx_idx: 0,
            tx_seq,
            tx_buf: [0u8; FRAME_BUF_SIZE],
            scratch_buf: [0u8; FRAME_BUF_SIZE],
            state: LinkState::NotReady,
            wait_steps: 0,
        };
        assert(b.pending() =~= Seq::<u8>::empty());
        b
    }

    pub fn is_ready(&self) -> (r: bool)
        ensures
            r == (self.link() == LinkState::Ready),
    {
        self.state == LinkState::Ready
    }

    pub fn link_state(&self) -> (r: LinkState)
        ensures
            r == self.link(),
    {
        self.state
    }

    pub fn tx_seq(&self) -> (r: u64)
        ensures
            r == self.seq(),
    {
        self.tx_seq
    }

    /// The event the frame received so far stands for.
    fn process_frame(&self) -> (r: BridgeEvent)
        requires
            self.wf(),
        ensures
            r == frame_event(self.pending()),
    {
        let mut decode_buf = [0u8; RX_BUF_LEN];
        let frame = slice_subrange(self.rx_buf.as_slice(), 0, self.rx_idx);
        assert(frame@ =~= self.pending());
        let ghost cap = decode_buf@.len() as int;
        match cobs_decode(frame, &mut decode_buf) {
            Ok(len) => {
                let ghost decoded = decode_buf@.take(len as int);
                assert(cobs_unstuffed(frame@, cap) matches Ok(x) && x == decoded);
                if len >= 40 {
                    let d = decode_buf;
                    assert(d@ == decode_buf@);
                    assert(decoded.subrange(6, 8) =~= d@.subrange(6, 8));
                    assert(decoded.subrange(32, 40) =~= d@.subrange(32, 40));
                    let cmd_id = d[6] as u16 + 256 * d[7] as u16;
                    if cmd_id == CMD_TIME_SYNC {
                        let ts = d[32] as u64 + 0x100 * d[33] as u64 + 0x1_0000 * d[34] as u64
                            + 0x100_0000 * d[35] as u64 + 0x1_0000_0000 * d[36] as u64
                            + 0x100_0000_0000 * d[37] as u64 + 0x1_0000_0000_0000 * d[38] as u64
                            + 0x100_0000_0000_0000 * d[39] as u64;
                        return BridgeEvent::TimeSync(ts);
                    }
                }
                BridgeEvent::NoEvent
            },
            Err(_) => BridgeEvent::NoEvent,
        }
    }

    /// Handles one read of the serial port.
    ///
    /// The handshake byte makes the link ready. The delimiter ends the frame
    /// received so far: it is decoded, the receive buffer emptied, and a
    /// time-sync frame also makes the link ready. Any other byte is kept while
    /// the receive buffer has room and dropped after that. A fault or an empty
    /// read changes nothing.
    pub fn poll(&mut self, read: SerialRead) -> (r: BridgeEvent)
        requires
            old(self).wf(),
        ensures
            final(self).wf(),
            final(self).seq() == old(self).seq(),
            final(self).waited() == old(self).waited(),
            final(self).tx() == old(self).tx(),
            match read {
                SerialRead::Byte(b) => if b == HANDSHAKE_BYTE {
                    &&& r == BridgeEvent::EspReady
                    &&& final(self).link() == link_next(old(self).link(), LinkEvent::HandshakeReceived)
                    &&& final(self).pending() == old(self).pending()
                } else if b == FRAME_DELIMITER {
                    &&& r == frame_event(old(self).pending())
                    &&& final(self).pending() == Seq::<u8>::empty()
                    &&& final(self).link() == if r is TimeSync {
                        link_next(old(self).link(), LinkEvent::TimeSyncReceived)
                    } else {
                        old(self).link()
                    }
                } else {
                    &&& r == BridgeEvent::NoEvent
                    &&& final(self).link() == old(self).link()
                    &&& final(self).pending() == if old(self).pending().len() < RX_BUF_LEN {
                        old(self).pending().push(b)
                    } else {
                        old(self).pending()
                    }
                },
                _ => {
                    &&& r == BridgeEvent::NoEvent
                    &&& final(self).link() == old(self).link()
                    &&& final(self).pending() == old(self).pending()
                },
            },
    {
        match read {
            SerialRead::Byte(byte) => {
                if byte == HANDSHAKE_BYTE {
                    self.state = next_state(self.state, LinkEvent::HandshakeReceived);
                    return BridgeEvent::EspReady;
                }
                if byte == FRAME_DELIMITER {
                    let result = self.process_frame();
                    self.rx_idx = 0;
                    assert(self.pending() =~= Seq::<u8>::empty());
                    if let BridgeEvent::TimeSync(_) = result {
                        self.state = next_state(self.state, LinkEvent::TimeSyncReceived);
                    }
                    return result;
                }
                if self.rx_idx < RX_BUF_LEN {
                    let ghost before = self.pending();
                    self.rx_buf[self.rx_idx] = byte;
                    self.rx_idx = self.rx_idx + 1;
                    assert(self.pending() =~= before.push(byte));
                }
                BridgeEvent::NoEvent
            },
            _ => BridgeEvent::NoEvent,
        }
    }

    /// Asks a peer that is not ready to wake up. Returns whether the caller
    /// must flush stale received bytes and send the wake pulse (the delimiter
    /// byte alone); a ready link needs neither.
    pub fn request_wakeup(&mut self) -> (pulse: bool)
        requires
            old(self).wf(),
        ensures
            final(self).wf(),
            pulse == (old(self).link() != LinkState::Ready),
            final(self).link() == link_next(old(self).link(), LinkEvent::WakeSent),
            final(self).pending() == old(self).pending(),
            final(self).tx() == old(self).tx(),
            final(self).seq() == old(self).seq(),
            final(self).waited() == old(self).waited(),
    {
        let pulse = self.state != LinkState::Ready;
        self.state = next_state(self.state, LinkEvent::WakeSent);
        pulse
    }

    /// Starts a bounded wait for the handshake, as `request_wakeup` does, with
    /// the step count at zero.
    pub fn start_wait(&mut self) -> (pulse: bool)
        requires
            old(self).wf(),
        ensures
            final(self).wf(),
            pulse == (old(self).link() != LinkState::Ready),
            final(self).link() == link_next(old(self).link(), LinkEvent::WakeSent),
            final(self).pending() == old(self).pending(),
            final(self).tx() == old(self).tx(),
            final(self).seq() == old(self).seq(),
            final(self).waited() == 0,
    {
        self.wait_steps = 0;
        self.request_wakeup()
    }

    /// One step of a bounded wait: looks at one read for the handshake byte.
    ///
    /// Without it, the step is counted; the step that reaches
    /// `WAIT_STEP_LIMIT` fails with `LinkTimeout`, leaving the link as it was,
    /// and every `WAKE_RESEND_STEPS`-th step before that asks for another wake
    /// pulse. Other received bytes are not kept.
    pub fn wait_step(&mut self, read: SerialRead) -> (r: Result<WaitStep, SendError>)
        requires
            old(self).wf(),
        ensures
            final(self).wf(),
            final(self).pending() == old(self).pending(),
            final(self).seq() == old(self).seq(),
            final(self).tx() == old(self).tx(),
            old(self).link() == LinkState::Ready ==> r == Ok::<WaitStep, SendError>(WaitStep::Ready)
                && final(self).link() == LinkState::Ready && final(self).waited() == old(self).waited(),
            old(self).link() != LinkState::Ready && read == SerialRead::Byte(HANDSHAKE_BYTE) ==> {
                &&& r == Ok::<WaitStep, SendError>(WaitStep::Ready)
                &&& final(self).link() == link_next(old(self).link(), LinkEvent::HandshakeReceived)
                &&& final(self).waited() == old(self).waited()
            },
            old(self).link() != LinkState::Ready && read != SerialRead::Byte(HANDSHAKE_BYTE) ==> {
                &&& r == wait_answer(old(self).waited() as int)
                &&& final(self).waited() == wait_count_after(old(self).waited() as int)
                &&& final(self).link() == old(self).link()
            },
    {
        if self.state == LinkState::Ready {
            return Ok(WaitStep::Ready);
        }
        if read == SerialRead::Byte(HANDSHAKE_BYTE) {
            self.state = next_state(self.state, LinkEvent::HandshakeReceived);
            return Ok(WaitStep::Ready);
        }
        let steps = self.wait_steps + 1;
        if steps >= WAIT_STEP_LIMIT {
            self.wait_steps = WAIT_STEP_LIMIT;
            return Err(SendError::LinkTimeout);
        }
        self.wait_steps = steps;
        if steps % WAKE_RESEND_STEPS == 0 {
            Ok(WaitStep::ResendWake)
        } else {
            Ok(WaitStep::Waiting)
        }
    }

    /// Begins sending a batch under `mode`: at once when the link is ready;
    /// otherwise `NotReady` in cooperative mode, or a new bounded wait in
    /// bounded-wait mode.
    pub fn begin_send(&mut self, mode: SendMode) -> (r: Result<SendStart, SendError>)
        requires
            old(self).wf(),
        ensures
            final(self).wf(),
            final(self).pending() == old(self).pending(),
            final(self).seq() == old(self).seq(),
            final(self).tx() == old(self).tx(),
            old(self).link() == LinkState::Ready ==> r == Ok::<SendStart, SendError>(SendStart::Ready)
                && final(self).link() == old(self).link() && final(self).waited() == old(self).waited(),
            old(self).link() != LinkState::Ready && mode == SendMode::Cooperative ==> r == Err::<SendStart, SendError>(SendError::NotReady)
                && final(self).link() == old(self).link() && final(self).waited() == old(self).waited(),
            old(self).link() != LinkState::Ready && mode == SendMode::BoundedWait ==> {
                &&& r == Ok::<SendStart, SendError>(SendStart::WaitForPeer)
                &&& final(self).link() == link_next(old(self).link(), LinkEvent::WakeSent)
                &&& final(self).waited() == 0
            },
    {
        if self.state == LinkState::Ready {
            return Ok(SendStart::Ready);
        }
        match mode {
            SendMode::Cooperative => Err(SendError::NotReady),
            SendMode::BoundedWait => {
                self.start_wait();
                Ok(SendStart::WaitForPeer)
            },
        }
    }

    /// Encodes `report` as one metrics frame, numbered with the current
    /// sequence number, into the transmit buffer, and returns its length; the
    /// sequence number then advances, wrapping after the largest. A report
    /// without samples is skipped: `Ok(0)`, no frame, no number used. Fails
    /// with `NotReady`, changing nothing, when the link is not ready.
    pub fn encode_report(&mut self, report: &MetricReport) -> (r: Result<usize, SendError>)
        requires
            old(self).wf(),
            report.wf(),
        ensures
            final(self).wf(),
            final(self).link() == old(self).link(),
            final(self).pending() == old(self).pending(),
            final(self).waited() == old(self).waited(),
            old(self).link() != LinkState::Ready ==> r == Err::<usize, SendError>(SendError::NotReady)
                && final(self).seq() == old(self).seq() && final(self).tx() == old(self).tx(),
            old(self).link() == LinkState::Ready && report.count == 0 ==> {
                &&& r == Ok::<usize, SendError>(0)
                &&& final(self).seq() == old(self).seq()
                &&& final(self).tx() == old(self).tx()
            },
            old(self).link() == LinkState::Ready && report.count > 0 ==> {
                let wire = wire_frame(CMD_METRICS_REPORT, report_payload(*report), old(self).seq());
                &&& r == Ok::<usize, SendError>(wire.len() as usize)
                &&& wire.len() <= FRAME_BUF_SIZE
                &&& final(self).tx().take(wire.len() as int) == wire
                &&& final(self).seq() == next_seq(old(self).seq())
            },
    {
        if self.state != LinkState::Ready {
            return Err(SendError::NotReady);
        }
        if report.count == 0 {
            return Ok(0);
        }
        let mut payload_buf = [0u8; PAYLOAD_SIZE];
        let n = serialize_report(report, &mut payload_buf);
        let payload = slice_subrange(payload_buf.as_slice(), 0, n);
        assert(payload@ =~= report_payload(*report));
        assert(stuffed_capacity(HEADER_LEN + n + FOOTER_LEN) <= FRAME_BUF_SIZE) by {
            assert((HEADER_LEN + n + FOOTER_LEN) / 254 <= 1) by (nonlinear_arith)
                requires
                    n <= PAYLOAD_SIZE,
            ;
        }
        match encode_goster_frame(
            CMD_METRICS_REPORT,
            payload,
            self.tx_seq,
            &mut self.tx_buf,
            &mut self.scratch_buf,
        ) {
            Ok(len) => {
                self.tx_seq = self.tx_seq.wrapping_add(1);
                Ok(len)
            },
            Err(_) => {
                assert(false);
                Err(SendError::NotReady)
            },
        }
    }

    /// The first `len` bytes of the transmit buffer.
    pub fn tx_frame(&self, len: usize) -> (r: &[u8])
        requires
            len <= FRAME_BUF_SIZE,
        ensures
            r@ == self.tx().take(len as int),
    {
        slice_subrange(self.tx_buf.as_slice(), 0, len)
    }

    /// Sends a drained batch: appends to `out`, for transmission, one frame
    /// per report that has samples, in order and numbered consecutively
    /// (reports without samples are skipped), then ends readiness so that the
    /// next batch handshakes again. Returns how many frames were appended.
    /// Fails with `NotReady`, changing nothing, when the link is not ready.
    pub fn send_batch(&mut self, reports: &[MetricReport; 3], out: &mut Vec<u8>) -> (r: Result<
        usize,
        SendError,
    >)
        requires
            old(self).wf(),
            forall|i: int| 0 <= i < 3 ==> (#[trigger] reports@[i]).wf(),
        ensures
            final(self).wf(),
            final(self).pending() == old(self).pending(),
            final(self).waited() == old(self).waited(),
            old(self).link() != LinkState::Ready ==> {
                &&& r == Err::<usize, SendError>(SendError::NotReady)
                &&& final(self).link() == old(self).link()
                &&& final(self).seq() == old(self).seq()
                &&& final(out)@ == old(out)@
            },
            old(self).link() == LinkState::Ready ==> {
                let sent = reports_sent(reports@);
                &&& r == Ok::<usize, SendError>(sent as usize)
                &&& final(out)@ == old(out)@ + batch_wire(reports@, old(self).seq())
                &&& final(self).seq() == seq_after(old(self).seq(), sent)
                &&& final(self).link() == link_next(old(self).link(), LinkEvent::BatchSent)
            },
    {
        if self.state != LinkState::Ready {
            return Err(SendError::NotReady);
        }
        let ghost seq0 = self.tx_seq;
        let ghost all = reports@;
        let mut sent: usize = 0;
        let mut i: usize = 0;
        assert(all.take(0) =~= Seq::<MetricReport>::empty());
        assert(old(out)@ + Seq::<u8>::empty() =~= old(out)@);
        while i < 3
            invariant
                all == reports@,
                all.len() == 3,
                forall|k: int| 0 <= k < 3 ==> (#[trigger] all[k]).wf(),
                i <= 3,
                self.wf(),
                self.link() == LinkState::Ready,
                self.pending() == old(self).pending(),
                self.waited() == old(self).waited(),
                sent == reports_sent(all.take(i as int)),
                sent <= i,
                self.seq() == seq_after(seq0, sent as nat),
                out@ == old(out)@ + batch_wire(all.take(i as int), seq0),
            decreases 3 - i,
        {
            let ghost before = all.take(i as int);
            assert(all.take(i + 1).drop_last() =~= before);
            assert(all.take(i + 1).last() == all[i as int]);
            if reports[i].count > 0 {
                let n = match self.encode_report(&reports[i]) {
                    Ok(n) => n,
                    Err(_) => {
                        assert(false);
                        0
                    },
                };
                let frame = self.tx_frame(n);
                let ghost out0 = out@;
                let mut j: usize = 0;
                while j < n
                    invariant
                        j <= n,
                        frame@.len() == n,
                        out@ == out0 + frame@.take(j as int),
                    decreases n - j,
                {
                    out.push(frame[j]);
                    j = j + 1;
                    assert(out@ =~= out0 + frame@.take(j as int));
                }
                assert(frame@.take(n as int) =~= frame@);
                assert(out@ =~= old(out)@ + batch_wire(all.take(i + 1), seq0));
                sent = sent + 1;
            } else {
                assert(batch_wire(all.take(i + 1), seq0) =~= batch_wire(before, seq0));
            }
            i = i + 1;
        }
        assert(all.take(3) =~= all);
        self.state = next_state(self.state, LinkEvent::BatchSent);
        Ok(sent)
    }

    /// Ends readiness, so that the next batch handshakes again.
    pub fn reset_ready_state(&mut self)
        requires
            old(self).wf(),
        ensures
            final(self).wf(),
            final(self).link() == link_next(old(self).link(), LinkEvent::BatchSent),
            final(self).pending() == old(self).pending(),
            final(self).seq() == old(self).seq(),
            final(self).waited() == old(self).waited(),
    {
        self.state = next_state(self.state, LinkEvent::BatchSent);
    }
}

} // verus!
