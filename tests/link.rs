use goster::bridge::{
    BridgeEvent, EspBridge, LinkState, SendError, SendMode, SendStart, SerialRead, WaitStep,
    HANDSHAKE_BYTE, WAIT_STEP_LIMIT,
};
use goster::cobs::cobs_decode;
use goster::frame::encode_goster_frame;
use goster::protocol::{CMD_HEARTBEAT, CMD_METRICS_REPORT, CMD_TIME_SYNC, FRAME_BUF_SIZE};
use goster::report::MetricReport;

fn frame(cmd_id: u16, payload: &[u8]) -> Vec<u8> {
    let mut buffer = vec![0u8; FRAME_BUF_SIZE];
    let mut temp = vec![0u8; FRAME_BUF_SIZE];
    let n = encode_goster_frame(cmd_id, payload, 0, &mut buffer, &mut temp).unwrap();
    buffer.truncate(n);
    buffer
}

fn feed(bridge: &mut EspBridge, bytes: &[u8]) -> Vec<BridgeEvent> {
    bytes.iter().map(|b| bridge.poll(SerialRead::Byte(*b))).collect()
}

fn report(data_type: u8, samples: &[u32]) -> MetricReport {
    MetricReport {
        start_timestamp: 100_000,
        sample_interval: 1000,
        data_type,
        count: samples.len() as u32,
        data_blob: heapless::Vec::from_slice(samples).unwrap(),
    }
}

#[test]
fn handshake_byte_makes_link_ready() {
    let mut bridge = EspBridge::new();
    assert_eq!(bridge.link_state(), LinkState::NotReady);
    assert_eq!(bridge.poll(SerialRead::Byte(0x52)), BridgeEvent::EspReady);
    assert_eq!(bridge.link_state(), LinkState::Ready);
    assert!(bridge.is_ready());
}

#[test]
fn empty_reads_and_faults_change_nothing() {
    let mut bridge = EspBridge::new();
    assert_eq!(bridge.poll(SerialRead::WouldBlock), BridgeEvent::NoEvent);
    assert_eq!(bridge.poll(SerialRead::Fault), BridgeEvent::NoEvent);
    assert_eq!(bridge.link_state(), LinkState::NotReady);
}

#[test]
fn time_sync_frame_gives_clock_and_readiness() {
    let ts: u64 = 1_700_000_000_123;
    let wire = frame(CMD_TIME_SYNC, &ts.to_le_bytes());
    assert!(!wire[..wire.len() - 1].contains(&HANDSHAKE_BYTE));
    let mut bridge = EspBridge::new();
    let events = feed(&mut bridge, &wire);
    assert!(events[..events.len() - 1].iter().all(|e| *e == BridgeEvent::NoEvent));
    assert_eq!(*events.last().unwrap(), BridgeEvent::TimeSync(ts));
    assert_eq!(bridge.link_state(), LinkState::Ready);
}

#[test]
fn other_frames_give_no_event() {
    let mut bridge = EspBridge::new();
    let wire = frame(CMD_HEARTBEAT, &[1, 1, 1, 1, 1, 1, 1, 1]);
    assert_eq!(*feed(&mut bridge, &wire).last().unwrap(), BridgeEvent::NoEvent);
    assert_eq!(bridge.link_state(), LinkState::NotReady);
    assert_eq!(bridge.poll(SerialRead::Byte(0)), BridgeEvent::NoEvent);
}

fn stuffed(data: &[u8]) -> Vec<u8> {
    let mut out = vec![0u8; data.len() + 2];
    let n = goster::cobs::cobs_encode(data, &mut out).unwrap();
    out.truncate(n);
    out
}

#[test]
fn time_sync_needs_forty_decoded_bytes() {
    let mut data = vec![0x01u8; 40];
    data[6] = 0x04;
    data[7] = 0x02;
    let mut bridge = EspBridge::new();
    let short = stuffed(&data[..39]);
    assert_eq!(*feed(&mut bridge, &short).last().unwrap(), BridgeEvent::NoEvent);
    let full = stuffed(&data);
    let expected = u64::from_le_bytes([1; 8]);
    assert_eq!(*feed(&mut bridge, &full).last().unwrap(), BridgeEvent::TimeSync(expected));
}

#[test]
fn malformed_frame_is_dropped_and_next_one_decodes() {
    let mut bridge = EspBridge::new();
    assert_eq!(*feed(&mut bridge, &[0x09, 0x01, 0x00]).last().unwrap(), BridgeEvent::NoEvent);
    let ts: u64 = 42;
    let wire = frame(CMD_TIME_SYNC, &ts.to_le_bytes());
    assert_eq!(*feed(&mut bridge, &wire).last().unwrap(), BridgeEvent::TimeSync(42));
}

#[test]
fn overlong_frame_is_truncated_and_framing_recovers() {
    let mut bridge = EspBridge::new();
    let junk = vec![0x07u8; 300];
    assert!(feed(&mut bridge, &junk).iter().all(|e| *e == BridgeEvent::NoEvent));
    assert_eq!(bridge.poll(SerialRead::Byte(0)), BridgeEvent::NoEvent);
    let wire = frame(CMD_TIME_SYNC, &7u64.to_le_bytes());
    assert_eq!(*feed(&mut bridge, &wire).last().unwrap(), BridgeEvent::TimeSync(7));
}

#[test]
fn wakeup_pulses_only_when_not_ready() {
    let mut bridge = EspBridge::new();
    assert!(bridge.request_wakeup());
    assert_eq!(bridge.link_state(), LinkState::AwaitingReady);
    assert!(bridge.request_wakeup());
    assert_eq!(bridge.link_state(), LinkState::AwaitingReady);
    bridge.poll(SerialRead::Byte(0x52));
    assert!(!bridge.request_wakeup());
    assert_eq!(bridge.link_state(), LinkState::Ready);
}

#[test]
fn cooperative_send_batch_not_ready() {
    let mut bridge = EspBridge::new();
    assert_eq!(bridge.begin_send(SendMode::Cooperative), Err(SendError::NotReady));
    assert_eq!(bridge.link_state(), LinkState::NotReady);
    let r = report(1, &[1, 2]);
    assert_eq!(bridge.encode_report(&r), Err(SendError::NotReady));
    let mut out = Vec::new();
    let batch = [report(1, &[1]), report(2, &[2]), report(4, &[3])];
    assert_eq!(bridge.send_batch(&batch, &mut out), Err(SendError::NotReady));
    assert!(out.is_empty());
    assert_eq!(bridge.tx_seq(), 0);
}

#[test]
fn bounded_wait_times_out_after_limit() {
    let mut bridge = EspBridge::new();
    bridge.request_wakeup();
    assert_eq!(bridge.link_state(), LinkState::AwaitingReady);
    assert_eq!(bridge.begin_send(SendMode::BoundedWait), Ok(SendStart::WaitForPeer));
    for step in 1..WAIT_STEP_LIMIT {
        let r = bridge.wait_step(SerialRead::WouldBlock);
        if step % 500 == 0 {
            assert_eq!(r, Ok(WaitStep::ResendWake), "step {}", step);
        } else {
            assert_eq!(r, Ok(WaitStep::Waiting), "step {}", step);
        }
    }
    assert_eq!(bridge.wait_step(SerialRead::WouldBlock), Err(SendError::LinkTimeout));
    assert_ne!(bridge.link_state(), LinkState::Ready);
    assert_eq!(bridge.wait_step(SerialRead::Byte(0x11)), Err(SendError::LinkTimeout));
}

#[test]
fn bounded_wait_ends_on_handshake() {
    let mut bridge = EspBridge::new();
    assert_eq!(bridge.begin_send(SendMode::BoundedWait), Ok(SendStart::WaitForPeer));
    assert_eq!(bridge.link_state(), LinkState::AwaitingReady);
    assert_eq!(bridge.wait_step(SerialRead::WouldBlock), Ok(WaitStep::Waiting));
    assert_eq!(bridge.wait_step(SerialRead::Byte(0x52)), Ok(WaitStep::Ready));
    assert_eq!(bridge.link_state(), LinkState::Ready);
    assert_eq!(bridge.begin_send(SendMode::BoundedWait), Ok(SendStart::Ready));
}

#[test]
fn encode_report_frames_report_and_advances_sequence() {
    let mut bridge = EspBridge::with_sequence(5);
    bridge.poll(SerialRead::Byte(0x52));
    let r = report(1, &[1.0f32.to_bits(), 2.5f32.to_bits()]);
    let n = bridge.encode_report(&r).unwrap();
    assert_eq!(bridge.tx_seq(), 6);
    let wire = bridge.tx_frame(n).to_vec();
    assert_eq!(*wire.last().unwrap(), 0);
    let mut decoded = [0u8; 128];
    let len = cobs_decode(&wire[..n - 1], &mut decoded).unwrap();
    assert_eq!(len, 32 + 25 + 16);
    assert_eq!(u16::from_le_bytes([decoded[6], decoded[7]]), CMD_METRICS_REPORT);
    assert_eq!(u32::from_le_bytes([decoded[12], decoded[13], decoded[14], decoded[15]]), 25);
    assert_eq!(&decoded[20..28], &5u64.to_le_bytes());
    let payload = &decoded[32..57];
    assert_eq!(&payload[0..8], &100_000u64.to_le_bytes());
    assert_eq!(&payload[8..12], &1000u32.to_le_bytes());
    assert_eq!(payload[12], 1);
    assert_eq!(&payload[13..17], &2u32.to_le_bytes());
    assert_eq!(&payload[17..21], &1.0f32.to_le_bytes());
    assert_eq!(&payload[21..25], &2.5f32.to_le_bytes());
    assert_eq!(bridge.link_state(), LinkState::Ready);
}

#[test]
fn sequence_wraps_to_zero() {
    let mut bridge = EspBridge::with_sequence(u64::MAX);
    bridge.poll(SerialRead::Byte(0x52));
    let r = report(2, &[7]);
    assert!(bridge.encode_report(&r).is_ok());
    assert_eq!(bridge.tx_seq(), 0);
    assert!(bridge.encode_report(&r).is_ok());
    assert_eq!(bridge.tx_seq(), 1);
}

#[test]
fn send_batch_skips_empty_and_requires_new_handshake() {
    let mut bridge = EspBridge::with_sequence(10);
    bridge.poll(SerialRead::Byte(0x52));
    let batch = [report(1, &[1, 2, 3]), report(2, &[]), report(4, &[9])];
    let mut out = vec![0xAA];
    assert_eq!(bridge.send_batch(&batch, &mut out), Ok(2));
    assert_eq!(bridge.tx_seq(), 12);
    assert_eq!(bridge.link_state(), LinkState::NotReady);
    assert_eq!(out[0], 0xAA);
    let frames: Vec<&[u8]> = out[1..].split(|b| *b == 0).filter(|f| !f.is_empty()).collect();
    assert_eq!(frames.len(), 2);
    let mut decoded = [0u8; 128];
    let len = cobs_decode(frames[0], &mut decoded).unwrap();
    assert_eq!(len, 32 + 17 + 12 + 16);
    assert_eq!(&decoded[20..28], &10u64.to_le_bytes());
    assert_eq!(decoded[32 + 12], 1);
    let len = cobs_decode(frames[1], &mut decoded).unwrap();
    assert_eq!(len, 32 + 17 + 4 + 16);
    assert_eq!(&decoded[20..28], &11u64.to_le_bytes());
    assert_eq!(decoded[32 + 12], 4);
    assert_eq!(bridge.begin_send(SendMode::Cooperative), Err(SendError::NotReady));
}

#[test]
fn reset_ready_state_forces_handshake() {
    let mut bridge = EspBridge::new();
    bridge.poll(SerialRead::Byte(0x52));
    bridge.reset_ready_state();
    assert_eq!(bridge.link_state(), LinkState::NotReady);
    assert!(!bridge.is_ready());
}

#[test]
fn empty_report_is_skipped() {
    let mut bridge = EspBridge::with_sequence(3);
    bridge.poll(SerialRead::Byte(0x52));
    let before = bridge.tx_frame(FRAME_BUF_SIZE).to_vec();
    assert_eq!(bridge.encode_report(&report(1, &[])), Ok(0));
    assert_eq!(bridge.tx_seq(), 3);
    assert_eq!(bridge.tx_frame(FRAME_BUF_SIZE), &before[..]);
    assert_eq!(bridge.link_state(), LinkState::Ready);
}

#[test]
fn batch_of_empty_reports_sends_nothing_and_ends_readiness() {
    let mut bridge = EspBridge::with_sequence(3);
    bridge.poll(SerialRead::Byte(0x52));
    let batch = [report(1, &[]), report(2, &[]), report(4, &[])];
    let mut out = Vec::new();
    assert_eq!(bridge.send_batch(&batch, &mut out), Ok(0));
    assert!(out.is_empty());
    assert_eq!(bridge.tx_seq(), 3);
    assert_eq!(bridge.link_state(), LinkState::NotReady);
}
