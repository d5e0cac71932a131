//! Reliable-layer tests: startup, windowing, cumulative acknowledgement,
//! sequence wrap, NAK-driven retransmission and stop-and-wait.

use miwear_stack::config::SarConfig;
use miwear_stack::layer1::{L1DataType, L1Packet};
use miwear_stack::layer1cmd::{CmdCode, L1CmdBuilder};
use miwear_stack::sar::SarController;

fn fresh() -> SarController {
    let mut sar = SarController::new(SarConfig::default(), 0);
    let _ = sar.take_outbox();
    sar
}

#[test]
fn startup_emits_start_request() {
    let mut sar = SarController::new(SarConfig::default(), 0);
    let out = sar.take_outbox();
    assert_eq!(out.len(), 1);
    assert!(matches!(out[0].pkt_type, L1DataType::Cmd));
    assert_eq!(out[0].payload[0], 1);
    assert_eq!(sar.tx_window_size(), 18);
    assert_eq!(sar.raw_tx_window_size(), 16);
    assert_eq!(sar.send_timeout_ms(), 15000);
}

#[test]
fn enqueue_sends_data_frame() {
    let mut sar = fresh();
    let seq = sar.enqueue(vec![2, 1, 9], 0);
    assert_eq!(seq, 0);
    let out = sar.take_outbox();
    assert_eq!(out.len(), 1);
    assert!(matches!(out[0].pkt_type, L1DataType::Data));
    assert_eq!(out[0].seq, 0);
    assert_eq!(out[0].payload, vec![2, 1, 9]);
}

#[test]
fn window_bounds_in_flight_frames() {
    let mut sar = fresh();
    let payloads: Vec<Vec<u8>> = (0..30).map(|i| vec![2, 1, i as u8]).collect();
    let seqs = sar.enqueue_batch(payloads, 0);
    assert_eq!(seqs.len(), 30);
    assert_eq!(seqs[29], 29);
    let out = sar.take_outbox();
    // The soft cap (window 16 plus allowance 2) bounds what is in flight.
    assert_eq!(out.len(), 18);
    assert_eq!(sar.tx_queue.len(), 18);
}

#[test]
fn ack_advances_window() {
    let mut sar = fresh();
    let payloads: Vec<Vec<u8>> = (0..20).map(|i| vec![2, 1, i as u8]).collect();
    sar.enqueue_batch(payloads, 0);
    let _ = sar.take_outbox();
    let ack = L1Packet::new(L1DataType::Ack, false, 4, vec![]);
    let delivered = sar.on_l1_packet(&ack, 10);
    assert!(!delivered);
    for s in 0..5u8 {
        assert!(sar.is_acked(s));
    }
    assert!(!sar.is_acked(5));
    // The two payloads still pooled fit the freed window.
    let out = sar.take_outbox();
    assert_eq!(out.len(), 2);
    assert_eq!(out[0].seq, 18);
    assert_eq!(out[1].seq, 19);
    sar.mark_ack_consumed(2);
    assert!(!sar.is_acked(2));
    assert!(sar.is_all_acked(&[0, 1, 3, 4]));
    assert!(!sar.is_all_acked(&[0, 2]));
}

#[test]
fn in_order_data_advances_expected_sequence() {
    // An in-order DATA frame on a quiet channel arms the cumulative
    // timer instead of answering at once.
    let mut sar = fresh();
    let data = L1Packet::new(L1DataType::Data, false, 0, vec![2, 1, 7]);
    let delivered = sar.on_l1_packet(&data, 0);
    assert!(delivered);
    assert_eq!(sar.rx_expect_seq, 1);
    assert!(sar.take_outbox().is_empty());
    assert!(sar.rx_cum_ack_armed);
}

#[test]
fn pb_channel_data_is_acknowledged_at_once() {
    let mut sar = fresh();
    let data = L1Packet::new(L1DataType::Data, false, 0, vec![1, 1, 7]);
    assert!(sar.on_l1_packet(&data, 0));
    let out = sar.take_outbox();
    assert_eq!(out.len(), 1);
    assert!(matches!(out[0].pkt_type, L1DataType::Ack));
    assert_eq!(out[0].seq, 0);
    assert!(!sar.rx_cum_ack_armed);
}

#[test]
fn out_of_order_data_draws_nak() {
    let mut sar = fresh();
    let data = L1Packet::new(L1DataType::Data, false, 5, vec![2, 1, 7]);
    let delivered = sar.on_l1_packet(&data, 0);
    assert!(!delivered);
    assert_eq!(sar.rx_expect_seq, 0);
    let out = sar.take_outbox();
    assert_eq!(out.len(), 1);
    assert!(matches!(out[0].pkt_type, L1DataType::Nak));
    assert_eq!(out[0].seq, 0);
}

#[test]
fn network_channel_data_bypasses_sequencing() {
    let mut sar = fresh();
    let data = L1Packet::new(L1DataType::Data, false, 200, vec![7, 1, 9]);
    assert!(sar.on_l1_packet(&data, 0));
    assert_eq!(sar.rx_expect_seq, 0);
    assert!(sar.take_outbox().is_empty());
}

#[test]
fn fast_receive_advances_without_ack() {
    let mut sar = fresh();
    let data = L1Packet::new(L1DataType::Data, true, 0, vec![2, 1]);
    assert!(sar.on_l1_packet(&data, 0));
    assert_eq!(sar.rx_expect_seq, 1);
    assert!(sar.take_outbox().is_empty());
}

#[test]
fn cumulative_ack_timer_fires_once_per_arm() {
    let mut sar = fresh();
    let data = L1Packet::new(L1DataType::Data, false, 0, vec![2, 1]);
    sar.on_l1_packet(&data, 0);
    assert!(sar.rx_cum_ack_armed);
    assert!(sar.cum_ack_fire());
    let out = sar.take_outbox();
    assert_eq!(out.len(), 1);
    assert!(matches!(out[0].pkt_type, L1DataType::Ack));
    assert_eq!(out[0].seq, 0);
    // A second fire without a new arm emits nothing.
    assert!(!sar.cum_ack_fire());
    assert!(sar.take_outbox().is_empty());
}

#[test]
fn canceled_cumulative_ack_timer_emits_nothing() {
    let mut sar = fresh();
    let data = L1Packet::new(L1DataType::Data, false, 0, vec![2, 1]);
    sar.on_l1_packet(&data, 0);
    sar.stop_cum_ack_timer();
    assert!(!sar.cum_ack_fire());
    assert!(sar.take_outbox().is_empty());
}

#[test]
fn sequence_wraps_and_clears_acknowledgements() {
    let mut sar = fresh();
    // Walk the sequence counter to 255.
    for _ in 0..255 {
        sar.enqueue(vec![2, 1], 0);
    }
    let _ = sar.take_outbox();
    // Acknowledge a drained prefix so something is recorded.
    let ack = L1Packet::new(L1DataType::Ack, false, 9, vec![]);
    sar.on_l1_packet(&ack, 0);
    assert!(sar.is_acked(3));
    assert_eq!(sar.tx_next_seq, 255);
    // The allocation that wraps to zero clears the record.
    let seq = sar.enqueue(vec![2, 1], 0);
    assert_eq!(seq, 255);
    assert_eq!(sar.tx_next_seq, 0);
    assert!(!sar.is_acked(3));
}

#[test]
fn nak_drives_retransmit_before_new_data() {
    let mut sar = fresh();
    sar.enqueue_batch(vec![vec![2, 1, 0], vec![2, 1, 1], vec![2, 1, 2]], 0);
    let _ = sar.take_outbox();
    let nak = L1Packet::new(L1DataType::Nak, false, 1, vec![]);
    sar.on_l1_packet(&nak, 10);
    // Entry zero drained; the oldest flagged frame went out exactly once.
    assert!(sar.is_acked(0));
    let out = sar.take_outbox();
    assert_eq!(out.len(), 1);
    assert!(matches!(out[0].pkt_type, L1DataType::Data));
    assert_eq!(out[0].seq, 1);
    // The next scheduler run re-sends the other flagged frame before any
    // new data leaves the pool.
    sar.enqueue(vec![2, 1, 3], 20);
    let out2 = sar.take_outbox();
    assert_eq!(out2.len(), 1);
    assert_eq!(out2[0].seq, 2);
    // Once nothing is flagged, the new frame goes out.
    let ack = L1Packet::new(L1DataType::Ack, false, 2, vec![]);
    sar.on_l1_packet(&ack, 30);
    let out3 = sar.take_outbox();
    assert_eq!(out3.len(), 1);
    assert_eq!(out3[0].seq, 3);
}

#[test]
fn start_response_negotiates_window_and_timeout() {
    let mut sar = fresh();
    let rsp = L1CmdBuilder::new()
        .cmd(CmdCode::CmdL1startRsp)
        .tx_win(4)
        .send_timeout(8000)
        .build()
        .unwrap();
    let frame = L1Packet::new(L1DataType::Cmd, false, 0, rsp.to_payload_bytes());
    assert!(!sar.on_l1_packet(&frame, 0));
    assert_eq!(sar.raw_tx_window_size(), 4);
    assert_eq!(sar.tx_window_size(), 6);
    assert_eq!(sar.send_timeout_ms(), 8000);
}

#[test]
fn window_of_one_is_stop_and_wait() {
    let mut sar = SarController::new(SarConfig { tx_win_overrun_allowance: 0 }, 0);
    let _ = sar.take_outbox();
    let rsp = L1CmdBuilder::new().cmd(CmdCode::CmdL1startRsp).tx_win(1).build().unwrap();
    let frame = L1Packet::new(L1DataType::Cmd, false, 0, rsp.to_payload_bytes());
    sar.on_l1_packet(&frame, 0);
    assert_eq!(sar.tx_window_size(), 1);
    // Two payloads: only the first leaves.
    sar.enqueue(vec![2, 1, 0], 0);
    sar.enqueue(vec![2, 1, 1], 0);
    let out = sar.take_outbox();
    assert_eq!(out.len(), 1);
    assert_eq!(out[0].seq, 0);
    // Only its acknowledgement releases the second.
    let ack = L1Packet::new(L1DataType::Ack, false, 0, vec![]);
    sar.on_l1_packet(&ack, 10);
    let out2 = sar.take_outbox();
    assert_eq!(out2.len(), 1);
    assert_eq!(out2[0].seq, 1);
}

#[test]
fn timeout_marks_and_retransmits() {
    let mut sar = fresh();
    sar.enqueue(vec![2, 1, 0], 0);
    let _ = sar.take_outbox();
    // Before the deadline nothing happens.
    sar.check_timeouts(14_999);
    assert!(sar.take_outbox().is_empty());
    // At the deadline the frame goes out again.
    sar.check_timeouts(15_000);
    let out = sar.take_outbox();
    assert_eq!(out.len(), 1);
    assert_eq!(out[0].seq, 0);
}

#[test]
fn enqueue_front_takes_priority() {
    let mut sar = SarController::new(SarConfig { tx_win_overrun_allowance: 0 }, 0);
    let _ = sar.take_outbox();
    let rsp = L1CmdBuilder::new().cmd(CmdCode::CmdL1startRsp).tx_win(1).build().unwrap();
    sar.on_l1_packet(&L1Packet::new(L1DataType::Cmd, false, 0, rsp.to_payload_bytes()), 0);
    sar.enqueue(vec![2, 1, 0], 0);
    sar.enqueue(vec![2, 1, 1], 0);
    let _ = sar.take_outbox();
    // Jump the queue: the front payload holds the next sequence number
    // but leaves before the earlier queued one.
    let seq = sar.enqueue_front(vec![2, 1, 9], 0);
    assert_eq!(seq, 2);
    sar.on_l1_packet(&L1Packet::new(L1DataType::Ack, false, 0, vec![]), 10);
    let out = sar.take_outbox();
    assert_eq!(out.len(), 1);
    assert_eq!(out[0].seq, 2);
    assert_eq!(out[0].payload, vec![2, 1, 9]);
}

#[test]
fn enqueue_front_batch_keeps_run_order() {
    let mut sar = fresh();
    let seqs = sar.enqueue_front_batch(vec![vec![2, 6], vec![2, 7], vec![2, 8]], 0);
    // Within the run, the later payload holds the earlier number.
    assert_eq!(seqs, vec![2, 1, 0]);
    let out = sar.take_outbox();
    assert_eq!(out.len(), 3);
    assert_eq!(out[0].payload, vec![2, 6]);
    assert_eq!(out[1].payload, vec![2, 7]);
    assert_eq!(out[2].payload, vec![2, 8]);
}
