//! Bulk-transfer tests: the CRC-tailed inner encoding, fragment
//! planning, resume, pacing arithmetic, and digest wrappers against
//! known values.

use miwear_stack::config::{MassConfig, SarConfig};
use miwear_stack::crypto::{calc_crc32, calc_md5, hmac_sha256};
use miwear_stack::hexutil::to_hex_string;
use miwear_stack::layer1::{L1DataType, L1Packet};
use miwear_stack::mass::{
    build_fragment, compute_ack_stall_deadline, compute_backlog_soft_limit, compute_batch_limit,
    consume_acked_parts, plan_transfer, record_batch, should_block_for_ack, MassComponent,
    MassError,
};
use miwear_stack::mass_packet::{MassDataType, MassPacket, ReverseMassPacket};
use miwear_stack::sar::SarController;

#[test]
fn crc32_known_value() {
    // The CRC-32 check value over the digits one through nine.
    assert_eq!(calc_crc32(b"123456789"), 0xCBF43926);
}

#[test]
fn md5_known_value() {
    assert_eq!(to_hex_string(&calc_md5(b"")), "d41d8cd98f00b204e9800998ecf8427e");
    assert_eq!(to_hex_string(&calc_md5(b"abc")), "900150983cd24fb0d6963f7d28e17f72");
}

#[test]
fn hmac_sha256_known_value() {
    // A published test vector: a four-byte key over a short question.
    let tag = hmac_sha256(b"Jefe", b"what do ya want for nothing?");
    assert_eq!(
        to_hex_string(&tag),
        "5bdcc146bf60754e6a042426089575c75a003f089d2739839dec58b964ec3843"
    );
}

#[test]
fn inner_encoding_ends_in_its_checksum() {
    let data = b"hello mass payload".to_vec();
    let pkt = MassPacket::build(data.clone(), MassDataType::Watchface);
    assert_eq!(pkt.md5, calc_md5(&data));
    assert_eq!(pkt.length as usize, data.len());
    let enc = pkt.encode_with_crc32();
    assert_eq!(enc.len(), data.len() + 26);
    assert_eq!(enc[0], 0x00);
    assert_eq!(enc[1], 16);
    let (body, tail) = enc.split_at(enc.len() - 4);
    let crc = calc_crc32(body);
    assert_eq!(tail, crc.to_le_bytes());
}

#[test]
fn plan_rejects_tiny_slices() {
    assert!(matches!(
        plan_transfer(vec![1], MassDataType::Watchface, 0),
        Err(MassError::ZeroSliceLength)
    ));
    assert!(matches!(
        plan_transfer(vec![1], MassDataType::Watchface, 6),
        Err(MassError::FragmentSpaceTooSmall)
    ));
}

#[test]
fn empty_file_takes_one_fragment() {
    let plan = plan_transfer(vec![], MassDataType::Watchface, 244).unwrap();
    assert_eq!(plan.total_parts, 1);
    assert_eq!(plan.fragment_max_len, 238);
    assert_eq!(plan.inner.len(), 26);
    let frag = build_fragment(&plan, 1);
    assert_eq!(&frag[0..2], &1u16.to_le_bytes());
    assert_eq!(&frag[2..4], &1u16.to_le_bytes());
    assert_eq!(&frag[4..], &plan.inner[..]);
}

#[test]
fn fragments_cover_the_encoding() {
    let data = vec![7u8; 1000];
    let plan = plan_transfer(data, MassDataType::Firmware, 244).unwrap();
    let expected_parts = (1000 + 26 + 237) / 238;
    assert_eq!(plan.total_parts as usize, expected_parts);
    let mut rebuilt: Vec<u8> = Vec::new();
    for part in 1..=plan.total_parts {
        let frag = build_fragment(&plan, part);
        assert_eq!(&frag[0..2], &plan.total_parts.to_le_bytes());
        assert_eq!(&frag[2..4], &part.to_le_bytes());
        assert!(frag.len() <= 4 + plan.fragment_max_len);
        rebuilt.extend_from_slice(&frag[4..]);
    }
    assert_eq!(rebuilt, plan.inner);
}

#[test]
fn pacing_arithmetic_follows_the_window() {
    let cfg = MassConfig::default();
    assert_eq!(compute_batch_limit(&cfg, Some(18)), 18);
    assert_eq!(compute_batch_limit(&cfg, Some(200)), 32);
    assert_eq!(compute_batch_limit(&cfg, None), 8);
    assert_eq!(compute_backlog_soft_limit(&cfg, Some(18)), 108);
    assert_eq!(compute_backlog_soft_limit(&cfg, Some(100)), 256);
    assert_eq!(compute_backlog_soft_limit(&cfg, None), 96);
    // Window of 18: three polls per slot gives 2700, an eighth of the
    // 15-second timeout gives 1875; both clamp to the maximum.
    assert_eq!(compute_ack_stall_deadline(&cfg, Some(18), Some(15000)), 900);
    assert_eq!(compute_ack_stall_deadline(&cfg, Some(1), Some(15000)), 150);
    assert_eq!(compute_ack_stall_deadline(&cfg, None, None), 400);
    assert!(should_block_for_ack(10, 10, 0, 0, 400));
    assert!(!should_block_for_ack(9, 10, 100, 0, 400));
    assert!(should_block_for_ack(0, 10, 500, 100, 400));
}

#[test]
fn resume_record_carries_progress() {
    let mut sar = SarController::new(SarConfig::default(), 0);
    let _ = sar.take_outbox();
    let mut mass = MassComponent::new();
    let data = vec![0u8; 1 << 20];
    let md5 = calc_md5(&data);
    let plan = plan_transfer(data, MassDataType::Watchface, 244).unwrap();
    assert!(plan.total_parts > 100);

    // A fresh transfer starts at part one.
    let start = mass.resolve_start_part("00:11:22", &md5);
    assert_eq!(start, 1);

    // Hand ten fragments to the reliable layer and track them.
    let mut payloads: Vec<Vec<u8>> = Vec::new();
    let mut meta: Vec<(u16, usize)> = Vec::new();
    for part in 1..=10u16 {
        let frag = build_fragment(&plan, part);
        meta.push((part, frag.len()));
        payloads.push(frag);
    }
    let seqs = sar.enqueue_batch(payloads, 0);
    let mut pending = Vec::new();
    assert!(record_batch(&mut pending, &meta, &seqs));

    // The device acknowledges them all.
    let ack = L1Packet::new(L1DataType::Ack, false, 9, vec![]);
    sar.on_l1_packet(&ack, 10);
    let events = consume_acked_parts(&mut mass, &mut sar, &mut pending, plan.total_parts);
    assert_eq!(events.len(), 10);
    assert_eq!(events[9].current_part_num, 10);
    assert!(pending.is_empty());

    // The interrupted transfer resumes at part eleven.
    let resumed = mass.resolve_start_part("00:11:22", &md5);
    assert_eq!(resumed, 11);

    // A different digest starts over.
    let other = calc_md5(b"other");
    assert_eq!(mass.resolve_start_part("00:11:22", &other), 1);
}

#[test]
fn completed_transfer_leaves_no_resume_record() {
    let mut sar = SarController::new(SarConfig::default(), 0);
    let _ = sar.take_outbox();
    let mut mass = MassComponent::new();
    let data = vec![9u8; 100];
    let md5 = calc_md5(&data);
    let plan = plan_transfer(data, MassDataType::Watchface, 244).unwrap();
    assert_eq!(plan.total_parts, 1);
    assert_eq!(mass.resolve_start_part("aa", &md5), 1);

    let frag = build_fragment(&plan, 1);
    let seqs = sar.enqueue_batch(vec![frag.clone()], 0);
    let mut pending = Vec::new();
    assert!(record_batch(&mut pending, &vec![(1u16, frag.len())], &seqs));
    let ack = L1Packet::new(L1DataType::Ack, false, seqs[0], vec![]);
    sar.on_l1_packet(&ack, 5);
    let events = consume_acked_parts(&mut mass, &mut sar, &mut pending, plan.total_parts);
    assert_eq!(events.len(), 1);
    assert!(mass.resume_state.is_none());
    // The consumed acknowledgement is released for sequence reuse.
    assert!(!sar.is_acked(seqs[0]));
}

#[test]
fn consumption_stops_at_the_first_unconfirmed_part() {
    let mut sar = SarController::new(SarConfig::default(), 0);
    let _ = sar.take_outbox();
    let mut mass = MassComponent::new();
    let data = vec![3u8; 4000];
    let md5 = calc_md5(&data);
    let plan = plan_transfer(data, MassDataType::Watchface, 244).unwrap();
    assert_eq!(mass.resolve_start_part("dev", &md5), 1);

    let mut payloads: Vec<Vec<u8>> = Vec::new();
    let mut meta: Vec<(u16, usize)> = Vec::new();
    for part in 1..=5u16 {
        let frag = build_fragment(&plan, part);
        meta.push((part, frag.len()));
        payloads.push(frag);
    }
    let seqs = sar.enqueue_batch(payloads, 0);
    let mut pending = Vec::new();
    assert!(record_batch(&mut pending, &meta, &seqs));

    // Only the first three fragments are acknowledged.
    let ack = L1Packet::new(L1DataType::Ack, false, 2, vec![]);
    sar.on_l1_packet(&ack, 10);
    let events = consume_acked_parts(&mut mass, &mut sar, &mut pending, plan.total_parts);
    assert_eq!(events.len(), 3);
    assert_eq!(events[2].current_part_num, 3);
    // The unconfirmed head stays, and the record points after part 3.
    assert_eq!(pending.len(), 2);
    assert_eq!(pending[0].part_num, 4);
    assert_eq!(mass.resume_state.as_ref().unwrap().current_part, 4);
    // Consumed acknowledgements were released; the head's was never set.
    assert!(!sar.is_acked(seqs[0] ));
    assert!(!sar.is_acked(seqs[3]));
    // Nothing consumes while the head stays unconfirmed.
    let again = consume_acked_parts(&mut mass, &mut sar, &mut pending, plan.total_parts);
    assert!(again.is_empty());
    assert_eq!(pending.len(), 2);
}

#[test]
fn prepare_waiter_is_single_shot() {
    let mut mass = MassComponent::new();
    assert!(!mass.take_prepare_waiter());
    mass.arm_prepare_waiter();
    assert!(mass.take_prepare_waiter());
    assert!(!mass.take_prepare_waiter());
}

#[test]
fn reverse_mass_reassembles_a_two_part_file() {
    // The peer sends a named file in two numbered fragments; the last
    // carries a checksum over the header and the whole body.
    let name = b"log.txt";
    let body1 = b"hello ".to_vec();
    let body2 = b"world".to_vec();
    let mut header = Vec::new();
    header.push(name.len() as u8);
    header.extend_from_slice(name);
    header.extend_from_slice(&[0, 0, 0, 0, 0]);
    let mut check = header.clone();
    check.extend_from_slice(&body1);
    check.extend_from_slice(&body2);
    let crc = calc_crc32(&check);

    let mut first = vec![0u8, 0];
    first.extend_from_slice(&2u16.to_le_bytes());
    first.extend_from_slice(&1u16.to_le_bytes());
    first.extend_from_slice(&header);
    first.extend_from_slice(&body1);

    let mut second = vec![0u8, 0];
    second.extend_from_slice(&2u16.to_le_bytes());
    second.extend_from_slice(&2u16.to_le_bytes());
    second.extend_from_slice(&body2);
    second.extend_from_slice(&crc.to_le_bytes());

    let mut rx = ReverseMassPacket::new();
    assert!(rx.empty());
    rx.handle_packet(first).unwrap();
    assert!(!rx.complete());
    rx.handle_packet(second).unwrap();
    assert!(rx.complete());
    assert!(!rx.error());
    assert_eq!(rx.current_block(), 2);
    assert_eq!(rx.total_block(), 2);
    assert_eq!(rx.file_name(), "log.txt");
    assert_eq!(rx.file(false).unwrap(), b"hello world".to_vec());
}

#[test]
fn reverse_mass_rejects_contradicting_totals() {
    // The first fragment declares two parts; a later one declares three.
    let mut first = vec![0u8, 0];
    first.extend_from_slice(&2u16.to_le_bytes());
    first.extend_from_slice(&1u16.to_le_bytes());
    first.push(1);
    first.push(b'f');
    first.extend_from_slice(&[0, 0, 0, 0, 0]);
    first.extend_from_slice(b"data");
    let mut rx = ReverseMassPacket::new();
    rx.handle_packet(first).unwrap();
    assert_eq!(rx.total_block(), 2);

    let mut second = vec![0u8, 0];
    second.extend_from_slice(&3u16.to_le_bytes());
    second.extend_from_slice(&2u16.to_le_bytes());
    second.extend_from_slice(b"more data here");
    assert!(rx.handle_packet(second).is_err());
    assert!(rx.error());
    // The counters did not move on the rejected fragment.
    assert_eq!(rx.total_block(), 2);
    assert_eq!(rx.current_block(), 1);
}

#[test]
fn reverse_mass_rejects_framing_errors() {
    let mut rx = ReverseMassPacket::new();
    assert!(matches!(
        rx.handle_packet(vec![0u8; 5]),
        Err(miwear_stack::mass_packet::ReverseMassError::TooShort)
    ));
    assert!(rx.error());
    let mut rx2 = ReverseMassPacket::new();
    assert!(matches!(
        rx2.handle_packet(vec![9u8; 20]),
        Err(miwear_stack::mass_packet::ReverseMassError::BadVersion)
    ));
    assert!(rx2.error());
    assert!(!rx2.empty());
}

#[test]
fn reverse_mass_rejects_a_missing_part_at_readout() {
    // The final fragment arrives first, declaring two parts: part one
    // was never stored, so the checksum stage cannot read the file.
    let mut packet = vec![0u8, 0];
    packet.extend_from_slice(&2u16.to_le_bytes());
    packet.extend_from_slice(&2u16.to_le_bytes());
    packet.push(1);
    packet.push(b'f');
    packet.extend_from_slice(&[0, 0, 0, 0, 0]);
    packet.extend_from_slice(b"tail");
    packet.extend_from_slice(&[0, 0, 0, 0]);
    let mut rx = ReverseMassPacket::new();
    assert!(matches!(
        rx.handle_packet(packet),
        Err(miwear_stack::mass_packet::ReverseMassError::Malformed)
    ));
    // A readout failure is not a corrupt stream: the error flag stays
    // clear and the counters did not move.
    assert!(!rx.error());
    assert_eq!(rx.current_block(), 0);
    assert_eq!(rx.total_block(), 0);
}

#[test]
fn reverse_mass_rejects_bad_checksum() {
    let mut packet = vec![0u8, 0];
    packet.extend_from_slice(&1u16.to_le_bytes());
    packet.extend_from_slice(&1u16.to_le_bytes());
    packet.push(1);
    packet.push(b'x');
    packet.extend_from_slice(&[0, 0, 0, 0, 0]);
    packet.extend_from_slice(&[0xDE, 0xAD, 0xBE, 0xEF]);
    let mut rx = ReverseMassPacket::new();
    assert!(rx.handle_packet(packet).is_err());
    assert!(rx.error());
}
