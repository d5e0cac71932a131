//! Frame and channel codec tests: round trips, checksums, and every
//! decode error.

use miwear_stack::layer1::{L1DataType, L1Error, L1Packet};
use miwear_stack::layer1cmd::{CmdCode, L1CmdBuilder, L1CmdPacket};
use miwear_stack::layer2::{L2Channel, L2Cipher, L2OpCode, L2Packet};
use nanorand::Rng;

/// A toy involutive stream cipher for exercising the encrypted path:
/// each byte is xored with a fixed mask, so decryption is encryption.
struct XorCipher;

impl L2Cipher for XorCipher {
    fn enc_spec(&self, s: vstd::prelude::Seq<u8>) -> vstd::prelude::Seq<u8> {
        s
    }

    fn dec_spec(&self, s: vstd::prelude::Seq<u8>) -> vstd::prelude::Seq<u8> {
        s
    }

    fn encrypt(&self, plaintext: &[u8]) -> Result<Vec<u8>, ()> {
        Ok(plaintext.iter().map(|b| b ^ 0x5A).collect())
    }

    fn decrypt(&self, ciphertext: &[u8]) -> Result<Vec<u8>, ()> {
        Ok(ciphertext.iter().map(|b| b ^ 0x5A).collect())
    }
}

#[test]
fn l1_round_trip_basic() {
    let payload = vec![1u8, 2, 3, 4, 5];
    let pkt = L1Packet::new(L1DataType::Data, false, 7, payload.clone());
    let bytes = pkt.to_bytes();
    assert_eq!(bytes[0], 0xA5);
    assert_eq!(bytes[1], 0xA5);
    let back = L1Packet::from_bytes(&bytes).unwrap();
    assert_eq!(back.seq, 7);
    assert!(matches!(back.pkt_type, L1DataType::Data));
    assert!(!back.frx);
    assert_eq!(back.payload, payload);
    assert_eq!(back.length, 5);
}

#[test]
fn l1_round_trip_random_payloads() {
    let mut rng = nanorand::tls_rng();
    for &len in &[0usize, 1, 7, 244, 1024, 65535] {
        let mut payload = vec![0u8; len];
        rng.fill_bytes(&mut payload);
        let frx = len % 2 == 0;
        let seq = (len % 256) as u8;
        let pkt = L1Packet::new(L1DataType::Data, frx, seq, payload.clone());
        let bytes = pkt.to_bytes();
        let back = L1Packet::from_bytes(&bytes).unwrap();
        assert_eq!(back.payload, payload);
        assert_eq!(back.seq, seq);
        assert_eq!(back.frx, frx);
    }
}

#[test]
fn l1_crc16_known_value() {
    // The CRC-16/ARC check value over the digits one through nine.
    assert_eq!(L1Packet::crc16_arc(b"123456789"), 0xBB3D);
    assert_eq!(L1Packet::crc16_arc(b""), 0x0000);
}

#[test]
fn l1_decode_error_kinds() {
    assert!(matches!(L1Packet::from_bytes(&[0xA5, 0xA5, 3]), Err(L1Error::TooShort)));
    assert!(matches!(
        L1Packet::from_bytes(&[0x00, 0xA5, 3, 0, 0, 0, 0, 0]),
        Err(L1Error::BadMagic { .. })
    ));
    assert!(matches!(
        L1Packet::from_bytes(&[0xA5, 0xA5, 9, 0, 0, 0, 0, 0]),
        Err(L1Error::InvalidType(9))
    ));
    assert!(matches!(
        L1Packet::from_bytes(&[0xA5, 0xA5, 1, 0, 4, 0, 0, 0, 1]),
        Err(L1Error::LengthMismatch { declared: 4, actual: 1 })
    ));
    let mut good = L1Packet::new(L1DataType::Data, false, 0, vec![9, 9]).to_bytes();
    good[6] ^= 0xFF;
    assert!(matches!(L1Packet::from_bytes(&good), Err(L1Error::CrcMismatch { .. })));
}

#[test]
fn l1_pack_unpack_type_frx() {
    for (t, code) in [
        (L1DataType::Nak, 0u8),
        (L1DataType::Ack, 1),
        (L1DataType::Cmd, 2),
        (L1DataType::Data, 3),
    ] {
        for frx in [false, true] {
            let b = L1Packet::pack_type_frx(t, frx);
            assert_eq!(b, code + if frx { 16 } else { 0 });
            let (t2, frx2) = L1Packet::unpack_type_frx(b).unwrap();
            assert_eq!(t2, t);
            assert_eq!(frx2, frx);
        }
    }
    assert!(L1Packet::unpack_type_frx(0x0F).is_err());
}

#[test]
fn l1_crc_helpers() {
    let mut pkt = L1Packet::new(L1DataType::Data, false, 1, vec![1, 2, 3]);
    assert!(pkt.verify_crc());
    assert_eq!(pkt.computed_crc(), pkt.crc);
    pkt.payload.push(4);
    assert!(!pkt.verify_crc());
    pkt.update_crc();
    assert!(pkt.verify_crc());
    assert_eq!(pkt.length, 4);
}

#[test]
fn l1cmd_round_trip() {
    let pkt = L1CmdBuilder::new()
        .cmd(CmdCode::CmdL1startRsp)
        .version(1, 2, 3)
        .mps(0xABCD)
        .tx_win(5)
        .send_timeout(12000)
        .device_type(0)
        .build()
        .unwrap();
    let bytes = pkt.to_payload_bytes();
    assert_eq!(bytes[0], 2);
    let back = L1CmdPacket::from_payload_bytes(&bytes).unwrap();
    assert_eq!(back.cmd, CmdCode::CmdL1startRsp);
    assert_eq!(back.get_version(), Some((1, 2, 3)));
    assert_eq!(back.get_mps(), Some(0xABCD));
    assert_eq!(back.get_tx_win(), Some(5));
    assert_eq!(back.get_send_timeout(), Some(12000));
    assert_eq!(back.get_device_type(), Some(0));
    assert_eq!(back.get_os_version(), None);
}

#[test]
fn l1cmd_codes() {
    assert_eq!(CmdCode::from_u8(1), CmdCode::CmdL1startReq);
    assert_eq!(CmdCode::from_u8(77), CmdCode::Unknown(77));
    assert_eq!(CmdCode::Unknown(77).as_u8(), 77);
    assert!(L1CmdPacket::from_payload_bytes(&[]).is_none());
}

#[test]
fn l2_round_trip_plain() {
    let pkt = L2Packet::new(L2Channel::Mass, L2OpCode::Write, vec![1, 2, 3]);
    let bytes = pkt.to_bytes();
    assert_eq!(bytes, vec![2, 1, 1, 2, 3]);
    let back = L2Packet::from_bytes_plain(&bytes).unwrap();
    assert_eq!(back.channel, L2Channel::Mass);
    assert_eq!(back.opcode, L2OpCode::Write);
    assert_eq!(back.payload, vec![1, 2, 3]);
}

#[test]
fn l2_round_trip_encrypted() {
    let cipher = XorCipher;
    let mut rng = nanorand::tls_rng();
    for &len in &[0usize, 1, 100, 65533] {
        let mut payload = vec![0u8; len];
        rng.fill_bytes(&mut payload);
        let pkt = L2Packet::encrypted(L2Channel::Pb, &payload, &cipher).unwrap();
        assert_eq!(pkt.opcode, L2OpCode::WriteEnc);
        let bytes = pkt.to_bytes();
        // With the cipher the plaintext comes back.
        let back = L2Packet::from_bytes(&bytes, Some(&cipher)).unwrap();
        assert_eq!(back.channel, L2Channel::Pb);
        assert_eq!(back.opcode, L2OpCode::WriteEnc);
        assert_eq!(back.payload, payload);
        // Without it the body stays ciphertext.
        let raw = L2Packet::from_bytes_plain(&bytes).unwrap();
        assert_eq!(raw.payload, cipher.encrypt(&payload).unwrap());
    }
}

#[test]
fn l2_decode_errors() {
    assert!(L2Packet::from_bytes_plain(&[1]).is_err());
    assert!(L2Packet::from_bytes_plain(&[0, 1]).is_err());
    assert!(L2Packet::from_bytes_plain(&[1, 9]).is_err());
}

#[test]
fn l2_l1_nesting() {
    let pkt = L2Packet::new(L2Channel::Pb, L2OpCode::Write, vec![42]);
    let l1 = pkt.into_l1(3, false);
    assert_eq!(l1.seq, 3);
    let back = L2Packet::from_l1_plain(&l1).unwrap();
    assert_eq!(back.channel, L2Channel::Pb);
    assert_eq!(back.payload, vec![42]);
    let ack = L1Packet::new(L1DataType::Ack, false, 3, vec![]);
    assert!(L2Packet::from_l1_plain(&ack).is_err());
}
