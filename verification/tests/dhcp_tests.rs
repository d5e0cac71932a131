//! DHCP responder tests: non-matching traffic passes, a discover draws
//! an offer with the advertised addresses and sound checksums.

use miwear_stack::dhcp::{compute_checksum, maybe_build_reply};

/// Builds an IPv4/UDP datagram from the client port to the server port
/// around a BOOTP payload.
fn wrap_udp(bootp: &[u8], src_port: u16, dst_port: u16) -> Vec<u8> {
    let udp_len = (bootp.len() + 8) as u16;
    let total = (20 + udp_len as usize) as u16;
    let mut p = Vec::new();
    p.push(0x45);
    p.push(0);
    p.extend_from_slice(&total.to_be_bytes());
    p.extend_from_slice(&[0, 0, 0, 0]);
    p.push(64);
    p.push(17);
    p.extend_from_slice(&[0, 0]);
    p.extend_from_slice(&[10, 1, 10, 2]);
    p.extend_from_slice(&[255, 255, 255, 255]);
    p.extend_from_slice(&src_port.to_be_bytes());
    p.extend_from_slice(&dst_port.to_be_bytes());
    p.extend_from_slice(&udp_len.to_be_bytes());
    p.extend_from_slice(&[0, 0]);
    p.extend_from_slice(bootp);
    p
}

/// Builds a BOOTP request with a transaction id, hardware address and
/// a message-type option.
fn bootp_request(opcode: u8, xid: [u8; 4], msg_type: Option<u8>) -> Vec<u8> {
    let mut d = vec![0u8; 240];
    d[0] = opcode;
    d[1] = 1;
    d[2] = 6;
    d[3] = 0;
    d[4..8].copy_from_slice(&xid);
    d[28] = 0xAA;
    d[29] = 0xBB;
    d[236] = 99;
    d[237] = 130;
    d[238] = 83;
    d[239] = 99;
    if let Some(t) = msg_type {
        d.push(53);
        d.push(1);
        d.push(t);
    }
    d.push(255);
    d
}

#[test]
fn checksum_of_a_known_word_pair() {
    // Two words: 0x0102 and 0x0304 sum to 0x0406; the complement is
    // 0xFBF9. An odd trailing byte pads low.
    assert_eq!(compute_checksum(&[0x01, 0x02, 0x03, 0x04]), 0xFBF9);
    assert_eq!(compute_checksum(&[]), 0xFFFF);
    assert_eq!(compute_checksum(&[0xFF]), 0x00FF);
}

#[test]
fn non_dhcp_udp_returns_nothing() {
    let bootp = bootp_request(1, [1, 2, 3, 4], Some(1));
    // Wrong ports: not the responder's traffic.
    let p = wrap_udp(&bootp, 1000, 2000);
    assert_eq!(maybe_build_reply(&p), Ok(None));
    // Not UDP at all.
    let mut p2 = wrap_udp(&bootp, 68, 67);
    p2[9] = 6;
    assert_eq!(maybe_build_reply(&p2), Ok(None));
    // Too short for any datagram.
    assert_eq!(maybe_build_reply(&[0x45, 0, 0]), Ok(None));
}

#[test]
fn non_bootrequest_returns_nothing() {
    let bootp = bootp_request(2, [1, 2, 3, 4], Some(1));
    let p = wrap_udp(&bootp, 68, 67);
    assert_eq!(maybe_build_reply(&p), Ok(None));
}

#[test]
fn malformed_bootp_is_an_error() {
    let p = wrap_udp(&[0u8; 100], 68, 67);
    assert!(maybe_build_reply(&p).is_err());
}

#[test]
fn discover_draws_an_offer() {
    let bootp = bootp_request(1, [0xDE, 0xAD, 0xBE, 0xEF], Some(1));
    let p = wrap_udp(&bootp, 68, 67);
    let reply = maybe_build_reply(&p).unwrap().unwrap();

    // IPv4 around UDP, server to client.
    assert_eq!(reply[0], 0x45);
    assert_eq!(reply[9], 17);
    assert_eq!(&reply[12..16], &[255, 255, 255, 255]);
    assert_eq!(&reply[16..20], &[10, 1, 10, 1]);
    assert_eq!(&reply[20..22], &67u16.to_be_bytes());
    assert_eq!(&reply[22..24], &68u16.to_be_bytes());

    // The IPv4 header checksum verifies: a sound header sums to zero.
    assert_eq!(compute_checksum(&reply[0..20]), 0);

    // The UDP checksum verifies over the pseudo-header.
    let udp_len = u16::from_be_bytes([reply[24], reply[25]]) as usize;
    let mut pseudo = Vec::new();
    pseudo.extend_from_slice(&reply[12..20]);
    pseudo.push(0);
    pseudo.push(17);
    pseudo.extend_from_slice(&reply[24..26]);
    pseudo.extend_from_slice(&reply[20..20 + udp_len]);
    assert_eq!(compute_checksum(&pseudo), 0);

    // The BOOTP reply: a BOOTREPLY with the request's transaction id
    // and hardware address, offering the tunnel address.
    let d = &reply[28..];
    assert_eq!(d[0], 2);
    assert_eq!(&d[4..8], &[0xDE, 0xAD, 0xBE, 0xEF]);
    assert_eq!(&d[8..12], &[0, 0, 0, 0]);
    assert_eq!(&d[12..16], &[0, 0, 0, 0]);
    assert_eq!(&d[16..20], &[10, 1, 10, 2]);
    assert_eq!(&d[20..24], &[10, 1, 10, 1]);
    assert_eq!(&d[24..28], &[0, 0, 0, 0]);
    assert_eq!(d[28], 0xAA);
    assert_eq!(d[29], 0xBB);
    assert_eq!(&d[236..240], &[99, 130, 83, 99]);

    // The options: subnet mask, router, lease, an offer, server id, end.
    let opts = &d[240..];
    assert_eq!(&opts[0..6], &[1, 4, 255, 255, 255, 0]);
    assert_eq!(&opts[6..12], &[3, 4, 10, 1, 10, 1]);
    assert_eq!(&opts[12..18], &[51, 4, 0x10, 0x0E, 0, 0]);
    assert_eq!(u32::from_be_bytes([0x10, 0x0E, 0, 0]), 269_352_960);
    assert_eq!(&opts[18..21], &[53, 1, 2]);
    assert_eq!(&opts[21..27], &[54, 4, 10, 1, 10, 1]);
    assert_eq!(opts[27], 255);
}

#[test]
fn request_draws_an_acknowledgement() {
    let bootp = bootp_request(1, [1, 1, 1, 1], Some(3));
    let p = wrap_udp(&bootp, 68, 67);
    let reply = maybe_build_reply(&p).unwrap().unwrap();
    let d = &reply[28..];
    let opts = &d[240..];
    assert_eq!(&opts[18..21], &[53, 1, 5]);
}

#[test]
fn untyped_bootp_request_gets_untyped_reply() {
    let bootp = bootp_request(1, [1, 1, 1, 1], None);
    let p = wrap_udp(&bootp, 68, 67);
    let reply = maybe_build_reply(&p).unwrap().unwrap();
    let d = &reply[28..];
    let opts = &d[240..];
    // No message-type option: server id follows the lease directly.
    assert_eq!(&opts[12..18], &[51, 4, 0x10, 0x0E, 0, 0]);
    assert_eq!(&opts[18..24], &[54, 4, 10, 1, 10, 1]);
    assert_eq!(opts[24], 255);
}
