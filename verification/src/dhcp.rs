//! The embedded DHCP responder: an inbound IPv4/UDP datagram from the
//! client port to the server port carrying a BOOTP request is answered
//! with a BOOTREPLY offering the tunnel address, wrapped in UDP and IPv4
//! with both checksums computed.

use vstd::prelude::*;

use crate::endian::{push_u16_be, read_u16_be, spec_u16_be, spec_u16_from_be};

verus! {

/// The sum of the big-endian 16-bit words of a byte string; an odd
/// trailing byte counts as the high byte of a final word.
pub open spec fn spec_sum_words(buf: Seq<u8>) -> int
    decreases buf.len(),
{
    if buf.len() == 0 {
        0
    } else if buf.len() == 1 {
        buf[0] * 0x100
    } else {
        buf[0] * 0x100 + buf[1] + spec_sum_words(buf.skip(2))
    }
}

/// Folding the carries of a ones'-complement sum until it fits 16 bits.
pub open spec fn spec_fold_carries(sum: int) -> int
    decreases sum
        when sum >= 0
{
    if sum < 0x10000 {
        sum
    } else {
        spec_fold_carries(sum % 0x10000 + sum / 0x10000)
    }
}

/// The Internet checksum of a byte string: the ones' complement of the
/// carry-folded word sum.
pub open spec fn spec_inet_checksum(buf: Seq<u8>) -> u16 {
    (0xFFFF - spec_fold_carries(spec_sum_words(buf))) as u16
}

proof fn lemma_sum_words_nonneg(buf: Seq<u8>)
    ensures
        spec_sum_words(buf) >= 0,
    decreases buf.len(),
{
    if buf.len() >= 2 {
        lemma_sum_words_nonneg(buf.skip(2));
    }
}

proof fn lemma_fold_carries_bound(sum: int)
    requires
        sum >= 0,
    ensures
        0 <= spec_fold_carries(sum) < 0x10000,
    decreases sum,
{
    if sum >= 0x10000 {
        lemma_fold_carries_bound(sum % 0x10000 + sum / 0x10000);
    }
}

/// Computes the Internet checksum over a buffer of at most 65536 bytes.
pub fn compute_checksum(buffer: &[u8]) -> (r: u16)
    requires
        buffer@.len() <= 65536,
    ensures
        r == spec_inet_checksum(buffer@),
{
    let n = buffer.len();
    let mut sum: u32 = 0;
    let mut i: usize = 0;
    proof {
        assert(buffer@.skip(0) =~= buffer@);
        lemma_sum_words_nonneg(buffer@);
    }
    while i + 1 < n
        invariant
            n == buffer@.len(),
            n <= 65536,
            i <= n,
            i % 2 == 0,
            sum <= 0xFFFF * 0x8001,
            sum + spec_sum_words(buffer@.skip(i as int)) == spec_sum_words(buffer@),
            sum <= (i / 2) * 0xFFFF,
        decreases n - i,
    {
        let word = (buffer[i] as u32) * 0x100 + buffer[i + 1] as u32;
        proof {
            let rest = buffer@.skip(i as int);
            assert(rest[0] == buffer@[i as int] && rest[1] == buffer@[i as int + 1]);
            assert(rest.skip(2) =~= buffer@.skip(i + 2));
            assert((i / 2) * 0xFFFF + 0xFFFF == (i / 2 + 1) * 0xFFFF) by (nonlinear_arith);
            assert((i / 2 + 1) * 0xFFFF <= 32768 * 0xFFFF) by (nonlinear_arith)
                requires
                    i / 2 + 1 <= 32768,
            ;
        }
        sum = sum + word;
        i = i + 2;
    }
    if i < n {
        proof {
            let rest = buffer@.skip(i as int);
            assert(rest.len() == 1);
            assert(rest[0] == buffer@[i as int]);
        }
        sum = sum + (buffer[i] as u32) * 0x100;
    } else {
        proof {
            assert(buffer@.skip(i as int).len() == 0);
        }
    }
    proof {
        assert(spec_fold_carries(sum as int) == spec_fold_carries(spec_sum_words(buffer@)));
    }
    while sum / 0x10000 != 0
        invariant
            spec_fold_carries(sum as int) == spec_fold_carries(spec_sum_words(buffer@)),
        decreases sum,
    {
        sum = sum % 0x10000 + sum / 0x10000;
    }
    proof {
        assert(spec_fold_carries(sum as int) == sum as int);
        lemma_fold_carries_bound(spec_sum_words(buffer@));
    }
    0xFFFFu16 - (sum as u16)
}

/// Why an inbound datagram addressed to the responder could not be
/// answered.
#[derive(Debug, Clone, Copy, PartialEq, Eq, Structural)]
pub enum DhcpError {
    /// The datagram is addressed to the responder but its BOOTP part is
    /// too short or lacks the magic cookie.
    Malformed,
}

/// Whether a raw packet is an IPv4/UDP datagram from the DHCP client
/// port to the server port, with its whole UDP payload present.
pub open spec fn spec_is_dhcp_request_transport(p: Seq<u8>) -> bool {
    &&& p.len() >= 28
    &&& p[0] / 16 == 4
    &&& (p[0] % 16) * 4 >= 20
    &&& (p[0] % 16) * 4 + 8 <= p.len()
    &&& p[9] == 17
    &&& spec_u16_from_be(p.subrange((p[0] % 16) * 4, (p[0] % 16) * 4 + 2)) == 68
    &&& spec_u16_from_be(p.subrange((p[0] % 16) * 4 + 2, (p[0] % 16) * 4 + 4)) == 67
}

/// The BOOTP payload of such a datagram: everything after the IPv4
/// header and the eight UDP header bytes.
pub open spec fn spec_dhcp_payload(p: Seq<u8>) -> Seq<u8> {
    p.skip((p[0] % 16) * 4 + 8)
}

/// Whether a BOOTP payload is well-formed: the fixed fields and the
/// magic cookie are present.
pub open spec fn spec_bootp_wf(d: Seq<u8>) -> bool {
    &&& d.len() >= 240
    &&& d[236] == 99
    &&& d[237] == 130
    &&& d[238] == 83
    &&& d[239] == 99
}

/// The DHCP message type declared in the payload's options, if any:
/// options are walked from the cookie, pads skipped, until the end
/// marker or a type option.
pub open spec fn spec_dhcp_msg_type(d: Seq<u8>, i: int) -> Option<u8>
    decreases d.len() - i
        when i >= 0
{
    if i >= d.len() {
        None
    } else if d[i] == 0 {
        spec_dhcp_msg_type(d, i + 1)
    } else if d[i] == 255 {
        None
    } else if i + 1 >= d.len() {
        None
    } else if d[i] == 53 && d[i + 1] >= 1 && i + 2 < d.len() {
        Some(d[i + 2])
    } else {
        let next = i + 2 + d[i + 1];
        spec_dhcp_msg_type(
            d,
            if next <= d.len() {
                next
            } else {
                d.len() as int
            },
        )
    }
}

/// The reply's option block: the subnet mask, router, lease time,
/// message type — an offer for a discover, an acknowledgement for a
/// request, absent otherwise — and server identifier, in option-code
/// order, closed by the end marker.
pub open spec fn spec_reply_options(msg_type: Option<u8>) -> Seq<u8> {
    let typed: Seq<u8> = if msg_type == Some(1u8) {
        seq![53u8, 1u8, 2u8]
    } else if msg_type == Some(3u8) {
        seq![53u8, 1u8, 5u8]
    } else {
        Seq::<u8>::empty()
    };
    seq![1u8, 4u8, 255u8, 255u8, 255u8, 0u8] + seq![3u8, 4u8, 10u8, 1u8, 10u8, 1u8] + seq![
        51u8, 4u8, 0x10u8, 0x0Eu8, 0u8, 0u8,
    ] + typed + seq![54u8, 4u8, 10u8, 1u8, 10u8, 1u8] + seq![255u8]
}

/// The reply's BOOTP payload for a request payload: a reply opcode, the
/// request's hardware fields, transaction id, client hardware address,
/// server name and file regions, zeroed seconds, flags and client and
/// gateway addresses, the offered and server addresses, the magic
/// cookie, and the reply options.
pub open spec fn spec_reply_bootp(d: Seq<u8>) -> Seq<u8>
    recommends
        spec_bootp_wf(d),
{
    seq![2u8, d[1], d[2], d[3]] + d.subrange(4, 8) + seq![0u8, 0u8, 0u8, 0u8] + seq![
        0u8, 0u8, 0u8, 0u8,
    ] + seq![10u8, 1u8, 10u8, 2u8] + seq![10u8, 1u8, 10u8, 1u8] + seq![0u8, 0u8, 0u8, 0u8]
        + d.subrange(28, 236) + seq![99u8, 130u8, 83u8, 99u8] + spec_reply_options(
        spec_dhcp_msg_type(d, 240),
    )
}

/// The reply's UDP header: server to client port, the datagram length,
/// and a checksum.
pub open spec fn spec_reply_udp_header(udp_len: u16, checksum: u16) -> Seq<u8> {
    spec_u16_be(67) + spec_u16_be(68) + spec_u16_be(udp_len) + spec_u16_be(checksum)
}

/// The pseudo-header the UDP checksum covers: the limited-broadcast
/// source, the server destination, the UDP protocol number and length,
/// then the header with a zero checksum and the payload.
pub open spec fn spec_reply_udp_pseudo(bootp: Seq<u8>) -> Seq<u8> {
    seq![255u8, 255u8, 255u8, 255u8] + seq![10u8, 1u8, 10u8, 1u8] + seq![0u8, 17u8] + spec_u16_be(
        (8 + bootp.len()) as u16,
    ) + spec_reply_udp_header((8 + bootp.len()) as u16, 0) + bootp
}

/// The reply's IPv4 header: a plain 20-byte header, total length,
/// TTL 64, UDP, a checksum, the limited-broadcast source and the server
/// destination.
pub open spec fn spec_reply_ip_header(total_len: u16, checksum: u16) -> Seq<u8> {
    seq![0x45u8, 0u8] + spec_u16_be(total_len) + seq![0u8, 0u8, 0u8, 0u8] + seq![0x40u8, 0x11u8]
        + spec_u16_be(checksum) + seq![255u8, 255u8, 255u8, 255u8] + seq![10u8, 1u8, 10u8, 1u8]
}

/// The whole reply datagram for a request's BOOTP payload, checksums
/// computed.
pub open spec fn spec_dhcp_reply(d: Seq<u8>) -> Seq<u8>
    recommends
        spec_bootp_wf(d),
{
    let bootp = spec_reply_bootp(d);
    let udp_len = (8 + bootp.len()) as u16;
    let udp_checksum = spec_inet_checksum(spec_reply_udp_pseudo(bootp));
    let total_len = (20 + 8 + bootp.len()) as u16;
    let ip_checksum = spec_inet_checksum(spec_reply_ip_header(total_len, 0));
    spec_reply_ip_header(total_len, ip_checksum) + spec_reply_udp_header(udp_len, udp_checksum)
        + bootp
}

/// Walks the request's options for its message type.
fn find_msg_type(d: &[u8]) -> (r: Option<u8>)
    requires
        d@.len() >= 240,
    ensures
        r == spec_dhcp_msg_type(d@, 240),
{
    let n = d.len();
    let mut i: usize = 240;
    while i < n
        invariant
            n == d@.len(),
            240 <= i,
            spec_dhcp_msg_type(d@, i as int) == spec_dhcp_msg_type(d@, 240),
        decreases n - i,
    {
        let code = d[i];
        if code == 0 {
            i = i + 1;
        } else if code == 255 {
            return None;
        } else if i + 1 >= n {
            return None;
        } else if code == 53 && d[i + 1] >= 1 && i + 2 < n {
            return Some(d[i + 2]);
        } else {
            let step = 2 + d[i + 1] as usize;
            if n - i <= step {
                proof {
                    assert(spec_dhcp_msg_type(d@, n as int) == None::<u8>);
                }
                return None;
            }
            i = i + step;
        }
    }
    None
}

/// Appends the reply options for a request message type.
fn push_reply_options(out: &mut Vec<u8>, msg_type: Option<u8>)
    ensures
        final(out)@ == old(out)@ + spec_reply_options(msg_type),
{
    let mut opts: Vec<u8> = Vec::new();
    opts.push(1);
    opts.push(4);
    opts.push(255);
    opts.push(255);
    opts.push(255);
    opts.push(0);
    opts.push(3);
    opts.push(4);
    opts.push(10);
    opts.push(1);
    opts.push(10);
    opts.push(1);
    opts.push(51);
    opts.push(4);
    opts.push(0x10);
    opts.push(0x0E);
    opts.push(0);
    opts.push(0);
    match msg_type {
        Some(t) => {
            if t == 1 {
                opts.push(53);
                opts.push(1);
                opts.push(2);
            } else if t == 3 {
                opts.push(53);
                opts.push(1);
                opts.push(5);
            }
        },
        None => {},
    }
    opts.push(54);
    opts.push(4);
    opts.push(10);
    opts.push(1);
    opts.push(10);
    opts.push(1);
    opts.push(255);
    proof {
        assert(opts@ =~= spec_reply_options(msg_type));
    }
    crate::endian::extend_bytes(out, opts.as_slice());
}

/// Answers an inbound raw packet: `None` for anything that is not an
/// IPv4/UDP datagram from the DHCP client port to the server port, and
/// for a BOOTP message that is not a request; an error for a datagram
/// addressed to the responder whose BOOTP part is malformed; otherwise
/// the BOOTREPLY datagram, checksums computed.
#[verifier::rlimit(100)]
pub fn maybe_build_reply(network_packet: &[u8]) -> (r: Result<Option<Vec<u8>>, DhcpError>)
    ensures
        !spec_is_dhcp_request_transport(network_packet@) ==> r == Result::<
            Option<Vec<u8>>,
            DhcpError,
        >::Ok(None),
        spec_is_dhcp_request_transport(network_packet@) && !spec_bootp_wf(
            spec_dhcp_payload(network_packet@),
        ) ==> r == Result::<Option<Vec<u8>>, DhcpError>::Err(DhcpError::Malformed),
        spec_is_dhcp_request_transport(network_packet@) && spec_bootp_wf(
            spec_dhcp_payload(network_packet@),
        ) && spec_dhcp_payload(network_packet@)[0] != 1 ==> r == Result::<
            Option<Vec<u8>>,
            DhcpError,
        >::Ok(None),
        spec_is_dhcp_request_transport(network_packet@) && spec_bootp_wf(
            spec_dhcp_payload(network_packet@),
        ) && spec_dhcp_payload(network_packet@)[0] == 1 ==> (r matches Ok(o) && o matches Some(v)
            && v@ == spec_dhcp_reply(spec_dhcp_payload(network_packet@))),
{
    let p = network_packet;
    if p.len() < 28 {
        return Ok(None);
    }
    if p[0] / 16 != 4 {
        return Ok(None);
    }
    let ihl = (p[0] % 16) as usize * 4;
    if ihl < 20 {
        return Ok(None);
    }
    if ihl + 8 > p.len() {
        return Ok(None);
    }
    if p[9] != 17 {
        return Ok(None);
    }
    if read_u16_be(p, ihl) != 68 {
        return Ok(None);
    }
    if read_u16_be(p, ihl + 2) != 67 {
        return Ok(None);
    }
    let d = vstd::slice::slice_subrange(p, ihl + 8, p.len());
    proof {
        assert(d@ =~= spec_dhcp_payload(p@));
    }
    if d.len() < 240 {
        return Err(DhcpError::Malformed);
    }
    if !(d[236] == 99 && d[237] == 130 && d[238] == 83 && d[239] == 99) {
        return Err(DhcpError::Malformed);
    }
    if d[0] != 1 {
        return Ok(None);
    }
    let msg_type = find_msg_type(d);

    // The BOOTP reply.
    let mut bootp: Vec<u8> = Vec::new();
    bootp.push(2);
    bootp.push(d[1]);
    bootp.push(d[2]);
    bootp.push(d[3]);
    crate::endian::extend_bytes(&mut bootp, vstd::slice::slice_subrange(d, 4, 8));
    let mut z: usize = 0;
    while z < 8
        invariant
            z <= 8,
            bootp@ == seq![2u8, d@[1], d@[2], d@[3]] + d@.subrange(4, 8) + Seq::new(
                z as nat,
                |i: int| 0u8,
            ),
        decreases 8 - z,
    {
        bootp.push(0);
        proof {
            assert(bootp@ =~= seq![2u8, d@[1], d@[2], d@[3]] + d@.subrange(4, 8) + Seq::new(
                (z + 1) as nat,
                |i: int| 0u8,
            ));
        }
        z = z + 1;
    }
    bootp.push(10);
    bootp.push(1);
    bootp.push(10);
    bootp.push(2);
    bootp.push(10);
    bootp.push(1);
    bootp.push(10);
    bootp.push(1);
    bootp.push(0);
    bootp.push(0);
    bootp.push(0);
    bootp.push(0);
    crate::endian::extend_bytes(&mut bootp, vstd::slice::slice_subrange(d, 28, 236));
    bootp.push(99);
    bootp.push(130);
    bootp.push(83);
    bootp.push(99);
    push_reply_options(&mut bootp, msg_type);
    proof {
        assert(Seq::new(8nat, |i: int| 0u8) =~= seq![
            0u8, 0u8, 0u8, 0u8, 0u8, 0u8, 0u8, 0u8,
        ]);
        assert(bootp@ =~= spec_reply_bootp(d@));
    }

    // The UDP header and its checksum over the pseudo-header.
    let udp_len = (bootp.len() + 8) as u16;
    let mut pseudo: Vec<u8> = Vec::new();
    pseudo.push(255);
    pseudo.push(255);
    pseudo.push(255);
    pseudo.push(255);
    pseudo.push(10);
    pseudo.push(1);
    pseudo.push(10);
    pseudo.push(1);
    pseudo.push(0);
    pseudo.push(17);
    push_u16_be(&mut pseudo, udp_len);
    push_u16_be(&mut pseudo, 67);
    push_u16_be(&mut pseudo, 68);
    push_u16_be(&mut pseudo, udp_len);
    push_u16_be(&mut pseudo, 0);
    crate::endian::extend_bytes(&mut pseudo, bootp.as_slice());
    proof {
        assert(pseudo@ =~= spec_reply_udp_pseudo(bootp@));
    }
    let udp_checksum = compute_checksum(pseudo.as_slice());

    // The IPv4 header and its checksum.
    let total_len = (20 + bootp.len() + 8) as u16;
    let mut ip_zero: Vec<u8> = Vec::new();
    ip_zero.push(0x45);
    ip_zero.push(0);
    push_u16_be(&mut ip_zero, total_len);
    ip_zero.push(0);
    ip_zero.push(0);
    ip_zero.push(0);
    ip_zero.push(0);
    ip_zero.push(0x40);
    ip_zero.push(0x11);
    push_u16_be(&mut ip_zero, 0);
    ip_zero.push(255);
    ip_zero.push(255);
    ip_zero.push(255);
    ip_zero.push(255);
    ip_zero.push(10);
    ip_zero.push(1);
    ip_zero.push(10);
    ip_zero.push(1);
    proof {
        assert(ip_zero@ =~= spec_reply_ip_header(total_len, 0));
    }
    let ip_checksum = compute_checksum(ip_zero.as_slice());

    let mut reply: Vec<u8> = Vec::new();
    reply.push(0x45);
    reply.push(0);
    push_u16_be(&mut reply, total_len);
    reply.push(0);
    reply.push(0);
    reply.push(0);
    reply.push(0);
    reply.push(0x40);
    reply.push(0x11);
    push_u16_be(&mut reply, ip_checksum);
    reply.push(255);
    reply.push(255);
    reply.push(255);
    reply.push(255);
    reply.push(10);
    reply.push(1);
    reply.push(10);
    reply.push(1);
    push_u16_be(&mut reply, 67);
    push_u16_be(&mut reply, 68);
    push_u16_be(&mut reply, udp_len);
    push_u16_be(&mut reply, udp_checksum);
    crate::endian::extend_bytes(&mut reply, bootp.as_slice());
    proof {
        assert(reply@ =~= spec_reply_ip_header(total_len, ip_checksum) + spec_reply_udp_header(
            udp_len,
            udp_checksum,
        ) + bootp@);
        assert(reply@ =~= spec_dhcp_reply(d@));
    }
    Ok(Some(reply))
}

} // verus!
