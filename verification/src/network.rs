//! The network tunnel's in-process state: the bounded ingress queue with
//! its drop-on-overflow discipline, the speed snapshot the meter task
//! publishes, and the network-status command. The socket fan-out and the
//! user-space IP stack are outside collaborators driven by the embedding
//! application.

use vstd::prelude::*;

use crate::layer2::{L2Channel, L2OpCode, L2Packet};
use crate::messages::{WearMessage, WearOp, WearPayload, WearType};
use crate::sar::SarController;

verus! {

/// The tunnel's buffer and framing configuration.
#[derive(Debug, Clone)]
pub struct NetworkConfig {
    pub ingress_buffer: usize,
    pub tun_buffer: usize,
    pub outbound_buffer: usize,
    pub meter_window_secs: u64,
    pub mtu: u16,
    pub enable_capture: bool,
}

impl Default for NetworkConfig {
    /// The defaults: small bounded buffers, a one-second meter window,
    /// the standard MTU, no capture.
    fn default() -> (r: Self)
        ensures
            r.ingress_buffer == 64,
            r.tun_buffer == 64,
            r.outbound_buffer == 64,
            r.meter_window_secs == 1,
            r.mtu == 1500,
            !r.enable_capture,
    {
        Self {
            ingress_buffer: 64,
            tun_buffer: 64,
            outbound_buffer: 64,
            meter_window_secs: 1,
            mtu: 1500,
            enable_capture: false,
        }
    }
}

/// The published tunnel rates: bytes per meter window, per direction.
#[derive(Debug, Clone, Copy, PartialEq, Eq, Structural)]
pub struct NetWorkSpeed {
    pub write: u64,
    pub read: u64,
}

/// Why an inbound tunnel packet was not queued.
#[derive(Debug, Clone, Copy, PartialEq, Eq, Structural)]
pub enum IngressError {
    /// The bounded queue is full; the packet is dropped.
    Backpressure,
    /// The tunnel has shut down.
    Closed,
}

/// A bounded packet queue: pushing onto a full queue fails and drops
/// the packet.
pub struct IngressQueue {
    pub capacity: usize,
    pub items: Vec<Vec<u8>>,
    pub closed: bool,
}

impl IngressQueue {
    /// Never more packets than the capacity.
    pub open spec fn wf(&self) -> bool {
        self.items@.len() <= self.capacity
    }

    /// An empty open queue of at least one slot.
    pub fn new(capacity: usize) -> (r: IngressQueue)
        ensures
            r.wf(),
            r.capacity == if capacity >= 1 {
                capacity
            } else {
                1
            },
            r.items@.len() == 0,
            !r.closed,
    {
        IngressQueue {
            capacity: if capacity >= 1 {
                capacity
            } else {
                1
            },
            items: Vec::new(),
            closed: false,
        }
    }

    /// Queues one inbound packet: fails with back-pressure exactly when
    /// the queue is full, and as closed when it has shut down; the
    /// packet is dropped either way.
    pub fn push_inbound(&mut self, packet: Vec<u8>) -> (r: Result<(), IngressError>)
        requires
            old(self).wf(),
        ensures
            final(self).wf(),
            old(self).closed ==> r == Result::<(), IngressError>::Err(IngressError::Closed)
                && final(self).items@ == old(self).items@,
            !old(self).closed && old(self).items@.len() >= old(self).capacity ==> r == Result::<
                (),
                IngressError,
            >::Err(IngressError::Backpressure) && final(self).items@ == old(self).items@,
            !old(self).closed && old(self).items@.len() < old(self).capacity ==> r == Result::<
                (),
                IngressError,
            >::Ok(()) && final(self).items@.len() == old(self).items@.len() + 1 && final(self).items@.last()@ == packet@,
            final(self).capacity == old(self).capacity,
            final(self).closed == old(self).closed,
    {
        if self.closed {
            return Err(IngressError::Closed);
        }
        if self.items.len() >= self.capacity {
            return Err(IngressError::Backpressure);
        }
        self.items.push(packet);
        Ok(())
    }

    /// Takes the oldest queued packet, if any.
    pub fn pop(&mut self) -> (r: Option<Vec<u8>>)
        requires
            old(self).wf(),
        ensures
            final(self).wf(),
            r is Some <==> old(self).items@.len() > 0,
            r is Some ==> final(self).items@ == old(self).items@.skip(1) && r->Some_0@ == old(
                self,
            ).items@[0]@,
            r is None ==> final(self).items@ == old(self).items@,
            final(self).capacity == old(self).capacity,
            final(self).closed == old(self).closed,
    {
        if self.items.len() == 0 {
            return None;
        }
        Some(self.items.remove(0))
    }

    /// Shuts the queue down; later pushes fail as closed.
    pub fn close(&mut self)
        requires
            old(self).wf(),
        ensures
            final(self).wf(),
            final(self).closed,
            final(self).items@ == old(self).items@,
            final(self).capacity == old(self).capacity,
    {
        self.closed = true;
    }
}

/// The network service's per-device record: its configuration and the
/// last published rates.
pub struct NetworkComponent {
    pub config: NetworkConfig,
    pub last_speed: NetWorkSpeed,
}

impl NetworkComponent {
    /// A fresh record with zero rates.
    pub fn new(config: NetworkConfig) -> (r: NetworkComponent)
        ensures
            r.last_speed.write == 0,
            r.last_speed.read == 0,
            r.config.mtu == config.mtu,
            r.config.ingress_buffer == config.ingress_buffer,
    {
        NetworkComponent { config, last_speed: NetWorkSpeed { write: 0, read: 0 } }
    }

    /// Publishes a rate snapshot.
    pub fn update_speed(&mut self, speed: NetWorkSpeed)
        ensures
            final(self).last_speed == speed,
            final(self).config.mtu == old(self).config.mtu,
            final(self).config.ingress_buffer == old(self).config.ingress_buffer,
    {
        self.last_speed = speed;
    }
}

/// Answers an ICMPv4 message handed out of the IP stack as an unknown
/// transport: an echo request draws the matching echo reply, with the
/// identifier, sequence and payload copied and the checksum recomputed;
/// anything else draws nothing and is dropped.
pub fn build_icmp_echo_reply(message: &[u8]) -> (r: Option<Vec<u8>>)
    requires
        message@.len() <= 65532,
    ensures
        r is Some <==> message@.len() >= 8 && message@[0] == 8 && message@[1] == 0,
        r matches Some(v) ==> {
            let body = seq![0u8, 0u8, 0u8, 0u8] + message@.skip(4);
            &&& v@ == seq![0u8, 0u8] + crate::endian::spec_u16_be(
                crate::dhcp::spec_inet_checksum(body),
            ) + message@.skip(4)
        },
{
    if message.len() < 8 || message[0] != 8 || message[1] != 0 {
        return None;
    }
    let mut body: Vec<u8> = Vec::new();
    body.push(0);
    body.push(0);
    body.push(0);
    body.push(0);
    let rest = vstd::slice::slice_subrange(message, 4, message.len());
    crate::endian::extend_bytes(&mut body, rest);
    proof {
        assert(body@ =~= seq![0u8, 0u8, 0u8, 0u8] + message@.skip(4));
    }
    let checksum = crate::dhcp::compute_checksum(body.as_slice());
    let mut reply: Vec<u8> = Vec::new();
    reply.push(0);
    reply.push(0);
    crate::endian::push_u16_be(&mut reply, checksum);
    crate::endian::extend_bytes(&mut reply, rest);
    proof {
        assert(reply@ =~= seq![0u8, 0u8] + crate::endian::spec_u16_be(checksum) + message@.skip(
            4,
        ));
    }
    Some(reply)
}

/// Builds the command that reports the host's network capability.
pub fn build_sync_network_status() -> (r: WearMessage)
    ensures
        r.msg_type == WearType::System,
        r.id == WearOp::SyncNetworkStatus,
        r.payload matches WearPayload::NetworkStatus { capability } && capability == 2,
{
    WearMessage {
        msg_type: WearType::System,
        id: WearOp::SyncNetworkStatus,
        payload: WearPayload::NetworkStatus { capability: 2 },
    }
}

/// Queues an outbound tunnel payload on the reliable layer, framed as a
/// plain write on the network channel.
pub fn enqueue_network_payload(sar: &mut SarController, payload: Vec<u8>, now_ms: u64) -> (seq: u8)
    requires
        old(sar).wf(),
        payload@.len() + 2 <= 0xFFFF,
    ensures
        final(sar).wf(),
        seq == old(sar).next_seq(),
{
    let bytes = L2Packet::new(L2Channel::Network, L2OpCode::Write, payload).to_bytes();
    sar.enqueue(bytes, now_ms)
}

} // verus!
