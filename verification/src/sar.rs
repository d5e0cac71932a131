//! The reliable transmission layer: windowed stop-and-wait delivery of
//! sequenced DATA frames with cumulative acknowledgement, NAK-triggered
//! retransmission, timeout-triggered retransmission, and out-of-band CMD
//! frames that negotiate window and timeout.
//!
//! The controller is a pure state machine: every operation takes the
//! current time in milliseconds where it matters, and frames to be sent
//! are appended to an outbox that the transport driver drains.

use vstd::prelude::*;

use crate::command_pool::{CommandPool, QueuedData};
use crate::config::SarConfig;
use crate::layer1::{L1DataType, L1Packet};
use crate::layer1cmd::{
    spec_assoc_get, spec_assoc_set, spec_cmd_from, spec_tlv_bytes, spec_tlv_parse_acc, CmdCode,
    L1CmdBuilder, L1CmdPacket, CONFIG_TYPE_DEVICE_TYPE, CONFIG_TYPE_MPS, CONFIG_TYPE_SEND_TIMEOUT,
    CONFIG_TYPE_TX_WIN, CONFIG_TYPE_VERSION,
};
use crate::layer2::spec_channel_of_code;
use crate::layer2::L2Channel;
use crate::endian::{spec_u16_from_le, spec_u16_le};

verus! {

/// A data frame in flight: the frame, whether it awaits acknowledgement,
/// whether it must be retransmitted, and its retransmission deadline.
pub struct SendItem {
    pub packet: L1Packet,
    pub wait_ack: bool,
    pub need_retransmission: bool,
    pub deadline_ms: u64,
}

/// Whether two frames carry the same fields and payload bytes.
pub open spec fn same_packet(a: L1Packet, b: L1Packet) -> bool {
    &&& a.pkt_type == b.pkt_type
    &&& a.frx == b.frx
    &&& a.seq == b.seq
    &&& a.length == b.length
    &&& a.crc == b.crc
    &&& a.payload@ == b.payload@
}

/// A well-formed CMD frame over a payload.
pub open spec fn is_cmd_frame(p: L1Packet, payload: Seq<u8>) -> bool {
    &&& p.pkt_type == L1DataType::Cmd
    &&& !p.frx
    &&& p.seq == 0
    &&& p.payload@ == payload
    &&& p.wf()
}

/// A well-formed DATA frame with a sequence number over a payload.
pub open spec fn is_data_frame(p: L1Packet, seq: u8, payload: Seq<u8>) -> bool {
    &&& p.pkt_type == L1DataType::Data
    &&& !p.frx
    &&& p.seq == seq
    &&& p.payload@ == payload
    &&& p.wf()
}

/// A well-formed empty ACK frame for a sequence number.
pub open spec fn is_ack_frame(p: L1Packet, seq: u8) -> bool {
    &&& p.pkt_type == L1DataType::Ack
    &&& !p.frx
    &&& p.seq == seq
    &&& p.payload@.len() == 0
    &&& p.wf()
}

/// A well-formed empty NAK frame for a sequence number.
pub open spec fn is_nak_frame(p: L1Packet, seq: u8) -> bool {
    &&& p.pkt_type == L1DataType::Nak
    &&& !p.frx
    &&& p.seq == seq
    &&& p.payload@.len() == 0
    &&& p.wf()
}

/// The modulo-256 order on sequence numbers: `a` is at or before `b` when
/// `b - a`, wrapped, is below 128.
pub open spec fn spec_seq_le(a: u8, b: u8) -> bool {
    (b - a) % 256 < 128
}

/// Whether some in-flight frame is marked for retransmission.
pub open spec fn spec_has_retx(q: Seq<SendItem>) -> bool {
    exists|i: int| 0 <= i < q.len() && (#[trigger] q[i]).need_retransmission
}

/// The index of the oldest in-flight frame marked for retransmission.
pub open spec fn spec_first_retx(q: Seq<SendItem>) -> int
    decreases q.len(),
{
    if q.len() == 0 {
        0
    } else if q[0].need_retransmission {
        0
    } else {
        1 + spec_first_retx(q.skip(1))
    }
}

/// How many leading in-flight frames an ACK for `seq` acknowledges: the
/// longest prefix whose sequence numbers are at or before `seq`.
pub open spec fn spec_ack_drain(q: Seq<SendItem>, seq: u8) -> int
    decreases q.len(),
{
    if q.len() == 0 {
        0
    } else if spec_seq_le(q[0].packet.seq, seq) {
        1 + spec_ack_drain(q.skip(1), seq)
    } else {
        0
    }
}

/// The soft cap on in-flight frames: the window, at least one, plus the
/// overrun allowance, capped at 255.
pub open spec fn spec_soft_cap(win: u8, allowance: u8) -> u8 {
    let base: int = if win >= 1 {
        win as int
    } else {
        1
    };
    if base + allowance <= 255 {
        (base + allowance) as u8
    } else {
        255
    }
}

/// The TLV configuration of the startup request: protocol version 1.0.0,
/// an MPS of 0xFFFF, a proposed window of 16, a proposed send timeout of
/// 15000 ms, and device type 0.
pub open spec fn spec_start_req_config() -> Seq<(u8, Seq<u8>)> {
    spec_assoc_set(
        spec_assoc_set(
            spec_assoc_set(
                spec_assoc_set(
                    spec_assoc_set(
                        Seq::<(u8, Seq<u8>)>::empty(),
                        CONFIG_TYPE_VERSION,
                        seq![1u8, 0u8, 0u8],
                    ),
                    CONFIG_TYPE_MPS,
                    spec_u16_le(0xFFFF),
                ),
                CONFIG_TYPE_TX_WIN,
                spec_u16_le(16),
            ),
            CONFIG_TYPE_SEND_TIMEOUT,
            spec_u16_le(15000),
        ),
        CONFIG_TYPE_DEVICE_TYPE,
        seq![0u8],
    )
}

/// The payload of the startup request CMD frame.
pub open spec fn spec_start_req_payload() -> Seq<u8> {
    seq![1u8] + spec_tlv_bytes(spec_start_req_config())
}

/// The startup configuration written out entry by entry: each key is set
/// once, so each binding appends.
proof fn lemma_start_req_config_concrete()
    ensures
        spec_start_req_config() == seq![
            (CONFIG_TYPE_VERSION, seq![1u8, 0u8, 0u8]),
            (CONFIG_TYPE_MPS, spec_u16_le(0xFFFF)),
            (CONFIG_TYPE_TX_WIN, spec_u16_le(16)),
            (CONFIG_TYPE_SEND_TIMEOUT, spec_u16_le(15000)),
            (CONFIG_TYPE_DEVICE_TYPE, seq![0u8]),
        ],
{
    let c0 = Seq::<(u8, Seq<u8>)>::empty();
    let c1 = spec_assoc_set(c0, CONFIG_TYPE_VERSION, seq![1u8, 0u8, 0u8]);
    crate::layer1cmd::lemma_assoc_set_absent(c0, CONFIG_TYPE_VERSION, seq![1u8, 0u8, 0u8]);
    assert(c1 =~= seq![(CONFIG_TYPE_VERSION, seq![1u8, 0u8, 0u8])]);
    let c2 = spec_assoc_set(c1, CONFIG_TYPE_MPS, spec_u16_le(0xFFFF));
    crate::layer1cmd::lemma_assoc_set_absent(c1, CONFIG_TYPE_MPS, spec_u16_le(0xFFFF));
    assert(c2 =~= seq![
        (CONFIG_TYPE_VERSION, seq![1u8, 0u8, 0u8]),
        (CONFIG_TYPE_MPS, spec_u16_le(0xFFFF)),
    ]);
    let c3 = spec_assoc_set(c2, CONFIG_TYPE_TX_WIN, spec_u16_le(16));
    crate::layer1cmd::lemma_assoc_set_absent(c2, CONFIG_TYPE_TX_WIN, spec_u16_le(16));
    assert(c3 =~= seq![
        (CONFIG_TYPE_VERSION, seq![1u8, 0u8, 0u8]),
        (CONFIG_TYPE_MPS, spec_u16_le(0xFFFF)),
        (CONFIG_TYPE_TX_WIN, spec_u16_le(16)),
    ]);
    let c4 = spec_assoc_set(c3, CONFIG_TYPE_SEND_TIMEOUT, spec_u16_le(15000));
    crate::layer1cmd::lemma_assoc_set_absent(c3, CONFIG_TYPE_SEND_TIMEOUT, spec_u16_le(15000));
    assert(c4 =~= seq![
        (CONFIG_TYPE_VERSION, seq![1u8, 0u8, 0u8]),
        (CONFIG_TYPE_MPS, spec_u16_le(0xFFFF)),
        (CONFIG_TYPE_TX_WIN, spec_u16_le(16)),
        (CONFIG_TYPE_SEND_TIMEOUT, spec_u16_le(15000)),
    ]);
    let c5 = spec_assoc_set(c4, CONFIG_TYPE_DEVICE_TYPE, seq![0u8]);
    crate::layer1cmd::lemma_assoc_set_absent(c4, CONFIG_TYPE_DEVICE_TYPE, seq![0u8]);
    assert(c5 =~= seq![
        (CONFIG_TYPE_VERSION, seq![1u8, 0u8, 0u8]),
        (CONFIG_TYPE_MPS, spec_u16_le(0xFFFF)),
        (CONFIG_TYPE_TX_WIN, spec_u16_le(16)),
        (CONFIG_TYPE_SEND_TIMEOUT, spec_u16_le(15000)),
        (CONFIG_TYPE_DEVICE_TYPE, seq![0u8]),
    ]);
}

/// The reliable-layer controller for one device.
pub struct SarController {
    /// The command and data queues awaiting transmission.
    pub command_pool: CommandPool,
    pub tx_queue: Vec<SendItem>,
    pub tx_next_seq: u8,
    pub tx_base: u8,
    pub tx_win: u8,
    pub tx_win_effective: u8,
    pub send_timeout: u64,
    pub rx_expect_seq: u8,
    pub rx_cum_ack_index: u8,
    pub rx_cum_ack_seq: u8,
    pub rx_cum_ack_armed: bool,
    pub acked: Vec<bool>,
    pub config: SarConfig,
    pub outbox: Vec<L1Packet>,
}

impl SarController {
    /// The in-flight queue, oldest first.
    pub open spec fn txq(&self) -> Seq<SendItem> {
        self.tx_queue@
    }

    /// The frames awaiting the transport driver, oldest first.
    pub open spec fn outbox_view(&self) -> Seq<L1Packet> {
        self.outbox@
    }

    /// Which sequence numbers are recorded as acknowledged.
    pub open spec fn acked_view(&self) -> Seq<bool> {
        self.acked@
    }

    /// The next sequence number to assign.
    pub open spec fn next_seq(&self) -> u8 {
        self.tx_next_seq
    }

    /// The sequence number of the oldest unacknowledged frame.
    pub open spec fn base_seq(&self) -> u8 {
        self.tx_base
    }

    /// The negotiated window.
    pub open spec fn win(&self) -> u8 {
        self.tx_win
    }

    /// The window plus overrun allowance.
    pub open spec fn win_eff(&self) -> u8 {
        self.tx_win_effective
    }

    /// The per-frame retransmission deadline, in milliseconds.
    pub open spec fn timeout_ms(&self) -> u64 {
        self.send_timeout
    }

    /// The next inbound DATA sequence number expected.
    pub open spec fn rx_expect(&self) -> u8 {
        self.rx_expect_seq
    }

    /// How many inbound frames await the cumulative acknowledgement.
    pub open spec fn cum_index(&self) -> u8 {
        self.rx_cum_ack_index
    }

    /// The newest inbound sequence number awaiting the cumulative
    /// acknowledgement.
    pub open spec fn cum_seq(&self) -> u8 {
        self.rx_cum_ack_seq
    }

    /// Whether the cumulative-acknowledgement timer is armed.
    pub open spec fn cum_armed(&self) -> bool {
        self.rx_cum_ack_armed
    }

    /// The configured overrun allowance.
    pub open spec fn allowance(&self) -> u8 {
        self.config.tx_win_overrun_allowance
    }

    /// The effective window: the soft cap, at least one.
    pub open spec fn eff(&self) -> int {
        if self.win_eff() >= 1 {
            self.win_eff() as int
        } else {
            1
        }
    }

    /// Structural soundness: the acknowledgement table covers all 256
    /// sequence numbers, queued payloads fit in frames, and every
    /// in-flight entry is a well-formed DATA frame.
    pub open spec fn wf(&self) -> bool {
        &&& self.acked_view().len() == 256
        &&& self.command_pool.wf()
        &&& forall|i: int|
            0 <= i < self.txq().len() ==> {
                let it = #[trigger] self.txq()[i];
                it.packet.wf() && it.packet.pkt_type == L1DataType::Data && !it.packet.frx
            }
    }
}

/// The receive-side fields agree.
pub open spec fn same_rx_state(a: &SarController, b: &SarController) -> bool {
    &&& b.rx_expect() == a.rx_expect()
    &&& b.cum_index() == a.cum_index()
    &&& b.cum_seq() == a.cum_seq()
    &&& b.cum_armed() == a.cum_armed()
}

/// The negotiated parameters agree.
pub open spec fn same_negotiated(a: &SarController, b: &SarController) -> bool {
    &&& b.win() == a.win()
    &&& b.win_eff() == a.win_eff()
    &&& b.timeout_ms() == a.timeout_ms()
    &&& b.allowance() == a.allowance()
}

/// The sequence counters agree.
pub open spec fn same_counters(a: &SarController, b: &SarController) -> bool {
    &&& b.next_seq() == a.next_seq()
    &&& b.base_seq() == a.base_seq()
}

/// The two queues of the pool agree.
pub open spec fn same_pool(a: &SarController, b: &SarController) -> bool {
    &&& b.command_pool.cmds() == a.command_pool.cmds()
    &&& b.command_pool.datas() == a.command_pool.datas()
}

/// The transition of one retransmission step: the oldest frame marked for
/// retransmission is re-sent and rearmed; nothing else moves, and no new
/// data is drawn from the pool.
pub open spec fn spec_retx_rel(pre: &SarController, post: &SarController, now_ms: u64) -> bool {
    let i = spec_first_retx(pre.txq());
    &&& spec_has_retx(pre.txq())
    &&& post.txq().len() == pre.txq().len()
    &&& forall|j: int| 0 <= j < pre.txq().len() && j != i ==> post.txq()[j] == pre.txq()[j]
    &&& post.txq()[i].packet == pre.txq()[i].packet
    &&& post.txq()[i].wait_ack
    &&& !post.txq()[i].need_retransmission
    &&& post.txq()[i].deadline_ms == spec_deadline(now_ms, pre.timeout_ms())
    &&& post.outbox_view().len() == pre.outbox_view().len() + 1
    &&& forall|j: int|
        0 <= j < pre.outbox_view().len() ==> post.outbox_view()[j] == pre.outbox_view()[j]
    &&& same_packet(post.outbox_view().last(), pre.txq()[i].packet)
    &&& same_pool(pre, post)
    &&& same_rx_state(pre, post)
    &&& same_negotiated(pre, post)
    &&& same_counters(pre, post)
    &&& post.acked_view() == pre.acked_view()
}

/// The transition of one fill step: every queued command is flushed as a
/// CMD frame, then data is drawn from the pool into the window until the
/// soft cap or the pool is exhausted, each sent as a DATA frame and
/// recorded in flight.
pub open spec fn spec_fill_rel(pre: &SarController, post: &SarController, now_ms: u64) -> bool {
    let k = pre.command_pool.cmds().len() as int;
    let cap: int = if pre.txq().len() < pre.eff() {
        pre.eff() - pre.txq().len()
    } else {
        0
    };
    let n: int = if pre.command_pool.datas().len() <= cap {
        pre.command_pool.datas().len() as int
    } else {
        cap
    };
    &&& !spec_has_retx(pre.txq())
    &&& post.command_pool.cmds().len() == 0
    &&& post.command_pool.datas() == pre.command_pool.datas().skip(n)
    &&& post.outbox_view().len() == pre.outbox_view().len() + k + n
    &&& forall|j: int|
        0 <= j < pre.outbox_view().len() ==> post.outbox_view()[j] == pre.outbox_view()[j]
    &&& forall|j: int|
        0 <= j < k ==> is_cmd_frame(
            #[trigger] post.outbox_view()[pre.outbox_view().len() + j],
            pre.command_pool.cmds()[j],
        )
    &&& forall|j: int|
        0 <= j < n ==> is_data_frame(
            #[trigger] post.outbox_view()[pre.outbox_view().len() + k + j],
            pre.command_pool.datas()[j].0,
            pre.command_pool.datas()[j].1,
        )
    &&& post.txq().len() == pre.txq().len() + n
    &&& forall|j: int| 0 <= j < pre.txq().len() ==> post.txq()[j] == pre.txq()[j]
    &&& forall|j: int|
        0 <= j < n ==> {
            let it = #[trigger] post.txq()[pre.txq().len() + j];
            &&& is_data_frame(
                it.packet,
                pre.command_pool.datas()[j].0,
                pre.command_pool.datas()[j].1,
            )
            &&& it.wait_ack
            &&& !it.need_retransmission
            &&& it.deadline_ms == spec_deadline(now_ms, pre.timeout_ms())
        }
    &&& same_rx_state(pre, post)
    &&& same_negotiated(pre, post)
    &&& same_counters(pre, post)
    &&& post.acked_view() == pre.acked_view()
}

/// The transition of the scheduler: a retransmission step where one is
/// due, else a fill step. Retransmission always comes first, and during
/// it no new data leaves the pool.
pub open spec fn spec_run_next_rel(pre: &SarController, post: &SarController, now_ms: u64) -> bool {
    if spec_has_retx(pre.txq()) {
        spec_retx_rel(pre, post, now_ms)
    } else {
        spec_fill_rel(pre, post, now_ms)
    }
}

/// A retransmission deadline: the current time plus the send timeout,
/// saturating.
pub open spec fn spec_deadline(now_ms: u64, timeout_ms: u64) -> u64 {
    if now_ms + timeout_ms <= u64::MAX {
        (now_ms + timeout_ms) as u64
    } else {
        u64::MAX
    }
}

/// The transition of assigning a sequence number and queuing one payload
/// at the back of the data queue; at the wrap from 255 to 0 the
/// acknowledgement record is cleared.
pub open spec fn spec_alloc_push_rel(
    pre: &SarController,
    post: &SarController,
    payload: Seq<u8>,
) -> bool {
    &&& post.next_seq() == ((pre.next_seq() + 1) % 256) as u8
    &&& post.command_pool.datas() == pre.command_pool.datas().push((pre.next_seq(), payload))
    &&& post.command_pool.cmds() == pre.command_pool.cmds()
    &&& post.txq() == pre.txq()
    &&& post.outbox_view() == pre.outbox_view()
    &&& post.acked_view().len() == 256
    &&& (pre.next_seq() == 255 ==> forall|s: int|
        0 <= s < 256 ==> !(#[trigger] post.acked_view()[s]))
    &&& (pre.next_seq() != 255 ==> post.acked_view() == pre.acked_view())
    &&& same_rx_state(pre, post)
    &&& same_negotiated(pre, post)
    &&& post.base_seq() == pre.base_seq()
}

/// The transition of draining an ACK: the acknowledged prefix of the
/// in-flight queue leaves it, each drained sequence number is recorded as
/// acknowledged, and the base advances by the drained count.
pub open spec fn spec_ack_rel(pre: &SarController, post: &SarController, seq: u8) -> bool {
    let d = spec_ack_drain(pre.txq(), seq);
    &&& post.txq() == pre.txq().skip(d)
    &&& post.acked_view().len() == 256
    &&& forall|s: int|
        0 <= s < 256 ==> (#[trigger] post.acked_view()[s] == (pre.acked_view()[s] || exists|j: int|
            0 <= j < d && (#[trigger] pre.txq()[j]).packet.seq == s))
    &&& post.base_seq() == ((pre.base_seq() + d) % 256) as u8
    &&& post.next_seq() == pre.next_seq()
    &&& post.outbox_view() == pre.outbox_view()
    &&& same_pool(pre, post)
    &&& same_rx_state(pre, post)
    &&& same_negotiated(pre, post)
}

/// The transition of marking for retransmission every in-flight frame at
/// or after a sequence number.
pub open spec fn spec_mark_rel(pre: &SarController, post: &SarController, seq: u8) -> bool {
    &&& post.txq().len() == pre.txq().len()
    &&& forall|j: int|
        0 <= j < pre.txq().len() ==> {
            let a = #[trigger] pre.txq()[j];
            let b = #[trigger] post.txq()[j];
            if spec_seq_le(seq, a.packet.seq) {
                b.packet == a.packet && !b.wait_ack && b.need_retransmission && b.deadline_ms
                    == a.deadline_ms
            } else {
                b == a
            }
        }
    &&& post.acked_view() == pre.acked_view()
    &&& post.outbox_view() == pre.outbox_view()
    &&& same_pool(pre, post)
    &&& same_rx_state(pre, post)
    &&& same_negotiated(pre, post)
    &&& same_counters(pre, post)
}

impl SarController {
    /// A fresh controller with the given configuration: window 16 with its
    /// soft cap, a 15-second send timeout, all counters zero, and the
    /// startup request already flushed to the outbox as a CMD frame.
    pub fn new(config: SarConfig, now_ms: u64) -> (r: SarController)
        ensures
            r.wf(),
            r.next_seq() == 0,
            r.base_seq() == 0,
            r.win() == 16,
            r.win_eff() == spec_soft_cap(16, config.tx_win_overrun_allowance),
            r.timeout_ms() == 15000,
            r.rx_expect() == 0,
            r.cum_index() == 0,
            !r.cum_armed(),
            forall|s: int| 0 <= s < 256 ==> !(#[trigger] r.acked_view()[s]),
            r.txq().len() == 0,
            r.command_pool.cmds().len() == 0,
            r.command_pool.datas().len() == 0,
            r.outbox_view().len() == 1,
            is_cmd_frame(r.outbox_view()[0], spec_start_req_payload()),
            r.allowance() == config.tx_win_overrun_allowance,
    {
        let allowance = config.tx_win_overrun_allowance;
        let mut acked: Vec<bool> = Vec::new();
        let mut s: usize = 0;
        while s < 256
            invariant
                s <= 256,
                acked@.len() == s,
                forall|j: int| 0 <= j < s ==> !(#[trigger] acked@[j]),
            decreases 256 - s,
        {
            acked.push(false);
            s = s + 1;
        }
        let mut ctrl = Self {
            command_pool: CommandPool::new(),
            tx_queue: Vec::new(),
            tx_next_seq: 0,
            tx_base: 0,
            tx_win: 16,
            tx_win_effective: Self::compute_soft_cap_with_allowance(16, allowance),
            send_timeout: 15000,
            rx_expect_seq: 0,
            rx_cum_ack_index: 0,
            rx_cum_ack_seq: 0,
            rx_cum_ack_armed: false,
            acked,
            config,
            outbox: Vec::new(),
        };
        let start_req = L1CmdBuilder::new()
            .cmd(CmdCode::CmdL1startReq)
            .version(1, 0, 0)
            .mps(0xFFFF)
            .tx_win(16)
            .send_timeout(15000)
            .device_type(0)
            .build()
            .unwrap();
        proof {
            assert(start_req.spec_config() == spec_start_req_config());
            lemma_start_req_config_concrete();
            assert(forall|j: int|
                0 <= j < start_req.config@.len() ==> (#[trigger] start_req.config@[j]).1@.len()
                    <= 3) by {
                assert(forall|j: int|
                    0 <= j < start_req.config@.len()
                        ==> (#[trigger] crate::layer1cmd::spec_config_view(start_req.config@)[j])
                        == (start_req.config@[j].0, start_req.config@[j].1@));
            }
            crate::layer1cmd::lemma_tlv_bytes_len_bound(spec_start_req_config(), 3);
        }
        let payload = start_req.to_payload_bytes();
        ctrl.command_pool.push_cmd_front(payload);
        ctrl.try_run_next(now_ms);
        ctrl
    }

    /// The soft cap for a window under an overrun allowance.
    pub fn compute_soft_cap_with_allowance(win: u8, allowance: u8) -> (r: u8)
        ensures
            r == spec_soft_cap(win, allowance),
    {
        let base: u8 = if win >= 1 {
            win
        } else {
            1
        };
        if base as u16 + allowance as u16 <= 255 {
            base + allowance
        } else {
            255
        }
    }

    /// The effective window as a count, at least one.
    pub fn tx_window_size(&self) -> (r: u8)
        ensures
            r as int == self.eff(),
    {
        if self.tx_win_effective >= 1 {
            self.tx_win_effective
        } else {
            1
        }
    }

    /// The negotiated window, at least one.
    pub fn raw_tx_window_size(&self) -> (r: u8)
        ensures
            r == if self.win() >= 1 {
                self.win()
            } else {
                1u8
            },
    {
        if self.tx_win >= 1 {
            self.tx_win
        } else {
            1
        }
    }

    /// The per-frame retransmission deadline, in milliseconds.
    pub fn send_timeout_ms(&self) -> (r: u64)
        ensures
            r == self.timeout_ms(),
    {
        self.send_timeout
    }

    /// Whether a sequence number is recorded as acknowledged.
    pub fn is_acked(&self, seq: u8) -> (r: bool)
        requires
            self.wf(),
        ensures
            r == self.acked_view()[seq as int],
    {
        self.acked[seq as usize]
    }

    /// Whether every listed sequence number is recorded as acknowledged.
    pub fn is_all_acked(&self, seqs: &[u8]) -> (r: bool)
        requires
            self.wf(),
        ensures
            r == forall|j: int| 0 <= j < seqs@.len() ==> self.acked_view()[#[trigger] seqs@[j] as int],
    {
        let mut i: usize = 0;
        while i < seqs.len()
            invariant
                self.wf(),
                i <= seqs@.len(),
                forall|j: int| 0 <= j < i ==> self.acked_view()[#[trigger] seqs@[j] as int],
            decreases seqs@.len() - i,
        {
            if !self.acked[seqs[i] as usize] {
                return false;
            }
            i = i + 1;
        }
        true
    }

    /// Forgets an acknowledgement after a higher layer has consumed it.
    pub fn mark_ack_consumed(&mut self, seq: u8)
        requires
            old(self).wf(),
        ensures
            final(self).wf(),
            final(self).acked_view() == old(self).acked_view().update(seq as int, false),
            final(self).txq() == old(self).txq(),
            final(self).outbox_view() == old(self).outbox_view(),
            same_pool(old(self), final(self)),
            same_rx_state(old(self), final(self)),
            same_negotiated(old(self), final(self)),
            same_counters(old(self), final(self)),
    {
        self.acked.set(seq as usize, false);
    }

    /// Hands the accumulated frames to the transport driver, oldest first,
    /// leaving the outbox empty.
    pub fn take_outbox(&mut self) -> (r: Vec<L1Packet>)
        requires
            old(self).wf(),
        ensures
            final(self).wf(),
            r@ == old(self).outbox_view(),
            final(self).outbox_view().len() == 0,
            final(self).txq() == old(self).txq(),
            final(self).acked_view() == old(self).acked_view(),
            same_pool(old(self), final(self)),
            same_rx_state(old(self), final(self)),
            same_negotiated(old(self), final(self)),
            same_counters(old(self), final(self)),
    {
        let mut out: Vec<L1Packet> = Vec::new();
        core::mem::swap(&mut out, &mut self.outbox);
        out
    }

    /// Allocates the next sequence number; at the wrap from 255 to 0 the
    /// acknowledgement record is cleared.
    pub fn alloc_seq(&mut self) -> (r: u8)
        requires
            old(self).wf(),
        ensures
            final(self).wf(),
            r == old(self).next_seq(),
            final(self).next_seq() == ((old(self).next_seq() + 1) % 256) as u8,
            final(self).acked_view().len() == 256,
            old(self).next_seq() == 255 ==> forall|s: int|
                0 <= s < 256 ==> !(#[trigger] final(self).acked_view()[s]),
            old(self).next_seq() != 255 ==> final(self).acked_view() == old(self).acked_view(),
            final(self).txq() == old(self).txq(),
            final(self).outbox_view() == old(self).outbox_view(),
            same_pool(old(self), final(self)),
            same_rx_state(old(self), final(self)),
            same_negotiated(old(self), final(self)),
            final(self).base_seq() == old(self).base_seq(),
    {
        let seq = self.tx_next_seq;
        self.tx_next_seq = self.tx_next_seq.wrapping_add(1);
        if self.tx_next_seq == 0 {
            let mut cleared: Vec<bool> = Vec::new();
            let mut s: usize = 0;
            while s < 256
                invariant
                    s <= 256,
                    cleared@.len() == s,
                    forall|j: int| 0 <= j < s ==> !(#[trigger] cleared@[j]),
                decreases 256 - s,
            {
                cleared.push(false);
                s = s + 1;
            }
            self.acked = cleared;
        }
        seq
    }

    /// Runs the scheduler once: retransmit the oldest frame that needs it,
    /// or flush every queued command and fill the window from the data
    /// queue.
    pub fn try_run_next(&mut self, now_ms: u64)
        requires
            old(self).wf(),
        ensures
            final(self).wf(),
            spec_run_next_rel(old(self), final(self), now_ms),
    {
        let n = self.tx_queue.len();
        let mut i: usize = 0;
        while i < n
            invariant
                *self == *old(self),
                self.wf(),
                n == self.txq().len(),
                i <= n,
                forall|j: int| 0 <= j < i ==> !(#[trigger] self.txq()[j]).need_retransmission,
            decreases n - i,
        {
            if self.tx_queue[i].need_retransmission {
                proof {
                    lemma_first_retx_at(self.txq(), i as int);
                }
                let item = self.tx_queue.remove(i);
                let resend = L1Packet {
                    pkt_type: item.packet.pkt_type,
                    frx: item.packet.frx,
                    seq: item.packet.seq,
                    length: item.packet.length,
                    crc: item.packet.crc,
                    payload: vstd::slice::slice_to_vec(item.packet.payload.as_slice()),
                };
                self.outbox.push(resend);
                let deadline = deadline_for(now_ms, self.send_timeout);
                let new_item = SendItem {
                    packet: item.packet,
                    wait_ack: true,
                    need_retransmission: false,
                    deadline_ms: deadline,
                };
                self.tx_queue.insert(i, new_item);
                proof {
                    assert(self.txq() =~= old(self).txq().update(i as int, new_item));
                    assert(spec_retx_rel(old(self), self, now_ms));
                }
                return;
            }
            i = i + 1;
        }
        // No frame needs retransmission: flush commands, then draw data
        // into the window.
        let ghost pre = *self;
        loop
            invariant
                self.wf(),
                !spec_has_retx(self.txq()),
                self.txq() == pre.txq(),
                self.acked_view() == pre.acked_view(),
                same_rx_state(&pre, self),
                same_negotiated(&pre, self),
                same_counters(&pre, self),
                self.command_pool.datas() == pre.command_pool.datas(),
                self.command_pool.cmds() == pre.command_pool.cmds().skip(
                    pre.command_pool.cmds().len() - self.command_pool.cmds().len(),
                ),
                self.command_pool.cmds().len() <= pre.command_pool.cmds().len(),
                self.outbox_view().len() == pre.outbox_view().len()
                    + (pre.command_pool.cmds().len() - self.command_pool.cmds().len()),
                forall|j: int|
                    0 <= j < pre.outbox_view().len() ==> self.outbox_view()[j]
                        == pre.outbox_view()[j],
                forall|j: int|
                    0 <= j < pre.command_pool.cmds().len() - self.command_pool.cmds().len()
                        ==> is_cmd_frame(
                        #[trigger] self.outbox_view()[pre.outbox_view().len() + j],
                        pre.command_pool.cmds()[j],
                    ),
            ensures
                self.wf(),
                !spec_has_retx(self.txq()),
                self.txq() == pre.txq(),
                self.acked_view() == pre.acked_view(),
                same_rx_state(&pre, self),
                same_negotiated(&pre, self),
                same_counters(&pre, self),
                self.command_pool.datas() == pre.command_pool.datas(),
                self.command_pool.cmds().len() == 0,
                self.outbox_view().len() == pre.outbox_view().len()
                    + pre.command_pool.cmds().len(),
                forall|j: int|
                    0 <= j < pre.outbox_view().len() ==> self.outbox_view()[j]
                        == pre.outbox_view()[j],
                forall|j: int|
                    0 <= j < pre.command_pool.cmds().len() ==> is_cmd_frame(
                        #[trigger] self.outbox_view()[pre.outbox_view().len() + j],
                        pre.command_pool.cmds()[j],
                    ),
            decreases self.command_pool.cmds().len(),
        {
            let ghost done = pre.command_pool.cmds().len() - self.command_pool.cmds().len();
            match self.command_pool.pop_cmd() {
                Some(cmd) => {
                    let pkt = L1Packet::new(L1DataType::Cmd, false, 0, cmd);
                    self.outbox.push(pkt);
                    proof {
                        assert(pre.command_pool.cmds().skip(done)[0] == pre.command_pool.cmds()[
                            done
                        ]);
                        assert(self.command_pool.cmds() =~= pre.command_pool.cmds().skip(done + 1));
                    }
                },
                None => {
                    break;
                },
            }
        }
        // Fill the window from the data queue.
        let ghost mid = *self;
        let eff = self.tx_window_size() as usize;
        proof {
            assert(eff as int == pre.eff());
        }
        loop
            invariant
                self.wf(),
                !spec_has_retx(self.txq()),
                eff as int == pre.eff(),
                self.timeout_ms() == pre.timeout_ms(),
                self.acked_view() == pre.acked_view(),
                same_rx_state(&pre, self),
                same_negotiated(&pre, self),
                same_counters(&pre, self),
                self.command_pool.cmds().len() == 0,
                mid.txq() == pre.txq(),
                mid.command_pool.datas() == pre.command_pool.datas(),
                self.txq().len() >= pre.txq().len(),
                self.txq().len() - pre.txq().len() == pre.command_pool.datas().len()
                    - self.command_pool.datas().len(),
                self.command_pool.datas() == pre.command_pool.datas().skip(
                    self.txq().len() - pre.txq().len(),
                ),
                self.txq().len() <= pre.txq().len() || self.txq().len() <= eff as int,
                forall|j: int| 0 <= j < pre.txq().len() ==> self.txq()[j] == pre.txq()[j],
                forall|j: int|
                    0 <= j < self.txq().len() - pre.txq().len() ==> {
                        let it = #[trigger] self.txq()[pre.txq().len() + j];
                        &&& is_data_frame(
                            it.packet,
                            pre.command_pool.datas()[j].0,
                            pre.command_pool.datas()[j].1,
                        )
                        &&& it.wait_ack
                        &&& !it.need_retransmission
                        &&& it.deadline_ms == spec_deadline(now_ms, pre.timeout_ms())
                    },
                self.outbox_view().len() == mid.outbox_view().len() + (self.txq().len()
                    - pre.txq().len()),
                forall|j: int|
                    0 <= j < mid.outbox_view().len() ==> self.outbox_view()[j]
                        == mid.outbox_view()[j],
                forall|j: int|
                    0 <= j < self.txq().len() - pre.txq().len() ==> is_data_frame(
                        #[trigger] self.outbox_view()[mid.outbox_view().len() + j],
                        pre.command_pool.datas()[j].0,
                        pre.command_pool.datas()[j].1,
                    ),
            ensures
                self.wf(),
                !spec_has_retx(self.txq()),
                ({
                    let cap: int = if pre.txq().len() < pre.eff() {
                        pre.eff() - pre.txq().len()
                    } else {
                        0
                    };
                    let drawn: int = if pre.command_pool.datas().len() <= cap {
                        pre.command_pool.datas().len() as int
                    } else {
                        cap
                    };
                    self.txq().len() == pre.txq().len() + drawn
                }),
                self.acked_view() == pre.acked_view(),
                same_rx_state(&pre, self),
                same_negotiated(&pre, self),
                same_counters(&pre, self),
                self.command_pool.cmds().len() == 0,
                self.command_pool.datas() == pre.command_pool.datas().skip(
                    self.txq().len() - pre.txq().len(),
                ),
                forall|j: int| 0 <= j < pre.txq().len() ==> self.txq()[j] == pre.txq()[j],
                forall|j: int|
                    0 <= j < self.txq().len() - pre.txq().len() ==> {
                        let it = #[trigger] self.txq()[pre.txq().len() + j];
                        &&& is_data_frame(
                            it.packet,
                            pre.command_pool.datas()[j].0,
                            pre.command_pool.datas()[j].1,
                        )
                        &&& it.wait_ack
                        &&& !it.need_retransmission
                        &&& it.deadline_ms == spec_deadline(now_ms, pre.timeout_ms())
                    },
                self.outbox_view().len() == mid.outbox_view().len() + (self.txq().len()
                    - pre.txq().len()),
                forall|j: int|
                    0 <= j < mid.outbox_view().len() ==> self.outbox_view()[j]
                        == mid.outbox_view()[j],
                forall|j: int|
                    0 <= j < self.txq().len() - pre.txq().len() ==> is_data_frame(
                        #[trigger] self.outbox_view()[mid.outbox_view().len() + j],
                        pre.command_pool.datas()[j].0,
                        pre.command_pool.datas()[j].1,
                    ),
            decreases self.command_pool.datas().len(),
        {
            if self.tx_queue.len() >= eff {
                proof {
                    lemma_fill_exit_full(pre.txq().len() as int, self.txq().len() as int, eff as int, pre.command_pool.datas().len() as int);
                }
                break;
            }
            let ghost drawn_before = self.txq().len() - pre.txq().len();
            match self.command_pool.pop_data() {
                Some(d) => {
                    let payload_copy = vstd::slice::slice_to_vec(d.payload.as_slice());
                    let pkt_out = L1Packet::new(L1DataType::Data, false, d.seq, payload_copy);
                    let pkt_in = L1Packet::new(L1DataType::Data, false, d.seq, d.payload);
                    self.outbox.push(pkt_out);
                    let deadline = deadline_for(now_ms, self.send_timeout);
                    self.tx_queue.push(
                        SendItem {
                            packet: pkt_in,
                            wait_ack: true,
                            need_retransmission: false,
                            deadline_ms: deadline,
                        },
                    );
                    proof {
                        assert(pre.command_pool.datas().skip(drawn_before)[0]
                            == pre.command_pool.datas()[drawn_before]);
                        assert(self.command_pool.datas() =~= pre.command_pool.datas().skip(
                            drawn_before + 1,
                        ));
                    }
                },
                None => {
                    break;
                },
            }
        }
        proof {
            let preo = old(self);
            let k = preo.command_pool.cmds().len() as int;
            let cap: int = if preo.txq().len() < preo.eff() {
                preo.eff() - preo.txq().len()
            } else {
                0
            };
            let n: int = if preo.command_pool.datas().len() <= cap {
                preo.command_pool.datas().len() as int
            } else {
                cap
            };
            assert(!spec_has_retx(preo.txq()));
            assert(mid.outbox_view().len() == preo.outbox_view().len() + k);
            assert(self.command_pool.cmds().len() == 0);
            assert(self.txq().len() == preo.txq().len() + n);
            assert(self.command_pool.datas() == preo.command_pool.datas().skip(n));
            assert(self.outbox_view().len() == preo.outbox_view().len() + k + n);
            assert(forall|j: int|
                0 <= j < preo.outbox_view().len() ==> self.outbox_view()[j]
                    == preo.outbox_view()[j]);
            assert forall|j: int| 0 <= j < k implies is_cmd_frame(
                #[trigger] self.outbox_view()[preo.outbox_view().len() + j],
                preo.command_pool.cmds()[j],
            ) by {
                assert(is_cmd_frame(
                    mid.outbox_view()[pre.outbox_view().len() + j],
                    pre.command_pool.cmds()[j],
                ));
                assert(self.outbox_view()[preo.outbox_view().len() + j] == mid.outbox_view()[
                    preo.outbox_view().len() + j
                ]);
            }
            assert(forall|j: int|
                0 <= j < n ==> is_data_frame(
                    #[trigger] self.outbox_view()[preo.outbox_view().len() + k + j],
                    preo.command_pool.datas()[j].0,
                    preo.command_pool.datas()[j].1,
                ));
            assert(forall|j: int| 0 <= j < preo.txq().len() ==> self.txq()[j] == preo.txq()[j]);
            assert(spec_fill_rel(old(self), self, now_ms));
        }
    }
}

impl SarController {
    /// Assigns the next sequence number to a payload, queues it, and runs
    /// the scheduler.
    pub fn enqueue(&mut self, data: Vec<u8>, now_ms: u64) -> (r: u8)
        requires
            old(self).wf(),
            data@.len() <= 0xFFFF,
        ensures
            final(self).wf(),
            r == old(self).next_seq(),
            exists|mid: SarController|
                #[trigger] spec_alloc_push_rel(old(self), &mid, data@) && spec_run_next_rel(
                    &mid,
                    final(self),
                    now_ms,
                ),
    {
        let ghost pre = *self;
        let seq = self.alloc_seq();
        self.command_pool.push(QueuedData { seq, payload: data });
        let ghost mid = *self;
        proof {
            assert(spec_alloc_push_rel(&pre, &mid, data@));
        }
        self.try_run_next(now_ms);
        seq
    }

    /// Queues a batch of payloads, assigning consecutive sequence numbers
    /// in order, and runs the scheduler once at the end.
    pub fn enqueue_batch(&mut self, payloads: Vec<Vec<u8>>, now_ms: u64) -> (r: Vec<u8>)
        requires
            old(self).wf(),
            forall|i: int| 0 <= i < payloads@.len() ==> (#[trigger] payloads@[i])@.len() <= 0xFFFF,
        ensures
            final(self).wf(),
            r@.len() == payloads@.len(),
            forall|i: int|
                0 <= i < r@.len() ==> #[trigger] r@[i] == ((old(self).next_seq() + i) % 256) as u8,
            exists|mid: SarController|
                (#[trigger] mid.wf()) && spec_run_next_rel(&mid, final(self), now_ms)
                    && mid.command_pool.datas() == old(self).command_pool.datas() + Seq::new(
                    payloads@.len() as nat,
                    |i: int| (((old(self).next_seq() + i) % 256) as u8, payloads@[i]@),
                ) && mid.command_pool.cmds() == old(self).command_pool.cmds() && mid.next_seq() == (
                (old(self).next_seq() + payloads@.len()) % 256) as u8 && mid.txq() == old(
                    self,
                ).txq() && mid.outbox_view() == old(self).outbox_view() && same_rx_state(
                    old(self),
                    &mid,
                ) && same_negotiated(old(self), &mid) && mid.base_seq() == old(self).base_seq(),
    {
        let ghost pre = *self;
        let mut seqs: Vec<u8> = Vec::new();
        let n = payloads.len();
        let mut idx: usize = 0;
        while idx < n
            invariant
                self.wf(),
                idx <= n,
                n == payloads@.len(),
                forall|i: int|
                    0 <= i < payloads@.len() ==> (#[trigger] payloads@[i])@.len() <= 0xFFFF,
                seqs@.len() == idx,
                forall|i: int|
                    0 <= i < idx ==> #[trigger] seqs@[i] == ((pre.next_seq() + i) % 256) as u8,
                self.next_seq() == ((pre.next_seq() + idx) % 256) as u8,
                self.command_pool.datas() == pre.command_pool.datas() + Seq::new(
                    idx as nat,
                    |i: int| (((pre.next_seq() + i) % 256) as u8, payloads@[i]@),
                ),
                self.command_pool.cmds() == pre.command_pool.cmds(),
                self.txq() == pre.txq(),
                self.outbox_view() == pre.outbox_view(),
                same_rx_state(&pre, self),
                same_negotiated(&pre, self),
                self.base_seq() == pre.base_seq(),
            decreases n - idx,
        {
            let payload = vstd::slice::slice_to_vec(payloads[idx].as_slice());
            let seq = self.alloc_seq();
            self.command_pool.push(QueuedData { seq, payload });
            seqs.push(seq);
            proof {
                assert(self.command_pool.datas() =~= pre.command_pool.datas() + Seq::new(
                    (idx + 1) as nat,
                    |i: int| (((pre.next_seq() + i) % 256) as u8, payloads@[i]@),
                ));
            }
            idx = idx + 1;
        }
        let ghost mid = *self;
        self.try_run_next(now_ms);
        proof {
            assert(mid.command_pool.datas() =~= pre.command_pool.datas() + Seq::new(
                payloads@.len() as nat,
                |i: int| (((pre.next_seq() + i) % 256) as u8, payloads@[i]@),
            ));
        }
        seqs
    }

    /// Assigns the next sequence number to a payload, queues it at the
    /// front of the data queue, and runs the scheduler.
    pub fn enqueue_front(&mut self, data: Vec<u8>, now_ms: u64) -> (r: u8)
        requires
            old(self).wf(),
            data@.len() <= 0xFFFF,
        ensures
            final(self).wf(),
            r == old(self).next_seq(),
            exists|mid: SarController|
                (#[trigger] mid.wf()) && spec_run_next_rel(&mid, final(self), now_ms)
                    && mid.command_pool.datas() == seq![(old(self).next_seq(), data@)] + old(
                    self,
                ).command_pool.datas() && mid.command_pool.cmds() == old(self).command_pool.cmds()
                    && mid.next_seq() == ((old(self).next_seq() + 1) % 256) as u8 && mid.txq()
                    == old(self).txq() && mid.outbox_view() == old(self).outbox_view()
                    && same_rx_state(old(self), &mid) && same_negotiated(old(self), &mid)
                    && mid.base_seq() == old(self).base_seq(),
    {
        let ghost data_view = data@;
        let seq = self.alloc_seq();
        self.command_pool.push_front(QueuedData { seq, payload: data });
        let ghost mid = *self;
        self.try_run_next(now_ms);
        proof {
            assert(mid.wf());
            assert(spec_run_next_rel(&mid, self, now_ms));
            assert(mid.command_pool.datas() == seq![(old(self).next_seq(), data_view)] + old(
                self,
            ).command_pool.datas());
        }
        seq
    }

    /// Queues a run of payloads at the front, keeping their order. The
    /// run is walked back to front, so within it the later payload holds
    /// the earlier sequence number.
    pub fn enqueue_front_batch(&mut self, payloads: Vec<Vec<u8>>, now_ms: u64) -> (r: Vec<u8>)
        requires
            old(self).wf(),
            forall|i: int| 0 <= i < payloads@.len() ==> (#[trigger] payloads@[i])@.len() <= 0xFFFF,
        ensures
            final(self).wf(),
            r@.len() == payloads@.len(),
            forall|i: int|
                0 <= i < r@.len() ==> #[trigger] r@[i] == ((old(self).next_seq() + (r@.len() - 1
                    - i)) % 256) as u8,
            exists|mid: SarController|
                (#[trigger] mid.wf()) && spec_run_next_rel(&mid, final(self), now_ms)
                    && mid.command_pool.datas() == Seq::new(
                    payloads@.len() as nat,
                    |i: int|
                        (
                            ((old(self).next_seq() + (payloads@.len() - 1 - i)) % 256) as u8,
                            payloads@[i]@,
                        ),
                ) + old(self).command_pool.datas() && mid.command_pool.cmds() == old(
                    self,
                ).command_pool.cmds() && mid.next_seq() == ((old(self).next_seq()
                    + payloads@.len()) % 256) as u8 && mid.txq() == old(self).txq()
                    && mid.outbox_view() == old(self).outbox_view() && same_rx_state(
                    old(self),
                    &mid,
                ) && same_negotiated(old(self), &mid) && mid.base_seq() == old(self).base_seq(),
    {
        let ghost pre = *self;
        let mut seqs_alloc: Vec<u8> = Vec::new();
        let n = payloads.len();
        let mut done: usize = 0;
        while done < n
            invariant
                self.wf(),
                done <= n,
                n == payloads@.len(),
                forall|i: int|
                    0 <= i < payloads@.len() ==> (#[trigger] payloads@[i])@.len() <= 0xFFFF,
                seqs_alloc@.len() == done,
                forall|t: int|
                    0 <= t < done ==> #[trigger] seqs_alloc@[t] == ((pre.next_seq() + t) % 256)
                        as u8,
                self.next_seq() == ((pre.next_seq() + done) % 256) as u8,
                self.command_pool.datas() == Seq::new(done as nat, |i: int|
                    (
                        ((pre.next_seq() + (done - 1 - i)) % 256) as u8,
                        payloads@[n - done + i]@,
                    )) + pre.command_pool.datas(),
                self.command_pool.cmds() == pre.command_pool.cmds(),
                self.txq() == pre.txq(),
                self.outbox_view() == pre.outbox_view(),
                same_rx_state(&pre, self),
                same_negotiated(&pre, self),
                self.base_seq() == pre.base_seq(),
            decreases n - done,
        {
            let j = n - 1 - done;
            let payload = vstd::slice::slice_to_vec(payloads[j].as_slice());
            let seq = self.alloc_seq();
            self.command_pool.push_front(QueuedData { seq, payload });
            seqs_alloc.push(seq);
            proof {
                assert(self.command_pool.datas() =~= Seq::new((done + 1) as nat, |i: int|
                    (
                        ((pre.next_seq() + (done + 1 - 1 - i)) % 256) as u8,
                        payloads@[n - (done + 1) + i]@,
                    )) + pre.command_pool.datas());
            }
            done = done + 1;
        }
        let ghost mid = *self;
        let mut seqs: Vec<u8> = Vec::new();
        let mut i: usize = 0;
        while i < n
            invariant
                i <= n,
                n == seqs_alloc@.len(),
                seqs@.len() == i,
                forall|t: int|
                    0 <= t < n ==> #[trigger] seqs_alloc@[t] == ((pre.next_seq() + t) % 256) as u8,
                forall|j2: int| 0 <= j2 < i ==> #[trigger] seqs@[j2] == seqs_alloc@[n - 1 - j2],
            decreases n - i,
        {
            seqs.push(seqs_alloc[n - 1 - i]);
            i = i + 1;
        }
        self.try_run_next(now_ms);
        seqs
    }
}

/// The modulo-256 order, executable form.
fn seq_le(a: u8, b: u8) -> (r: bool)
    ensures
        r == spec_seq_le(a, b),
{
    b.wrapping_sub(a) < 128
}

proof fn lemma_drain_skip(q: Seq<SendItem>, seq: u8, g: int)
    requires
        0 <= g <= q.len(),
        forall|j: int| 0 <= j < g ==> spec_seq_le((#[trigger] q[j]).packet.seq, seq),
    ensures
        spec_ack_drain(q, seq) == g + spec_ack_drain(q.skip(g), seq),
    decreases g,
{
    if g == 0 {
        assert(q.skip(0) =~= q);
    } else {
        assert(spec_seq_le(q[0].packet.seq, seq));
        assert(forall|j: int|
            0 <= j < g - 1 ==> spec_seq_le((#[trigger] q.skip(1)[j]).packet.seq, seq)) by {
            assert(forall|j: int| 0 <= j < q.skip(1).len() ==> #[trigger] q.skip(1)[j] == q[j + 1]);
        }
        lemma_drain_skip(q.skip(1), seq, g - 1);
        assert(q.skip(1).skip(g - 1) =~= q.skip(g));
    }
}

impl SarController {
    /// Drains the acknowledged prefix for an ACK of `seq`, recording each
    /// drained sequence number and advancing the base.
    fn ack_drain(&mut self, seq: u8)
        requires
            old(self).wf(),
        ensures
            final(self).wf(),
            spec_ack_rel(old(self), final(self), seq),
    {
        let ghost pre = *self;
        while self.tx_queue.len() > 0 && seq_le(self.tx_queue[0].packet.seq, seq)
            invariant
                self.wf(),
                self.txq().len() <= pre.txq().len(),
                self.txq() == pre.txq().skip(pre.txq().len() - self.txq().len()),
                forall|j: int|
                    0 <= j < pre.txq().len() - self.txq().len() ==> spec_seq_le(
                        (#[trigger] pre.txq()[j]).packet.seq,
                        seq,
                    ),
                self.acked_view().len() == 256,
                forall|s: int|
                    0 <= s < 256 ==> (#[trigger] self.acked_view()[s] == (pre.acked_view()[s]
                        || exists|j: int|
                        0 <= j < pre.txq().len() - self.txq().len() && (#[trigger] pre.txq()[
                            j
                        ]).packet.seq == s)),
                self.base_seq() == ((pre.base_seq() + (pre.txq().len() - self.txq().len())) % 256)
                    as u8,
                self.next_seq() == pre.next_seq(),
                self.outbox_view() == pre.outbox_view(),
                same_pool(&pre, self),
                same_rx_state(&pre, self),
                same_negotiated(&pre, self),
            decreases self.txq().len(),
        {
            let ghost g = pre.txq().len() - self.txq().len();
            let item = self.tx_queue.remove(0);
            self.acked.set(item.packet.seq as usize, true);
            self.tx_base = self.tx_base.wrapping_add(1);
            proof {
                assert(pre.txq().skip(g)[0] == pre.txq()[g]);
                assert(self.txq() =~= pre.txq().skip(g + 1));
            }
        }
        proof {
            let g = pre.txq().len() - self.txq().len();
            lemma_drain_skip(pre.txq(), seq, g);
            if self.txq().len() > 0 {
                assert(!spec_seq_le(self.txq()[0].packet.seq, seq));
            }
            assert(spec_ack_drain(pre.txq(), seq) == g);
        }
    }

    /// Marks for retransmission every in-flight frame whose sequence
    /// number is at or after `seq`.
    fn mark_retx_from(&mut self, seq: u8)
        requires
            old(self).wf(),
        ensures
            final(self).wf(),
            spec_mark_rel(old(self), final(self), seq),
    {
        let ghost pre = *self;
        let n = self.tx_queue.len();
        let mut i: usize = 0;
        while i < n
            invariant
                self.wf(),
                i <= n,
                n == self.txq().len(),
                n == pre.txq().len(),
                forall|j: int| i <= j < n ==> self.txq()[j] == pre.txq()[j],
                forall|j: int|
                    0 <= j < i ==> {
                        let a = #[trigger] pre.txq()[j];
                        let b = #[trigger] self.txq()[j];
                        if spec_seq_le(seq, a.packet.seq) {
                            b.packet == a.packet && !b.wait_ack && b.need_retransmission
                                && b.deadline_ms == a.deadline_ms
                        } else {
                            b == a
                        }
                    },
                self.acked_view() == pre.acked_view(),
                self.outbox_view() == pre.outbox_view(),
                same_pool(&pre, self),
                same_rx_state(&pre, self),
                same_negotiated(&pre, self),
                same_counters(&pre, self),
            decreases n - i,
        {
            let ghost cur = self.txq();
            if seq_le(seq, self.tx_queue[i].packet.seq) {
                let item = self.tx_queue.remove(i);
                let marked = SendItem {
                    packet: item.packet,
                    wait_ack: false,
                    need_retransmission: true,
                    deadline_ms: item.deadline_ms,
                };
                self.tx_queue.insert(i, marked);
                proof {
                    assert(self.txq() =~= cur.update(i as int, marked));
                }
            }
            i = i + 1;
        }
    }

    /// Handles one inbound frame: ACK and NAK drive the transmit side and
    /// never go further up; CMD applies negotiated parameters; DATA is
    /// checked against the expected sequence and acknowledged, and the
    /// result says whether it is delivered up the stack.
    pub fn on_l1_packet(&mut self, l1: &L1Packet, now_ms: u64) -> (r: bool)
        requires
            old(self).wf(),
        ensures
            final(self).wf(),
            l1.pkt_type == L1DataType::Ack ==> !r && exists|mid: SarController|
                (#[trigger] mid.wf()) && spec_ack_rel(old(self), &mid, l1.seq)
                    && spec_run_next_rel(&mid, final(self), now_ms),
            l1.pkt_type == L1DataType::Nak ==> !r && exists|mid1: SarController, mid2: SarController|
                (#[trigger] mid1.wf()) && (#[trigger] mid2.wf()) && (l1.seq > 0
                    ==> spec_ack_rel(old(self), &mid1, (l1.seq - 1) as u8)) && (l1.seq == 0
                    ==> mid1 == *old(self)) && spec_mark_rel(&mid1, &mid2, l1.seq)
                    && spec_run_next_rel(&mid2, final(self), now_ms),
            l1.pkt_type == L1DataType::Cmd ==> !r && spec_cmd_applied(
                old(self),
                final(self),
                l1.payload@,
            ),
            l1.pkt_type == L1DataType::Data ==> spec_data_handled(
                old(self),
                final(self),
                l1,
                r,
            ),
    {
        match l1.pkt_type {
            L1DataType::Ack => {
                self.ack_drain(l1.seq);
                let ghost mid = *self;
                self.try_run_next(now_ms);
                proof {
                    assert(mid.wf() && spec_ack_rel(old(self), &mid, l1.seq) && spec_run_next_rel(
                        &mid,
                        self,
                        now_ms,
                    ));
                }
                false
            },
            L1DataType::Nak => {
                if l1.seq > 0 {
                    self.ack_drain(l1.seq - 1);
                }
                let ghost mid1 = *self;
                self.mark_retx_from(l1.seq);
                let ghost mid2 = *self;
                self.try_run_next(now_ms);
                proof {
                    assert(mid1.wf() && mid2.wf() && spec_mark_rel(&mid1, &mid2, l1.seq)
                        && spec_run_next_rel(&mid2, self, now_ms));
                }
                false
            },
            L1DataType::Cmd => {
                match L1CmdPacket::from_payload_bytes(l1.payload.as_slice()) {
                    Some(cmd) => {
                        if cmd.cmd == CmdCode::CmdL1startRsp {
                            match cmd.get_tx_win() {
                                Some(win) => {
                                    let normalized: u8 = if win < 1 {
                                        1
                                    } else if win > 255 {
                                        255
                                    } else {
                                        win as u8
                                    };
                                    self.tx_win = normalized;
                                    self.tx_win_effective = Self::compute_soft_cap_with_allowance(
                                        normalized,
                                        self.config.tx_win_overrun_allowance,
                                    );
                                },
                                None => {},
                            }
                            match cmd.get_send_timeout() {
                                Some(to) => {
                                    self.send_timeout = to as u64;
                                },
                                None => {},
                            }
                        }
                    },
                    None => {},
                }
                false
            },
            L1DataType::Data => {
                let channel: Option<L2Channel> = if l1.payload.len() >= 1 {
                    match L2Channel::try_from(l1.payload[0]) {
                        Ok(c) => Some(c),
                        Err(_) => None,
                    }
                } else {
                    None
                };
                let is_network = match channel {
                    Some(L2Channel::Network) => true,
                    _ => false,
                };
                if is_network {
                    // Frames on the network channel carry no per-frame
                    // sequencing.
                    return true;
                }
                if l1.frx {
                    // Fast receive: no acknowledgement is expected.
                    self.rx_expect_seq = self.rx_expect_seq.wrapping_add(1);
                    return true;
                }
                if l1.seq != self.rx_expect_seq {
                    let nak = L1Packet::new(L1DataType::Nak, false, self.rx_expect_seq, Vec::new());
                    self.outbox.push(nak);
                    return false;
                }
                let eff = self.tx_window_size();
                let immediate = (self.rx_cum_ack_index as u32) >= (eff as u32) * 2 / 3 || (
                match channel {
                    Some(L2Channel::Pb) => true,
                    Some(L2Channel::Lyra) => true,
                    _ => false,
                });
                if immediate {
                    self.rx_cum_ack_armed = false;
                    self.rx_cum_ack_index = 0;
                    let ack = L1Packet::new(L1DataType::Ack, false, l1.seq, Vec::new());
                    self.outbox.push(ack);
                } else {
                    self.rx_cum_ack_index = if self.rx_cum_ack_index < 255 {
                        self.rx_cum_ack_index + 1
                    } else {
                        255
                    };
                    self.rx_cum_ack_seq = l1.seq;
                    self.rx_cum_ack_armed = true;
                }
                self.rx_expect_seq = self.rx_expect_seq.wrapping_add(1);
                true
            },
        }
    }

    /// Marks every in-flight frame whose deadline has passed, and runs the
    /// scheduler when any was marked.
    pub fn check_timeouts(&mut self, now_ms: u64)
        requires
            old(self).wf(),
        ensures
            final(self).wf(),
            exists|mid: SarController|
                (#[trigger] mid.wf()) && spec_timeout_mark_rel(old(self), &mid, now_ms) && {
                    let any = exists|j: int|
                        0 <= j < old(self).txq().len() && (#[trigger] old(self).txq()[j]).wait_ack
                            && now_ms >= old(self).txq()[j].deadline_ms;
                    if any {
                        spec_run_next_rel(&mid, final(self), now_ms)
                    } else {
                        *final(self) == mid
                    }
                },
    {
        let ghost pre = *self;
        let n = self.tx_queue.len();
        let mut i: usize = 0;
        let mut need = false;
        while i < n
            invariant
                self.wf(),
                i <= n,
                n == self.txq().len(),
                n == pre.txq().len(),
                forall|j: int| i <= j < n ==> self.txq()[j] == pre.txq()[j],
                forall|j: int|
                    0 <= j < i ==> {
                        let a = #[trigger] pre.txq()[j];
                        let b = #[trigger] self.txq()[j];
                        if a.wait_ack && now_ms >= a.deadline_ms {
                            b.packet == a.packet && !b.wait_ack && b.need_retransmission
                                && b.deadline_ms == a.deadline_ms
                        } else {
                            b == a
                        }
                    },
                need == exists|j: int|
                    0 <= j < i && (#[trigger] pre.txq()[j]).wait_ack && now_ms >= pre.txq()[
                        j
                    ].deadline_ms,
                self.acked_view() == pre.acked_view(),
                self.outbox_view() == pre.outbox_view(),
                same_pool(&pre, self),
                same_rx_state(&pre, self),
                same_negotiated(&pre, self),
                same_counters(&pre, self),
            decreases n - i,
        {
            let ghost cur = self.txq();
            proof {
                assert(self.txq()[i as int] == pre.txq()[i as int]);
            }
            if self.tx_queue[i].wait_ack && now_ms >= self.tx_queue[i].deadline_ms {
                let item = self.tx_queue.remove(i);
                let marked = SendItem {
                    packet: item.packet,
                    wait_ack: false,
                    need_retransmission: true,
                    deadline_ms: item.deadline_ms,
                };
                self.tx_queue.insert(i, marked);
                need = true;
                proof {
                    assert(self.txq() =~= cur.update(i as int, marked));
                }
            }
            i = i + 1;
        }
        let ghost mid = *self;
        if need {
            self.try_run_next(now_ms);
        }
        proof {
            assert(mid.wf() && spec_timeout_mark_rel(old(self), &mid, now_ms));
        }
    }

    /// Fires the cumulative-acknowledgement timer: where it is armed and
    /// frames await acknowledgement, exactly one ACK for the newest of
    /// them leaves, and the timer disarms. A second fire without a new
    /// arm, or a fire after cancellation, emits nothing.
    pub fn cum_ack_fire(&mut self) -> (fired: bool)
        requires
            old(self).wf(),
        ensures
            final(self).wf(),
            fired == (old(self).cum_armed() && old(self).cum_index() > 0),
            fired ==> {
                &&& final(self).outbox_view().len() == old(self).outbox_view().len() + 1
                &&& forall|j: int|
                    0 <= j < old(self).outbox_view().len() ==> final(self).outbox_view()[j] == old(
                        self,
                    ).outbox_view()[j]
                &&& is_ack_frame(final(self).outbox_view().last(), old(self).cum_seq())
                &&& final(self).cum_index() == 0
                &&& !final(self).cum_armed()
                &&& final(self).cum_seq() == old(self).cum_seq()
                &&& final(self).rx_expect() == old(self).rx_expect()
            },
            !fired ==> *final(self) == *old(self),
            final(self).txq() == old(self).txq(),
            final(self).acked_view() == old(self).acked_view(),
            same_pool(old(self), final(self)),
            same_negotiated(old(self), final(self)),
            same_counters(old(self), final(self)),
    {
        if self.rx_cum_ack_armed && self.rx_cum_ack_index > 0 {
            let seq = self.rx_cum_ack_seq;
            self.rx_cum_ack_index = 0;
            self.rx_cum_ack_armed = false;
            let ack = L1Packet::new(L1DataType::Ack, false, seq, Vec::new());
            self.outbox.push(ack);
            true
        } else {
            false
        }
    }

    /// Cancels the cumulative-acknowledgement timer: nothing is emitted,
    /// now or at a later fire without a new arm.
    pub fn stop_cum_ack_timer(&mut self)
        requires
            old(self).wf(),
        ensures
            final(self).wf(),
            !final(self).cum_armed(),
            final(self).cum_index() == 0,
            final(self).cum_seq() == old(self).cum_seq(),
            final(self).rx_expect() == old(self).rx_expect(),
            final(self).txq() == old(self).txq(),
            final(self).outbox_view() == old(self).outbox_view(),
            final(self).acked_view() == old(self).acked_view(),
            same_pool(old(self), final(self)),
            same_negotiated(old(self), final(self)),
            same_counters(old(self), final(self)),
    {
        self.rx_cum_ack_armed = false;
        self.rx_cum_ack_index = 0;
    }
}

/// The transition of applying an inbound CMD payload: a startup response
/// updates the window (clamped to 1..=255, with its soft cap) and the
/// send timeout from its TLV entries; anything else changes nothing.
pub open spec fn spec_cmd_applied(
    pre: &SarController,
    post: &SarController,
    payload: Seq<u8>,
) -> bool {
    let cfg = spec_tlv_parse_acc(payload.skip(1), Seq::<(u8, Seq<u8>)>::empty());
    let is_start_rsp = payload.len() >= 1 && spec_cmd_from(payload[0]) == CmdCode::CmdL1startRsp;
    let win_entry = spec_assoc_get(cfg, CONFIG_TYPE_TX_WIN);
    let to_entry = spec_assoc_get(cfg, CONFIG_TYPE_SEND_TIMEOUT);
    &&& (if is_start_rsp && (win_entry matches Some(v) && v.len() == 2) {
        let w = spec_u16_from_le(win_entry->Some_0);
        let normalized: u8 = if w < 1 {
            1
        } else if w > 255 {
            255
        } else {
            w as u8
        };
        post.win() == normalized && post.win_eff() == spec_soft_cap(normalized, pre.allowance())
    } else {
        post.win() == pre.win() && post.win_eff() == pre.win_eff()
    })
    &&& (if is_start_rsp && (to_entry matches Some(v) && v.len() == 2) {
        post.timeout_ms() == spec_u16_from_le(to_entry->Some_0) as u64
    } else {
        post.timeout_ms() == pre.timeout_ms()
    })
    &&& post.allowance() == pre.allowance()
    &&& post.txq() == pre.txq()
    &&& post.outbox_view() == pre.outbox_view()
    &&& post.acked_view() == pre.acked_view()
    &&& same_pool(pre, post)
    &&& same_rx_state(pre, post)
    &&& same_counters(pre, post)
}

/// The transition of handling an inbound DATA frame, and whether it is
/// delivered up: network-channel frames pass through untouched; fast
///-receive frames advance the expected sequence silently; an unexpected
/// sequence draws a NAK for the expected one and is dropped; an in-order
/// frame advances the expected sequence and is acknowledged at once when
/// the cumulative count reaches two thirds of the window or the channel
/// demands it, else the cumulative-acknowledgement timer is armed.
pub open spec fn spec_data_handled(
    pre: &SarController,
    post: &SarController,
    l1: &L1Packet,
    delivered: bool,
) -> bool {
    let ch: Option<L2Channel> = if l1.payload@.len() >= 1 {
        spec_channel_of_code(l1.payload@[0])
    } else {
        None
    };
    if ch == Some(L2Channel::Network) {
        delivered && *post == *pre
    } else if l1.frx {
        &&& delivered
        &&& post.rx_expect() == ((pre.rx_expect() + 1) % 256) as u8
        &&& post.cum_index() == pre.cum_index()
        &&& post.cum_seq() == pre.cum_seq()
        &&& post.cum_armed() == pre.cum_armed()
        &&& post.txq() == pre.txq()
        &&& post.outbox_view() == pre.outbox_view()
        &&& post.acked_view() == pre.acked_view()
        &&& same_pool(pre, post)
        &&& same_negotiated(pre, post)
        &&& same_counters(pre, post)
    } else if l1.seq != pre.rx_expect() {
        &&& !delivered
        &&& post.outbox_view().len() == pre.outbox_view().len() + 1
        &&& forall|j: int|
            0 <= j < pre.outbox_view().len() ==> post.outbox_view()[j] == pre.outbox_view()[j]
        &&& is_nak_frame(post.outbox_view().last(), pre.rx_expect())
        &&& post.rx_expect() == pre.rx_expect()
        &&& post.cum_index() == pre.cum_index()
        &&& post.cum_seq() == pre.cum_seq()
        &&& post.cum_armed() == pre.cum_armed()
        &&& post.txq() == pre.txq()
        &&& post.acked_view() == pre.acked_view()
        &&& same_pool(pre, post)
        &&& same_negotiated(pre, post)
        &&& same_counters(pre, post)
    } else {
        let immediate = (pre.cum_index() as int) >= (pre.eff() * 2) / 3 || ch == Some(
            L2Channel::Pb,
        ) || ch == Some(L2Channel::Lyra);
        &&& delivered
        &&& post.rx_expect() == ((pre.rx_expect() + 1) % 256) as u8
        &&& (if immediate {
            &&& post.outbox_view().len() == pre.outbox_view().len() + 1
            &&& forall|j: int|
                0 <= j < pre.outbox_view().len() ==> post.outbox_view()[j] == pre.outbox_view()[j]
            &&& is_ack_frame(post.outbox_view().last(), l1.seq)
            &&& post.cum_index() == 0
            &&& !post.cum_armed()
            &&& post.cum_seq() == pre.cum_seq()
        } else {
            &&& post.outbox_view() == pre.outbox_view()
            &&& post.cum_index() == (if pre.cum_index() < 255 {
                (pre.cum_index() + 1) as u8
            } else {
                255u8
            })
            &&& post.cum_seq() == l1.seq
            &&& post.cum_armed()
        })
        &&& post.txq() == pre.txq()
        &&& post.acked_view() == pre.acked_view()
        &&& same_pool(pre, post)
        &&& same_negotiated(pre, post)
        &&& same_counters(pre, post)
    }
}

/// The transition of the timeout sweep: every in-flight frame awaiting
/// acknowledgement whose deadline has passed is marked for retransmission
/// and stops waiting; nothing else changes.
pub open spec fn spec_timeout_mark_rel(
    pre: &SarController,
    post: &SarController,
    now_ms: u64,
) -> bool {
    &&& post.txq().len() == pre.txq().len()
    &&& forall|j: int|
        0 <= j < pre.txq().len() ==> {
            let a = #[trigger] pre.txq()[j];
            let b = #[trigger] post.txq()[j];
            if a.wait_ack && now_ms >= a.deadline_ms {
                b.packet == a.packet && !b.wait_ack && b.need_retransmission && b.deadline_ms
                    == a.deadline_ms
            } else {
                b == a
            }
        }
    &&& post.acked_view() == pre.acked_view()
    &&& post.outbox_view() == pre.outbox_view()
    &&& same_pool(pre, post)
    &&& same_rx_state(pre, post)
    &&& same_negotiated(pre, post)
    &&& same_counters(pre, post)
}

/// The windowing invariant: a scheduler step never grows the in-flight
/// queue past the effective window. A controller whose queue respects the
/// soft cap still respects it after any retransmission or fill step.
pub proof fn lemma_window_bound(pre: &SarController, post: &SarController, now_ms: u64)
    requires
        spec_run_next_rel(pre, post, now_ms),
        pre.txq().len() <= pre.eff(),
    ensures
        post.txq().len() <= post.eff(),
{
}

/// Retransmission priority: while any in-flight frame is marked for
/// retransmission, a scheduler step re-sends the oldest such frame and
/// draws nothing new from the data queue.
pub proof fn lemma_retransmit_priority(pre: &SarController, post: &SarController, now_ms: u64)
    requires
        spec_run_next_rel(pre, post, now_ms),
        spec_has_retx(pre.txq()),
    ensures
        post.command_pool.datas() == pre.command_pool.datas(),
        post.txq().len() == pre.txq().len(),
        post.outbox_view().len() == pre.outbox_view().len() + 1,
        same_packet(post.outbox_view().last(), pre.txq()[spec_first_retx(pre.txq())].packet),
{
}

/// Stop-and-wait: with an effective window of one and a frame already in
/// flight, a fill step sends nothing new; the next data frame leaves only
/// after the one in flight is acknowledged.
pub proof fn lemma_stop_and_wait(pre: &SarController, post: &SarController, now_ms: u64)
    requires
        spec_run_next_rel(pre, post, now_ms),
        !spec_has_retx(pre.txq()),
        pre.eff() == 1,
        pre.txq().len() >= 1,
    ensures
        post.txq() == pre.txq(),
        post.command_pool.datas() == pre.command_pool.datas(),
{
    assert(post.txq().len() == pre.txq().len());
    assert(post.txq() =~= pre.txq());
    assert(post.command_pool.datas() =~= pre.command_pool.datas());
}

/// A retransmission deadline, saturating at the largest representable
/// time.
fn deadline_for(now_ms: u64, timeout_ms: u64) -> (r: u64)
    ensures
        r == spec_deadline(now_ms, timeout_ms),
{
    if now_ms <= u64::MAX - timeout_ms {
        now_ms + timeout_ms
    } else {
        u64::MAX
    }
}

proof fn lemma_first_retx_at(q: Seq<SendItem>, i: int)
    requires
        0 <= i < q.len(),
        q[i].need_retransmission,
        forall|j: int| 0 <= j < i ==> !(#[trigger] q[j]).need_retransmission,
    ensures
        spec_first_retx(q) == i,
        spec_has_retx(q),
    decreases q.len(),
{
    if i > 0 {
        lemma_first_retx_at(q.skip(1), i - 1);
    }
}

proof fn lemma_fill_exit_full(pre_len: int, cur_len: int, eff: int, datas_len: int)
    requires
        cur_len >= eff,
        cur_len >= pre_len,
        pre_len <= cur_len <= pre_len + datas_len,
        cur_len <= pre_len || cur_len <= eff,
    ensures
        ({
            let cap: int = if pre_len < eff {
                eff - pre_len
            } else {
                0
            };
            let drawn: int = if datas_len <= cap {
                datas_len
            } else {
                cap
            };
            cur_len == pre_len + drawn || cur_len == pre_len
        }),
{
}

} // verus!
