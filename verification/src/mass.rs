//! The bulk-transfer engine: planning a transfer from the device's
//! declared slice capacity, cutting the inner encoding into numbered
//! fragments, pacing against the reliable layer's window, and keeping the
//! resume record that lets an interrupted transfer continue.

use vstd::prelude::*;

use crate::config::MassConfig;
use crate::endian::{push_u16_le, spec_u16_le};
use crate::mass_packet::{spec_mass_inner_with_crc, MassDataType, MassPacket};
use crate::sar::SarController;

verus! {

/// Where an interrupted transfer to a device stands: the payload digest,
/// the device, and the next part to confirm.
pub struct ResumeState {
    pub device_addr: String,
    pub mass_id: Vec<u8>,
    pub current_part: u16,
}

/// The per-device bulk-transfer record: whether a prepare response is
/// awaited, and the resume record, if any.
pub struct MassComponent {
    pub prepare_waiting: bool,
    pub resume_state: Option<ResumeState>,
}

impl MassComponent {
    /// A fresh record: no waiter, no resume state.
    pub fn new() -> (r: MassComponent)
        ensures
            !r.prepare_waiting,
            r.resume_state is None,
    {
        MassComponent { prepare_waiting: false, resume_state: None }
    }

    /// Arms the single prepare waiter.
    pub fn arm_prepare_waiter(&mut self)
        ensures
            final(self).prepare_waiting,
            final(self).resume_state == old(self).resume_state,
    {
        self.prepare_waiting = true;
    }

    /// Takes the prepare waiter on an inbound prepare response: true
    /// exactly when one was armed, which is then cleared.
    pub fn take_prepare_waiter(&mut self) -> (r: bool)
        ensures
            r == old(self).prepare_waiting,
            !final(self).prepare_waiting,
            final(self).resume_state == old(self).resume_state,
    {
        let was = self.prepare_waiting;
        self.prepare_waiting = false;
        was
    }

    /// Resolves where to start: at the recorded part when the resume
    /// record matches this device and digest, else at part one with a
    /// fresh record.
    pub fn resolve_start_part(&mut self, device_addr: &str, file_md5: &Vec<u8>) -> (r: u16)
        ensures
            ({
                let matches_record = old(self).resume_state matches Some(s)
                    && s.device_addr@ == device_addr@ && s.mass_id@ == file_md5@;
                if matches_record {
                    &&& r == old(self).resume_state->Some_0.current_part
                    &&& final(self).resume_state == old(self).resume_state
                } else {
                    &&& r == 1
                    &&& final(self).resume_state matches Some(s2) && s2.device_addr@
                        == device_addr@ && s2.mass_id@ == file_md5@ && s2.current_part == 1
                }
            }),
            final(self).prepare_waiting == old(self).prepare_waiting,
    {
        let matched: bool = match &self.resume_state {
            Some(s) => {
                crate::hexutil::str_eq(s.device_addr.as_str(), device_addr) && bytes_eq(
                    s.mass_id.as_slice(),
                    file_md5.as_slice(),
                )
            },
            None => false,
        };
        if matched {
            match &self.resume_state {
                Some(s) => s.current_part,
                None => 1,
            }
        } else {
            self.resume_state = Some(
                ResumeState {
                    device_addr: device_addr.to_owned(),
                    mass_id: vstd::slice::slice_to_vec(file_md5.as_slice()),
                    current_part: 1,
                },
            );
            1
        }
    }
}

/// Builds the prepare request that opens a transfer: the payload kind's
/// tag, the 16-byte digest naming the payload, and its total length.
pub fn build_mass_prepare_request(
    data_type: MassDataType,
    file_md5: &Vec<u8>,
    file_length: u32,
) -> (r: crate::messages::WearMessage)
    ensures
        r.msg_type == crate::messages::WearType::Mass,
        r.id == crate::messages::WearOp::MassPrepare,
        r.payload matches crate::messages::WearPayload::PrepareRequest {
            data_type: t,
            data_id,
            data_length,
        } && t == crate::mass_packet::spec_mass_type_code(data_type) && data_id@ == file_md5@
            && data_length == file_length,
{
    crate::messages::WearMessage {
        msg_type: crate::messages::WearType::Mass,
        id: crate::messages::WearOp::MassPrepare,
        payload: crate::messages::WearPayload::PrepareRequest {
            data_type: data_type.code(),
            data_id: vstd::slice::slice_to_vec(file_md5.as_slice()),
            data_length: file_length,
        },
    }
}

/// Whether two byte strings hold the same bytes.
pub fn bytes_eq(a: &[u8], b: &[u8]) -> (r: bool)
    ensures
        r == (a@ == b@),
{
    if a.len() != b.len() {
        proof {
            assert(a@.len() != b@.len());
        }
        return false;
    }
    let mut i: usize = 0;
    while i < a.len()
        invariant
            a@.len() == b@.len(),
            i <= a@.len(),
            forall|j: int| 0 <= j < i ==> a@[j] == b@[j],
        decreases a@.len() - i,
    {
        if a[i] != b[i] {
            return false;
        }
        i = i + 1;
    }
    proof {
        assert(a@ =~= b@);
    }
    true
}

/// One fragment handed to the reliable layer and not yet confirmed.
pub struct PendingMassPart {
    pub part_num: u16,
    pub seq: u8,
    pub payload_len: usize,
    pub acked: bool,
}

/// A confirmed fragment, reported upward for progress accounting.
pub struct MassProgressEvent {
    pub total_parts: u16,
    pub current_part_num: u16,
    pub actual_data_payload_len: usize,
}

/// Why a bulk transfer cannot proceed.
#[derive(Debug, Clone, Copy, PartialEq, Eq, Structural)]
pub enum MassError {
    /// The device's prepare status was not ready.
    PrepareNotReady,
    /// The device declared a slice capacity of zero.
    ZeroSliceLength,
    /// The declared capacity leaves no room after the six header bytes.
    FragmentSpaceTooSmall,
    /// The payload needs more fragments than the part counter can name.
    PayloadTooLarge,
    /// An acknowledgement did not arrive within the allowed time.
    AckWaitTimeout,
    /// The final install result never arrived.
    ResultMissing,
}

/// The number of fragments for an inner encoding of `len` bytes at
/// `frag` bytes per fragment, rounding up.
pub open spec fn spec_total_parts(len: int, frag: int) -> int
    recommends
        frag > 0,
        len > 0,
{
    (len - 1) / frag + 1
}

/// A transfer cut into fragments: the kind, digest, inner encoding,
/// per-fragment capacity, and total part count.
pub struct MassTransferPlan {
    pub data_type: MassDataType,
    pub file_md5: Vec<u8>,
    pub inner: Vec<u8>,
    pub fragment_max_len: usize,
    pub total_parts: u16,
}

impl MassTransferPlan {
    /// The part count and capacity fit the inner encoding.
    pub open spec fn wf(&self) -> bool {
        &&& self.fragment_max_len > 0
        &&& self.inner@.len() > 0
        &&& self.total_parts as int == spec_total_parts(
            self.inner@.len() as int,
            self.fragment_max_len as int,
        )
        &&& self.inner@.len() <= self.total_parts as int * self.fragment_max_len as int
    }
}

/// Plans a transfer against the device's declared slice capacity. The
/// capacity must exceed the six bytes of channel, opcode and part
/// numbering; the inner encoding is the CRC-tailed form of the file; and
/// an empty file still takes exactly one fragment whenever the capacity
/// holds the 26-byte CRC-tailed header.
pub fn plan_transfer(
    file_data: Vec<u8>,
    data_type: MassDataType,
    expected_slice_length: usize,
) -> (r: Result<MassTransferPlan, MassError>)
    requires
        file_data@.len() <= u32::MAX,
    ensures
        expected_slice_length == 0 ==> r == Result::<MassTransferPlan, MassError>::Err(
            MassError::ZeroSliceLength,
        ),
        1 <= expected_slice_length <= 6 ==> r == Result::<MassTransferPlan, MassError>::Err(
            MassError::FragmentSpaceTooSmall,
        ),
        r matches Ok(p) ==> {
            &&& p.wf()
            &&& p.data_type == data_type
            &&& p.fragment_max_len == expected_slice_length - 6
            &&& p.inner@ == spec_mass_inner_with_crc(data_type, file_data@)
            &&& p.inner@.len() == file_data@.len() + 26
            &&& p.total_parts as int == spec_total_parts(
                file_data@.len() as int + 26,
                expected_slice_length - 6,
            )
        },
        expected_slice_length > 6 && spec_total_parts(
            file_data@.len() as int + 26,
            expected_slice_length - 6,
        ) <= u16::MAX ==> r is Ok,
        file_data@.len() == 0 && expected_slice_length >= 32 ==> (r matches Ok(p)
            && p.total_parts == 1),
{
    let ghost file_view = file_data@;
    if expected_slice_length == 0 {
        return Err(MassError::ZeroSliceLength);
    }
    if expected_slice_length <= 6 {
        return Err(MassError::FragmentSpaceTooSmall);
    }
    let fragment_max_len = expected_slice_length - 6;
    let packet = MassPacket::build(file_data, data_type);
    let inner = packet.encode_with_crc32();
    let total = (inner.len() - 1) / fragment_max_len + 1;
    if total > u16::MAX as usize {
        return Err(MassError::PayloadTooLarge);
    }
    let plan = MassTransferPlan {
        data_type: packet.data_type,
        file_md5: packet.md5,
        inner,
        fragment_max_len,
        total_parts: total as u16,
    };
    proof {
        assert(plan.inner@.len() <= plan.total_parts as int * plan.fragment_max_len as int) by {
            let l = plan.inner@.len() as int;
            let f = plan.fragment_max_len as int;
            let t = (l - 1) / f + 1;
            assert(t * f >= l) by (nonlinear_arith)
                requires
                    f > 0,
                    l > 0,
                    t == (l - 1) / f + 1,
            ;
        }
        if file_view.len() == 0 && expected_slice_length >= 32 {
            let f = plan.fragment_max_len as int;
            assert(plan.inner@.len() == 26);
            assert(f >= 26);
            assert(25int / f == 0) by (nonlinear_arith)
                requires
                    f >= 26,
            ;
        }
    }
    Ok(plan)
}

/// Cuts one numbered fragment: the total part count and this part's
/// number, little-endian, then this part's slice of the inner encoding.
pub fn build_fragment(plan: &MassTransferPlan, part_num: u16) -> (r: Vec<u8>)
    requires
        plan.wf(),
        1 <= part_num <= plan.total_parts,
    ensures
        r@ == spec_u16_le(plan.total_parts) + spec_u16_le(part_num) + plan.inner@.subrange(
            (part_num - 1) as int * plan.fragment_max_len as int,
            if part_num as int * plan.fragment_max_len as int <= plan.inner@.len() {
                part_num as int * plan.fragment_max_len as int
            } else {
                plan.inner@.len() as int
            },
        ),
        r@.len() <= 4 + plan.fragment_max_len,
{
    proof {
        let l = plan.inner@.len() as int;
        let f = plan.fragment_max_len as int;
        let t = plan.total_parts as int;
        let p = part_num as int;
        assert((p - 1) * f < l) by (nonlinear_arith)
            requires
                f > 0,
                l > 0,
                p >= 1,
                p <= t,
                t == (l - 1) / f + 1,
        ;
    }
    let inner_len = plan.inner.len();
    let start = (part_num as usize - 1) * plan.fragment_max_len;
    proof {
        let f = plan.fragment_max_len as int;
        let p = part_num as int;
        assert((p - 1) * f + f == p * f) by (nonlinear_arith);
    }
    let end = if inner_len - start <= plan.fragment_max_len {
        inner_len
    } else {
        start + plan.fragment_max_len
    };
    let mut out: Vec<u8> = Vec::new();
    push_u16_le(&mut out, plan.total_parts);
    push_u16_le(&mut out, part_num);
    let mut i: usize = start;
    while i < end
        invariant
            start <= i <= end,
            end <= plan.inner@.len(),
            out@ == spec_u16_le(plan.total_parts) + spec_u16_le(part_num) + plan.inner@.subrange(
                start as int,
                i as int,
            ),
            end - start <= plan.fragment_max_len,
        decreases end - i,
    {
        out.push(plan.inner[i]);
        proof {
            assert(out@ =~= spec_u16_le(plan.total_parts) + spec_u16_le(part_num)
                + plan.inner@.subrange(start as int, i + 1 as int));
        }
        i = i + 1;
    }
    out
}

/// The batch size: the window hint, at least one, capped at the
/// configured maximum; without a hint, the configured fallback.
pub fn compute_batch_limit(config: &MassConfig, window_hint: Option<u8>) -> (r: usize)
    ensures
        r == ({
            let base: int = match window_hint {
                Some(win) => {
                    let w: int = if win >= 1 {
                        win as int
                    } else {
                        1
                    };
                    if w <= config.max_batch_parts as int {
                        w
                    } else {
                        config.max_batch_parts as int
                    }
                },
                None => config.fallback_batch_parts as int,
            };
            if base >= 1 {
                base
            } else {
                1
            }
        }),
{
    let base: usize = match window_hint {
        Some(win) => {
            let w: usize = if win >= 1 {
                win as usize
            } else {
                1
            };
            if w <= config.max_batch_parts {
                w
            } else {
                config.max_batch_parts
            }
        },
        None => config.fallback_batch_parts,
    };
    if base >= 1 {
        base
    } else {
        1
    }
}

/// The backlog soft limit: the window times the configured multiplier —
/// without a hint, the configured fallback — clamped between the
/// multiplier and 256.
pub fn compute_backlog_soft_limit(config: &MassConfig, window_hint: Option<u8>) -> (r: usize)
    ensures
        r == ({
            let limit: int = match window_hint {
                Some(win) => {
                    let w: int = if win >= 1 {
                        win as int
                    } else {
                        1
                    };
                    w * config.backlog_multiplier as int
                },
                None => config.fallback_backlog_limit as int,
            };
            let lo = config.backlog_multiplier as int;
            let hi = 256int;
            if limit < lo {
                lo
            } else if limit > hi {
                hi
            } else {
                limit
            }
        }),
{
    let limit: u128 = match window_hint {
        Some(win) => {
            let w: u128 = if win >= 1 {
                win as u128
            } else {
                1
            };
            proof {
                assert(w * (config.backlog_multiplier as u128) <= 255 * (
                config.backlog_multiplier as int)) by (nonlinear_arith)
                    requires
                        1 <= w <= 255,
                ;
            }
            w * (config.backlog_multiplier as u128)
        },
        None => config.fallback_backlog_limit as u128,
    };
    let lo = config.backlog_multiplier as u128;
    let r128: u128 = if limit < lo {
        lo
    } else if limit > 256 {
        256
    } else {
        limit
    };
    r128 as usize
}

/// The stall deadline, in milliseconds: from the window, three polling
/// intervals per window slot; combined with an eighth of the send
/// timeout where one is known; clamped to the configured range.
pub fn compute_ack_stall_deadline(
    config: &MassConfig,
    window_hint: Option<u8>,
    send_timeout_ms: Option<u64>,
) -> (r: u64)
    requires
        config.ack_poll_interval_ms <= 1000000,
        config.ack_stall_min_ms <= config.ack_stall_max_ms,
    ensures
        r == ({
            let from_window: int = match window_hint {
                Some(win) => {
                    let w: int = if win >= 1 {
                        win as int
                    } else {
                        1
                    };
                    w * config.ack_poll_interval_ms as int * 3
                },
                None => config.ack_stall_default_ms as int,
            };
            let timeout_candidate: int = match send_timeout_ms {
                Some(ms) => if 0 < ms < u64::MAX {
                    let eighth = ms as int / 8;
                    if eighth >= config.ack_stall_min_ms as int {
                        eighth
                    } else {
                        config.ack_stall_min_ms as int
                    }
                } else {
                    from_window
                },
                None => from_window,
            };
            let combined: int = if from_window <= timeout_candidate {
                from_window
            } else {
                timeout_candidate
            };
            if combined < config.ack_stall_min_ms as int {
                config.ack_stall_min_ms as int
            } else if combined > config.ack_stall_max_ms as int {
                config.ack_stall_max_ms as int
            } else {
                combined
            }
        }),
{
    let from_window: u64 = match window_hint {
        Some(win) => {
            let w: u64 = if win >= 1 {
                win as u64
            } else {
                1
            };
            proof {
                assert(w * config.ack_poll_interval_ms <= 255 * 1000000) by (nonlinear_arith)
                    requires
                        1 <= w <= 255,
                        config.ack_poll_interval_ms <= 1000000,
                ;
            }
            w * config.ack_poll_interval_ms * 3
        },
        None => config.ack_stall_default_ms,
    };
    let timeout_candidate: u64 = match send_timeout_ms {
        Some(ms) => if 0 < ms && ms < u64::MAX {
            let eighth = ms / 8;
            if eighth >= config.ack_stall_min_ms {
                eighth
            } else {
                config.ack_stall_min_ms
            }
        } else {
            from_window
        },
        None => from_window,
    };
    let combined = if from_window <= timeout_candidate {
        from_window
    } else {
        timeout_candidate
    };
    if combined < config.ack_stall_min_ms {
        config.ack_stall_min_ms
    } else if combined > config.ack_stall_max_ms {
        config.ack_stall_max_ms
    } else {
        combined
    }
}

/// Whether the sender must block on the head acknowledgement: the backlog
/// passed its soft limit, or no progress was made within the stall
/// deadline.
pub fn should_block_for_ack(
    pending_len: usize,
    backlog_soft_limit: usize,
    now_ms: u64,
    last_progress_at_ms: u64,
    ack_stall_deadline_ms: u64,
) -> (r: bool)
    ensures
        r == (pending_len >= backlog_soft_limit || (now_ms >= last_progress_at_ms && now_ms
            - last_progress_at_ms >= ack_stall_deadline_ms)),
{
    if pending_len >= backlog_soft_limit {
        return true;
    }
    now_ms >= last_progress_at_ms && now_ms - last_progress_at_ms >= ack_stall_deadline_ms
}

/// Records one flushed batch: each part, with the sequence number the
/// reliable layer assigned it, joins the pending queue unconfirmed.
pub fn record_batch(
    pending: &mut Vec<PendingMassPart>,
    meta: &Vec<(u16, usize)>,
    seqs: &Vec<u8>,
) -> (r: bool)
    ensures
        r == (meta@.len() == seqs@.len()),
        r ==> final(pending)@.len() == old(pending)@.len() + meta@.len() && (forall|j: int|
            0 <= j < old(pending)@.len() ==> final(pending)@[j] == old(pending)@[j]) && (forall|j: int|
            0 <= j < meta@.len() ==> {
                let it = #[trigger] final(pending)@[old(pending)@.len() + j];
                it.part_num == meta@[j].0 && it.payload_len == meta@[j].1 && it.seq == seqs@[j]
                    && !it.acked
            }),
        !r ==> final(pending)@ == old(pending)@,
{
    if meta.len() != seqs.len() {
        return false;
    }
    let n = meta.len();
    let mut j: usize = 0;
    while j < n
        invariant
            n == meta@.len(),
            n == seqs@.len(),
            j <= n,
            pending@.len() == old(pending)@.len() + j,
            forall|k: int| 0 <= k < old(pending)@.len() ==> pending@[k] == old(pending)@[k],
            forall|k: int|
                0 <= k < j ==> {
                    let it = #[trigger] pending@[old(pending)@.len() + k];
                    it.part_num == meta@[k].0 && it.payload_len == meta@[k].1 && it.seq == seqs@[k]
                        && !it.acked
                },
        decreases n - j,
    {
        pending.push(
            PendingMassPart {
                part_num: meta[j].0,
                seq: seqs[j],
                payload_len: meta[j].1,
                acked: false,
            },
        );
        j = j + 1;
    }
    true
}

/// Consumes every already-acknowledged fragment at the head of the
/// pending queue: each is popped, reported as progress, recorded in the
/// resume state — cleared once the final part is past — and its
/// acknowledgement is marked consumed in the reliable layer. Confirming
/// the last part leaves no resume record behind.
/// The resume record as plain values: device characters, digest bytes,
/// next part.
pub open spec fn spec_resume_view(r: Option<ResumeState>) -> Option<(Seq<char>, Seq<u8>, u16)> {
    match r {
        Some(s) => Some((s.device_addr@, s.mass_id@, s.current_part)),
        None => None,
    }
}

/// How one confirmed part moves the resume record: confirming the final
/// part — or any later one — clears it; an earlier part advances an
/// existing record to the part after it; an absent record stays absent.
pub open spec fn spec_resume_step(
    r: Option<(Seq<char>, Seq<u8>, u16)>,
    part: u16,
    total_parts: u16,
) -> Option<(Seq<char>, Seq<u8>, u16)> {
    if part >= total_parts {
        None
    } else {
        match r {
            Some(s) => Some((s.0, s.1, (part + 1) as u16)),
            None => None,
        }
    }
}

/// The resume record after a run of confirmed parts, in order.
pub open spec fn spec_resume_fold(
    r: Option<(Seq<char>, Seq<u8>, u16)>,
    parts: Seq<u16>,
    total_parts: u16,
) -> Option<(Seq<char>, Seq<u8>, u16)>
    decreases parts.len(),
{
    if parts.len() == 0 {
        r
    } else {
        spec_resume_fold(spec_resume_step(r, parts[0], total_parts), parts.skip(1), total_parts)
    }
}

proof fn lemma_resume_fold_snoc(
    r: Option<(Seq<char>, Seq<u8>, u16)>,
    parts: Seq<u16>,
    part: u16,
    total_parts: u16,
)
    ensures
        spec_resume_fold(r, parts.push(part), total_parts) == spec_resume_step(
            spec_resume_fold(r, parts, total_parts),
            part,
            total_parts,
        ),
    decreases parts.len(),
{
    if parts.len() == 0 {
        assert(parts.push(part)[0] == part);
        assert(parts.push(part).skip(1) =~= Seq::<u16>::empty());
        assert(spec_resume_fold(spec_resume_step(r, part, total_parts), parts.push(part).skip(1),
            total_parts) == spec_resume_step(r, part, total_parts));
    } else {
        assert(parts.push(part)[0] == parts[0]);
        assert(parts.push(part).skip(1) =~= parts.skip(1).push(part));
        lemma_resume_fold_snoc(spec_resume_step(r, parts[0], total_parts), parts.skip(1), part,
            total_parts);
    }
}

/// The confirmed part numbers of a run of progress events, in order.
pub open spec fn spec_event_parts(events: Seq<MassProgressEvent>) -> Seq<u16> {
    events.map_values(|e: MassProgressEvent| e.current_part_num)
}

/// Consumes every already-acknowledged fragment at the head of the
/// pending queue: each is popped in order, reported as progress, its
/// acknowledgement released in the reliable layer, and the resume record
/// stepped — advanced to the part after a confirmed non-final part,
/// cleared at the final one. Consumption stops only at an unconfirmed
/// head: every popped entry was confirmed, and whatever head remains is
/// not.
pub fn consume_acked_parts(
    mass: &mut MassComponent,
    sar: &mut SarController,
    pending: &mut Vec<PendingMassPart>,
    total_parts: u16,
) -> (events: Vec<MassProgressEvent>)
    requires
        old(sar).wf(),
    ensures
        final(sar).wf(),
        events@.len() <= old(pending)@.len(),
        final(pending)@ == old(pending)@.skip(events@.len() as int),
        forall|k: int|
            0 <= k < events@.len() ==> {
                let e = #[trigger] events@[k];
                e.total_parts == total_parts && e.current_part_num == old(pending)@[k].part_num
                    && e.actual_data_payload_len == old(pending)@[k].payload_len
            },
        forall|k: int|
            0 <= k < events@.len() ==> ((#[trigger] old(pending)@[k]).acked || old(
                sar,
            ).acked_view()[old(pending)@[k].seq as int]),
        final(pending)@.len() > 0 ==> !final(pending)@[0].acked
            && !final(sar).acked_view()[final(pending)@[0].seq as int],
        forall|s: int|
            0 <= s < 256 ==> #[trigger] final(sar).acked_view()[s] == (old(sar).acked_view()[s]
                && !(exists|k: int|
                0 <= k < events@.len() && !(#[trigger] old(pending)@[k]).acked && old(pending)@[
                    k
                ].seq == s)),
        final(sar).txq() == old(sar).txq(),
        final(sar).outbox_view() == old(sar).outbox_view(),
        crate::sar::same_pool(old(sar), final(sar)),
        crate::sar::same_rx_state(old(sar), final(sar)),
        crate::sar::same_negotiated(old(sar), final(sar)),
        crate::sar::same_counters(old(sar), final(sar)),
        spec_resume_view(final(mass).resume_state) == spec_resume_fold(
            spec_resume_view(old(mass).resume_state),
            spec_event_parts(events@),
            total_parts,
        ),
        events@.len() == 0 ==> *final(mass) == *old(mass),
        final(mass).prepare_waiting == old(mass).prepare_waiting,
{
    let mut events: Vec<MassProgressEvent> = Vec::new();
    proof {
        assert(spec_event_parts(events@) =~= Seq::<u16>::empty());
    }
    loop
        invariant
            sar.wf(),
            events@.len() <= old(pending)@.len(),
            pending@ == old(pending)@.skip(events@.len() as int),
            forall|k: int|
                0 <= k < events@.len() ==> {
                    let e = #[trigger] events@[k];
                    e.total_parts == total_parts && e.current_part_num == old(pending)@[k].part_num
                        && e.actual_data_payload_len == old(pending)@[k].payload_len
                },
            forall|k: int|
                0 <= k < events@.len() ==> ((#[trigger] old(pending)@[k]).acked || old(
                    sar,
                ).acked_view()[old(pending)@[k].seq as int]),
            forall|s: int|
                0 <= s < 256 ==> #[trigger] sar.acked_view()[s] == (old(sar).acked_view()[s]
                    && !(exists|k: int|
                    0 <= k < events@.len() && !(#[trigger] old(pending)@[k]).acked && old(
                        pending,
                    )@[k].seq == s)),
            sar.txq() == old(sar).txq(),
            sar.outbox_view() == old(sar).outbox_view(),
            crate::sar::same_pool(old(sar), sar),
            crate::sar::same_rx_state(old(sar), sar),
            crate::sar::same_negotiated(old(sar), sar),
            crate::sar::same_counters(old(sar), sar),
            spec_resume_view(mass.resume_state) == spec_resume_fold(
                spec_resume_view(old(mass).resume_state),
                spec_event_parts(events@),
                total_parts,
            ),
            events@.len() == 0 ==> *mass == *old(mass),
            mass.prepare_waiting == old(mass).prepare_waiting,
        ensures
            sar.wf(),
            events@.len() <= old(pending)@.len(),
            pending@ == old(pending)@.skip(events@.len() as int),
            forall|k: int|
                0 <= k < events@.len() ==> {
                    let e = #[trigger] events@[k];
                    e.total_parts == total_parts && e.current_part_num == old(pending)@[k].part_num
                        && e.actual_data_payload_len == old(pending)@[k].payload_len
                },
            forall|k: int|
                0 <= k < events@.len() ==> ((#[trigger] old(pending)@[k]).acked || old(
                    sar,
                ).acked_view()[old(pending)@[k].seq as int]),
            pending@.len() > 0 ==> !pending@[0].acked && !sar.acked_view()[pending@[0].seq as int],
            forall|s: int|
                0 <= s < 256 ==> #[trigger] sar.acked_view()[s] == (old(sar).acked_view()[s]
                    && !(exists|k: int|
                    0 <= k < events@.len() && !(#[trigger] old(pending)@[k]).acked && old(
                        pending,
                    )@[k].seq == s)),
            sar.txq() == old(sar).txq(),
            sar.outbox_view() == old(sar).outbox_view(),
            crate::sar::same_pool(old(sar), sar),
            crate::sar::same_rx_state(old(sar), sar),
            crate::sar::same_negotiated(old(sar), sar),
            crate::sar::same_counters(old(sar), sar),
            spec_resume_view(mass.resume_state) == spec_resume_fold(
                spec_resume_view(old(mass).resume_state),
                spec_event_parts(events@),
                total_parts,
            ),
            events@.len() == 0 ==> *mass == *old(mass),
            mass.prepare_waiting == old(mass).prepare_waiting,
        decreases pending@.len(),
    {
        if pending.len() == 0 {
            break;
        }
        let front_acked = pending[0].acked;
        let front_seq = pending[0].seq;
        let front_part = pending[0].part_num;
        let front_len = pending[0].payload_len;
        proof {
            assert(pending@[0] == old(pending)@[events@.len() as int]);
        }
        if !front_acked {
            if !sar.is_acked(front_seq) {
                break;
            }
            sar.mark_ack_consumed(front_seq);
        }
        let ghost pre_resume = spec_resume_view(mass.resume_state);
        if front_part >= total_parts {
            mass.resume_state = None;
        } else {
            let mut taken: Option<ResumeState> = None;
            core::mem::swap(&mut taken, &mut mass.resume_state);
            match taken {
                Some(st) => {
                    mass.resume_state = Some(
                        ResumeState {
                            device_addr: st.device_addr,
                            mass_id: st.mass_id,
                            current_part: front_part + 1,
                        },
                    );
                },
                None => {},
            }
        }
        proof {
            assert(spec_resume_view(mass.resume_state) == spec_resume_step(
                pre_resume,
                front_part,
                total_parts,
            ));
        }
        let _ = pending.remove(0);
        proof {
            assert(pending@ =~= old(pending)@.skip(events@.len() + 1 as int));
        }
        let ghost pre_parts = spec_event_parts(events@);
        events.push(
            MassProgressEvent {
                total_parts,
                current_part_num: front_part,
                actual_data_payload_len: front_len,
            },
        );
        proof {
            assert(spec_event_parts(events@) =~= pre_parts.push(front_part));
            lemma_resume_fold_snoc(
                spec_resume_view(old(mass).resume_state),
                pre_parts,
                front_part,
                total_parts,
            );
        }
    }
    events
}

/// A confirmed non-final part advances an existing resume record to the
/// part after it, and the final part clears it: what the fold of the
/// consumed run says of the last confirmed part.
pub proof fn lemma_resume_advances(
    initial: Option<(Seq<char>, Seq<u8>, u16)>,
    parts: Seq<u16>,
    total_parts: u16,
)
    requires
        parts.len() > 0,
    ensures
        parts.last() >= total_parts ==> spec_resume_fold(initial, parts, total_parts) is None,
        parts.last() < total_parts && spec_resume_fold(initial, parts, total_parts) is Some
            ==> spec_resume_fold(initial, parts, total_parts)->Some_0.2 == parts.last() + 1,
    decreases parts.len(),
{
    lemma_resume_fold_snoc(initial, parts.drop_last(), parts.last(), total_parts);
    assert(parts.drop_last().push(parts.last()) =~= parts);
}

} // verus!
