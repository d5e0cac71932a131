//! The bulk-transfer payload codecs: the outbound inner encoding with its
//! trailing CRC-32, and the inbound reassembly of a fragmented file sent
//! by the peer.

use vstd::prelude::*;

use crate::crypto::{calc_crc32, calc_md5, crc32_of, md5_of};
use crate::endian::{push_u32_le, read_u16_le, spec_u16_from_le, spec_u32_le};

verus! {

/// The kind of payload a bulk transfer carries, as its wire tag.
#[derive(Debug, Clone, Copy, PartialEq, Eq, Structural)]
pub enum MassDataType {
    Watchface,
    Firmware,
    NotificationIcon,
    ThirdPartyApp,
}

/// The wire tag of a payload kind.
pub open spec fn spec_mass_type_code(t: MassDataType) -> u8 {
    match t {
        MassDataType::Watchface => 16,
        MassDataType::Firmware => 32,
        MassDataType::NotificationIcon => 50,
        MassDataType::ThirdPartyApp => 64,
    }
}

/// The payload kind named by a wire tag, if any.
pub open spec fn spec_mass_type_of_code(v: u8) -> Option<MassDataType> {
    if v == 16 {
        Some(MassDataType::Watchface)
    } else if v == 32 {
        Some(MassDataType::Firmware)
    } else if v == 50 {
        Some(MassDataType::NotificationIcon)
    } else if v == 64 {
        Some(MassDataType::ThirdPartyApp)
    } else {
        None
    }
}

impl MassDataType {
    /// The wire tag of this payload kind.
    pub fn code(&self) -> (v: u8)
        ensures
            v == spec_mass_type_code(*self),
    {
        match *self {
            MassDataType::Watchface => 16,
            MassDataType::Firmware => 32,
            MassDataType::NotificationIcon => 50,
            MassDataType::ThirdPartyApp => 64,
        }
    }

    /// The payload kind named by a wire tag; fails exactly where none is.
    pub fn try_from(value: u8) -> (r: Option<MassDataType>)
        ensures
            r == spec_mass_type_of_code(value),
    {
        if value == 16 {
            Some(MassDataType::Watchface)
        } else if value == 32 {
            Some(MassDataType::Firmware)
        } else if value == 50 {
            Some(MassDataType::NotificationIcon)
        } else if value == 64 {
            Some(MassDataType::ThirdPartyApp)
        } else {
            None
        }
    }
}

/// The inner header and body before the checksum: a zero compression
/// byte, the kind tag, the 16-byte MD5, the four-byte little-endian
/// length, then the file bytes.
pub open spec fn spec_mass_inner_body(t: MassDataType, file: Seq<u8>) -> Seq<u8> {
    seq![0u8, spec_mass_type_code(t)] + md5_of(file) + spec_u32_le(file.len() as u32) + file
}

/// The full inner encoding: the body followed by the four little-endian
/// bytes of its CRC-32.
pub open spec fn spec_mass_inner_with_crc(t: MassDataType, file: Seq<u8>) -> Seq<u8> {
    spec_mass_inner_body(t, file) + spec_u32_le(crc32_of(spec_mass_inner_body(t, file)))
}

/// A bulk-transfer payload ready for fragmentation: its kind, digest,
/// declared length and file bytes.
#[derive(Clone)]
pub struct MassPacket {
    pub data_type: MassDataType,
    pub md5: Vec<u8>,
    pub length: u32,
    pub original_file_data: Vec<u8>,
}

impl MassPacket {
    /// Digest and declared length match the file bytes.
    pub open spec fn wf(&self) -> bool {
        &&& self.md5@ == md5_of(self.original_file_data@)
        &&& self.md5@.len() == 16
        &&& self.length == self.original_file_data@.len()
    }

    /// Wraps file bytes for transfer, computing the MD5 and length.
    pub fn build(original_file_data: Vec<u8>, data_type: MassDataType) -> (r: MassPacket)
        requires
            original_file_data@.len() <= u32::MAX,
        ensures
            r.wf(),
            r.data_type == data_type,
            r.original_file_data@ == original_file_data@,
    {
        let md5 = calc_md5(original_file_data.as_slice());
        let length = original_file_data.len() as u32;
        MassPacket { data_type, md5, length, original_file_data }
    }

    /// The inner encoding: header, file bytes, then the CRC-32 of
    /// everything before it, little-endian. The last four bytes are
    /// always that checksum.
    pub fn encode_with_crc32(&self) -> (r: Vec<u8>)
        requires
            self.wf(),
        ensures
            r@ == spec_mass_inner_with_crc(self.data_type, self.original_file_data@),
            r@.len() == self.original_file_data@.len() + 26,
            r@.skip(r@.len() - 4) == spec_u32_le(
                crc32_of(r@.take(r@.len() - 4)),
            ),
    {
        let mut body: Vec<u8> = Vec::new();
        body.push(0x00);
        body.push(self.data_type.code());
        let mut i: usize = 0;
        while i < self.md5.len()
            invariant
                i <= self.md5@.len(),
                body@ == seq![0u8, spec_mass_type_code(self.data_type)] + self.md5@.take(i as int),
            decreases self.md5@.len() - i,
        {
            body.push(self.md5[i]);
            proof {
                assert(body@ =~= seq![0u8, spec_mass_type_code(self.data_type)] + self.md5@.take(
                    i + 1 as int,
                ));
            }
            i = i + 1;
        }
        proof {
            assert(self.md5@.take(self.md5@.len() as int) =~= self.md5@);
        }
        push_u32_le(&mut body, self.length);
        let mut j: usize = 0;
        while j < self.original_file_data.len()
            invariant
                j <= self.original_file_data@.len(),
                body@ == seq![0u8, spec_mass_type_code(self.data_type)] + self.md5@ + spec_u32_le(
                    self.length,
                ) + self.original_file_data@.take(j as int),
            decreases self.original_file_data@.len() - j,
        {
            body.push(self.original_file_data[j]);
            proof {
                assert(body@ =~= seq![0u8, spec_mass_type_code(self.data_type)] + self.md5@
                    + spec_u32_le(self.length) + self.original_file_data@.take(j + 1 as int));
            }
            j = j + 1;
        }
        proof {
            assert(self.original_file_data@.take(self.original_file_data@.len() as int)
                =~= self.original_file_data@);
            assert(body@ =~= spec_mass_inner_body(self.data_type, self.original_file_data@));
        }
        let crc = calc_crc32(body.as_slice());
        let ghost body_view = body@;
        push_u32_le(&mut body, crc);
        proof {
            assert(body@ =~= spec_mass_inner_with_crc(self.data_type, self.original_file_data@));
            assert(md5_of(self.original_file_data@).len() == 16);
            assert(body@.take(body@.len() - 4) =~= body_view);
            assert(body@.skip(body@.len() - 4) =~= spec_u32_le(crc32_of(body_view)));
        }
        body
    }
}

/// Checksum placement: the inner encoding always ends in the four
/// little-endian bytes of the CRC-32 of everything before them.
pub proof fn lemma_mass_inner_crc_tail(t: MassDataType, file: Seq<u8>)
    requires
        md5_of(file).len() == 16,
    ensures
        ({
            let enc = spec_mass_inner_with_crc(t, file);
            &&& enc.len() == file.len() + 26
            &&& enc.skip(enc.len() - 4) == spec_u32_le(crc32_of(enc.take(enc.len() - 4)))
            &&& enc.take(enc.len() - 4) == spec_mass_inner_body(t, file)
        }),
{
    let body = spec_mass_inner_body(t, file);
    let enc = spec_mass_inner_with_crc(t, file);
    assert(body.len() == file.len() + 22);
    assert(enc.take(enc.len() - 4) =~= body);
    assert(enc.skip(enc.len() - 4) =~= spec_u32_le(crc32_of(body)));
}

/// A file arriving from the peer in numbered fragments: the declared
/// name, the fragment store, and the running totals.
#[derive(Clone)]
pub struct ReverseMassPacket {
    pub file_name: String,
    pub total_part: u32,
    pub cur_part: u32,
    pub header: Vec<u8>,
    pub file: Vec<(u32, Vec<u8>)>,
    pub error: bool,
    pub empty: bool,
}

/// The value bound to a part number, searching from the front.
pub open spec fn spec_parts_get(s: Seq<(u32, Seq<u8>)>, k: u32) -> Option<Seq<u8>>
    decreases s.len(),
{
    if s.len() == 0 {
        None
    } else if s[0].0 == k {
        Some(s[0].1)
    } else {
        spec_parts_get(s.skip(1), k)
    }
}

/// The stored fragments as an association list over part numbers.
pub open spec fn spec_parts_view(s: Seq<(u32, Vec<u8>)>) -> Seq<(u32, Seq<u8>)> {
    s.map_values(|e: (u32, Vec<u8>)| (e.0, e.1@))
}

/// The concatenation of the stored fragments for parts 1 through
/// `upto`, where each is present.
pub open spec fn spec_parts_concat(s: Seq<(u32, Seq<u8>)>, upto: int) -> Option<Seq<u8>>
    decreases upto
        when upto >= 0
{
    if upto <= 0 {
        Some(Seq::<u8>::empty())
    } else {
        match (spec_parts_concat(s, upto - 1), spec_parts_get(s, upto as u32)) {
            (Some(a), Some(b)) => Some(a + b),
            _ => None,
        }
    }
}

/// Binding a part number: the fragment is replaced in place where the
/// part occurs first, else the pair is appended.
pub open spec fn spec_parts_set(s: Seq<(u32, Seq<u8>)>, k: u32, v: Seq<u8>) -> Seq<(u32, Seq<u8>)>
    decreases s.len(),
{
    if s.len() == 0 {
        seq![(k, v)]
    } else if s[0].0 == k {
        seq![(k, v)] + s.skip(1)
    } else {
        seq![s[0]] + spec_parts_set(s.skip(1), k, v)
    }
}

proof fn lemma_parts_concat_none_beyond(s: Seq<(u32, Seq<u8>)>, at: int, total: int)
    requires
        0 < at <= total,
        spec_parts_concat(s, at) is None,
    ensures
        spec_parts_concat(s, total) is None,
    decreases total - at,
{
    if at < total {
        lemma_parts_concat_none_beyond(s, at + 1, total);
    }
}

proof fn lemma_parts_set_at(s: Seq<(u32, Seq<u8>)>, k: u32, v: Seq<u8>, i: int)
    requires
        0 <= i < s.len(),
        s[i].0 == k,
        forall|j: int| 0 <= j < i ==> (#[trigger] s[j]).0 != k,
    ensures
        spec_parts_set(s, k, v) == s.update(i, (k, v)),
    decreases s.len(),
{
    if i == 0 {
        assert(spec_parts_set(s, k, v) =~= s.update(0, (k, v)));
    } else {
        assert(s[0].0 != k);
        lemma_parts_set_at(s.skip(1), k, v, i - 1);
        assert(spec_parts_set(s, k, v) =~= s.update(i, (k, v)));
    }
}

proof fn lemma_parts_set_absent(s: Seq<(u32, Seq<u8>)>, k: u32, v: Seq<u8>)
    requires
        forall|j: int| 0 <= j < s.len() ==> (#[trigger] s[j]).0 != k,
    ensures
        spec_parts_set(s, k, v) == s.push((k, v)),
    decreases s.len(),
{
    if s.len() == 0 {
        assert(spec_parts_set(s, k, v) =~= s.push((k, v)));
    } else {
        lemma_parts_set_absent(s.skip(1), k, v);
        assert(spec_parts_set(s, k, v) =~= s.push((k, v)));
    }
}

/// Why an inbound fragment was rejected.
#[derive(Debug, Clone, Copy, PartialEq, Eq, Structural)]
pub enum ReverseMassError {
    /// Fewer than the twelve framing bytes are present.
    TooShort,
    /// The version byte is not zero.
    BadVersion,
    /// The fragment declares a total that contradicts the first one.
    TotalMismatch,
    /// The trailing checksum does not match the reassembled file.
    CrcMismatch,
    /// The declared name runs past the fragment, or a fragment is absent
    /// at readout.
    Malformed,
}

/// Nothing of the reassembly state moved: counters, stored parts, name
/// and header all as they were.
pub open spec fn rv_state_kept(a: &ReverseMassPacket, b: &ReverseMassPacket) -> bool {
    &&& rv_counts_kept(a, b)
    &&& spec_parts_view(b.file@) == spec_parts_view(a.file@)
    &&& b.file_name@ == a.file_name@
    &&& b.header@ == a.header@
}

/// The counters as they were.
pub open spec fn rv_counts_kept(a: &ReverseMassPacket, b: &ReverseMassPacket) -> bool {
    &&& b.total_part == a.total_part
    &&& b.cur_part == a.cur_part
}

/// The name and header after a fragment's framing was read: set from a
/// first fragment, untouched otherwise.
pub open spec fn rv_name_set(
    a: &ReverseMassPacket,
    b: &ReverseMassPacket,
    p: Seq<u8>,
    first: bool,
) -> bool {
    if first {
        &&& vstd::utf8::encode_utf8(b.file_name@) == p.subrange(7, 7 + p[6])
        &&& b.header@ == p.subrange(6, 12 + p[6])
    } else {
        &&& b.file_name@ == a.file_name@
        &&& b.header@ == a.header@
    }
}

/// The state after an accepted fragment: body stored under its part
/// number, totals taken from the fragment, one more part counted, and
/// the error flag untouched.
pub open spec fn rv_accepted(
    a: &ReverseMassPacket,
    b: &ReverseMassPacket,
    p: Seq<u8>,
    first: bool,
    total: u16,
    parts2: Seq<(u32, Seq<u8>)>,
    header2: Seq<u8>,
) -> bool {
    &&& b.total_part == total as u32
    &&& b.cur_part == a.cur_part + 1
    &&& spec_parts_view(b.file@) == parts2
    &&& b.header@ == header2
    &&& (first ==> vstd::utf8::encode_utf8(b.file_name@) == p.subrange(7, 7 + p[6]))
    &&& (!first ==> b.file_name@ == a.file_name@)
    &&& b.error == a.error
}

impl ReverseMassPacket {
    /// An empty reassembly: no fragments, no error.
    pub fn new() -> (r: ReverseMassPacket)
        ensures
            r.total_part == 0,
            r.cur_part == 0,
            !r.error,
            r.empty,
            spec_parts_view(r.file@) == Seq::<(u32, Seq<u8>)>::empty(),
    {
        let r = ReverseMassPacket {
            file_name: String::new(),
            total_part: 0,
            cur_part: 0,
            file: Vec::new(),
            error: false,
            empty: true,
            header: Vec::new(),
        };
        proof {
            assert(spec_parts_view(r.file@) =~= Seq::<(u32, Seq<u8>)>::empty());
        }
        r
    }

    /// Whether every declared fragment has arrived.
    pub fn complete(&self) -> (r: bool)
        ensures
            r == (self.cur_part == self.total_part && self.total_part != 0),
    {
        self.cur_part == self.total_part && self.total_part != 0
    }

    /// Whether no fragment was ever handled.
    pub fn empty(&self) -> (r: bool)
        ensures
            r == self.empty,
    {
        self.empty
    }

    /// Whether some fragment was rejected.
    pub fn error(&self) -> (r: bool)
        ensures
            r == self.error,
    {
        self.error
    }

    /// How many fragments have been accepted.
    pub fn current_block(&self) -> (r: u32)
        ensures
            r == self.cur_part,
    {
        self.cur_part
    }

    /// How many fragments the sender declared.
    pub fn total_block(&self) -> (r: u32)
        ensures
            r == self.total_part,
    {
        self.total_part
    }

    /// The declared file name.
    pub fn file_name(&self) -> (r: String)
        ensures
            r@ == self.file_name@,
    {
        self.file_name.as_str().to_owned()
    }

    /// Accepts one inbound fragment: the first fragment carries the name
    /// and header; the last carries the checksum over header and the
    /// reassembled file, which must match. Each rejection is exact: too
    /// short, a nonzero version byte, a later total contradicting the
    /// first, a name or body region running past the fragment, a missing
    /// part at readout, or the checksum; an accepted fragment's body is
    /// stored under its part number and the counters advance.
    pub fn handle_packet(&mut self, packet: Vec<u8>) -> (r: Result<(), ReverseMassError>)
        ensures
            !final(self).empty,
            final(self).empty == false,
            ({
                let p = packet@;
                let first = old(self).total_part == 0;
                if p.len() < 12 {
                    r == Result::<(), ReverseMassError>::Err(ReverseMassError::TooShort)
                        && final(self).error && rv_state_kept(old(self), final(self))
                } else if p[0] != 0 {
                    r == Result::<(), ReverseMassError>::Err(ReverseMassError::BadVersion)
                        && final(self).error && rv_state_kept(old(self), final(self))
                } else if old(self).cur_part == u32::MAX {
                    r == Result::<(), ReverseMassError>::Err(ReverseMassError::Malformed)
                        && final(self).error == old(self).error && rv_state_kept(
                        old(self),
                        final(self),
                    )
                } else {
                    let total = spec_u16_from_le(p.subrange(2, 4));
                    let cur = spec_u16_from_le(p.subrange(4, 6));
                    let nl = p[6] as int;
                    if !first && total as u32 != old(self).total_part {
                        r == Result::<(), ReverseMassError>::Err(ReverseMassError::TotalMismatch)
                            && final(self).error && rv_state_kept(old(self), final(self))
                    } else if first && 12 + nl > p.len() {
                        r == Result::<(), ReverseMassError>::Err(ReverseMassError::Malformed)
                            && final(self).error == old(self).error && rv_state_kept(
                            old(self),
                            final(self),
                        )
                    } else if first && !crate::hexutil::is_utf8(p.subrange(7, 7 + nl)) {
                        r == Result::<(), ReverseMassError>::Err(ReverseMassError::Malformed)
                            && final(self).error == old(self).error && rv_state_kept(
                            old(self),
                            final(self),
                        )
                    } else {
                        let skip: int = if first {
                            12 + nl
                        } else {
                            6
                        };
                        let header2 = if first {
                            p.subrange(6, skip)
                        } else {
                            old(self).header@
                        };
                        if cur == total {
                            if skip > p.len() - 4 {
                                r == Result::<(), ReverseMassError>::Err(
                                    ReverseMassError::Malformed,
                                ) && final(self).error == old(self).error && rv_name_set(
                                    old(self),
                                    final(self),
                                    p,
                                    first,
                                ) && rv_counts_kept(old(self), final(self)) && spec_parts_view(
                                    final(self).file@,
                                ) == spec_parts_view(old(self).file@)
                            } else {
                                let body = p.subrange(skip, p.len() - 4);
                                let parts2 = spec_parts_set(
                                    spec_parts_view(old(self).file@),
                                    cur as u32,
                                    body,
                                );
                                match spec_parts_concat(parts2, total as int) {
                                    Some(all) => {
                                        let declared = crate::endian::spec_u32_from_le(
                                            p.subrange(p.len() - 4, p.len() as int),
                                        );
                                        if declared == crate::crypto::crc32_of(header2 + all) {
                                            r is Ok && rv_accepted(
                                                old(self),
                                                final(self),
                                                p,
                                                first,
                                                total,
                                                parts2,
                                                header2,
                                            )
                                        } else {
                                            r == Result::<(), ReverseMassError>::Err(
                                                ReverseMassError::CrcMismatch,
                                            ) && final(self).error && rv_name_set(
                                                old(self),
                                                final(self),
                                                p,
                                                first,
                                            ) && rv_counts_kept(old(self), final(self))
                                                && spec_parts_view(final(self).file@) == parts2
                                        }
                                    },
                                    None => {
                                        r == Result::<(), ReverseMassError>::Err(
                                            ReverseMassError::Malformed,
                                        ) && final(self).error == old(self).error && rv_name_set(
                                            old(self),
                                            final(self),
                                            p,
                                            first,
                                        ) && rv_counts_kept(old(self), final(self))
                                            && spec_parts_view(final(self).file@) == parts2
                                    },
                                }
                            }
                        } else {
                            let body = p.skip(skip);
                            let parts2 = spec_parts_set(
                                spec_parts_view(old(self).file@),
                                cur as u32,
                                body,
                            );
                            r is Ok && rv_accepted(
                                old(self),
                                final(self),
                                p,
                                first,
                                total,
                                parts2,
                                header2,
                            )
                        }
                    }
                }
            }),
    {
        self.empty = false;

        if packet.len() < 12 {
            self.error = true;
            return Err(ReverseMassError::TooShort);
        }

        if packet[0] != 0 {
            self.error = true;
            return Err(ReverseMassError::BadVersion);
        }

        if self.cur_part == u32::MAX {
            return Err(ReverseMassError::Malformed);
        }

        let total = read_u16_le(packet.as_slice(), 2);
        let cur = read_u16_le(packet.as_slice(), 4);

        let first = self.total_part == 0;
        let skip_offset: usize;

        if first {
            let len = packet[6] as usize;
            if 12 + len > packet.len() {
                return Err(ReverseMassError::Malformed);
            }
            let name = vstd::slice::slice_subrange(packet.as_slice(), 7, 7 + len);
            proof {
                assert(name@ =~= packet@.subrange(7, 7 + len));
            }
            let name_str = match crate::hexutil::utf8_check(name) {
                Some(s) => s,
                None => {
                    return Err(ReverseMassError::Malformed);
                },
            };
            self.file_name = name_str.to_owned();
            let header = vstd::slice::slice_subrange(packet.as_slice(), 6, 12 + len);
            proof {
                assert(header@ =~= packet@.subrange(6, 12 + len));
            }
            self.header = vstd::slice::slice_to_vec(header);
            skip_offset = 12 + len;
        } else {
            if total as u32 != self.total_part {
                self.error = true;
                return Err(ReverseMassError::TotalMismatch);
            }
            skip_offset = 6;
        }

        let ghost parts_pre = spec_parts_view(self.file@);
        proof {
            assert(parts_pre == spec_parts_view(old(self).file@));
            if first {
                assert(vstd::utf8::encode_utf8(self.file_name@) == packet@.subrange(
                    7,
                    7 + packet@[6],
                ));
                assert(self.header@ == packet@.subrange(6, 12 + packet@[6]));
            }
        }
        if cur == total {
            if skip_offset > packet.len() - 4 {
                return Err(ReverseMassError::Malformed);
            }
            let body = vstd::slice::slice_subrange(packet.as_slice(), skip_offset, packet.len() - 4);
            proof {
                assert(body@ =~= packet@.subrange(skip_offset as int, packet@.len() - 4));
            }
            let body_vec = vstd::slice::slice_to_vec(body);
            self.parts_set(cur as u32, body_vec);
            proof {
                assert(spec_parts_view(self.file@) == spec_parts_set(
                    parts_pre,
                    cur as u32,
                    packet@.subrange(skip_offset as int, packet@.len() - 4),
                ));
            }

            let assembled = match self.assemble(total as u32) {
                Ok(a) => a,
                Err(e) => {
                    proof {
                        assert(spec_parts_concat(
                            spec_parts_view(self.file@),
                            total as int,
                        ) is None);
                    }
                    return Err(e);
                },
            };
            proof {
                assert(Some(assembled@) == spec_parts_concat(
                    spec_parts_view(self.file@),
                    total as int,
                ));
            }
            let mut check_data: Vec<u8> = Vec::new();
            let header_slice = self.header.as_slice();
            let mut hi: usize = 0;
            while hi < header_slice.len()
                invariant
                    hi <= header_slice@.len(),
                    check_data@ == header_slice@.take(hi as int),
                decreases header_slice@.len() - hi,
            {
                check_data.push(header_slice[hi]);
                proof {
                    assert(check_data@ =~= header_slice@.take(hi + 1 as int));
                }
                hi = hi + 1;
            }
            proof {
                assert(header_slice@.take(header_slice@.len() as int) =~= header_slice@);
            }
            let mut ai: usize = 0;
            while ai < assembled.len()
                invariant
                    ai <= assembled@.len(),
                    check_data@ == self.header@ + assembled@.take(ai as int),
                decreases assembled@.len() - ai,
            {
                check_data.push(assembled[ai]);
                proof {
                    assert(check_data@ =~= self.header@ + assembled@.take(ai + 1 as int));
                }
                ai = ai + 1;
            }
            proof {
                assert(assembled@.take(assembled@.len() as int) =~= assembled@);
                assert(check_data@ == self.header@ + assembled@);
            }

            let declared = crate::endian::read_u32_le(packet.as_slice(), packet.len() - 4);
            let computed = calc_crc32(check_data.as_slice());
            if declared != computed {
                self.error = true;
                return Err(ReverseMassError::CrcMismatch);
            }
        } else {
            let body = vstd::slice::slice_subrange(packet.as_slice(), skip_offset, packet.len());
            proof {
                assert(body@ =~= packet@.skip(skip_offset as int));
            }
            let body_vec = vstd::slice::slice_to_vec(body);
            self.parts_set(cur as u32, body_vec);
        }

        self.total_part = total as u32;
        self.cur_part = self.cur_part + 1;
        proof {
            let p = packet@;
            let firstg = old(self).total_part == 0;
            let nl = p[6] as int;
            let skipg: int = if firstg { 12 + nl } else { 6 };
            assert(skipg == skip_offset as int);
            assert(self.total_part == spec_u16_from_le(p.subrange(2, 4)) as u32);
            assert(self.cur_part == old(self).cur_part + 1);
            if firstg {
                assert(self.header@ == p.subrange(6, skipg));
                assert(vstd::utf8::encode_utf8(self.file_name@) == p.subrange(7, 7 + nl));
            } else {
                assert(self.header@ == old(self).header@);
                assert(self.file_name@ == old(self).file_name@);
            }
            assert(self.error == old(self).error);
            if cur == total {
                assert(spec_parts_view(self.file@) == spec_parts_set(
                    spec_parts_view(old(self).file@),
                    spec_u16_from_le(p.subrange(4, 6)) as u32,
                    p.subrange(skipg, p.len() - 4),
                ));
            } else {
                assert(spec_parts_view(self.file@) == spec_parts_set(
                    spec_parts_view(old(self).file@),
                    spec_u16_from_le(p.subrange(4, 6)) as u32,
                    p.skip(skipg),
                ));
            }
        }
        Ok(())
    }

    /// The reassembled file: the fragments for parts 1 through the total,
    /// concatenated. Fails when a part is absent, or — without `force` —
    /// when the transfer is incomplete.
    pub fn file(&self, force: bool) -> (r: Result<Vec<u8>, ReverseMassError>)
        ensures
            !force && !(self.cur_part == self.total_part && self.total_part != 0) ==> r is Err,
            (force || (self.cur_part == self.total_part && self.total_part != 0))
                && self.total_part < u32::MAX ==> {
                &&& (r is Ok <==> spec_parts_concat(
                    spec_parts_view(self.file@),
                    self.total_part as int,
                ) is Some)
                &&& (r matches Ok(v) ==> Some(v@) == spec_parts_concat(
                    spec_parts_view(self.file@),
                    self.total_part as int,
                ))
            },
    {
        if !(self.cur_part == self.total_part && self.total_part != 0) && !force {
            return Err(ReverseMassError::Malformed);
        }
        self.assemble(self.total_part)
    }

    /// Concatenates the stored fragments for parts 1 through `total`;
    /// fails exactly where a part is absent.
    fn assemble(&self, total: u32) -> (r: Result<Vec<u8>, ReverseMassError>)
        ensures
            r matches Err(e) ==> e == ReverseMassError::Malformed,
            total < u32::MAX ==> {
                &&& (r is Ok <==> spec_parts_concat(
                    spec_parts_view(self.file@),
                    total as int,
                ) is Some)
                &&& (r matches Ok(v) ==> Some(v@) == spec_parts_concat(
                    spec_parts_view(self.file@),
                    total as int,
                ))
            },
    {
        if total == u32::MAX {
            return Err(ReverseMassError::Malformed);
        }
        let mut result: Vec<u8> = Vec::new();
        let mut key: u32 = 1;
        while key <= total
            invariant
                1 <= key as int <= total + 1,
                total < u32::MAX,
                Some(result@) == spec_parts_concat(
                    spec_parts_view(self.file@),
                    key as int - 1,
                ),
            decreases total + 1 - key,
        {
            match self.parts_get(key) {
                Some(v) => {
                    let ghost pre = result@;
                    let mut i: usize = 0;
                    let n = v.len();
                    while i < n
                        invariant
                            i <= n,
                            n == v@.len(),
                            result@ == pre + v@.take(i as int),
                        decreases n - i,
                    {
                        result.push(v[i]);
                        proof {
                            assert(result@ =~= pre + v@.take(i + 1 as int));
                        }
                        i = i + 1;
                    }
                    proof {
                        assert(v@.take(n as int) =~= v@);
                        assert(result@ =~= pre + v@);
                    }
                },
                None => {
                    proof {
                        assert(spec_parts_concat(
                            spec_parts_view(self.file@),
                            key as int,
                        ) is None);
                        lemma_parts_concat_none_beyond(
                            spec_parts_view(self.file@),
                            key as int,
                            total as int,
                        );
                    }
                    return Err(ReverseMassError::Malformed);
                },
            }
            key = key + 1;
        }
        Ok(result)
    }

    /// The stored fragment for a part number, searching from the front.
    fn parts_get(&self, key: u32) -> (r: Option<&Vec<u8>>)
        ensures
            r is Some <==> spec_parts_get(spec_parts_view(self.file@), key) is Some,
            r matches Some(v) ==> Some(v@) == spec_parts_get(spec_parts_view(self.file@), key),
    {
        let n = self.file.len();
        let mut i: usize = 0;
        proof {
            assert(spec_parts_view(self.file@).skip(0) =~= spec_parts_view(self.file@));
        }
        while i < n
            invariant
                n == self.file@.len(),
                i <= n,
                spec_parts_get(spec_parts_view(self.file@).skip(i as int), key) == spec_parts_get(
                    spec_parts_view(self.file@),
                    key,
                ),
            decreases n - i,
        {
            proof {
                let s = spec_parts_view(self.file@).skip(i as int);
                assert(s[0] == spec_parts_view(self.file@)[i as int]);
                assert(spec_parts_view(self.file@)[i as int] == (
                    self.file@[i as int].0,
                    self.file@[i as int].1@,
                ));
                assert(s.skip(1) =~= spec_parts_view(self.file@).skip(i + 1 as int));
            }
            if self.file[i].0 == key {
                return Some(&self.file[i].1);
            }
            i = i + 1;
        }
        proof {
            assert(spec_parts_view(self.file@).skip(n as int).len() == 0);
        }
        None
    }

    /// Binds a part number to its fragment, replacing in place or
    /// appending.
    fn parts_set(&mut self, key: u32, value: Vec<u8>)
        ensures
            spec_parts_view(final(self).file@) == spec_parts_set(
                spec_parts_view(old(self).file@),
                key,
                value@,
            ),
            final(self).file_name@ == old(self).file_name@,
            final(self).total_part == old(self).total_part,
            final(self).cur_part == old(self).cur_part,
            final(self).header@ == old(self).header@,
            final(self).error == old(self).error,
            final(self).empty == old(self).empty,
    {
        let ghost s = spec_parts_view(self.file@);
        let n = self.file.len();
        let mut i: usize = 0;
        while i < n
            invariant
                n == self.file@.len(),
                i <= n,
                s == spec_parts_view(self.file@),
                s == spec_parts_view(old(self).file@),
                self.file_name@ == old(self).file_name@,
                self.total_part == old(self).total_part,
                self.cur_part == old(self).cur_part,
                self.header@ == old(self).header@,
                self.error == old(self).error,
                self.empty == old(self).empty,
                forall|j: int| 0 <= j < i ==> (#[trigger] s[j]).0 != key,
            decreases n - i,
        {
            proof {
                assert(s[i as int] == (self.file@[i as int].0, self.file@[i as int].1@));
            }
            if self.file[i].0 == key {
                let ghost pre = self.file@;
                self.file.set(i, (key, value));
                proof {
                    lemma_parts_set_at(s, key, value@, i as int);
                    assert forall|j: int|
                        0 <= j < self.file@.len() implies spec_parts_view(self.file@)[j]
                        == s.update(i as int, (key, value@))[j] by {
                        assert(spec_parts_view(self.file@)[j] == (
                            self.file@[j].0,
                            self.file@[j].1@,
                        ));
                        if j != i {
                            assert(self.file@[j] == pre[j]);
                            assert(s[j] == (pre[j].0, pre[j].1@));
                        }
                    }
                    assert(spec_parts_view(self.file@) =~= s.update(i as int, (key, value@)));
                }
                return;
            }
            i = i + 1;
        }
        self.file.push((key, value));
        proof {
            lemma_parts_set_absent(s, key, value@);
            assert forall|j: int|
                0 <= j < self.file@.len() implies spec_parts_view(self.file@)[j] == s.push(
                (key, value@),
            )[j] by {
                assert(spec_parts_view(self.file@)[j] == (self.file@[j].0, self.file@[j].1@));
                if j < self.file@.len() - 1 {
                    assert(s[j] == (old(self).file@[j].0, old(self).file@[j].1@));
                }
            }
            assert(spec_parts_view(self.file@) =~= s.push((key, value@)));
        }
    }
}

} // verus!
