//! Framing layer: magic-prefixed frames carrying a type/flag byte, an 8-bit
//! sequence number, a little-endian payload length, a CRC-16/ARC over the
//! payload, and the payload itself. Frames are classified as NAK, ACK, CMD
//! or DATA.

use vstd::prelude::*;

use crate::endian::{
    lemma_u16_le_round_trip, push_u16_le, read_u16_le, spec_u16_from_le, spec_u16_le,
};

verus! {

/// Frame classification carried in the low four bits of the type/flag byte.
#[derive(Debug, Clone, Copy, PartialEq, Eq, Structural)]
pub enum L1DataType {
    Nak,
    Ack,
    Cmd,
    Data,
}

/// Why a byte string failed to parse as a frame.
#[derive(Debug, Clone, PartialEq, Eq, Structural)]
pub enum L1Error {
    /// Fewer than the eight header bytes are present.
    TooShort,
    /// The first two bytes are not the frame magic.
    BadMagic { found: u16 },
    /// The low four bits of the type/flag byte name no frame type.
    InvalidType(u8),
    /// The declared payload length exceeds the bytes present.
    LengthMismatch { declared: u16, actual: usize },
    /// The declared CRC does not match the payload.
    CrcMismatch { declared: u16, computed: u16 },
}

/// The wire code of a frame type.
pub open spec fn spec_type_code(t: L1DataType) -> u8 {
    match t {
        L1DataType::Nak => 0,
        L1DataType::Ack => 1,
        L1DataType::Cmd => 2,
        L1DataType::Data => 3,
    }
}

/// The frame type named by a wire code, if any.
pub open spec fn spec_type_of_code(v: u8) -> Option<L1DataType> {
    if v == 0 {
        Some(L1DataType::Nak)
    } else if v == 1 {
        Some(L1DataType::Ack)
    } else if v == 2 {
        Some(L1DataType::Cmd)
    } else if v == 3 {
        Some(L1DataType::Data)
    } else {
        None
    }
}

impl L1DataType {
    /// The wire code of this frame type.
    pub fn code(&self) -> (v: u8)
        ensures
            v == spec_type_code(*self),
    {
        match *self {
            L1DataType::Nak => 0,
            L1DataType::Ack => 1,
            L1DataType::Cmd => 2,
            L1DataType::Data => 3,
        }
    }

    /// The frame type named by a wire code; fails exactly on codes above 3.
    pub fn try_from(v: u8) -> (r: Result<L1DataType, L1Error>)
        ensures
            r is Ok <==> spec_type_of_code(v) is Some,
            r matches Ok(t) ==> spec_type_of_code(v) == Some(t),
            r matches Err(e) ==> e == L1Error::InvalidType(v),
    {
        match v {
            0 => Ok(L1DataType::Nak),
            1 => Ok(L1DataType::Ack),
            2 => Ok(L1DataType::Cmd),
            3 => Ok(L1DataType::Data),
            _ => Err(L1Error::InvalidType(v)),
        }
    }
}

/// One round of the CRC-16/ARC shift: shift right, xor with the reflected
/// polynomial when the low bit was set.
pub open spec fn spec_crc16_round(crc: u16) -> u16 {
    if crc % 2 == 1 {
        ((crc / 2) ^ 0xA001) as u16
    } else {
        (crc / 2) as u16
    }
}

/// `n` rounds of the CRC-16/ARC shift.
pub open spec fn spec_crc16_rounds(crc: u16, n: nat) -> u16
    decreases n,
{
    if n == 0 {
        crc
    } else {
        spec_crc16_rounds(spec_crc16_round(crc), (n - 1) as nat)
    }
}

/// Folding one byte into a running CRC-16/ARC value.
pub open spec fn spec_crc16_byte(crc: u16, b: u8) -> u16 {
    spec_crc16_rounds((crc ^ (b as u16)) as u16, 8)
}

/// The CRC-16/ARC checksum of a byte string: polynomial `0xA001`
/// (reflected), initial value 0, no final xor.
pub open spec fn spec_crc16_arc(data: Seq<u8>) -> u16
    decreases data.len(),
{
    if data.len() == 0 {
        0
    } else {
        spec_crc16_byte(spec_crc16_arc(data.drop_last()), data.last())
    }
}

/// A parsed or built frame. Well-formed frames declare the payload's true
/// length and carry its true checksum.
#[derive(Debug, Clone)]
pub struct L1Packet {
    pub pkt_type: L1DataType,
    pub frx: bool,
    pub seq: u8,
    pub length: u16,
    pub crc: u16,
    pub payload: Vec<u8>,
}

/// The type/flag byte: the type code in the low four bits, the
/// fast-receive flag in bit four, the high three bits zero.
pub open spec fn spec_pack_type_frx(t: L1DataType, frx: bool) -> u8 {
    (spec_type_code(t) + if frx {
        16u8
    } else {
        0u8
    }) as u8
}

/// The serialized form of a frame: magic, type/flag byte, sequence,
/// little-endian payload length, little-endian CRC-16/ARC of the payload,
/// payload.
pub open spec fn spec_l1_bytes(t: L1DataType, frx: bool, seq: u8, payload: Seq<u8>) -> Seq<u8> {
    seq![0xA5u8, 0xA5u8, spec_pack_type_frx(t, frx), seq] + spec_u16_le(payload.len() as u16)
        + spec_u16_le(spec_crc16_arc(payload)) + payload
}

/// The parse of a byte string as a frame: type, fast-receive flag,
/// sequence, declared length, declared CRC, payload. `None` where any
/// check fails.
pub open spec fn spec_l1_parse(buf: Seq<u8>) -> Option<(L1DataType, bool, u8, u16, u16, Seq<u8>)> {
    if buf.len() < 8 {
        None
    } else if spec_u16_from_le(buf.subrange(0, 2)) != 0xA5A5 {
        None
    } else if spec_type_of_code((buf[2] % 16) as u8) is None {
        None
    } else {
        let t = spec_type_of_code((buf[2] % 16) as u8)->Some_0;
        let frx = (buf[2] / 16) % 2 == 1;
        let length = spec_u16_from_le(buf.subrange(4, 6));
        let declared_crc = spec_u16_from_le(buf.subrange(6, 8));
        if buf.len() < 8 + length {
            None
        } else {
            let payload = buf.subrange(8, 8 + length);
            if spec_crc16_arc(payload) != declared_crc {
                None
            } else {
                Some((t, frx, buf[3], length, declared_crc, payload))
            }
        }
    }
}

impl L1Packet {
    /// The frame magic, first on the wire as two little-endian bytes.
    pub const MAGIC: u16 = 0xA5A5;

    /// Whether the declared length and CRC match the payload.
    pub open spec fn wf(&self) -> bool {
        &&& self.length == self.payload@.len()
        &&& self.payload@.len() <= 0xFFFF
        &&& self.crc == spec_crc16_arc(self.payload@)
    }

    /// Builds a frame over a payload, computing length and CRC.
    pub fn new(pkt_type: L1DataType, frx: bool, seq: u8, payload: Vec<u8>) -> (r: L1Packet)
        requires
            payload@.len() <= 0xFFFF,
        ensures
            r.wf(),
            r.pkt_type == pkt_type,
            r.frx == frx,
            r.seq == seq,
            r.payload@ == payload@,
    {
        let mut pkt = Self {
            pkt_type,
            frx,
            seq,
            length: payload.len() as u16,
            crc: 0,
            payload,
        };
        pkt.update_crc();
        pkt
    }

    /// The CRC-16/ARC checksum of a byte string.
    pub fn crc16_arc(data: &[u8]) -> (r: u16)
        ensures
            r == spec_crc16_arc(data@),
    {
        let mut crc: u16 = 0x0000;
        let mut i: usize = 0;
        while i < data.len()
            invariant
                i <= data.len(),
                crc == spec_crc16_arc(data@.take(i as int)),
            decreases data.len() - i,
        {
            crc = crc ^ (data[i] as u16);
            let mut round: usize = 0;
            while round < 8
                invariant
                    round <= 8,
                    crc == spec_crc16_rounds(
                        (spec_crc16_arc(data@.take(i as int)) ^ (data@[i as int] as u16)) as u16,
                        round as nat,
                    ),
                decreases 8 - round,
            {
                proof {
                    lemma_crc16_rounds_snoc(
                        (spec_crc16_arc(data@.take(i as int)) ^ (data@[i as int] as u16)) as u16,
                        round as nat,
                    );
                }
                if crc % 2 == 1 {
                    crc = (crc / 2) ^ 0xA001;
                } else {
                    crc = crc / 2;
                }
                round = round + 1;
            }
            proof {
                assert(data@.take(i + 1 as int).drop_last() =~= data@.take(i as int));
                assert(data@.take(i + 1 as int).last() == data@[i as int]);
            }
            i = i + 1;
        }
        proof {
            assert(data@.take(data@.len() as int) =~= data@);
        }
        crc
    }

    /// Serializes the frame. Well-formedness makes the length and CRC
    /// fields on the wire the payload's true length and checksum.
    pub fn to_bytes(&self) -> (r: Vec<u8>)
        requires
            self.wf(),
        ensures
            r@ == spec_l1_bytes(self.pkt_type, self.frx, self.seq, self.payload@),
    {
        let mut out: Vec<u8> = Vec::new();
        out.push(0xA5);
        out.push(0xA5);
        out.push(Self::pack_type_frx(self.pkt_type, self.frx));
        out.push(self.seq);
        push_u16_le(&mut out, self.length);
        push_u16_le(&mut out, self.crc);
        let mut i: usize = 0;
        while i < self.payload.len()
            invariant
                i <= self.payload@.len(),
                out@ == seq![
                    0xA5u8,
                    0xA5u8,
                    spec_pack_type_frx(self.pkt_type, self.frx),
                    self.seq,
                ] + spec_u16_le(self.length) + spec_u16_le(self.crc) + self.payload@.take(i as int),
            decreases self.payload@.len() - i,
        {
            out.push(self.payload[i]);
            proof {
                assert(self.payload@.take(i + 1 as int) =~= self.payload@.take(i as int).push(
                    self.payload@[i as int],
                ));
                assert(out@ =~= seq![
                    0xA5u8,
                    0xA5u8,
                    spec_pack_type_frx(self.pkt_type, self.frx),
                    self.seq,
                ] + spec_u16_le(self.length) + spec_u16_le(self.crc) + self.payload@.take(
                    i + 1 as int,
                ));
            }
            i = i + 1;
        }
        proof {
            assert(self.payload@.take(self.payload@.len() as int) =~= self.payload@);
            assert(out@ =~= spec_l1_bytes(self.pkt_type, self.frx, self.seq, self.payload@));
        }
        out
    }

    /// Parses a frame from the front of a byte string; trailing bytes after
    /// the declared payload are ignored. Each error names the first check
    /// that failed, in the order: length, magic, type, declared length,
    /// CRC.
    pub fn from_bytes(buf: &[u8]) -> (r: Result<L1Packet, L1Error>)
        ensures
            r is Ok <==> spec_l1_parse(buf@) is Some,
            r matches Ok(p) ==> {
                let parsed = spec_l1_parse(buf@)->Some_0;
                &&& p.pkt_type == parsed.0
                &&& p.frx == parsed.1
                &&& p.seq == parsed.2
                &&& p.length == parsed.3
                &&& p.crc == parsed.4
                &&& p.payload@ == parsed.5
                &&& p.wf()
            },
            r matches Err(e) ==> match e {
                L1Error::TooShort => buf@.len() < 8,
                L1Error::BadMagic { found } => buf@.len() >= 8 && found == spec_u16_from_le(
                    buf@.subrange(0, 2),
                ) && found != 0xA5A5,
                L1Error::InvalidType(v) => buf@.len() >= 8 && spec_u16_from_le(
                    buf@.subrange(0, 2),
                ) == 0xA5A5 && v == buf@[2] % 16 && spec_type_of_code(v) is None,
                L1Error::LengthMismatch { declared, actual } => buf@.len() >= 8 && declared
                    == spec_u16_from_le(buf@.subrange(4, 6)) && buf@.len() < 8 + declared
                    && actual == buf@.len() - 8,
                L1Error::CrcMismatch { declared, computed } => buf@.len() >= 8 && declared
                    == spec_u16_from_le(buf@.subrange(6, 8)) && computed == spec_crc16_arc(
                    buf@.subrange(8, 8 + spec_u16_from_le(buf@.subrange(4, 6)) as int),
                ) && declared != computed,
            },
    {
        if buf.len() < 8 {
            return Err(L1Error::TooShort);
        }
        let magic = read_u16_le(buf, 0);
        if magic != 0xA5A5 {
            return Err(L1Error::BadMagic { found: magic });
        }
        let tf = buf[2];
        let type_code = tf % 16;
        let frx = (tf / 16) % 2 == 1;
        let pkt_type = match L1DataType::try_from(type_code) {
            Ok(t) => t,
            Err(e) => {
                return Err(e);
            },
        };
        let seq = buf[3];
        let length = read_u16_le(buf, 4);
        let declared_crc = read_u16_le(buf, 6);
        if buf.len() < 8 + length as usize {
            return Err(L1Error::LengthMismatch { declared: length, actual: buf.len() - 8 });
        }
        let payload_slice = vstd::slice::slice_subrange(buf, 8, 8 + length as usize);
        let computed_crc = Self::crc16_arc(payload_slice);
        if declared_crc != computed_crc {
            return Err(L1Error::CrcMismatch { declared: declared_crc, computed: computed_crc });
        }
        let payload = vstd::slice::slice_to_vec(payload_slice);
        Ok(Self { pkt_type, frx, seq, length, crc: declared_crc, payload })
    }

    /// Recomputes the length and CRC fields from the payload.
    pub fn update_crc(&mut self)
        requires
            old(self).payload@.len() <= 0xFFFF,
        ensures
            final(self).pkt_type == old(self).pkt_type,
            final(self).frx == old(self).frx,
            final(self).seq == old(self).seq,
            final(self).payload@ == old(self).payload@,
            final(self).wf(),
    {
        self.length = self.payload.len() as u16;
        self.crc = Self::crc16_arc(self.payload.as_slice());
    }

    /// The CRC-16/ARC of the payload as it stands.
    pub fn computed_crc(&self) -> (r: u16)
        ensures
            r == spec_crc16_arc(self.payload@),
    {
        Self::crc16_arc(self.payload.as_slice())
    }

    /// Whether the stored CRC matches the payload.
    pub fn verify_crc(&self) -> (r: bool)
        ensures
            r == (self.crc == spec_crc16_arc(self.payload@)),
    {
        self.crc == self.computed_crc()
    }

    /// Packs a frame type and the fast-receive flag into the type/flag
    /// byte.
    pub fn pack_type_frx(t: L1DataType, frx: bool) -> (b: u8)
        ensures
            b == spec_pack_type_frx(t, frx),
    {
        t.code() + if frx {
            16
        } else {
            0
        }
    }

    /// Splits a type/flag byte into the frame type and the fast-receive
    /// flag; fails exactly where the type code names no type.
    pub fn unpack_type_frx(b: u8) -> (r: Result<(L1DataType, bool), L1Error>)
        ensures
            r is Ok <==> spec_type_of_code((b % 16) as u8) is Some,
            r matches Ok(p) ==> spec_type_of_code((b % 16) as u8) == Some(p.0) && p.1 == ((b / 16)
                % 2 == 1),
    {
        let ty = match L1DataType::try_from(b % 16) {
            Ok(t) => t,
            Err(e) => {
                return Err(e);
            },
        };
        let frx = (b / 16) % 2 == 1;
        Ok((ty, frx))
    }
}

proof fn lemma_crc16_rounds_snoc(crc: u16, n: nat)
    ensures
        spec_crc16_rounds(crc, n + 1) == spec_crc16_round(spec_crc16_rounds(crc, n)),
    decreases n,
{
    if n == 0 {
        assert(spec_crc16_rounds(crc, 1) == spec_crc16_rounds(spec_crc16_round(crc), 0));
        assert(spec_crc16_rounds(spec_crc16_round(crc), 0) == spec_crc16_round(crc));
        assert(spec_crc16_rounds(crc, 0) == crc);
    } else {
        assert(spec_crc16_rounds(crc, n + 1) == spec_crc16_rounds(spec_crc16_round(crc), n));
        lemma_crc16_rounds_snoc(spec_crc16_round(crc), (n - 1) as nat);
        assert(spec_crc16_rounds(crc, n) == spec_crc16_rounds(spec_crc16_round(crc), (n - 1) as nat));
    }
}

/// Round trip: parsing a serialized frame yields the frame's fields, with
/// the length and CRC the serializer computed. Serialization always
/// produces a byte string the parser accepts.
pub proof fn lemma_l1_round_trip(t: L1DataType, frx: bool, seq: u8, payload: Seq<u8>)
    requires
        payload.len() <= 0xFFFF,
    ensures
        spec_l1_parse(spec_l1_bytes(t, frx, seq, payload)) == Some(
            (t, frx, seq, payload.len() as u16, spec_crc16_arc(payload), payload),
        ),
{
    let bytes = spec_l1_bytes(t, frx, seq, payload);
    let len16 = payload.len() as u16;
    let crc = spec_crc16_arc(payload);
    assert(bytes.len() == 8 + payload.len());
    assert(bytes.subrange(0, 2) =~= seq![0xA5u8, 0xA5u8]);
    assert(spec_u16_from_le(seq![0xA5u8, 0xA5u8]) == 0xA5A5);
    assert(bytes[2] == spec_pack_type_frx(t, frx));
    assert(spec_type_code(t) < 4);
    assert(bytes[2] % 16 == spec_type_code(t));
    assert(spec_type_of_code(spec_type_code(t)) == Some(t));
    assert(bytes[2] / 16 == if frx { 1int } else { 0int });
    assert(bytes[3] == seq);
    assert(bytes.subrange(4, 6) =~= spec_u16_le(len16));
    assert(bytes.subrange(6, 8) =~= spec_u16_le(crc));
    lemma_u16_le_round_trip(len16);
    lemma_u16_le_round_trip(crc);
    assert(bytes.subrange(8, 8 + len16 as int) =~= payload);
}

} // verus!
