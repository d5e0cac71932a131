//! Channel/opcode layer: a two-byte header naming a logical channel and an
//! operation, followed by the payload, optionally encrypted. The cipher is
//! consumed opaquely through an encrypt/decrypt capability trait.

use vstd::prelude::*;

use crate::layer1::{L1DataType, L1Packet};

verus! {

/// The logical channel named by the first header byte.
#[derive(Debug, Clone, Copy, PartialEq, Eq, Structural)]
pub enum L2Channel {
    Pb,
    Mass,
    MassVoice,
    FileSensor,
    FileFitness,
    Ota,
    Network,
    Lyra,
    Research,
}

/// The operation named by the second header byte.
#[derive(Debug, Clone, Copy, PartialEq, Eq, Structural)]
pub enum L2OpCode {
    Write,
    WriteEnc,
    Read,
}

/// Why a byte string failed to parse as a channel packet.
#[derive(Debug, Clone, PartialEq, Eq, Structural)]
pub enum L2Error {
    /// Fewer than the two header bytes are present.
    TooShort,
    /// The first byte names no channel.
    InvalidChannel(u8),
    /// The second byte names no operation.
    InvalidOpCode(u8),
    /// Kept for callers that check lengths above this layer; this layer
    /// itself declares no length.
    LengthMismatch { expected: usize, actual: usize },
    /// The payload was marked encrypted and the cipher rejected it.
    DecryptFailed,
}

/// The wire code of a channel.
pub open spec fn spec_channel_code(c: L2Channel) -> u8 {
    match c {
        L2Channel::Pb => 1,
        L2Channel::Mass => 2,
        L2Channel::MassVoice => 3,
        L2Channel::FileSensor => 4,
        L2Channel::FileFitness => 5,
        L2Channel::Ota => 6,
        L2Channel::Network => 7,
        L2Channel::Lyra => 8,
        L2Channel::Research => 9,
    }
}

/// The channel named by a wire code, if any.
pub open spec fn spec_channel_of_code(v: u8) -> Option<L2Channel> {
    if v == 1 { Some(L2Channel::Pb) } else if v == 2 { Some(L2Channel::Mass) }
    else if v == 3 { Some(L2Channel::MassVoice) } else if v == 4 { Some(L2Channel::FileSensor) }
    else if v == 5 { Some(L2Channel::FileFitness) } else if v == 6 { Some(L2Channel::Ota) }
    else if v == 7 { Some(L2Channel::Network) } else if v == 8 { Some(L2Channel::Lyra) }
    else if v == 9 { Some(L2Channel::Research) } else { None }
}

/// The wire code of an operation.
pub open spec fn spec_opcode_code(o: L2OpCode) -> u8 {
    match o {
        L2OpCode::Write => 1,
        L2OpCode::WriteEnc => 2,
        L2OpCode::Read => 3,
    }
}

/// The operation named by a wire code, if any.
pub open spec fn spec_opcode_of_code(v: u8) -> Option<L2OpCode> {
    if v == 1 {
        Some(L2OpCode::Write)
    } else if v == 2 {
        Some(L2OpCode::WriteEnc)
    } else if v == 3 {
        Some(L2OpCode::Read)
    } else {
        None
    }
}

impl L2Channel {
    /// The wire code of this channel.
    pub fn code(&self) -> (v: u8)
        ensures
            v == spec_channel_code(*self),
    {
        match *self {
            L2Channel::Pb => 1,
            L2Channel::Mass => 2,
            L2Channel::MassVoice => 3,
            L2Channel::FileSensor => 4,
            L2Channel::FileFitness => 5,
            L2Channel::Ota => 6,
            L2Channel::Network => 7,
            L2Channel::Lyra => 8,
            L2Channel::Research => 9,
        }
    }

    /// The channel named by a wire code; fails exactly where none is.
    pub fn try_from(v: u8) -> (r: Result<L2Channel, L2Error>)
        ensures
            r is Ok <==> spec_channel_of_code(v) is Some,
            r matches Ok(c) ==> spec_channel_of_code(v) == Some(c),
            r matches Err(e) ==> e == L2Error::InvalidChannel(v),
    {
        match v {
            1 => Ok(L2Channel::Pb),
            2 => Ok(L2Channel::Mass),
            3 => Ok(L2Channel::MassVoice),
            4 => Ok(L2Channel::FileSensor),
            5 => Ok(L2Channel::FileFitness),
            6 => Ok(L2Channel::Ota),
            7 => Ok(L2Channel::Network),
            8 => Ok(L2Channel::Lyra),
            9 => Ok(L2Channel::Research),
            _ => Err(L2Error::InvalidChannel(v)),
        }
    }
}

impl L2OpCode {
    /// The wire code of this operation.
    pub fn code(&self) -> (v: u8)
        ensures
            v == spec_opcode_code(*self),
    {
        match *self {
            L2OpCode::Write => 1,
            L2OpCode::WriteEnc => 2,
            L2OpCode::Read => 3,
        }
    }

    /// The operation named by a wire code; fails exactly where none is.
    pub fn try_from(v: u8) -> (r: Result<L2OpCode, L2Error>)
        ensures
            r is Ok <==> spec_opcode_of_code(v) is Some,
            r matches Ok(o) ==> spec_opcode_of_code(v) == Some(o),
            r matches Err(e) ==> e == L2Error::InvalidOpCode(v),
    {
        match v {
            1 => Ok(L2OpCode::Write),
            2 => Ok(L2OpCode::WriteEnc),
            3 => Ok(L2OpCode::Read),
            _ => Err(L2Error::InvalidOpCode(v)),
        }
    }
}

/// The symmetric transform pair applied to payloads marked encrypted. The
/// crypto primitive itself is an outside collaborator: implementations
/// describe themselves through the two spec functions, and a cipher whose
/// decryption undoes its encryption satisfies `inverts`.
pub trait L2Cipher {
    /// The ciphertext this cipher produces for a plaintext.
    spec fn enc_spec(&self, plaintext: Seq<u8>) -> Seq<u8>;

    /// The plaintext this cipher recovers from a ciphertext.
    spec fn dec_spec(&self, ciphertext: Seq<u8>) -> Seq<u8>;

    /// Encrypts a payload; on success the result is this cipher's
    /// ciphertext for it.
    fn encrypt(&self, plaintext: &[u8]) -> (r: Result<Vec<u8>, ()>)
        ensures
            r matches Ok(v) ==> v@ == self.enc_spec(plaintext@) && v@.len() == plaintext@.len(),
    ;

    /// Decrypts a payload; on success the result is this cipher's
    /// plaintext for it.
    fn decrypt(&self, ciphertext: &[u8]) -> (r: Result<Vec<u8>, ()>)
        ensures
            r matches Ok(v) ==> v@ == self.dec_spec(ciphertext@) && v@.len() == ciphertext@.len(),
    ;
}

/// Whether a cipher's decryption undoes its encryption on every payload.
pub open spec fn cipher_inverts<C: L2Cipher>(cipher: &C) -> bool {
    forall|pt: Seq<u8>| cipher.dec_spec(#[trigger] cipher.enc_spec(pt)) == pt
}

/// The serialized form of a channel packet: channel code, operation code,
/// payload.
pub open spec fn spec_l2_bytes(channel: L2Channel, opcode: L2OpCode, payload: Seq<u8>) -> Seq<u8> {
    seq![spec_channel_code(channel), spec_opcode_code(opcode)] + payload
}

/// The parse of a byte string as a channel packet, before any decryption:
/// channel, operation and the raw body. `None` where the header is absent
/// or names nothing.
pub open spec fn spec_l2_parse(buf: Seq<u8>) -> Option<(L2Channel, L2OpCode, Seq<u8>)> {
    if buf.len() < 2 {
        None
    } else if spec_channel_of_code(buf[0]) is None {
        None
    } else if spec_opcode_of_code(buf[1]) is None {
        None
    } else {
        Some(
            (
                spec_channel_of_code(buf[0])->Some_0,
                spec_opcode_of_code(buf[1])->Some_0,
                buf.skip(2),
            ),
        )
    }
}

/// A channel packet: channel, operation and payload. After a decode with a
/// cipher the payload is plaintext; without one it may still be
/// ciphertext.
#[derive(Debug, Clone)]
pub struct L2Packet {
    pub channel: L2Channel,
    pub opcode: L2OpCode,
    pub payload: Vec<u8>,
}

impl L2Packet {
    /// Packs the three fields into a packet.
    pub fn new(channel: L2Channel, opcode: L2OpCode, payload: Vec<u8>) -> (r: L2Packet)
        ensures
            r.channel == channel,
            r.opcode == opcode,
            r.payload@ == payload@,
    {
        Self { channel, opcode, payload }
    }

    /// Builds an encrypted write on a channel: the operation is the
    /// encrypted write, the payload the cipher's ciphertext. Fails exactly
    /// where the cipher fails.
    pub fn encrypted<C: L2Cipher>(channel: L2Channel, payload: &[u8], cipher: &C) -> (r: Result<
        L2Packet,
        L2Error,
    >)
        ensures
            r matches Ok(p) ==> p.channel == channel && p.opcode == L2OpCode::WriteEnc
                && p.payload@ == cipher.enc_spec(payload@) && p.payload@.len() == payload@.len(),
            r matches Err(e) ==> e == L2Error::DecryptFailed,
    {
        match cipher.encrypt(payload) {
            Ok(ct) => Ok(Self { channel, opcode: L2OpCode::WriteEnc, payload: ct }),
            Err(_) => Err(L2Error::DecryptFailed),
        }
    }

    /// Serializes the packet: the two header bytes, then the payload.
    pub fn to_bytes(&self) -> (r: Vec<u8>)
        ensures
            r@ == spec_l2_bytes(self.channel, self.opcode, self.payload@),
    {
        let mut out: Vec<u8> = Vec::new();
        out.push(self.channel.code());
        out.push(self.opcode.code());
        let mut i: usize = 0;
        while i < self.payload.len()
            invariant
                i <= self.payload@.len(),
                out@ == seq![
                    spec_channel_code(self.channel),
                    spec_opcode_code(self.opcode),
                ] + self.payload@.take(i as int),
            decreases self.payload@.len() - i,
        {
            out.push(self.payload[i]);
            proof {
                assert(out@ =~= seq![
                    spec_channel_code(self.channel),
                    spec_opcode_code(self.opcode),
                ] + self.payload@.take(i + 1 as int));
            }
            i = i + 1;
        }
        proof {
            assert(self.payload@.take(self.payload@.len() as int) =~= self.payload@);
        }
        out
    }

    /// Parses a channel packet, decrypting the body when the operation is
    /// the encrypted write and a cipher is supplied; otherwise the body is
    /// kept as it stands, ciphertext or not. Whenever the header parses
    /// and no decryption is attempted, the parse succeeds.
    pub fn from_bytes<C: L2Cipher>(buf: &[u8], cipher: Option<&C>) -> (r: Result<
        L2Packet,
        L2Error,
    >)
        ensures
            r matches Ok(p) ==> {
                let parsed = spec_l2_parse(buf@)->Some_0;
                &&& spec_l2_parse(buf@) is Some
                &&& p.channel == parsed.0
                &&& p.opcode == parsed.1
                &&& p.payload@ == if p.opcode == L2OpCode::WriteEnc && cipher is Some {
                    cipher->Some_0.dec_spec(parsed.2)
                } else {
                    parsed.2
                }
            },
            r matches Err(e) ==> match e {
                L2Error::TooShort => buf@.len() < 2,
                L2Error::InvalidChannel(v) => buf@.len() >= 2 && v == buf@[0]
                    && spec_channel_of_code(v) is None,
                L2Error::InvalidOpCode(v) => buf@.len() >= 2 && v == buf@[1]
                    && spec_channel_of_code(buf@[0]) is Some && spec_opcode_of_code(v) is None,
                L2Error::DecryptFailed => spec_l2_parse(buf@) matches Some(parsed) && parsed.1
                    == L2OpCode::WriteEnc && cipher is Some,
                _ => false,
            },
            spec_l2_parse(buf@) matches Some(parsed) && !(parsed.1 == L2OpCode::WriteEnc
                && cipher is Some) ==> r is Ok,
    {
        if buf.len() < 2 {
            return Err(L2Error::TooShort);
        }
        let ch = match L2Channel::try_from(buf[0]) {
            Ok(c) => c,
            Err(e) => {
                return Err(e);
            },
        };
        let op = match L2OpCode::try_from(buf[1]) {
            Ok(o) => o,
            Err(e) => {
                return Err(e);
            },
        };
        let body = vstd::slice::slice_subrange(buf, 2, buf.len());
        proof {
            assert(body@ =~= buf@.skip(2));
        }
        let payload: Vec<u8> = match (op, cipher) {
            (L2OpCode::WriteEnc, Some(c)) => match c.decrypt(body) {
                Ok(pt) => pt,
                Err(_) => {
                    return Err(L2Error::DecryptFailed);
                },
            },
            _ => vstd::slice::slice_to_vec(body),
        };
        Ok(Self { channel: ch, opcode: op, payload })
    }

    /// Wraps the serialized packet in a DATA frame with the given sequence
    /// and fast-receive flag.
    pub fn into_l1(self, seq: u8, frx: bool) -> (r: L1Packet)
        requires
            self.payload@.len() + 2 <= 0xFFFF,
        ensures
            r.pkt_type == L1DataType::Data,
            r.frx == frx,
            r.seq == seq,
            r.payload@ == spec_l2_bytes(self.channel, self.opcode, self.payload@),
            r.wf(),
    {
        let bytes = self.to_bytes();
        L1Packet::new(L1DataType::Data, frx, seq, bytes)
    }

    /// Parses the payload of a DATA frame as a channel packet; any other
    /// frame type fails.
    pub fn from_l1<C: L2Cipher>(l1: &L1Packet, cipher: Option<&C>) -> (r: Result<
        L2Packet,
        L2Error,
    >)
        ensures
            l1.pkt_type != L1DataType::Data ==> r == Result::<L2Packet, L2Error>::Err(
                L2Error::InvalidOpCode(0),
            ),
            l1.pkt_type == L1DataType::Data ==> {
                &&& (r matches Ok(p) ==> {
                    let parsed = spec_l2_parse(l1.payload@)->Some_0;
                    &&& spec_l2_parse(l1.payload@) is Some
                    &&& p.channel == parsed.0
                    &&& p.opcode == parsed.1
                    &&& p.payload@ == if p.opcode == L2OpCode::WriteEnc && cipher is Some {
                        cipher->Some_0.dec_spec(parsed.2)
                    } else {
                        parsed.2
                    }
                })
                &&& (spec_l2_parse(l1.payload@) matches Some(parsed) && !(parsed.1
                    == L2OpCode::WriteEnc && cipher is Some) ==> r is Ok)
            },
    {
        match l1.pkt_type {
            L1DataType::Data => L2Packet::from_bytes(l1.payload.as_slice(), cipher),
            _ => Err(L2Error::InvalidOpCode(0)),
        }
    }
}

impl L2Packet {
    /// Parses a channel packet with no cipher wired: the body is kept as
    /// it stands, ciphertext or not. Succeeds exactly where the header
    /// parses.
    pub fn from_bytes_plain(buf: &[u8]) -> (r: Result<L2Packet, L2Error>)
        ensures
            r is Ok <==> spec_l2_parse(buf@) is Some,
            r matches Ok(p) ==> {
                let parsed = spec_l2_parse(buf@)->Some_0;
                &&& p.channel == parsed.0
                &&& p.opcode == parsed.1
                &&& p.payload@ == parsed.2
            },
    {
        if buf.len() < 2 {
            return Err(L2Error::TooShort);
        }
        let ch = match L2Channel::try_from(buf[0]) {
            Ok(c) => c,
            Err(e) => {
                return Err(e);
            },
        };
        let op = match L2OpCode::try_from(buf[1]) {
            Ok(o) => o,
            Err(e) => {
                return Err(e);
            },
        };
        let body = vstd::slice::slice_subrange(buf, 2, buf.len());
        proof {
            assert(body@ =~= buf@.skip(2));
        }
        Ok(Self { channel: ch, opcode: op, payload: vstd::slice::slice_to_vec(body) })
    }

    /// Parses the payload of a DATA frame with no cipher wired; any
    /// other frame type fails.
    pub fn from_l1_plain(l1: &L1Packet) -> (r: Result<L2Packet, L2Error>)
        ensures
            l1.pkt_type != L1DataType::Data ==> r == Result::<L2Packet, L2Error>::Err(
                L2Error::InvalidOpCode(0),
            ),
            l1.pkt_type == L1DataType::Data ==> {
                &&& (r is Ok <==> spec_l2_parse(l1.payload@) is Some)
                &&& (r matches Ok(p) ==> {
                    let parsed = spec_l2_parse(l1.payload@)->Some_0;
                    &&& p.channel == parsed.0
                    &&& p.opcode == parsed.1
                    &&& p.payload@ == parsed.2
                })
            },
    {
        match l1.pkt_type {
            L1DataType::Data => L2Packet::from_bytes_plain(l1.payload.as_slice()),
            _ => Err(L2Error::InvalidOpCode(0)),
        }
    }
}

/// Round trip through the cipher: an encrypted write parses back to the
/// same channel, the encrypted-write operation, and — for a cipher whose
/// decryption undoes its encryption — the original payload. Without a
/// cipher the parsed body is the ciphertext itself.
pub proof fn lemma_l2_encrypted_round_trip<C: L2Cipher>(
    cipher: &C,
    channel: L2Channel,
    payload: Seq<u8>,
)
    requires
        cipher_inverts(cipher),
    ensures
        ({
            let bytes = spec_l2_bytes(channel, L2OpCode::WriteEnc, cipher.enc_spec(payload));
            &&& spec_l2_parse(bytes) == Some(
                (channel, L2OpCode::WriteEnc, cipher.enc_spec(payload)),
            )
            &&& cipher.dec_spec(cipher.enc_spec(payload)) == payload
        }),
{
    let ct = cipher.enc_spec(payload);
    let bytes = spec_l2_bytes(channel, L2OpCode::WriteEnc, ct);
    assert(bytes.len() == 2 + ct.len());
    assert(bytes[0] == spec_channel_code(channel));
    assert(bytes[1] == spec_opcode_code(L2OpCode::WriteEnc));
    assert(spec_channel_of_code(spec_channel_code(channel)) == Some(channel));
    assert(spec_opcode_of_code(spec_opcode_code(L2OpCode::WriteEnc)) == Some(L2OpCode::WriteEnc));
    assert(bytes.skip(2) =~= ct);
    assert(cipher.dec_spec(cipher.enc_spec(payload)) == payload);
}

/// Round trip in the plain case: a serialized packet parses back to the
/// same channel, operation and payload.
pub proof fn lemma_l2_round_trip(channel: L2Channel, opcode: L2OpCode, payload: Seq<u8>)
    ensures
        spec_l2_parse(spec_l2_bytes(channel, opcode, payload)) == Some(
            (channel, opcode, payload),
        ),
{
    let bytes = spec_l2_bytes(channel, opcode, payload);
    assert(bytes[0] == spec_channel_code(channel));
    assert(bytes[1] == spec_opcode_code(opcode));
    assert(spec_channel_of_code(spec_channel_code(channel)) == Some(channel));
    assert(spec_opcode_of_code(spec_opcode_code(opcode)) == Some(opcode));
    assert(bytes.skip(2) =~= payload);
}

} // verus!
