//! Command codec for the framing layer: a one-byte command code followed by
//! a TLV block (one-byte key, little-endian two-byte length, value) used to
//! negotiate window, MPS and send timeout.

use vstd::prelude::*;

use crate::endian::{push_u16_le, read_u16_le, spec_u16_from_le, spec_u16_le};

verus! {

pub const CONFIG_TYPE_VERSION: u8 = 0x01;

pub const CONFIG_TYPE_MPS: u8 = 0x02;

pub const CONFIG_TYPE_TX_WIN: u8 = 0x03;

pub const CONFIG_TYPE_SEND_TIMEOUT: u8 = 0x04;

pub const CONFIG_TYPE_DEVICE_TYPE: u8 = 0x05;

pub const CONFIG_TYPE_DEVICE_NAME: u8 = 0x06;

pub const CONFIG_TYPE_OS_VERSION: u8 = 0x07;

/// The command carried in the first payload byte.
#[derive(Debug, Clone, Copy, PartialEq, Eq, Structural)]
pub enum CmdCode {
    CmdL1startReq,
    CmdL1startRsp,
    CmdL1stopReq,
    CmdL1stopRsp,
    Unknown(u8),
}

/// The command named by a wire code; codes above 4 stay as they are.
pub open spec fn spec_cmd_from(v: u8) -> CmdCode {
    if v == 1 {
        CmdCode::CmdL1startReq
    } else if v == 2 {
        CmdCode::CmdL1startRsp
    } else if v == 3 {
        CmdCode::CmdL1stopReq
    } else if v == 4 {
        CmdCode::CmdL1stopRsp
    } else {
        CmdCode::Unknown(v)
    }
}

/// The wire code of a command.
pub open spec fn spec_cmd_code(c: CmdCode) -> u8 {
    match c {
        CmdCode::CmdL1startReq => 1,
        CmdCode::CmdL1startRsp => 2,
        CmdCode::CmdL1stopReq => 3,
        CmdCode::CmdL1stopRsp => 4,
        CmdCode::Unknown(v) => v,
    }
}

impl CmdCode {
    /// The command named by a wire code.
    pub fn from_u8(v: u8) -> (r: CmdCode)
        ensures
            r == spec_cmd_from(v),
    {
        match v {
            1 => CmdCode::CmdL1startReq,
            2 => CmdCode::CmdL1startRsp,
            3 => CmdCode::CmdL1stopReq,
            4 => CmdCode::CmdL1stopRsp,
            other => CmdCode::Unknown(other),
        }
    }

    /// The wire code of this command.
    pub fn as_u8(&self) -> (v: u8)
        ensures
            v == spec_cmd_code(*self),
    {
        match *self {
            CmdCode::CmdL1startReq => 1,
            CmdCode::CmdL1startRsp => 2,
            CmdCode::CmdL1stopReq => 3,
            CmdCode::CmdL1stopRsp => 4,
            CmdCode::Unknown(v) => v,
        }
    }
}

/// The value bound to a key in an association list, searching from the
/// front.
pub open spec fn spec_assoc_get(s: Seq<(u8, Seq<u8>)>, k: u8) -> Option<Seq<u8>>
    decreases s.len(),
{
    if s.len() == 0 {
        None
    } else if s[0].0 == k {
        Some(s[0].1)
    } else {
        spec_assoc_get(s.skip(1), k)
    }
}

/// Binding a key in an association list: the value is replaced in place
/// where the key occurs first, else the pair is appended.
pub open spec fn spec_assoc_set(s: Seq<(u8, Seq<u8>)>, k: u8, v: Seq<u8>) -> Seq<(u8, Seq<u8>)>
    decreases s.len(),
{
    if s.len() == 0 {
        seq![(k, v)]
    } else if s[0].0 == k {
        seq![(k, v)] + s.skip(1)
    } else {
        seq![s[0]] + spec_assoc_set(s.skip(1), k, v)
    }
}

/// The TLV block parse, folding entries into an accumulator from front to
/// back; a later entry for a key replaces the earlier value. Parsing stops
/// before an entry whose header or declared value runs past the end.
pub open spec fn spec_tlv_parse_acc(bytes: Seq<u8>, acc: Seq<(u8, Seq<u8>)>) -> Seq<(u8, Seq<u8>)>
    decreases bytes.len(),
{
    if bytes.len() < 3 {
        acc
    } else {
        let k = bytes[0];
        let sz = spec_u16_from_le(bytes.subrange(1, 3)) as int;
        if 3 + sz > bytes.len() {
            acc
        } else {
            spec_tlv_parse_acc(bytes.skip(3 + sz), spec_assoc_set(acc, k, bytes.subrange(3, 3 + sz)))
        }
    }
}

/// A command packet: the command code and its TLV configuration.
#[derive(Debug, Clone)]
pub struct L1CmdPacket {
    pub cmd: CmdCode,
    pub config: Vec<(u8, Vec<u8>)>,
}

/// The configuration as an association list over byte strings.
pub open spec fn spec_config_view(config: Seq<(u8, Vec<u8>)>) -> Seq<(u8, Seq<u8>)> {
    config.map_values(|e: (u8, Vec<u8>)| (e.0, e.1@))
}

/// The serialized TLV block: key, two-byte little-endian value length,
/// value, in entry order.
pub open spec fn spec_tlv_bytes(s: Seq<(u8, Seq<u8>)>) -> Seq<u8>
    decreases s.len(),
{
    if s.len() == 0 {
        Seq::<u8>::empty()
    } else {
        seq![s[0].0] + spec_u16_le(s[0].1.len() as u16) + s[0].1 + spec_tlv_bytes(s.skip(1))
    }
}

proof fn lemma_assoc_set_at(s: Seq<(u8, Seq<u8>)>, k: u8, v: Seq<u8>, i: int)
    requires
        0 <= i < s.len(),
        s[i].0 == k,
        forall|j: int| 0 <= j < i ==> (#[trigger] s[j]).0 != k,
    ensures
        spec_assoc_set(s, k, v) == s.update(i, (k, v)),
    decreases s.len(),
{
    if i == 0 {
        assert(spec_assoc_set(s, k, v) =~= s.update(0, (k, v)));
    } else {
        assert(s[0].0 != k);
        lemma_assoc_set_at(s.skip(1), k, v, i - 1);
        assert(spec_assoc_set(s, k, v) =~= s.update(i, (k, v)));
    }
}

pub proof fn lemma_assoc_set_absent(s: Seq<(u8, Seq<u8>)>, k: u8, v: Seq<u8>)
    requires
        forall|j: int| 0 <= j < s.len() ==> (#[trigger] s[j]).0 != k,
    ensures
        spec_assoc_set(s, k, v) == s.push((k, v)),
    decreases s.len(),
{
    if s.len() == 0 {
        assert(spec_assoc_set(s, k, v) =~= s.push((k, v)));
    } else {
        lemma_assoc_set_absent(s.skip(1), k, v);
        assert(spec_assoc_set(s, k, v) =~= s.push((k, v)));
    }
}

/// Binds a key in the configuration, replacing in place or appending.
fn config_set(config: &mut Vec<(u8, Vec<u8>)>, key: u8, value: Vec<u8>)
    ensures
        spec_config_view(final(config)@) == spec_assoc_set(
            spec_config_view(old(config)@),
            key,
            value@,
        ),
{
    let ghost s = spec_config_view(config@);
    let n = config.len();
    let mut i: usize = 0;
    while i < n
        invariant
            n == config@.len(),
            i <= n,
            s == spec_config_view(config@),
            s == spec_config_view(old(config)@),
            forall|j: int| 0 <= j < i ==> (#[trigger] s[j]).0 != key,
        decreases n - i,
    {
        proof {
            assert(s[i as int] == (config@[i as int].0, config@[i as int].1@));
        }
        if config[i].0 == key {
            let ghost pre = config@;
            config.set(i, (key, value));
            proof {
                lemma_assoc_set_at(s, key, value@, i as int);
                assert(config@ == pre.update(i as int, (key, value)));
                assert forall|j: int| 0 <= j < config@.len() implies spec_config_view(config@)[j]
                    == s.update(i as int, (key, value@))[j] by {
                    assert(spec_config_view(config@)[j] == (config@[j].0, config@[j].1@));
                    if j != i {
                        assert(config@[j] == pre[j]);
                        assert(s[j] == (pre[j].0, pre[j].1@));
                    }
                }
                assert(spec_config_view(config@) =~= s.update(i as int, (key, value@)));
            }
            return;
        }
        i = i + 1;
    }
    config.push((key, value));
    proof {
        lemma_assoc_set_absent(s, key, value@);
        assert forall|j: int| 0 <= j < config@.len() implies spec_config_view(config@)[j] == s.push(
            (key, value@),
        )[j] by {
            assert(spec_config_view(config@)[j] == (config@[j].0, config@[j].1@));
            if j < config@.len() - 1 {
                assert(s[j] == (old(config)@[j].0, old(config)@[j].1@));
            }
        }
        assert(spec_config_view(config@) =~= s.push((key, value@)));
    }
}

/// Step-by-step construction of a command packet.
pub struct L1CmdBuilder {
    cmd: Option<CmdCode>,
    config: Vec<(u8, Vec<u8>)>,
}

impl L1CmdBuilder {
    /// The chosen command, if one was set.
    pub closed spec fn spec_cmd(&self) -> Option<CmdCode> {
        self.cmd
    }

    /// The configuration gathered so far.
    pub closed spec fn spec_config(&self) -> Seq<(u8, Seq<u8>)> {
        spec_config_view(self.config@)
    }

    /// An empty builder: no command, no configuration.
    pub fn new() -> (r: L1CmdBuilder)
        ensures
            r.spec_cmd() is None,
            r.spec_config() == Seq::<(u8, Seq<u8>)>::empty(),
    {
        let r = Self { cmd: None, config: Vec::new() };
        proof {
            assert(r.spec_config() =~= Seq::<(u8, Seq<u8>)>::empty());
        }
        r
    }

    /// Chooses the command.
    pub fn cmd(self, cmd: CmdCode) -> (r: L1CmdBuilder)
        ensures
            r.spec_cmd() == Some(cmd),
            r.spec_config() == self.spec_config(),
    {
        Self { cmd: Some(cmd), config: self.config }
    }

    /// Sets the three-byte protocol version entry.
    pub fn version(self, major: u8, minor: u8, patch: u8) -> (r: L1CmdBuilder)
        ensures
            r.spec_cmd() == self.spec_cmd(),
            r.spec_config() == spec_assoc_set(
                self.spec_config(),
                CONFIG_TYPE_VERSION,
                seq![major, minor, patch],
            ),
    {
        let mut config = self.config;
        let mut value: Vec<u8> = Vec::new();
        value.push(major);
        value.push(minor);
        value.push(patch);
        proof {
            assert(value@ =~= seq![major, minor, patch]);
        }
        config_set(&mut config, CONFIG_TYPE_VERSION, value);
        Self { cmd: self.cmd, config }
    }

    /// Sets the two-byte little-endian maximum packet size entry.
    pub fn mps(self, mps: u16) -> (r: L1CmdBuilder)
        ensures
            r.spec_cmd() == self.spec_cmd(),
            r.spec_config() == spec_assoc_set(self.spec_config(), CONFIG_TYPE_MPS, spec_u16_le(mps)),
    {
        let mut config = self.config;
        let mut value: Vec<u8> = Vec::new();
        push_u16_le(&mut value, mps);
        proof {
            assert(value@ =~= spec_u16_le(mps));
        }
        config_set(&mut config, CONFIG_TYPE_MPS, value);
        Self { cmd: self.cmd, config }
    }

    /// Sets the two-byte little-endian proposed window entry.
    pub fn tx_win(self, win: u16) -> (r: L1CmdBuilder)
        ensures
            r.spec_cmd() == self.spec_cmd(),
            r.spec_config() == spec_assoc_set(
                self.spec_config(),
                CONFIG_TYPE_TX_WIN,
                spec_u16_le(win),
            ),
    {
        let mut config = self.config;
        let mut value: Vec<u8> = Vec::new();
        push_u16_le(&mut value, win);
        proof {
            assert(value@ =~= spec_u16_le(win));
        }
        config_set(&mut config, CONFIG_TYPE_TX_WIN, value);
        Self { cmd: self.cmd, config }
    }

    /// Sets the two-byte little-endian proposed send-timeout entry, in
    /// milliseconds.
    pub fn send_timeout(self, timeout_ms: u16) -> (r: L1CmdBuilder)
        ensures
            r.spec_cmd() == self.spec_cmd(),
            r.spec_config() == spec_assoc_set(
                self.spec_config(),
                CONFIG_TYPE_SEND_TIMEOUT,
                spec_u16_le(timeout_ms),
            ),
    {
        let mut config = self.config;
        let mut value: Vec<u8> = Vec::new();
        push_u16_le(&mut value, timeout_ms);
        proof {
            assert(value@ =~= spec_u16_le(timeout_ms));
        }
        config_set(&mut config, CONFIG_TYPE_SEND_TIMEOUT, value);
        Self { cmd: self.cmd, config }
    }

    /// Sets the one-byte device type entry.
    pub fn device_type(self, dev_type: u8) -> (r: L1CmdBuilder)
        ensures
            r.spec_cmd() == self.spec_cmd(),
            r.spec_config() == spec_assoc_set(
                self.spec_config(),
                CONFIG_TYPE_DEVICE_TYPE,
                seq![dev_type],
            ),
    {
        let mut config = self.config;
        let mut value: Vec<u8> = Vec::new();
        value.push(dev_type);
        proof {
            assert(value@ =~= seq![dev_type]);
        }
        config_set(&mut config, CONFIG_TYPE_DEVICE_TYPE, value);
        Self { cmd: self.cmd, config }
    }

    /// Sets the device name entry to the given bytes.
    pub fn device_name(self, name: &[u8]) -> (r: L1CmdBuilder)
        ensures
            r.spec_cmd() == self.spec_cmd(),
            r.spec_config() == spec_assoc_set(self.spec_config(), CONFIG_TYPE_DEVICE_NAME, name@),
    {
        let mut config = self.config;
        let value = vstd::slice::slice_to_vec(name);
        config_set(&mut config, CONFIG_TYPE_DEVICE_NAME, value);
        Self { cmd: self.cmd, config }
    }

    /// Sets the three-byte host OS version entry.
    pub fn os_version(self, major: u8, minor: u8, patch: u8) -> (r: L1CmdBuilder)
        ensures
            r.spec_cmd() == self.spec_cmd(),
            r.spec_config() == spec_assoc_set(
                self.spec_config(),
                CONFIG_TYPE_OS_VERSION,
                seq![major, minor, patch],
            ),
    {
        let mut config = self.config;
        let mut value: Vec<u8> = Vec::new();
        value.push(major);
        value.push(minor);
        value.push(patch);
        proof {
            assert(value@ =~= seq![major, minor, patch]);
        }
        config_set(&mut config, CONFIG_TYPE_OS_VERSION, value);
        Self { cmd: self.cmd, config }
    }

    /// Finishes the packet; `None` exactly when no command was chosen.
    pub fn build(self) -> (r: Option<L1CmdPacket>)
        ensures
            r is Some <==> self.spec_cmd() is Some,
            r matches Some(p) ==> Some(p.cmd) == self.spec_cmd() && spec_config_view(p.config@)
                == self.spec_config(),
    {
        match self.cmd {
            Some(cmd) => Some(L1CmdPacket { cmd, config: self.config }),
            None => None,
        }
    }
}

impl L1CmdPacket {
    /// The configuration as an association list.
    pub open spec fn spec_config(&self) -> Seq<(u8, Seq<u8>)> {
        spec_config_view(self.config@)
    }

    /// Serializes the packet: the command code, then the TLV block in
    /// entry order.
    pub fn to_payload_bytes(&self) -> (r: Vec<u8>)
        requires
            forall|j: int|
                0 <= j < self.config@.len() ==> (#[trigger] self.config@[j]).1@.len() <= 0xFFFF,
        ensures
            r@ == seq![spec_cmd_code(self.cmd)] + spec_tlv_bytes(self.spec_config()),
    {
        let mut payload: Vec<u8> = Vec::new();
        payload.push(self.cmd.as_u8());
        let n = self.config.len();
        let mut i: usize = 0;
        while i < n
            invariant
                n == self.config@.len(),
                i <= n,
                forall|j: int|
                    0 <= j < self.config@.len() ==> (#[trigger] self.config@[j]).1@.len() <= 0xFFFF,
                payload@ == seq![spec_cmd_code(self.cmd)] + spec_tlv_bytes(
                    spec_config_view(self.config@).take(i as int),
                ),
            decreases n - i,
        {
            let key = self.config[i].0;
            payload.push(key);
            let value_len = self.config[i].1.len() as u16;
            push_u16_le(&mut payload, value_len);
            let mut j: usize = 0;
            let value_n = self.config[i].1.len();
            while j < value_n
                invariant
                    n == self.config@.len(),
                    i < n,
                    value_n == self.config@[i as int].1@.len(),
                    value_n <= 0xFFFF,
                    j <= value_n,
                    key == self.config@[i as int].0,
                    payload@ == seq![spec_cmd_code(self.cmd)] + spec_tlv_bytes(
                        spec_config_view(self.config@).take(i as int),
                    ) + seq![key] + spec_u16_le(value_n as u16) + self.config@[i as int].1@.take(
                        j as int,
                    ),
                decreases value_n - j,
            {
                payload.push(self.config[i].1[j]);
                proof {
                    assert(self.config@[i as int].1@.take(j + 1 as int)
                        =~= self.config@[i as int].1@.take(j as int).push(
                        self.config@[i as int].1@[j as int],
                    ));
                    assert(payload@ =~= seq![spec_cmd_code(self.cmd)] + spec_tlv_bytes(
                        spec_config_view(self.config@).take(i as int),
                    ) + seq![key] + spec_u16_le(value_n as u16) + self.config@[i as int].1@.take(
                        j + 1 as int,
                    ));
                }
                j = j + 1;
            }
            proof {
                let view = spec_config_view(self.config@);
                assert(self.config@[i as int].1@.take(value_n as int)
                    =~= self.config@[i as int].1@);
                lemma_tlv_bytes_snoc(view.take(i as int), view[i as int]);
                assert(view.take(i + 1 as int) =~= view.take(i as int).push(view[i as int]));
                assert(payload@ =~= seq![spec_cmd_code(self.cmd)] + spec_tlv_bytes(
                    view.take(i + 1 as int),
                ));
            }
            i = i + 1;
        }
        proof {
            assert(spec_config_view(self.config@).take(n as int) =~= spec_config_view(
                self.config@,
            ));
        }
        payload
    }

    /// Parses a command packet: the first byte is the command, the rest a
    /// TLV block folded front to back. Fails exactly on an empty payload.
    pub fn from_payload_bytes(payload: &[u8]) -> (r: Option<L1CmdPacket>)
        ensures
            r is Some <==> payload@.len() >= 1,
            r matches Some(p) ==> p.cmd == spec_cmd_from(payload@[0]) && spec_config_view(
                p.config@,
            ) == spec_tlv_parse_acc(payload@.skip(1), Seq::<(u8, Seq<u8>)>::empty()),
    {
        if payload.len() == 0 {
            return None;
        }
        let cmd = CmdCode::from_u8(payload[0]);
        let mut config: Vec<(u8, Vec<u8>)> = Vec::new();
        let mut i: usize = 1;
        proof {
            assert(spec_config_view(config@) =~= Seq::<(u8, Seq<u8>)>::empty());
            assert(payload@.skip(1) =~= payload@.skip(i as int));
        }
        let mut stopped = false;
        while !stopped && payload.len() - i >= 3
            invariant
                1 <= i <= payload@.len(),
                spec_tlv_parse_acc(payload@.skip(i as int), spec_config_view(config@))
                    == spec_tlv_parse_acc(payload@.skip(1), Seq::<(u8, Seq<u8>)>::empty()),
                stopped ==> spec_tlv_parse_acc(payload@.skip(i as int), spec_config_view(config@))
                    == spec_config_view(config@),
            decreases payload@.len() - i, (if stopped { 0int } else { 1int }),
        {
            let key = payload[i];
            let value_size = read_u16_le(payload, i + 1) as usize;
            let ghost rest = payload@.skip(i as int);
            proof {
                assert(rest[0] == payload@[i as int]);
                assert(rest.subrange(1, 3) =~= payload@.subrange(i + 1, i + 3));
            }
            if value_size > payload.len() - (i + 3) {
                proof {
                    assert(3 + spec_u16_from_le(rest.subrange(1, 3)) > rest.len());
                }
                stopped = true;
            } else {
                let value = vstd::slice::slice_subrange(payload, i + 3, i + 3 + value_size);
                let value_vec = vstd::slice::slice_to_vec(value);
                config_set(&mut config, key, value_vec);
                proof {
                    let sz = spec_u16_from_le(rest.subrange(1, 3)) as int;
                    assert(sz == value_size);
                    assert(rest.subrange(3, 3 + sz) =~= payload@.subrange(
                        i + 3,
                        i + 3 + value_size,
                    ));
                    assert(rest.skip(3 + sz) =~= payload@.skip(i + 3 + value_size));
                }
                i = i + 3 + value_size;
            }
        }
        proof {
            assert(payload@.skip(i as int).len() < 3 ==> spec_tlv_parse_acc(
                payload@.skip(i as int),
                spec_config_view(config@),
            ) == spec_config_view(config@));
        }
        Some(L1CmdPacket { cmd, config })
    }

    /// The three-byte version entry, if present with that length.
    pub fn get_version(&self) -> (r: Option<(u8, u8, u8)>)
        ensures
            r is Some <==> (spec_assoc_get(self.spec_config(), CONFIG_TYPE_VERSION) matches Some(v)
                && v.len() == 3),
            r matches Some(t) ==> {
                let v = spec_assoc_get(self.spec_config(), CONFIG_TYPE_VERSION)->Some_0;
                t.0 == v[0] && t.1 == v[1] && t.2 == v[2]
            },
    {
        match self.config_get(CONFIG_TYPE_VERSION) {
            Some(v) => if v.len() == 3 {
                Some((v[0], v[1], v[2]))
            } else {
                None
            },
            None => None,
        }
    }

    /// The two-byte little-endian MPS entry, if present with that length.
    pub fn get_mps(&self) -> (r: Option<u16>)
        ensures
            r is Some <==> (spec_assoc_get(self.spec_config(), CONFIG_TYPE_MPS) matches Some(v)
                && v.len() == 2),
            r matches Some(x) ==> x == spec_u16_from_le(
                spec_assoc_get(self.spec_config(), CONFIG_TYPE_MPS)->Some_0,
            ),
    {
        match self.config_get(CONFIG_TYPE_MPS) {
            Some(v) => if v.len() == 2 {
                Some(read_u16_le(v, 0))
            } else {
                None
            },
            None => None,
        }
    }

    /// The two-byte little-endian window entry, if present with that
    /// length.
    pub fn get_tx_win(&self) -> (r: Option<u16>)
        ensures
            r is Some <==> (spec_assoc_get(self.spec_config(), CONFIG_TYPE_TX_WIN) matches Some(v)
                && v.len() == 2),
            r matches Some(x) ==> x == spec_u16_from_le(
                spec_assoc_get(self.spec_config(), CONFIG_TYPE_TX_WIN)->Some_0,
            ),
    {
        match self.config_get(CONFIG_TYPE_TX_WIN) {
            Some(v) => if v.len() == 2 {
                Some(read_u16_le(v, 0))
            } else {
                None
            },
            None => None,
        }
    }

    /// The two-byte little-endian send-timeout entry, if present with that
    /// length.
    pub fn get_send_timeout(&self) -> (r: Option<u16>)
        ensures
            r is Some <==> (spec_assoc_get(self.spec_config(), CONFIG_TYPE_SEND_TIMEOUT)
                matches Some(v) && v.len() == 2),
            r matches Some(x) ==> x == spec_u16_from_le(
                spec_assoc_get(self.spec_config(), CONFIG_TYPE_SEND_TIMEOUT)->Some_0,
            ),
    {
        match self.config_get(CONFIG_TYPE_SEND_TIMEOUT) {
            Some(v) => if v.len() == 2 {
                Some(read_u16_le(v, 0))
            } else {
                None
            },
            None => None,
        }
    }

    /// The first byte of the device type entry, if present and non-empty.
    pub fn get_device_type(&self) -> (r: Option<u8>)
        ensures
            r is Some <==> (spec_assoc_get(self.spec_config(), CONFIG_TYPE_DEVICE_TYPE)
                matches Some(v) && v.len() >= 1),
            r matches Some(x) ==> x == spec_assoc_get(
                self.spec_config(),
                CONFIG_TYPE_DEVICE_TYPE,
            )->Some_0[0],
    {
        match self.config_get(CONFIG_TYPE_DEVICE_TYPE) {
            Some(v) => if v.len() >= 1 {
                Some(v[0])
            } else {
                None
            },
            None => None,
        }
    }

    /// The device name entry's bytes, if present.
    pub fn get_device_name(&self) -> (r: Option<Vec<u8>>)
        ensures
            r is Some <==> spec_assoc_get(self.spec_config(), CONFIG_TYPE_DEVICE_NAME) is Some,
            r matches Some(v) ==> Some(v@) == spec_assoc_get(
                self.spec_config(),
                CONFIG_TYPE_DEVICE_NAME,
            ),
    {
        match self.config_get(CONFIG_TYPE_DEVICE_NAME) {
            Some(v) => Some(vstd::slice::slice_to_vec(v)),
            None => None,
        }
    }

    /// The three-byte host OS version entry, if present with that length.
    pub fn get_os_version(&self) -> (r: Option<(u8, u8, u8)>)
        ensures
            r is Some <==> (spec_assoc_get(self.spec_config(), CONFIG_TYPE_OS_VERSION)
                matches Some(v) && v.len() == 3),
            r matches Some(t) ==> {
                let v = spec_assoc_get(self.spec_config(), CONFIG_TYPE_OS_VERSION)->Some_0;
                t.0 == v[0] && t.1 == v[1] && t.2 == v[2]
            },
    {
        match self.config_get(CONFIG_TYPE_OS_VERSION) {
            Some(v) => if v.len() == 3 {
                Some((v[0], v[1], v[2]))
            } else {
                None
            },
            None => None,
        }
    }

    /// The value bound to a configuration key, searching from the front.
    fn config_get(&self, key: u8) -> (r: Option<&Vec<u8>>)
        ensures
            r is Some <==> spec_assoc_get(self.spec_config(), key) is Some,
            r matches Some(v) ==> Some(v@) == spec_assoc_get(self.spec_config(), key),
    {
        let n = self.config.len();
        let mut i: usize = 0;
        proof {
            assert(self.spec_config().skip(0) =~= self.spec_config());
        }
        while i < n
            invariant
                n == self.config@.len(),
                i <= n,
                spec_assoc_get(self.spec_config().skip(i as int), key) == spec_assoc_get(
                    self.spec_config(),
                    key,
                ),
        decreases n - i,
        {
            proof {
                let s = self.spec_config().skip(i as int);
                assert(s[0] == self.spec_config()[i as int]);
                assert(self.spec_config()[i as int] == (
                    self.config@[i as int].0,
                    self.config@[i as int].1@,
                ));
                assert(s.skip(1) =~= self.spec_config().skip(i + 1 as int));
            }
            if self.config[i].0 == key {
                return Some(&self.config[i].1);
            }
            i = i + 1;
        }
        proof {
            assert(self.spec_config().skip(n as int).len() == 0);
        }
        None
    }
}

/// The TLV block of a configuration whose values are each at most `cap`
/// bytes takes at most `(3 + cap)` bytes per entry.
pub proof fn lemma_tlv_bytes_len_bound(s: Seq<(u8, Seq<u8>)>, cap: int)
    requires
        forall|j: int| 0 <= j < s.len() ==> (#[trigger] s[j]).1.len() <= cap,
        cap >= 0,
    ensures
        spec_tlv_bytes(s).len() <= s.len() * (3 + cap),
    decreases s.len(),
{
    if s.len() == 0 {
    } else {
        assert(forall|j: int|
            0 <= j < s.skip(1).len() ==> (#[trigger] s.skip(1)[j]).1.len() <= cap) by {
            assert(forall|j: int|
                0 <= j < s.skip(1).len() ==> #[trigger] s.skip(1)[j] == s[j + 1]);
        }
        lemma_tlv_bytes_len_bound(s.skip(1), cap);
        assert(s.len() * (3 + cap) == (3 + cap) + (s.len() - 1) * (3 + cap))
            by (nonlinear_arith);
    }
}

/// Whether no two entries bind the same key.
pub open spec fn spec_keys_distinct(s: Seq<(u8, Seq<u8>)>) -> bool {
    forall|i: int, j: int|
        0 <= i < j < s.len() ==> (#[trigger] s[i]).0 != (#[trigger] s[j]).0
}

proof fn lemma_tlv_round_trip_general(config: Seq<(u8, Seq<u8>)>, acc: Seq<(u8, Seq<u8>)>)
    requires
        forall|i: int| 0 <= i < config.len() ==> (#[trigger] config[i]).1.len() <= 0xFFFF,
        spec_keys_distinct(config),
        forall|i: int, j: int|
            0 <= i < acc.len() && 0 <= j < config.len() ==> (#[trigger] acc[i]).0 != (
            #[trigger] config[j]).0,
    ensures
        spec_tlv_parse_acc(spec_tlv_bytes(config), acc) == acc + config,
    decreases config.len(),
{
    let bytes = spec_tlv_bytes(config);
    if config.len() == 0 {
        assert(bytes.len() == 0);
        assert(spec_tlv_parse_acc(bytes, acc) == acc);
        assert(acc + config =~= acc);
    } else {
        let e = config[0];
        let rest = config.skip(1);
        let entry = seq![e.0] + spec_u16_le(e.1.len() as u16) + e.1;
        assert(bytes =~= entry + spec_tlv_bytes(rest));
        assert(bytes.len() >= 3 + e.1.len());
        assert(bytes[0] == e.0);
        assert(bytes.subrange(1, 3) =~= spec_u16_le(e.1.len() as u16));
        crate::endian::lemma_u16_le_round_trip(e.1.len() as u16);
        let sz = spec_u16_from_le(bytes.subrange(1, 3)) as int;
        assert(sz == e.1.len());
        assert(bytes.subrange(3, 3 + sz) =~= e.1);
        assert(bytes.skip(3 + sz) =~= spec_tlv_bytes(rest));
        assert(spec_tlv_parse_acc(bytes, acc) == spec_tlv_parse_acc(
            spec_tlv_bytes(rest),
            spec_assoc_set(acc, e.0, e.1),
        ));
        assert(forall|i: int| 0 <= i < acc.len() ==> (#[trigger] acc[i]).0 != e.0);
        lemma_assoc_set_absent(acc, e.0, e.1);
        let acc2 = acc.push((e.0, e.1));
        assert(forall|i: int|
            0 <= i < rest.len() ==> #[trigger] rest[i] == config[i + 1]);
        assert(forall|i: int| 0 <= i < rest.len() ==> (#[trigger] rest[i]).1.len() <= 0xFFFF);
        assert(spec_keys_distinct(rest));
        assert forall|i: int, j: int|
            0 <= i < acc2.len() && 0 <= j < rest.len() implies (#[trigger] acc2[i]).0 != (
        #[trigger] rest[j]).0 by {
            if i < acc.len() {
                assert(acc2[i] == acc[i]);
            } else {
                assert(acc2[i] == (e.0, e.1));
                assert(config[0].0 != config[j + 1].0);
            }
        }
        lemma_tlv_round_trip_general(rest, acc2);
        assert(acc2 + rest =~= acc + config);
    }
}

/// Round trip: parsing a serialized TLV block recovers the
/// configuration exactly, wherever no key is bound twice and each value
/// fits its length field. A command packet's payload therefore carries
/// its configuration faithfully.
pub proof fn lemma_tlv_round_trip(config: Seq<(u8, Seq<u8>)>)
    requires
        forall|i: int| 0 <= i < config.len() ==> (#[trigger] config[i]).1.len() <= 0xFFFF,
        spec_keys_distinct(config),
    ensures
        spec_tlv_parse_acc(spec_tlv_bytes(config), Seq::<(u8, Seq<u8>)>::empty()) == config,
{
    lemma_tlv_round_trip_general(config, Seq::<(u8, Seq<u8>)>::empty());
    assert(Seq::<(u8, Seq<u8>)>::empty() + config =~= config);
}

proof fn lemma_tlv_bytes_snoc(s: Seq<(u8, Seq<u8>)>, e: (u8, Seq<u8>))
    ensures
        spec_tlv_bytes(s.push(e)) == spec_tlv_bytes(s) + seq![e.0] + spec_u16_le(e.1.len() as u16)
            + e.1,
    decreases s.len(),
{
    if s.len() == 0 {
        assert(s.push(e)[0] == e);
        assert(s.push(e).skip(1) =~= Seq::<(u8, Seq<u8>)>::empty());
        assert(spec_tlv_bytes(s.push(e).skip(1)) == Seq::<u8>::empty());
        assert(spec_tlv_bytes(s.push(e)) =~= spec_tlv_bytes(s) + seq![e.0] + spec_u16_le(
            e.1.len() as u16,
        ) + e.1);
    } else {
        assert(s.push(e)[0] == s[0]);
        assert(s.push(e).skip(1) =~= s.skip(1).push(e));
        lemma_tlv_bytes_snoc(s.skip(1), e);
        assert(spec_tlv_bytes(s.push(e)) =~= spec_tlv_bytes(s) + seq![e.0] + spec_u16_le(
            e.1.len() as u16,
        ) + e.1);
    }
}

} // verus!
