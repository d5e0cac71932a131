//! The process-wide cipher registry: per-device symmetric key material,
//! written once when authentication completes and read by whoever encodes
//! or decodes channel packets. The stream-cipher primitive itself is an
//! outside collaborator; the registry holds the 16-byte key pair it is
//! seeded with.

use vstd::prelude::*;

use crate::layer2::{spec_l2_bytes, L2Channel, L2Cipher, L2OpCode, L2Packet};
use crate::sar::SarController;

verus! {

/// A device's symmetric key material: one 16-byte key per direction,
/// used by the outside stream cipher as both key and initial counter
/// block.
pub struct V2L2Cipher {
    pub enc_key: Vec<u8>,
    pub dec_key: Vec<u8>,
}

impl V2L2Cipher {
    /// Both keys have the cipher's key length.
    pub open spec fn wf(&self) -> bool {
        self.enc_key@.len() == crate::CIPHER_KEY_LEN && self.dec_key@.len()
            == crate::CIPHER_KEY_LEN
    }

    /// Accepts a key pair; `None` exactly where either key has the wrong
    /// length.
    pub fn new(enc_key: Vec<u8>, dec_key: Vec<u8>) -> (r: Option<V2L2Cipher>)
        ensures
            r is Some <==> enc_key@.len() == crate::CIPHER_KEY_LEN && dec_key@.len()
                == crate::CIPHER_KEY_LEN,
            r matches Some(c) ==> c.enc_key@ == enc_key@ && c.dec_key@ == dec_key@ && c.wf(),
    {
        if enc_key.len() == crate::CIPHER_KEY_LEN && dec_key.len() == crate::CIPHER_KEY_LEN {
            Some(V2L2Cipher { enc_key, dec_key })
        } else {
            None
        }
    }
}

/// The registry's bindings as an association list from device identifier
/// characters to key pairs.
pub open spec fn spec_cipher_entries(s: Seq<(String, V2L2Cipher)>) -> Seq<
    (Seq<char>, (Seq<u8>, Seq<u8>)),
> {
    s.map_values(|e: (String, V2L2Cipher)| (e.0@, (e.1.enc_key@, e.1.dec_key@)))
}

/// The key pair bound to a device identifier, searching from the front.
pub open spec fn spec_cipher_get(s: Seq<(Seq<char>, (Seq<u8>, Seq<u8>))>, k: Seq<char>) -> Option<
    (Seq<u8>, Seq<u8>),
>
    decreases s.len(),
{
    if s.len() == 0 {
        None
    } else if s[0].0 == k {
        Some(s[0].1)
    } else {
        spec_cipher_get(s.skip(1), k)
    }
}

/// The per-device key store: written once per device after
/// authentication, read thereafter, and cleaned up on disconnect.
pub struct CipherRegistry {
    entries: Vec<(String, V2L2Cipher)>,
}

impl CipherRegistry {
    /// The bindings.
    pub closed spec fn view_entries(&self) -> Seq<(Seq<char>, (Seq<u8>, Seq<u8>))> {
        spec_cipher_entries(self.entries@)
    }

    /// Every stored key pair is well-formed.
    pub closed spec fn wf(&self) -> bool {
        forall|i: int| 0 <= i < self.entries@.len() ==> (#[trigger] self.entries@[i]).1.wf()
    }

    /// An empty registry.
    pub fn new() -> (r: CipherRegistry)
        ensures
            r.wf(),
            r.view_entries() == Seq::<(Seq<char>, (Seq<u8>, Seq<u8>))>::empty(),
    {
        let r = CipherRegistry { entries: Vec::new() };
        proof {
            assert(r.view_entries() =~= Seq::<(Seq<char>, (Seq<u8>, Seq<u8>))>::empty());
        }
        r
    }

    /// Binds a device to its key pair; an existing binding for the same
    /// device is replaced.
    pub fn register_l2_cipher(&mut self, device_id: String, cipher: V2L2Cipher)
        requires
            old(self).wf(),
            cipher.wf(),
        ensures
            final(self).wf(),
            spec_cipher_get(final(self).view_entries(), device_id@) == Some(
                (cipher.enc_key@, cipher.dec_key@),
            ),
            forall|k: Seq<char>|
                k != device_id@ ==> #[trigger] spec_cipher_get(final(self).view_entries(), k)
                    == spec_cipher_get(old(self).view_entries(), k),
    {
        let ghost pre = self.view_entries();
        let n = self.entries.len();
        let mut i: usize = 0;
        while i < n
            invariant
                self.wf(),
                n == self.entries@.len(),
                i <= n,
                cipher.wf(),
                pre == self.view_entries(),
                pre == old(self).view_entries(),
                forall|j: int| 0 <= j < i ==> (#[trigger] pre[j]).0 != device_id@,
            decreases n - i,
        {
            proof {
                assert(pre[i as int] == (
                    self.entries@[i as int].0@,
                    (self.entries@[i as int].1.enc_key@, self.entries@[i as int].1.dec_key@),
                ));
            }
            if crate::hexutil::str_eq(self.entries[i].0.as_str(), device_id.as_str()) {
                let ghost pre_vec = self.entries@;
                self.entries.set(i, (device_id, cipher));
                proof {
                    lemma_cipher_get_update(pre, i as int, pre_vec[i as int].0@, cipher.enc_key@,
                        cipher.dec_key@);
                    assert forall|j: int|
                        0 <= j < self.entries@.len() implies self.view_entries()[j] == pre.update(
                        i as int,
                        (pre[i as int].0, (cipher.enc_key@, cipher.dec_key@)),
                    )[j] by {
                        assert(self.view_entries()[j] == (
                            self.entries@[j].0@,
                            (self.entries@[j].1.enc_key@, self.entries@[j].1.dec_key@),
                        ));
                        if j != i {
                            assert(self.entries@[j] == pre_vec[j]);
                            assert(pre[j] == (
                                pre_vec[j].0@,
                                (pre_vec[j].1.enc_key@, pre_vec[j].1.dec_key@),
                            ));
                        }
                    }
                    assert(self.view_entries() =~= pre.update(
                        i as int,
                        (pre[i as int].0, (cipher.enc_key@, cipher.dec_key@)),
                    ));
                }
                return;
            }
            i = i + 1;
        }
        let ghost pre_vec = self.entries@;
        self.entries.push((device_id, cipher));
        proof {
            lemma_cipher_get_push(pre, device_id@, cipher.enc_key@, cipher.dec_key@);
            assert forall|j: int|
                0 <= j < self.entries@.len() implies self.view_entries()[j] == pre.push(
                (device_id@, (cipher.enc_key@, cipher.dec_key@)),
            )[j] by {
                assert(self.view_entries()[j] == (
                    self.entries@[j].0@,
                    (self.entries@[j].1.enc_key@, self.entries@[j].1.dec_key@),
                ));
                if j < self.entries@.len() - 1 {
                    assert(self.entries@[j] == pre_vec[j]);
                    assert(pre[j] == (pre_vec[j].0@, (pre_vec[j].1.enc_key@, pre_vec[j].1.dec_key@)));
                }
            }
            assert(self.view_entries() =~= pre.push(
                (device_id@, (cipher.enc_key@, cipher.dec_key@)),
            ));
        }
    }

    /// The key pair bound to a device, if any.
    pub fn get_l2_cipher(&self, device_id: &str) -> (r: Option<&V2L2Cipher>)
        requires
            self.wf(),
        ensures
            r is Some <==> spec_cipher_get(self.view_entries(), device_id@) is Some,
            r matches Some(c) ==> Some((c.enc_key@, c.dec_key@)) == spec_cipher_get(
                self.view_entries(),
                device_id@,
            ) && c.wf(),
    {
        let n = self.entries.len();
        let mut i: usize = 0;
        proof {
            assert(self.view_entries().skip(0) =~= self.view_entries());
        }
        while i < n
            invariant
                self.wf(),
                n == self.entries@.len(),
                i <= n,
                spec_cipher_get(self.view_entries().skip(i as int), device_id@)
                    == spec_cipher_get(self.view_entries(), device_id@),
            decreases n - i,
        {
            proof {
                let s = self.view_entries().skip(i as int);
                assert(s[0] == self.view_entries()[i as int]);
                assert(self.view_entries()[i as int] == (
                    self.entries@[i as int].0@,
                    (self.entries@[i as int].1.enc_key@, self.entries@[i as int].1.dec_key@),
                ));
                assert(s.skip(1) =~= self.view_entries().skip(i + 1 as int));
            }
            if crate::hexutil::str_eq(self.entries[i].0.as_str(), device_id) {
                return Some(&self.entries[i].1);
            }
            i = i + 1;
        }
        proof {
            assert(self.view_entries().skip(n as int).len() == 0);
        }
        None
    }

    /// Drops a device's binding on disconnect; other bindings stay.
    pub fn remove_l2_cipher(&mut self, device_id: &str)
        requires
            old(self).wf(),
        ensures
            final(self).wf(),
            spec_cipher_get(final(self).view_entries(), device_id@) is None,
            forall|k: Seq<char>|
                k != device_id@ ==> #[trigger] spec_cipher_get(final(self).view_entries(), k)
                    == spec_cipher_get(old(self).view_entries(), k),
    {
        let ghost pre = self.view_entries();
        let mut kept: Vec<(String, V2L2Cipher)> = Vec::new();
        loop
            invariant
                self.wf(),
                pre.len() >= self.view_entries().len(),
                self.view_entries() == pre.skip((pre.len() - self.view_entries().len()) as int),
                forall|i: int| 0 <= i < kept@.len() ==> (#[trigger] kept@[i]).1.wf(),
                forall|i: int| 0 <= i < kept@.len() ==> (#[trigger] kept@[i]).0@ != device_id@,
                spec_keep_ciphers(pre, device_id@) == spec_cipher_entries(kept@)
                    + spec_keep_ciphers(self.view_entries(), device_id@),
            ensures
                self.entries@.len() == 0,
                forall|i: int| 0 <= i < kept@.len() ==> (#[trigger] kept@[i]).1.wf(),
                forall|i: int| 0 <= i < kept@.len() ==> (#[trigger] kept@[i]).0@ != device_id@,
                spec_cipher_entries(kept@) == spec_keep_ciphers(pre, device_id@),
            decreases self.entries@.len(),
        {
            if self.entries.len() == 0 {
                proof {
                    assert(spec_keep_ciphers(self.view_entries(), device_id@) =~= Seq::<
                        (Seq<char>, (Seq<u8>, Seq<u8>)),
                    >::empty());
                    assert(spec_cipher_entries(kept@) + spec_keep_ciphers(
                        self.view_entries(),
                        device_id@,
                    ) =~= spec_cipher_entries(kept@));
                }
                break;
            }
            let ghost rest = self.view_entries();
            let ghost pre_vec = self.entries@;
            let e = self.entries.remove(0);
            proof {
                assert(pre.skip((pre.len() - rest.len()) as int)[0] == pre[(pre.len()
                    - rest.len()) as int]);
                assert forall|j: int|
                    0 <= j < self.entries@.len() implies #[trigger] self.view_entries()[j]
                    == rest[j + 1] by {
                    assert(self.view_entries()[j] == (
                        self.entries@[j].0@,
                        (self.entries@[j].1.enc_key@, self.entries@[j].1.dec_key@),
                    ));
                    assert(self.entries@[j] == pre_vec[j + 1]);
                    assert(rest[j + 1] == (
                        pre_vec[j + 1].0@,
                        (pre_vec[j + 1].1.enc_key@, pre_vec[j + 1].1.dec_key@),
                    ));
                }
                assert(self.view_entries() =~= rest.skip(1));
                assert(rest[0] == (e.0@, (e.1.enc_key@, e.1.dec_key@)));
            }
            if !crate::hexutil::str_eq(e.0.as_str(), device_id) {
                let ghost kept_pre = kept@;
                kept.push(e);
                proof {
                    assert(spec_cipher_entries(kept@) =~= spec_cipher_entries(kept_pre).push(
                        rest[0],
                    ));
                    assert(spec_keep_ciphers(rest, device_id@) =~= seq![rest[0]]
                        + spec_keep_ciphers(rest.skip(1), device_id@));
                    assert(spec_keep_ciphers(pre, device_id@) =~= spec_cipher_entries(kept@)
                        + spec_keep_ciphers(self.view_entries(), device_id@));
                }
            } else {
                proof {
                    assert(spec_keep_ciphers(rest, device_id@) == spec_keep_ciphers(
                        rest.skip(1),
                        device_id@,
                    ));
                }
            }
        }
        self.entries = kept;
        proof {
            assert forall|j: int|
                0 <= j < self.view_entries().len() implies (#[trigger] self.view_entries()[j]).0
                != device_id@ by {
                assert(self.view_entries()[j] == (
                    self.entries@[j].0@,
                    (self.entries@[j].1.enc_key@, self.entries@[j].1.dec_key@),
                ));
            }
            lemma_cipher_get_absent(self.view_entries(), device_id@);
            assert forall|k: Seq<char>| k != device_id@ implies #[trigger] spec_cipher_get(
                self.view_entries(),
                k,
            ) == spec_cipher_get(pre, k) by {
                lemma_cipher_get_keep(pre, device_id@, k);
            }
        }
    }
}

/// The bindings that survive removing a device identifier, in order.
pub open spec fn spec_keep_ciphers(
    s: Seq<(Seq<char>, (Seq<u8>, Seq<u8>))>,
    id: Seq<char>,
) -> Seq<(Seq<char>, (Seq<u8>, Seq<u8>))>
    decreases s.len(),
{
    if s.len() == 0 {
        s
    } else if s[0].0 == id {
        spec_keep_ciphers(s.skip(1), id)
    } else {
        seq![s[0]] + spec_keep_ciphers(s.skip(1), id)
    }
}

proof fn lemma_cipher_get_keep(
    s: Seq<(Seq<char>, (Seq<u8>, Seq<u8>))>,
    id: Seq<char>,
    k: Seq<char>,
)
    requires
        k != id,
    ensures
        spec_cipher_get(spec_keep_ciphers(s, id), k) == spec_cipher_get(s, k),
    decreases s.len(),
{
    if s.len() > 0 {
        lemma_cipher_get_keep(s.skip(1), id, k);
        if s[0].0 == id {
        } else {
            let kept = seq![s[0]] + spec_keep_ciphers(s.skip(1), id);
            assert(kept[0] == s[0]);
            assert(kept.skip(1) =~= spec_keep_ciphers(s.skip(1), id));
        }
    }
}

proof fn lemma_cipher_get_update(
    s: Seq<(Seq<char>, (Seq<u8>, Seq<u8>))>,
    i: int,
    k: Seq<char>,
    enc: Seq<u8>,
    dec: Seq<u8>,
)
    requires
        0 <= i < s.len(),
        s[i].0 == k,
        forall|j: int| 0 <= j < i ==> (#[trigger] s[j]).0 != k,
    ensures
        spec_cipher_get(s.update(i, (k, (enc, dec))), k) == Some((enc, dec)),
        forall|k2: Seq<char>|
            k2 != k ==> #[trigger] spec_cipher_get(s.update(i, (k, (enc, dec))), k2)
                == spec_cipher_get(s, k2),
    decreases s.len(),
{
    let u = s.update(i, (k, (enc, dec)));
    if i == 0 {
        assert(u[0] == (k, (enc, dec)));
        assert forall|k2: Seq<char>| k2 != k implies #[trigger] spec_cipher_get(u, k2)
            == spec_cipher_get(s, k2) by {
            assert(u.skip(1) =~= s.skip(1));
            assert(spec_cipher_get(u, k2) == spec_cipher_get(u.skip(1), k2));
            assert(spec_cipher_get(s, k2) == spec_cipher_get(s.skip(1), k2));
        }
    } else {
        lemma_cipher_get_update(s.skip(1), i - 1, k, enc, dec);
        assert(u[0] == s[0]);
        assert(u.skip(1) =~= s.skip(1).update(i - 1, (k, (enc, dec))));
        assert forall|k2: Seq<char>| k2 != k implies #[trigger] spec_cipher_get(u, k2)
            == spec_cipher_get(s, k2) by {
            if s[0].0 == k2 {
                assert(spec_cipher_get(u, k2) == Some(u[0].1));
                assert(spec_cipher_get(s, k2) == Some(s[0].1));
            } else {
                assert(spec_cipher_get(u, k2) == spec_cipher_get(u.skip(1), k2));
                assert(spec_cipher_get(s, k2) == spec_cipher_get(s.skip(1), k2));
            }
        }
        assert(spec_cipher_get(u, k) == spec_cipher_get(u.skip(1), k));
    }
}

proof fn lemma_cipher_get_push(
    s: Seq<(Seq<char>, (Seq<u8>, Seq<u8>))>,
    k: Seq<char>,
    enc: Seq<u8>,
    dec: Seq<u8>,
)
    requires
        forall|j: int| 0 <= j < s.len() ==> (#[trigger] s[j]).0 != k,
    ensures
        spec_cipher_get(s.push((k, (enc, dec))), k) == Some((enc, dec)),
        forall|k2: Seq<char>|
            k2 != k ==> #[trigger] spec_cipher_get(s.push((k, (enc, dec))), k2) == spec_cipher_get(
                s,
                k2,
            ),
    decreases s.len(),
{
    let u = s.push((k, (enc, dec)));
    if s.len() == 0 {
        assert(u[0] == (k, (enc, dec)));
        assert forall|k2: Seq<char>| k2 != k implies #[trigger] spec_cipher_get(u, k2)
            == spec_cipher_get(s, k2) by {
            assert(u.skip(1) =~= Seq::<(Seq<char>, (Seq<u8>, Seq<u8>))>::empty());
            assert(spec_cipher_get(u, k2) == spec_cipher_get(u.skip(1), k2));
            assert(spec_cipher_get(u.skip(1), k2) is None);
        }
    } else {
        lemma_cipher_get_push(s.skip(1), k, enc, dec);
        assert(u[0] == s[0]);
        assert(u.skip(1) =~= s.skip(1).push((k, (enc, dec))));
        assert forall|k2: Seq<char>| k2 != k implies #[trigger] spec_cipher_get(u, k2)
            == spec_cipher_get(s, k2) by {
            if s[0].0 == k2 {
                assert(spec_cipher_get(u, k2) == Some(u[0].1));
                assert(spec_cipher_get(s, k2) == Some(s[0].1));
            } else {
                assert(spec_cipher_get(u, k2) == spec_cipher_get(u.skip(1), k2));
                assert(spec_cipher_get(s, k2) == spec_cipher_get(s.skip(1), k2));
            }
        }
        assert(spec_cipher_get(u, k) == spec_cipher_get(u.skip(1), k));
    }
}

proof fn lemma_cipher_get_absent(s: Seq<(Seq<char>, (Seq<u8>, Seq<u8>))>, k: Seq<char>)
    requires
        forall|j: int| 0 <= j < s.len() ==> (#[trigger] s[j]).0 != k,
    ensures
        spec_cipher_get(s, k) is None,
    decreases s.len(),
{
    if s.len() > 0 {
        assert(forall|j: int|
            0 <= j < s.skip(1).len() ==> #[trigger] s.skip(1)[j] == s[j + 1]);
        lemma_cipher_get_absent(s.skip(1), k);
    }
}

/// Materializes a device's cipher binding lazily: where none is bound,
/// the reliable-layer version is the one with a cipher, and the
/// authenticated record holds two 16-byte keys, they are bound; true
/// exactly when a binding exists afterwards.
pub fn ensure_l2_cipher(
    registry: &mut CipherRegistry,
    device_id: &str,
    sar_version: u32,
    enc_key: &Vec<u8>,
    dec_key: &Vec<u8>,
) -> (bound: bool)
    requires
        old(registry).wf(),
    ensures
        final(registry).wf(),
        bound == spec_cipher_get(final(registry).view_entries(), device_id@) is Some,
        spec_cipher_get(old(registry).view_entries(), device_id@) is Some ==> *final(registry)
            == *old(registry) && bound,
        spec_cipher_get(old(registry).view_entries(), device_id@) is None && sar_version == 2
            && enc_key@.len() == 16 && dec_key@.len() == 16 ==> spec_cipher_get(
            final(registry).view_entries(),
            device_id@,
        ) == Some((enc_key@, dec_key@)),
        spec_cipher_get(old(registry).view_entries(), device_id@) is None && !(sar_version == 2
            && enc_key@.len() == 16 && dec_key@.len() == 16) ==> *final(registry) == *old(
            registry,
        ) && !bound,
{
    if registry.get_l2_cipher(device_id).is_some() {
        return true;
    }
    if sar_version != 2 {
        return false;
    }
    let enc = vstd::slice::slice_to_vec(enc_key.as_slice());
    let dec = vstd::slice::slice_to_vec(dec_key.as_slice());
    match V2L2Cipher::new(enc, dec) {
        Some(cipher) => {
            registry.register_l2_cipher(device_id.to_owned(), cipher);
            true
        },
        None => false,
    }
}

/// Encodes an outbound service payload as channel-layer bytes: an
/// encrypted write under the cipher where one is supplied and accepts
/// the payload, else a plain write — also the fallback when the cipher
/// rejects the payload.
pub fn encode_pb_packet<C: L2Cipher>(cipher: Option<&C>, pb_bytes: Vec<u8>) -> (r: Vec<u8>)
    ensures
        cipher is None ==> r@ == spec_l2_bytes(L2Channel::Pb, L2OpCode::Write, pb_bytes@),
        cipher matches Some(c) ==> (r@ == spec_l2_bytes(
            L2Channel::Pb,
            L2OpCode::WriteEnc,
            c.enc_spec(pb_bytes@),
        ) || r@ == spec_l2_bytes(L2Channel::Pb, L2OpCode::Write, pb_bytes@)),
        r@.len() == pb_bytes@.len() + 2,
{
    match cipher {
        Some(c) => {
            match L2Packet::encrypted(L2Channel::Pb, pb_bytes.as_slice(), c) {
                Ok(p) => p.to_bytes(),
                Err(_) => L2Packet::new(L2Channel::Pb, L2OpCode::Write, pb_bytes).to_bytes(),
            }
        },
        None => L2Packet::new(L2Channel::Pb, L2OpCode::Write, pb_bytes).to_bytes(),
    }
}

/// Encodes an outbound service payload and queues it on the reliable
/// layer, returning the sequence number it was assigned.
pub fn enqueue_pb_packet<C: L2Cipher>(
    sar: &mut SarController,
    cipher: Option<&C>,
    pb_bytes: Vec<u8>,
    now_ms: u64,
) -> (seq: u8)
    requires
        old(sar).wf(),
        pb_bytes@.len() + 2 <= 0xFFFF,
    ensures
        final(sar).wf(),
        seq == old(sar).next_seq(),
{
    let bytes = encode_pb_packet(cipher, pb_bytes);
    sar.enqueue(bytes, now_ms)
}

} // verus!
