//! The authentication handshake: the key-derivation function over
//! HMAC-SHA256, the verification of the device's signature, and the
//! single-flight session state that produces the cipher key material.

use vstd::prelude::*;
use vstd::string::StringExecFns;
use vstd::utf8::encode_utf8;

use crate::crypto::{generate_random_bytes, hmac_sha256, hmac_sha256_of};
use crate::hexutil::{
    hex_bytes_to_bytes, lemma_hex_bytes_len, spec_all_hex, spec_hex_bytes,
};
use crate::models::ConnectType;

verus! {

/// The per-device authentication record: the configured shared secret in
/// hex, the per-attempt client nonce, and the derived key material.
pub struct AuthComponent {
    pub authkey: String,
    pub is_authed: bool,
    pub random_bytes: Vec<u8>,
    pub enc_key: Vec<u8>,
    pub dec_key: Vec<u8>,
    pub enc_nonce: Vec<u8>,
    pub dec_nonce: Vec<u8>,
}

impl AuthComponent {
    /// A fresh record holding the shared secret, nothing derived yet.
    pub fn new(authkey: String) -> (r: AuthComponent)
        ensures
            r.authkey@ == authkey@,
            !r.is_authed,
            r.random_bytes@.len() == 0,
            r.enc_key@.len() == 0,
            r.dec_key@.len() == 0,
            r.enc_nonce@.len() == 0,
            r.dec_nonce@.len() == 0,
    {
        AuthComponent {
            authkey,
            is_authed: false,
            random_bytes: Vec::new(),
            enc_key: Vec::new(),
            dec_key: Vec::new(),
            enc_nonce: Vec::new(),
            dec_nonce: Vec::new(),
        }
    }
}

/// The domain-separation tag of the key derivation, the ASCII bytes of
/// the auth label.
pub open spec fn spec_auth_tag() -> Seq<u8> {
    seq![0x6du8, 0x69u8, 0x77u8, 0x65u8, 0x61u8, 0x72u8, 0x2du8, 0x61u8, 0x75u8, 0x74u8, 0x68u8]
}

fn auth_tag() -> (r: Vec<u8>)
    ensures
        r@ == spec_auth_tag(),
{
    let mut t: Vec<u8> = Vec::new();
    t.push(0x6d);
    t.push(0x69);
    t.push(0x77);
    t.push(0x65);
    t.push(0x61);
    t.push(0x72);
    t.push(0x2d);
    t.push(0x61);
    t.push(0x75);
    t.push(0x74);
    t.push(0x68);
    proof {
        assert(t@ =~= spec_auth_tag());
    }
    t
}

/// The 64-byte key block derived from the shared secret and the two
/// nonces: an extraction HMAC keyed by the concatenated nonces, then
/// three expansion rounds chained through the tag and a counter,
/// concatenated and truncated. A function of its inputs alone.
pub open spec fn spec_kdf_okm(secret: Seq<u8>, phone_nonce: Seq<u8>, watch_nonce: Seq<u8>) -> Seq<
    u8,
> {
    let init_key = phone_nonce + watch_nonce;
    let hmac_key = hmac_sha256_of(init_key, secret);
    let t1 = hmac_sha256_of(hmac_key, spec_auth_tag() + seq![1u8]);
    let t2 = hmac_sha256_of(hmac_key, t1 + spec_auth_tag() + seq![2u8]);
    let t3 = hmac_sha256_of(hmac_key, t2 + spec_auth_tag() + seq![3u8]);
    (t1 + t2 + t3).take(64)
}

/// Concatenates byte strings.
fn concat_bytes(a: &[u8], b: &[u8]) -> (r: Vec<u8>)
    ensures
        r@ == a@ + b@,
{
    let mut out = vstd::slice::slice_to_vec(a);
    let mut i: usize = 0;
    while i < b.len()
        invariant
            i <= b@.len(),
            out@ == a@ + b@.take(i as int),
        decreases b@.len() - i,
    {
        out.push(b[i]);
        proof {
            assert(out@ =~= a@ + b@.take(i + 1 as int));
        }
        i = i + 1;
    }
    proof {
        assert(b@.take(b@.len() as int) =~= b@);
    }
    out
}

/// Derives the 64-byte key block. Equal inputs give an equal block: the
/// result is exactly the derivation over the HMAC of the inputs.
pub fn kdf_miwear(secret_key: &[u8], phone_nonce: &[u8], watch_nonce: &[u8]) -> (r: Vec<u8>)
    ensures
        r@ == spec_kdf_okm(secret_key@, phone_nonce@, watch_nonce@),
        r@.len() == 64,
{
    let init_key = concat_bytes(phone_nonce, watch_nonce);
    let hmac_key = hmac_sha256(init_key.as_slice(), secret_key);
    let tag = auth_tag();

    let mut msg1 = vstd::slice::slice_to_vec(tag.as_slice());
    msg1.push(1);
    proof {
        assert(msg1@ =~= spec_auth_tag() + seq![1u8]);
    }
    let t1 = hmac_sha256(hmac_key.as_slice(), msg1.as_slice());

    let mut msg2 = concat_bytes(t1.as_slice(), tag.as_slice());
    msg2.push(2);
    proof {
        assert(msg2@ =~= t1@ + spec_auth_tag() + seq![2u8]);
    }
    let t2 = hmac_sha256(hmac_key.as_slice(), msg2.as_slice());

    let mut msg3 = concat_bytes(t2.as_slice(), tag.as_slice());
    msg3.push(3);
    proof {
        assert(msg3@ =~= t2@ + spec_auth_tag() + seq![3u8]);
    }
    let t3 = hmac_sha256(hmac_key.as_slice(), msg3.as_slice());

    let mut okm = concat_bytes(t1.as_slice(), t2.as_slice());
    let mut i: usize = 0;
    while i < t3.len()
        invariant
            i <= t3@.len(),
            okm@ == t1@ + t2@ + t3@.take(i as int),
        decreases t3@.len() - i,
    {
        okm.push(t3[i]);
        proof {
            assert(okm@ =~= t1@ + t2@ + t3@.take(i + 1 as int));
        }
        i = i + 1;
    }
    proof {
        assert(t3@.take(t3@.len() as int) =~= t3@);
        assert(okm@ =~= t1@ + t2@ + t3@);
    }
    okm.truncate(64);
    proof {
        assert(okm@ =~= (t1@ + t2@ + t3@).take(64));
    }
    okm
}

/// Decodes the 32-hex-character shared secret into its 16 bytes; `None`
/// exactly where the text is not 32 hex digits.
pub fn string_to_u8_16(s: &String) -> (r: Option<[u8; 16]>)
    ensures
        r is Some <==> encode_utf8(s@).len() == 32 && spec_all_hex(encode_utf8(s@)),
        r matches Some(a) ==> a@ == spec_hex_bytes(encode_utf8(s@)),
{
    let bytes = s.as_str().as_bytes();
    if bytes.len() != 32 {
        return None;
    }
    match hex_bytes_to_bytes(bytes) {
        Ok(v) => {
            proof {
                lemma_hex_bytes_len(encode_utf8(s@));
            }
            crate::hexutil::vec_to_array_16_opt(&v)
        },
        Err(_) => None,
    }
}

/// The companion-device type reported to the wearable.
#[derive(Debug, Clone, Copy, PartialEq, Eq, Structural)]
pub enum CompanionDeviceType {
    Android,
    Ios,
}

/// Why the handshake's second step failed.
#[derive(Debug, Clone, Copy, PartialEq, Eq, Structural)]
pub enum AuthError {
    /// The device nonce is not 16 bytes or the signature not 32.
    NonceLengthMismatch,
    /// The stashed client nonce is not 16 bytes.
    PhoneNonceLengthMismatch,
    /// The shared secret is not 32 hex characters.
    InvalidAuthKey,
    /// The device's signature does not match the derived key: the
    /// configured key is wrong.
    HmacMismatch,
    /// An authentication attempt is already in flight.
    InProgress,
}

/// What the verified second step hands back: the client's signature, the
/// companion-device description to encrypt, and the encryption key and
/// nonce for that outside encryption.
pub struct AuthStep2 {
    pub app_sign: Vec<u8>,
    pub companion_device_type: CompanionDeviceType,
    pub companion_device_name: String,
    pub companion_app_capability: u32,
    pub ccm_key: Vec<u8>,
    pub ccm_nonce: Vec<u8>,
}

/// The constant host identifier reported in the companion description.
pub fn companion_device_name() -> (r: String)
    ensures
        r@ =~= "AstroBox"@,
{
    let mut s = String::new();
    s.append("AstroBox");
    s
}

/// The key block's four slices: decryption key, encryption key,
/// decryption nonce, encryption nonce.
pub open spec fn spec_okm_dec_key(okm: Seq<u8>) -> Seq<u8> {
    okm.subrange(0, 16)
}

pub open spec fn spec_okm_enc_key(okm: Seq<u8>) -> Seq<u8> {
    okm.subrange(16, 32)
}

pub open spec fn spec_okm_dec_nonce(okm: Seq<u8>) -> Seq<u8> {
    okm.subrange(32, 36)
}

pub open spec fn spec_okm_enc_nonce(okm: Seq<u8>) -> Seq<u8> {
    okm.subrange(36, 40)
}

/// Copies a subrange of a byte vector.
fn sub_bytes(v: &Vec<u8>, from: usize, to: usize) -> (r: Vec<u8>)
    requires
        from <= to <= v@.len(),
    ensures
        r@ == v@.subrange(from as int, to as int),
{
    let s = vstd::slice::slice_subrange(v.as_slice(), from, to);
    vstd::slice::slice_to_vec(s)
}

/// Runs the handshake's second step: derives the key block from the
/// shared secret and the two nonces, verifies the device's signature
/// under the derived decryption key, stores the four key slices on the
/// record, and produces the client signature with the material for the
/// companion-device encryption. Succeeds exactly when the lengths are
/// right, the secret is well-formed hex, and the signature matches.
pub fn build_auth_step_2(
    comp: &mut AuthComponent,
    device_random: &Vec<u8>,
    device_sign: &Vec<u8>,
    connect_type: ConnectType,
    force_android: bool,
) -> (r: Result<AuthStep2, AuthError>)
    ensures
        ({
            let p = old(comp).random_bytes@;
            let key_bytes = encode_utf8(old(comp).authkey@);
            let lens_ok = device_random@.len() == 16 && device_sign@.len() == 32;
            let phone_ok = p.len() == 16;
            let key_ok = key_bytes.len() == 32 && spec_all_hex(key_bytes);
            let secret = spec_hex_bytes(key_bytes);
            let okm = spec_kdf_okm(secret, p, device_random@);
            let sign_ok = device_sign@ == hmac_sha256_of(
                spec_okm_dec_key(okm),
                device_random@ + p,
            );
            &&& (r is Ok <==> lens_ok && phone_ok && key_ok && sign_ok)
            &&& (r matches Err(e) ==> (e == AuthError::NonceLengthMismatch <==> !lens_ok))
            &&& (r matches Err(e) ==> (e == AuthError::PhoneNonceLengthMismatch <==> lens_ok
                && !phone_ok))
            &&& (r matches Err(e) ==> (e == AuthError::InvalidAuthKey <==> lens_ok && phone_ok
                && !key_ok))
            &&& (r matches Err(e) ==> (e == AuthError::HmacMismatch <==> lens_ok && phone_ok
                && key_ok && !sign_ok))
            &&& (r matches Ok(s) ==> {
                &&& final(comp).dec_key@ == spec_okm_dec_key(okm)
                &&& final(comp).enc_key@ == spec_okm_enc_key(okm)
                &&& final(comp).dec_nonce@ == spec_okm_dec_nonce(okm)
                &&& final(comp).enc_nonce@ == spec_okm_enc_nonce(okm)
                &&& final(comp).dec_key@.len() == 16
                &&& final(comp).enc_key@.len() == 16
                &&& final(comp).dec_nonce@.len() == 4
                &&& final(comp).enc_nonce@.len() == 4
                &&& s.app_sign@ == hmac_sha256_of(spec_okm_enc_key(okm), p + device_random@)
                &&& s.companion_device_type == (if connect_type == ConnectType::BLE
                    && !force_android {
                    CompanionDeviceType::Ios
                } else {
                    CompanionDeviceType::Android
                })
                &&& s.companion_device_name@ == "AstroBox"@
                &&& s.companion_app_capability == 0xFFFFFFFFu32
                &&& s.ccm_key@ == spec_okm_enc_key(okm)
                &&& s.ccm_nonce@ == spec_okm_enc_nonce(okm) + seq![
                    0u8, 0u8, 0u8, 0u8, 0u8, 0u8, 0u8, 0u8,
                ]
            })
            &&& (r is Err ==> *final(comp) == *old(comp))
        }),
        final(comp).authkey@ == old(comp).authkey@,
        final(comp).random_bytes@ == old(comp).random_bytes@,
        final(comp).is_authed == old(comp).is_authed,
{
    if device_random.len() != 16 || device_sign.len() != 32 {
        return Err(AuthError::NonceLengthMismatch);
    }
    if comp.random_bytes.len() != 16 {
        return Err(AuthError::PhoneNonceLengthMismatch);
    }
    let secret = match string_to_u8_16(&comp.authkey) {
        Some(a) => a,
        None => {
            return Err(AuthError::InvalidAuthKey);
        },
    };
    let okm = kdf_miwear(
        secret.as_slice(),
        comp.random_bytes.as_slice(),
        device_random.as_slice(),
    );
    let dec_key = sub_bytes(&okm, 0, 16);
    let enc_key = sub_bytes(&okm, 16, 32);
    let dec_nonce = sub_bytes(&okm, 32, 36);
    let enc_nonce = sub_bytes(&okm, 36, 40);

    let expect_msg = concat_bytes(device_random.as_slice(), comp.random_bytes.as_slice());
    let expect = hmac_sha256(dec_key.as_slice(), expect_msg.as_slice());
    if !crate::mass::bytes_eq(device_sign.as_slice(), expect.as_slice()) {
        return Err(AuthError::HmacMismatch);
    }

    let sign_msg = concat_bytes(comp.random_bytes.as_slice(), device_random.as_slice());
    let app_sign = hmac_sha256(enc_key.as_slice(), sign_msg.as_slice());

    let companion_device_type = if connect_type == ConnectType::BLE && !force_android {
        CompanionDeviceType::Ios
    } else {
        CompanionDeviceType::Android
    };

    let mut ccm_nonce = vstd::slice::slice_to_vec(enc_nonce.as_slice());
    let mut z: usize = 0;
    while z < 8
        invariant
            z <= 8,
            ccm_nonce@ == enc_nonce@ + Seq::new(z as nat, |i: int| 0u8),
        decreases 8 - z,
    {
        ccm_nonce.push(0);
        proof {
            assert(ccm_nonce@ =~= enc_nonce@ + Seq::new((z + 1) as nat, |i: int| 0u8));
        }
        z = z + 1;
    }
    proof {
        assert(Seq::new(8nat, |i: int| 0u8) =~= seq![0u8, 0u8, 0u8, 0u8, 0u8, 0u8, 0u8, 0u8]);
    }

    let ccm_key = vstd::slice::slice_to_vec(enc_key.as_slice());
    comp.dec_key = dec_key;
    comp.enc_key = enc_key;
    comp.dec_nonce = dec_nonce;
    comp.enc_nonce = enc_nonce;

    Ok(
        AuthStep2 {
            app_sign,
            companion_device_type,
            companion_device_name: companion_device_name(),
            companion_app_capability: 0xFFFFFFFF,
            ccm_key,
            ccm_nonce,
        },
    )
}

/// Builds the handshake's opening message, carrying the fresh client
/// nonce.
pub fn build_auth_step_1(nonce: Vec<u8>) -> (r: crate::messages::WearMessage)
    ensures
        r.msg_type == crate::messages::WearType::Account,
        r.id == crate::messages::WearOp::AuthVerify,
        r.payload matches crate::messages::WearPayload::AppVerify { app_random } && app_random@
            == nonce@,
{
    crate::messages::WearMessage {
        msg_type: crate::messages::WearType::Account,
        id: crate::messages::WearOp::AuthVerify,
        payload: crate::messages::WearPayload::AppVerify { app_random: nonce },
    }
}

/// Builds the handshake's closing message: the client's signature and
/// the companion description as the outside cipher encrypted it.
pub fn build_auth_confirm(
    app_sign: Vec<u8>,
    encrypt_companion_device: Vec<u8>,
) -> (r: crate::messages::WearMessage)
    ensures
        r.msg_type == crate::messages::WearType::Account,
        r.id == crate::messages::WearOp::AuthConfirm,
        r.payload matches crate::messages::WearPayload::AppConfirm {
            app_sign: s,
            encrypt_companion_device: e,
        } && s@ == app_sign@ && e@ == encrypt_companion_device@,
{
    crate::messages::WearMessage {
        msg_type: crate::messages::WearType::Account,
        id: crate::messages::WearOp::AuthConfirm,
        payload: crate::messages::WearPayload::AppConfirm { app_sign, encrypt_companion_device },
    }
}

/// The single-flight authentication session: at most one attempt may
/// wait at a time.
pub struct AuthSystem {
    pub auth_wait: bool,
}

impl AuthSystem {
    /// A session with no attempt in flight.
    pub fn new() -> (r: AuthSystem)
        ensures
            !r.auth_wait,
    {
        AuthSystem { auth_wait: false }
    }

    /// Opens an attempt: a fresh 16-byte nonce is stashed on the record
    /// and returned for the first handshake message. Fails exactly when
    /// an attempt is already in flight.
    pub fn prepare_auth(&mut self, comp: &mut AuthComponent) -> (r: Result<Vec<u8>, AuthError>)
        ensures
            r is Ok <==> !old(self).auth_wait,
            r matches Err(e) ==> e == AuthError::InProgress && *final(self) == *old(self)
                && *final(comp) == *old(comp),
            r matches Ok(nonce) ==> {
                &&& final(self).auth_wait
                &&& nonce@.len() == 16
                &&& final(comp).random_bytes@ == nonce@
                &&& final(comp).authkey@ == old(comp).authkey@
                &&& final(comp).is_authed == old(comp).is_authed
            },
    {
        if self.auth_wait {
            return Err(AuthError::InProgress);
        }
        let nonce = generate_random_bytes(16);
        let nonce_copy = vstd::slice::slice_to_vec(nonce.as_slice());
        comp.random_bytes = nonce_copy;
        self.auth_wait = true;
        Ok(nonce)
    }

    /// Closes the attempt on the device's final confirmation: the record
    /// becomes authenticated, and the result says whether a waiter was
    /// pending.
    pub fn on_device_confirm(&mut self, comp: &mut AuthComponent) -> (had_waiter: bool)
        ensures
            had_waiter == old(self).auth_wait,
            !final(self).auth_wait,
            final(comp).is_authed,
            final(comp).authkey@ == old(comp).authkey@,
            final(comp).random_bytes@ == old(comp).random_bytes@,
            final(comp).enc_key@ == old(comp).enc_key@,
            final(comp).dec_key@ == old(comp).dec_key@,
    {
        let had = self.auth_wait;
        self.auth_wait = false;
        comp.is_authed = true;
        had
    }

    /// Abandons the attempt on a failure, clearing the waiter so a retry
    /// can start.
    pub fn fail_pending(&mut self) -> (had_waiter: bool)
        ensures
            had_waiter == old(self).auth_wait,
            !final(self).auth_wait,
    {
        let had = self.auth_wait;
        self.auth_wait = false;
        had
    }
}

} // verus!
