//! Authentication tests: the key derivation against an independent
//! computation, the signature check, the single-flight session, and the
//! cipher registry receiving the derived pair.

use hmac::{KeyInit, Mac};
use miwear_stack::auth::{
    build_auth_step_2, kdf_miwear, string_to_u8_16, AuthComponent, AuthError, AuthSystem,
    CompanionDeviceType,
};
use miwear_stack::cipher::{ensure_l2_cipher, CipherRegistry, V2L2Cipher};
use miwear_stack::config::XiaomiDeviceConfig;
use miwear_stack::hexutil::{hex_stream_to_bytes, to_hex_string};
use miwear_stack::layer1::L1DataType;
use miwear_stack::layer2::{L2Channel, L2OpCode, L2Packet};
use miwear_stack::models::ConnectType;
use miwear_stack::network::NetworkConfig;
use miwear_stack::registry::XiaomiDevice;

type HmacSha256 = hmac::Hmac<sha2::Sha256>;

fn hmac_ref(key: &[u8], parts: &[&[u8]]) -> Vec<u8> {
    let mut mac = <HmacSha256 as KeyInit>::new_from_slice(key).unwrap();
    for p in parts {
        mac.update(p);
    }
    mac.finalize().into_bytes().to_vec()
}

/// The derivation recomputed from its definition, independently of the
/// library's code path.
fn kdf_ref(secret: &[u8], phone: &[u8], watch: &[u8]) -> Vec<u8> {
    let mut init_key = Vec::new();
    init_key.extend_from_slice(phone);
    init_key.extend_from_slice(watch);
    let hmac_key = hmac_ref(&init_key, &[secret]);
    let tag = b"miwear-auth";
    let mut okm = Vec::new();
    let mut prev: Vec<u8> = Vec::new();
    for counter in 1u8..=3 {
        prev = hmac_ref(&hmac_key, &[&prev, tag, &[counter]]);
        okm.extend_from_slice(&prev);
    }
    okm.truncate(64);
    okm
}

#[test]
fn kdf_matches_independent_computation() {
    let secret = [0x11u8; 16];
    let phone = [0x22u8; 16];
    let watch = [0x33u8; 16];
    let okm = kdf_miwear(&secret, &phone, &watch);
    assert_eq!(okm.len(), 64);
    assert_eq!(okm, kdf_ref(&secret, &phone, &watch));
}

#[test]
fn kdf_is_deterministic() {
    let secret = [9u8; 16];
    let phone = [8u8; 16];
    let watch = [7u8; 16];
    assert_eq!(kdf_miwear(&secret, &phone, &watch), kdf_miwear(&secret, &phone, &watch));
    // A different nonce gives different material.
    let other = [6u8; 16];
    assert_ne!(kdf_miwear(&secret, &phone, &watch), kdf_miwear(&secret, &phone, &other));
}

#[test]
fn authkey_hex_decoding() {
    let s = String::from("00112233445566778899aabbccddeeff");
    let key = string_to_u8_16(&s).unwrap();
    assert_eq!(key[0], 0x00);
    assert_eq!(key[9], 0x99);
    assert_eq!(key[15], 0xff);
    assert!(string_to_u8_16(&String::from("00112233")).is_none());
    assert!(string_to_u8_16(&String::from("zz112233445566778899aabbccddeeff")).is_none());
}

#[test]
fn hex_text_round_trip() {
    let bytes = vec![0xde, 0xad, 0xbe, 0xef, 0x00, 0x1f];
    let text = to_hex_string(&bytes);
    assert_eq!(text, "deadbeef001f");
    assert_eq!(hex_stream_to_bytes(&text).unwrap(), bytes);
    assert!(hex_stream_to_bytes("abc").is_err());
    assert!(hex_stream_to_bytes("zz").is_err());
}

#[test]
fn quiet_handshake_derives_and_publishes_keys() {
    let authkey = "00112233445566778899aabbccddeeff";
    let mut comp = AuthComponent::new(String::from(authkey));
    let mut session = AuthSystem::new();

    // Step one: a fresh 16-byte nonce leaves for the device.
    let app_random = session.prepare_auth(&mut comp).unwrap();
    assert_eq!(app_random.len(), 16);
    assert_eq!(comp.random_bytes, app_random);
    // A second attempt while one is in flight is refused.
    assert!(matches!(session.prepare_auth(&mut comp), Err(AuthError::InProgress)));

    // The device side, simulated: derive the same block and sign.
    let secret = hex_stream_to_bytes(authkey).unwrap();
    let device_random = vec![0xA7u8; 16];
    let okm = kdf_ref(&secret, &app_random, &device_random);
    let dec_key = &okm[0..16];
    let enc_key = &okm[16..32];
    let device_sign = hmac_ref(dec_key, &[&device_random, &app_random]);

    // Step two: the signature checks out and the material lands.
    let step2 = build_auth_step_2(
        &mut comp,
        &device_random,
        &device_sign,
        ConnectType::BLE,
        false,
    )
    .unwrap();
    assert_eq!(comp.dec_key, dec_key);
    assert_eq!(comp.enc_key, enc_key);
    assert_eq!(comp.dec_nonce, &okm[32..36]);
    assert_eq!(comp.enc_nonce, &okm[36..40]);
    assert_eq!(step2.app_sign, hmac_ref(enc_key, &[&app_random, &device_random]));
    assert_eq!(step2.companion_device_type, CompanionDeviceType::Ios);
    assert_eq!(step2.ccm_key, enc_key);
    assert_eq!(step2.ccm_nonce.len(), 12);
    assert_eq!(&step2.ccm_nonce[0..4], &okm[36..40]);
    assert_eq!(&step2.ccm_nonce[4..], &[0u8; 8]);

    // The confirmation closes the attempt and marks the device authed.
    assert!(session.on_device_confirm(&mut comp));
    assert!(comp.is_authed);
    assert!(!session.auth_wait);

    // The derived pair reaches the registry as two 16-byte keys.
    let mut registry = CipherRegistry::new();
    let pair = V2L2Cipher::new(comp.enc_key.clone(), comp.dec_key.clone()).unwrap();
    registry.register_l2_cipher(String::from("00:11:22"), pair);
    let stored = registry.get_l2_cipher("00:11:22").unwrap();
    assert_eq!(stored.enc_key.len(), 16);
    assert_eq!(stored.dec_key.len(), 16);
    assert_eq!(stored.enc_key, comp.enc_key);
    assert!(registry.get_l2_cipher("unknown").is_none());
}

#[test]
fn quiet_handshake_sends_two_service_frames() {
    let mut dev = XiaomiDevice::new(
        String::from("Band"),
        String::from("00:11:22"),
        String::from("00112233445566778899aabbccddeeff"),
        2,
        ConnectType::BLE,
        false,
        XiaomiDeviceConfig::default(),
        NetworkConfig::default(),
        0,
    );
    let startup = dev.sar.take_outbox();
    assert_eq!(startup.len(), 1);

    // Step one opens the attempt; its serialized form goes out on the
    // service channel unencrypted (no cipher is bound yet).
    let app_random = dev.auth_system.prepare_auth(&mut dev.auth).unwrap();
    let verify = L2Packet::new(L2Channel::Pb, L2OpCode::Write, app_random.clone());
    dev.sar.enqueue(verify.to_bytes(), 0);

    // The device's reply is verified and the confirm goes out too.
    let secret = hex_stream_to_bytes("00112233445566778899aabbccddeeff").unwrap();
    let device_random = vec![0x42u8; 16];
    let okm = kdf_ref(&secret, &app_random, &device_random);
    let sign = hmac_ref(&okm[0..16], &[&device_random, &app_random]);
    let step2 =
        build_auth_step_2(&mut dev.auth, &device_random, &sign, ConnectType::BLE, false).unwrap();
    let confirm = L2Packet::new(L2Channel::Pb, L2OpCode::Write, step2.app_sign);
    dev.sar.enqueue(confirm.to_bytes(), 1);
    assert!(dev.auth_system.on_device_confirm(&mut dev.auth));
    assert!(dev.auth.is_authed);

    // Exactly two service-channel frames left, in handshake order.
    let out = dev.sar.take_outbox();
    assert_eq!(out.len(), 2);
    for frame in &out {
        assert!(matches!(frame.pkt_type, L1DataType::Data));
        assert_eq!(frame.payload[0], 1);
    }
    assert_eq!(out[0].seq, 0);
    assert_eq!(out[1].seq, 1);
    // The first carries the opening nonce.
    assert_eq!(&out[0].payload[2..], &app_random[..]);
}

#[test]
fn cipher_binding_materializes_once() {
    let mut registry = CipherRegistry::new();
    let enc = vec![1u8; 16];
    let dec = vec![2u8; 16];
    // The wrong version binds nothing.
    assert!(!ensure_l2_cipher(&mut registry, "a", 1, &enc, &dec));
    // Short keys bind nothing.
    assert!(!ensure_l2_cipher(&mut registry, "a", 2, &vec![1u8; 4], &dec));
    // A full pair binds, and stays bound.
    assert!(ensure_l2_cipher(&mut registry, "a", 2, &enc, &dec));
    assert!(ensure_l2_cipher(&mut registry, "a", 2, &vec![9u8; 16], &dec));
    assert_eq!(registry.get_l2_cipher("a").unwrap().enc_key, enc);
    registry.remove_l2_cipher("a");
    assert!(registry.get_l2_cipher("a").is_none());
}

#[test]
fn wrong_authkey_fails_the_signature_check() {
    let mut comp = AuthComponent::new(String::from("00112233445566778899aabbccddeeff"));
    comp.random_bytes = vec![0x01; 16];
    let device_random = vec![0x02u8; 16];
    // A signature derived under a different secret cannot match.
    let wrong_secret = vec![0xFFu8; 16];
    let okm = kdf_ref(&wrong_secret, &comp.random_bytes, &device_random);
    let device_sign = hmac_ref(&okm[0..16], &[&device_random, &comp.random_bytes]);
    let r = build_auth_step_2(&mut comp, &device_random, &device_sign, ConnectType::BLE, false);
    assert!(matches!(r, Err(AuthError::HmacMismatch)));
    assert!(comp.enc_key.is_empty());
}

#[test]
fn malformed_handshake_inputs_are_rejected() {
    let mut comp = AuthComponent::new(String::from("00112233445566778899aabbccddeeff"));
    comp.random_bytes = vec![0x01; 16];
    let r = build_auth_step_2(&mut comp, &vec![0; 5], &vec![0; 32], ConnectType::BLE, false);
    assert!(matches!(r, Err(AuthError::NonceLengthMismatch)));
    let r = build_auth_step_2(&mut comp, &vec![0; 16], &vec![0; 8], ConnectType::BLE, false);
    assert!(matches!(r, Err(AuthError::NonceLengthMismatch)));
    let mut bad = AuthComponent::new(String::from("not hex"));
    bad.random_bytes = vec![0x01; 16];
    let r = build_auth_step_2(&mut bad, &vec![0; 16], &vec![0; 32], ConnectType::BLE, false);
    assert!(matches!(r, Err(AuthError::InvalidAuthKey)));
}

#[test]
fn companion_type_follows_connection_and_override() {
    let authkey = "00112233445566778899aabbccddeeff";
    for (ct, force, expect) in [
        (ConnectType::BLE, false, CompanionDeviceType::Ios),
        (ConnectType::BLE, true, CompanionDeviceType::Android),
        (ConnectType::SPP, false, CompanionDeviceType::Android),
    ] {
        let mut comp = AuthComponent::new(String::from(authkey));
        comp.random_bytes = vec![0x01; 16];
        let device_random = vec![0x02u8; 16];
        let secret = hex_stream_to_bytes(authkey).unwrap();
        let okm = kdf_ref(&secret, &comp.random_bytes, &device_random);
        let sign = hmac_ref(&okm[0..16], &[&device_random, &comp.random_bytes]);
        let step2 = build_auth_step_2(&mut comp, &device_random, &sign, ct, force).unwrap();
        assert_eq!(step2.companion_device_type, expect);
    }
}
