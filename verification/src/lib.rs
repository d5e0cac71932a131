//! Host-side companion stack for a family of wearables: layered wire codecs
//! (framing with CRC-16/ARC, channel/opcode multiplexing with optional
//! encryption), a reliable stop-and-wait-with-window transmission layer,
//! the authentication key derivation, a resumable bulk-transfer engine,
//! an embedded DHCP responder, and the per-device service state records.

use vstd::prelude::*;

pub mod auth;
pub mod cipher;
pub mod command_pool;
pub mod config;
pub mod crypto;
pub mod dhcp;
pub mod dispatcher;
pub mod endian;
pub mod events;
pub mod hexutil;
pub mod info;
pub mod install;
pub mod layer1;
pub mod layer1cmd;
pub mod layer2;
pub mod mass;
pub mod mass_packet;
pub mod messages;
pub mod meter;
pub mod models;
pub mod network;
pub mod registry;
pub mod resource;
pub mod resutils;
pub mod sar;
pub mod shared;
pub mod syncsvc;
pub mod thirdparty_app;
pub mod watchface;

verus! {

/// The number of bytes in a symmetric key of the layered cipher.
pub const CIPHER_KEY_LEN: usize = 16;

} // verus!
