//! The typed service-message surface: every outbound command or request a
//! service builds, as plain values. Serializing them to the peer's
//! protocol-buffer wire form is the outside collaborator's job; the
//! services' logic is specified and verified over these values.

use vstd::prelude::*;

use crate::models::TimeSyncProps;

verus! {

/// The subsystem a message belongs to.
#[derive(Debug, Clone, Copy, PartialEq, Eq, Structural)]
pub enum WearType {
    Account,
    System,
    WatchFace,
    ThirdpartyApp,
    Notification,
    Mass,
}

/// The operation a message performs within its subsystem.
#[derive(Debug, Clone, Copy, PartialEq, Eq, Structural)]
pub enum WearOp {
    AuthVerify,
    AuthConfirm,
    GetDeviceInfo,
    GetDeviceStatus,
    GetStorageInfo,
    SetLanguage,
    SetSystemTime,
    SyncNetworkStatus,
    PrepareOta,
    SetWatchFace,
    RemoveWatchFace,
    GetInstalledWatchFaceList,
    PrepareInstallWatchFace,
    PrepareInstallApp,
    RemoveApp,
    LaunchApp,
    SendPhoneMessage,
    SyncPhoneAppStatus,
    GetInstalledAppList,
    PrepareAppIcon,
    MassPrepare,
}

/// The reported status of the phone-side companion app.
#[derive(Debug, Clone, Copy, PartialEq, Eq, Structural)]
pub enum PhoneAppStatusKind {
    Connected,
    Disconnected,
}

/// An outbound message's payload, where the operation carries one.
pub enum WearPayload {
    /// No payload: the operation itself is the request.
    Empty,
    /// The handshake's opening nonce.
    AppVerify { app_random: Vec<u8> },
    /// The handshake's closing signature and encrypted companion
    /// description.
    AppConfirm { app_sign: Vec<u8>, encrypt_companion_device: Vec<u8> },
    /// A bulk-transfer prepare request: kind tag, digest, total length.
    PrepareRequest { data_type: u8, data_id: Vec<u8>, data_length: u32 },
    /// A watchface install prepare: identifier and package size.
    PrepareInfo { id: String, size: u32, version_code: u32 },
    /// A third-party app install prepare.
    AppInstallRequest { package_name: String, version_code: u32, package_size: u32 },
    /// A firmware install prepare.
    PrepareOtaRequest {
        force: bool,
        firmware_version: String,
        file_md5_hex: String,
        change_log: String,
    },
    /// A notification icon prepare.
    AppIconRequest { package_name: String },
    /// A watchface identifier, for set and remove.
    WatchfaceId { id: String },
    /// A locale change.
    Language { locale: String },
    /// A time synchronization.
    SystemTime { props: TimeSyncProps },
    /// The host's network capability.
    NetworkStatus { capability: u32 },
    /// The phone-side status of a companion app.
    PhoneAppStatus { package_name: String, fingerprint: Vec<u8>, status: PhoneAppStatusKind },
    /// A message to a companion app.
    MessageContent { package_name: String, fingerprint: Vec<u8>, content: Vec<u8> },
    /// A companion app launch, with the page to open.
    LaunchInfo { package_name: String, fingerprint: Vec<u8>, uri: String },
    /// A bare companion app identity, for remove.
    BasicInfo { package_name: String, fingerprint: Vec<u8> },
}

/// One outbound service message: its subsystem, operation and payload.
pub struct WearMessage {
    pub msg_type: WearType,
    pub id: WearOp,
    pub payload: WearPayload,
}

} // verus!
