//! The install engine: one outstanding install transaction per device,
//! its prepare request built from the payload kind, inbound responses
//! correlated to the waiting transaction by kind, and the final result
//! decoded exactly.

use vstd::prelude::*;
use vstd::utf8::encode_utf8;

use crate::config::ResConfig;
use crate::crypto::{calc_md5, md5_of};
use crate::hexutil::{spec_hex_string, to_hex_string};
use crate::mass_packet::MassDataType;
use crate::messages::{WearMessage, WearOp, WearPayload, WearType};
use crate::hexutil::is_utf8;
use crate::resutils::{get_watchface_id, spec_digit_run_end, spec_first_digit};

verus! {

/// The waiters of one install transaction: its payload kind, and which
/// of the two stages still wait.
pub struct InstallWaiters {
    pub data_type: MassDataType,
    pub prepare_pending: bool,
    pub result_pending: bool,
}

/// The install engine's per-device record: at most one transaction.
pub struct InstallComponent {
    pub waiters: Option<InstallWaiters>,
}

impl InstallComponent {
    /// A fresh record with no transaction.
    pub fn new() -> (r: InstallComponent)
        ensures
            r.waiters is None,
    {
        InstallComponent { waiters: None }
    }

    /// Clears the transaction so a retry can start.
    pub fn clear_install_waiters(&mut self)
        ensures
            final(self).waiters is None,
    {
        self.waiters = None;
    }
}

/// Why an install could not start or finish.
#[derive(Debug, Clone, Copy, PartialEq, Eq, Structural)]
pub enum InstallError {
    /// An install transaction is already in progress on this device.
    AlreadyInProgress,
    /// The watchface file holds no identifier.
    InvalidWatchfaceId,
    /// The operation needs a package name and none was given.
    MissingPackageName,
    /// The file is too large for the declared size field.
    FileTooLarge,
    /// The device reported the install failed.
    InstallFailed,
    /// The device could not verify the payload.
    VerifyFailed,
    /// The device reported a code this library does not know.
    UnknownCode,
    /// The result does not belong to the waiting transaction's kind.
    MismatchedResult,
    /// The device's prepare stage was not ready.
    PrepareNotReady,
}

/// An inbound result event for the waiting transaction.
#[derive(Debug, Clone, Copy, PartialEq, Eq, Structural)]
pub enum InstallResultEvent {
    /// A third-party app install result code.
    ThirdpartyApp(i32),
    /// A watchface install result code.
    Watchface(i32),
    /// A firmware prepare status.
    Firmware(i32),
}

/// The result codes the devices report.
pub const INSTALL_CODE_SUCCESS: i32 = 0;

pub const INSTALL_CODE_FAILED: i32 = 1;

pub const INSTALL_CODE_VERIFY_FAILED: i32 = 2;

pub const INSTALL_CODE_USED: i32 = 3;

/// The identifier field of a watchface file, as configured.
pub open spec fn spec_watchface_field(data: Seq<u8>, cfg: &ResConfig) -> Seq<u8> {
    data.subrange(
        cfg.watchface_id_offset as int,
        cfg.watchface_id_offset + cfg.watchface_id_field_len,
    )
}

/// The identifier digits of a watchface file: the first run of decimal
/// digits within the configured field.
pub open spec fn spec_watchface_digits(data: Seq<u8>, cfg: &ResConfig) -> Seq<u8> {
    let field = spec_watchface_field(data, cfg);
    let start = spec_first_digit(field, 0)->Some_0;
    field.subrange(start, spec_digit_run_end(field, start))
}

/// Whether a watchface file yields an identifier: the file covers the
/// configured field, the field holds a digit, and the digit run is
/// valid text.
pub open spec fn spec_watchface_id_ok(data: Seq<u8>, cfg: &ResConfig) -> bool {
    &&& data.len() >= cfg.watchface_id_offset + cfg.watchface_id_field_len
    &&& spec_first_digit(spec_watchface_field(data, cfg), 0) is Some
    &&& is_utf8(spec_watchface_digits(data, cfg))
}

/// Whether an install of a kind can open: no transaction holds the
/// device, a watchface file yields its identifier, and the kinds that
/// install a named package have one.
pub open spec fn spec_install_start_ok(
    comp: &InstallComponent,
    data_type: MassDataType,
    data: Seq<u8>,
    has_package_name: bool,
    cfg: &ResConfig,
) -> bool {
    &&& comp.waiters is None
    &&& match data_type {
        MassDataType::Watchface => spec_watchface_id_ok(data, cfg),
        MassDataType::Firmware => true,
        MassDataType::NotificationIcon => has_package_name,
        MassDataType::ThirdPartyApp => has_package_name,
    }
}

/// Opens an install transaction and builds its prepare request: success
/// exactly where no transaction is open and the kind's inputs are
/// complete — a watchface file yields its identifier, a package-named
/// kind has its name. A second start while one is open fails and leaves
/// the first in place.
pub fn send_install_request(
    comp: &mut InstallComponent,
    data_type: MassDataType,
    file_data: &Vec<u8>,
    package_name: Option<&str>,
    res_config: &ResConfig,
) -> (r: Result<WearMessage, InstallError>)
    requires
        file_data@.len() <= u32::MAX,
        res_config.watchface_id_offset + res_config.watchface_id_field_len <= usize::MAX,
    ensures
        r is Ok <==> spec_install_start_ok(
            old(comp),
            data_type,
            file_data@,
            package_name is Some,
            res_config,
        ),
        r matches Err(e) ==> {
            &&& (e == InstallError::AlreadyInProgress <==> old(comp).waiters is Some)
            &&& (e == InstallError::InvalidWatchfaceId <==> old(comp).waiters is None && data_type
                == MassDataType::Watchface && !spec_watchface_id_ok(file_data@, res_config))
            &&& (e == InstallError::MissingPackageName <==> old(comp).waiters is None && (
            data_type == MassDataType::NotificationIcon || data_type
                == MassDataType::ThirdPartyApp) && package_name is None)
        },
        r matches Ok(m) ==> {
            &&& final(comp).waiters matches Some(w)
            &&& w.data_type == data_type
            &&& w.prepare_pending
            &&& (w.result_pending <==> data_type != MassDataType::NotificationIcon)
            &&& match data_type {
                MassDataType::Watchface => m.msg_type == WearType::WatchFace && m.id
                    == WearOp::PrepareInstallWatchFace && (m.payload
                    matches WearPayload::PrepareInfo { id, size, .. } && encode_utf8(id@)
                    == spec_watchface_digits(file_data@, res_config) && size == file_data@.len()),
                MassDataType::Firmware => m.msg_type == WearType::System && m.id
                    == WearOp::PrepareOta && (m.payload matches WearPayload::PrepareOtaRequest {
                    file_md5_hex,
                    ..
                } && file_md5_hex@ == spec_hex_string(md5_of(file_data@))),
                MassDataType::NotificationIcon => m.msg_type == WearType::Notification && m.id
                    == WearOp::PrepareAppIcon && (m.payload matches WearPayload::AppIconRequest {
                    package_name: pn,
                } && pn@ == package_name->Some_0@),
                MassDataType::ThirdPartyApp => m.msg_type == WearType::ThirdpartyApp && m.id
                    == WearOp::PrepareInstallApp && (m.payload
                    matches WearPayload::AppInstallRequest {
                    package_name: pn,
                    version_code,
                    package_size,
                } && pn@ == package_name->Some_0@ && version_code == 114514 && package_size
                    == file_data@.len()),
            }
        },
        r is Err ==> final(comp).waiters == old(comp).waiters,
{
    if comp.waiters.is_some() {
        return Err(InstallError::AlreadyInProgress);
    }
    let req: WearMessage = match data_type {
        MassDataType::Watchface => {
            let id_digits = match get_watchface_id(file_data.as_slice(), res_config) {
                Some(d) => d,
                None => {
                    return Err(InstallError::InvalidWatchfaceId);
                },
            };
            let id_text = match crate::hexutil::utf8_check(id_digits.as_slice()) {
                Some(s) => s.to_owned(),
                None => {
                    return Err(InstallError::InvalidWatchfaceId);
                },
            };
            build_watchface_install_request(id_text, file_data.len() as u32)
        },
        MassDataType::Firmware => {
            let md5 = calc_md5(file_data.as_slice());
            build_firmware_install_request(&md5)
        },
        MassDataType::NotificationIcon => {
            let pkg = match package_name {
                Some(p) => p,
                None => {
                    return Err(InstallError::MissingPackageName);
                },
            };
            build_notification_icon_request(pkg)
        },
        MassDataType::ThirdPartyApp => {
            let pkg = match package_name {
                Some(p) => p,
                None => {
                    return Err(InstallError::MissingPackageName);
                },
            };
            build_thirdparty_app_install_request(pkg, 114514, file_data.len() as u32)
        },
    };
    let result_pending = match data_type {
        MassDataType::NotificationIcon => false,
        _ => true,
    };
    comp.waiters = Some(InstallWaiters { data_type, prepare_pending: true, result_pending });
    Ok(req)
}

/// Takes the prepare stage of the waiting transaction for an inbound
/// prepare status of the matching kind: true exactly when such a stage
/// waited.
pub fn on_prepare_status(comp: &mut InstallComponent, data_type: MassDataType) -> (taken: bool)
    ensures
        taken == (old(comp).waiters matches Some(w) && w.data_type == data_type
            && w.prepare_pending),
        taken ==> (final(comp).waiters matches Some(w2) && w2.data_type == data_type
            && !w2.prepare_pending && w2.result_pending == old(
            comp,
        ).waiters->Some_0.result_pending),
        !taken ==> final(comp).waiters == old(comp).waiters,
{
    let matched = match &comp.waiters {
        Some(w) => w.prepare_pending && w.data_type == data_type,
        None => false,
    };
    if matched {
        let mut taken_w: Option<InstallWaiters> = None;
        core::mem::swap(&mut taken_w, &mut comp.waiters);
        match taken_w {
            Some(w) => {
                comp.waiters = Some(
                    InstallWaiters {
                        data_type: w.data_type,
                        prepare_pending: false,
                        result_pending: w.result_pending,
                    },
                );
            },
            None => {},
        }
        true
    } else {
        false
    }
}

/// Takes the result stage of the waiting transaction for an inbound
/// result of the matching kind: true exactly when such a stage waited.
pub fn on_install_result(comp: &mut InstallComponent, data_type: MassDataType) -> (taken: bool)
    ensures
        taken == (old(comp).waiters matches Some(w) && w.data_type == data_type
            && w.result_pending),
        taken ==> (final(comp).waiters matches Some(w2) && w2.data_type == data_type
            && !w2.result_pending && w2.prepare_pending == old(
            comp,
        ).waiters->Some_0.prepare_pending),
        !taken ==> final(comp).waiters == old(comp).waiters,
{
    let matched = match &comp.waiters {
        Some(w) => w.result_pending && w.data_type == data_type,
        None => false,
    };
    if matched {
        let mut taken_w: Option<InstallWaiters> = None;
        core::mem::swap(&mut taken_w, &mut comp.waiters);
        match taken_w {
            Some(w) => {
                comp.waiters = Some(
                    InstallWaiters {
                        data_type: w.data_type,
                        prepare_pending: w.prepare_pending,
                        result_pending: false,
                    },
                );
            },
            None => {},
        }
        true
    } else {
        false
    }
}

/// Decodes a final result for a transaction kind: success and — for a
/// watchface — the already-in-use code pass; failed and unverified
/// payloads fail with their code; an unknown code or a result of the
/// wrong kind fails exactly as such.
pub fn handle_install_result(data_type: MassDataType, event: InstallResultEvent) -> (r: Result<
    (),
    InstallError,
>)
    ensures
        r == ({
            match (data_type, event) {
                (MassDataType::ThirdPartyApp, InstallResultEvent::ThirdpartyApp(code)) => {
                    if code == INSTALL_CODE_SUCCESS {
                        Result::<(), InstallError>::Ok(())
                    } else if code == INSTALL_CODE_FAILED {
                        Result::<(), InstallError>::Err(InstallError::InstallFailed)
                    } else if code == INSTALL_CODE_VERIFY_FAILED {
                        Result::<(), InstallError>::Err(InstallError::VerifyFailed)
                    } else {
                        Result::<(), InstallError>::Err(InstallError::UnknownCode)
                    }
                },
                (MassDataType::Watchface, InstallResultEvent::Watchface(code)) => {
                    if code == INSTALL_CODE_SUCCESS || code == INSTALL_CODE_USED {
                        Result::<(), InstallError>::Ok(())
                    } else if code == INSTALL_CODE_FAILED {
                        Result::<(), InstallError>::Err(InstallError::InstallFailed)
                    } else if code == INSTALL_CODE_VERIFY_FAILED {
                        Result::<(), InstallError>::Err(InstallError::VerifyFailed)
                    } else {
                        Result::<(), InstallError>::Err(InstallError::UnknownCode)
                    }
                },
                (MassDataType::Firmware, InstallResultEvent::Firmware(status)) => {
                    if status == INSTALL_CODE_SUCCESS {
                        Result::<(), InstallError>::Ok(())
                    } else {
                        Result::<(), InstallError>::Err(InstallError::PrepareNotReady)
                    }
                },
                _ => Result::<(), InstallError>::Err(InstallError::MismatchedResult),
            }
        }),
{
    match (data_type, event) {
        (MassDataType::ThirdPartyApp, InstallResultEvent::ThirdpartyApp(code)) => {
            if code == INSTALL_CODE_SUCCESS {
                Ok(())
            } else if code == INSTALL_CODE_FAILED {
                Err(InstallError::InstallFailed)
            } else if code == INSTALL_CODE_VERIFY_FAILED {
                Err(InstallError::VerifyFailed)
            } else {
                Err(InstallError::UnknownCode)
            }
        },
        (MassDataType::Watchface, InstallResultEvent::Watchface(code)) => {
            if code == INSTALL_CODE_SUCCESS || code == INSTALL_CODE_USED {
                Ok(())
            } else if code == INSTALL_CODE_FAILED {
                Err(InstallError::InstallFailed)
            } else if code == INSTALL_CODE_VERIFY_FAILED {
                Err(InstallError::VerifyFailed)
            } else {
                Err(InstallError::UnknownCode)
            }
        },
        (MassDataType::Firmware, InstallResultEvent::Firmware(status)) => {
            if status == INSTALL_CODE_SUCCESS {
                Ok(())
            } else {
                Err(InstallError::PrepareNotReady)
            }
        },
        _ => Err(InstallError::MismatchedResult),
    }
}

/// Builds a watchface install prepare.
pub fn build_watchface_install_request(id: String, package_size: u32) -> (r: WearMessage)
    ensures
        r.msg_type == WearType::WatchFace,
        r.id == WearOp::PrepareInstallWatchFace,
        r.payload matches WearPayload::PrepareInfo { id: i, size, version_code } && i@ == id@
            && size == package_size && version_code == 65536,
{
    WearMessage {
        msg_type: WearType::WatchFace,
        id: WearOp::PrepareInstallWatchFace,
        payload: WearPayload::PrepareInfo { id, size: package_size, version_code: 65536 },
    }
}

/// Builds a third-party app install prepare.
pub fn build_thirdparty_app_install_request(
    package_name: &str,
    version_code: u32,
    package_size: u32,
) -> (r: WearMessage)
    ensures
        r.msg_type == WearType::ThirdpartyApp,
        r.id == WearOp::PrepareInstallApp,
        r.payload matches WearPayload::AppInstallRequest {
            package_name: p,
            version_code: v,
            package_size: s,
        } && p@ == package_name@ && v == version_code && s == package_size,
{
    WearMessage {
        msg_type: WearType::ThirdpartyApp,
        id: WearOp::PrepareInstallApp,
        payload: WearPayload::AppInstallRequest {
            package_name: package_name.to_owned(),
            version_code,
            package_size,
        },
    }
}

/// Builds a firmware install prepare whose digest names the payload.
pub fn build_firmware_install_request(file_md5: &Vec<u8>) -> (r: WearMessage)
    ensures
        r.msg_type == WearType::System,
        r.id == WearOp::PrepareOta,
        r.payload matches WearPayload::PrepareOtaRequest { force, file_md5_hex, .. } && force
            && file_md5_hex@ == spec_hex_string(file_md5@),
{
    let hex = to_hex_string(file_md5.as_slice());
    WearMessage {
        msg_type: WearType::System,
        id: WearOp::PrepareOta,
        payload: WearPayload::PrepareOtaRequest {
            force: true,
            firmware_version: firmware_version_text(),
            file_md5_hex: hex,
            change_log: change_log_text(),
        },
    }
}

fn firmware_version_text() -> (r: String) {
    let mut s = String::new();
    s.append("99.99.99");
    s
}

fn change_log_text() -> (r: String) {
    let mut s = String::new();
    s.append("AstroBox Firmware Update");
    s
}

/// Builds a notification icon prepare.
pub fn build_notification_icon_request(package_name: &str) -> (r: WearMessage)
    ensures
        r.msg_type == WearType::Notification,
        r.id == WearOp::PrepareAppIcon,
        r.payload matches WearPayload::AppIconRequest { package_name: p } && p@ == package_name@,
{
    WearMessage {
        msg_type: WearType::Notification,
        id: WearOp::PrepareAppIcon,
        payload: WearPayload::AppIconRequest { package_name: package_name.to_owned() },
    }
}

} // verus!
