//! The third-party app service: messaging, launch and removal commands,
//! the phone-status handshake answered on the peer's behalf, and the
//! interconnect event raised for inbound app messages.

use vstd::prelude::*;

use crate::events::InterconnectMessage;
use crate::messages::{PhoneAppStatusKind, WearMessage, WearOp, WearPayload, WearType};

verus! {

/// A companion app's identity: package name and fingerprint.
pub struct AppInfo {
    pub package_name: String,
    pub fingerprint: Vec<u8>,
}

/// The third-party app service's per-device record: the apps that have
/// announced themselves.
pub struct ThirdpartyAppComponent {
    pub apps: Vec<AppInfo>,
}

impl ThirdpartyAppComponent {
    /// A fresh record with no apps seen.
    pub fn new() -> (r: ThirdpartyAppComponent)
        ensures
            r.apps@.len() == 0,
    {
        ThirdpartyAppComponent { apps: Vec::new() }
    }
}

/// The third-party app service: the phone-status handshake is sent at
/// most once.
pub struct ThirdpartyAppSystem {
    pub handshake_requested: bool,
}

impl ThirdpartyAppSystem {
    /// A fresh service; no handshake requested yet.
    pub fn new() -> (r: ThirdpartyAppSystem)
        ensures
            !r.handshake_requested,
    {
        ThirdpartyAppSystem { handshake_requested: false }
    }

    /// Requests the phone-app status once: the first call yields the
    /// request, later calls nothing.
    pub fn request_phone_app_status(&mut self) -> (r: Option<WearMessage>)
        ensures
            r is Some <==> !old(self).handshake_requested,
            final(self).handshake_requested,
            r matches Some(m) ==> m.msg_type == WearType::ThirdpartyApp && m.id
                == WearOp::SyncPhoneAppStatus,
    {
        if self.handshake_requested {
            return None;
        }
        self.handshake_requested = true;
        Some(build_thirdparty_app_request_phone_status())
    }

    /// The message that carries a payload to a companion app.
    pub fn send_phone_message(&self, app: &AppInfo, payload: Vec<u8>) -> (r: WearMessage)
        ensures
            r.msg_type == WearType::ThirdpartyApp,
            r.id == WearOp::SendPhoneMessage,
            r.payload matches WearPayload::MessageContent { package_name, fingerprint, content }
                && package_name@ == app.package_name@ && fingerprint@ == app.fingerprint@
                && content@ == payload@,
    {
        build_thirdparty_app_msg_content(app, payload)
    }

    /// The command that launches a companion app at a page.
    pub fn launch_app(&self, app: &AppInfo, page: &str) -> (r: WearMessage)
        ensures
            r.msg_type == WearType::ThirdpartyApp,
            r.id == WearOp::LaunchApp,
            r.payload matches WearPayload::LaunchInfo { package_name, fingerprint, uri }
                && package_name@ == app.package_name@ && fingerprint@ == app.fingerprint@ && uri@
                == page@,
    {
        build_thirdparty_app_launch(app, page)
    }

    /// The command that removes a companion app.
    pub fn uninstall_app(&self, app: &AppInfo) -> (r: WearMessage)
        ensures
            r.msg_type == WearType::ThirdpartyApp,
            r.id == WearOp::RemoveApp,
            r.payload matches WearPayload::BasicInfo { package_name, fingerprint } && package_name@
                == app.package_name@ && fingerprint@ == app.fingerprint@,
    {
        build_thirdparty_app_uninstall(app)
    }

    /// The status report for an app, on the phone's behalf.
    pub fn sync_status(&self, app: &AppInfo, status: PhoneAppStatusKind) -> (r: WearMessage)
        ensures
            r.msg_type == WearType::ThirdpartyApp,
            r.id == WearOp::SyncPhoneAppStatus,
            r.payload matches WearPayload::PhoneAppStatus { package_name, fingerprint, status: st }
                && package_name@ == app.package_name@ && fingerprint@ == app.fingerprint@ && st
                == status,
    {
        build_thirdparty_app_sync_status(app, status)
    }

    /// Answers a peer app's announcement: the app is recorded, and the
    /// reply reports it connected.
    pub fn handle_basic_info(
        &self,
        comp: &mut ThirdpartyAppComponent,
        package_name: &str,
        fingerprint: &Vec<u8>,
    ) -> (r: WearMessage)
        ensures
            final(comp).apps@.len() == old(comp).apps@.len() + 1,
            ({
                let it = final(comp).apps@.last();
                it.package_name@ == package_name@ && it.fingerprint@ == fingerprint@
            }),
            forall|j: int|
                0 <= j < old(comp).apps@.len() ==> final(comp).apps@[j] == old(comp).apps@[j],
            r.msg_type == WearType::ThirdpartyApp,
            r.id == WearOp::SyncPhoneAppStatus,
            r.payload matches WearPayload::PhoneAppStatus { package_name: pn, fingerprint: fp, status }
                && pn@ == package_name@ && fp@ == fingerprint@ && status
                == PhoneAppStatusKind::Connected,
    {
        let info = AppInfo {
            package_name: package_name.to_owned(),
            fingerprint: vstd::slice::slice_to_vec(fingerprint.as_slice()),
        };
        comp.apps.push(info);
        let app = AppInfo {
            package_name: package_name.to_owned(),
            fingerprint: vstd::slice::slice_to_vec(fingerprint.as_slice()),
        };
        build_thirdparty_app_sync_status(&app, PhoneAppStatusKind::Connected)
    }

    /// Raises exactly one interconnect event for an inbound app message,
    /// naming the device, the sending package and the payload.
    pub fn handle_message_content(
        &self,
        device_addr: &str,
        package_name: &str,
        content: Vec<u8>,
    ) -> (r: InterconnectMessage)
        ensures
            r.device_addr@ == device_addr@,
            r.pkg_name@ == package_name@,
            r.payload@ == content@,
    {
        InterconnectMessage {
            device_addr: device_addr.to_owned(),
            pkg_name: package_name.to_owned(),
            payload: content,
        }
    }
}

/// Builds the phone-status handshake request.
pub fn build_thirdparty_app_request_phone_status() -> (r: WearMessage)
    ensures
        r.msg_type == WearType::ThirdpartyApp,
        r.id == WearOp::SyncPhoneAppStatus,
        r.payload is Empty,
{
    WearMessage {
        msg_type: WearType::ThirdpartyApp,
        id: WearOp::SyncPhoneAppStatus,
        payload: WearPayload::Empty,
    }
}

/// Builds an app status report.
pub fn build_thirdparty_app_sync_status(app: &AppInfo, status: PhoneAppStatusKind) -> (r:
    WearMessage)
    ensures
        r.msg_type == WearType::ThirdpartyApp,
        r.id == WearOp::SyncPhoneAppStatus,
        r.payload matches WearPayload::PhoneAppStatus { package_name, fingerprint, status: st }
            && package_name@ == app.package_name@ && fingerprint@ == app.fingerprint@ && st
            == status,
{
    WearMessage {
        msg_type: WearType::ThirdpartyApp,
        id: WearOp::SyncPhoneAppStatus,
        payload: WearPayload::PhoneAppStatus {
            package_name: app.package_name.as_str().to_owned(),
            fingerprint: vstd::slice::slice_to_vec(app.fingerprint.as_slice()),
            status,
        },
    }
}

/// Builds an app message.
pub fn build_thirdparty_app_msg_content(app: &AppInfo, data: Vec<u8>) -> (r: WearMessage)
    ensures
        r.msg_type == WearType::ThirdpartyApp,
        r.id == WearOp::SendPhoneMessage,
        r.payload matches WearPayload::MessageContent { package_name, fingerprint, content }
            && package_name@ == app.package_name@ && fingerprint@ == app.fingerprint@ && content@
            == data@,
{
    WearMessage {
        msg_type: WearType::ThirdpartyApp,
        id: WearOp::SendPhoneMessage,
        payload: WearPayload::MessageContent {
            package_name: app.package_name.as_str().to_owned(),
            fingerprint: vstd::slice::slice_to_vec(app.fingerprint.as_slice()),
            content: data,
        },
    }
}

/// Builds an app launch.
pub fn build_thirdparty_app_launch(app: &AppInfo, page: &str) -> (r: WearMessage)
    ensures
        r.msg_type == WearType::ThirdpartyApp,
        r.id == WearOp::LaunchApp,
        r.payload matches WearPayload::LaunchInfo { package_name, fingerprint, uri }
            && package_name@ == app.package_name@ && fingerprint@ == app.fingerprint@ && uri@
            == page@,
{
    WearMessage {
        msg_type: WearType::ThirdpartyApp,
        id: WearOp::LaunchApp,
        payload: WearPayload::LaunchInfo {
            package_name: app.package_name.as_str().to_owned(),
            fingerprint: vstd::slice::slice_to_vec(app.fingerprint.as_slice()),
            uri: page.to_owned(),
        },
    }
}

/// Builds an app removal.
pub fn build_thirdparty_app_uninstall(app: &AppInfo) -> (r: WearMessage)
    ensures
        r.msg_type == WearType::ThirdpartyApp,
        r.id == WearOp::RemoveApp,
        r.payload matches WearPayload::BasicInfo { package_name, fingerprint } && package_name@
            == app.package_name@ && fingerprint@ == app.fingerprint@,
{
    WearMessage {
        msg_type: WearType::ThirdpartyApp,
        id: WearOp::RemoveApp,
        payload: WearPayload::BasicInfo {
            package_name: app.package_name.as_str().to_owned(),
            fingerprint: vstd::slice::slice_to_vec(app.fingerprint.as_slice()),
        },
    }
}

} // verus!
