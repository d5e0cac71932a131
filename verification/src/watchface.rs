//! The watchface service: fire-and-forget set and remove commands over
//! the service channel.

use vstd::prelude::*;

use crate::messages::{WearMessage, WearOp, WearPayload, WearType};

verus! {

/// The watchface service; it keeps no state of its own.
pub struct WatchfaceSystem {
}

/// The watchface service's per-device record.
pub struct WatchfaceComponent {
}

impl WatchfaceComponent {
    /// A fresh record.
    pub fn new() -> (r: WatchfaceComponent) {
        WatchfaceComponent {  }
    }
}

impl WatchfaceSystem {
    /// A fresh service.
    pub fn new() -> (r: WatchfaceSystem) {
        WatchfaceSystem {  }
    }

    /// The command that makes the device show a watchface.
    pub fn set_watchface(&self, watchface_id: &str) -> (r: WearMessage)
        ensures
            r.msg_type == WearType::WatchFace,
            r.id == WearOp::SetWatchFace,
            r.payload matches WearPayload::WatchfaceId { id } && id@ == watchface_id@,
    {
        build_watchface_set(watchface_id)
    }

    /// The command that removes a watchface from the device.
    pub fn uninstall_watchface(&self, watchface_id: &str) -> (r: WearMessage)
        ensures
            r.msg_type == WearType::WatchFace,
            r.id == WearOp::RemoveWatchFace,
            r.payload matches WearPayload::WatchfaceId { id } && id@ == watchface_id@,
    {
        build_watchface_uninstall(watchface_id)
    }
}

/// Builds the set-watchface command.
pub fn build_watchface_set(watchface_id: &str) -> (r: WearMessage)
    ensures
        r.msg_type == WearType::WatchFace,
        r.id == WearOp::SetWatchFace,
        r.payload matches WearPayload::WatchfaceId { id } && id@ == watchface_id@,
{
    WearMessage {
        msg_type: WearType::WatchFace,
        id: WearOp::SetWatchFace,
        payload: WearPayload::WatchfaceId { id: watchface_id.to_owned() },
    }
}

/// Builds the remove-watchface command.
pub fn build_watchface_uninstall(watchface_id: &str) -> (r: WearMessage)
    ensures
        r.msg_type == WearType::WatchFace,
        r.id == WearOp::RemoveWatchFace,
        r.payload matches WearPayload::WatchfaceId { id } && id@ == watchface_id@,
{
    WearMessage {
        msg_type: WearType::WatchFace,
        id: WearOp::RemoveWatchFace,
        payload: WearPayload::WatchfaceId { id: watchface_id.to_owned() },
    }
}

/// Builds the installed-watchface-list request.
pub fn build_watchface_get_installed() -> (r: WearMessage)
    ensures
        r.msg_type == WearType::WatchFace,
        r.id == WearOp::GetInstalledWatchFaceList,
        r.payload is Empty,
{
    WearMessage {
        msg_type: WearType::WatchFace,
        id: WearOp::GetInstalledWatchFaceList,
        payload: WearPayload::Empty,
    }
}

} // verus!
