//! The resource service: request/response surfaces for the installed
//! watchface and quick-app lists, with a per-device cache mirroring the
//! last responses.

use vstd::prelude::*;

use crate::messages::{WearMessage, WearOp, WearPayload, WearType};
use crate::shared::RequestSlot;
use crate::watchface::build_watchface_get_installed;

verus! {

/// One installed watchface, as reported by the device.
pub struct WatchFaceItem {
    pub id: String,
    pub name: String,
    pub is_current: bool,
    pub can_remove: bool,
}

/// One installed quick app, as reported by the device.
pub struct AppItem {
    pub package_name: String,
    pub fingerprint: Vec<u8>,
}

/// The resource service's per-device cache.
pub struct ResourceComponent {
    pub watchfaces: Vec<WatchFaceItem>,
    pub quick_apps: Vec<AppItem>,
}

impl ResourceComponent {
    /// A fresh, empty cache.
    pub fn new() -> (r: ResourceComponent)
        ensures
            r.watchfaces@.len() == 0,
            r.quick_apps@.len() == 0,
    {
        ResourceComponent { watchfaces: Vec::new(), quick_apps: Vec::new() }
    }
}

/// The resource service: one single-flight waiter per list kind.
pub struct ResourceSystem {
    pub watchface_wait: RequestSlot,
    pub quick_app_wait: RequestSlot,
}

impl ResourceSystem {
    /// A fresh service with no waiters armed.
    pub fn new() -> (r: ResourceSystem)
        ensures
            !r.watchface_wait.pending,
            !r.quick_app_wait.pending,
    {
        ResourceSystem { watchface_wait: RequestSlot::new(), quick_app_wait: RequestSlot::new() }
    }

    /// Arms the watchface-list waiter and builds its request.
    pub fn request_watchface_list(&mut self) -> (r: WearMessage)
        ensures
            final(self).watchface_wait.pending,
            final(self).quick_app_wait == old(self).quick_app_wait,
            r.msg_type == WearType::WatchFace,
            r.id == WearOp::GetInstalledWatchFaceList,
            r.payload is Empty,
    {
        self.watchface_wait.prepare();
        build_watchface_get_installed()
    }

    /// Arms the quick-app-list waiter and builds its request.
    pub fn request_quick_app_list(&mut self) -> (r: WearMessage)
        ensures
            final(self).quick_app_wait.pending,
            final(self).watchface_wait == old(self).watchface_wait,
            r.msg_type == WearType::ThirdpartyApp,
            r.id == WearOp::GetInstalledAppList,
            r.payload is Empty,
    {
        self.quick_app_wait.prepare();
        build_thirdparty_app_get_installed()
    }

    /// Takes an inbound watchface list: the cache mirrors it, and the
    /// result says whether a waiter was fulfilled.
    pub fn on_watchface_list(&mut self, comp: &mut ResourceComponent, list: Vec<WatchFaceItem>) -> (
        had_waiter: bool)
        ensures
            had_waiter == old(self).watchface_wait.pending,
            !final(self).watchface_wait.pending,
            final(self).quick_app_wait == old(self).quick_app_wait,
            final(comp).watchfaces@ == list@,
            final(comp).quick_apps@ == old(comp).quick_apps@,
    {
        comp.watchfaces = list;
        self.watchface_wait.fulfill()
    }

    /// Takes an inbound quick-app list.
    pub fn on_quick_app_list(&mut self, comp: &mut ResourceComponent, list: Vec<AppItem>) -> (
        had_waiter: bool)
        ensures
            had_waiter == old(self).quick_app_wait.pending,
            !final(self).quick_app_wait.pending,
            final(self).watchface_wait == old(self).watchface_wait,
            final(comp).quick_apps@ == list@,
            final(comp).watchfaces@ == old(comp).watchfaces@,
    {
        comp.quick_apps = list;
        self.quick_app_wait.fulfill()
    }
}

/// Builds the installed-quick-app-list request.
pub fn build_thirdparty_app_get_installed() -> (r: WearMessage)
    ensures
        r.msg_type == WearType::ThirdpartyApp,
        r.id == WearOp::GetInstalledAppList,
        r.payload is Empty,
{
    WearMessage {
        msg_type: WearType::ThirdpartyApp,
        id: WearOp::GetInstalledAppList,
        payload: WearPayload::Empty,
    }
}

} // verus!
