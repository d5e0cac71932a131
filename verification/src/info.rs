//! The device-information service: request/response surfaces for device
//! info, status and storage, with a per-device cache mirroring the last
//! responses.

use vstd::prelude::*;

use crate::messages::{WearMessage, WearOp, WearPayload, WearType};
use crate::shared::RequestSlot;

verus! {

/// A device-information response: model and serial number.
pub struct DeviceInfo {
    pub model: String,
    pub serial_number: String,
    pub firmware_version: String,
}

/// A device-status response: battery level and charger state.
pub struct DeviceStatus {
    pub battery_level: u32,
    pub charge_status: u32,
}

/// A storage response: total and used bytes.
pub struct StorageInfo {
    pub total: u64,
    pub used: u64,
}

/// The cached storage snapshot: total and free bytes.
pub struct StorageSnapshot {
    pub total: u64,
    pub free: u64,
}

/// The information service's per-device cache.
pub struct InfoComponent {
    pub model: String,
    pub sn: String,
    pub battery: Option<u32>,
    pub storage: StorageSnapshot,
}

impl InfoComponent {
    /// A fresh, empty cache.
    pub fn new() -> (r: InfoComponent)
        ensures
            r.model@.len() == 0,
            r.sn@.len() == 0,
            r.battery is None,
            r.storage.total == 0,
            r.storage.free == 0,
    {
        InfoComponent {
            model: String::new(),
            sn: String::new(),
            battery: None,
            storage: StorageSnapshot { total: 0, free: 0 },
        }
    }
}

/// The information service: one single-flight waiter per response kind.
pub struct InfoSystem {
    pub device_info_wait: RequestSlot,
    pub device_status_wait: RequestSlot,
    pub device_storage_wait: RequestSlot,
}

impl InfoSystem {
    /// A fresh service with no waiters armed.
    pub fn new() -> (r: InfoSystem)
        ensures
            !r.device_info_wait.pending,
            !r.device_status_wait.pending,
            !r.device_storage_wait.pending,
    {
        InfoSystem {
            device_info_wait: RequestSlot::new(),
            device_status_wait: RequestSlot::new(),
            device_storage_wait: RequestSlot::new(),
        }
    }

    /// Arms the device-info waiter and builds its request.
    pub fn request_device_info(&mut self) -> (r: WearMessage)
        ensures
            final(self).device_info_wait.pending,
            final(self).device_status_wait == old(self).device_status_wait,
            final(self).device_storage_wait == old(self).device_storage_wait,
            r.msg_type == WearType::System,
            r.id == WearOp::GetDeviceInfo,
            r.payload is Empty,
    {
        self.device_info_wait.prepare();
        build_system_packet(WearOp::GetDeviceInfo)
    }

    /// Arms the device-status waiter and builds its request.
    pub fn request_device_status(&mut self) -> (r: WearMessage)
        ensures
            final(self).device_status_wait.pending,
            final(self).device_info_wait == old(self).device_info_wait,
            final(self).device_storage_wait == old(self).device_storage_wait,
            r.msg_type == WearType::System,
            r.id == WearOp::GetDeviceStatus,
            r.payload is Empty,
    {
        self.device_status_wait.prepare();
        build_system_packet(WearOp::GetDeviceStatus)
    }

    /// Arms the storage waiter and builds its request.
    pub fn request_device_storage(&mut self) -> (r: WearMessage)
        ensures
            final(self).device_storage_wait.pending,
            final(self).device_info_wait == old(self).device_info_wait,
            final(self).device_status_wait == old(self).device_status_wait,
            r.msg_type == WearType::System,
            r.id == WearOp::GetStorageInfo,
            r.payload is Empty,
    {
        self.device_storage_wait.prepare();
        build_system_packet(WearOp::GetStorageInfo)
    }

    /// Takes an inbound device-info response: the cache mirrors it, and
    /// the result says whether a waiter was fulfilled.
    pub fn on_device_info(&mut self, comp: &mut InfoComponent, info: &DeviceInfo) -> (had_waiter:
        bool)
        ensures
            had_waiter == old(self).device_info_wait.pending,
            !final(self).device_info_wait.pending,
            final(self).device_status_wait == old(self).device_status_wait,
            final(self).device_storage_wait == old(self).device_storage_wait,
            final(comp).model@ == info.model@,
            final(comp).sn@ == info.serial_number@,
            final(comp).battery == old(comp).battery,
            final(comp).storage == old(comp).storage,
    {
        comp.model = info.model.as_str().to_owned();
        comp.sn = info.serial_number.as_str().to_owned();
        self.device_info_wait.fulfill()
    }

    /// Takes an inbound device-status response.
    pub fn on_device_status(&mut self, comp: &mut InfoComponent, status: &DeviceStatus) -> (
        had_waiter: bool)
        ensures
            had_waiter == old(self).device_status_wait.pending,
            !final(self).device_status_wait.pending,
            final(self).device_info_wait == old(self).device_info_wait,
            final(self).device_storage_wait == old(self).device_storage_wait,
            final(comp).battery == Some(status.battery_level),
            final(comp).model@ == old(comp).model@,
            final(comp).sn@ == old(comp).sn@,
            final(comp).storage == old(comp).storage,
    {
        comp.battery = Some(status.battery_level);
        self.device_status_wait.fulfill()
    }

    /// Takes an inbound storage response: the cache holds the total and
    /// what is left of it. A device misreporting more used than total
    /// is taken as leaving nothing free.
    pub fn on_storage_info(&mut self, comp: &mut InfoComponent, storage: &StorageInfo) -> (
        had_waiter: bool)
        ensures
            had_waiter == old(self).device_storage_wait.pending,
            !final(self).device_storage_wait.pending,
            final(self).device_info_wait == old(self).device_info_wait,
            final(self).device_status_wait == old(self).device_status_wait,
            final(comp).storage.total == storage.total,
            final(comp).storage.free == (if storage.used <= storage.total {
                (storage.total - storage.used) as u64
            } else {
                0u64
            }),
            final(comp).model@ == old(comp).model@,
            final(comp).sn@ == old(comp).sn@,
            final(comp).battery == old(comp).battery,
    {
        let free = if storage.used <= storage.total {
            storage.total - storage.used
        } else {
            0
        };
        comp.storage = StorageSnapshot { total: storage.total, free };
        self.device_storage_wait.fulfill()
    }
}

/// Builds a bare system request for an operation.
pub fn build_system_packet(id: WearOp) -> (r: WearMessage)
    ensures
        r.msg_type == WearType::System,
        r.id == id,
        r.payload is Empty,
{
    WearMessage { msg_type: WearType::System, id, payload: WearPayload::Empty }
}

} // verus!
