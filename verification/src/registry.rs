//! The component registry: the single owner of every per-device record.
//! A device bundles its reliable-layer controller, service records and
//! receive buffer; the registry hands a record out by identifier and
//! takes it back, so no two callers ever hold one at once.

use vstd::prelude::*;

use crate::auth::{AuthComponent, AuthSystem};
use crate::config::XiaomiDeviceConfig;
use crate::dispatcher::RecvBuffer;
use crate::info::{InfoComponent, InfoSystem};
use crate::install::InstallComponent;
use crate::mass::MassComponent;
use crate::models::ConnectType;
use crate::network::{NetworkComponent, NetworkConfig};
use crate::resource::{ResourceComponent, ResourceSystem};
use crate::sar::SarController;
use crate::syncsvc::SyncComponent;
use crate::thirdparty_app::{ThirdpartyAppComponent, ThirdpartyAppSystem};
use crate::watchface::WatchfaceComponent;

verus! {

/// Why a transport write failed, as the driver reports it.
pub enum SendError {
    /// The link is gone; the device is torn down.
    Disconnected,
    /// The driver reported an I/O fault.
    Io(String),
}

/// A device's base identity: its human name and stable address.
pub struct Device {
    pub name: String,
    pub addr: String,
}

impl Device {
    /// A device identity.
    pub fn new(name: String, addr: String) -> (r: Device)
        ensures
            r.name@ == name@,
            r.addr@ == addr@,
    {
        Device { name, addr }
    }

    /// The human name.
    pub fn name(&self) -> (r: &str)
        ensures
            r@ == self.name@,
    {
        self.name.as_str()
    }

    /// The stable address.
    pub fn addr(&self) -> (r: &str)
        ensures
            r@ == self.addr@,
    {
        self.addr.as_str()
    }
}

/// The opening byte sequence a serial-profile session begins with,
/// before any framed traffic.
pub open spec fn spec_spp_hello() -> Seq<u8> {
    seq![
        0xbau8, 0xdcu8, 0xfeu8, 0x00u8, 0xc0u8, 0x03u8, 0x00u8, 0x00u8, 0x01u8, 0x00u8, 0xefu8,
    ]
}

/// The bytes a session opens with: the serial-profile hello for serial
/// connections, nothing for BLE.
pub fn session_bootstrap_bytes(connect_type: ConnectType) -> (r: Option<Vec<u8>>)
    ensures
        connect_type == ConnectType::SPP ==> (r matches Some(v) && v@ == spec_spp_hello()),
        connect_type == ConnectType::BLE ==> r is None,
{
    match connect_type {
        ConnectType::SPP => {
            let mut v: Vec<u8> = Vec::new();
            v.push(0xba);
            v.push(0xdc);
            v.push(0xfe);
            v.push(0x00);
            v.push(0xc0);
            v.push(0x03);
            v.push(0x00);
            v.push(0x00);
            v.push(0x01);
            v.push(0x00);
            v.push(0xef);
            proof {
                assert(v@ =~= spec_spp_hello());
            }
            Some(v)
        },
        ConnectType::BLE => None,
    }
}

/// Splits an outbound transport write into chunks no larger than the
/// chunk size: a write that fits goes out whole — an empty write too —
/// and a larger one is cut into full chunks with the remainder last.
pub fn split_chunks(data: &[u8], chunk_size: usize) -> (r: Vec<Vec<u8>>)
    requires
        chunk_size >= 1,
    ensures
        data@.len() <= chunk_size ==> r@.len() == 1 && r@[0]@ == data@,
        data@.len() > chunk_size ==> {
            &&& r@.len() >= 1
            &&& forall|i: int|
                0 <= i < r@.len() ==> (#[trigger] r@[i])@ == data@.subrange(
                    i * chunk_size,
                    if (i + 1) * chunk_size <= data@.len() {
                        (i + 1) * chunk_size
                    } else {
                        data@.len() as int
                    },
                )
            &&& (r@.len() - 1) * chunk_size < data@.len() <= r@.len() * chunk_size
        },
{
    if data.len() <= chunk_size {
        let mut out: Vec<Vec<u8>> = Vec::new();
        out.push(vstd::slice::slice_to_vec(data));
        return out;
    }
    let mut out: Vec<Vec<u8>> = Vec::new();
    let n = data.len();
    let mut start: usize = 0;
    proof {
        assert(0int * chunk_size == 0) by (nonlinear_arith);
    }
    while start < n
        invariant
            n == data@.len(),
            chunk_size >= 1,
            start <= n,
            (start == out@.len() * chunk_size) || (start == n && out@.len() * chunk_size >= n),
            out@.len() > 0 ==> (out@.len() - 1) * chunk_size < n,
            forall|i: int|
                0 <= i < out@.len() ==> (#[trigger] out@[i])@ == data@.subrange(
                    i * chunk_size,
                    if (i + 1) * chunk_size <= data@.len() {
                        (i + 1) * chunk_size
                    } else {
                        data@.len() as int
                    },
                ),
        decreases n - start,
    {
        let end = if n - start <= chunk_size {
            n
        } else {
            start + chunk_size
        };
        let chunk = vstd::slice::slice_to_vec(vstd::slice::slice_subrange(data, start, end));
        let ghost k = out@.len() as int;
        out.push(chunk);
        proof {
            assert(k * chunk_size + chunk_size == (k + 1) * chunk_size) by (nonlinear_arith);
        }
        start = end;
    }
    proof {
        let m = out@.len() as int;
        assert((m - 1) * chunk_size == m * chunk_size - chunk_size) by (nonlinear_arith);
    }
    out
}

/// One device's whole record: identity, link parameters, the reliable
/// layer, the receive buffer, and every service's state.
pub struct XiaomiDevice {
    pub device: Device,
    pub sar_version: u32,
    pub connect_type: ConnectType,
    pub force_android: bool,
    pub config: XiaomiDeviceConfig,
    pub sar: SarController,
    pub recv: RecvBuffer,
    pub auth_system: AuthSystem,
    pub auth: AuthComponent,
    pub install: InstallComponent,
    pub mass: MassComponent,
    pub info_system: InfoSystem,
    pub info: InfoComponent,
    pub thirdparty_system: ThirdpartyAppSystem,
    pub thirdparty: ThirdpartyAppComponent,
    pub resource_system: ResourceSystem,
    pub resource: ResourceComponent,
    pub watchface: WatchfaceComponent,
    pub sync_state: SyncComponent,
    pub network: NetworkComponent,
}

impl XiaomiDevice {
    /// A fresh device record: every service state empty, the reliable
    /// layer initialized with its startup request flushed to the outbox.
    pub fn new(
        name: String,
        addr: String,
        authkey: String,
        sar_version: u32,
        connect_type: ConnectType,
        force_android: bool,
        config: XiaomiDeviceConfig,
        network_config: NetworkConfig,
        now_ms: u64,
    ) -> (r: XiaomiDevice)
        ensures
            r.device.name@ == name@,
            r.device.addr@ == addr@,
            r.sar_version == sar_version,
            r.connect_type == connect_type,
            r.force_android == force_android,
            r.sar.wf(),
            r.sar.outbox_view().len() == 1,
            crate::sar::is_cmd_frame(r.sar.outbox_view()[0], crate::sar::spec_start_req_payload()),
            r.auth.authkey@ == authkey@,
            !r.auth.is_authed,
            !r.auth_system.auth_wait,
            r.install.waiters is None,
            !r.mass.prepare_waiting,
            r.mass.resume_state is None,
            r.recv.buffer@.len() == 0,
    {
        let sar = SarController::new(config.sar.clone(), now_ms);
        XiaomiDevice {
            device: Device::new(name, addr),
            sar_version,
            connect_type,
            force_android,
            config,
            sar,
            recv: RecvBuffer::new(),
            auth_system: AuthSystem::new(),
            auth: AuthComponent::new(authkey),
            install: InstallComponent::new(),
            mass: MassComponent::new(),
            info_system: InfoSystem::new(),
            info: InfoComponent::new(),
            thirdparty_system: ThirdpartyAppSystem::new(),
            thirdparty: ThirdpartyAppComponent::new(),
            resource_system: ResourceSystem::new(),
            resource: ResourceComponent::new(),
            watchface: WatchfaceComponent::new(),
            sync_state: SyncComponent::new(),
            network: NetworkComponent::new(network_config),
        }
    }

    /// The base identity.
    pub fn base(&self) -> (r: &Device)
        ensures
            r == &self.device,
    {
        &self.device
    }

    /// The base identity, for mutation; nothing else moves.
    pub fn base_mut(&mut self) -> (r: &mut Device)
        ensures
            *r == old(self).device,
            final(self).device == *final(r),
            final(self).sar == old(self).sar,
            final(self).sar_version == old(self).sar_version,
            final(self).connect_type == old(self).connect_type,
            final(self).auth == old(self).auth,
    {
        &mut self.device
    }

    /// The human name.
    pub fn name(&self) -> (r: &str)
        ensures
            r@ == self.device.name@,
    {
        self.device.name.as_str()
    }

    /// The stable address.
    pub fn addr(&self) -> (r: &str)
        ensures
            r@ == self.device.addr@,
    {
        self.device.addr.as_str()
    }
}

/// The identifiers of the stored devices, in store order.
pub open spec fn spec_device_ids(s: Seq<XiaomiDevice>) -> Seq<Seq<char>> {
    s.map_values(|d: XiaomiDevice| d.device.addr@)
}

/// The position of the first stored device with an identifier.
pub open spec fn spec_first_device_idx(s: Seq<XiaomiDevice>, id: Seq<char>) -> int
    decreases s.len(),
{
    if s.len() == 0 {
        0
    } else if s[0].device.addr@ == id {
        0
    } else {
        1 + spec_first_device_idx(s.skip(1), id)
    }
}

proof fn lemma_first_device_idx_at(s: Seq<XiaomiDevice>, id: Seq<char>, i: int)
    requires
        0 <= i < s.len(),
        s[i].device.addr@ == id,
        forall|j: int| 0 <= j < i ==> (#[trigger] s[j]).device.addr@ != id,
    ensures
        spec_first_device_idx(s, id) == i,
    decreases s.len(),
{
    if i > 0 {
        lemma_first_device_idx_at(s.skip(1), id, i - 1);
    }
}

/// The stored devices that survive removing an identifier, in order.
pub open spec fn spec_keep_devices(s: Seq<XiaomiDevice>, id: Seq<char>) -> Seq<XiaomiDevice>
    decreases s.len(),
{
    if s.len() == 0 {
        s
    } else if s[0].device.addr@ == id {
        spec_keep_devices(s.skip(1), id)
    } else {
        seq![s[0]] + spec_keep_devices(s.skip(1), id)
    }
}

/// The single-threaded store of every device record.
pub struct Runtime {
    pub devices: Vec<XiaomiDevice>,
}

impl Runtime {
    /// An empty store.
    pub fn new() -> (r: Runtime)
        ensures
            r.devices@.len() == 0,
    {
        Runtime { devices: Vec::new() }
    }

    /// Stores a device record.
    pub fn add_entity(&mut self, dev: XiaomiDevice)
        ensures
            final(self).devices@.len() == old(self).devices@.len() + 1,
            final(self).devices@.last() == dev,
            forall|j: int|
                0 <= j < old(self).devices@.len() ==> final(self).devices@[j] == old(
                    self,
                ).devices@[j],
    {
        self.devices.push(dev);
    }

    /// Whether some stored device has the identifier.
    pub fn has_device(&self, id: &str) -> (r: bool)
        ensures
            r == exists|i: int|
                0 <= i < self.devices@.len() && (#[trigger] self.devices@[i]).device.addr@ == id@,
    {
        let n = self.devices.len();
        let mut i: usize = 0;
        while i < n
            invariant
                n == self.devices@.len(),
                i <= n,
                forall|j: int|
                    0 <= j < i ==> (#[trigger] self.devices@[j]).device.addr@ != id@,
            decreases n - i,
        {
            if crate::hexutil::str_eq(self.devices[i].device.addr.as_str(), id) {
                return true;
            }
            i = i + 1;
        }
        false
    }

    /// Takes the first stored device with the identifier out of the
    /// store; the others stay, unchanged and in order. The caller owns
    /// the record until it is stored again.
    pub fn take_device(&mut self, id: &str) -> (r: Option<XiaomiDevice>)
        ensures
            r is Some <==> exists|i: int|
                0 <= i < old(self).devices@.len() && (#[trigger] old(
                    self,
                ).devices@[i]).device.addr@ == id@,
            r matches Some(d) ==> {
                let i = spec_first_device_idx(old(self).devices@, id@);
                &&& d.device.addr@ == id@
                &&& d == old(self).devices@[i]
                &&& final(self).devices@ == old(self).devices@.remove(i)
            },
            r is None ==> final(self).devices@ == old(self).devices@,
    {
        let n = self.devices.len();
        let mut i: usize = 0;
        while i < n
            invariant
                n == self.devices@.len(),
                i <= n,
                self.devices@ == old(self).devices@,
                forall|j: int|
                    0 <= j < i ==> (#[trigger] self.devices@[j]).device.addr@ != id@,
            decreases n - i,
        {
            if crate::hexutil::str_eq(self.devices[i].device.addr.as_str(), id) {
                proof {
                    lemma_first_device_idx_at(self.devices@, id@, i as int);
                }
                let d = self.devices.remove(i);
                return Some(d);
            }
            i = i + 1;
        }
        None
    }

    /// Removes every stored device with the identifier; true exactly
    /// when one was stored, and the other records are kept, unchanged
    /// and in order.
    pub fn remove_entity_by_id(&mut self, id: &str) -> (removed: bool)
        ensures
            removed == exists|i: int|
                0 <= i < old(self).devices@.len() && (#[trigger] old(
                    self,
                ).devices@[i]).device.addr@ == id@,
            final(self).devices@ == spec_keep_devices(old(self).devices@, id@),
            forall|j: int|
                0 <= j < final(self).devices@.len() ==> (#[trigger] final(self).devices@[j]).device.addr@ != id@,
    {
        let mut kept: Vec<XiaomiDevice> = Vec::new();
        let mut removed = false;
        let ghost pre = self.devices@;
        loop
            invariant
                self.devices@.len() <= pre.len(),
                self.devices@ == pre.skip((pre.len() - self.devices@.len()) as int),
                forall|j: int|
                    0 <= j < kept@.len() ==> (#[trigger] kept@[j]).device.addr@ != id@,
                spec_keep_devices(pre, id@) == kept@ + spec_keep_devices(self.devices@, id@),
                removed == exists|i: int|
                    0 <= i < pre.len() - self.devices@.len() && (#[trigger] pre[i]).device.addr@
                        == id@,
            ensures
                self.devices@.len() == 0,
                forall|j: int|
                    0 <= j < kept@.len() ==> (#[trigger] kept@[j]).device.addr@ != id@,
                kept@ == spec_keep_devices(pre, id@),
                removed == exists|i: int|
                    0 <= i < pre.len() && (#[trigger] pre[i]).device.addr@ == id@,
            decreases self.devices@.len(),
        {
            if self.devices.len() == 0 {
                proof {
                    assert(spec_keep_devices(self.devices@, id@) =~= Seq::<XiaomiDevice>::empty());
                    assert(kept@ + spec_keep_devices(self.devices@, id@) =~= kept@);
                }
                break;
            }
            let ghost seen = pre.len() - self.devices@.len();
            let ghost rest = self.devices@;
            let d = self.devices.remove(0);
            proof {
                assert(pre.skip(seen as int)[0] == pre[seen as int]);
                assert(self.devices@ =~= pre.skip(seen + 1));
                assert(rest[0] == d);
                assert(rest.skip(1) =~= self.devices@);
            }
            if crate::hexutil::str_eq(d.device.addr.as_str(), id) {
                removed = true;
            } else {
                kept.push(d);
                proof {
                    assert(spec_keep_devices(rest, id@) =~= seq![d] + spec_keep_devices(
                        self.devices@,
                        id@,
                    ));
                }
            }
        }
        self.devices = kept;
        removed
    }
}

} // verus!
