//! Receive-path, registry, service and tunnel-state tests.

use miwear_stack::config::XiaomiDeviceConfig;
use miwear_stack::dispatcher::RecvBuffer;
use miwear_stack::events::{CoreEvent, EventBus, EVENT_CHANNEL_CAPACITY};
use miwear_stack::info::{DeviceInfo, DeviceStatus, InfoComponent, InfoSystem, StorageInfo};
use miwear_stack::install::{
    handle_install_result, on_install_result, on_prepare_status, send_install_request,
    InstallComponent, InstallError, InstallResultEvent,
};
use miwear_stack::layer1::{L1DataType, L1Packet};
use miwear_stack::mass_packet::MassDataType;
use miwear_stack::messages::{PhoneAppStatusKind, WearOp, WearPayload, WearType};
use miwear_stack::meter::BandwidthMeter;
use miwear_stack::models::ConnectType;
use miwear_stack::dhcp::compute_checksum;
use miwear_stack::network::{
    build_icmp_echo_reply, build_sync_network_status, IngressError, IngressQueue, NetWorkSpeed,
    NetworkComponent, NetworkConfig,
};
use miwear_stack::registry::{session_bootstrap_bytes, split_chunks, Runtime, XiaomiDevice};
use miwear_stack::resource::{AppItem, ResourceComponent, ResourceSystem, WatchFaceItem};
use miwear_stack::resutils::{get_file_type, get_watchface_id, FileType};
use miwear_stack::shared::RequestSlot;
use miwear_stack::syncsvc::SyncSystem;
use miwear_stack::thirdparty_app::{AppInfo, ThirdpartyAppComponent, ThirdpartyAppSystem};
use miwear_stack::watchface::WatchfaceSystem;

#[test]
fn frames_reassemble_across_bursts() {
    let frame = L1Packet::new(L1DataType::Data, false, 0, vec![1, 1, 42]).to_bytes();
    let mut buf = RecvBuffer::new();
    // Garbage, then half a frame: nothing comes out yet.
    let mut burst1 = vec![0x00, 0x17];
    burst1.extend_from_slice(&frame[..5]);
    assert!(buf.on_bytes(&burst1).is_empty());
    // The rest, plus a second whole frame.
    let frame2 = L1Packet::new(L1DataType::Ack, false, 3, vec![]).to_bytes();
    let mut burst2 = frame[5..].to_vec();
    burst2.extend_from_slice(&frame2);
    let frames = buf.on_bytes(&burst2);
    assert_eq!(frames.len(), 2);
    assert_eq!(frames[0], frame);
    assert_eq!(frames[1], frame2);
    assert!(buf.is_empty());
    buf.clear_recv_buffer();
    assert!(buf.is_empty());
}

#[test]
fn spp_session_opens_with_the_hello_bytes() {
    let hello = session_bootstrap_bytes(ConnectType::SPP).unwrap();
    assert_eq!(
        hello,
        vec![0xba, 0xdc, 0xfe, 0x00, 0xc0, 0x03, 0x00, 0x00, 0x01, 0x00, 0xef]
    );
    assert!(session_bootstrap_bytes(ConnectType::BLE).is_none());
}

#[test]
fn transport_chunking_respects_the_chunk_size() {
    let data: Vec<u8> = (0..1000).map(|i| (i % 251) as u8).collect();
    let chunks = split_chunks(&data, 244);
    assert_eq!(chunks.len(), 5);
    let mut rebuilt = Vec::new();
    for (i, c) in chunks.iter().enumerate() {
        assert!(c.len() <= 244);
        if i + 1 < chunks.len() {
            assert_eq!(c.len(), 244);
        }
        rebuilt.extend_from_slice(c);
    }
    assert_eq!(rebuilt, data);
    // A small write goes out whole; so does an empty one.
    assert_eq!(split_chunks(&[1, 2, 3], 244), vec![vec![1, 2, 3]]);
    assert_eq!(split_chunks(&[], 244), vec![vec![]]);
}

#[test]
fn registry_owns_device_records() {
    let mut rt = Runtime::new();
    let dev = XiaomiDevice::new(
        String::from("Band"),
        String::from("00:11:22"),
        String::from("00112233445566778899aabbccddeeff"),
        2,
        ConnectType::BLE,
        false,
        XiaomiDeviceConfig::default(),
        NetworkConfig::default(),
        0,
    );
    assert_eq!(dev.addr(), "00:11:22");
    assert_eq!(dev.name(), "Band");
    assert_eq!(dev.base().addr(), "00:11:22");
    rt.add_entity(dev);
    assert!(rt.has_device("00:11:22"));
    assert!(!rt.has_device("ff:ff:ff"));
    let mut taken = rt.take_device("00:11:22").unwrap();
    assert!(!rt.has_device("00:11:22"));
    // A fresh device already queued its startup request.
    let out = taken.sar.take_outbox();
    assert_eq!(out.len(), 1);
    assert!(matches!(out[0].pkt_type, L1DataType::Cmd));
    rt.add_entity(taken);
    assert!(rt.remove_entity_by_id("00:11:22"));
    assert!(!rt.remove_entity_by_id("00:11:22"));
}

#[test]
fn interconnect_event_is_raised_exactly_once() {
    let system = ThirdpartyAppSystem::new();
    let msg = system.handle_message_content("00:11:22", "com.x", b"hi".to_vec());
    assert_eq!(msg.device_addr, "00:11:22");
    assert_eq!(msg.pkg_name, "com.x");
    assert_eq!(msg.payload, b"hi".to_vec());
    let mut bus = EventBus::new();
    bus.emit(CoreEvent::InterconnectMessage(msg));
    let CoreEvent::InterconnectMessage(got) = bus.pop().unwrap();
    assert_eq!(got.pkg_name, "com.x");
    assert_eq!(got.payload, b"hi".to_vec());
    assert!(bus.pop().is_none());
}

#[test]
fn event_bus_drops_the_oldest_past_capacity() {
    let mut bus = EventBus::new();
    let sys = ThirdpartyAppSystem::new();
    for i in 0..(EVENT_CHANNEL_CAPACITY + 1) {
        let msg = sys.handle_message_content("a", &format!("pkg{}", i), vec![]);
        bus.emit(CoreEvent::InterconnectMessage(msg));
    }
    assert_eq!(bus.queue.len(), EVENT_CHANNEL_CAPACITY);
    let CoreEvent::InterconnectMessage(first) = bus.pop().unwrap();
    assert_eq!(first.pkg_name, "pkg1");
}

#[test]
fn thirdparty_handshake_replies_connected() {
    let mut comp = ThirdpartyAppComponent::new();
    let sys = ThirdpartyAppSystem::new();
    let reply = sys.handle_basic_info(&mut comp, "com.x", &vec![1, 2, 3]);
    assert_eq!(comp.apps.len(), 1);
    assert_eq!(comp.apps[0].package_name, "com.x");
    match reply.payload {
        WearPayload::PhoneAppStatus { package_name, status, .. } => {
            assert_eq!(package_name, "com.x");
            assert_eq!(status, PhoneAppStatusKind::Connected);
        },
        _ => panic!("wrong payload"),
    }
    let mut sys2 = ThirdpartyAppSystem::new();
    assert!(sys2.request_phone_app_status().is_some());
    assert!(sys2.request_phone_app_status().is_none());
}

#[test]
fn thirdparty_commands_carry_the_app_identity() {
    let sys = ThirdpartyAppSystem::new();
    let app = AppInfo { package_name: String::from("com.x"), fingerprint: vec![9] };
    let m = sys.send_phone_message(&app, b"yo".to_vec());
    assert_eq!(m.id, WearOp::SendPhoneMessage);
    let m = sys.launch_app(&app, "/home");
    match m.payload {
        WearPayload::LaunchInfo { uri, .. } => assert_eq!(uri, "/home"),
        _ => panic!("wrong payload"),
    }
    let m = sys.uninstall_app(&app);
    assert_eq!(m.id, WearOp::RemoveApp);
}

#[test]
fn info_service_caches_responses() {
    let mut sys = InfoSystem::new();
    let mut comp = InfoComponent::new();
    let req = sys.request_device_info();
    assert_eq!(req.id, WearOp::GetDeviceInfo);
    assert!(sys.device_info_wait.pending);
    let info = DeviceInfo {
        model: String::from("M1"),
        serial_number: String::from("SN9"),
        firmware_version: String::from("1.0"),
    };
    assert!(sys.on_device_info(&mut comp, &info));
    assert_eq!(comp.model, "M1");
    assert_eq!(comp.sn, "SN9");
    // A response with no waiter fulfills nobody.
    assert!(!sys.on_device_info(&mut comp, &info));

    sys.request_device_status();
    assert!(sys.on_device_status(&mut comp, &DeviceStatus { battery_level: 88, charge_status: 1 }));
    assert_eq!(comp.battery, Some(88));

    sys.request_device_storage();
    assert!(sys.on_storage_info(&mut comp, &StorageInfo { total: 1000, used: 300 }));
    assert_eq!(comp.storage.total, 1000);
    assert_eq!(comp.storage.free, 700);
}

#[test]
fn resource_service_caches_lists() {
    let mut sys = ResourceSystem::new();
    let mut comp = ResourceComponent::new();
    let req = sys.request_watchface_list();
    assert_eq!(req.id, WearOp::GetInstalledWatchFaceList);
    let list = vec![WatchFaceItem {
        id: String::from("100"),
        name: String::from("face"),
        is_current: true,
        can_remove: false,
    }];
    assert!(sys.on_watchface_list(&mut comp, list));
    assert_eq!(comp.watchfaces.len(), 1);
    assert_eq!(comp.watchfaces[0].id, "100");

    sys.request_quick_app_list();
    let apps = vec![AppItem { package_name: String::from("com.x"), fingerprint: vec![] }];
    assert!(sys.on_quick_app_list(&mut comp, apps));
    assert_eq!(comp.quick_apps.len(), 1);
}

#[test]
fn request_slot_is_single_shot() {
    let mut slot = RequestSlot::new();
    assert!(!slot.fulfill());
    slot.prepare();
    assert!(slot.fulfill());
    assert!(!slot.fulfill());
    slot.prepare();
    assert!(slot.fail());
}

#[test]
fn install_transactions_are_single_flight() {
    let cfg = XiaomiDeviceConfig::default();
    let mut comp = InstallComponent::new();
    let file = vec![1u8; 64];
    // First install opens the transaction.
    let m = send_install_request(
        &mut comp,
        MassDataType::ThirdPartyApp,
        &file,
        Some("com.x"),
        &cfg.res,
    )
    .unwrap();
    assert_eq!(m.msg_type, WearType::ThirdpartyApp);
    // A parallel second install on the same device fails.
    let r = send_install_request(
        &mut comp,
        MassDataType::ThirdPartyApp,
        &file,
        Some("com.x"),
        &cfg.res,
    );
    assert!(matches!(r, Err(InstallError::AlreadyInProgress)));
    // The stages resolve in order, by kind.
    assert!(!on_prepare_status(&mut comp, MassDataType::Watchface));
    assert!(on_prepare_status(&mut comp, MassDataType::ThirdPartyApp));
    assert!(!on_prepare_status(&mut comp, MassDataType::ThirdPartyApp));
    assert!(on_install_result(&mut comp, MassDataType::ThirdPartyApp));
    comp.clear_install_waiters();
    // Serial re-send completes.
    assert!(send_install_request(
        &mut comp,
        MassDataType::ThirdPartyApp,
        &file,
        Some("com.x"),
        &cfg.res,
    )
    .is_ok());
}

#[test]
fn install_results_decode_exactly() {
    let app = MassDataType::ThirdPartyApp;
    assert!(handle_install_result(app, InstallResultEvent::ThirdpartyApp(0)).is_ok());
    assert!(matches!(
        handle_install_result(app, InstallResultEvent::ThirdpartyApp(1)),
        Err(InstallError::InstallFailed)
    ));
    assert!(matches!(
        handle_install_result(app, InstallResultEvent::ThirdpartyApp(2)),
        Err(InstallError::VerifyFailed)
    ));
    assert!(matches!(
        handle_install_result(app, InstallResultEvent::ThirdpartyApp(9)),
        Err(InstallError::UnknownCode)
    ));
    assert!(handle_install_result(MassDataType::Watchface, InstallResultEvent::Watchface(3)).is_ok());
    assert!(handle_install_result(MassDataType::Firmware, InstallResultEvent::Firmware(0)).is_ok());
    assert!(matches!(
        handle_install_result(MassDataType::Watchface, InstallResultEvent::ThirdpartyApp(0)),
        Err(InstallError::MismatchedResult)
    ));
}

#[test]
fn install_needs_a_readable_watchface_identifier() {
    let cfg = XiaomiDeviceConfig::default();
    let mut comp = InstallComponent::new();
    // A file too short for the identifier field cannot start.
    let r = send_install_request(&mut comp, MassDataType::Watchface, &vec![0u8; 10], None, &cfg.res);
    assert!(matches!(r, Err(InstallError::InvalidWatchfaceId)));
    // One with digits in the field can.
    let mut data = vec![0u8; 80];
    data[34..39].copy_from_slice(b"90210");
    let m = send_install_request(&mut comp, MassDataType::Watchface, &data, None, &cfg.res).unwrap();
    assert_eq!(m.id, WearOp::PrepareInstallWatchFace);
    match m.payload {
        WearPayload::PrepareInfo { id, size, .. } => {
            assert_eq!(id, "90210");
            assert_eq!(size, 80);
        },
        _ => panic!("wrong payload"),
    }
}

#[test]
fn registry_removal_keeps_the_other_devices() {
    let mut rt = Runtime::new();
    for addr in ["aa", "bb", "cc"] {
        rt.add_entity(XiaomiDevice::new(
            String::from("d"),
            String::from(addr),
            String::from("00112233445566778899aabbccddeeff"),
            2,
            ConnectType::BLE,
            false,
            XiaomiDeviceConfig::default(),
            NetworkConfig::default(),
            0,
        ));
    }
    assert!(rt.remove_entity_by_id("bb"));
    assert!(rt.has_device("aa"));
    assert!(!rt.has_device("bb"));
    assert!(rt.has_device("cc"));
    // Taking a record keeps the others too.
    let taken = rt.take_device("aa").unwrap();
    assert_eq!(taken.addr(), "aa");
    assert!(rt.has_device("cc"));
}

#[test]
fn storage_misreport_leaves_nothing_free() {
    let mut sys = InfoSystem::new();
    let mut comp = InfoComponent::new();
    sys.request_device_storage();
    assert!(sys.on_storage_info(&mut comp, &StorageInfo { total: 100, used: 900 }));
    assert_eq!(comp.storage.total, 100);
    assert_eq!(comp.storage.free, 0);
}

#[test]
fn install_needs_a_package_name_where_one_applies() {
    let cfg = XiaomiDeviceConfig::default();
    let mut comp = InstallComponent::new();
    let r = send_install_request(&mut comp, MassDataType::ThirdPartyApp, &vec![1], None, &cfg.res);
    assert!(matches!(r, Err(InstallError::MissingPackageName)));
    let r = send_install_request(&mut comp, MassDataType::NotificationIcon, &vec![1], None, &cfg.res);
    assert!(matches!(r, Err(InstallError::MissingPackageName)));
}

#[test]
fn watchface_id_reads_the_digit_run() {
    let cfg = XiaomiDeviceConfig::default();
    let mut data = vec![0u8; 80];
    data[34..44].copy_from_slice(b"id12345_xx");
    let id = get_watchface_id(&data, &cfg.res).unwrap();
    assert_eq!(id, b"12345".to_vec());
    assert!(get_watchface_id(&[0u8; 10], &cfg.res).is_none());
    let blank = vec![b'x'; 80];
    assert!(get_watchface_id(&blank, &cfg.res).is_none());
}

#[test]
fn file_types_follow_the_magic_bytes() {
    assert_eq!(get_file_type(&[]), FileType::Null);
    assert_eq!(get_file_type(b"plain text"), FileType::Text);
    assert_eq!(get_file_type(&[0x5a, 0xa5, 0x34, 0x12, 0xFF]), FileType::WatchFace);
    assert_eq!(get_file_type(&[0x80, 0x81, 0x82, 0x83]), FileType::Binary);
    let mut zip = vec![0x50, 0x4B, 0x03, 0x04];
    zip.extend_from_slice(&[0u8; 50]);
    assert_eq!(get_file_type(&zip), FileType::Zip);
    zip.extend_from_slice(b"toolkit");
    assert_eq!(get_file_type(&zip), FileType::ThirdPartyApp);
}

#[test]
fn ingress_queue_applies_backpressure() {
    let mut q = IngressQueue::new(2);
    assert!(q.push_inbound(vec![1]).is_ok());
    assert!(q.push_inbound(vec![2]).is_ok());
    assert_eq!(q.push_inbound(vec![3]), Err(IngressError::Backpressure));
    assert_eq!(q.pop().unwrap(), vec![1]);
    assert!(q.push_inbound(vec![4]).is_ok());
    q.close();
    assert_eq!(q.push_inbound(vec![5]), Err(IngressError::Closed));
}

#[test]
fn icmp_echo_request_draws_a_reply() {
    let mut request = vec![8u8, 0, 0, 0];
    request.extend_from_slice(&[0x12, 0x34, 0x00, 0x07]);
    request.extend_from_slice(b"ping payload");
    let reply = build_icmp_echo_reply(&request).unwrap();
    assert_eq!(reply[0], 0);
    assert_eq!(reply[1], 0);
    // Identifier, sequence and payload come back unchanged.
    assert_eq!(&reply[4..], &request[4..]);
    // A sound ICMP message checksums to zero.
    assert_eq!(compute_checksum(&reply), 0);
    // Anything but an echo request draws nothing.
    assert!(build_icmp_echo_reply(&[0u8, 0, 0, 0, 1, 1, 1, 1]).is_none());
    assert!(build_icmp_echo_reply(&[8u8, 1, 0, 0, 1, 1, 1, 1]).is_none());
    assert!(build_icmp_echo_reply(&[8u8, 0, 0]).is_none());
}

#[test]
fn network_component_publishes_speed() {
    let mut net = NetworkComponent::new(NetworkConfig::default());
    assert_eq!(net.last_speed.write, 0);
    net.update_speed(NetWorkSpeed { write: 10, read: 20 });
    assert_eq!(net.last_speed, NetWorkSpeed { write: 10, read: 20 });
    let m = build_sync_network_status();
    assert_eq!(m.id, WearOp::SyncNetworkStatus);
}

#[test]
fn bandwidth_meter_slides_its_window() {
    let mut meter = BandwidthMeter::new(1000);
    meter.add_written(100, 0);
    meter.add_written(50, 500);
    assert_eq!(meter.write_bytes_in_window(600).unwrap(), 150);
    // The first event ages out of the window.
    assert_eq!(meter.write_bytes_in_window(1500).unwrap(), 50);
    assert_eq!(meter.oldest_write_at(), Some(500));
    meter.add_read(7, 100);
    assert_eq!(meter.read_bytes_in_window(100).unwrap(), 7);
}

#[test]
fn service_commands_carry_their_values() {
    let wf = WatchfaceSystem::new();
    let m = wf.set_watchface("100");
    assert_eq!(m.id, WearOp::SetWatchFace);
    let m = wf.uninstall_watchface("100");
    assert_eq!(m.id, WearOp::RemoveWatchFace);
    let sync = SyncSystem::new();
    let m = sync.set_language(String::from("en_US"));
    match m.payload {
        WearPayload::Language { locale } => assert_eq!(locale, "en_US"),
        _ => panic!("wrong payload"),
    }
}
