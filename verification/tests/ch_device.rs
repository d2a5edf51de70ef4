use kata_block::block_device::{BlockConfigModern, BlockDeviceModern};
use kata_block::ch::api::{
    api_command_not_dispatched, error_of_api, is_api_command_not_dispatched, PciDeviceInfo,
};
use kata_block::ch::config::{
    DiskConfig, FsConfig, ImageType, NetConfig, NetworkConfig, RateLimits, ShareFsConfig,
    ShareFsSettings,
};
use kata_block::ch::device::{
    clh_pci_info_to_path, AddReplies, AddResponse, ChCommand, CloudHypervisorInner, Device,
    DeviceType, HostDevice, HybridVsockConfig, ProtectionDeviceConfig, Settings, VfioDevice,
    VmmState,
};
use kata_block::ch::http::ApiError;
use kata_block::ch::shared::SharedReply;
use kata_block::error::{Error, StatusCode};
use kata_block::pci_path::PciPath;
use kata_block::table::Table;

fn settings() -> Settings {
    Settings {
        vm_path: "/run/vm/sandbox".to_string(),
        netns: Some("/var/run/netns/sandbox".to_string()),
        rootless_link_root: None,
        network_queues: 1,
        block_device_cache_direct: true,
        rate_limits: RateLimits {
            bw_max_rate: 1,
            ops_max_rate: 2,
            bw_one_time_burst: 3,
            ops_one_time_burst: 4,
        },
        boot_image: "/images/kata.img".to_string(),
        boot_initrd: String::new(),
        fs_pci_segment: 9,
    }
}

fn inner() -> CloudHypervisorInner {
    CloudHypervisorInner {
        state: VmmState::VmRunning,
        pending_devices: Vec::new(),
        device_ids: Table::new(),
        settings: settings(),
    }
}

fn block_device(device_id: &str, ordinal: usize) -> BlockDeviceModern {
    BlockDeviceModern {
        device_id: device_id.to_string(),
        attach_count: 0,
        config: BlockConfigModern {
            path_on_host: format!("/var/lib/kata/emptydir-{}/disk.img", ordinal),
            driver_option: "blk".to_string(),
            num_queues: 2,
            queue_size: 256,
            discard_unmap: true,
            ..Default::default()
        },
    }
}

fn device(kind: DeviceType) -> Device {
    Device { described: "a device".to_string(), kind }
}

fn replies() -> AddReplies {
    AddReplies { path: None, fds: None, response: None, removed: None }
}

fn answered(response: AddResponse) -> AddReplies {
    AddReplies { response: Some(response), ..replies() }
}

fn identity(id: &str, bdf: &str) -> AddResponse {
    AddResponse::Identity {
        detail: format!("{{\"id\":\"{}\",\"bdf\":\"{}\"}}", id, bdf),
        info: Ok(PciDeviceInfo { id: id.to_string(), bdf: bdf.to_string() }),
    }
}

fn server_error(status: StatusCode, body: &str) -> Error {
    error_of_api(ApiError::ServerResponse(status, Some(body.to_string())))
}

fn msg(text: &str) -> Error {
    Error::msg(text.to_string())
}

fn is_empty(inner: &CloudHypervisorInner) -> bool {
    inner.device_ids.keys().is_empty()
}

#[test]
fn test_networkconfig_to_netconfig() {
    let mut cfg = NetworkConfig {
        host_dev_name: String::from("tap0"),
        virt_iface_name: String::from("eth0"),
        queue_size: 256,
        queue_num: 2,
        guest_mac: None,
        allow_duplicate_mac: false,
        use_generic_irq: None,
        use_shared_irq: None,
    };

    let net = NetConfig::from_network(&cfg);
    assert_eq!(net.unwrap_err().text(), "Missing mac address for network device");

    let v: [u8; 6] = [10, 11, 128, 3, 4, 5];
    cfg.guest_mac = Some(v);

    let expected = NetConfig {
        tap: Some(cfg.host_dev_name.clone()),
        id: Some(cfg.virt_iface_name.clone()),
        num_queues: cfg.queue_num,
        queue_size: cfg.queue_size as u16,
        mac: v,
        fds: None,
    };

    let net = NetConfig::from_network(&cfg);
    assert!(net.is_ok());
    assert_eq!(net.unwrap(), expected);
}

#[test]
fn mismatched_add_identity_rolls_back_returned_vmm_id() {
    let mut inner = inner();
    let device = block_device("volume-4", 4);

    let add = inner.clone().handle_block_device(&device, replies()).unwrap_err();
    assert!(matches!(add, ChCommand::AddDisk(disk) if disk.id.as_deref() == Some("volume-4")));
    let response = identity("vmm-volume-4", "0000:00:09.0");
    let rollback = inner.clone().handle_block_device(&device, answered(response)).unwrap_err();
    assert!(matches!(rollback, ChCommand::RemoveDevice(id) if id == "vmm-volume-4"));

    let response = identity("vmm-volume-4", "0000:00:09.0");
    let error = inner
        .handle_block_device(&device, AddReplies { removed: Some(Ok(None)), ..answered(response) })
        .unwrap()
        .unwrap_err();
    assert!(error
        .chain_text()
        .contains("returned device identity vmm-volume-4 for block device volume-4"));
    assert!(is_empty(&inner));
}

#[test]
fn invalid_add_response_rolls_back_stable_vmm_identity() {
    let mut inner = inner();
    let device = block_device("volume-4", 4);
    let invalid = || AddResponse::Identity {
        detail: "{\"invalid\":true}".to_string(),
        info: Err("missing field `id`".to_string()),
    };

    let rollback = inner.clone().handle_block_device(&device, answered(invalid())).unwrap_err();
    assert!(matches!(rollback, ChCommand::RemoveDevice(id) if id == "volume-4"));
    let error = inner
        .handle_block_device(&device, AddReplies { removed: Some(Ok(None)), ..answered(invalid()) })
        .unwrap()
        .unwrap_err();
    assert!(error
        .text()
        .contains("rolled back partially attached runtime block device volume-4"));
    assert!(error.chain_text().contains("returned invalid identity"));
    assert!(is_empty(&inner));
}

#[test]
fn failed_mismatched_identity_rollback_retries_returned_vmm_id() {
    let mut inner = inner();
    let block = block_device("volume-5", 5);
    let busy = server_error(StatusCode::InternalServerError, "[\"device remains busy\"]");
    let response = identity("vmm-volume-5", "0000:00:0a.0");
    let error = inner
        .handle_block_device(&block, AddReplies { removed: Some(Err(busy)), ..answered(response) })
        .unwrap()
        .unwrap_err();
    assert!(error.device_state_in_doubt().is_some());
    assert_eq!(inner.device_ids.get("volume-5"), Some(&"vmm-volume-5".to_string()));

    let mut device = device(DeviceType::BlockModern(block));
    let retry = inner.remove_device(&mut device, None).unwrap_err();
    assert!(matches!(retry, ChCommand::RemoveDevice(id) if id == "vmm-volume-5"));
    let gone = server_error(StatusCode::NotFound, "[\"device is already absent\"]");
    inner.remove_device(&mut device, Some(Err(gone))).unwrap().unwrap();

    assert!(is_empty(&inner));
    assert!(matches!(device.kind, DeviceType::BlockModern(block) if block.config.pci_path.is_none()));
}

#[test]
fn lost_add_response_keeps_stable_identity_for_cleanup() {
    let mut inner = inner();
    let block = block_device("volume-lost", 6);
    let error = inner
        .handle_block_device(&block, answered(AddResponse::Failed(msg("connection reset"))))
        .unwrap()
        .unwrap_err();
    assert!(error.device_state_in_doubt().is_some());
    assert_eq!(inner.device_ids.get("volume-lost"), Some(&"volume-lost".to_string()));

    let mut device = device(DeviceType::BlockModern(block));
    let cleanup = inner.remove_device(&mut device, None).unwrap_err();
    assert!(matches!(cleanup, ChCommand::RemoveDevice(id) if id == "volume-lost"));
    inner.remove_device(&mut device, Some(Ok(None))).unwrap().unwrap();
    assert!(is_empty(&inner));
}

#[test]
fn never_dispatched_add_releases_request_identity() {
    let mut inner = inner();
    let block = block_device("volume-never-dispatched", 6);
    let failure = api_command_not_dispatched("PUT", "vm.add-disk", msg("no socket"));
    let error = inner
        .handle_block_device(&block, answered(AddResponse::Failed(failure)))
        .unwrap()
        .unwrap_err();

    assert!(is_api_command_not_dispatched(&error));
    assert!(error.device_state_in_doubt().is_none());
    assert!(is_empty(&inner));
}

#[test]
fn block_remove_without_mapping_uses_stable_identity_and_accepts_not_found() {
    let mut inner = inner();
    let mut device = device(DeviceType::BlockModern(block_device("stable-volume", 7)));
    let remove = inner.remove_device(&mut device, None).unwrap_err();
    assert!(matches!(remove, ChCommand::RemoveDevice(id) if id == "stable-volume"));
    let gone = server_error(StatusCode::NotFound, "[\"device is already absent\"]");
    inner.remove_device(&mut device, Some(Err(gone))).unwrap().unwrap();

    assert!(is_empty(&inner));
    assert!(matches!(device.kind, DeviceType::BlockModern(block) if block.config.pci_path.is_none()));
}

#[test]
fn non_block_remove_without_mapping_remains_strict() {
    let mut inner = inner();
    let vfio = VfioDevice { device_id: "missing-vfio".to_string(), devices: Vec::new() };
    let error = inner
        .remove_device(&mut device(DeviceType::Vfio(vfio)), None)
        .unwrap()
        .unwrap_err();
    assert!(error.text().contains("Cloud Hypervisor device identity is missing"));
}

#[test]
fn definite_add_and_remove_failures_keep_precise_context() {
    let mut fresh = inner();
    let block = block_device("volume-6", 6);
    let busy = server_error(StatusCode::InternalServerError, "[\"backing file is busy\"]");
    let attach_error = fresh
        .handle_block_device(&block, answered(AddResponse::Failed(busy)))
        .unwrap()
        .unwrap_err()
        .chain_text();
    assert!(attach_error.contains("failed to attach block device volume-6"));
    assert!(attach_error.contains("/var/lib/kata/emptydir-6/disk.img"));
    assert!(attach_error.contains("backing file is busy"));
    assert!(is_empty(&fresh));

    let mut fresh = inner();
    let mut block = block_device("volume-7", 7);
    let path = fresh
        .handle_block_device(&block, answered(identity("volume-7", "0000:00:0c.0")))
        .unwrap()
        .unwrap();
    assert_eq!(path.as_ref().unwrap().to_text(), "0c");
    block.config.pci_path = path;
    let mut device = device(DeviceType::BlockModern(block));
    let busy = server_error(StatusCode::InternalServerError, "[\"device is still in use\"]");
    let detach_error = fresh
        .remove_device(&mut device, Some(Err(busy)))
        .unwrap()
        .unwrap_err()
        .chain_text();
    assert!(
        detach_error.contains("failed to detach runtime device volume-7 (VMM device volume-7)")
    );
    assert!(detach_error.contains("device is still in use"));
    assert_eq!(fresh.device_ids.get("volume-7"), Some(&"volume-7".to_string()));
    assert!(matches!(device.kind, DeviceType::BlockModern(block) if block.config.pci_path.is_some()));
}

#[test]
fn address_on_the_root_bus_is_a_path() {
    assert_eq!(clh_pci_info_to_path("0000:00:0b.0").unwrap().to_text(), "0b");
    for bdf in ["0001:00:0b.0", "0000:01:0b.0", "0000:00:0b.1", "0000:00:b.0", "0000:00", "00:0b.0"] {
        let error = clh_pci_info_to_path(bdf).unwrap_err();
        assert_eq!(
            error.text(),
            format!("Unexpected PCI address {:?} for clh device add", bdf)
        );
    }
    assert!(clh_pci_info_to_path("0000:00:zz.0").is_err());
}

#[test]
fn answer_without_identity_is_taken_back() {
    let mut inner = inner();
    let block = block_device("volume-8", 8);
    let error = inner
        .handle_block_device(
            &block,
            AddReplies { removed: Some(Ok(None)), ..answered(AddResponse::Empty) },
        )
        .unwrap()
        .unwrap_err();
    assert!(error.chain_text().contains("without returning guest device identity"));
    let error = inner
        .handle_block_device(
            &block,
            AddReplies {
                removed: Some(Ok(None)),
                ..answered(identity("volume-8", "0000:07:0b.0"))
            },
        )
        .unwrap()
        .unwrap_err();
    assert!(error
        .chain_text()
        .contains("returned invalid PCI identity for block device volume-8"));
}

#[test]
fn disk_follows_device_and_settings() {
    let inner = inner();
    let mut config = block_device("volume-1", 1).config;
    let disk = inner.make_disk_config(&config);
    assert_eq!(
        disk,
        DiskConfig {
            path: Some("/var/lib/kata/emptydir-1/disk.img".to_string()),
            id: None,
            readonly: false,
            direct: true,
            sparse: true,
            num_queues: 2,
            queue_size: 256,
            image_type: ImageType::Raw,
            rate_limits: Some(settings().rate_limits),
        }
    );
    config.is_direct = Some(false);
    assert!(!inner.make_disk_config(&config).direct);
    assert!(inner.is_vm_boot_file("/images/kata.img"));
    assert!(!inner.is_vm_boot_file(""));
}

fn share() -> ShareFsConfig {
    ShareFsConfig {
        fs_type: "virtio-fs".to_string(),
        sock_path: "virtiofsd.sock".to_string(),
        mount_tag: "kataShared".to_string(),
        queue_size: 1024,
        queue_num: 1,
    }
}

#[test]
fn shared_file_system_is_joined_below_the_vm() {
    let inner = inner();
    let join = inner.handle_share_fs_device(&share(), replies()).unwrap_err();
    match join {
        ChCommand::ScopedJoin { root, path } => {
            assert_eq!(root, "/run/vm/sandbox");
            assert_eq!(path, "virtiofsd.sock");
        }
        other => panic!("unexpected command {:?}", other),
    }
    let joined =
        AddReplies { path: Some(Ok("/run/vm/sandbox/virtiofsd.sock".to_string())), ..replies() };
    match inner.handle_share_fs_device(&share(), joined).unwrap_err() {
        ChCommand::AddFs(fs) => assert_eq!(
            fs,
            FsConfig {
                tag: "kataShared".to_string(),
                socket: "/run/vm/sandbox/virtiofsd.sock".to_string(),
                num_queues: 1,
                queue_size: 1024,
                pci_segment: Some(9),
            }
        ),
        other => panic!("unexpected command {:?}", other),
    }
    let mut inline = share();
    inline.fs_type = "inline-virtio-fs".to_string();
    assert_eq!(
        inner.handle_share_fs_device(&inline, replies()).unwrap().unwrap_err().text(),
        "cannot handle share fs type: \"inline-virtio-fs\""
    );
    let mut large = share();
    large.queue_size = 65_536;
    assert_eq!(
        inner.handle_share_fs_device(&large, replies()).unwrap().unwrap_err().text(),
        "out of range integral type conversion attempted"
    );
    let settings = ShareFsSettings::new(large, "/run/vm/sandbox".to_string());
    assert!(FsConfig::from_settings(&settings).is_err());
}

fn tap() -> NetworkConfig {
    NetworkConfig {
        host_dev_name: "tap0".to_string(),
        virt_iface_name: "eth0".to_string(),
        queue_size: 256,
        queue_num: 0,
        guest_mac: Some([2, 0, 0, 0, 0, 1]),
        allow_duplicate_mac: false,
        use_generic_irq: None,
        use_shared_irq: None,
    }
}

#[test]
fn network_interface_is_handed_over_open() {
    let inner = inner();
    assert!(matches!(
        inner.handle_network_device(&tap(), replies()).unwrap_err(),
        ChCommand::OpenTap { name, queues: 1 } if name == "tap0"
    ));
    let open = AddReplies { fds: Some(Ok(vec![8])), ..replies() };
    match inner.handle_network_device(&tap(), open).unwrap_err() {
        ChCommand::AddNet(net, fds) => {
            assert_eq!(fds, vec![8]);
            assert_eq!(net.num_queues, 2);
            assert!(net.tap.is_none() && net.id.is_none());
        }
        other => panic!("unexpected command {:?}", other),
    }
    let failed = AddReplies { fds: Some(Err(msg("EBUSY"))), ..replies() };
    let error = inner.handle_network_device(&tap(), failed).unwrap().unwrap_err();
    assert_eq!(error.chain_text(), "open named tuntap: EBUSY");
}

fn vfio() -> VfioDevice {
    VfioDevice {
        device_id: "vfio-1".to_string(),
        devices: vec![HostDevice { sysfs_path: "/sys/x".to_string(), guest_pci_path: None }],
    }
}

#[test]
fn passed_through_device_gets_an_identity() {
    let mut inner = inner();
    assert!(matches!(
        inner.handle_vfio_device(&vfio(), "vfio", replies()).unwrap_err(),
        ChCommand::AddDevice(config) if config.path == "/sys/x" && !config.iommu
    ));
    let path = inner
        .handle_vfio_device(&vfio(), "vfio", answered(identity("_vfio5", "0000:00:06.0")))
        .unwrap()
        .unwrap();
    assert_eq!(path.unwrap().to_text(), "06");
    assert_eq!(inner.device_ids.get("vfio-1"), Some(&"_vfio5".to_string()));
    let empty = VfioDevice { device_id: "vfio-2".to_string(), devices: Vec::new() };
    assert_eq!(
        inner.handle_vfio_device(&empty, "vfio-2", replies()).unwrap().unwrap_err().text(),
        "Primary device list empty for vfio device vfio-2"
    );
}

#[test]
fn devices_wait_for_the_virtual_machine() {
    let mut inner = inner();
    inner.state = VmmState::NotReady;
    for id in ["first", "second"] {
        let block = device(DeviceType::BlockModern(block_device(id, 0)));
        assert!(inner.add_device(block, replies()).unwrap().unwrap().is_none());
    }
    assert!(inner.add_device(device(DeviceType::Other), replies()).unwrap().is_ok());
    assert_eq!(inner.pending_devices.len(), 2);
    assert_eq!(
        inner.handle_pending_devices_after_boot(Vec::new()).unwrap().unwrap_err().text(),
        "cannot handle pending devices with VMM state NotReady"
    );

    inner.state = VmmState::VmRunning;
    let first = inner.clone().handle_pending_devices_after_boot(Vec::new()).unwrap_err();
    assert!(matches!(first, ChCommand::AddDisk(disk) if disk.id.as_deref() == Some("first")));
    let answers = vec![
        answered(identity("first", "0000:00:01.0")),
        answered(identity("second", "0000:00:02.0")),
    ];
    inner.handle_pending_devices_after_boot(answers).unwrap().unwrap();
    assert!(inner.pending_devices.is_empty());
    assert_eq!(inner.device_ids.keys().len(), 2);

    let vsock = DeviceType::HybridVsock(HybridVsockConfig {
        guest_cid: 3,
        uds_path: "/run/clh.sock".to_string(),
    });
    assert!(matches!(
        inner.add_device(device(vsock), replies()).unwrap_err(),
        ChCommand::AddVsock(config) if config.cid == 3 && config.socket == "/run/clh.sock"
    ));
    assert_eq!(
        inner.add_device(device(DeviceType::Other), replies()).unwrap().unwrap_err().text(),
        "unhandled device: a device"
    );
}

/// The devices that waited are there at boot, the oldest one first.
#[test]
fn oldest_device_is_collected_first() {
    let mut inner = inner();
    inner.state = VmmState::NotReady;
    inner.settings.rootless_link_root = Some("/run/user/1000/links".to_string());
    let tdx = ProtectionDeviceConfig::Tdx { mrconfigid: Some(vec![1, 2]) };
    let kinds = vec![
        DeviceType::ShareFs(share()),
        DeviceType::Network(tap()),
        DeviceType::Vfio(vfio()),
        DeviceType::Protection(tdx),
        DeviceType::BlockModern(block_device("first", 1)),
        DeviceType::BlockModern(block_device("second", 2)),
    ];
    for kind in kinds {
        inner.add_device(device(kind), replies()).unwrap().unwrap();
    }
    let first = inner.clone().get_shared_devices(Vec::new()).unwrap_err();
    assert!(matches!(first, ChCommand::CreateDir(path) if path == "/run/user/1000/links"));
    let second =
        inner.clone().get_shared_devices(vec![SharedReply::Done(Ok(()))]).unwrap_err();
    match second {
        ChCommand::Symlink { target, link } => {
            assert_eq!(target, "/run/vm/sandbox/virtiofsd.sock");
            assert_eq!(link, "/run/user/1000/links/virtiofsd.sock");
        }
        other => panic!("unexpected command {:?}", other),
    }
    let all = vec![
        SharedReply::Done(Ok(())),
        SharedReply::Done(Ok(())),
        SharedReply::Done(Ok(())),
        SharedReply::Fds(Ok(vec![7])),
        SharedReply::Config(block_device("first", 1).config),
        SharedReply::Config(block_device("second", 2).config),
    ];
    let shared = inner.get_shared_devices(all).unwrap().unwrap();
    assert_eq!(shared.shared_fs_devices[0].socket, "/run/user/1000/links/virtiofsd.sock");
    assert_eq!(shared.network_devices[0].fds, Some(vec![7]));
    assert_eq!(shared.host_devices[0].path, "/sys/x");
    assert_eq!(shared.protection_device.mrconfigid, Some(vec![1, 2]));
    assert_eq!(shared.protection_device.host_data, None);
    let paths: Vec<_> = shared.boot_disks.iter().map(|disk| disk.path.clone().unwrap()).collect();
    assert_eq!(
        paths,
        ["/var/lib/kata/emptydir-1/disk.img", "/var/lib/kata/emptydir-2/disk.img"]
    );
    assert!(inner.pending_devices.is_empty());
}

#[test]
fn boot_files_and_serial_disks_are_left_out() {
    let mut inner = inner();
    inner.state = VmmState::NotReady;
    for id in ["image", "serial"] {
        let block = DeviceType::BlockModern(block_device(id, 0));
        inner.add_device(device(block), replies()).unwrap().unwrap();
    }
    let image = BlockConfigModern {
        path_on_host: "/images/kata.img".to_string(),
        ..Default::default()
    };
    let serial = BlockConfigModern {
        path_on_host: "/disk".to_string(),
        serial_override: "s1".to_string(),
        ..Default::default()
    };
    let replies = vec![SharedReply::Config(image), SharedReply::Config(serial)];
    let shared = inner.get_shared_devices(replies).unwrap().unwrap();
    assert!(shared.boot_disks.is_empty());
}

#[test]
fn paths_are_written_as_they_are_read() {
    for text in ["04/00", "0b", "1f/1f/01"] {
        assert_eq!(PciPath::from_text(text).unwrap().to_text(), text);
    }
    assert_eq!(PciPath::from_text("4/0").unwrap().to_text(), "04/00");
    for text in ["", "20", "123", "zz", "04/"] {
        assert!(PciPath::from_text(text).is_err(), "{}", text);
    }
    assert!(PciPath::from_slots(&vec![1, 32]).is_err());
    assert!(PciPath::from_slots(&vec![-1]).is_err());
    assert!(PciPath::from_slots(&Vec::new()).is_err());
    let path = PciPath::from_slots(&vec![4, 0]).unwrap();
    assert!(path.same_path(&path.dup()));
}
