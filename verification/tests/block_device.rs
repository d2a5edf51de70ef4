use kata_block::block_device::{
    BlockCleanupState, BlockConfigModern, BlockDeviceAio, BlockDeviceCleanupPending, VmdkConfig,
    MAX_VMDK_EXTENT_SECTORS,
};
use kata_block::block_handle::{
    cleanup_state_in_doubt, do_decrease_count, do_increase_count, pending_cleanup_state,
    uses_qemu_pcie_root_port, BackendReply, BlockDeviceModernHandle, DeviceCommand, DeviceReplies,
    PCIeTopology, HYPERVISOR_QEMU,
};
use kata_block::ch::api::{api_command_not_dispatched, is_api_command_not_dispatched};
use kata_block::error::{Error, Layer};

fn msg(text: &str) -> Error {
    Error::msg(text.to_string())
}

fn qemu() -> Option<PCIeTopology> {
    Some(PCIeTopology { hypervisor_name: HYPERVISOR_QEMU.to_string() })
}

fn replies() -> DeviceReplies {
    DeviceReplies { reserved: None, backend: None, released: None }
}

fn backend(config: &BlockConfigModern, failure: Option<Error>) -> DeviceReplies {
    DeviceReplies {
        backend: Some(BackendReply { config: config.clone(), failure }),
        ..replies()
    }
}

fn on_root_port() -> BlockConfigModern {
    BlockConfigModern { use_pcie_root_port: true, index: 3, ..Default::default() }
}

fn cleanup_error(state: BlockCleanupState) -> Error {
    Error::of(Layer::CleanupPending(BlockDeviceCleanupPending::with_state(
        "drive-3".to_string(),
        "injected incomplete cleanup".to_string(),
        state,
    )))
}

const BACKEND_LEFT: BlockCleanupState =
    BlockCleanupState { frontend: false, backend: true, fdsets: true };

#[test]
fn root_port_requirement_is_qemu_specific() {
    let config = BlockConfigModern { use_pcie_root_port: true, ..Default::default() };
    let qemu_topology = PCIeTopology { hypervisor_name: HYPERVISOR_QEMU.to_string() };
    let cloud_hypervisor_topology =
        PCIeTopology { hypervisor_name: "cloud-hypervisor".to_string() };

    assert!(uses_qemu_pcie_root_port(&config, &Some(qemu_topology)).unwrap());
    assert!(!uses_qemu_pcie_root_port(&config, &Some(cloud_hypervisor_topology)).unwrap());
    assert!(uses_qemu_pcie_root_port(&config, &None).is_err());

    let unrelated_config = BlockConfigModern::default();
    assert!(!uses_qemu_pcie_root_port(&unrelated_config, &None).unwrap());
}

#[test]
fn incomplete_cleanup_uses_foundation_in_doubt_marker() {
    let state = BlockCleanupState { frontend: false, backend: true, fdsets: true };
    let cleanup_error = BlockDeviceCleanupPending::with_state(
        "drive-3".to_string(),
        "injected incomplete cleanup".to_string(),
        state,
    );
    let error = cleanup_state_in_doubt(
        "drive-3".to_string(),
        Error::of(Layer::CleanupPending(cleanup_error)),
    );

    assert!(error.device_state_in_doubt().is_some());
}

#[test]
fn cleanup_state_knows_when_it_is_complete() {
    assert!(BlockCleanupState::default().is_complete());
    assert!(!BlockCleanupState::attached(false).is_complete());
    assert_eq!(
        BlockCleanupState::attached(true),
        BlockCleanupState { frontend: true, backend: true, fdsets: true }
    );
    assert_eq!(pending_cleanup_state(&cleanup_error(BACKEND_LEFT)), Some(BACKEND_LEFT));
    assert_eq!(pending_cleanup_state(&msg("other")), None);
}

/// An implementation is found again under its own name.
#[test]
fn aio_goes_by_its_name() {
    for aio in [BlockDeviceAio::IoUring, BlockDeviceAio::Native, BlockDeviceAio::Threads] {
        assert_eq!(BlockDeviceAio::new(&aio.to_text()), aio);
    }
    assert_eq!(BlockDeviceAio::new("anything"), BlockDeviceAio::IoUring);
    assert_eq!(BlockDeviceAio::default().to_text(), "iouring");
}

/// Cutting a file into runs loses no sector and counts none twice.
#[test]
fn chunks_cover_the_file() {
    let mut vmdk = VmdkConfig { extents: Vec::new() };
    vmdk.push_extent("/a", 7, 5);
    vmdk.push_extent_chunked("/b", 2 * MAX_VMDK_EXTENT_SECTORS + 1);
    assert_eq!(vmdk.total_sectors(), Some(2 * MAX_VMDK_EXTENT_SECTORS + 8));
    let runs: Vec<_> = vmdk
        .extents
        .iter()
        .map(|extent| (extent.path_on_host.as_str(), extent.sectors, extent.file_offset))
        .collect();
    assert_eq!(
        runs,
        [
            ("/a", 7, 5),
            ("/b", MAX_VMDK_EXTENT_SECTORS, 0),
            ("/b", MAX_VMDK_EXTENT_SECTORS, MAX_VMDK_EXTENT_SECTORS),
            ("/b", 1, 2 * MAX_VMDK_EXTENT_SECTORS),
        ]
    );
    vmdk.push_extent("/c", u64::MAX, 0);
    assert_eq!(vmdk.total_sectors(), None);
}

#[test]
fn owners_are_counted() {
    let mut count = 0;
    assert!(!do_increase_count(&mut count).unwrap());
    assert!(do_increase_count(&mut count).unwrap());
    assert_eq!(count, 2);
    assert!(do_decrease_count(&mut count).unwrap());
    assert!(!do_decrease_count(&mut count).unwrap());
    assert_eq!(count, 0);
    assert!(do_decrease_count(&mut count).is_err());
    count = u64::MAX;
    assert!(do_increase_count(&mut count).is_err());
    assert_eq!(count, u64::MAX);
}

#[test]
fn device_comes_and_goes_over_a_root_port() {
    let mut handle = BlockDeviceModernHandle::new("drive-3".to_string(), on_root_port());
    assert_eq!(handle.device_id(), "drive-3");
    assert!(matches!(
        handle.clone().attach(&qemu(), false, replies()),
        Err(DeviceCommand::ReserveRootPort)
    ));
    let reserved = DeviceReplies { reserved: Some(Ok("rp2".to_string())), ..replies() };
    let mut waiting = handle.clone();
    assert!(matches!(waiting.attach(&qemu(), false, reserved), Err(DeviceCommand::AddDevice)));
    assert_eq!(waiting.device.config.pcie_root_port.as_deref(), Some("rp2"));

    let placed = waiting.device.config.clone();
    let added =
        DeviceReplies { reserved: Some(Ok("rp2".to_string())), ..backend(&placed, None) };
    handle.attach(&qemu(), false, added).unwrap().unwrap();
    assert_eq!(handle.attach_count(), 1);

    assert!(matches!(
        handle.clone().detach(&qemu(), replies()),
        Err(DeviceCommand::RemoveDevice)
    ));
    assert!(matches!(
        handle.clone().detach(&qemu(), backend(&placed, None)),
        Err(DeviceCommand::ReleaseBus)
    ));
    let released = DeviceReplies { released: Some(Ok(())), ..backend(&placed, None) };
    assert_eq!(handle.detach(&qemu(), released).unwrap().unwrap(), Some(3));
    assert_eq!(handle.attach_count(), 0);
    assert!(handle.device.config.pcie_root_port.is_none());
    assert!(handle.detach(&qemu(), replies()).unwrap().is_err());
}

/// Owners after the first, and before the last, only count.
#[test]
fn inner_owners_only_count() {
    let mut handle =
        BlockDeviceModernHandle::new("drive-1".to_string(), BlockConfigModern::default());
    let config = handle.device.config.clone();
    handle.attach(&None, false, backend(&config, None)).unwrap().unwrap();
    handle.attach(&None, false, replies()).unwrap().unwrap();
    assert_eq!(handle.attach_count(), 2);
    assert_eq!(handle.detach(&None, replies()).unwrap().unwrap(), None);
    assert_eq!(handle.attach_count(), 1);
}

/// An attachment that surely failed leaves the owners as they were.
#[test]
fn failed_attach_keeps_the_owners() {
    let mut handle = BlockDeviceModernHandle::new("drive-3".to_string(), on_root_port());
    let config = handle.device.config.clone();
    let failed = || DeviceReplies {
        reserved: Some(Ok("rp2".to_string())),
        ..backend(&config, Some(msg("no such driver")))
    };
    assert!(matches!(
        handle.clone().attach(&qemu(), false, failed()),
        Err(DeviceCommand::ReleaseBus)
    ));
    let released = DeviceReplies { released: Some(Ok(())), ..failed() };
    let error = handle.attach(&qemu(), false, released).unwrap().unwrap_err();
    assert_eq!(error.text(), "no such driver");
    assert_eq!(handle.attach_count(), 0);
    assert!(!handle.attach_pending);

    let error = handle.attach(&None, false, replies()).unwrap().unwrap_err();
    assert_eq!(error.text(), "required PCIe topology is unavailable for block device");
    assert_eq!(handle.attach_count(), 0);
    let refused = DeviceReplies { reserved: Some(Err(msg("no root port"))), ..replies() };
    assert!(handle.attach(&qemu(), false, refused).unwrap().is_err());
    assert_eq!(handle.attach_count(), 0);
}

/// A device of which something is left is not attached again before it is cleaned up.
#[test]
fn pending_cleanup_blocks_the_next_attach() {
    let mut handle =
        BlockDeviceModernHandle::new("drive-3".to_string(), BlockConfigModern::default());
    let config = handle.device.config.clone();
    let error = handle
        .attach(&None, true, backend(&config, Some(cleanup_error(BACKEND_LEFT))))
        .unwrap()
        .unwrap_err();
    assert!(error.device_state_in_doubt().is_some());
    assert_eq!(handle.device.config.cleanup_state, Some(BACKEND_LEFT));
    assert_eq!(handle.attach_count(), 1);

    let error = handle.attach(&None, true, replies()).unwrap().unwrap_err();
    assert!(error.device_state_in_doubt().is_some());
    assert!(error.text().contains(
        "QEMU cleanup remains pending: \
         BlockCleanupState { frontend: false, backend: true, fdsets: true }"
    ));

    let cleaned = backend(&handle.device.config.clone(), None);
    assert_eq!(handle.detach(&None, cleaned).unwrap().unwrap(), Some(0));
    assert_eq!(handle.device.config.cleanup_state, None);
}

#[test]
fn unclassified_failures_are_kept_where_asked() {
    let config = BlockConfigModern {
        retain_on_unclassified_attach_error: true,
        ..Default::default()
    };
    let mut handle = BlockDeviceModernHandle::new("drive-4".to_string(), config.clone());
    let error = handle
        .attach(&None, false, backend(&config, Some(msg("unknown"))))
        .unwrap()
        .unwrap_err();
    assert!(error.device_state_in_doubt().is_some());
    assert!(error.chain_text().ends_with("unknown"));
    assert!(handle.attach_pending);
    assert_eq!(handle.attach_count(), 1);
    // The retry joins the attachment, and counts no owner more.
    handle.attach(&None, false, backend(&config, None)).unwrap().unwrap();
    assert_eq!(handle.attach_count(), 1);
    assert!(!handle.attach_pending);
}

#[test]
fn failed_detach_keeps_the_owner() {
    let mut handle =
        BlockDeviceModernHandle::new("drive-5".to_string(), BlockConfigModern::default());
    let config = handle.device.config.clone();
    handle.attach(&None, false, backend(&config, None)).unwrap().unwrap();
    let error =
        handle.detach(&None, backend(&config, Some(msg("busy")))).unwrap().unwrap_err();
    assert_eq!(error.text(), "busy");
    assert_eq!(handle.attach_count(), 1);
    let error = handle
        .detach(&None, backend(&config, Some(cleanup_error(BACKEND_LEFT))))
        .unwrap()
        .unwrap_err();
    assert!(error.device_state_in_doubt().is_some());
    assert_eq!(handle.device.config.cleanup_state, Some(BACKEND_LEFT));
}

/// Context on top of an error hides nothing of what it says.
#[test]
fn context_hides_nothing() {
    let error = cleanup_error(BACKEND_LEFT).context("detach".to_string()).context_str("stop");
    assert_eq!(error.text(), "stop");
    assert_eq!(error.cleanup_pending(), Some(BACKEND_LEFT));
    assert!(error.chain_text().starts_with("stop: detach: "));
    assert!(error.chain_text().contains("injected incomplete cleanup"));
    let doubt = Error::in_doubt("drive-1".to_string(), "lost".to_string()).context_str("attach");
    assert!(doubt.device_state_in_doubt().is_some());
    assert!(!doubt.is_cleanup_pending());
    let unsent = api_command_not_dispatched("PUT", "vm.add-disk", msg("no socket"));
    assert!(is_api_command_not_dispatched(&unsent.context_str("attach").context_str("plug")));
    assert!(!is_api_command_not_dispatched(&doubt));
}

#[test]
fn snapshot_is_the_configuration() {
    let handle = BlockDeviceModernHandle::new("drive-3".to_string(), on_root_port());
    let snapshot = handle.snapshot_config();
    assert_eq!(snapshot.use_pcie_root_port, on_root_port().use_pcie_root_port);
    assert_eq!(snapshot.driver_option, on_root_port().driver_option);
    assert_eq!(snapshot.path_on_host, on_root_port().path_on_host);
}
