use std::collections::{BTreeMap, BTreeSet};

use kata_block::block_device::BlockConfigModern;
use kata_block::block_handle::{
    BackendReply, BlockDeviceModernHandle, DeviceCommand, DeviceReplies, PCIeTopology,
};
use kata_block::error::{EphemeralDiskInfo, Error};
use kata_block::volume::artifacts::{
    block_emptydir_metadata, block_emptydir_mount_options, pending_ephemeral_disk,
};
use kata_block::volume::disk_store::EphemeralDiskStore;
use kata_block::volume::emptydir::{
    agent_mount_point, block_emptydir_driver, configure_block_emptydir_storage,
    is_block_emptydir_mode, use_qemu_pcie_root_port, BlockEmptyDirVolume, EmptyDirSettings,
};
use kata_block::volume::finalize::VolumeResource;
use kata_block::volume::handler::{
    is_block_emptydir_volume, is_skip_volume, need_local_volume, HandledVolume, MountFacts,
    VolumeContext,
};
use kata_block::volume::reconcile::reconcile_snapshot_occurrences;
use kata_block::volume::wire::{
    BuiltVolume, DeviceRemoval, HostInfo, RootPorts, Storage, VolumeCommand, VolumeKind,
    VolumeReply, VolumeSession,
};

const VIRTIO_SCSI: &str = "virtio-scsi";
const VIRTIO_BLK_PCI: &str = "virtio-blk-pci";
const VIRTIO_BLK_CCW: &str = "virtio-blk-ccw";
const VIRTIO_BLK_MMIO: &str = "virtio-blk-mmio";
const CREATE_FS: &str = "kata.block.create-fs=true";
const BLOCK_PLAIN: &str = "block-plain";

fn msg(text: &str) -> Error {
    Error::msg(text.to_string())
}

/// A host with a hypervisor, as far as volumes see it.
struct Host {
    files: BTreeMap<String, u64>,
    mounted: BTreeSet<String>,
    /// Files that cannot be removed.
    stuck: BTreeSet<String>,
    devices: Vec<BlockDeviceModernHandle>,
    next_device: u64,
    attempted: Vec<(String, String)>,
    adds: Vec<BlockConfigModern>,
    removed_paths: Vec<String>,
    running: bool,
    hot_unplug: bool,
    fail_add_at: Option<usize>,
    ambiguous_add_at: Option<usize>,
    hidden: BTreeSet<String>,
    info: HostInfo,
    /// What cleaning the volumes of other kinds comes to: how often it fails, by ordinal.
    cleanup_failures: BTreeMap<u64, usize>,
    cleaned: Vec<u64>,
    refused_ordinal: Option<usize>,
    direct: BTreeSet<usize>,
}

impl Host {
    fn new() -> Host {
        Host {
            files: BTreeMap::new(),
            mounted: BTreeSet::new(),
            stuck: BTreeSet::new(),
            devices: Vec::new(),
            next_device: 0,
            attempted: Vec::new(),
            adds: Vec::new(),
            removed_paths: Vec::new(),
            running: true,
            hot_unplug: true,
            fail_add_at: None,
            ambiguous_add_at: None,
            hidden: BTreeSet::new(),
            info: HostInfo {
                block_device_driver: VIRTIO_BLK_MMIO.to_string(),
                block_device_aio: "threads".to_string(),
                num_queues: 1,
                queue_size: 128,
                logical_sector_size: 0,
                physical_sector_size: 0,
                machine_type: "virt".to_string(),
                topology: None,
            },
            cleanup_failures: BTreeMap::new(),
            cleaned: Vec::new(),
            refused_ordinal: None,
            direct: BTreeSet::new(),
        }
    }

    fn failing_at(ordinal: usize) -> Host {
        Host { fail_add_at: Some(ordinal), ..Host::new() }
    }

    fn topology(&self) -> Option<PCIeTopology> {
        self.info
            .topology
            .as_ref()
            .map(|ports| PCIeTopology { hypervisor_name: ports.hypervisor_name.clone() })
    }

    fn registered(&self, device_id: &str) -> Option<usize> {
        self.devices.iter().position(|handle| handle.device.device_id == device_id)
    }

    fn find(&self, path: &str) -> Option<usize> {
        self.devices.iter().position(|handle| {
            handle.device.config.path_on_host == path
                && !self.hidden.contains(&handle.device.device_id)
        })
    }

    fn attach(&mut self, config: &BlockConfigModern) -> (String, Result<(), Error>) {
        let at = match self.find(&config.path_on_host) {
            Some(at) => at,
            None => {
                let index = (0..)
                    .find(|index| self.devices.iter().all(|h| h.device.config.index != *index))
                    .unwrap();
                let config = BlockConfigModern { index, ..config.clone() };
                let id = format!("device-{}", self.next_device);
                self.next_device += 1;
                self.devices.push(BlockDeviceModernHandle::new(id, config));
                self.devices.len() - 1
            }
        };
        let id = self.devices[at].device.device_id.clone();
        let topology = self.topology();
        let mut reserved = None;
        let mut released = None;
        let mut backend: Option<BackendReply> = None;
        loop {
            let mut handle = self.devices[at].clone();
            let replies = DeviceReplies {
                reserved: reserved.clone(),
                backend: backend.clone(),
                released: released.clone(),
            };
            match handle.attach(&topology, false, replies) {
                Ok(result) => {
                    self.devices[at] = handle;
                    if self.devices[at].attach_count() == 0 {
                        self.devices.remove(at);
                    }
                    return (id, result);
                }
                Err(DeviceCommand::ReserveRootPort) => {
                    let bus = format!("rp{}", handle.device.config.index);
                    reserved = Some(Ok(bus));
                }
                Err(DeviceCommand::ReleaseBus) => released = Some(Ok(())),
                Err(DeviceCommand::AddDevice) => {
                    let config = handle.device.config.clone();
                    let ordinal = self.attempted.len() + 1;
                    self.attempted.push((id.clone(), config.path_on_host.clone()));
                    self.adds.push(config.clone());
                    let failure = if self.fail_add_at == Some(ordinal) {
                        Some(msg("injected add_device failure"))
                    } else if self.ambiguous_add_at == Some(ordinal) {
                        self.hidden.insert(id.clone());
                        Some(Error::in_doubt(
                            id.clone(),
                            "injected ambiguous add_device failure".to_string(),
                        ))
                    } else {
                        None
                    };
                    backend = Some(BackendReply { config, failure });
                }
                Err(DeviceCommand::RemoveDevice) => unreachable!(),
            }
        }
    }

    fn detach(&mut self, device_id: &str) -> VolumeReply {
        let at = match self.registered(device_id) {
            Some(at) => at,
            None => return VolumeReply::Failed(msg("no such device")),
        };
        let topology = self.topology();
        let mut released = None;
        let mut backend: Option<BackendReply> = None;
        loop {
            let mut handle = self.devices[at].clone();
            let replies = DeviceReplies {
                reserved: None,
                backend: backend.clone(),
                released: released.clone(),
            };
            match handle.detach(&topology, replies) {
                Ok(Ok(Some(_))) => {
                    self.devices.remove(at);
                    return VolumeReply::Removal(DeviceRemoval::Detached);
                }
                Ok(Ok(None)) => {
                    self.devices[at] = handle;
                    return VolumeReply::Removal(DeviceRemoval::ReferenceReleased);
                }
                Ok(Err(error)) => {
                    self.devices[at] = handle;
                    return VolumeReply::Failed(error);
                }
                Err(DeviceCommand::ReleaseBus) => released = Some(Ok(())),
                Err(DeviceCommand::RemoveDevice) => {
                    let config = handle.device.config.clone();
                    let failure = if !self.running {
                        Some(msg("remove_device called after VM stop"))
                    } else if !self.hot_unplug {
                        Some(msg("hot unplug unsupported"))
                    } else {
                        self.removed_paths.push(config.path_on_host.clone());
                        None
                    };
                    backend = Some(BackendReply { config, failure });
                }
                Err(other) => panic!("unexpected command {:?}", other),
            }
        }
    }

    fn remove_file(&mut self, path: &str) -> VolumeReply {
        if self.stuck.contains(path) {
            VolumeReply::Failed(msg("is a directory"))
        } else if self.files.remove(path).is_some() {
            VolumeReply::Done
        } else {
            VolumeReply::NotFound
        }
    }

    fn clean(&mut self, volume: u64) -> VolumeReply {
        self.cleaned.push(volume);
        match self.cleanup_failures.get_mut(&volume) {
            Some(failures) if *failures > 0 => {
                *failures -= 1;
                VolumeReply::Failed(msg(&format!("volume {} cleanup failed", volume)))
            }
            _ => VolumeReply::Done,
        }
    }

    fn answer(&mut self, resource: &mut VolumeResource, command: &VolumeCommand) -> VolumeReply {
        let store = &mut resource.ephemeral_disks;
        let done = |result: Result<(), Error>| match result {
            Ok(()) => VolumeReply::Done,
            Err(error) => VolumeReply::Failed(error),
        };
        match command {
            VolumeCommand::LockTransaction(_)
            | VolumeCommand::OpenLock(_)
            | VolumeCommand::LockFile(_)
            | VolumeCommand::CreateDirs(_)
            | VolumeCommand::HugePageLimits => VolumeReply::Done,
            VolumeCommand::Stat(_) => VolumeReply::Number(0),
            VolumeCommand::AllocateTrackingId => match store.allocate_tracking_id() {
                Ok(id) => VolumeReply::Number(id),
                Err(error) => VolumeReply::Failed(error),
            },
            VolumeCommand::IsVolumeMounted(source) => {
                VolumeReply::Flag(self.mounted.contains(source))
            }
            VolumeCommand::JoinPath { path, .. } => VolumeReply::Path(path.clone()),
            VolumeCommand::Exists(path) => VolumeReply::Flag(self.mounted.contains(path)),
            VolumeCommand::CreateDisk(path) => {
                if self.files.contains_key(path) {
                    VolumeReply::AlreadyExists
                } else {
                    self.files.insert(path.clone(), 0);
                    VolumeReply::Done
                }
            }
            VolumeCommand::Statfs(_) => VolumeReply::Filesystem { blocks: 1024, block_size: 4096 },
            VolumeCommand::SetLen { path, length } => {
                self.files.insert(path.clone(), *length);
                VolumeReply::Done
            }
            VolumeCommand::AddMountInfo { source, .. } => {
                self.mounted.insert(source.clone());
                VolumeReply::Done
            }
            VolumeCommand::RemoveFile(path) => self.remove_file(path),
            VolumeCommand::RemoveVolumePath(source) => {
                if self.mounted.remove(source) {
                    VolumeReply::Done
                } else {
                    VolumeReply::NotFound
                }
            }
            VolumeCommand::Preserve(disk) => {
                store.preserve_for_cleanup(disk.clone());
                VolumeReply::Done
            }
            VolumeCommand::Register(disk) => done(store.register(disk.clone())),
            VolumeCommand::Remove(tracking_id) => {
                store.remove(*tracking_id);
                VolumeReply::Done
            }
            VolumeCommand::Refresh(disk) => {
                assert!(store.owns(disk.tracking_id));
                store.refresh(disk.clone());
                VolumeReply::Done
            }
            VolumeCommand::Reconcile { attempted, remaining } => {
                store.reconcile(attempted, remaining);
                VolumeReply::Done
            }
            VolumeCommand::UpdateDiscovered { tracking_id, device_id } => {
                store.update_discovered_device_id(*tracking_id, device_id.clone());
                VolumeReply::Done
            }
            VolumeCommand::UpdateGuestStatsPath { tracking_id, path } => {
                assert!(store.owns(*tracking_id));
                store.update_guest_stats_path(*tracking_id, path.clone());
                VolumeReply::Done
            }
            VolumeCommand::HostInfo => VolumeReply::Host(self.info.clone()),
            VolumeCommand::Attach { tracking_id, config } => {
                let (id, result) = self.attach(config);
                if self.registered(&id).is_some() {
                    assert!(store.owns(*tracking_id));
                    store.update_device_id(*tracking_id, id.clone());
                }
                match result {
                    Ok(()) => VolumeReply::Attached(id),
                    Err(error) => VolumeReply::Failed(error),
                }
            }
            VolumeCommand::FindDevice(path) => VolumeReply::Device(
                self.find(path).map(|at| self.devices[at].device.device_id.clone()),
            ),
            VolumeCommand::BuildVolume { device_id, .. } => {
                let at = self.registered(device_id).unwrap();
                let index = self.devices[at].device.config.index;
                VolumeReply::Built(BuiltVolume {
                    storage: Storage {
                        source: format!("{:02x}/00", index + 2),
                        mount_point: String::new(),
                        driver_options: Vec::new(),
                        options: Vec::new(),
                        shared: false,
                        fs_group: None,
                    },
                    device_id: device_id.clone(),
                })
            }
            VolumeCommand::RemoveDevice(device_id) => self.detach(device_id),
            VolumeCommand::IsRegistered(device_id) => {
                VolumeReply::Flag(self.registered(device_id).is_some())
            }
            VolumeCommand::ReleaseAfterStop(device_id) => {
                let at = self.registered(device_id).unwrap();
                self.devices.remove(at);
                VolumeReply::Done
            }
            VolumeCommand::BeginSetup => done(store.begin_setup()),
            VolumeCommand::SealAndWait => {
                assert!(store.seal(), "finalization has to wait");
                VolumeReply::Done
            }
            VolumeCommand::Snapshot => VolumeReply::Disks(store.snapshot()),
            VolumeCommand::CleanupVolume(volume) | VolumeCommand::CleanupAfterStop(volume) => {
                self.clean(*volume)
            }
            VolumeCommand::PendingVolumes => {
                VolumeReply::Volumes(resource.pending_rollback_volumes.clone())
            }
            VolumeCommand::ReconcilePending { attempted, remaining } => {
                resource.reconcile_pending_rollbacks(attempted, remaining);
                VolumeReply::Done
            }
            VolumeCommand::AddPending(volumes) => {
                resource.add_pending(volumes.clone());
                VolumeReply::Done
            }
            VolumeCommand::AddVolumes(volumes) => {
                resource.add_volumes(volumes.clone());
                VolumeReply::Done
            }
            VolumeCommand::IsDirectVolume(ordinal) => {
                VolumeReply::Flag(self.direct.contains(ordinal))
            }
            VolumeCommand::HasHugePages(_) => VolumeReply::Flag(false),
            VolumeCommand::Construct { ordinal, .. } => {
                if self.refused_ordinal == Some(*ordinal) {
                    VolumeReply::Failed(msg("later mount failed"))
                } else {
                    VolumeReply::Flag(true)
                }
            }
        }
    }

    fn stop(&mut self) {
        self.running = false;
    }
}

/// Runs an operation to its end, or until `canceled` says that its caller goes away before a
/// command is carried out.
fn drive_unless<T>(
    host: &mut Host,
    resource: &mut VolumeResource,
    canceled: impl Fn(&VolumeCommand) -> bool,
    operation: impl Fn(&mut VolumeSession) -> Result<T, VolumeCommand>,
) -> Option<T> {
    let mut given = Vec::new();
    loop {
        let mut session = VolumeSession { replies: given.clone() };
        match operation(&mut session) {
            Ok(result) => {
                assert!(session.replies.is_empty());
                return Some(result);
            }
            Err(command) => {
                if canceled(&command) {
                    return None;
                }
                given.push(host.answer(resource, &command));
            }
        }
    }
}

fn drive<T>(
    host: &mut Host,
    resource: &mut VolumeResource,
    operation: impl Fn(&mut VolumeSession) -> Result<T, VolumeCommand>,
) -> T {
    drive_unless(host, resource, |_| false, operation).unwrap()
}

fn settings() -> EmptyDirSettings {
    EmptyDirSettings {
        sid: "sandbox".to_string(),
        emptydir_mode: BLOCK_PLAIN.to_string(),
        discard_supported: true,
        metadata_root: "/run/kata-containers/shared/direct-volumes".to_string(),
        create_fs: CREATE_FS.to_string(),
    }
}

fn context() -> VolumeContext {
    VolumeContext { emptydir: settings(), fs_sharing_supported: false, first_volume: 0 }
}

fn source(index: usize) -> String {
    format!("/pods/pod/volumes/kubernetes.io~empty-dir/volume-{}", index)
}

fn disk_path(source: &str) -> String {
    format!("{}/disk.img", source)
}

fn plain_mount(source: &str) -> MountFacts {
    MountFacts {
        source: Some(source.to_string()),
        typ: Some("bind".to_string()),
        options: vec!["rbind".to_string()],
        described: source.to_string(),
        disk_empty_dir: false,
        is_shm: false,
        is_ephemeral: false,
        is_block: false,
        is_share_fs: false,
    }
}

fn emptydir_mounts(count: usize) -> Vec<MountFacts> {
    (0..count)
        .map(|index| MountFacts { disk_empty_dir: true, ..plain_mount(&source(index)) })
        .collect()
}

fn handle(
    host: &mut Host,
    resource: &mut VolumeResource,
    mounts: &Vec<MountFacts>,
) -> Result<Vec<HandledVolume>, Error> {
    let context = context();
    let result = drive(host, resource, |session| session.handler_volumes(&context, mounts));
    if resource.ephemeral_disks.active_setups > 0 {
        resource.ephemeral_disks.end_setup();
    }
    result
}

/// Sets volumes up for a caller who goes away.
fn abort_setup(
    host: &mut Host,
    resource: &mut VolumeResource,
    mounts: &Vec<MountFacts>,
    at: impl Fn(&VolumeCommand) -> bool,
) {
    let context = context();
    let result =
        drive_unless(host, resource, at, |session| session.handler_volumes(&context, mounts));
    assert!(result.is_none());
    resource.ephemeral_disks.end_setup();
}

fn detach(host: &mut Host, resource: &mut VolumeResource) -> Result<(), Error> {
    drive(host, resource, |session| session.detach_ephemeral_disks())
}

fn finalize(host: &mut Host, resource: &mut VolumeResource) -> Result<(), Error> {
    drive(host, resource, |session| session.finalize_ephemeral_disks())
}

fn retry(host: &mut Host, resource: &mut VolumeResource) -> Result<(), Error> {
    drive(host, resource, |session| session.retry_failed_rollbacks())
}

fn disk_info(tracking_id: u64, path: &str) -> EphemeralDiskInfo {
    EphemeralDiskInfo {
        tracking_id,
        disk_path: path.to_string(),
        source_path: "/host/emptydir".to_string(),
        guest_stats_path: String::new(),
        disk_created: true,
        metadata_created: false,
        device_id: None,
    }
}

fn assert_gone(host: &Host, source: &str) {
    assert!(!host.files.contains_key(&disk_path(source)));
    assert!(!host.mounted.contains(source));
}

fn assert_there(host: &Host, source: &str) {
    assert!(host.files.contains_key(&disk_path(source)));
    assert!(host.mounted.contains(source));
}

fn value<'a>(metadata: &'a [(String, String)], key: &str) -> Option<&'a str> {
    metadata.iter().find(|(name, _)| name == key).map(|(_, value)| value.as_str())
}

fn empty_storage() -> Storage {
    Storage {
        source: String::new(),
        mount_point: String::new(),
        driver_options: Vec::new(),
        options: Vec::new(),
        shared: false,
        fs_group: None,
    }
}

#[test]
fn block_emptydir_preserves_configured_transport_and_selects_root_port() {
    let ports = |name: &str, pcie_root_ports: u32| {
        Some(RootPorts { hypervisor_name: name.to_string(), pcie_root_ports })
    };
    let qemu = ports("qemu", 8);
    let qemu_without_root_ports = ports("qemu", 0);
    let cloud_hypervisor = ports("cloud-hypervisor", 8);

    assert_eq!(block_emptydir_driver(true, VIRTIO_SCSI), VIRTIO_SCSI);
    assert_eq!(block_emptydir_driver(false, VIRTIO_SCSI), VIRTIO_SCSI);
    assert_eq!(block_emptydir_driver(true, VIRTIO_BLK_PCI), VIRTIO_BLK_PCI);
    assert_eq!(block_emptydir_driver(true, VIRTIO_BLK_CCW), VIRTIO_BLK_CCW);

    assert!(use_qemu_pcie_root_port(VIRTIO_BLK_PCI, "q35", &qemu));
    assert!(use_qemu_pcie_root_port(VIRTIO_BLK_PCI, "virt", &qemu));
    assert!(!use_qemu_pcie_root_port(VIRTIO_BLK_PCI, "pseries", &qemu));
    assert!(!use_qemu_pcie_root_port(VIRTIO_SCSI, "q35", &qemu));
    assert!(!use_qemu_pcie_root_port(VIRTIO_BLK_CCW, "s390-ccw-virtio", &qemu));
    assert!(!use_qemu_pcie_root_port(VIRTIO_BLK_MMIO, "virt", &qemu));
    assert!(!use_qemu_pcie_root_port(VIRTIO_BLK_PCI, "q35", &cloud_hypervisor));
    assert!(!use_qemu_pcie_root_port(VIRTIO_BLK_PCI, "q35", &qemu_without_root_ports));
    assert!(!use_qemu_pcie_root_port(VIRTIO_BLK_PCI, "q35", &None));
}

#[test]
fn block_plain_emptydir_requests_filesystem_creation_and_discard() {
    let metadata = block_emptydir_metadata(false, 0);

    assert_eq!(value(&metadata, "createFilesystem"), Some("true"));
    assert_eq!(value(&metadata, "encryptionKey"), None);
    assert_eq!(value(&metadata, "fsGroup"), None);
    assert_eq!(block_emptydir_mount_options(true), vec!["discard".to_string()]);

    let mut storage = empty_storage();
    configure_block_emptydir_storage(&mut storage, false, true, CREATE_FS);

    assert_eq!(storage.driver_options, vec![CREATE_FS.to_string()]);
    assert_eq!(storage.options, vec!["discard".to_string()]);
    assert!(storage.shared);
}

#[test]
fn block_plain_emptydir_skips_discard_when_hypervisor_cannot_expose_it() {
    assert!(block_emptydir_mount_options(false).is_empty());

    let mut storage = empty_storage();
    configure_block_emptydir_storage(&mut storage, false, false, CREATE_FS);

    assert_eq!(storage.driver_options, vec![CREATE_FS.to_string()]);
    assert!(storage.options.is_empty());
    assert!(storage.shared);
}

#[test]
fn block_encrypted_emptydir_requests_encryption_and_filesystem_creation() {
    let metadata = block_emptydir_metadata(true, 0);

    assert_eq!(value(&metadata, "createFilesystem"), Some("true"));
    assert_eq!(value(&metadata, "encryptionKey"), Some("ephemeral"));
    assert_eq!(value(&metadata, "fsGroup"), None);
    assert!(block_emptydir_mount_options(false).is_empty());

    let mut storage = empty_storage();
    configure_block_emptydir_storage(&mut storage, true, false, CREATE_FS);

    assert_eq!(
        storage.driver_options,
        vec!["encryption_key=ephemeral".to_string(), CREATE_FS.to_string()]
    );
    assert!(storage.options.is_empty());
    assert!(storage.shared);
    assert_eq!(value(&block_emptydir_metadata(true, 1000), "fsGroup"), Some("1000"));
}

#[test]
fn sealed_registration_cleans_artifacts_created_before_registration() {
    let mut host = Host::new();
    let mut resource = VolumeResource::new();
    let disk = disk_info(1, "/host/emptydir/disk.img");
    host.files.insert(disk.disk_path.clone(), 5);
    resource.ephemeral_disks.begin_setup().unwrap();
    assert!(!resource.ephemeral_disks.seal());

    let refusal = resource.ephemeral_disks.register(disk.clone()).unwrap_err();
    let error = drive(&mut host, &mut resource, |session| {
        session.cleanup_rejected_registration(refusal.clone(), disk.clone())
    });

    assert!(error.chain_text().contains("sealed before registration"));
    assert!(host.files.is_empty());
    assert!(resource.ephemeral_disks.snapshot().is_empty());
    assert!(resource.ephemeral_disks.end_setup());
}

fn prepare(
    host: &mut Host,
    resource: &mut VolumeResource,
    source: &str,
    tracking_id: u64,
) -> Result<EphemeralDiskInfo, Error> {
    drive(host, resource, |session| {
        session.prepare_emptydir_artifacts_with_tracking_id(
            source,
            "/run/kata-containers/shared/direct-volumes",
            false,
            false,
            0,
            tracking_id,
        )
    })
}

#[test]
fn concurrent_same_process_setup_serializes_and_reuses_artifacts() {
    let mut host = Host::new();
    let mut resource = VolumeResource::new();
    let first = prepare(&mut host, &mut resource, "/source", 1).unwrap();
    let second = prepare(&mut host, &mut resource, "/source", 2).unwrap();
    assert!(first.disk_created);
    assert!(first.metadata_created);
    assert!(!second.disk_created);
    assert!(!second.metadata_created);
    assert_eq!(host.files["/source/disk.img"], 1024 * 4096);
}

#[test]
fn concurrent_processes_use_production_artifact_ownership() {
    let mut resource = VolumeResource::new();
    let mut host = Host::new();
    // The description of the mount cannot be written: what was made goes again.
    let mut given = Vec::new();
    let error = loop {
        let mut session = VolumeSession { replies: given.clone() };
        let result = session.prepare_emptydir_artifacts_with_tracking_id(
            "/source", "/root", false, false, 0, 1,
        );
        match result {
            Ok(result) => break result.unwrap_err(),
            Err(VolumeCommand::AddMountInfo { .. }) => {
                given.push(VolumeReply::Failed(msg("injected metadata registration failure")));
            }
            Err(command) => given.push(host.answer(&mut resource, &command)),
        }
    };
    assert!(error.chain_text().contains("injected metadata registration failure"));
    assert!(host.files.is_empty());

    let disk = prepare(&mut host, &mut resource, "/source", 2).unwrap();
    assert!(disk.disk_created);
    assert!(host.files.contains_key(&disk.disk_path));
    assert!(host.mounted.contains(&disk.source_path));
}

#[test]
fn canceled_setup_cleans_worker_owned_artifacts() {
    let mut host = Host::new();
    let mut resource = VolumeResource::new();
    let disk = prepare(&mut host, &mut resource, "/source", 1).unwrap();
    // The caller is gone when the worker is through.
    drive(&mut host, &mut resource, |session| session.abandon_artifacts(disk.clone()));
    assert!(host.files.is_empty());
    assert!(!host.mounted.contains("/source"));
    assert!(resource.ephemeral_disks.snapshot().is_empty());
}

#[test]
fn canceled_artifact_worker_blocks_finalization_and_preserves_cleanup_failure() {
    for inject_cleanup_failure in [false, true] {
        let mut host = Host::new();
        let mut resource = VolumeResource::new();
        resource.ephemeral_disks.begin_setup().unwrap();
        let disk = prepare(&mut host, &mut resource, "/source", 1).unwrap();
        // The worker is not through: the finalization waits.
        assert!(!resource.ephemeral_disks.seal());
        if inject_cleanup_failure {
            host.stuck.insert(disk.disk_path.clone());
        }
        drive(&mut host, &mut resource, |session| session.abandon_artifacts(disk.clone()));
        assert!(resource.ephemeral_disks.end_setup());

        if inject_cleanup_failure {
            let error = finalize(&mut host, &mut resource).unwrap_err();
            assert!(error.chain_text().contains("is a directory"));
            assert_eq!(resource.ephemeral_disks.snapshot().len(), 1);
            host.stuck.clear();
        }
        finalize(&mut host, &mut resource).unwrap();
        assert!(resource.ephemeral_disks.snapshot().is_empty());
        assert!(host.files.is_empty());
        assert!(host.mounted.is_empty());
    }
}

#[test]
fn tracking_id_exhaustion_never_wraps_or_replaces_ownership() {
    let mut host = Host::new();
    let mut resource = VolumeResource::new();
    resource.ephemeral_disks.begin_setup().unwrap();
    resource.ephemeral_disks.next_tracking_id = u64::MAX;

    let first_tracking_id = resource.ephemeral_disks.allocate_tracking_id().unwrap();
    let first = prepare(&mut host, &mut resource, "/first", first_tracking_id).unwrap();
    assert_eq!(first.tracking_id, u64::MAX);
    resource.ephemeral_disks.register(first.clone()).unwrap();
    let error = resource.ephemeral_disks.allocate_tracking_id().unwrap_err();
    assert!(error.chain_text().contains("tracking IDs exhausted"));
    assert_eq!(resource.ephemeral_disks.snapshot().len(), 1);
    assert_eq!(resource.ephemeral_disks.snapshot()[0].tracking_id, u64::MAX);
    drive(&mut host, &mut resource, |session| session.cleanup_owned_emptydir_artifacts(&first))
        .unwrap();
    assert!(host.files.is_empty());
}

#[test]
fn failing_current_volume_preserves_artifacts_when_detach_fails() {
    let mut host = Host::new();
    host.hot_unplug = false;
    let mut resource = VolumeResource::new();
    let path = "/host/emptydir/disk.img";
    host.files.insert(path.to_string(), 13);
    let config = BlockConfigModern { path_on_host: path.to_string(), ..Default::default() };
    let (device_id, result) = host.attach(&config);
    result.unwrap();
    let disk = EphemeralDiskInfo {
        metadata_created: true,
        device_id: Some(device_id.clone()),
        ..disk_info(0, path)
    };
    let error = drive(&mut host, &mut resource, |session| {
        session.rollback_failed_emptydir_device(
            &device_id,
            msg("injected mount discovery failure"),
            disk.clone(),
        )
    });

    assert!(error.text().contains("artifacts remain pending cleanup"));
    assert!(host.files.contains_key(path));
    let pending = pending_ephemeral_disk(&error).unwrap();
    assert_eq!(pending.device_id.as_deref(), Some(device_id.as_str()));
    assert!(host.find(path).is_some());
}

fn clean_after(
    host: &mut Host,
    resource: &mut VolumeResource,
    disk: &EphemeralDiskInfo,
    removal: Result<DeviceRemoval, Error>,
) -> bool {
    drive(host, resource, |session| {
        session.cleanup_artifacts_after_device_removal(disk, &removal)
    })
    .unwrap()
}

#[test]
fn failed_removal_and_unowned_setup_preserve_artifacts() {
    let mut host = Host::new();
    let mut resource = VolumeResource::new();
    let path = "/source/disk.img";
    host.files.insert(path.to_string(), 13);
    host.mounted.insert("/source".to_string());
    let disk = EphemeralDiskInfo {
        source_path: "/source".to_string(),
        metadata_created: true,
        device_id: Some("pending-device".to_string()),
        ..disk_info(0, path)
    };
    let failed = Err(msg("injected detach failure"));
    assert!(!clean_after(&mut host, &mut resource, &disk, failed));
    assert!(host.files.contains_key(path));
    assert!(host.mounted.contains("/source"));

    assert!(clean_after(&mut host, &mut resource, &disk, Ok(DeviceRemoval::Detached)));
    assert!(host.files.is_empty());
    assert!(host.mounted.is_empty());

    let reused = EphemeralDiskInfo {
        disk_created: false,
        device_id: Some("shared-device".to_string()),
        ..disk_info(1, "/source/reused.img")
    };
    host.files.insert(reused.disk_path.clone(), 11);
    assert!(!clean_after(&mut host, &mut resource, &reused, Ok(DeviceRemoval::Detached)));
    assert_eq!(host.files["/source/reused.img"], 11);

    host.files.insert("/source/unowned/disk.img".to_string(), 11);
    let error = prepare(&mut host, &mut resource, "/source/unowned", 2).unwrap_err();
    assert!(error.text().contains("unowned or in-progress disk"));
    assert_eq!(host.files["/source/unowned/disk.img"], 11);
}

#[test]
fn artifact_cleanup_is_gated_by_each_device_detach_outcome() {
    let mut host = Host::new();
    let mut resource = VolumeResource::new();
    let detached = disk_info(0, "/host/detached.img");
    let failed = disk_info(0, "/host/failed.img");
    host.files.insert(detached.disk_path.clone(), 8);
    host.files.insert(failed.disk_path.clone(), 14);

    assert!(clean_after(&mut host, &mut resource, &detached, Ok(DeviceRemoval::Detached)));
    assert!(!clean_after(&mut host, &mut resource, &failed, Err(msg("injected detach failure"))));
    assert!(!clean_after(&mut host, &mut resource, &failed, Ok(DeviceRemoval::ReferenceReleased)));

    assert!(!host.files.contains_key("/host/detached.img"));
    assert!(host.files.contains_key("/host/failed.img"));
}

/// Three volumes of other kinds, and a mount that fails after them.
fn mixed_mounts(host: &mut Host) -> Vec<MountFacts> {
    host.direct.insert(0);
    host.refused_ordinal = Some(3);
    vec![
        plain_mount("/direct"),
        MountFacts { is_share_fs: true, ..plain_mount("/shared") },
        plain_mount("/default"),
        plain_mount("/later"),
    ]
}

#[test]
fn mixed_volume_rollback_retries_failed_cleanup_in_reverse_order() {
    let mut host = Host::new();
    let mut resource = VolumeResource::new();
    let mounts = mixed_mounts(&mut host);
    host.cleanup_failures.insert(1, 1);

    let error = handle(&mut host, &mut resource, &mounts).unwrap_err();
    assert_eq!(host.cleaned, [2, 1, 0]);
    assert!(error.chain_text().contains("volume 1 cleanup failed"));
    assert!(resource.ephemeral_disks.snapshot().is_empty());
    assert_eq!(resource.pending_rollback_volumes, vec![1]);

    retry(&mut host, &mut resource).unwrap();
    assert_eq!(host.cleaned, [2, 1, 0, 1]);
    assert!(resource.pending_rollback_volumes.is_empty());
}

#[test]
fn failed_rollback_retries_while_hypervisor_is_live() {
    let mut host = Host::new();
    let mut resource = VolumeResource::new();
    let mounts = mixed_mounts(&mut host);
    host.cleanup_failures.insert(0, 1);
    assert!(handle(&mut host, &mut resource, &mounts).is_err());
    assert_eq!(resource.pending_rollback_volumes, vec![0]);

    retry(&mut host, &mut resource).unwrap();
    assert!(host.running);
    assert!(resource.pending_rollback_volumes.is_empty());
}

#[test]
fn post_stop_finalization_releases_device_and_retains_host_cleanup() {
    let mut host = Host::new();
    let mut resource = VolumeResource::new();
    let config =
        BlockConfigModern { path_on_host: "/tmp/post-stop.img".to_string(), ..Default::default() };
    let (device_id, _) = host.attach(&config);
    host.stop();

    drive(&mut host, &mut resource, |session| session.cleanup_after_vm_stop(Some(&device_id)))
        .unwrap();
    assert!(host.registered(&device_id).is_none());
    let error = drive(&mut host, &mut resource, |session| session.cleanup_after_vm_stop(None))
        .unwrap_err();
    assert!(error.chain_text().contains("host cleanup remains pending"));

    // A volume whose host cleanup stays pending is kept.
    resource.add_pending(vec![4]);
    host.cleanup_failures.insert(4, 1);
    let error = drive(&mut host, &mut resource, |session| {
        session.finalize_failed_rollbacks_after_vm_stop()
    })
    .unwrap_err();
    assert!(error.chain_text().contains("volume 4 cleanup failed"));
    assert_eq!(resource.pending_rollback_volumes.len(), 1);
}

#[test]
fn block_emptydir_stats_prefer_newest_nonempty_mapping() {
    let mut volumes = VolumeResource::new();
    for (id, guest_path) in [(0, "/run/kata/older"), (1, ""), (2, "/run/kata/newest")] {
        volumes.ephemeral_disks.disks.push(EphemeralDiskInfo {
            guest_stats_path: guest_path.to_string(),
            disk_created: false,
            ..disk_info(id, "/host/emptydir/disk.img")
        });
    }

    assert_eq!(
        volumes.guest_volume_stats_path("/host/emptydir").as_deref(),
        Some("/run/kata/newest")
    );
    assert_eq!(
        volumes.guest_volume_stats_path("/host/emptydir/disk.img").as_deref(),
        Some("/run/kata/newest")
    );
    assert_eq!(volumes.guest_volume_stats_path("/host/other"), None);
}

#[test]
fn ephemeral_disk_store_updates_one_tracking_record() {
    let mut store = EphemeralDiskStore::default();
    store.begin_setup().unwrap();
    let mut disk = EphemeralDiskInfo {
        tracking_id: 7,
        disk_path: "/host/emptydir/disk.img".to_string(),
        source_path: "/host/emptydir".to_string(),
        guest_stats_path: String::new(),
        disk_created: true,
        metadata_created: true,
        device_id: None,
    };
    store.register(disk.clone()).unwrap();
    store.update_device_id(disk.tracking_id, "device-id".to_string());
    disk.device_id = Some("device-id".to_string());
    disk.guest_stats_path = "/run/kata/emptydir".to_string();
    store.register(disk.clone()).unwrap();

    assert_eq!(store.snapshot().len(), 1);
    assert_eq!(store.snapshot()[0].guest_stats_path, disk.guest_stats_path);
}

/// Cleans the volumes that are pending, while another one becomes pending.
fn retry_with_addition(after_stop: bool, fails: bool, pending: u64, addition: u64) -> Vec<u64> {
    let mut host = Host::new();
    let mut resource = VolumeResource::new();
    resource.add_pending(vec![pending]);
    if fails {
        host.cleanup_failures.insert(pending, 1);
    }
    let mut given = Vec::new();
    let result = loop {
        let mut session = VolumeSession { replies: given.clone() };
        let run = if after_stop {
            session.finalize_failed_rollbacks_after_vm_stop()
        } else {
            session.retry_failed_rollbacks()
        };
        match run {
            Ok(result) => break result,
            Err(command) => {
                if matches!(
                    command,
                    VolumeCommand::CleanupVolume(_) | VolumeCommand::CleanupAfterStop(_)
                ) {
                    resource.add_pending(vec![addition]);
                }
                given.push(host.answer(&mut resource, &command));
            }
        }
    };
    assert_eq!(result.is_err(), fails);
    resource.pending_rollback_volumes
}

#[test]
fn retry_failed_rollbacks_preserves_concurrent_addition() {
    assert_eq!(retry_with_addition(false, true, 1, 2), vec![1, 2]);
}

#[test]
fn retry_failed_rollbacks_preserves_concurrent_same_arc() {
    assert_eq!(retry_with_addition(false, false, 1, 1), vec![1]);
}

#[test]
fn post_stop_rollbacks_preserve_concurrent_same_arc() {
    assert_eq!(retry_with_addition(true, false, 1, 1), vec![1]);
}

#[test]
fn retry_failed_rollbacks_reconciles_duplicate_multiplicity() {
    let mut host = Host::new();
    let mut resource = VolumeResource::new();
    resource.add_pending(vec![5, 5]);
    host.cleanup_failures.insert(5, 1);

    assert!(retry(&mut host, &mut resource).is_err());
    assert_eq!(resource.pending_rollback_volumes.len(), 1);
    retry(&mut host, &mut resource).unwrap();
    assert!(resource.pending_rollback_volumes.is_empty());
}

#[test]
fn post_stop_rollbacks_preserve_concurrent_addition() {
    assert_eq!(retry_with_addition(true, true, 1, 2), vec![1, 2]);
}

#[test]
fn registered_setup_blocks_finalization_and_late_registration() {
    let mut host = Host::new();
    let mut resource = VolumeResource::new();
    let config =
        BlockConfigModern { path_on_host: "/tmp/blocked.img".to_string(), ..Default::default() };
    let (device_id, _) = host.attach(&config);
    let original = EphemeralDiskInfo {
        disk_created: false,
        device_id: Some(device_id.clone()),
        ..disk_info(1, "/tmp/blocked.img")
    };
    let store = &mut resource.ephemeral_disks;
    store.begin_setup().unwrap();
    store.register(original).unwrap();
    store.begin_setup().unwrap();

    assert!(!store.seal());
    assert!(store.register(disk_info(2, "/tmp/concurrent.img")).is_err());
    assert!(store.begin_setup().is_err());
    store.update_device_id(1, device_id);
    assert!(!store.end_setup());
    assert!(store.end_setup());
    finalize(&mut host, &mut resource).unwrap();

    assert!(resource.ephemeral_disks.snapshot().is_empty());
    assert!(host.devices.is_empty());
}

#[test]
fn finalization_drains_duplicate_records() {
    let mut host = Host::new();
    let mut resource = VolumeResource::new();
    host.files.insert("/host/duplicate.img".to_string(), 5);
    for tracking_id in [1, 2] {
        resource.ephemeral_disks.register(disk_info(tracking_id, "/host/duplicate.img")).unwrap();
    }

    finalize(&mut host, &mut resource).unwrap();

    assert!(host.files.is_empty());
    assert!(resource.ephemeral_disks.snapshot().is_empty());
}

#[test]
fn failed_finalization_retains_ownership_for_second_retry() {
    let mut host = Host::new();
    let mut resource = VolumeResource::new();
    host.files.insert("/host/disk.img".to_string(), 0);
    host.stuck.insert("/host/disk.img".to_string());
    resource.ephemeral_disks.register(disk_info(1, "/host/disk.img")).unwrap();

    assert!(finalize(&mut host, &mut resource).is_err());
    assert_eq!(resource.ephemeral_disks.snapshot().len(), 1);

    host.stuck.clear();
    finalize(&mut host, &mut resource).unwrap();
    assert!(host.files.is_empty());
    assert!(resource.ephemeral_disks.snapshot().is_empty());
}

/// A path stands in an error as a path is shown.
#[test]
fn paths_are_shown_as_paths() {
    let source = "/pods/it's \"here\"";
    let mut session =
        VolumeSession { replies: vec![VolumeReply::Done, VolumeReply::Failed(msg("gone"))] };
    let error =
        BlockEmptyDirVolume::new(Some(source), &settings(), &mut session).unwrap().unwrap_err();
    assert_eq!(error.text(), format!("stat emptyDir {:?}", std::path::Path::new(source)));
}

/// A finalization keeps exactly the disks that failed, and takes no new setup.
#[test]
fn finalization_keeps_exactly_what_failed() {
    let mut host = Host::new();
    let mut resource = VolumeResource::new();
    for (number, path) in [(1, "/host/a.img"), (2, "/host/b.img"), (3, "/host/c.img")] {
        host.files.insert(path.to_string(), 0);
        resource.ephemeral_disks.register(disk_info(number, path)).unwrap();
    }
    host.stuck.insert("/host/b.img".to_string());

    let error = finalize(&mut host, &mut resource).unwrap_err();
    assert!(error.text().contains("/host/b.img"));
    let left: Vec<_> =
        resource.ephemeral_disks.snapshot().iter().map(|disk| disk.tracking_id).collect();
    assert_eq!(left, [2]);
    assert!(resource.ephemeral_disks.begin_setup().is_err());

    host.stuck.clear();
    finalize(&mut host, &mut resource).unwrap();
    assert!(resource.ephemeral_disks.snapshot().is_empty());
    assert!(resource.ephemeral_disks.begin_setup().is_err());
}

#[test]
fn cancellation_before_attach_starts_preserves_cleanup_ownership() {
    let mut host = Host::new();
    let mut resource = VolumeResource::new();
    let mounts = emptydir_mounts(1);
    abort_setup(&mut host, &mut resource, &mounts, |command| {
        matches!(command, VolumeCommand::HostInfo)
    });
    assert_there(&host, &source(0));

    host.stop();
    finalize(&mut host, &mut resource).unwrap();
    assert_gone(&host, &source(0));
}

#[test]
fn cancellation_while_add_is_blocked_detaches_and_finalizes() {
    // The device is known to its store by the time the addition fails.
    let mut host = Host::failing_at(1);
    let mut resource = VolumeResource::new();
    let mounts = emptydir_mounts(1);
    abort_setup(&mut host, &mut resource, &mounts, |command| {
        matches!(command, VolumeCommand::FindDevice(_))
    });
    let device_id = host.attempted[0].0.clone();

    detach(&mut host, &mut resource).unwrap();
    assert!(host.registered(&device_id).is_none());
    host.stop();
    finalize(&mut host, &mut resource).unwrap();
    assert_gone(&host, &source(0));
}

#[test]
fn cancellation_after_backend_add_detaches_and_finalizes() {
    let mut host = Host::new();
    let mut resource = VolumeResource::new();
    let mounts = emptydir_mounts(1);
    abort_setup(&mut host, &mut resource, &mounts, |command| {
        matches!(command, VolumeCommand::BuildVolume { .. })
    });
    let device_id = host.attempted[0].0.clone();

    detach(&mut host, &mut resource).unwrap();
    assert!(host.registered(&device_id).is_none());
    assert_eq!(host.removed_paths.len(), 1);
    host.stop();
    finalize(&mut host, &mut resource).unwrap();
    assert_gone(&host, &source(0));
}

#[test]
fn concurrent_same_source_survives_canceled_owner_constructor() {
    let mut host = Host::failing_at(1);
    let mut resource = VolumeResource::new();
    let mounts = emptydir_mounts(1);
    abort_setup(&mut host, &mut resource, &mounts, |command| {
        matches!(command, VolumeCommand::FindDevice(_))
    });
    handle(&mut host, &mut resource, &mounts).unwrap();

    detach(&mut host, &mut resource).unwrap();
    host.stop();
    finalize(&mut host, &mut resource).unwrap();
    assert_gone(&host, &source(0));
}

#[test]
fn post_stop_finalization_needs_no_canceled_constructor_retry() {
    let mut host = Host::failing_at(1);
    let mut resource = VolumeResource::new();
    let mounts = emptydir_mounts(1);
    abort_setup(&mut host, &mut resource, &mounts, |command| {
        matches!(command, VolumeCommand::FindDevice(_))
    });
    let device_id = host.attempted[0].0.clone();

    host.stop();
    finalize(&mut host, &mut resource).unwrap();
    assert!(host.registered(&device_id).is_none());
    assert_gone(&host, &source(0));
}

#[test]
fn finalization_waits_for_previously_registered_blocked_attach() {
    let mut host = Host::new();
    let mut resource = VolumeResource::new();
    resource.ephemeral_disks.begin_setup().unwrap();
    assert!(!resource.ephemeral_disks.seal());
    assert!(resource.ephemeral_disks.end_setup());
    finalize(&mut host, &mut resource).unwrap();
}

#[test]
fn setup_after_finalization_never_creates_or_attaches() {
    let mut host = Host::new();
    let mut resource = VolumeResource::new();
    host.stop();
    finalize(&mut host, &mut resource).unwrap();

    let error = handle(&mut host, &mut resource, &emptydir_mounts(1)).unwrap_err();
    assert!(error.chain_text().contains("sealed"));
    assert!(host.attempted.is_empty());
    assert_gone(&host, &source(0));
}

#[test]
fn happy_path_maps_stats_and_cleans_owned_state() {
    let mut host = Host::new();
    let mut resource = VolumeResource::new();
    let volumes = handle(&mut host, &mut resource, &emptydir_mounts(1)).unwrap();
    assert_eq!(volumes.len(), 1);
    let source = source(0);
    let disk = disk_path(&source);
    assert_there(&host, &source);

    let guest_path = resource.guest_volume_stats_path(&source).unwrap();
    assert_eq!(resource.guest_volume_stats_path(&disk), Some(guest_path.clone()));
    let volume = volumes[0].block_emptydir.as_ref().unwrap();
    assert_eq!(volume.mount_source, guest_path);
    assert_eq!(volume.mount_typ, "bind");

    let device_id = host.attempted[0].0.clone();
    detach(&mut host, &mut resource).unwrap();
    assert!(host.registered(&device_id).is_none());
    assert_there(&host, &source);

    host.stop();
    finalize(&mut host, &mut resource).unwrap();
    assert_gone(&host, &source);
    assert_eq!(resource.guest_volume_stats_path(&source), None);
}

#[test]
fn every_add_failure_rolls_back_without_residue() {
    for count in [1, 4, 8] {
        for fail_at in 1..=count {
            let mut host = Host::failing_at(fail_at);
            let mut resource = VolumeResource::new();
            assert!(handle(&mut host, &mut resource, &emptydir_mounts(count)).is_err());

            let attempted: Vec<_> = host.attempted.iter().map(|(_, path)| path.clone()).collect();
            let expected: Vec<_> = (0..fail_at).map(|i| disk_path(&source(i))).collect();
            assert_eq!(attempted, expected);
            let rolled_back: Vec<_> =
                (0..fail_at - 1).rev().map(|i| disk_path(&source(i))).collect();
            assert_eq!(host.removed_paths, rolled_back);
            for index in 0..count {
                if index == fail_at - 1 {
                    assert_there(&host, &source(index));
                } else {
                    assert_gone(&host, &source(index));
                }
            }
            let ids: Vec<_> = host.attempted.iter().map(|(id, _)| id.clone()).collect();
            for (index, id) in ids.iter().enumerate() {
                assert_eq!(host.registered(id).is_some(), index == fail_at - 1);
            }

            detach(&mut host, &mut resource).unwrap();
            host.stop();
            finalize(&mut host, &mut resource).unwrap();
            assert!(host.files.is_empty());
            assert!(host.mounted.is_empty());
            assert!(host.devices.is_empty());
        }
    }
}

#[test]
fn ordinary_block_failure_releases_device_identity() {
    let mut host = Host::failing_at(1);
    let config = |path: &str| BlockConfigModern {
        path_on_host: path.to_string(),
        driver_option: VIRTIO_BLK_MMIO.to_string(),
        ..Default::default()
    };
    let (failed_id, result) = host.attach(&config("/tmp/ordinary-block-failure.img"));
    assert!(result.is_err());
    assert!(host.registered(&failed_id).is_none());
    host.attach(&config("/tmp/ordinary-block-success.img")).1.unwrap();
    let indexes: Vec<_> = host.adds.iter().map(|config| config.index).collect();
    assert_eq!(indexes, vec![0, 0]);
}

#[test]
fn ordinary_emptydir_failure_preserves_artifacts_until_vm_stop() {
    let mut host = Host::failing_at(1);
    let mut resource = VolumeResource::new();
    let error = handle(&mut host, &mut resource, &emptydir_mounts(1)).unwrap_err();
    assert!(error.chain_text().contains("preserved block emptyDir artifacts"));

    let device_id = host.attempted[0].0.clone();
    assert!(host.registered(&device_id).is_some());
    assert_there(&host, &source(0));

    host.stop();
    finalize(&mut host, &mut resource).unwrap();
    assert!(host.registered(&device_id).is_none());
    assert_gone(&host, &source(0));
}

#[test]
fn unclassified_emptydir_failure_retry_clears_device_identity() {
    let mut host = Host::failing_at(1);
    let mut resource = VolumeResource::new();
    assert!(handle(&mut host, &mut resource, &emptydir_mounts(1)).is_err());
    let device_id = host.attempted[0].0.clone();
    assert!(host.registered(&device_id).is_some());

    handle(&mut host, &mut resource, &emptydir_mounts(1)).unwrap();
    let indexes: Vec<_> = host.adds.iter().map(|config| config.index).collect();
    assert_eq!(indexes, vec![0, 0]);
    assert_eq!(host.attempted[1].0, device_id);

    detach(&mut host, &mut resource).unwrap();
    assert!(host.registered(&device_id).is_none());
    host.stop();
    finalize(&mut host, &mut resource).unwrap();
    assert_gone(&host, &source(0));
}

#[test]
fn concurrent_same_source_waits_for_failed_constructor_cleanup() {
    // The lock of the source comes first: the second constructor runs when the first is through.
    let session = VolumeSession { replies: Vec::new() };
    let waiting =
        BlockEmptyDirVolume::new(Some("/source"), &settings(), &mut session.clone()).unwrap_err();
    assert!(matches!(waiting, VolumeCommand::LockTransaction(source) if source == "/source"));

    let mut host = Host::failing_at(1);
    let mut resource = VolumeResource::new();
    assert!(handle(&mut host, &mut resource, &emptydir_mounts(1)).is_err());
    let volumes = handle(&mut host, &mut resource, &emptydir_mounts(1)).unwrap();
    assert_eq!(volumes.len(), 1);
    assert_eq!(host.attempted.len(), 2);
    let device_id = host.attempted[1].0.clone();
    assert_eq!(host.attempted[0].0, device_id);
    assert!(host.registered(&device_id).is_some());
    assert_there(&host, &source(0));

    detach(&mut host, &mut resource).unwrap();
    assert!(host.registered(&device_id).is_none());
    host.stop();
    finalize(&mut host, &mut resource).unwrap();
    assert_gone(&host, &source(0));
}

#[test]
fn shared_source_detaches_only_after_final_reference() {
    let mut host = Host::new();
    let mut first = VolumeResource::new();
    let mut second = VolumeResource::new();
    handle(&mut host, &mut first, &emptydir_mounts(1)).unwrap();
    handle(&mut host, &mut second, &emptydir_mounts(1)).unwrap();
    assert_eq!(host.attempted.len(), 1);
    let device_id = host.attempted[0].0.clone();

    detach(&mut host, &mut first).unwrap();
    assert!(host.registered(&device_id).is_some());
    assert!(host.removed_paths.is_empty());
    assert_there(&host, &source(0));

    detach(&mut host, &mut second).unwrap();
    assert!(host.registered(&device_id).is_none());
    assert_eq!(host.removed_paths.len(), 1);
    assert_there(&host, &source(0));

    host.stop();
    finalize(&mut host, &mut first).unwrap();
    finalize(&mut host, &mut second).unwrap();
    assert_gone(&host, &source(0));
}

#[test]
fn post_stop_finalization_handles_unsupported_hot_unplug() {
    let mut host = Host { hot_unplug: false, ..Host::new() };
    let mut resource = VolumeResource::new();
    handle(&mut host, &mut resource, &emptydir_mounts(1)).unwrap();
    let device_id = host.attempted[0].0.clone();

    assert!(detach(&mut host, &mut resource).is_err());
    assert!(host.registered(&device_id).is_some());
    assert_there(&host, &source(0));

    host.stop();
    finalize(&mut host, &mut resource).unwrap();
    assert!(host.registered(&device_id).is_none());
    assert_gone(&host, &source(0));
}

fn assert_owned_prefix(host: &Host, resource: &VolumeResource, owned: usize, mapped: usize) {
    for (index, (device_id, _)) in host.attempted.iter().enumerate() {
        assert_eq!(host.registered(device_id).is_some(), index < owned);
        if index < owned {
            assert_there(host, &source(index));
        } else {
            assert_gone(host, &source(index));
        }
        let stats = resource.guest_volume_stats_path(&source(index));
        assert_eq!(stats.is_some(), index < mapped);
        assert_eq!(resource.guest_volume_stats_path(&disk_path(&source(index))), stats);
    }
}

#[test]
fn failed_detach_during_rollback_converges_after_vm_stop() {
    let mut host = Host { hot_unplug: false, ..Host::failing_at(2) };
    let mut resource = VolumeResource::new();
    let error = handle(&mut host, &mut resource, &emptydir_mounts(2)).unwrap_err().chain_text();
    assert!(error.contains("failed to attach volume 2 of 2"));
    assert!(error.contains("injected add_device failure"));
    assert!(error.contains("volume rollback incomplete"));
    assert!(error.contains("hot unplug unsupported"));
    assert_eq!(host.attempted.len(), 2);
    assert!(host.removed_paths.is_empty());
    assert_owned_prefix(&host, &resource, 2, 1);

    let error = detach(&mut host, &mut resource).unwrap_err();
    assert!(error.chain_text().contains("hot unplug unsupported"));
    assert_owned_prefix(&host, &resource, 2, 1);

    host.stop();
    finalize(&mut host, &mut resource).unwrap();
    assert_owned_prefix(&host, &resource, 0, 0);
}

#[test]
fn ambiguous_attach_preserves_artifacts_without_path_lookup() {
    let mut host =
        Host { hot_unplug: false, ambiguous_add_at: Some(1), ..Host::new() };
    let mut resource = VolumeResource::new();
    let error = handle(&mut host, &mut resource, &emptydir_mounts(1)).unwrap_err();
    assert!(error.chain_text().contains("injected ambiguous add_device failure"));

    let device_id = host.attempted[0].0.clone();
    assert_eq!(host.find(&disk_path(&source(0))), None);
    assert!(host.registered(&device_id).is_some());
    assert_there(&host, &source(0));

    assert!(detach(&mut host, &mut resource).is_err());
    assert_there(&host, &source(0));

    host.stop();
    finalize(&mut host, &mut resource).unwrap();
    assert_gone(&host, &source(0));
}

#[test]
fn qemu_constructor_reserves_root_ports_for_preselected_pci() {
    let mut host = Host::new();
    host.info.block_device_driver = VIRTIO_BLK_PCI.to_string();
    host.info.topology =
        Some(RootPorts { hypervisor_name: "qemu".to_string(), pcie_root_ports: 8 });
    let mut resource = VolumeResource::new();
    let volumes = handle(&mut host, &mut resource, &emptydir_mounts(8)).unwrap();
    assert_eq!(volumes.len(), 8);
    assert_eq!(host.adds.len(), 8);
    for (index, add) in host.adds.iter().enumerate() {
        let expected_root_port = format!("rp{}", index);
        assert_eq!(add.driver_option, VIRTIO_BLK_PCI);
        assert!(add.discard_unmap);
        assert!(add.use_pcie_root_port);
        assert_eq!(add.pcie_root_port.as_deref(), Some(expected_root_port.as_str()));
        assert_eq!(add.index, index as u64);
        assert_eq!(add.path_on_host, disk_path(&source(index)));
        let volume = volumes[index].block_emptydir.as_ref().unwrap();
        assert_eq!(volume.storage.source, format!("{:02x}/00", index + 2));
    }

    detach(&mut host, &mut resource).unwrap();
    assert!(host.devices.is_empty());
    for index in 0..8 {
        assert_there(&host, &source(index));
    }
    host.stop();
    finalize(&mut host, &mut resource).unwrap();
    for index in 0..8 {
        assert_gone(&host, &source(index));
    }
}

/// What succeeded is taken out as often as it was tried, and nothing else.
#[test]
fn reconciling_counts_occurrences() {
    let mut current = vec!["a1", "b1", "a2", "c1", "a3"];
    let keys = vec![1, 2, 1, 3, 1];
    reconcile_snapshot_occurrences(&mut current, &keys, &vec![1, 1, 2], &vec![1]);
    assert_eq!(current, ["a2", "c1", "a3"]);

    let mut current = vec!["a1", "b1"];
    reconcile_snapshot_occurrences(&mut current, &vec![1, 2], &Vec::new(), &Vec::new());
    assert_eq!(current, ["a1", "b1"]);
}

/// A tracking number is given out once, and a disk that is let go is gone.
#[test]
fn store_keeps_one_record_per_disk() {
    let mut store = EphemeralDiskStore::default();
    let first = store.allocate_tracking_id().unwrap();
    let second = store.allocate_tracking_id().unwrap();
    assert_ne!(first, second);
    store.register(disk_info(first, "/a")).unwrap();
    store.register(disk_info(second, "/b")).unwrap();
    store.register(disk_info(first, "/c")).unwrap();
    assert_eq!(store.snapshot().len(), 2);
    store.remove(first);
    assert!(!store.owns(first));
    assert!(store.owns(second));
    assert!(store.seal());
    assert!(store.register(disk_info(first, "/a")).is_err());
    store.preserve_for_cleanup(disk_info(first, "/a"));
    assert!(store.owns(first));
}

/// The artifacts of a disk go only where they were made for it.
#[test]
fn cleanup_removes_only_what_is_owned() {
    let mut host = Host::new();
    let mut resource = VolumeResource::new();
    host.files.insert("/host/emptydir/disk.img".to_string(), 3);
    host.mounted.insert("/host/emptydir".to_string());
    let reused =
        EphemeralDiskInfo { disk_created: false, ..disk_info(1, "/host/emptydir/disk.img") };
    drive(&mut host, &mut resource, |session| session.cleanup_owned_emptydir_artifacts(&reused))
        .unwrap();
    assert_eq!(host.files.len(), 1);
    assert_eq!(host.mounted.len(), 1);
    let described = EphemeralDiskInfo { metadata_created: true, ..reused };
    drive(&mut host, &mut resource, |session| {
        session.cleanup_owned_emptydir_artifacts(&described)
    })
    .unwrap();
    assert_eq!(host.files.len(), 1);
    assert!(host.mounted.is_empty());
}

/// Different sources are mounted at different places.
#[test]
fn mount_points_differ() {
    assert_eq!(
        agent_mount_point("02/00"),
        "/run/kata-containers/sandbox/storage/MDIvMDA="
    );
    assert_eq!(
        agent_mount_point("\u{3ff}\u{3ff}?"),
        "/run/kata-containers/sandbox/storage/z7_Pvz8="
    );
    assert_ne!(agent_mount_point("02/00"), agent_mount_point("03/00"));
}

#[test]
fn failures_of_a_constructor_are_reported() {
    let mut session = VolumeSession { replies: Vec::new() };
    let error =
        BlockEmptyDirVolume::new(None, &settings(), &mut session).unwrap().unwrap_err();
    assert_eq!(error.text(), "block emptyDir mount has no source");

    // A device that cannot be used is taken back, with its artifacts and its record.
    let mut host = Host::new();
    let mut resource = VolumeResource::new();
    let mut given = Vec::new();
    let error = loop {
        let mut session = VolumeSession { replies: given.clone() };
        match BlockEmptyDirVolume::new(Some("/source"), &settings(), &mut session) {
            Ok(result) => break result.unwrap_err(),
            Err(VolumeCommand::BuildVolume { .. }) => {
                given.push(VolumeReply::Failed(msg("no guest path")));
            }
            Err(command) => given.push(host.answer(&mut resource, &command)),
        }
    };
    assert_eq!(
        error.chain_text(),
        "rolled back block emptyDir device device-0 after setup failed: no guest path"
    );
    assert_gone(&host, "/source");
    assert!(host.devices.is_empty());
    assert!(resource.ephemeral_disks.snapshot().is_empty());

    // Something else than a block device is taken back too.
    let mut host = Host::new();
    let mut given = Vec::new();
    let error = loop {
        let mut session = VolumeSession { replies: given.clone() };
        match BlockEmptyDirVolume::new(Some("/source"), &settings(), &mut session) {
            Ok(result) => break result.unwrap_err(),
            Err(VolumeCommand::Attach { .. }) => {
                given.push(VolumeReply::Unexpected("Vfio".to_string()));
            }
            Err(command) => given.push(host.answer(&mut resource, &command)),
        }
    };
    assert!(error.text().contains("unexpected device type: Vfio"));
    assert_gone(&host, "/source");
}

#[test]
fn empty_file_system_is_refused() {
    let mut host = Host::new();
    let mut resource = VolumeResource::new();
    let mut given = Vec::new();
    let error = loop {
        let mut session = VolumeSession { replies: given.clone() };
        let result = session.prepare_emptydir_artifacts_with_tracking_id(
            "/source", "/root", false, false, 0, 1,
        );
        match result {
            Ok(result) => break result.unwrap_err(),
            Err(VolumeCommand::Statfs(_)) => {
                given.push(VolumeReply::Filesystem { blocks: 0, block_size: 4096 });
            }
            Err(command) => given.push(host.answer(&mut resource, &command)),
        }
    };
    assert_eq!(error.text(), "filesystem at \"/source\" reports zero capacity");
    assert!(host.files.is_empty());
}

#[test]
fn group_of_the_directory_is_passed_on() {
    let mut host = Host::new();
    let mut resource = VolumeResource::new();
    let mut given = Vec::new();
    let mut metadata = Vec::new();
    let volume = loop {
        let mut session = VolumeSession { replies: given.clone() };
        match BlockEmptyDirVolume::new(Some("/source"), &settings(), &mut session) {
            Ok(result) => break result.unwrap(),
            Err(VolumeCommand::Stat(_)) => given.push(VolumeReply::Number(1000)),
            Err(command) => {
                if let VolumeCommand::AddMountInfo { info, .. } = &command {
                    metadata = info.metadata.clone();
                    assert_eq!(info.volume_type, "blk");
                    assert_eq!(info.fs_type, "ext4");
                    assert_eq!(info.device, "/source/disk.img");
                    assert_eq!(info.options, vec!["discard".to_string()]);
                }
                given.push(host.answer(&mut resource, &command));
            }
        }
    };
    assert_eq!(value(&metadata, "fsGroup"), Some("1000"));
    let group = volume.storage.fs_group.unwrap();
    assert_eq!(group.group_id, 1000);
    assert!(group.change_always);
    assert_eq!(volume.storage.mount_point, volume.mount_source);
}

#[test]
fn mounts_are_told_apart() {
    let mount = &emptydir_mounts(1)[0];
    assert!(is_block_emptydir_mode("block-plain"));
    assert!(is_block_emptydir_mode("block-encrypted"));
    assert!(!is_block_emptydir_mode("shared-fs"));
    assert!(is_block_emptydir_volume(mount, BLOCK_PLAIN));
    assert!(!is_block_emptydir_volume(mount, "shared-fs"));
    assert!(!is_block_emptydir_volume(&plain_mount("/x"), BLOCK_PLAIN));
    assert!(need_local_volume(mount, false, "shared-fs"));
    assert!(!need_local_volume(mount, true, "shared-fs"));
    assert!(!need_local_volume(mount, false, BLOCK_PLAIN));
    assert!(!is_skip_volume(mount));
}

/// The volumes of two containers have numbers of their own, also while they wait for cleanup.
#[test]
fn containers_share_no_volume_number() {
    let mut host = Host::new();
    let mut resource = VolumeResource::new();
    let mounts = mixed_mounts(&mut host);
    host.cleanup_failures.insert(1, 2);
    host.cleanup_failures.insert(5, 1);
    for first_volume in [0, 4] {
        let context = VolumeContext { first_volume, ..context() };
        let result =
            drive(&mut host, &mut resource, |session| session.handler_volumes(&context, &mounts));
        assert!(result.is_err());
    }
    assert_eq!(host.cleaned, [2, 1, 0, 6, 5, 4]);
    assert_eq!(resource.pending_rollback_volumes, vec![1, 5]);

    let error = retry(&mut host, &mut resource).unwrap_err();
    assert!(error.chain_text().contains("volume 1 cleanup failed"));
    assert_eq!(resource.pending_rollback_volumes, vec![1]);
}

/// The volumes of a container stand in the order of its mounts.
#[test]
fn volumes_stand_in_mount_order() {
    let mut host = Host::new();
    let mut resource = VolumeResource::new();
    let mut mounts = emptydir_mounts(2);
    mounts.insert(1, MountFacts { is_shm: true, ..plain_mount("/dev/shm") });
    mounts.push(MountFacts { is_block: true, ..plain_mount("/dev/sdb") });
    let volumes = handle(&mut host, &mut resource, &mounts).unwrap();
    let ordinals: Vec<_> = volumes.iter().map(|volume| volume.ordinal).collect();
    assert_eq!(ordinals, [0, 1, 2, 3]);
    assert_eq!(resource.volumes, vec![0, 1, 2, 3]);
    assert!(volumes[0].block_emptydir.is_some());
    assert!(volumes[1].block_emptydir.is_none());
}

#[test]
fn each_mount_asks_for_the_kind_that_fits() {
    let kind_of = |mount: MountFacts, replies: Vec<VolumeReply>| {
        let mut session = VolumeSession { replies };
        let context = VolumeContext {
            emptydir: EmptyDirSettings { emptydir_mode: "shared-fs".to_string(), ..settings() },
            fs_sharing_supported: false,
            first_volume: 0,
        };
        match session.handler_volumes(&context, &vec![mount]).unwrap_err() {
            VolumeCommand::Construct { kind, read_only, .. } => (kind, read_only),
            other => panic!("unexpected command {:?}", other),
        }
    };
    let shm = MountFacts { is_shm: true, ..plain_mount("/dev/shm") };
    assert_eq!(kind_of(shm, Vec::new()), (VolumeKind::Shm, false));
    let ephemeral = MountFacts { is_ephemeral: true, ..plain_mount("/tmp") };
    assert_eq!(kind_of(ephemeral, Vec::new()), (VolumeKind::Ephemeral, false));
    let local = emptydir_mounts(1).remove(0);
    assert_eq!(kind_of(local, Vec::new()), (VolumeKind::Local, false));
    let read_only = MountFacts {
        is_block: true,
        options: vec!["rbind".to_string(), "ro".to_string()],
        ..plain_mount("/dev/sdb")
    };
    assert_eq!(kind_of(read_only, Vec::new()), (VolumeKind::Block, true));
    let direct = vec![VolumeReply::Flag(true)];
    assert_eq!(kind_of(plain_mount("/x"), direct), (VolumeKind::Direct, false));
    let huge = vec![VolumeReply::Flag(false), VolumeReply::Flag(true), VolumeReply::Done];
    assert_eq!(kind_of(plain_mount("/x"), huge), (VolumeKind::HugePage, false));
    let rest = vec![VolumeReply::Flag(false), VolumeReply::Flag(false)];
    assert_eq!(kind_of(plain_mount("/x"), rest.clone()), (VolumeKind::Plain, false));
    let shared = MountFacts { is_share_fs: true, ..plain_mount("/x") };
    assert_eq!(kind_of(shared, rest), (VolumeKind::ShareFs, false));
}

/// A device that failed to attach stays with its disk, and no artifact goes before its device.
#[test]
fn finalization_waits_for_the_device() {
    let mut host = Host::failing_at(1);
    let mut resource = VolumeResource::new();
    assert!(handle(&mut host, &mut resource, &emptydir_mounts(1)).is_err());
    let device_id = host.attempted[0].0.clone();
    let disk = &resource.ephemeral_disks.snapshot()[0];
    assert_eq!(disk.device_id.as_deref(), Some(device_id.as_str()));

    let mut given = Vec::new();
    let error = loop {
        let mut session = VolumeSession { replies: given.clone() };
        match session.finalize_ephemeral_disks() {
            Ok(result) => break result.unwrap_err(),
            Err(VolumeCommand::ReleaseAfterStop(_)) => {
                given.push(VolumeReply::Failed(msg("still registered")));
            }
            Err(command) => given.push(host.answer(&mut resource, &command)),
        }
    };
    assert_eq!(
        error.text(),
        format!("finalize block EmptyDir device {}: still registered", device_id)
    );
    assert_there(&host, &source(0));
    assert_eq!(resource.ephemeral_disks.snapshot().len(), 1);
}

/// After a cleanup the store keeps the disks that failed and those that came meanwhile.
#[test]
fn reconciled_store_keeps_what_is_left() {
    let mut store = EphemeralDiskStore::default();
    for (id, path) in [(1, "/a"), (2, "/b"), (3, "/c")] {
        store.register(disk_info(id, path)).unwrap();
    }
    store.reconcile(
        &vec![disk_info(1, "/a"), disk_info(2, "/b")],
        &vec![disk_info(2, "/b")],
    );
    let left: Vec<u64> = store.snapshot().iter().map(|disk| disk.tracking_id).collect();
    assert_eq!(left, vec![2, 3]);
}
