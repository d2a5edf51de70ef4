//! `emptyDir` volumes that are block devices of the guest.
use crate::block_device::{BlockConfigModel, BlockConfigModern, BlockDeviceAio};
use crate::block_handle::HYPERVISOR_QEMU;
use crate::error::{
    device_in_doubt, error_chain_text, error_text, in_context, message, pending_disk_in, DiskModel,
    EphemeralDiskInfo, Error, ErrorModel,
};
use crate::table::push_item;
use crate::text::{cat2, cat3, cat4, cat5, debug_path_text, quoted_path, same};
use crate::volume::artifacts::{
    artifacts_cleaned, artifacts_prepared, cleaned_after, cleaned_after_removal, pending_cleanup_error,
    pending_ephemeral_disk, pending_error, DISCARD_MOUNT_OPTION,
    ENCRYPTION_KEY_VALUE,
};
use crate::volume::wire::{
    all_readable, came, device_in, done_in, given, number_in, read_device, read_done, read_number, read_removal,
    removal_in, unexpected, BuiltVolume, DeviceRemoval, FSGroup, HostInfo, RootPorts, Storage,
    StorageModel, VolumeCommand, VolumeModel, VolumeReply, VolumeSession, VolumeStep,
};
use base64::Engine;
use vstd::prelude::*;
use vstd::utf8::encode_utf8;

verus! {

/// The mode in which `emptyDir` volumes are encrypted block devices.
pub const EMPTYDIR_MODE_BLOCK_ENCRYPTED: &'static str = "block-encrypted";

/// The mode in which `emptyDir` volumes are plain block devices.
pub const EMPTYDIR_MODE_BLOCK_PLAIN: &'static str = "block-plain";

/// The driver of block devices that can use a PCIe root port.
pub const VIRTIO_BLK_PCI: &'static str = "virtio-blk-pci";

/// The directory of a sandbox in the guest.
pub const DEFAULT_KATA_GUEST_SANDBOX_DIR: &'static str = "/run/kata-containers/sandbox";

/// The type of the mount of an `emptyDir` volume.
pub const KATA_MOUNT_BIND_TYPE: &'static str = "bind";

/// The digit of a number below sixty-four in the URL-safe alphabet.
pub open spec fn sextet(n: int) -> char {
    if n < 26 {
        ('A' as int + n) as char
    } else if n < 52 {
        ('a' as int + n - 26) as char
    } else if n < 62 {
        ('0' as int + n - 52) as char
    } else if n == 62 {
        '-'
    } else {
        '_'
    }
}

/// Bytes in base 64, with the URL-safe alphabet and with padding.
pub open spec fn base64_text(bytes: Seq<u8>) -> Seq<char>
    decreases bytes.len(),
{
    if bytes.len() == 0 {
        seq![]
    } else {
        let a = bytes[0] as int;
        let b = if bytes.len() > 1 {
            bytes[1] as int
        } else {
            0
        };
        let c = if bytes.len() > 2 {
            bytes[2] as int
        } else {
            0
        };
        seq![
            sextet(a / 4),
            sextet(a % 4 * 16 + b / 16),
            if bytes.len() > 1 {
                sextet(b % 16 * 4 + c / 64)
            } else {
                '='
            },
            if bytes.len() > 2 {
                sextet(c % 64)
            } else {
                '='
            },
        ] + if bytes.len() > 3 {
            base64_text(bytes.skip(3))
        } else {
            seq![]
        }
    }
}

/// Whether the text of so many bytes in base 64 can be held in memory.
pub open spec fn base64_fits(bytes: Seq<u8>) -> bool {
    4 * (bytes.len() / 3 + 1) <= isize::MAX
}

/// `base64`'s `Engine::encode` of `general_purpose::URL_SAFE` gives the bytes in base 64, with the
/// URL-safe alphabet and with padding.
#[verifier::external_body]
fn encode_url_safe(bytes: &[u8]) -> (r: String)
    requires
        base64_fits(bytes@),
    ensures
        r@ == base64_text(bytes@),
{
    base64::engine::general_purpose::URL_SAFE.encode(bytes)
}

/// Where the agent mounts the block device of a storage.
pub open spec fn mount_point_of(source: Seq<char>) -> Seq<char> {
    DEFAULT_KATA_GUEST_SANDBOX_DIR@ + "/storage/"@ + base64_text(encode_utf8(source))
}

/// Where the agent mounts the block device of a storage.
pub fn agent_mount_point(source: &str) -> (r: String)
    requires
        base64_fits(encode_utf8(source@)),
    ensures
        r@ == mount_point_of(source@),
{
    let encoded = encode_url_safe(source.as_bytes());
    cat3(DEFAULT_KATA_GUEST_SANDBOX_DIR, "/storage/", encoded.as_str())
}

/// Whether `emptyDir` volumes are block devices in that mode.
pub open spec fn is_block_mode(emptydir_mode: Seq<char>) -> bool {
    emptydir_mode == EMPTYDIR_MODE_BLOCK_ENCRYPTED@ || emptydir_mode == EMPTYDIR_MODE_BLOCK_PLAIN@
}

/// Whether `emptyDir` volumes are block devices in that mode.
pub fn is_block_emptydir_mode(emptydir_mode: &str) -> (r: bool)
    ensures
        r == is_block_mode(emptydir_mode@),
{
    same(emptydir_mode, EMPTYDIR_MODE_BLOCK_ENCRYPTED) || same(
        emptydir_mode,
        EMPTYDIR_MODE_BLOCK_PLAIN,
    )
}

/// The driver of an `emptyDir` volume: the one that is configured, with discard or without.
pub fn block_emptydir_driver(discard_unmap: bool, default_driver: &str) -> (r: String)
    ensures
        r@ == default_driver@,
{
    default_driver.to_owned()
}

/// Whether a machine of QEMU has PCIe root ports.
pub open spec fn has_root_ports(machine_type: Seq<char>) -> bool {
    machine_type == "q35"@ || machine_type == "virt"@
}

/// Whether a machine of QEMU has PCIe root ports.
pub fn supports_pcie_root_ports(machine_type: &str) -> (r: bool)
    ensures
        r == has_root_ports(machine_type@),
{
    same(machine_type, "q35") || same(machine_type, "virt")
}

/// Whether a block device is to be plugged into a PCIe root port.
pub open spec fn takes_root_port(
    block_driver: Seq<char>,
    machine_type: Seq<char>,
    topology: Option<RootPorts>,
) -> bool {
    block_driver == VIRTIO_BLK_PCI@ && has_root_ports(machine_type) && (topology matches Some(
        topology,
    ) && topology.hypervisor_name@ == HYPERVISOR_QEMU@ && topology.pcie_root_ports > 0)
}

/// Whether a block device is to be plugged into a PCIe root port.
pub fn use_qemu_pcie_root_port(
    block_driver: &str,
    machine_type: &str,
    topology: &Option<RootPorts>,
) -> (r: bool)
    ensures
        r == takes_root_port(block_driver@, machine_type@, *topology),
{
    same(block_driver, VIRTIO_BLK_PCI) && supports_pcie_root_ports(machine_type) && match topology {
        Some(topology) => same(topology.hypervisor_name.as_str(), HYPERVISOR_QEMU)
            && topology.pcie_root_ports > 0,
        None => false,
    }
}

/// A storage for an `emptyDir` volume that is a block device. The agent makes its file system.
pub open spec fn storage_configured(
    storage: StorageModel,
    encrypted: bool,
    discard_unmap: bool,
    create_fs: Seq<char>,
) -> StorageModel {
    let keyed = if encrypted {
        storage.driver_options.push("encryption_key="@ + ENCRYPTION_KEY_VALUE@)
    } else {
        storage.driver_options
    };
    StorageModel {
        driver_options: keyed.push(create_fs),
        options: if discard_unmap {
            storage.options.push(DISCARD_MOUNT_OPTION@)
        } else {
            storage.options
        },
        shared: true,
        ..storage
    }
}

/// Configures the storage of an `emptyDir` volume that is a block device. `create_fs` is the option
/// that has the agent make its file system.
pub fn configure_block_emptydir_storage(
    storage: &mut Storage,
    encrypted: bool,
    discard_unmap: bool,
    create_fs: &str,
)
    ensures
        final(storage).deep_view() == storage_configured(
            old(storage).deep_view(),
            encrypted,
            discard_unmap,
            create_fs@,
        ),
{
    if encrypted {
        push_item(&mut storage.driver_options, cat2("encryption_key=", ENCRYPTION_KEY_VALUE));
    }
    push_item(&mut storage.driver_options, create_fs.to_owned());
    if discard_unmap {
        push_item(&mut storage.options, DISCARD_MOUNT_OPTION.to_owned());
    }
    storage.shared = true;
}

/// What the setup of `emptyDir` volumes goes by.
#[derive(Clone, Debug)]
pub struct EmptyDirSettings {
    pub sid: String,
    pub emptydir_mode: String,
    /// Whether the hypervisor can hand free space back to the host.
    pub discard_supported: bool,
    /// The directory below which the mounts of direct volumes are described.
    pub metadata_root: String,
    /// The option that has the agent make a file system.
    pub create_fs: String,
}

impl EmptyDirSettings {
    /// Whether the disk is encrypted.
    pub open spec fn is_encrypted(self) -> bool {
        self.emptydir_mode@ == EMPTYDIR_MODE_BLOCK_ENCRYPTED@
    }

    /// Whether free space of the disk is handed back to the host.
    pub open spec fn discards(self) -> bool {
        self.emptydir_mode@ == EMPTYDIR_MODE_BLOCK_PLAIN@ && self.discard_supported
    }

    fn encrypted(&self) -> (r: bool)
        ensures
            r == self.is_encrypted(),
    {
        same(self.emptydir_mode.as_str(), EMPTYDIR_MODE_BLOCK_ENCRYPTED)
    }

    fn discard_unmap(&self) -> (r: bool)
        ensures
            r == self.discards(),
    {
        same(self.emptydir_mode.as_str(), EMPTYDIR_MODE_BLOCK_PLAIN) && self.discard_supported
    }
}

/// An `emptyDir` volume that is a block device of the guest.
#[derive(Debug)]
pub struct BlockEmptyDirVolume {
    pub storage: Storage,
    /// The source of the mount in the guest.
    pub mount_source: String,
    /// The type of the mount in the guest.
    pub mount_typ: String,
    pub device_id: String,
    pub disk_info: EphemeralDiskInfo,
}

/// The model of a [`BlockEmptyDirVolume`].
pub struct EmptyDirModel {
    pub storage: StorageModel,
    pub mount_source: Seq<char>,
    pub mount_typ: Seq<char>,
    pub device_id: Seq<char>,
    pub disk: DiskModel,
}

impl DeepView for BlockEmptyDirVolume {
    type V = EmptyDirModel;

    open spec fn deep_view(&self) -> EmptyDirModel {
        EmptyDirModel {
            storage: self.storage.deep_view(),
            mount_source: self.mount_source@,
            mount_typ: self.mount_typ@,
            device_id: self.device_id@,
            disk: self.disk_info.deep_view(),
        }
    }
}

/// The store lets go of a disk after `error`, unless the error says that the disk is pending.
pub open spec fn constructor_reconciled(
    rs: Seq<VolumeReply>,
    tracking_id: u64,
    error: ErrorModel,
) -> VolumeStep<ErrorModel> {
    if pending_disk_in(error) is Some {
        (rs, Ok(error))
    } else if rs.len() == 0 {
        (rs, Err(VolumeModel::Remove(tracking_id)))
    } else {
        (rs.drop_first(), Ok(error))
    }
}

/// A disk that the store refused is cleaned; where that fails, the store has to keep it after all.
pub open spec fn registration_rejected(
    rs: Seq<VolumeReply>,
    error: ErrorModel,
    disk: DiskModel,
) -> VolumeStep<ErrorModel> {
    match artifacts_cleaned(rs, disk) {
        (rs, Err(command)) => (rs, Err(command)),
        (rs, Ok(Ok(()))) => (
            rs,
            Ok(
                in_context(
                    error,
                    "removed block EmptyDir artifacts because post-stop finalization had already sealed ownership"@,
                ),
            ),
        ),
        (rs, Ok(Err(cleanup))) => if rs.len() == 0 {
            (rs, Err(VolumeModel::Preserve(disk)))
        } else {
            (
                rs.drop_first(),
                Ok(
                    pending_error(
                        disk,
                        error_chain_text(error)
                            + "; registration was rejected before device attachment, but artifact cleanup remains pending: "@
                            + error_chain_text(cleanup),
                    ),
                ),
            )
        },
    }
}

/// The device of a volume that cannot be used is removed, and the artifacts after it.
pub open spec fn device_rolled_back(
    rs: Seq<VolumeReply>,
    device_id: Seq<char>,
    error: ErrorModel,
    disk: DiskModel,
) -> VolumeStep<ErrorModel> {
    if rs.len() == 0 {
        (rs, Err(VolumeModel::RemoveDevice(device_id)))
    } else {
        let removal = removal_in(rs[0]);
        match cleaned_after_removal(rs.drop_first(), disk, removal) {
            (rs, Err(command)) => (rs, Err(command)),
            (rs, Ok(cleanup)) => (
                rs,
                Ok(
                    match removal {
                        Ok(DeviceRemoval::Detached) => match cleanup {
                            Ok(_) => in_context(
                                error,
                                "rolled back block emptyDir device "@ + device_id
                                    + " after setup failed"@,
                            ),
                            Err(failure) => pending_error(
                                disk,
                                error_chain_text(error) + "; device "@ + device_id
                                    + " detached but artifact cleanup remains pending: "@
                                    + error_chain_text(failure),
                            ),
                        },
                        Ok(DeviceRemoval::ReferenceReleased) => if disk.disk_created
                            || disk.metadata_created {
                            pending_error(
                                disk,
                                error_chain_text(error)
                                    + "; released shared block emptyDir device reference "@
                                    + device_id
                                    + "; artifacts remain owned by another reference"@,
                            )
                        } else {
                            in_context(
                                error,
                                "released shared block emptyDir device reference "@ + device_id
                                    + " after setup failed"@,
                            )
                        },
                        Err(failure) => pending_error(
                            disk,
                            error_chain_text(error) + "; device "@ + device_id
                                + " and its artifacts remain pending cleanup: "@
                                + error_chain_text(failure),
                        ),
                    },
                ),
            ),
        }
    }
}

/// A volume that cannot be used is taken down: its device, its artifacts, and its record.
pub open spec fn attached_undone(
    rs: Seq<VolumeReply>,
    device_id: Seq<char>,
    error: ErrorModel,
    disk: DiskModel,
) -> VolumeStep<Result<EmptyDirModel, ErrorModel>> {
    match device_rolled_back(rs, device_id, error, disk) {
        (rs, Err(command)) => (rs, Err(command)),
        (rs, Ok(error)) => match constructor_reconciled(rs, disk.tracking_id, error) {
            (rs, Err(command)) => (rs, Err(command)),
            (rs, Ok(error)) => (rs, Ok(Err(error))),
        },
    }
}

/// The group of the directory of a volume, once the setup is serialized in this process.
pub open spec fn group_known(rs: Seq<VolumeReply>, source: Seq<char>) -> VolumeStep<
    Result<u32, ErrorModel>,
> {
    if rs.len() == 0 {
        (rs, Err(VolumeModel::LockTransaction(source)))
    } else if let Err(error) = done_in(rs[0]) {
        (rs.drop_first(), Ok(Err(error)))
    } else if rs.len() == 1 {
        (rs.drop_first(), Err(VolumeModel::Stat(source)))
    } else {
        match number_in(rs[1]) {
            Err(error) => (
                rs.skip(2),
                Ok(Err(in_context(error, "stat emptyDir "@ + debug_path_text(source)))),
            ),
            Ok(gid) => (rs.skip(2), Ok(Ok(gid as u32))),
        }
    }
}

/// The artifacts are made under a tracking number of their own. A disk that could not be cleaned
/// goes into the store, whatever its state.
pub open spec fn artifacts_tracked(
    rs: Seq<VolumeReply>,
    source: Seq<char>,
    settings: EmptyDirSettings,
    dir_gid: u32,
) -> VolumeStep<Result<DiskModel, ErrorModel>> {
    if rs.len() == 0 {
        (rs, Err(VolumeModel::AllocateTrackingId))
    } else {
        match number_in(rs[0]) {
            Err(error) => (rs.drop_first(), Ok(Err(error))),
            Ok(tracking_id) => match artifacts_prepared(
                rs.drop_first(),
                source,
                settings.metadata_root@,
                settings.is_encrypted(),
                settings.discards(),
                dir_gid,
                tracking_id,
            ) {
                (rs, Err(command)) => (rs, Err(command)),
                (rs, Ok(Ok(disk))) => (rs, Ok(Ok(disk))),
                (rs, Ok(Err(error))) => match pending_disk_in(error) {
                    None => (rs, Ok(Err(error))),
                    Some(disk) => if rs.len() == 0 {
                        (rs, Err(VolumeModel::Preserve(disk)))
                    } else {
                        (rs.drop_first(), Ok(Err(error)))
                    },
                },
            },
        }
    }
}

/// The artifacts are made, and the store owns the disk.
pub open spec fn disk_owned(
    rs: Seq<VolumeReply>,
    source: Seq<char>,
    settings: EmptyDirSettings,
    dir_gid: u32,
) -> VolumeStep<Result<DiskModel, ErrorModel>> {
    match artifacts_tracked(rs, source, settings, dir_gid) {
        (rs, Err(command)) => (rs, Err(command)),
        (rs, Ok(Err(error))) => match pending_disk_in(error) {
            None => (rs, Ok(Err(error))),
            Some(disk) => if rs.len() == 0 {
                (rs, Err(VolumeModel::Register(disk)))
            } else {
                match done_in(rs[0]) {
                    Ok(()) => (rs.drop_first(), Ok(Err(error))),
                    Err(refusal) => match registration_rejected(
                        rs.drop_first(),
                        in_context(error, error_text(refusal)),
                        disk,
                    ) {
                        (rs, Err(command)) => (rs, Err(command)),
                        (rs, Ok(error)) => (rs, Ok(Err(error))),
                    },
                }
            },
        },
        (rs, Ok(Ok(disk))) => if rs.len() == 0 {
            (rs, Err(VolumeModel::Register(disk)))
        } else {
            match done_in(rs[0]) {
                Ok(()) => (rs.drop_first(), Ok(Ok(disk))),
                Err(refusal) => match registration_rejected(rs.drop_first(), refusal, disk) {
                    (rs, Err(command)) => (rs, Err(command)),
                    (rs, Ok(error)) => (rs, Ok(Err(error))),
                },
            }
        },
    }
}

/// The block device of a volume.
pub open spec fn device_config_of(host: HostInfo, disk_path: Seq<char>, discard_unmap: bool) -> BlockConfigModel {
    BlockConfigModel {
        path_on_host: disk_path,
        is_readonly: false,
        discard_unmap,
        retain_on_unclassified_attach_error: true,
        no_drop: false,
        vmdk: None,
        is_direct: None,
        index: 0,
        blkdev_aio: if host.block_device_aio@ == "native"@ {
            BlockDeviceAio::Native
        } else if host.block_device_aio@ == "threads"@ {
            BlockDeviceAio::Threads
        } else {
            BlockDeviceAio::IoUring
        },
        driver_option: host.block_device_driver@,
        virt_path: seq![],
        pci_path: None,
        pcie_root_port: None,
        use_pcie_root_port: takes_root_port(
            host.block_device_driver@,
            host.machine_type@,
            host.topology,
        ),
        cleanup_state: None,
        scsi_addr: None,
        ccw_addr: None,
        attach_count: 0,
        major: 0,
        minor: 0,
        queue_size: host.queue_size,
        num_queues: host.num_queues,
        logical_sector_size: host.logical_sector_size,
        physical_sector_size: host.physical_sector_size,
        serial_override: seq![],
    }
}

/// The failure to attach the device of a volume. Whatever is known of the device is kept with the
/// disk, whose artifacts stay until the virtual machine has stopped.
pub open spec fn attach_failed(rs: Seq<VolumeReply>, error: ErrorModel, disk: DiskModel) -> VolumeStep<
    Result<EmptyDirModel, ErrorModel>,
> {
    let error = in_context(error, "plug block emptyDir block device"@);
    if rs.len() == 0 {
        (rs, Err(VolumeModel::FindDevice(disk.disk_path)))
    } else {
        let device_id = match device_in(rs[0]) {
            Some(device_id) => Some(device_id),
            None => device_in_doubt(error),
        };
        (
            rs.drop_first(),
            Ok(
                Err(
                    pending_error(
                        DiskModel { device_id, ..disk },
                        error_chain_text(error)
                            + "; preserved block emptyDir artifacts for post-stop cleanup"@,
                    ),
                ),
            ),
        )
    }
}

/// The attachment of something that is no block device.
pub open spec fn attach_misled(rs: Seq<VolumeReply>, described: Seq<char>, disk: DiskModel) -> VolumeStep<
    Result<EmptyDirModel, ErrorModel>,
> {
    let error = message(
        "block emptyDir attach returned unexpected device type: "@ + described,
    );
    if rs.len() == 0 {
        (rs, Err(VolumeModel::FindDevice(disk.disk_path)))
    } else {
        match device_in(rs[0]) {
            Some(device_id) => attached_undone(
                rs.drop_first(),
                device_id,
                error,
                DiskModel { device_id: Some(device_id), ..disk },
            ),
            None => match cleaned_after(rs.drop_first(), error, disk) {
                (rs, Err(command)) => (rs, Err(command)),
                (rs, Ok(error)) => match constructor_reconciled(rs, disk.tracking_id, error) {
                    (rs, Err(command)) => (rs, Err(command)),
                    (rs, Ok(error)) => (rs, Ok(Err(error))),
                },
            },
        }
    }
}

/// The volume over a device that is attached.
pub open spec fn volume_of(
    built: BuiltVolume,
    settings: EmptyDirSettings,
    dir_gid: u32,
    disk: DiskModel,
) -> EmptyDirModel {
    let mount_point = mount_point_of(built.storage.source@);
    EmptyDirModel {
        storage: StorageModel {
            mount_point,
            fs_group: if dir_gid != 0 {
                Some(FSGroup { group_id: dir_gid, change_always: true })
            } else {
                built.storage.fs_group
            },
            ..storage_configured(
                built.storage.deep_view(),
                settings.is_encrypted(),
                settings.discards(),
                settings.create_fs@,
            )
        },
        mount_source: mount_point,
        mount_typ: KATA_MOUNT_BIND_TYPE@,
        device_id: built.device_id@,
        disk: DiskModel { guest_stats_path: mount_point, ..disk },
    }
}

/// The guest's side of a volume is made, and the store notes where the guest has it.
pub open spec fn volume_built(
    rs: Seq<VolumeReply>,
    device_id: Seq<char>,
    settings: EmptyDirSettings,
    dir_gid: u32,
    disk: DiskModel,
) -> VolumeStep<Result<EmptyDirModel, ErrorModel>> {
    let disk = DiskModel { device_id: Some(device_id), ..disk };
    if rs.len() == 0 {
        (
            rs,
            Err(
                VolumeModel::BuildVolume {
                    device_id,
                    sid: settings.sid@,
                    read_only: false,
                    fs_type: "ext4"@,
                },
            ),
        )
    } else {
        match rs[0] {
            VolumeReply::Built(built) => if rs.len() == 1 {
                (
                    rs.drop_first(),
                    Err(
                        VolumeModel::UpdateGuestStatsPath {
                            tracking_id: disk.tracking_id,
                            path: mount_point_of(built.storage.source@),
                        },
                    ),
                )
            } else {
                (rs.skip(2), Ok(Ok(volume_of(built, settings, dir_gid, disk))))
            },
            VolumeReply::Failed(error) => attached_undone(
                rs.drop_first(),
                device_id,
                error.deep_view(),
                disk,
            ),
            _ => attached_undone(rs.drop_first(), device_id, unexpected(), disk),
        }
    }
}

/// The device of a disk that the store owns is attached, and the volume made over it.
pub open spec fn disk_attached(
    rs: Seq<VolumeReply>,
    settings: EmptyDirSettings,
    dir_gid: u32,
    disk: DiskModel,
) -> VolumeStep<Result<EmptyDirModel, ErrorModel>> {
    if rs.len() == 0 {
        (rs, Err(VolumeModel::HostInfo))
    } else {
        match rs[0] {
            VolumeReply::Host(host) => if rs.len() == 1 {
                (
                    rs.drop_first(),
                    Err(
                        VolumeModel::Attach {
                            tracking_id: disk.tracking_id,
                            config: device_config_of(host, disk.disk_path, settings.discards()),
                        },
                    ),
                )
            } else {
                let rest = rs.skip(2);
                match rs[1] {
                    VolumeReply::Attached(device_id) => volume_built(
                        rest,
                        device_id@,
                        settings,
                        dir_gid,
                        disk,
                    ),
                    VolumeReply::Unexpected(described) => attach_misled(rest, described@, disk),
                    VolumeReply::Failed(error) => attach_failed(rest, error.deep_view(), disk),
                    _ => attach_failed(rest, unexpected(), disk),
                }
            },
            _ => (rs.drop_first(), Ok(Err(unexpected()))),
        }
    }
}

/// An `emptyDir` volume is made.
pub open spec fn emptydir_made(
    rs: Seq<VolumeReply>,
    source: Option<Seq<char>>,
    settings: EmptyDirSettings,
) -> VolumeStep<Result<EmptyDirModel, ErrorModel>> {
    match source {
        None => (rs, Ok(Err(message("block emptyDir mount has no source"@)))),
        Some(source) => match group_known(rs, source) {
            (rs, Err(command)) => (rs, Err(command)),
            (rs, Ok(Err(error))) => (rs, Ok(Err(error))),
            (rs, Ok(Ok(dir_gid))) => match disk_owned(rs, source, settings, dir_gid) {
                (rs, Err(command)) => (rs, Err(command)),
                (rs, Ok(Err(error))) => (rs, Ok(Err(error))),
                (rs, Ok(Ok(disk))) => disk_attached(rs, settings, dir_gid, disk),
            },
        },
    }
}

impl VolumeSession {
    /// Lets go of a disk after `error`, unless the error says that the disk is pending.
    pub fn reconcile_constructor_error(&mut self, tracking_id: u64, error: Error) -> (r: Result<
        Error,
        VolumeCommand,
    >)
        ensures
            all_readable(old(self)@) ==> all_readable(final(self)@),
            (final(self)@, given(r)) == constructor_reconciled(
                old(self)@,
                tracking_id,
                error.deep_view(),
            ),
    {
        if pending_ephemeral_disk(&error).is_none() {
            let _ = self.ask(VolumeCommand::Remove(tracking_id))?;
        }
        Ok(error)
    }

    /// Cleans a disk that the store refused with `registration_error`.
    pub fn cleanup_rejected_registration(
        &mut self,
        registration_error: Error,
        disk: EphemeralDiskInfo,
    ) -> (r: Result<Error, VolumeCommand>)
        ensures
            all_readable(old(self)@) ==> all_readable(final(self)@),
            (final(self)@, given(r)) == registration_rejected(
                old(self)@,
                registration_error.deep_view(),
                disk.deep_view(),
            ),
    {
        match self.cleanup_owned_emptydir_artifacts(&disk)? {
            Ok(()) => Ok(
                registration_error.context_str(
                    "removed block EmptyDir artifacts because post-stop finalization had already sealed ownership",
                ),
            ),
            Err(cleanup) => {
                let _ = self.ask(VolumeCommand::Preserve(disk.dup()))?;
                Ok(
                    pending_cleanup_error(
                        disk,
                        cat3(
                            registration_error.chain_text().as_str(),
                            "; registration was rejected before device attachment, but artifact cleanup remains pending: ",
                            cleanup.chain_text().as_str(),
                        ),
                    ),
                )
            },
        }
    }

    /// Removes the device of a volume that cannot be used because of `setup_error`, and its
    /// artifacts once it is gone.
    pub fn rollback_failed_emptydir_device(
        &mut self,
        device_id: &str,
        setup_error: Error,
        disk_info: EphemeralDiskInfo,
    ) -> (r: Result<Error, VolumeCommand>)
        ensures
            all_readable(old(self)@) ==> all_readable(final(self)@),
            (final(self)@, given(r)) == device_rolled_back(
                old(self)@,
                device_id@,
                setup_error.deep_view(),
                disk_info.deep_view(),
            ),
    {
        let reply = self.ask(VolumeCommand::RemoveDevice(device_id.to_owned()))?;
        let removal = read_removal(reply);
        let cleanup = self.cleanup_artifacts_after_device_removal(&disk_info, &removal)?;
        match removal {
            Ok(DeviceRemoval::Detached) => match cleanup {
                Ok(_) => Ok(
                    setup_error.context(
                        cat3(
                            "rolled back block emptyDir device ",
                            device_id,
                            " after setup failed",
                        ),
                    ),
                ),
                Err(failure) => Ok(
                    pending_cleanup_error(
                        disk_info,
                        cat5(
                            setup_error.chain_text().as_str(),
                            "; device ",
                            device_id,
                            " detached but artifact cleanup remains pending: ",
                            failure.chain_text().as_str(),
                        ),
                    ),
                ),
            },
            Ok(DeviceRemoval::ReferenceReleased) => if disk_info.owns_artifacts() {
                Ok(
                    pending_cleanup_error(
                        disk_info,
                        cat4(
                            setup_error.chain_text().as_str(),
                            "; released shared block emptyDir device reference ",
                            device_id,
                            "; artifacts remain owned by another reference",
                        ),
                    ),
                )
            } else {
                Ok(
                    setup_error.context(
                        cat3(
                            "released shared block emptyDir device reference ",
                            device_id,
                            " after setup failed",
                        ),
                    ),
                )
            },
            Err(failure) => Ok(
                pending_cleanup_error(
                    disk_info,
                    cat5(
                        setup_error.chain_text().as_str(),
                        "; device ",
                        device_id,
                        " and its artifacts remain pending cleanup: ",
                        failure.chain_text().as_str(),
                    ),
                ),
            ),
        }
    }

    fn undo_attached(
        &mut self,
        device_id: &str,
        setup_error: Error,
        disk_info: EphemeralDiskInfo,
    ) -> (r: Result<Result<BlockEmptyDirVolume, Error>, VolumeCommand>)
        ensures
            all_readable(old(self)@) ==> all_readable(final(self)@),
            (final(self)@, came(r)) == attached_undone(
                old(self)@,
                device_id@,
                setup_error.deep_view(),
                disk_info.deep_view(),
            ),
    {
        let tracking_id: u64 = disk_info.tracking_id;
        let error = self.rollback_failed_emptydir_device(device_id, setup_error, disk_info)?;
        Ok(Err(self.reconcile_constructor_error(tracking_id, error)?))
    }

    fn look_up_group(&mut self, source: &str) -> (r: Result<Result<u32, Error>, VolumeCommand>)
        ensures
            all_readable(old(self)@) ==> all_readable(final(self)@),
            (final(self)@, came(r)) == group_known(old(self)@, source@),
    {
        let ghost all = self@;
        let reply = self.ask(VolumeCommand::LockTransaction(source.to_owned()))?;
        if let Err(error) = read_done(reply) {
            return Ok(Err(error));
        }
        let reply = self.ask(VolumeCommand::Stat(source.to_owned()))?;
        assert(self@ =~= all.skip(2));
        assert(reply == all[1]);
        match read_number(reply) {
            Err(error) => Ok(
                Err(error.context(cat2("stat emptyDir ", quoted_path(source).as_str()))),
            ),
            Ok(gid) => Ok(
                Ok(
                    #[verifier::truncate]
                    (gid as u32),
                ),
            ),
        }
    }

    fn track_artifacts(&mut self, source: &str, settings: &EmptyDirSettings, dir_gid: u32) -> (r:
        Result<Result<EphemeralDiskInfo, Error>, VolumeCommand>)
        requires
            all_readable(old(self)@),
        ensures
            all_readable(final(self)@),
            (final(self)@, came(r)) == artifacts_tracked(
                old(self)@,
                source@,
                *settings,
                dir_gid,
            ),
    {
        let reply = self.ask(VolumeCommand::AllocateTrackingId)?;
        let tracking_id: u64 = match read_number(reply) {
            Ok(tracking_id) => tracking_id,
            Err(error) => {
                return Ok(Err(error));
            },
        };
        match self.prepare_emptydir_artifacts_with_tracking_id(
            source,
            settings.metadata_root.as_str(),
            settings.encrypted(),
            settings.discard_unmap(),
            dir_gid,
            tracking_id,
        )? {
            Ok(disk) => Ok(Ok(disk)),
            Err(error) => {
                if let Some(disk) = pending_ephemeral_disk(&error) {
                    let _ = self.ask(VolumeCommand::Preserve(disk))?;
                }
                Ok(Err(error))
            },
        }
    }

    fn own_disk(&mut self, source: &str, settings: &EmptyDirSettings, dir_gid: u32) -> (r: Result<
        Result<EphemeralDiskInfo, Error>,
        VolumeCommand,
    >)
        requires
            all_readable(old(self)@),
        ensures
            all_readable(final(self)@),
            (final(self)@, came(r)) == disk_owned(old(self)@, source@, *settings, dir_gid),
    {
        match self.track_artifacts(source, settings, dir_gid)? {
            Err(error) => {
                if let Some(disk) = pending_ephemeral_disk(&error) {
                    let reply = self.ask(VolumeCommand::Register(disk.dup()))?;
                    if let Err(refusal) = read_done(reply) {
                        return Ok(
                            Err(
                                self.cleanup_rejected_registration(
                                    error.context(refusal.text()),
                                    disk,
                                )?,
                            ),
                        );
                    }
                }
                Ok(Err(error))
            },
            Ok(disk) => {
                let reply = self.ask(VolumeCommand::Register(disk.dup()))?;
                if let Err(refusal) = read_done(reply) {
                    return Ok(Err(self.cleanup_rejected_registration(refusal, disk)?));
                }
                Ok(Ok(disk))
            },
        }
    }

    fn fail_attach(&mut self, error: Error, disk_info: EphemeralDiskInfo) -> (r: Result<
        Result<BlockEmptyDirVolume, Error>,
        VolumeCommand,
    >)
        ensures
            all_readable(old(self)@) ==> all_readable(final(self)@),
            (final(self)@, came(r)) == attach_failed(
                old(self)@,
                error.deep_view(),
                disk_info.deep_view(),
            ),
    {
        let error = error.context_str("plug block emptyDir block device");
        let reply = self.ask(VolumeCommand::FindDevice(disk_info.disk_path.clone()))?;
        let mut disk_info: EphemeralDiskInfo = disk_info;
        disk_info.device_id = match read_device(reply) {
            Some(device_id) => Some(device_id),
            None => error.device_state_in_doubt(),
        };
        Ok(
            Err(
                pending_cleanup_error(
                    disk_info,
                    cat2(
                        error.chain_text().as_str(),
                        "; preserved block emptyDir artifacts for post-stop cleanup",
                    ),
                ),
            ),
        )
    }

    fn mislead_attach(&mut self, described: &str, disk_info: EphemeralDiskInfo) -> (r: Result<
        Result<BlockEmptyDirVolume, Error>,
        VolumeCommand,
    >)
        ensures
            all_readable(old(self)@) ==> all_readable(final(self)@),
            (final(self)@, came(r)) == attach_misled(
                old(self)@,
                described@,
                disk_info.deep_view(),
            ),
    {
        let error = Error::msg(
            cat2("block emptyDir attach returned unexpected device type: ", described),
        );
        let reply = self.ask(VolumeCommand::FindDevice(disk_info.disk_path.clone()))?;
        match read_device(reply) {
            Some(device_id) => {
                let mut disk_info: EphemeralDiskInfo = disk_info;
                disk_info.device_id = Some(device_id.clone());
                self.undo_attached(device_id.as_str(), error, disk_info)
            },
            None => {
                let error = self.cleanup_owned_emptydir_after_error(error, &disk_info)?;
                Ok(Err(self.reconcile_constructor_error(disk_info.tracking_id, error)?))
            },
        }
    }

    fn build_volume(
        &mut self,
        device_id: &str,
        settings: &EmptyDirSettings,
        dir_gid: u32,
        disk_info: EphemeralDiskInfo,
    ) -> (r: Result<Result<BlockEmptyDirVolume, Error>, VolumeCommand>)
        requires
            all_readable(old(self)@),
        ensures
            all_readable(final(self)@),
            (final(self)@, came(r)) == volume_built(
                old(self)@,
                device_id@,
                *settings,
                dir_gid,
                disk_info.deep_view(),
            ),
    {
        let ghost all = self@;
        let mut disk_info: EphemeralDiskInfo = disk_info;
        disk_info.device_id = Some(device_id.to_owned());
        let built = match self.ask(
            VolumeCommand::BuildVolume {
                device_id: device_id.to_owned(),
                sid: settings.sid.clone(),
                read_only: false,
                fs_type: "ext4".to_owned(),
            },
        )? {
            VolumeReply::Built(built) => built,
            VolumeReply::Failed(error) => {
                return self.undo_attached(device_id, error, disk_info);
            },
            _ => {
                return self.undo_attached(
                    device_id,
                    Error::msg_str("unexpected reply"),
                    disk_info,
                );
            },
        };
        let mount_point = agent_mount_point(built.storage.source.as_str());
        let mut storage: Storage = built.storage;
        configure_block_emptydir_storage(
            &mut storage,
            settings.encrypted(),
            settings.discard_unmap(),
            settings.create_fs.as_str(),
        );
        storage.mount_point = mount_point.clone();
        disk_info.guest_stats_path = mount_point.clone();
        let _ = self.ask(
            VolumeCommand::UpdateGuestStatsPath {
                tracking_id: disk_info.tracking_id,
                path: mount_point.clone(),
            },
        )?;
        assert(self@ =~= all.skip(2));
        if dir_gid != 0 {
            storage.fs_group = Some(FSGroup { group_id: dir_gid, change_always: true });
        }
        Ok(
            Ok(
                BlockEmptyDirVolume {
                    storage,
                    mount_source: mount_point,
                    mount_typ: KATA_MOUNT_BIND_TYPE.to_owned(),
                    device_id: built.device_id,
                    disk_info,
                },
            ),
        )
    }

    fn attach_disk(
        &mut self,
        settings: &EmptyDirSettings,
        dir_gid: u32,
        disk_info: EphemeralDiskInfo,
    ) -> (r: Result<Result<BlockEmptyDirVolume, Error>, VolumeCommand>)
        requires
            all_readable(old(self)@),
        ensures
            all_readable(final(self)@),
            (final(self)@, came(r)) == disk_attached(
                old(self)@,
                *settings,
                dir_gid,
                disk_info.deep_view(),
            ),
    {
        let ghost all = self@;
        let host = match self.ask(VolumeCommand::HostInfo)? {
            VolumeReply::Host(host) => host,
            _ => {
                return Ok(Err(Error::msg_str("unexpected reply")));
            },
        };
        let config = block_config(
            &host,
            disk_info.disk_path.as_str(),
            settings.discard_unmap(),
        );
        let reply = self.ask(
            VolumeCommand::Attach { tracking_id: disk_info.tracking_id, config },
        )?;
        assert(self@ =~= all.skip(2));
        assert(reply == all[1]);
        match reply {
            VolumeReply::Attached(device_id) => self.build_volume(
                device_id.as_str(),
                settings,
                dir_gid,
                disk_info,
            ),
            VolumeReply::Unexpected(described) => self.mislead_attach(
                described.as_str(),
                disk_info,
            ),
            VolumeReply::Failed(error) => self.fail_attach(error, disk_info),
            _ => self.fail_attach(Error::msg_str("unexpected reply"), disk_info),
        }
    }
}

fn block_config(host: &HostInfo, disk_path: &str, discard_unmap: bool) -> (r: BlockConfigModern)
    ensures
        r.deep_view() == device_config_of(*host, disk_path@, discard_unmap),
{
    let driver = block_emptydir_driver(discard_unmap, host.block_device_driver.as_str());
    let use_pcie_root_port = use_qemu_pcie_root_port(
        driver.as_str(),
        host.machine_type.as_str(),
        &host.topology,
    );
    let r = BlockConfigModern {
        path_on_host: disk_path.to_owned(),
        is_readonly: false,
        discard_unmap,
        retain_on_unclassified_attach_error: true,
        no_drop: false,
        vmdk: None,
        is_direct: None,
        index: 0,
        blkdev_aio: BlockDeviceAio::new(host.block_device_aio.as_str()),
        driver_option: driver,
        virt_path: String::new(),
        pci_path: None,
        pcie_root_port: None,
        use_pcie_root_port,
        cleanup_state: None,
        scsi_addr: None,
        ccw_addr: None,
        attach_count: 0,
        major: 0,
        minor: 0,
        queue_size: host.queue_size,
        num_queues: host.num_queues,
        logical_sector_size: host.logical_sector_size,
        physical_sector_size: host.physical_sector_size,
        serial_override: String::new(),
    };
    assert(r.deep_view().virt_path =~= seq![]);
    assert(r.deep_view().serial_override =~= seq![]);
    r
}

impl BlockEmptyDirVolume {
    /// Makes the volume of an `emptyDir` mount with that source. The artifacts are made, the store
    /// owns them before the device is attached, and whatever fails later leaves the store with
    /// exactly what is still to be cleaned.
    pub fn new(source: Option<&str>, settings: &EmptyDirSettings, session: &mut VolumeSession) -> (r:
        Result<Result<BlockEmptyDirVolume, Error>, VolumeCommand>)
        requires
            all_readable(old(session)@),
        ensures
            all_readable(final(session)@),
            (final(session)@, came(r)) == emptydir_made(
                old(session)@,
                match source {
                    Some(source) => Some(source@),
                    None => None,
                },
                *settings,
            ),
    {
        let source = match source {
            Some(source) => source,
            None => {
                return Ok(Err(Error::msg_str("block emptyDir mount has no source")));
            },
        };
        let dir_gid: u32 = match session.look_up_group(source)? {
            Ok(dir_gid) => dir_gid,
            Err(error) => {
                return Ok(Err(error));
            },
        };
        match session.own_disk(source, settings, dir_gid)? {
            Ok(disk) => session.attach_disk(settings, dir_gid, disk),
            Err(error) => Ok(Err(error)),
        }
    }
}

/// Artifacts that were made for a caller who has gone away meanwhile are cleaned; where that fails,
/// the store keeps the disk.
pub open spec fn artifacts_abandoned(rs: Seq<VolumeReply>, disk: DiskModel) -> VolumeStep<()> {
    match artifacts_cleaned(rs, disk) {
        (rs, Err(command)) => (rs, Err(command)),
        (rs, Ok(Ok(()))) => (rs, Ok(())),
        (rs, Ok(Err(_))) => if rs.len() == 0 {
            (rs, Err(VolumeModel::Preserve(disk)))
        } else {
            (rs.drop_first(), Ok(()))
        },
    }
}

impl VolumeSession {
    /// Cleans artifacts that were made for a caller who has gone away meanwhile.
    pub fn abandon_artifacts(&mut self, disk: EphemeralDiskInfo) -> (r: Result<(), VolumeCommand>)
        ensures
            (final(self)@, given(r)) == artifacts_abandoned(old(self)@, disk.deep_view()),
    {
        if let Err(_) = self.cleanup_owned_emptydir_artifacts(&disk)? {
            let _ = self.ask(VolumeCommand::Preserve(disk))?;
        }
        Ok(())
    }
}

proof fn lemma_sextets_differ(a: int, b: int)
    requires
        0 <= a < 64,
        0 <= b < 64,
        sextet(a) == sextet(b),
    ensures
        a == b,
{
}

proof fn lemma_no_padding_digit(a: int)
    requires
        0 <= a < 64,
    ensures
        sextet(a) != '=',
{
}

/// Different bytes have different texts in base 64.
pub proof fn law_base64_is_injective(a: Seq<u8>, b: Seq<u8>)
    requires
        base64_text(a) == base64_text(b),
    ensures
        a == b,
    decreases a.len(),
{
    let x = base64_text(a);
    let y = base64_text(b);
    if a.len() == 0 {
        assert(y.len() == 0);
        assert(a =~= b);
    } else if b.len() == 0 {
        assert(x.len() == 0);
    } else {
        let (a0, b0) = (a[0] as int, b[0] as int);
        let a1 = if a.len() > 1 {
            a[1] as int
        } else {
            0
        };
        let b1 = if b.len() > 1 {
            b[1] as int
        } else {
            0
        };
        let a2 = if a.len() > 2 {
            a[2] as int
        } else {
            0
        };
        let b2 = if b.len() > 2 {
            b[2] as int
        } else {
            0
        };
        assert(x[0] == sextet(a0 / 4) && y[0] == sextet(b0 / 4));
        assert(x[1] == sextet(a0 % 4 * 16 + a1 / 16) && y[1] == sextet(b0 % 4 * 16 + b1 / 16));
        lemma_sextets_differ(a0 / 4, b0 / 4);
        lemma_sextets_differ(a0 % 4 * 16 + a1 / 16, b0 % 4 * 16 + b1 / 16);
        lemma_no_padding_digit(a1 % 16 * 4 + a2 / 64);
        lemma_no_padding_digit(b1 % 16 * 4 + b2 / 64);
        lemma_no_padding_digit(a2 % 64);
        lemma_no_padding_digit(b2 % 64);
        assert(x[2] == y[2] && x[3] == y[3]);
        assert(a0 == b0);
        if a.len() > 1 {
            assert(b.len() > 1);
            lemma_sextets_differ(a1 % 16 * 4 + a2 / 64, b1 % 16 * 4 + b2 / 64);
            assert(a1 == b1);
        }
        if a.len() > 2 {
            assert(b.len() > 2);
            lemma_sextets_differ(a2 % 64, b2 % 64);
            assert(a2 == b2);
        }
        if a.len() > 3 {
            assert(x.skip(4) =~= base64_text(a.skip(3)));
        } else {
            assert(x.len() == 4);
        }
        if b.len() > 3 {
            assert(y.skip(4) =~= base64_text(b.skip(3)));
            assert(base64_text(b.skip(3)).len() > 0);
        } else {
            assert(y.len() == 4);
        }
        if a.len() > 3 {
            assert(base64_text(a.skip(3)).len() > 0);
            assert(b.len() > 3);
            law_base64_is_injective(a.skip(3), b.skip(3));
            assert(a =~= seq![a[0], a[1], a[2]] + a.skip(3));
            assert(b =~= seq![b[0], b[1], b[2]] + b.skip(3));
        } else {
            assert(a =~= b);
        }
    }
}

/// Two storages share a mount point in the guest only where they have the same source.
pub proof fn law_mount_points_differ(a: Seq<char>, b: Seq<char>)
    requires
        mount_point_of(a) == mount_point_of(b),
    ensures
        a == b,
{
    let head = DEFAULT_KATA_GUEST_SANDBOX_DIR@ + "/storage/"@;
    let x = mount_point_of(a);
    let y = mount_point_of(b);
    assert(x.skip(head.len() as int) =~= base64_text(encode_utf8(a)));
    assert(y.skip(head.len() as int) =~= base64_text(encode_utf8(b)));
    law_base64_is_injective(encode_utf8(a), encode_utf8(b));
    vstd::utf8::encode_utf8_decode_utf8(a);
    vstd::utf8::encode_utf8_decode_utf8(b);
}

/// A rollback forgets a disk only where nothing of it is left: its device was detached and its
/// artifacts cleaned, or it had none of its own.
pub proof fn law_rollback_never_leaks(
    rs: Seq<VolumeReply>,
    device_id: Seq<char>,
    error: ErrorModel,
    disk: DiskModel,
)
    requires
        rs.len() > 0,
        device_rolled_back(rs, device_id, error, disk).1 matches Ok(shown) && pending_disk_in(shown)
            is None,
    ensures
        !(disk.disk_created || disk.metadata_created) && removal_in(rs[0]) is Ok || removal_in(rs[0])
            == Ok::<DeviceRemoval, ErrorModel>(DeviceRemoval::Detached) && artifacts_cleaned(
            rs.drop_first(),
            disk,
        ).1 == Ok::<Result<(), ErrorModel>, VolumeModel>(Ok(())),
{
    let removal = removal_in(rs[0]);
    let shown = device_rolled_back(rs, device_id, error, disk).1->Ok_0;
    if shown.len() > 0 && shown[0] is PendingDisk {
        crate::error::lemma_first_layer_is(
            shown,
            |l: crate::error::LayerModel| l is PendingDisk,
            0,
        );
    }
}

/// A device that could not be attached may be there all the same, so its disk is never forgotten:
/// the failure carries the disk, under its tracking number and with its artifacts.
pub proof fn law_failed_attach_keeps_disk(rs: Seq<VolumeReply>, error: ErrorModel, disk: DiskModel)
    requires
        rs.len() > 0,
    ensures
        attach_failed(rs, error, disk).1 matches Ok(Err(shown)) && pending_disk_in(shown) == Some(
            DiskModel {
                device_id: match device_in(rs[0]) {
                    Some(device_id) => Some(device_id),
                    None => device_in_doubt(
                        in_context(error, "plug block emptyDir block device"@),
                    ),
                },
                ..disk
            },
        ),
{
    let shown = attach_failed(rs, error, disk).1->Ok_0->Err_0;
    crate::error::lemma_first_layer_is(
        shown,
        |l: crate::error::LayerModel| l is PendingDisk,
        0,
    );
}

} // verus!
