//! What operations on volumes need from outside, and what comes back.
use crate::block_device::{BlockConfigModel, BlockConfigModern};
use crate::error::{message, DiskModel, EphemeralDiskInfo, Error, ErrorModel};
use crate::qmp::session::outcome;
use crate::volume::emptydir::base64_fits;
use vstd::prelude::*;
use vstd::utf8::encode_utf8;

verus! {

/// How a volume is made.
#[derive(Clone, Copy, Debug, PartialEq, Eq, Structural)]
pub enum VolumeKind {
    Shm,
    Ephemeral,
    BlockEmptyDir,
    Local,
    Block,
    Direct,
    HugePage,
    ShareFs,
    Plain,
}

/// What the mount of a direct volume is described by on the host.
#[derive(Clone, Debug)]
pub struct DirectVolumeMountInfo {
    pub volume_type: String,
    pub device: String,
    pub fs_type: String,
    /// Keys and values, each key once.
    pub metadata: Vec<(String, String)>,
    pub options: Vec<String>,
}

/// The model of a [`DirectVolumeMountInfo`].
pub struct MountInfoModel {
    pub volume_type: Seq<char>,
    pub device: Seq<char>,
    pub fs_type: Seq<char>,
    pub metadata: Seq<(Seq<char>, Seq<char>)>,
    pub options: Seq<Seq<char>>,
}

impl DeepView for DirectVolumeMountInfo {
    type V = MountInfoModel;

    open spec fn deep_view(&self) -> MountInfoModel {
        MountInfoModel {
            volume_type: self.volume_type@,
            device: self.device@,
            fs_type: self.fs_type@,
            metadata: self.metadata.deep_view(),
            options: self.options.deep_view(),
        }
    }
}

/// What an operation on volumes needs done.
#[derive(Clone, Debug)]
pub enum VolumeCommand {
    /// Wait until nobody else in this process sets the volume up.
    LockTransaction(String),
    /// Look up the group of a directory.
    Stat(String),
    AllocateTrackingId,
    /// Open a lock file, and make it where it is not there.
    OpenLock(String),
    /// Wait until nobody else on this host holds the lock file that was opened.
    LockFile(String),
    IsVolumeMounted(String),
    CreateDirs(String),
    /// Find the directory of a volume below a root.
    JoinPath { root: String, path: String },
    Exists(String),
    /// Make a file that is not there yet.
    CreateDisk(String),
    /// Look up how many blocks a file system has, and of what size.
    Statfs(String),
    SetLen { path: String, length: u64 },
    AddMountInfo { source: String, info: DirectVolumeMountInfo },
    RemoveFile(String),
    /// Remove what describes the mount of a volume.
    RemoveVolumePath(String),
    /// Keep a disk in the store for a later cleanup.
    Preserve(EphemeralDiskInfo),
    /// Add a disk to the store.
    Register(EphemeralDiskInfo),
    /// Let a disk go from the store.
    Remove(u64),
    /// Put what is known now of a disk into the store.
    Refresh(EphemeralDiskInfo),
    /// Let the disks go from the store whose cleanup succeeded.
    Reconcile { attempted: Vec<EphemeralDiskInfo>, remaining: Vec<EphemeralDiskInfo> },
    UpdateDiscovered { tracking_id: u64, device_id: String },
    UpdateGuestStatsPath { tracking_id: u64, path: String },
    /// Look up what the hypervisor has to offer.
    HostInfo,
    /// Attach a block device; the store notes its identity as soon as it is known.
    Attach { tracking_id: u64, config: BlockConfigModern },
    /// Look up the device with that path on the host.
    FindDevice(String),
    /// Make the guest's side of a volume from an attached device.
    BuildVolume { device_id: String, sid: String, read_only: bool, fs_type: String },
    RemoveDevice(String),
    IsRegistered(String),
    /// Let go of a device whose virtual machine has stopped.
    ReleaseAfterStop(String),
    /// Begin to set a container up.
    BeginSetup,
    /// Seal the store, and wait until no container is being set up.
    SealAndWait,
    /// Look up the disks in the store.
    Snapshot,
    CleanupVolume(u64),
    /// Clean a volume whose virtual machine has stopped.
    CleanupAfterStop(u64),
    /// Look up the volumes whose cleanup failed.
    PendingVolumes,
    ReconcilePending { attempted: Vec<u64>, remaining: Vec<u64> },
    /// Keep volumes whose cleanup failed.
    AddPending(Vec<u64>),
    /// Keep the volumes of a container.
    AddVolumes(Vec<u64>),
    IsDirectVolume(usize),
    HasHugePages(usize),
    HugePageLimits,
    /// Make the volume of a mount, and keep it under that number.
    Construct { ordinal: usize, number: u64, kind: VolumeKind, read_only: bool },
}

/// The model of a [`VolumeCommand`].
pub enum VolumeModel {
    LockTransaction(Seq<char>),
    Stat(Seq<char>),
    AllocateTrackingId,
    OpenLock(Seq<char>),
    LockFile(Seq<char>),
    IsVolumeMounted(Seq<char>),
    CreateDirs(Seq<char>),
    JoinPath { root: Seq<char>, path: Seq<char> },
    Exists(Seq<char>),
    CreateDisk(Seq<char>),
    Statfs(Seq<char>),
    SetLen { path: Seq<char>, length: u64 },
    AddMountInfo { source: Seq<char>, info: MountInfoModel },
    RemoveFile(Seq<char>),
    RemoveVolumePath(Seq<char>),
    Preserve(DiskModel),
    Register(DiskModel),
    Remove(u64),
    Refresh(DiskModel),
    Reconcile { attempted: Seq<DiskModel>, remaining: Seq<DiskModel> },
    UpdateDiscovered { tracking_id: u64, device_id: Seq<char> },
    UpdateGuestStatsPath { tracking_id: u64, path: Seq<char> },
    HostInfo,
    Attach { tracking_id: u64, config: BlockConfigModel },
    FindDevice(Seq<char>),
    BuildVolume { device_id: Seq<char>, sid: Seq<char>, read_only: bool, fs_type: Seq<char> },
    RemoveDevice(Seq<char>),
    IsRegistered(Seq<char>),
    ReleaseAfterStop(Seq<char>),
    BeginSetup,
    SealAndWait,
    Snapshot,
    CleanupVolume(u64),
    CleanupAfterStop(u64),
    PendingVolumes,
    ReconcilePending { attempted: Seq<u64>, remaining: Seq<u64> },
    AddPending(Seq<u64>),
    AddVolumes(Seq<u64>),
    IsDirectVolume(usize),
    HasHugePages(usize),
    HugePageLimits,
    Construct { ordinal: usize, number: u64, kind: VolumeKind, read_only: bool },
}

impl DeepView for VolumeCommand {
    type V = VolumeModel;

    open spec fn deep_view(&self) -> VolumeModel {
        match *self {
            VolumeCommand::LockTransaction(source) => VolumeModel::LockTransaction(source@),
            VolumeCommand::Stat(path) => VolumeModel::Stat(path@),
            VolumeCommand::AllocateTrackingId => VolumeModel::AllocateTrackingId,
            VolumeCommand::OpenLock(path) => VolumeModel::OpenLock(path@),
            VolumeCommand::LockFile(path) => VolumeModel::LockFile(path@),
            VolumeCommand::IsVolumeMounted(source) => VolumeModel::IsVolumeMounted(source@),
            VolumeCommand::CreateDirs(path) => VolumeModel::CreateDirs(path@),
            VolumeCommand::JoinPath { root, path } => VolumeModel::JoinPath {
                root: root@,
                path: path@,
            },
            VolumeCommand::Exists(path) => VolumeModel::Exists(path@),
            VolumeCommand::CreateDisk(path) => VolumeModel::CreateDisk(path@),
            VolumeCommand::Statfs(path) => VolumeModel::Statfs(path@),
            VolumeCommand::SetLen { path, length } => VolumeModel::SetLen { path: path@, length },
            VolumeCommand::AddMountInfo { source, info } => VolumeModel::AddMountInfo {
                source: source@,
                info: info.deep_view(),
            },
            VolumeCommand::RemoveFile(path) => VolumeModel::RemoveFile(path@),
            VolumeCommand::RemoveVolumePath(source) => VolumeModel::RemoveVolumePath(source@),
            VolumeCommand::Preserve(disk) => VolumeModel::Preserve(disk.deep_view()),
            VolumeCommand::Register(disk) => VolumeModel::Register(disk.deep_view()),
            VolumeCommand::Remove(tracking_id) => VolumeModel::Remove(tracking_id),
            VolumeCommand::Refresh(disk) => VolumeModel::Refresh(disk.deep_view()),
            VolumeCommand::Reconcile { attempted, remaining } => VolumeModel::Reconcile {
                attempted: attempted.deep_view(),
                remaining: remaining.deep_view(),
            },
            VolumeCommand::UpdateDiscovered { tracking_id, device_id } => VolumeModel::UpdateDiscovered {
                tracking_id,
                device_id: device_id@,
            },
            VolumeCommand::UpdateGuestStatsPath { tracking_id, path } => VolumeModel::UpdateGuestStatsPath {
                tracking_id,
                path: path@,
            },
            VolumeCommand::HostInfo => VolumeModel::HostInfo,
            VolumeCommand::Attach { tracking_id, config } => VolumeModel::Attach {
                tracking_id,
                config: config.deep_view(),
            },
            VolumeCommand::FindDevice(path) => VolumeModel::FindDevice(path@),
            VolumeCommand::BuildVolume { device_id, sid, read_only, fs_type } => VolumeModel::BuildVolume {
                device_id: device_id@,
                sid: sid@,
                read_only,
                fs_type: fs_type@,
            },
            VolumeCommand::RemoveDevice(device_id) => VolumeModel::RemoveDevice(device_id@),
            VolumeCommand::IsRegistered(device_id) => VolumeModel::IsRegistered(device_id@),
            VolumeCommand::ReleaseAfterStop(device_id) => VolumeModel::ReleaseAfterStop(device_id@),
            VolumeCommand::BeginSetup => VolumeModel::BeginSetup,
            VolumeCommand::SealAndWait => VolumeModel::SealAndWait,
            VolumeCommand::Snapshot => VolumeModel::Snapshot,
            VolumeCommand::CleanupVolume(volume) => VolumeModel::CleanupVolume(volume),
            VolumeCommand::CleanupAfterStop(volume) => VolumeModel::CleanupAfterStop(volume),
            VolumeCommand::PendingVolumes => VolumeModel::PendingVolumes,
            VolumeCommand::ReconcilePending { attempted, remaining } => VolumeModel::ReconcilePending {
                attempted: attempted@,
                remaining: remaining@,
            },
            VolumeCommand::AddPending(volumes) => VolumeModel::AddPending(volumes@),
            VolumeCommand::AddVolumes(volumes) => VolumeModel::AddVolumes(volumes@),
            VolumeCommand::IsDirectVolume(ordinal) => VolumeModel::IsDirectVolume(ordinal),
            VolumeCommand::HasHugePages(ordinal) => VolumeModel::HasHugePages(ordinal),
            VolumeCommand::HugePageLimits => VolumeModel::HugePageLimits,
            VolumeCommand::Construct { ordinal, number, kind, read_only } => VolumeModel::Construct {
                ordinal,
                number,
                kind,
                read_only,
            },
        }
    }
}

/// What the removal of a device came to.
#[derive(Clone, Copy, Debug, PartialEq, Eq, Structural)]
pub enum DeviceRemoval {
    /// The hypervisor has detached the device.
    Detached,
    /// Another owner still uses the device.
    ReferenceReleased,
}

/// The PCIe root ports of a sandbox.
#[derive(Clone, Debug)]
pub struct RootPorts {
    pub hypervisor_name: String,
    pub pcie_root_ports: u32,
}

/// What the hypervisor has to offer for a block device.
#[derive(Clone, Debug)]
pub struct HostInfo {
    pub block_device_driver: String,
    pub block_device_aio: String,
    pub num_queues: usize,
    pub queue_size: u32,
    pub logical_sector_size: u32,
    pub physical_sector_size: u32,
    pub machine_type: String,
    pub topology: Option<RootPorts>,
}

/// A file-system group.
#[derive(Clone, Copy, Debug, PartialEq, Eq, Structural)]
pub struct FSGroup {
    pub group_id: u32,
    pub change_always: bool,
}

/// What the agent is told of a storage, as far as this library decides it.
#[derive(Clone, Debug)]
pub struct Storage {
    pub source: String,
    pub mount_point: String,
    pub driver_options: Vec<String>,
    pub options: Vec<String>,
    pub shared: bool,
    pub fs_group: Option<FSGroup>,
}

/// The model of a [`Storage`].
pub struct StorageModel {
    pub source: Seq<char>,
    pub mount_point: Seq<char>,
    pub driver_options: Seq<Seq<char>>,
    pub options: Seq<Seq<char>>,
    pub shared: bool,
    pub fs_group: Option<FSGroup>,
}

impl DeepView for Storage {
    type V = StorageModel;

    open spec fn deep_view(&self) -> StorageModel {
        StorageModel {
            source: self.source@,
            mount_point: self.mount_point@,
            driver_options: self.driver_options.deep_view(),
            options: self.options.deep_view(),
            shared: self.shared,
            fs_group: self.fs_group,
        }
    }
}

/// The guest's side of a volume.
#[derive(Clone, Debug)]
pub struct BuiltVolume {
    pub storage: Storage,
    pub device_id: String,
}

/// A reply to a [`VolumeCommand`].
#[derive(Clone, Debug)]
pub enum VolumeReply {
    Done,
    Failed(Error),
    /// What was to go is not there.
    NotFound,
    /// What was to be made is there already.
    AlreadyExists,
    Flag(bool),
    Number(u64),
    Filesystem { blocks: u64, block_size: u64 },
    Path(String),
    Device(Option<String>),
    /// A block device of that identity was attached.
    Attached(String),
    /// Something else was attached, which a developer sees like this.
    Unexpected(String),
    Host(HostInfo),
    Built(BuiltVolume),
    Removal(DeviceRemoval),
    Disks(Vec<EphemeralDiskInfo>),
    Volumes(Vec<u64>),
}

/// The replies that have come and were not looked at yet.
#[derive(Clone, Debug)]
pub struct VolumeSession {
    pub replies: Vec<VolumeReply>,
}

impl View for VolumeSession {
    type V = Seq<VolumeReply>;

    open spec fn view(&self) -> Seq<VolumeReply> {
        self.replies@
    }
}

/// A step of an operation: the replies that are left, and what the operation came to or waits for.
pub type VolumeStep<T> = (Seq<VolumeReply>, Result<T, VolumeModel>);

/// What an operation came to or waits for, as a model.
pub open spec fn given<T: DeepView>(r: Result<T, VolumeCommand>) -> Result<T::V, VolumeModel> {
    match r {
        Ok(value) => Ok(value.deep_view()),
        Err(command) => Err(command.deep_view()),
    }
}

/// What an operation that may fail came to or waits for, as a model.
pub open spec fn came<T: DeepView>(r: Result<Result<T, Error>, VolumeCommand>) -> Result<
    Result<T::V, ErrorModel>,
    VolumeModel,
> {
    match r {
        Ok(result) => Ok(outcome(result)),
        Err(command) => Err(command.deep_view()),
    }
}

/// Whether the numbers and texts that follow from a reply fit: the size of a file system in bytes,
/// and the text of a source in base 64.
pub open spec fn readable(reply: VolumeReply) -> bool {
    match reply {
        VolumeReply::Filesystem { blocks, block_size } => blocks * block_size <= u64::MAX,
        VolumeReply::Built(built) => base64_fits(encode_utf8(built.storage.source@)),
        _ => true,
    }
}

/// Whether what follows from every reply fits.
pub open spec fn all_readable(rs: Seq<VolumeReply>) -> bool {
    forall|i: int| 0 <= i < rs.len() ==> readable(#[trigger] rs[i])
}

impl VolumeSession {
    /// Takes the next reply, or waits for it.
    pub fn ask(&mut self, command: VolumeCommand) -> (r: Result<VolumeReply, VolumeCommand>)
        ensures
            match r {
                Ok(reply) => old(self)@.len() > 0 && reply == old(self)@[0] && final(self)@
                    == old(self)@.drop_first(),
                Err(waiting) => old(self)@.len() == 0 && waiting == command && final(self)@
                    == old(self)@,
            },
            all_readable(old(self)@) ==> all_readable(final(self)@),
            all_readable(old(self)@) ==> (r matches Ok(reply) ==> readable(reply)),
    {
        if self.replies.len() == 0 {
            return Err(command);
        }
        let reply = self.replies.remove(0);
        assert(self@ =~= old(self)@.drop_first());
        assert(all_readable(old(self)@) ==> readable(old(self)@[0]));
        assert forall|i: int| all_readable(old(self)@) && 0 <= i < self@.len() implies readable(
            #[trigger] self@[i],
        ) by {
            assert(readable(old(self)@[i + 1]));
        }
        Ok(reply)
    }
}

/// The failure of a reply of another kind than the command asks for.
pub open spec fn unexpected() -> ErrorModel {
    message("unexpected reply"@)
}

fn unexpected_reply() -> (r: Error)
    ensures
        r.deep_view() == unexpected(),
{
    Error::msg_str("unexpected reply")
}

/// What came of something that has no result of its own.
pub open spec fn done_in(reply: VolumeReply) -> Result<(), ErrorModel> {
    match reply {
        VolumeReply::Done => Ok(()),
        VolumeReply::Failed(error) => Err(error.deep_view()),
        _ => Err(unexpected()),
    }
}

pub fn read_done(reply: VolumeReply) -> (r: Result<(), Error>)
    ensures
        outcome(r) == done_in(reply),
{
    match reply {
        VolumeReply::Done => Ok(()),
        VolumeReply::Failed(error) => Err(error),
        _ => Err(unexpected_reply()),
    }
}

/// The answer to a question that cannot fail.
pub open spec fn flag_in(reply: VolumeReply) -> bool {
    reply == VolumeReply::Flag(true)
}

pub fn read_flag(reply: VolumeReply) -> (r: bool)
    ensures
        r == flag_in(reply),
{
    match reply {
        VolumeReply::Flag(flag) => flag,
        _ => false,
    }
}

/// The answer to a question that can fail.
pub open spec fn answer_in(reply: VolumeReply) -> Result<bool, ErrorModel> {
    match reply {
        VolumeReply::Flag(flag) => Ok(flag),
        VolumeReply::Failed(error) => Err(error.deep_view()),
        _ => Err(unexpected()),
    }
}

pub fn read_answer(reply: VolumeReply) -> (r: Result<bool, Error>)
    ensures
        outcome(r) == answer_in(reply),
{
    match reply {
        VolumeReply::Flag(flag) => Ok(flag),
        VolumeReply::Failed(error) => Err(error),
        _ => Err(unexpected_reply()),
    }
}

/// The number in a reply.
pub open spec fn number_in(reply: VolumeReply) -> Result<u64, ErrorModel> {
    match reply {
        VolumeReply::Number(number) => Ok(number),
        VolumeReply::Failed(error) => Err(error.deep_view()),
        _ => Err(unexpected()),
    }
}

pub fn read_number(reply: VolumeReply) -> (r: Result<u64, Error>)
    ensures
        outcome(r) == number_in(reply),
{
    match reply {
        VolumeReply::Number(number) => Ok(number),
        VolumeReply::Failed(error) => Err(error),
        _ => Err(unexpected_reply()),
    }
}

/// The path in a reply.
pub open spec fn path_in(reply: VolumeReply) -> Result<Seq<char>, ErrorModel> {
    match reply {
        VolumeReply::Path(path) => Ok(path@),
        VolumeReply::Failed(error) => Err(error.deep_view()),
        _ => Err(unexpected()),
    }
}

pub fn read_path(reply: VolumeReply) -> (r: Result<String, Error>)
    ensures
        outcome(r) == path_in(reply),
{
    match reply {
        VolumeReply::Path(path) => Ok(path),
        VolumeReply::Failed(error) => Err(error),
        _ => Err(unexpected_reply()),
    }
}

/// The device in a reply.
pub open spec fn device_in(reply: VolumeReply) -> Option<Seq<char>> {
    match reply {
        VolumeReply::Device(device) => device.deep_view(),
        _ => None,
    }
}

pub fn read_device(reply: VolumeReply) -> (r: Option<String>)
    ensures
        r.deep_view() == device_in(reply),
{
    match reply {
        VolumeReply::Device(device) => device,
        _ => None,
    }
}

impl DeepView for DeviceRemoval {
    type V = DeviceRemoval;

    open spec fn deep_view(&self) -> DeviceRemoval {
        *self
    }
}

/// What came of the removal of a device.
pub open spec fn removal_in(reply: VolumeReply) -> Result<DeviceRemoval, ErrorModel> {
    match reply {
        VolumeReply::Removal(removal) => Ok(removal),
        VolumeReply::Failed(error) => Err(error.deep_view()),
        _ => Err(unexpected()),
    }
}

pub fn read_removal(reply: VolumeReply) -> (r: Result<DeviceRemoval, Error>)
    ensures
        outcome(r) == removal_in(reply),
{
    match reply {
        VolumeReply::Removal(removal) => Ok(removal),
        VolumeReply::Failed(error) => Err(error),
        _ => Err(unexpected_reply()),
    }
}

/// The disks in a reply.
pub open spec fn disks_in(reply: VolumeReply) -> Seq<DiskModel> {
    match reply {
        VolumeReply::Disks(disks) => disks.deep_view(),
        _ => seq![],
    }
}

pub fn read_disks(reply: VolumeReply) -> (r: Vec<EphemeralDiskInfo>)
    ensures
        r.deep_view() == disks_in(reply),
{
    match reply {
        VolumeReply::Disks(disks) => disks,
        _ => {
            let none: Vec<EphemeralDiskInfo> = Vec::new();
            assert(none.deep_view() =~= seq![]);
            none
        },
    }
}

/// The volumes in a reply.
pub open spec fn volumes_in(reply: VolumeReply) -> Seq<u64> {
    match reply {
        VolumeReply::Volumes(volumes) => volumes@,
        _ => seq![],
    }
}

pub fn read_volumes(reply: VolumeReply) -> (r: Vec<u64>)
    ensures
        r@ == volumes_in(reply),
{
    match reply {
        VolumeReply::Volumes(volumes) => volumes,
        _ => {
            let none: Vec<u64> = Vec::new();
            assert(none@ =~= seq![]);
            none
        },
    }
}

} // verus!
