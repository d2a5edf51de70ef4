//! The commands that are sent to QEMU and the replies that come back.
use crate::block_device::{ExtentModel, VmdkConfig};
use crate::error::{Error, ErrorModel, Layer, LayerModel};
use vstd::prelude::*;

verus! {

/// The value of a device property.
#[derive(Clone, Debug, PartialEq, Eq)]
pub enum ArgumentValue {
    Text(String),
    Integer(i64),
    Flag(bool),
}

/// A device property.
#[derive(Clone, Debug, PartialEq, Eq)]
pub struct Argument {
    pub name: String,
    pub value: ArgumentValue,
}

/// The model of an [`ArgumentValue`].
pub enum ValueModel {
    Text(Seq<char>),
    Integer(int),
    Flag(bool),
}

/// The model of an [`Argument`].
pub struct ArgumentModel {
    pub name: Seq<char>,
    pub value: ValueModel,
}

impl DeepView for ArgumentValue {
    type V = ValueModel;

    open spec fn deep_view(&self) -> ValueModel {
        match *self {
            ArgumentValue::Text(text) => ValueModel::Text(text@),
            ArgumentValue::Integer(n) => ValueModel::Integer(n as int),
            ArgumentValue::Flag(flag) => ValueModel::Flag(flag),
        }
    }
}

impl DeepView for Argument {
    type V = ArgumentModel;

    open spec fn deep_view(&self) -> ArgumentModel {
        ArgumentModel { name: self.name@, value: self.value.deep_view() }
    }
}

/// A device property that is text.
pub open spec fn text_argument(name: Seq<char>, text: Seq<char>) -> ArgumentModel {
    ArgumentModel { name, value: ValueModel::Text(text) }
}

/// A device property that is a number.
pub open spec fn integer_argument(name: Seq<char>, n: int) -> ArgumentModel {
    ArgumentModel { name, value: ValueModel::Integer(n) }
}

/// A device property that is switched on.
pub open spec fn set_flag(name: Seq<char>) -> ArgumentModel {
    ArgumentModel { name, value: ValueModel::Flag(true) }
}

/// Adds a device property that is text.
pub fn push_text(arguments: &mut Vec<Argument>, name: &str, text: String)
    ensures
        final(arguments).deep_view() == old(arguments).deep_view().push(
            text_argument(name@, text@),
        ),
{
    let argument = Argument { name: name.to_owned(), value: ArgumentValue::Text(text) };
    arguments.push(argument);
    assert(arguments.deep_view() =~= old(arguments).deep_view().push(argument.deep_view()));
}

/// Adds a device property that is a number.
pub fn push_integer(arguments: &mut Vec<Argument>, name: &str, n: i64)
    ensures
        final(arguments).deep_view() == old(arguments).deep_view().push(
            integer_argument(name@, n as int),
        ),
{
    let argument = Argument { name: name.to_owned(), value: ArgumentValue::Integer(n) };
    arguments.push(argument);
    assert(arguments.deep_view() =~= old(arguments).deep_view().push(argument.deep_view()));
}

/// Adds a device property that is switched on.
pub fn push_flag(arguments: &mut Vec<Argument>, name: &str)
    ensures
        final(arguments).deep_view() == old(arguments).deep_view().push(set_flag(name@)),
{
    let argument = Argument { name: name.to_owned(), value: ArgumentValue::Flag(true) };
    arguments.push(argument);
    assert(arguments.deep_view() =~= old(arguments).deep_view().push(argument.deep_view()));
}

/// How QEMU reads and writes the file behind a block device.
#[derive(Clone, Copy, Debug, PartialEq, Eq, Structural)]
pub enum AioOption {
    Threads,
    Native,
    IoUring,
}

/// The image format that QEMU lays over the file of a block device.
#[derive(Clone, Copy, Debug, PartialEq, Eq, Structural)]
pub enum ImageFormat {
    Raw,
    Vmdk,
}

/// The arguments of `blockdev-add`: a format node over a file node.
#[derive(Clone, Debug)]
pub struct BlockdevOptions {
    pub node_name: String,
    pub format: ImageFormat,
    /// `force-share` of the format node, where it is given.
    pub force_share: Option<bool>,
    /// `read-only` of both nodes.
    pub read_only: bool,
    /// Whether both nodes pass discard requests on (`discard: unmap`).
    pub discard_unmap: bool,
    pub filename: String,
    /// Whether the file node is of the kind `file`; otherwise it is of the kind `host_device`.
    pub is_regular_file: bool,
    pub aio: AioOption,
    /// `drop-cache` of the file node, where it is given.
    pub drop_cache: Option<bool>,
    /// `cache.direct` of the file node, where a cache is given.
    pub cache_direct: Option<bool>,
}

/// The model of [`BlockdevOptions`].
pub struct BlockdevModel {
    pub node_name: Seq<char>,
    pub format: ImageFormat,
    pub force_share: Option<bool>,
    pub read_only: bool,
    pub discard_unmap: bool,
    pub filename: Seq<char>,
    pub is_regular_file: bool,
    pub aio: AioOption,
    pub drop_cache: Option<bool>,
    pub cache_direct: Option<bool>,
}

impl DeepView for BlockdevOptions {
    type V = BlockdevModel;

    open spec fn deep_view(&self) -> BlockdevModel {
        BlockdevModel {
            node_name: self.node_name@,
            format: self.format,
            force_share: self.force_share,
            read_only: self.read_only,
            discard_unmap: self.discard_unmap,
            filename: self.filename@,
            is_regular_file: self.is_regular_file,
            aio: self.aio,
            drop_cache: self.drop_cache,
            cache_direct: self.cache_direct,
        }
    }
}

/// What is to be done outside before an operation can go on.
#[derive(Clone, Debug)]
pub enum QmpCommand {
    /// Close the connection and open a new one to the socket at this path, handshake included.
    Connect(String),
    QueryFdsets,
    RemoveFd(i64),
    /// Pass the descriptor that the block source just opened, tagged with this text (`add-fd`).
    AddFd(String),
    /// Begin to prepare the source of a block device: the file at this path, or the layout for
    /// which the path stands.
    OpenSource { path: String, layout: Option<VmdkConfig>, read_only: bool, direct: bool },
    /// Go on preparing the source. The text is the path under which QEMU knows the descriptor
    /// that was passed last.
    ContinueSource(String),
    BlockdevAdd(BlockdevOptions),
    BlockdevDel(String),
    QueryNamedBlockNodes,
    DeviceAdd { driver: String, bus: Option<String>, id: String, arguments: Vec<Argument> },
    DeviceDel(String),
    QomList(String),
    QomGet { path: String, property: String },
    QomSet { path: String, property: String, value: u64 },
    QueryPci,
    /// Pass a descriptor under this name (`getfd`).
    PassFd { fd: i32, name: String },
    NetdevAdd { id: String, fds: String, vhostfds: Option<String> },
    NetdevDel(String),
    /// Create a memory backend, in a file at `mem_path` where that is given (`object-add`).
    MemoryBackendAdd { id: String, size: u64, share: bool, mem_path: Option<String> },
    ObjectDel(String),
    QueryHotpluggableCpus,
    QueryMemoryDevices,
    QueryCpusFast,
    /// Read the clock: the nanoseconds since the operation began.
    Clock,
    /// Bound the wait for a reply to this many nanoseconds.
    SetReadTimeout(u64),
    /// Let QEMU report pending events.
    Poll,
    /// Wait for this many nanoseconds.
    Sleep(u64),
    Stop,
    Cont,
    /// Leave memory that is shared with the host out of a migration.
    IgnoreSharedMemory,
    Migrate(String),
    MigrateIncoming(String),
    QueryMigrate,
}

/// The model of a [`QmpCommand`].
pub enum CommandModel {
    Connect(Seq<char>),
    QueryFdsets,
    RemoveFd(i64),
    AddFd(Seq<char>),
    OpenSource {
        path: Seq<char>,
        layout: Option<Seq<ExtentModel>>,
        read_only: bool,
        direct: bool,
    },
    ContinueSource(Seq<char>),
    BlockdevAdd(BlockdevModel),
    BlockdevDel(Seq<char>),
    QueryNamedBlockNodes,
    DeviceAdd {
        driver: Seq<char>,
        bus: Option<Seq<char>>,
        id: Seq<char>,
        arguments: Seq<ArgumentModel>,
    },
    DeviceDel(Seq<char>),
    QomList(Seq<char>),
    QomGet { path: Seq<char>, property: Seq<char> },
    QomSet { path: Seq<char>, property: Seq<char>, value: int },
    QueryPci,
    PassFd { fd: i32, name: Seq<char> },
    NetdevAdd { id: Seq<char>, fds: Seq<char>, vhostfds: Option<Seq<char>> },
    NetdevDel(Seq<char>),
    MemoryBackendAdd { id: Seq<char>, size: int, share: bool, mem_path: Option<Seq<char>> },
    ObjectDel(Seq<char>),
    QueryHotpluggableCpus,
    QueryMemoryDevices,
    QueryCpusFast,
    Clock,
    SetReadTimeout(int),
    Poll,
    Sleep(int),
    Stop,
    Cont,
    IgnoreSharedMemory,
    Migrate(Seq<char>),
    MigrateIncoming(Seq<char>),
    QueryMigrate,
}

impl DeepView for QmpCommand {
    type V = CommandModel;

    open spec fn deep_view(&self) -> CommandModel {
        match *self {
            QmpCommand::Connect(path) => CommandModel::Connect(path@),
            QmpCommand::QueryFdsets => CommandModel::QueryFdsets,
            QmpCommand::RemoveFd(id) => CommandModel::RemoveFd(id),
            QmpCommand::AddFd(opaque) => CommandModel::AddFd(opaque@),
            QmpCommand::OpenSource { path, layout, read_only, direct } => CommandModel::OpenSource {
                path: path@,
                layout: match layout {
                    Some(layout) => Some(layout@),
                    None => None,
                },
                read_only,
                direct,
            },
            QmpCommand::ContinueSource(path) => CommandModel::ContinueSource(path@),
            QmpCommand::BlockdevAdd(options) => CommandModel::BlockdevAdd(options.deep_view()),
            QmpCommand::BlockdevDel(node) => CommandModel::BlockdevDel(node@),
            QmpCommand::QueryNamedBlockNodes => CommandModel::QueryNamedBlockNodes,
            QmpCommand::DeviceAdd { driver, bus, id, arguments } => CommandModel::DeviceAdd {
                driver: driver@,
                bus: bus.deep_view(),
                id: id@,
                arguments: arguments.deep_view(),
            },
            QmpCommand::DeviceDel(id) => CommandModel::DeviceDel(id@),
            QmpCommand::QomList(path) => CommandModel::QomList(path@),
            QmpCommand::QomGet { path, property } => CommandModel::QomGet {
                path: path@,
                property: property@,
            },
            QmpCommand::QomSet { path, property, value } => CommandModel::QomSet {
                path: path@,
                property: property@,
                value: value as int,
            },
            QmpCommand::QueryPci => CommandModel::QueryPci,
            QmpCommand::PassFd { fd, name } => CommandModel::PassFd { fd, name: name@ },
            QmpCommand::NetdevAdd { id, fds, vhostfds } => CommandModel::NetdevAdd {
                id: id@,
                fds: fds@,
                vhostfds: vhostfds.deep_view(),
            },
            QmpCommand::NetdevDel(id) => CommandModel::NetdevDel(id@),
            QmpCommand::MemoryBackendAdd { id, size, share, mem_path } =>
                CommandModel::MemoryBackendAdd {
                id: id@,
                size: size as int,
                share,
                mem_path: mem_path.deep_view(),
            },
            QmpCommand::ObjectDel(id) => CommandModel::ObjectDel(id@),
            QmpCommand::QueryHotpluggableCpus => CommandModel::QueryHotpluggableCpus,
            QmpCommand::QueryMemoryDevices => CommandModel::QueryMemoryDevices,
            QmpCommand::QueryCpusFast => CommandModel::QueryCpusFast,
            QmpCommand::Clock => CommandModel::Clock,
            QmpCommand::SetReadTimeout(nanos) => CommandModel::SetReadTimeout(nanos as int),
            QmpCommand::Poll => CommandModel::Poll,
            QmpCommand::Sleep(nanos) => CommandModel::Sleep(nanos as int),
            QmpCommand::Stop => CommandModel::Stop,
            QmpCommand::Cont => CommandModel::Cont,
            QmpCommand::IgnoreSharedMemory => CommandModel::IgnoreSharedMemory,
            QmpCommand::Migrate(uri) => CommandModel::Migrate(uri@),
            QmpCommand::MigrateIncoming(uri) => CommandModel::MigrateIncoming(uri@),
            QmpCommand::QueryMigrate => CommandModel::QueryMigrate,
        }
    }
}

/// Why a command failed.
#[derive(Clone, Copy, Debug, PartialEq, Eq, Structural)]
pub enum FailureKind {
    /// The reply was lost: whether QEMU carried the command out is not known.
    Io,
    /// QEMU refused the command because the device is not there.
    DeviceNotFound,
    /// QEMU refused the command for another reason.
    Rejected,
}

/// A command that failed.
#[derive(Clone, Debug)]
pub struct QmpError {
    pub kind: FailureKind,
    /// What the failure says of itself.
    pub text: String,
    /// What the failure looks like to a developer.
    pub debug: String,
}

/// The model of a [`QmpError`].
pub struct FailureModel {
    pub kind: FailureKind,
    pub text: Seq<char>,
    pub debug: Seq<char>,
}

impl DeepView for QmpError {
    type V = FailureModel;

    open spec fn deep_view(&self) -> FailureModel {
        FailureModel { kind: self.kind, text: self.text@, debug: self.debug@ }
    }
}

/// A failed command as an error: the failure, caused by what it wraps, which says the same.
pub open spec fn failure_error(failure: FailureModel) -> ErrorModel {
    seq![LayerModel::Message(failure.text), LayerModel::Message(failure.text)]
}

impl QmpError {
    /// A reply of a shape that the command does not have cannot be decoded: the reply is lost.
    pub fn unexpected() -> (r: QmpError)
        ensures
            r.deep_view() == unexpected_reply(),
    {
        QmpError {
            kind: FailureKind::Io,
            text: "unexpected reply".to_owned(),
            debug: "unexpected reply".to_owned(),
        }
    }

    /// The failure as an error.
    pub fn into_error(self) -> (r: Error)
        ensures
            r.deep_view() == failure_error(self.deep_view()),
    {
        let mut layers: Vec<Layer> = Vec::new();
        layers.push(Layer::Message(self.text.clone()));
        layers.push(Layer::Message(self.text));
        let r = Error { layers };
        assert(r.deep_view() =~= failure_error(self.deep_view()));
        r
    }
}

/// The failure of a command whose reply has a shape that the command does not have.
pub open spec fn unexpected_reply() -> FailureModel {
    FailureModel {
        kind: FailureKind::Io,
        text: "unexpected reply"@,
        debug: "unexpected reply"@,
    }
}

/// A descriptor in an fdset of QEMU.
#[derive(Clone, Debug)]
pub struct FdsetFd {
    pub fd: i64,
    pub opaque: Option<String>,
}

/// An fdset of QEMU.
#[derive(Clone, Debug)]
pub struct FdsetInfo {
    pub fdset_id: i64,
    pub fds: Vec<FdsetFd>,
}

/// A descriptor that was passed to QEMU.
#[derive(Clone, Copy, Debug, PartialEq, Eq, Structural)]
pub struct AddfdInfo {
    pub fd: i64,
    pub fdset_id: i64,
}

impl DeepView for AddfdInfo {
    type V = AddfdInfo;

    open spec fn deep_view(&self) -> AddfdInfo {
        *self
    }
}

/// The value of an object property.
#[derive(Clone, Debug)]
pub enum QomValue {
    Text(String),
    Integer(i64),
    Other,
}

/// A device on a PCI bus. A bridge holds the devices of the bus behind it, where QEMU lists them.
#[derive(Debug)]
pub struct PciDevice {
    pub slot: i64,
    pub qdev_id: String,
    pub bridge: Option<Vec<PciDevice>>,
}

impl Clone for PciDevice {
    fn clone(&self) -> (r: PciDevice)
        ensures
            same_device(r, *self),
    {
        dup_device(self)
    }
}

/// Whether two devices are the same, with everything behind them.
pub open spec fn same_device(a: PciDevice, b: PciDevice) -> bool
    decreases a,
{
    &&& a.slot == b.slot
    &&& a.qdev_id@ == b.qdev_id@
    &&& match (a.bridge, b.bridge) {
        (Some(x), Some(y)) => x@.len() == y@.len() && forall|i: int|
            0 <= i < x@.len() ==> same_device(#[trigger] x@[i], y@[i]),
        (None, None) => true,
        _ => false,
    }
}

fn dup_device(device: &PciDevice) -> (r: PciDevice)
    ensures
        same_device(r, *device),
    decreases device,
{
    let bridge: Option<Vec<PciDevice>> = match &device.bridge {
        Some(devices) => {
            let mut copies: Vec<PciDevice> = Vec::new();
            let mut i: usize = 0;
            while i < devices.len()
                invariant
                    0 <= i <= devices@.len(),
                    copies@.len() == i,
                    Some(*devices) == device.bridge,
                    forall|j: int| 0 <= j < i ==> same_device(#[trigger] copies@[j], devices@[j]),
                decreases devices@.len() - i,
            {
                assert(decreases_to!(device => device.bridge->0@[i as int]));
                copies.push(dup_device(&devices[i]));
                i = i + 1;
            }
            Some(copies)
        },
        None => None,
    };
    PciDevice { slot: device.slot, qdev_id: device.qdev_id.clone(), bridge }
}

/// A vCPU that QEMU can add or has added.
#[derive(Clone, Debug)]
pub struct HotpluggableCpu {
    pub driver: String,
    pub core_id: Option<i64>,
    pub socket_id: Option<i64>,
    pub thread_id: Option<i64>,
    /// Whether the vCPU is plugged in.
    pub plugged: bool,
}

/// A memory device of the guest.
#[derive(Clone, Debug)]
pub enum MemoryDevice {
    Dimm { id: Option<String>, size: i64, hotpluggable: bool, hotplugged: bool },
    VirtioMem { size: u64 },
    Other,
}

/// A vCPU of the guest and the host thread that runs it.
#[derive(Clone, Copy, Debug)]
pub struct CpuThread {
    pub cpu_index: i64,
    pub thread_id: i64,
}

/// How far the source of a block device has been prepared.
#[derive(Clone, Debug)]
pub enum SourceStep {
    /// A file is open under this label, and its descriptor is to be passed to QEMU.
    PassFd(String),
    /// The source is ready under this file name.
    Prepared { filename: String, is_regular_file: bool },
    /// The source cannot be prepared.
    Failed(Error),
}

/// A number that is not whole, by its bits in the double format of IEEE 754.
#[derive(Clone, Copy, Debug, PartialEq, Eq, Structural)]
pub struct Double {
    pub bits: u64,
}

/// How much of the memory of a guest has been migrated.
#[derive(Clone, Copy, Debug, PartialEq, Eq)]
pub struct MigrationStats {
    pub transferred: i64,
    pub remaining: i64,
    pub total: i64,
    pub duplicate: i64,
    pub normal: i64,
    pub normal_bytes: i64,
    pub dirty_pages_rate: i64,
    pub mbps: Double,
    pub dirty_sync_count: i64,
    pub postcopy_requests: i64,
    pub page_size: i64,
    pub multifd_bytes: u64,
    pub pages_per_second: u64,
    pub precopy_bytes: u64,
    pub downtime_bytes: u64,
    pub postcopy_bytes: u64,
    pub dirty_sync_missed_zero_copy: u64,
}

/// How the compression of a migration fares.
#[derive(Clone, Copy, Debug, PartialEq, Eq)]
pub struct XbzrleCacheStats {
    pub cache_size: u64,
    pub bytes: i64,
    pub pages: i64,
    pub cache_miss: i64,
    pub cache_miss_rate: Double,
    pub encoding_rate: Double,
    pub overflow: i64,
}

/// Where a migration listens.
#[derive(Clone, Debug, PartialEq, Eq)]
pub enum SocketAddress {
    Inet {
        host: String,
        port: String,
        numeric: Option<bool>,
        to: Option<u16>,
        ipv4: Option<bool>,
        ipv6: Option<bool>,
        keep_alive: Option<bool>,
        mptcp: Option<bool>,
    },
    Unix { path: String, in_abstract: Option<bool>, tight: Option<bool> },
    Vsock { cid: String, port: String },
    Fd(String),
}

/// What QEMU says of a migration. Times are in milliseconds.
#[derive(Clone, Debug, PartialEq, Eq)]
pub struct MigrationInfo {
    /// The status, as QEMU names it.
    pub status: Option<String>,
    pub ram: Option<MigrationStats>,
    /// The bytes that devices passed through have transferred.
    pub vfio_transferred: Option<i64>,
    pub xbzrle_cache: Option<XbzrleCacheStats>,
    pub total_time: Option<i64>,
    pub expected_downtime: Option<i64>,
    pub downtime: Option<i64>,
    pub setup_time: Option<i64>,
    pub cpu_throttle_percentage: Option<i64>,
    pub error_desc: Option<String>,
    pub blocked_reasons: Option<Vec<String>>,
    pub postcopy_blocktime: Option<u32>,
    pub postcopy_vcpu_blocktime: Option<Vec<u32>>,
    pub socket_address: Option<Vec<SocketAddress>>,
    pub dirty_limit_throttle_time_per_round: Option<u64>,
    pub dirty_limit_ring_full_time: Option<u64>,
}

impl DeepView for MigrationInfo {
    type V = MigrationInfo;

    open spec fn deep_view(&self) -> MigrationInfo {
        *self
    }
}

/// What came back.
#[derive(Clone, Debug)]
pub enum QmpReply {
    Done,
    Failed(QmpError),
    Fdsets(Vec<FdsetInfo>),
    /// Names of objects or of block nodes.
    Names(Vec<String>),
    /// The descriptor that was passed, as QEMU numbers it, and the fdset that holds it.
    FdAdded(AddfdInfo),
    /// The command could not be sent, for this reason.
    NotSent(String),
    Source(SourceStep),
    Value(QomValue),
    /// The devices of each PCI bus that is not behind a bridge.
    Pci(Vec<Vec<PciDevice>>),
    Cpus(Vec<HotpluggableCpu>),
    Memory(Vec<MemoryDevice>),
    Threads(Vec<CpuThread>),
    /// Nanoseconds since the operation began.
    Elapsed(u64),
    /// The devices whose deletion QEMU has reported.
    Deleted(Vec<String>),
    /// What QEMU says of a migration.
    Migration(MigrationInfo),
    /// No connection came about, for this reason.
    NotConnected(Error),
}

} // verus!
