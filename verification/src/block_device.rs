//! Block devices: their configuration, the residue of an incomplete removal, and VMDK layouts.
use crate::error::dup_option;
use crate::pci_path::PciPath;
use crate::table::push_item;
use crate::text::{cat4, same};
use vstd::prelude::*;

verus! {

/// What of a block device may still exist in QEMU.
#[derive(Clone, Copy, Debug, PartialEq, Eq, Structural)]
pub struct BlockCleanupState {
    pub frontend: bool,
    pub backend: bool,
    pub fdsets: bool,
}

impl Default for BlockCleanupState {
    fn default() -> (r: BlockCleanupState)
        ensures
            r == (BlockCleanupState { frontend: false, backend: false, fdsets: false }),
    {
        BlockCleanupState { frontend: false, backend: false, fdsets: false }
    }
}

impl BlockCleanupState {
    /// The state of a device whose frontend and backend are both there.
    pub fn attached(fdsets: bool) -> (r: Self)
        ensures
            r == (BlockCleanupState { frontend: true, backend: true, fdsets }),
    {
        BlockCleanupState { frontend: true, backend: true, fdsets }
    }

    /// Whether nothing is left.
    pub fn is_complete(self) -> (r: bool)
        ensures
            r == self.complete(),
    {
        !self.frontend && !self.backend && !self.fdsets
    }

    /// Whether nothing is left.
    pub open spec fn complete(self) -> bool {
        !self.frontend && !self.backend && !self.fdsets
    }
}

/// The cleanup of a QEMU block device that did not finish, with what is left of the device.
#[derive(Clone, Debug)]
pub struct BlockDeviceCleanupPending {
    pub node_name: String,
    pub details: String,
    pub state: BlockCleanupState,
}

impl BlockDeviceCleanupPending {
    pub fn with_state(node_name: String, details: String, state: BlockCleanupState) -> (r: Self)
        ensures
            r.node_name@ == node_name@,
            r.details@ == details@,
            r.state == state,
    {
        BlockDeviceCleanupPending { node_name, details, state }
    }

    pub fn state(&self) -> (r: BlockCleanupState)
        ensures
            r == self.state,
    {
        self.state
    }

    /// What the value says of itself.
    pub fn to_text(&self) -> (r: String)
        ensures
            r@ == "QEMU block device "@ + self.node_name@ + " cleanup remains incomplete: "@
                + self.details@,
    {
        cat4(
            "QEMU block device ",
            self.node_name.as_str(),
            " cleanup remains incomplete: ",
            self.details.as_str(),
        )
    }

    /// A copy of the value.
    pub fn dup(&self) -> (r: Self)
        ensures
            r.node_name@ == self.node_name@,
            r.details@ == self.details@,
            r.state == self.state,
    {
        BlockDeviceCleanupPending {
            node_name: self.node_name.clone(),
            details: self.details.clone(),
            state: self.state,
        }
    }
}

/// The driver of a block device on a PCI bus.
pub const VIRTIO_BLOCK_PCI: &'static str = "virtio-blk-pci";

/// The driver of a memory-mapped block device.
pub const VIRTIO_BLOCK_MMIO: &'static str = "virtio-blk-mmio";

/// The driver of a block device on the channel subsystem of s390x.
pub const VIRTIO_BLOCK_CCW: &'static str = "virtio-blk-ccw";

/// The driver of persistent memory.
pub const VIRTIO_PMEM: &'static str = "virtio-pmem";

/// How a block device does asynchronous I/O.
#[derive(Clone, Copy, Debug, Default, PartialEq, Eq, Structural)]
pub enum BlockDeviceAio {
    /// The Linux io_uring I/O implementation.
    #[default]
    IoUring,
    /// The native Linux AIO implementation.
    Native,
    /// The pthread asynchronous I/O implementation.
    Threads,
}

impl BlockDeviceAio {
    /// The implementation of that name; io_uring where there is none.
    pub open spec fn named(name: Seq<char>) -> BlockDeviceAio {
        if name == "native"@ {
            BlockDeviceAio::Native
        } else if name == "threads"@ {
            BlockDeviceAio::Threads
        } else {
            BlockDeviceAio::IoUring
        }
    }

    /// The implementation of that name; io_uring where there is none.
    pub fn new(aio: &str) -> (r: Self)
        ensures
            r == BlockDeviceAio::named(aio@),
    {
        if same(aio, "native") {
            BlockDeviceAio::Native
        } else if same(aio, "threads") {
            BlockDeviceAio::Threads
        } else {
            BlockDeviceAio::IoUring
        }
    }

    /// The name of the implementation.
    pub open spec fn name(self) -> Seq<char> {
        match self {
            BlockDeviceAio::Native => "native"@,
            BlockDeviceAio::Threads => "threads"@,
            BlockDeviceAio::IoUring => "iouring"@,
        }
    }

    /// The name of the implementation.
    pub fn to_text(&self) -> (r: String)
        ensures
            r@ == self.name(),
    {
        match *self {
            BlockDeviceAio::Native => "native".to_owned(),
            BlockDeviceAio::Threads => "threads".to_owned(),
            BlockDeviceAio::IoUring => "iouring".to_owned(),
        }
    }
}

/// An implementation is found again under its own name.
pub proof fn law_aio_name(aio: BlockDeviceAio)
    ensures
        BlockDeviceAio::named(aio.name()) == aio,
{
    reveal_strlit("native");
    reveal_strlit("threads");
    reveal_strlit("iouring");
    assert("native"@[0] == 'n' && "threads"@[0] == 't' && "iouring"@[0] == 'i');
}

/// The configuration of a block device.
#[derive(Debug, Clone, Default, PartialEq)]
pub struct BlockConfigModern {
    /// The host path of a raw block source. Where `vmdk` is present, it is a reserved descriptor
    /// path, the key of the device; no file is created or opened there.
    pub path_on_host: String,
    /// Opens the drive in read-only mode.
    pub is_readonly: bool,
    /// Enables discard and unmap.
    pub discard_unmap: bool,
    /// Retains the device identity when the backend returns an unclassified attach error that
    /// might represent a completed operation.
    pub retain_on_unclassified_attach_error: bool,
    /// Keeps the file at `path_on_host` open when the device is dropped.
    pub no_drop: bool,
    /// The structured VMDK layout, which only QEMU consumes. Without it the block source is raw.
    pub vmdk: Option<VmdkConfig>,
    /// Whether the host page cache is bypassed; the hypervisor's configuration decides where this
    /// is not set.
    pub is_direct: Option<bool>,
    /// The index of the device.
    pub index: u64,
    /// The asynchronous I/O of the device.
    pub blkdev_aio: BlockDeviceAio,
    /// The driver of the device.
    pub driver_option: String,
    /// The device path in the guest.
    pub virt_path: String,
    /// The slot at which the drive is attached.
    pub pci_path: Option<PciPath>,
    /// The preconfigured PCIe root-port bus for QEMU hot-plug.
    pub pcie_root_port: Option<String>,
    /// Requires QEMU to hot-plug this device through a PCIe root port.
    pub use_pcie_root_port: bool,
    /// What an incomplete attach rollback left in QEMU.
    pub cleanup_state: Option<BlockCleanupState>,
    /// The SCSI address, `SCSI-Id:LUN`, of a device on a SCSI bus.
    pub scsi_addr: Option<String>,
    /// The CCW address of a device on s390x, such as `0.0.0005`.
    pub ccw_addr: Option<String>,
    /// How often the device is attached.
    pub attach_count: u64,
    /// The major number of the device.
    pub major: i64,
    /// The minor number of the device.
    pub minor: i64,
    /// The size of a virtio queue, in bytes.
    pub queue_size: u32,
    /// The number of queues.
    pub num_queues: usize,
    /// The logical sector size, in bytes; zero leaves it to the hypervisor.
    pub logical_sector_size: u32,
    /// The physical sector size, in bytes; zero leaves it to the hypervisor.
    pub physical_sector_size: u32,
    /// The virtio serial of the device; where it is empty, the hypervisor makes one from the
    /// device's identity.
    pub serial_override: String,
}

/// A block device.
#[derive(Debug, Clone, Default)]
pub struct BlockDeviceModern {
    pub device_id: String,
    pub attach_count: u64,
    pub config: BlockConfigModern,
}

/// The most sectors that one extent of a VMDK layout holds.
pub const MAX_VMDK_EXTENT_SECTORS: u64 = 4_194_304;

/// A run of sectors of a file.
#[derive(Debug, Clone, PartialEq, Eq)]
pub struct VmdkExtent {
    pub path_on_host: String,
    pub sectors: u64,
    pub file_offset: u64,
}

/// The model of a [`VmdkExtent`].
pub struct ExtentModel {
    pub path: Seq<char>,
    pub sectors: int,
    pub file_offset: int,
}

impl DeepView for VmdkExtent {
    type V = ExtentModel;

    open spec fn deep_view(&self) -> ExtentModel {
        ExtentModel {
            path: self.path_on_host@,
            sectors: self.sectors as int,
            file_offset: self.file_offset as int,
        }
    }
}

/// The layout of a disk as runs of sectors of files.
#[derive(Debug, Clone, PartialEq, Eq)]
pub struct VmdkConfig {
    pub extents: Vec<VmdkExtent>,
}

impl Default for VmdkConfig {
    fn default() -> (r: VmdkConfig)
        ensures
            r@ == Seq::<ExtentModel>::empty(),
    {
        let r = VmdkConfig { extents: Vec::new() };
        assert(r@ =~= Seq::empty());
        r
    }
}

impl View for VmdkConfig {
    type V = Seq<ExtentModel>;

    open spec fn view(&self) -> Seq<ExtentModel> {
        self.extents.deep_view()
    }
}

/// The sectors of a file from `offset` on, cut into runs of the largest size; the last may be
/// shorter.
pub open spec fn chunks(path: Seq<char>, offset: int, remaining: int) -> Seq<ExtentModel>
    decreases remaining,
{
    if remaining <= 0 {
        seq![]
    } else if remaining <= MAX_VMDK_EXTENT_SECTORS {
        seq![ExtentModel { path, sectors: remaining, file_offset: offset }]
    } else {
        seq![
            ExtentModel { path, sectors: MAX_VMDK_EXTENT_SECTORS as int, file_offset: offset },
        ] + chunks(path, offset + MAX_VMDK_EXTENT_SECTORS, remaining - MAX_VMDK_EXTENT_SECTORS)
    }
}

/// The number of sectors of a layout.
pub open spec fn sector_count(extents: Seq<ExtentModel>) -> int
    decreases extents.len(),
{
    if extents.len() == 0 {
        0
    } else {
        sector_count(extents.drop_last()) + extents.last().sectors
    }
}

/// Two layouts in a row have the sectors of both.
proof fn lemma_sector_count_concat(a: Seq<ExtentModel>, b: Seq<ExtentModel>)
    ensures
        sector_count(a + b) == sector_count(a) + sector_count(b),
    decreases b.len(),
{
    if b.len() == 0 {
        assert(a + b =~= a);
    } else {
        assert((a + b).drop_last() =~= a + b.drop_last());
        lemma_sector_count_concat(a, b.drop_last());
    }
}

/// Cutting a file into runs loses no sector and counts none twice: the runs follow each other from
/// `offset` on, none is empty or too large, and together they have `total` sectors.
pub proof fn law_chunks_cover(path: Seq<char>, offset: int, total: int)
    requires
        0 <= total,
    ensures
        sector_count(chunks(path, offset, total)) == total,
        forall|i: int|
            0 <= i < chunks(path, offset, total).len() ==> {
                let extent = #[trigger] chunks(path, offset, total)[i];
                &&& extent.path == path
                &&& 0 < extent.sectors <= MAX_VMDK_EXTENT_SECTORS
                &&& extent.file_offset == offset + i * MAX_VMDK_EXTENT_SECTORS
            },
        forall|i: int|
            0 <= i < chunks(path, offset, total).len() - 1 ==> (#[trigger] chunks(
                path,
                offset,
                total,
            )[i]).sectors == MAX_VMDK_EXTENT_SECTORS,
    decreases total,
{
    if total > 0 {
        let first = ExtentModel {
            path,
            sectors: if total <= MAX_VMDK_EXTENT_SECTORS {
                total
            } else {
                MAX_VMDK_EXTENT_SECTORS as int
            },
            file_offset: offset,
        };
        assert(sector_count(seq![first]) == first.sectors) by {
            assert(seq![first].drop_last() =~= Seq::<ExtentModel>::empty());
            assert(sector_count(Seq::<ExtentModel>::empty()) == 0);
        }
        if total > MAX_VMDK_EXTENT_SECTORS {
            let rest = chunks(
                path,
                offset + MAX_VMDK_EXTENT_SECTORS,
                total - MAX_VMDK_EXTENT_SECTORS,
            );
            law_chunks_cover(
                path,
                offset + MAX_VMDK_EXTENT_SECTORS,
                total - MAX_VMDK_EXTENT_SECTORS,
            );
            lemma_sector_count_concat(seq![first], rest);
            assert forall|i: int| 0 <= i < chunks(path, offset, total).len() implies {
                let extent = #[trigger] chunks(path, offset, total)[i];
                &&& extent.path == path
                &&& 0 < extent.sectors <= MAX_VMDK_EXTENT_SECTORS
                &&& extent.file_offset == offset + i * MAX_VMDK_EXTENT_SECTORS
            } by {
                if i > 0 {
                    assert(chunks(path, offset, total)[i] == rest[i - 1]);
                }
            }
            assert forall|i: int| 0 <= i < chunks(path, offset, total).len() - 1 implies (
            #[trigger] chunks(path, offset, total)[i]).sectors == MAX_VMDK_EXTENT_SECTORS by {
                if i > 0 {
                    assert(chunks(path, offset, total)[i] == rest[i - 1]);
                }
            }
        }
    }
}

impl VmdkConfig {
    /// Adds a run of sectors.
    pub fn push_extent(&mut self, path_on_host: &str, sectors: u64, file_offset: u64)
        ensures
            final(self)@ == old(self)@.push(
                ExtentModel {
                    path: path_on_host@,
                    sectors: sectors as int,
                    file_offset: file_offset as int,
                },
            ),
    {
        let extent = VmdkExtent { path_on_host: path_on_host.to_owned(), sectors, file_offset };
        self.extents.push(extent);
        assert(self@ =~= old(self)@.push(extent.deep_view()));
    }

    /// Adds the first `total_sectors` sectors of a file, cut into runs of the largest size.
    pub fn push_extent_chunked(&mut self, path_on_host: &str, total_sectors: u64)
        ensures
            final(self)@ == old(self)@ + chunks(path_on_host@, 0, total_sectors as int),
    {
        let mut remaining: u64 = total_sectors;
        let mut file_offset: u64 = 0;
        while remaining > 0
            invariant
                remaining + file_offset == total_sectors,
                old(self)@ + chunks(path_on_host@, 0, total_sectors as int) =~= self@ + chunks(
                    path_on_host@,
                    file_offset as int,
                    remaining as int,
                ),
            decreases remaining,
        {
            let sectors: u64 = if remaining <= MAX_VMDK_EXTENT_SECTORS {
                remaining
            } else {
                MAX_VMDK_EXTENT_SECTORS
            };
            self.push_extent(path_on_host, sectors, file_offset);
            file_offset = file_offset + sectors;
            remaining = remaining - sectors;
        }
    }

    /// The number of sectors of the layout, where it can be written down in 64 bits.
    pub fn total_sectors(&self) -> (r: Option<u64>)
        ensures
            match r {
                Some(total) => total == sector_count(self@),
                None => sector_count(self@) > u64::MAX,
            },
    {
        let mut total: u64 = 0;
        let mut i: usize = 0;
        while i < self.extents.len()
            invariant
                0 <= i <= self.extents@.len(),
                total == sector_count(self@.take(i as int)),
            decreases self.extents@.len() - i,
        {
            proof {
                assert(self@.take(i + 1).drop_last() =~= self@.take(i as int));
                assert(self@.take(i + 1).last() == self.extents@[i as int].deep_view());
            }
            match total.checked_add(self.extents[i].sectors) {
                Some(sum) => {
                    total = sum;
                },
                None => {
                    proof {
                        lemma_sector_count_concat(self@.take(i + 1), self@.skip(i + 1));
                        assert(self@.take(i + 1) + self@.skip(i + 1) =~= self@);
                        lemma_sector_count_nonnegative(self@.skip(i + 1));
                    }
                    return None;
                },
            }
            i = i + 1;
        }
        assert(self@.take(i as int) =~= self@);
        Some(total)
    }
}

/// No run of an existing layout has a negative number of sectors.
proof fn lemma_sector_count_nonnegative(extents: Seq<ExtentModel>)
    requires
        forall|i: int| 0 <= i < extents.len() ==> (#[trigger] extents[i]).sectors >= 0,
    ensures
        sector_count(extents) >= 0,
    decreases extents.len(),
{
    if extents.len() > 0 {
        lemma_sector_count_nonnegative(extents.drop_last());
    }
}

/// The model of a [`BlockConfigModern`].
pub struct BlockConfigModel {
    pub path_on_host: Seq<char>,
    pub is_readonly: bool,
    pub discard_unmap: bool,
    pub retain_on_unclassified_attach_error: bool,
    pub no_drop: bool,
    pub vmdk: Option<Seq<ExtentModel>>,
    pub is_direct: Option<bool>,
    pub index: u64,
    pub blkdev_aio: BlockDeviceAio,
    pub driver_option: Seq<char>,
    pub virt_path: Seq<char>,
    pub pci_path: Option<Seq<u8>>,
    pub pcie_root_port: Option<Seq<char>>,
    pub use_pcie_root_port: bool,
    pub cleanup_state: Option<BlockCleanupState>,
    pub scsi_addr: Option<Seq<char>>,
    pub ccw_addr: Option<Seq<char>>,
    pub attach_count: u64,
    pub major: i64,
    pub minor: i64,
    pub queue_size: u32,
    pub num_queues: usize,
    pub logical_sector_size: u32,
    pub physical_sector_size: u32,
    pub serial_override: Seq<char>,
}

impl DeepView for BlockConfigModern {
    type V = BlockConfigModel;

    open spec fn deep_view(&self) -> BlockConfigModel {
        BlockConfigModel {
            path_on_host: self.path_on_host@,
            is_readonly: self.is_readonly,
            discard_unmap: self.discard_unmap,
            retain_on_unclassified_attach_error: self.retain_on_unclassified_attach_error,
            no_drop: self.no_drop,
            vmdk: match self.vmdk {
                Some(vmdk) => Some(vmdk@),
                None => None,
            },
            is_direct: self.is_direct,
            index: self.index,
            blkdev_aio: self.blkdev_aio,
            driver_option: self.driver_option@,
            virt_path: self.virt_path@,
            pci_path: self.pci_path.deep_view(),
            pcie_root_port: self.pcie_root_port.deep_view(),
            use_pcie_root_port: self.use_pcie_root_port,
            cleanup_state: self.cleanup_state,
            scsi_addr: self.scsi_addr.deep_view(),
            ccw_addr: self.ccw_addr.deep_view(),
            attach_count: self.attach_count,
            major: self.major,
            minor: self.minor,
            queue_size: self.queue_size,
            num_queues: self.num_queues,
            logical_sector_size: self.logical_sector_size,
            physical_sector_size: self.physical_sector_size,
            serial_override: self.serial_override@,
        }
    }
}

fn same_option(a: &Option<String>, b: &Option<String>) -> (r: bool)
    ensures
        r == (a.deep_view() == b.deep_view()),
{
    match (a, b) {
        (Some(a), Some(b)) => same(a.as_str(), b.as_str()),
        (None, None) => true,
        _ => false,
    }
}

fn same_layout(a: &VmdkConfig, b: &VmdkConfig) -> (r: bool)
    ensures
        r == (a@ == b@),
{
    if a.extents.len() != b.extents.len() {
        return false;
    }
    let mut i: usize = 0;
    while i < a.extents.len()
        invariant
            0 <= i <= a.extents@.len(),
            a.extents@.len() == b.extents@.len(),
            a@.take(i as int) =~= b@.take(i as int),
        decreases a.extents@.len() - i,
    {
        let x = &a.extents[i];
        let y = &b.extents[i];
        assert(a@[i as int] == x.deep_view() && b@[i as int] == y.deep_view());
        if !same(x.path_on_host.as_str(), y.path_on_host.as_str()) || x.sectors != y.sectors
            || x.file_offset != y.file_offset {
            return false;
        }
        assert(a@.take(i + 1) =~= a@.take(i as int).push(a@[i as int]));
        assert(b@.take(i + 1) =~= b@.take(i as int).push(b@[i as int]));
        i = i + 1;
    }
    assert(a@.take(i as int) =~= a@);
    assert(b@.take(i as int) =~= b@);
    true
}

impl VmdkConfig {
    /// A copy of the layout.
    pub fn dup(&self) -> (r: VmdkConfig)
        ensures
            r@ == self@,
    {
        let mut extents: Vec<VmdkExtent> = Vec::new();
        let mut i: usize = 0;
        while i < self.extents.len()
            invariant
                0 <= i <= self.extents@.len(),
                extents.deep_view() =~= self@.take(i as int),
            decreases self.extents@.len() - i,
        {
            let extent = &self.extents[i];
            push_item(
                &mut extents,
                VmdkExtent {
                    path_on_host: extent.path_on_host.clone(),
                    sectors: extent.sectors,
                    file_offset: extent.file_offset,
                },
            );
            assert(self@.take(i + 1) =~= self@.take(i as int).push(self@[i as int]));
            i = i + 1;
        }
        assert(self@.take(i as int) =~= self@);
        VmdkConfig { extents }
    }
}

fn same_truth(a: Option<bool>, b: Option<bool>) -> (r: bool)
    ensures
        r == (a == b),
{
    match (a, b) {
        (Some(a), Some(b)) => a == b,
        (None, None) => true,
        _ => false,
    }
}

fn same_residue(a: Option<BlockCleanupState>, b: Option<BlockCleanupState>) -> (r: bool)
    ensures
        r == (a == b),
{
    match (a, b) {
        (Some(a), Some(b)) => a == b,
        (None, None) => true,
        _ => false,
    }
}

impl BlockConfigModern {
    /// A copy of the configuration.
    pub fn dup(&self) -> (r: BlockConfigModern)
        ensures
            r.deep_view() == self.deep_view(),
    {
        BlockConfigModern {
            path_on_host: self.path_on_host.clone(),
            is_readonly: self.is_readonly,
            discard_unmap: self.discard_unmap,
            retain_on_unclassified_attach_error: self.retain_on_unclassified_attach_error,
            no_drop: self.no_drop,
            vmdk: match &self.vmdk {
                Some(vmdk) => Some(vmdk.dup()),
                None => None,
            },
            is_direct: self.is_direct,
            index: self.index,
            blkdev_aio: self.blkdev_aio,
            driver_option: self.driver_option.clone(),
            virt_path: self.virt_path.clone(),
            pci_path: match &self.pci_path {
                Some(path) => Some(path.dup()),
                None => None,
            },
            pcie_root_port: dup_option(&self.pcie_root_port),
            use_pcie_root_port: self.use_pcie_root_port,
            cleanup_state: self.cleanup_state,
            scsi_addr: dup_option(&self.scsi_addr),
            ccw_addr: dup_option(&self.ccw_addr),
            attach_count: self.attach_count,
            major: self.major,
            minor: self.minor,
            queue_size: self.queue_size,
            num_queues: self.num_queues,
            logical_sector_size: self.logical_sector_size,
            physical_sector_size: self.physical_sector_size,
            serial_override: self.serial_override.clone(),
        }
    }

    fn same_numbers(&self, other: &BlockConfigModern) -> (r: bool)
        ensures
            r == (self.is_readonly == other.is_readonly && self.discard_unmap
                == other.discard_unmap && self.retain_on_unclassified_attach_error
                == other.retain_on_unclassified_attach_error && self.no_drop == other.no_drop
                && self.is_direct == other.is_direct && self.index == other.index
                && self.blkdev_aio == other.blkdev_aio && self.use_pcie_root_port
                == other.use_pcie_root_port && self.cleanup_state == other.cleanup_state
                && self.attach_count == other.attach_count && self.major == other.major
                && self.minor == other.minor && self.queue_size == other.queue_size
                && self.num_queues == other.num_queues && self.logical_sector_size
                == other.logical_sector_size && self.physical_sector_size
                == other.physical_sector_size),
    {
        self.is_readonly == other.is_readonly && self.discard_unmap == other.discard_unmap
            && self.retain_on_unclassified_attach_error
            == other.retain_on_unclassified_attach_error && self.no_drop == other.no_drop
            && same_truth(self.is_direct, other.is_direct) && self.index == other.index
            && self.blkdev_aio == other.blkdev_aio && self.use_pcie_root_port
            == other.use_pcie_root_port && same_residue(self.cleanup_state, other.cleanup_state)
            && self.attach_count == other.attach_count && self.major == other.major && self.minor
            == other.minor && self.queue_size == other.queue_size && self.num_queues
            == other.num_queues && self.logical_sector_size == other.logical_sector_size
            && self.physical_sector_size == other.physical_sector_size
    }

    /// Whether two configurations are the same.
    pub fn same_config(&self, other: &BlockConfigModern) -> (r: bool)
        ensures
            r == (self.deep_view() == other.deep_view()),
    {
        if !self.same_numbers(other) {
            return false;
        }
        let layouts = match (&self.vmdk, &other.vmdk) {
            (Some(a), Some(b)) => same_layout(a, b),
            (None, None) => true,
            _ => false,
        };
        let paths = match (&self.pci_path, &other.pci_path) {
            (Some(a), Some(b)) => a.same_path(b),
            (None, None) => true,
            _ => false,
        };
        layouts && paths && same(self.path_on_host.as_str(), other.path_on_host.as_str()) && same(
            self.driver_option.as_str(),
            other.driver_option.as_str(),
        ) && same(self.virt_path.as_str(), other.virt_path.as_str()) && same_option(
            &self.pcie_root_port,
            &other.pcie_root_port,
        ) && same_option(&self.scsi_addr, &other.scsi_addr) && same_option(
            &self.ccw_addr,
            &other.ccw_addr,
        ) && same(self.serial_override.as_str(), other.serial_override.as_str())
    }
}

} // verus!
