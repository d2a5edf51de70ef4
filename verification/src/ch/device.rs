//! The devices of a virtual machine under Cloud Hypervisor.
//!
//! Before the virtual machine runs, devices wait in a list; once it runs, they are plugged in at
//! once. What an operation needs from outside is given back as a [`ChCommand`]; it is run again
//! from the state it started in once the reply is there. The state that a waiting operation leaves
//! is the one that holds while nobody waits any more.
use crate::block_device::{BlockConfigModern, BlockDeviceModern};
use crate::ch::api::{
    is_api_command_not_dispatched, is_definite_server_response, removal_of, removal_result,
    PciDeviceInfo,
};
use crate::ch::config::{
    disk_config_of, fs_config_of, net_config_of, out_of_range, DeviceConfig, DeviceModel,
    DiskConfig, DiskConfigModel, FsConfig, FsModel, NetConfig, NetModel, NetworkConfig, RateLimits,
    ShareFsConfig, VsockConfig, VsockModel,
};
use crate::error::{
    error_chain_text, error_text, in_context, message, names_doubt, never_dispatched, server_status,
    Error, ErrorModel, LayerModel,
};
use crate::pci_path::{path_in, PciPath};
use crate::qmp::session::{flow, outcome, Flow};
use crate::table::Table;
use crate::text::{
    begins_with, cat2, cat3, cat4, cat5, debug_text, has_prefix, quoted, same, split, split_text,
};
use vstd::prelude::*;
use vstd::utf8::encode_utf8;

verus! {

/// The one type of shared file system that can be plugged in.
pub const VIRTIO_FS: &'static str = "virtio-fs";

/// How far the virtual machine has come.
#[derive(Clone, Copy, Debug, PartialEq, Eq, Structural)]
pub enum VmmState {
    NotReady,
    VmmServerReady,
    VmRunning,
}

/// How a developer sees a state.
pub open spec fn vmm_state_text(state: VmmState) -> Seq<char> {
    match state {
        VmmState::NotReady => "NotReady"@,
        VmmState::VmmServerReady => "VmmServerReady"@,
        VmmState::VmRunning => "VmRunning"@,
    }
}

impl VmmState {
    fn name(self) -> (r: &'static str)
        ensures
            r@ == vmm_state_text(self),
    {
        match self {
            VmmState::NotReady => "NotReady",
            VmmState::VmmServerReady => "VmmServerReady",
            VmmState::VmRunning => "VmRunning",
        }
    }
}

/// A device of the host that is passed through.
#[derive(Clone, Debug)]
pub struct HostDevice {
    pub sysfs_path: String,
    pub guest_pci_path: Option<PciPath>,
}

/// A group of devices that are passed through together. The first one is the primary device.
#[derive(Clone, Debug)]
pub struct VfioDevice {
    pub device_id: String,
    pub devices: Vec<HostDevice>,
}

/// A socket between host and guest.
#[derive(Clone, Debug)]
pub struct HybridVsockConfig {
    pub guest_cid: u32,
    pub uds_path: String,
}

/// What protects a guest.
#[derive(Clone, Debug)]
pub enum ProtectionDeviceConfig {
    SevSnp { is_snp: bool, host_data: Option<Vec<u8>> },
    Tdx { mrconfigid: Option<Vec<u8>> },
    Other,
}

/// The kinds of devices.
#[derive(Clone, Debug)]
pub enum DeviceType {
    ShareFs(ShareFsConfig),
    HybridVsock(HybridVsockConfig),
    BlockModern(BlockDeviceModern),
    Vfio(VfioDevice),
    Network(NetworkConfig),
    Protection(ProtectionDeviceConfig),
    Other,
}

/// A device, with how a developer sees it.
#[derive(Clone, Debug)]
pub struct Device {
    pub kind: DeviceType,
    pub described: String,
}

/// What of the sandbox and the hypervisor's configuration bears on its devices.
#[derive(Clone, Debug)]
pub struct Settings {
    pub vm_path: String,
    pub netns: Option<String>,
    /// The directory for short socket links, where the runtime has no root privileges.
    pub rootless_link_root: Option<String>,
    /// The number of queue pairs of a network device that is there at boot.
    pub network_queues: u32,
    pub block_device_cache_direct: bool,
    pub rate_limits: RateLimits,
    pub boot_image: String,
    pub boot_initrd: String,
    /// The PCI segment of a shared file system that is plugged in.
    pub fs_pci_segment: u16,
}

/// The devices of a virtual machine.
#[derive(Clone, Debug)]
pub struct CloudHypervisorInner {
    pub state: VmmState,
    /// The devices that wait for the virtual machine, the newest one first.
    pub pending_devices: Vec<Device>,
    /// The identities that the hypervisor knows devices by.
    pub device_ids: Table<String>,
    pub settings: Settings,
}

/// The model of a [`CloudHypervisorInner`].
pub struct InnerModel {
    pub state: VmmState,
    pub pending: Seq<Device>,
    pub device_ids: Map<Seq<char>, Seq<char>>,
    pub settings: Settings,
}

impl View for CloudHypervisorInner {
    type V = InnerModel;

    open spec fn view(&self) -> InnerModel {
        InnerModel {
            state: self.state,
            pending: self.pending_devices@,
            device_ids: self.device_ids.deep_view(),
            settings: self.settings,
        }
    }
}

/// What an operation on devices needs from outside.
#[derive(Clone, Debug)]
pub enum ChCommand {
    AddFs(FsConfig),
    AddVsock(VsockConfig),
    AddDevice(DeviceConfig),
    AddDisk(DiskConfig),
    /// Add a network device, and hand these descriptors over with the request.
    AddNet(NetConfig, Vec<i32>),
    RemoveDevice(String),
    /// Find the path below a root that it cannot leave.
    ScopedJoin { root: String, path: String },
    /// Enter the network namespace until the next tap device is open.
    EnterNetns(String),
    /// Open that many queues of the tap device.
    OpenTap { name: String, queues: u32 },
    CreateDir(String),
    Symlink { target: String, link: String },
    /// Look up how the block device is configured now.
    CurrentConfig(String),
}

/// The model of a [`ChCommand`].
pub enum ChModel {
    AddFs(FsModel),
    AddVsock(VsockModel),
    AddDevice(DeviceModel),
    AddDisk(DiskConfigModel),
    AddNet(NetModel, Seq<i32>),
    RemoveDevice(Seq<char>),
    ScopedJoin { root: Seq<char>, path: Seq<char> },
    EnterNetns(Seq<char>),
    OpenTap { name: Seq<char>, queues: u32 },
    CreateDir(Seq<char>),
    Symlink { target: Seq<char>, link: Seq<char> },
    CurrentConfig(Seq<char>),
}

impl DeepView for ChCommand {
    type V = ChModel;

    open spec fn deep_view(&self) -> ChModel {
        match *self {
            ChCommand::AddFs(config) => ChModel::AddFs(config.deep_view()),
            ChCommand::AddVsock(config) => ChModel::AddVsock(config.deep_view()),
            ChCommand::AddDevice(config) => ChModel::AddDevice(config.deep_view()),
            ChCommand::AddDisk(config) => ChModel::AddDisk(config.deep_view()),
            ChCommand::AddNet(config, fds) => ChModel::AddNet(config.deep_view(), fds@),
            ChCommand::RemoveDevice(id) => ChModel::RemoveDevice(id@),
            ChCommand::ScopedJoin { root, path } => ChModel::ScopedJoin {
                root: root@,
                path: path@,
            },
            ChCommand::EnterNetns(netns) => ChModel::EnterNetns(netns@),
            ChCommand::OpenTap { name, queues } => ChModel::OpenTap { name: name@, queues },
            ChCommand::CreateDir(path) => ChModel::CreateDir(path@),
            ChCommand::Symlink { target, link } => ChModel::Symlink {
                target: target@,
                link: link@,
            },
            ChCommand::CurrentConfig(id) => ChModel::CurrentConfig(id@),
        }
    }
}

/// The answer to a request that adds a device.
#[derive(Debug)]
pub enum AddResponse {
    Failed(Error),
    /// The answer has no body.
    Empty,
    /// The answer has this body, which names a device or is no such name for that reason.
    Identity { detail: String, info: Result<PciDeviceInfo, String> },
}

/// The replies to what adding a device needed; `None` where it was not done yet.
#[derive(Debug)]
pub struct AddReplies {
    /// The path that was joined below a root.
    pub path: Option<Result<String, Error>>,
    /// The descriptors of the open tap device.
    pub fds: Option<Result<Vec<i32>, Error>>,
    pub response: Option<AddResponse>,
    /// The answer to the request that takes the device back.
    pub removed: Option<Result<Option<String>, Error>>,
}

/// A step on the devices: the state after it, and how far the operation has come.
pub type DeviceStep<T> = (InnerModel, Flow<T, ChModel>);

/// The state where the hypervisor knows the device `id` by the identity `vmm_id`.
pub open spec fn with_id(m: InnerModel, id: Seq<char>, vmm_id: Seq<char>) -> InnerModel {
    InnerModel { device_ids: m.device_ids.insert(id, vmm_id), ..m }
}

/// The state where the hypervisor does not know the device `id`.
pub open spec fn without_id(m: InnerModel, id: Seq<char>) -> InnerModel {
    InnerModel { device_ids: m.device_ids.remove(id), ..m }
}

/// Why an address is not one of a device on the root bus.
pub open spec fn unexpected_address(bdf: Seq<char>) -> ErrorModel {
    message("Unexpected PCI address "@ + debug_text(bdf) + " for clh device add"@)
}

/// The path of the device at the address `0000:00:DD.0`.
pub open spec fn bdf_path(bdf: Seq<char>) -> Result<Seq<u8>, ErrorModel> {
    let tokens = split(bdf, ':');
    if tokens.len() != 3 || tokens[0] != "0000"@ || tokens[1] != "00"@ {
        Err(unexpected_address(bdf))
    } else {
        let parts = split(tokens[2], '.');
        if parts.len() != 2 || parts[1] != "0"@ || encode_utf8(parts[0]).len() != 2 {
            Err(unexpected_address(bdf))
        } else {
            path_in(parts[0])
        }
    }
}

/// The path of the device at the address `0000:00:DD.0`.
pub fn clh_pci_info_to_path(bdf: &str) -> (r: Result<PciPath, Error>)
    ensures
        outcome(r) == bdf_path(bdf@),
{
    let tokens = split_text(bdf, ':');
    assert(forall|i: int|
        0 <= i < tokens@.len() ==> (#[trigger] tokens@[i])@ == tokens.deep_view()[i]);
    if tokens.len() != 3 || !same(tokens[0].as_str(), "0000") || !same(tokens[1].as_str(), "00") {
        return Err(
            Error::msg(
                cat3(
                    "Unexpected PCI address ",
                    quoted(bdf).as_str(),
                    " for clh device add",
                ),
            ),
        );
    }
    let parts = split_text(tokens[2].as_str(), '.');
    assert(forall|i: int|
        0 <= i < parts@.len() ==> (#[trigger] parts@[i])@ == parts.deep_view()[i]);
    if parts.len() != 2 || !same(parts[1].as_str(), "0") || parts[0].as_str().as_bytes().len()
        != 2 {
        return Err(
            Error::msg(
                cat3(
                    "Unexpected PCI address ",
                    quoted(bdf).as_str(),
                    " for clh device add",
                ),
            ),
        );
    }
    PciPath::from_text(parts[0].as_str())
}

/// The disk of a block device under these settings.
pub open spec fn disk_config_under(settings: Settings, config: BlockConfigModern) -> DiskConfigModel {
    DiskConfigModel {
        direct: match config.is_direct {
            Some(direct) => direct,
            None => settings.block_device_cache_direct,
        },
        rate_limits: Some(settings.rate_limits),
        ..disk_config_of(config)
    }
}

/// Whether a file is one that the virtual machine boots from.
pub open spec fn boots_from(settings: Settings, path: Seq<char>) -> bool {
    (settings.boot_image@.len() != 0 && path == settings.boot_image@) || (
    settings.boot_initrd@.len() != 0 && path == settings.boot_initrd@)
}

/// What follows the answer that takes back a device which was added but cannot be used.
pub open spec fn rolled_back(
    m: InnerModel,
    id: Seq<char>,
    vmm_id: Seq<char>,
    error: ErrorModel,
    removed: Option<Result<Option<String>, Error>>,
) -> DeviceStep<Option<Seq<u8>>> {
    let m = with_id(m, id, vmm_id);
    match removed {
        None => (m, Flow::Waiting(ChModel::RemoveDevice(vmm_id))),
        Some(removed) => match removal_of(outcome(removed)) {
            Ok(_) => (
                without_id(m, id),
                Flow::Done(
                    Err(
                        in_context(
                            error,
                            "rolled back partially attached runtime block device "@ + id
                                + " (VMM device "@ + vmm_id + ")"@,
                        ),
                    ),
                ),
            ),
            Err(rollback) => (
                m,
                Flow::Done(
                    Err(
                        in_context(
                            seq![
                                LayerModel::InDoubt {
                                    device_id: id,
                                    reason: "runtime block device "@ + id + " (VMM device "@
                                        + vmm_id
                                        + ") remains potentially attached and pending cleanup: "@
                                        + error_chain_text(rollback),
                                },
                            ],
                            error_text(error),
                        ),
                    ),
                ),
            ),
        },
    }
}

/// What follows the answer that a block device was added.
pub open spec fn block_identified(
    m: InnerModel,
    id: Seq<char>,
    info: PciDeviceInfo,
    removed: Option<Result<Option<String>, Error>>,
) -> DeviceStep<Option<Seq<u8>>> {
    if info.id@ != id {
        rolled_back(
            m,
            id,
            info.id@,
            message(
                "Cloud Hypervisor returned device identity "@ + info.id@ + " for block device "@
                    + id,
            ),
            removed,
        )
    } else {
        match bdf_path(info.bdf@) {
            Ok(path) => (m, Flow::Done(Ok(Some(path)))),
            Err(error) => rolled_back(
                m,
                id,
                info.id@,
                in_context(
                    error,
                    "Cloud Hypervisor returned invalid PCI identity for block device "@ + id,
                ),
                removed,
            ),
        }
    }
}

/// A block device is plugged in under its own identity. The identity is claimed first; it is let go
/// where the device is surely not there, and kept for a cleanup where it may be.
pub open spec fn block_handled(
    m: InnerModel,
    device: BlockDeviceModern,
    replies: AddReplies,
) -> DeviceStep<Option<Seq<u8>>> {
    let id = device.device_id@;
    let path = device.config.path_on_host@;
    let disk = DiskConfigModel {
        id: Some(id),
        ..disk_config_under(m.settings, device.config)
    };
    let m = with_id(m, id, id);
    match replies.response {
        None => (m, Flow::Waiting(ChModel::AddDisk(disk))),
        Some(AddResponse::Failed(error)) => {
            let error = error.deep_view();
            if never_dispatched(error) || server_status(error) is Some {
                (
                    without_id(m, id),
                    Flow::Done(
                        Err(
                            in_context(
                                error,
                                "Cloud Hypervisor failed to attach block device "@ + id + " from "@
                                    + path,
                            ),
                        ),
                    ),
                )
            } else {
                (
                    m,
                    Flow::Done(
                        Err(
                            in_context(
                                seq![
                                    LayerModel::InDoubt {
                                        device_id: id,
                                        reason: "Cloud Hypervisor may have attached block device "@
                                            + id + " from "@ + path
                                            + "; cleanup remains pending"@,
                                    },
                                ],
                                error_text(error),
                            ),
                        ),
                    ),
                )
            }
        },
        Some(AddResponse::Empty) => rolled_back(
            m,
            id,
            id,
            message(
                "Cloud Hypervisor attached block device "@ + id + " from "@ + path
                    + " without returning guest device identity"@,
            ),
            replies.removed,
        ),
        Some(AddResponse::Identity { detail, info: Err(reason) }) => rolled_back(
            m,
            id,
            id,
            in_context(
                message(reason@),
                "Cloud Hypervisor returned invalid identity for block device "@ + id + ": "@
                    + detail@,
            ),
            replies.removed,
        ),
        Some(AddResponse::Identity { detail: _, info: Ok(info) }) => block_identified(
            m,
            id,
            info,
            replies.removed,
        ),
    }
}

/// What an answer means for a device of which no identity is kept.
pub open spec fn plainly_added(
    m: InnerModel,
    command: ChModel,
    response: Option<AddResponse>,
) -> DeviceStep<Option<Seq<u8>>> {
    match response {
        None => (m, Flow::Waiting(command)),
        Some(AddResponse::Failed(error)) => (m, Flow::Done(Err(error.deep_view()))),
        Some(_) => (m, Flow::Done(Ok(None))),
    }
}

/// A shared file system is plugged in.
pub open spec fn share_fs_handled(
    m: InnerModel,
    config: ShareFsConfig,
    replies: AddReplies,
) -> DeviceStep<Option<Seq<u8>>> {
    let over = |socket: Seq<char>|
        match fs_config_of(config, socket, Some(m.settings.fs_pci_segment)) {
            Ok(fs) => plainly_added(m, ChModel::AddFs(fs), replies.response),
            Err(error) => (m, Flow::Done(Err(error))),
        };
    if config.fs_type@ != VIRTIO_FS@ {
        (
            m,
            Flow::Done(
                Err(message("cannot handle share fs type: "@ + debug_text(config.fs_type@))),
            ),
        )
    } else if config.queue_size > u16::MAX {
        (m, Flow::Done(Err(message(out_of_range()))))
    } else if begins_with(config.sock_path@, "/"@) {
        over(config.sock_path@)
    } else {
        match replies.path {
            None => (
                m,
                Flow::Waiting(
                    ChModel::ScopedJoin { root: m.settings.vm_path@, path: config.sock_path@ },
                ),
            ),
            Some(Err(error)) => (m, Flow::Done(Err(error.deep_view()))),
            Some(Ok(socket)) => over(socket@),
        }
    }
}

/// The primary device of a group is passed through.
pub open spec fn vfio_handled(
    m: InnerModel,
    device: VfioDevice,
    described: Seq<char>,
    replies: AddReplies,
) -> DeviceStep<Option<Seq<u8>>> {
    if device.devices@.len() == 0 {
        (
            m,
            Flow::Done(Err(message("Primary device list empty for vfio device "@ + described))),
        )
    } else {
        match replies.response {
            None => (
                m,
                Flow::Waiting(
                    ChModel::AddDevice(
                        DeviceModel { path: device.devices@[0].sysfs_path@, iommu: false },
                    ),
                ),
            ),
            Some(AddResponse::Failed(error)) => (m, Flow::Done(Err(error.deep_view()))),
            Some(AddResponse::Empty) => (m, Flow::Done(Ok(None))),
            Some(AddResponse::Identity { detail: _, info: Err(reason) }) => (
                m,
                Flow::Done(Err(message(reason@))),
            ),
            Some(AddResponse::Identity { detail: _, info: Ok(info) }) => (
                with_id(m, device.device_id@, info.id@),
                match bdf_path(info.bdf@) {
                    Ok(path) => Flow::Done(Ok(Some(path))),
                    Err(error) => Flow::Done(Err(error)),
                },
            ),
        }
    }
}

/// A network interface whose tap device is handed over open, with that many queue pairs.
pub open spec fn net_config_over_fds(cfg: NetworkConfig, pairs: usize) -> Result<
    NetModel,
    ErrorModel,
> {
    match net_config_of(cfg) {
        Ok(net) => Ok(
            NetModel { tap: None, id: None, num_queues: (2 * pairs) as usize, ..net },
        ),
        Err(error) => Err(error),
    }
}

/// The number of queue pairs of an interface: at least one.
pub open spec fn queue_pairs(cfg: NetworkConfig) -> usize {
    if cfg.queue_num < 1 {
        1
    } else {
        cfg.queue_num
    }
}

/// A network interface is plugged in.
pub open spec fn network_handled(
    m: InnerModel,
    config: NetworkConfig,
    replies: AddReplies,
) -> DeviceStep<Option<Seq<u8>>> {
    match net_config_over_fds(config, queue_pairs(config)) {
        Err(error) => (m, Flow::Done(Err(error))),
        Ok(net) => match replies.fds {
            None => (
                m,
                Flow::Waiting(
                    ChModel::OpenTap {
                        name: config.host_dev_name@,
                        queues: queue_pairs(config) as u32,
                    },
                ),
            ),
            Some(Err(error)) => (
                m,
                Flow::Done(Err(in_context(error.deep_view(), "open named tuntap"@))),
            ),
            Some(Ok(fds)) => plainly_added(m, ChModel::AddNet(net, fds@), replies.response),
        },
    }
}

/// A device is plugged in. The guest PCI path of the device is given where it got one.
pub open spec fn device_handled(
    m: InnerModel,
    device: Device,
    replies: AddReplies,
) -> DeviceStep<Option<Seq<u8>>> {
    match device.kind {
        DeviceType::ShareFs(config) => share_fs_handled(m, config, replies),
        DeviceType::HybridVsock(config) => plainly_added(
            m,
            ChModel::AddVsock(VsockModel { cid: config.guest_cid, socket: config.uds_path@ }),
            replies.response,
        ),
        DeviceType::BlockModern(block) => block_handled(m, block, replies),
        DeviceType::Vfio(vfio) => vfio_handled(m, vfio, device.described@, replies),
        DeviceType::Network(config) => network_handled(m, config, replies),
        _ => (m, Flow::Done(Err(message("unhandled device: "@ + device.described@)))),
    }
}

/// Whether a device waits for the virtual machine rather than being passed over.
pub open spec fn waits_for_boot(kind: DeviceType) -> bool {
    kind is ShareFs || kind is Network || kind is Vfio || kind is Protection || kind is BlockModern
}

/// A device is added: at once where the virtual machine runs, at boot otherwise.
pub open spec fn device_added(
    m: InnerModel,
    device: Device,
    replies: AddReplies,
) -> DeviceStep<Option<Seq<u8>>> {
    if m.state == VmmState::VmRunning {
        device_handled(m, device, replies)
    } else if waits_for_boot(device.kind) {
        (
            InnerModel { pending: seq![device] + m.pending, ..m },
            Flow::Done(Ok(None)),
        )
    } else {
        (m, Flow::Done(Ok(None)))
    }
}

/// Whether the number of queues of a device can be counted, where it is.
pub open spec fn queues_countable(kind: DeviceType) -> bool {
    kind matches DeviceType::Network(config) ==> (config.guest_mac is Some ==> 2 * config.queue_num
        <= usize::MAX)
}

/// The devices that waited are added, the oldest one first, each with the replies to what it
/// needs.
pub open spec fn pending_handled(m: InnerModel, replies: Seq<AddReplies>) -> DeviceStep<()>
    decreases m.pending.len(),
{
    if m.pending.len() == 0 {
        (m, Flow::Done(Ok(())))
    } else {
        let device = m.pending.last();
        let popped = InnerModel { pending: m.pending.drop_last(), ..m };
        let next = if replies.len() == 0 {
            no_replies()
        } else {
            replies[0]
        };
        let (after, came) = device_handled(popped, device, next);
        match came {
            Flow::Waiting(command) => (after, Flow::Waiting(command)),
            Flow::Done(Err(error)) => (after, Flow::Done(Err(in_context(error, "add_device"@)))),
            Flow::Done(Ok(_)) => if after.pending.len() < m.pending.len() {
                pending_handled(
                    after,
                    if replies.len() == 0 {
                        replies
                    } else {
                        replies.drop_first()
                    },
                )
            } else {
                (after, Flow::Done(Ok(())))
            },
        }
    }
}

/// Nothing was done yet.
pub open spec fn no_replies() -> AddReplies {
    AddReplies { path: None, fds: None, response: None, removed: None }
}

/// A device is removed that the hypervisor knows by the identity it was given, or else by
/// `stable_id`.
pub open spec fn id_removed(
    m: InnerModel,
    id: Seq<char>,
    stable_id: Option<Seq<char>>,
    removed: Option<Result<Option<String>, Error>>,
) -> DeviceStep<()> {
    let known = if m.device_ids.contains_key(id) {
        Some(m.device_ids[id])
    } else {
        stable_id
    };
    match known {
        None => (
            m,
            Flow::Done(
                Err(
                    message(
                        "cannot detach runtime device "@ + id
                            + ": Cloud Hypervisor device identity is missing"@,
                    ),
                ),
            ),
        ),
        Some(vmm_id) => match removed {
            None => (m, Flow::Waiting(ChModel::RemoveDevice(vmm_id))),
            Some(removed) => match removal_of(outcome(removed)) {
                Ok(_) => (without_id(m, id), Flow::Done(Ok(()))),
                Err(error) => (
                    m,
                    Flow::Done(
                        Err(
                            in_context(
                                error,
                                "Cloud Hypervisor failed to detach runtime device "@ + id
                                    + " (VMM device "@ + vmm_id + ")"@,
                            ),
                        ),
                    ),
                ),
            },
        },
    }
}

/// A device is removed.
pub open spec fn device_removed(
    m: InnerModel,
    device: Device,
    removed: Option<Result<Option<String>, Error>>,
) -> DeviceStep<()> {
    match device.kind {
        DeviceType::Vfio(vfio) => id_removed(m, vfio.device_id@, None, removed),
        DeviceType::BlockModern(block) => id_removed(
            m,
            block.device_id@,
            Some(block.device_id@),
            removed,
        ),
        _ => (m, Flow::Done(Ok(()))),
    }
}

/// A block device without a path in the guest.
pub open spec fn unplaced(device: Device) -> Device {
    match device.kind {
        DeviceType::BlockModern(block) => Device {
            kind: DeviceType::BlockModern(
                BlockDeviceModern {
                    config: BlockConfigModern { pci_path: None, ..block.config },
                    ..block
                },
            ),
            ..device
        },
        _ => device,
    }
}

impl CloudHypervisorInner {
    /// The disk of a block device.
    pub fn make_disk_config(&self, config: &BlockConfigModern) -> (r: DiskConfig)
        ensures
            r.deep_view() == disk_config_under(self.settings, *config),
    {
        let mut disk_config = DiskConfig::from_block(config);
        disk_config.direct = match config.is_direct {
            Some(direct) => direct,
            None => self.settings.block_device_cache_direct,
        };
        disk_config.rate_limits = Some(self.settings.rate_limits);
        disk_config
    }

    /// Whether a file is one that the virtual machine boots from.
    pub fn is_vm_boot_file(&self, path: &str) -> (r: bool)
        ensures
            r == boots_from(self.settings, path@),
    {
        (self.settings.boot_image.as_str().unicode_len() != 0 && same(
            path,
            self.settings.boot_image.as_str(),
        )) || (self.settings.boot_initrd.as_str().unicode_len() != 0 && same(
            path,
            self.settings.boot_initrd.as_str(),
        ))
    }

    fn rollback_added_block_device(
        &mut self,
        runtime_device_id: &str,
        vmm_device_id: &str,
        attach_error: Error,
        removed: Option<Result<Option<String>, Error>>,
    ) -> (r: Result<Result<Option<PciPath>, Error>, ChCommand>)
        ensures
            (final(self)@, flow(r)) == rolled_back(
                old(self)@,
                runtime_device_id@,
                vmm_device_id@,
                attach_error.deep_view(),
                removed,
            ),
    {
        self.device_ids.insert(runtime_device_id.to_owned(), vmm_device_id.to_owned());
        let removed = match removed {
            Some(removed) => removed,
            None => {
                return Err(ChCommand::RemoveDevice(vmm_device_id.to_owned()));
            },
        };
        match removal_result(removed) {
            Ok(_) => {
                let _ = self.device_ids.remove(runtime_device_id);
                Ok(
                    Err(
                        attach_error.context(
                            cat5(
                                "rolled back partially attached runtime block device ",
                                runtime_device_id,
                                " (VMM device ",
                                vmm_device_id,
                                ")",
                            ),
                        ),
                    ),
                )
            },
            Err(rollback) => {
                let reason = cat5(
                    "runtime block device ",
                    runtime_device_id,
                    " (VMM device ",
                    vmm_device_id,
                    ") remains potentially attached and pending cleanup: ",
                ).concat(rollback.chain_text().as_str());
                Ok(
                    Err(
                        Error::in_doubt(runtime_device_id.to_owned(), reason).context(
                            attach_error.text(),
                        ),
                    ),
                )
            },
        }
    }

    fn identify_block_device(
        &mut self,
        device_id: &str,
        info: &PciDeviceInfo,
        removed: Option<Result<Option<String>, Error>>,
    ) -> (r: Result<Result<Option<PciPath>, Error>, ChCommand>)
        ensures
            (final(self)@, flow(r)) == block_identified(old(self)@, device_id@, *info, removed),
    {
        if !same(info.id.as_str(), device_id) {
            let error = Error::msg(
                cat4(
                    "Cloud Hypervisor returned device identity ",
                    info.id.as_str(),
                    " for block device ",
                    device_id,
                ),
            );
            return self.rollback_added_block_device(device_id, info.id.as_str(), error, removed);
        }
        match clh_pci_info_to_path(info.bdf.as_str()) {
            Ok(path) => Ok(Ok(Some(path))),
            Err(error) => {
                let error = error.context(
                    cat2(
                        "Cloud Hypervisor returned invalid PCI identity for block device ",
                        device_id,
                    ),
                );
                self.rollback_added_block_device(device_id, info.id.as_str(), error, removed)
            },
        }
    }

    /// Plugs a block device in, and gives the path that it got in the guest.
    pub fn handle_block_device(&mut self, device: &BlockDeviceModern, replies: AddReplies) -> (r:
        Result<Result<Option<PciPath>, Error>, ChCommand>)
        ensures
            (final(self)@, flow(r)) == block_handled(old(self)@, *device, replies),
    {
        let id = device.device_id.as_str();
        let path = device.config.path_on_host.as_str();
        let mut disk_config = self.make_disk_config(&device.config);
        disk_config.id = Some(device.device_id.clone());
        self.device_ids.insert(device.device_id.clone(), device.device_id.clone());
        let response = match replies.response {
            Some(response) => response,
            None => {
                return Err(ChCommand::AddDisk(disk_config));
            },
        };
        match response {
            AddResponse::Failed(error) => {
                if is_api_command_not_dispatched(&error) || is_definite_server_response(&error) {
                    let _ = self.device_ids.remove(id);
                    Ok(
                        Err(
                            error.context(
                                cat4(
                                    "Cloud Hypervisor failed to attach block device ",
                                    id,
                                    " from ",
                                    path,
                                ),
                            ),
                        ),
                    )
                } else {
                    let reason = cat5(
                        "Cloud Hypervisor may have attached block device ",
                        id,
                        " from ",
                        path,
                        "; cleanup remains pending",
                    );
                    Ok(
                        Err(
                            Error::in_doubt(device.device_id.clone(), reason).context(error.text()),
                        ),
                    )
                }
            },
            AddResponse::Empty => {
                let error = Error::msg(
                    cat5(
                        "Cloud Hypervisor attached block device ",
                        id,
                        " from ",
                        path,
                        " without returning guest device identity",
                    ),
                );
                self.rollback_added_block_device(id, id, error, replies.removed)
            },
            AddResponse::Identity { detail, info } => match info {
                Err(reason) => {
                    let error = Error::msg(reason).context(
                        cat4(
                            "Cloud Hypervisor returned invalid identity for block device ",
                            id,
                            ": ",
                            detail.as_str(),
                        ),
                    );
                    self.rollback_added_block_device(id, id, error, replies.removed)
                },
                Ok(info) => self.identify_block_device(id, &info, replies.removed),
            },
        }
    }

    fn conclude_add(&self, command: ChCommand, response: Option<AddResponse>) -> (r: Result<
        Result<Option<PciPath>, Error>,
        ChCommand,
    >)
        ensures
            (self@, flow(r)) == plainly_added(self@, command.deep_view(), response),
    {
        match response {
            None => Err(command),
            Some(AddResponse::Failed(error)) => Ok(Err(error)),
            Some(_) => Ok(Ok(None)),
        }
    }

    /// Plugs a shared file system in.
    pub fn handle_share_fs_device(&self, config: &ShareFsConfig, replies: AddReplies) -> (r: Result<
        Result<Option<PciPath>, Error>,
        ChCommand,
    >)
        ensures
            (self@, flow(r)) == share_fs_handled(self@, *config, replies),
    {
        if !same(config.fs_type.as_str(), VIRTIO_FS) {
            return Ok(
                Err(
                    Error::msg(
                        cat2(
                            "cannot handle share fs type: ",
                            quoted(config.fs_type.as_str()).as_str(),
                        ),
                    ),
                ),
            );
        }
        if config.queue_size > u16::MAX as u64 {
            return Ok(
                Err(Error::msg_str("out of range integral type conversion attempted")),
            );
        }
        let socket = if has_prefix(config.sock_path.as_str(), "/") {
            config.sock_path.clone()
        } else {
            match replies.path {
                None => {
                    return Err(
                        ChCommand::ScopedJoin {
                            root: self.settings.vm_path.clone(),
                            path: config.sock_path.clone(),
                        },
                    );
                },
                Some(Err(error)) => {
                    return Ok(Err(error));
                },
                Some(Ok(socket)) => socket,
            }
        };
        let fs_config = FsConfig {
            tag: config.mount_tag.clone(),
            socket,
            num_queues: #[verifier::truncate]
            (config.queue_num as usize),
            queue_size: config.queue_size as u16,
            pci_segment: Some(self.settings.fs_pci_segment),
        };
        self.conclude_add(ChCommand::AddFs(fs_config), replies.response)
    }

    /// Passes the primary device of a group through, and gives the path that it got in the guest.
    pub fn handle_vfio_device(&mut self, device: &VfioDevice, described: &str, replies: AddReplies) -> (r:
        Result<Result<Option<PciPath>, Error>, ChCommand>)
        ensures
            (final(self)@, flow(r)) == vfio_handled(old(self)@, *device, described@, replies),
    {
        if device.devices.len() == 0 {
            return Ok(
                Err(
                    Error::msg(cat2("Primary device list empty for vfio device ", described)),
                ),
            );
        }
        match replies.response {
            None => Err(
                ChCommand::AddDevice(
                    DeviceConfig { path: device.devices[0].sysfs_path.clone(), iommu: false },
                ),
            ),
            Some(AddResponse::Failed(error)) => Ok(Err(error)),
            Some(AddResponse::Empty) => Ok(Ok(None)),
            Some(AddResponse::Identity { detail: _, info }) => match info {
                Err(reason) => Ok(Err(Error::msg(reason))),
                Ok(info) => {
                    self.device_ids.insert(device.device_id.clone(), info.id);
                    match clh_pci_info_to_path(info.bdf.as_str()) {
                        Ok(path) => Ok(Ok(Some(path))),
                        Err(error) => Ok(Err(error)),
                    }
                },
            },
        }
    }

    /// Connects the guest to the host over a socket.
    pub fn handle_hvsock_device(&self, config: &HybridVsockConfig, replies: AddReplies) -> (r: Result<
        Result<Option<PciPath>, Error>,
        ChCommand,
    >)
        ensures
            (self@, flow(r)) == plainly_added(
                self@,
                ChModel::AddVsock(VsockModel { cid: config.guest_cid, socket: config.uds_path@ }),
                replies.response,
            ),
    {
        self.conclude_add(
            ChCommand::AddVsock(
                VsockConfig { cid: config.guest_cid, socket: config.uds_path.clone() },
            ),
            replies.response,
        )
    }

    /// Plugs a network interface in.
    pub fn handle_network_device(&self, config: &NetworkConfig, replies: AddReplies) -> (r: Result<
        Result<Option<PciPath>, Error>,
        ChCommand,
    >)
        requires
            config.guest_mac is Some ==> 2 * config.queue_num <= usize::MAX,
        ensures
            (self@, flow(r)) == network_handled(self@, *config, replies),
    {
        let pairs: usize = if config.queue_num < 1 {
            1
        } else {
            config.queue_num
        };
        let mut net_config = match NetConfig::from_network(config) {
            Ok(net_config) => net_config,
            Err(error) => {
                return Ok(Err(error));
            },
        };
        net_config.tap = None;
        net_config.id = None;
        net_config.num_queues = 2 * pairs;
        match replies.fds {
            None => Err(
                ChCommand::OpenTap {
                    name: config.host_dev_name.clone(),
                    queues: #[verifier::truncate]
                    (pairs as u32),
                },
            ),
            Some(Err(error)) => Ok(Err(error.context_str("open named tuntap"))),
            Some(Ok(fds)) => self.conclude_add(
                ChCommand::AddNet(net_config, fds),
                replies.response,
            ),
        }
    }

    /// Plugs a device in, and gives the path that it got in the guest, where it got one.
    pub fn handle_add_device(&mut self, device: &Device, replies: AddReplies) -> (r: Result<
        Result<Option<PciPath>, Error>,
        ChCommand,
    >)
        requires
            queues_countable(device.kind),
        ensures
            (final(self)@, flow(r)) == device_handled(old(self)@, *device, replies),
    {
        match &device.kind {
            DeviceType::ShareFs(config) => self.handle_share_fs_device(config, replies),
            DeviceType::HybridVsock(config) => self.handle_hvsock_device(config, replies),
            DeviceType::BlockModern(block) => self.handle_block_device(block, replies),
            DeviceType::Vfio(vfio) => self.handle_vfio_device(
                vfio,
                device.described.as_str(),
                replies,
            ),
            DeviceType::Network(config) => self.handle_network_device(config, replies),
            DeviceType::Protection(_) | DeviceType::Other => Ok(
                Err(Error::msg(cat2("unhandled device: ", device.described.as_str()))),
            ),
        }
    }

    /// Adds a device: at once where the virtual machine runs, at boot otherwise. Gives the path
    /// that the device got in the guest, where it got one.
    pub fn add_device(&mut self, device: Device, replies: AddReplies) -> (r: Result<
        Result<Option<PciPath>, Error>,
        ChCommand,
    >)
        requires
            old(self)@.state == VmmState::VmRunning ==> queues_countable(device.kind),
        ensures
            (final(self)@, flow(r)) == device_added(old(self)@, device, replies),
    {
        if self.state != VmmState::VmRunning {
            let waits = match &device.kind {
                DeviceType::ShareFs(_) => true,
                DeviceType::Network(_) => true,
                DeviceType::Vfio(_) => true,
                DeviceType::Protection(_) => true,
                DeviceType::BlockModern(_) => true,
                _ => false,
            };
            if waits {
                let ghost before = self.pending_devices@;
                self.pending_devices.insert(0, device);
                assert(self.pending_devices@ =~= seq![device] + before);
            }
            return Ok(Ok(None));
        }
        self.handle_add_device(&device, replies)
    }

    /// Adds the devices that waited for the virtual machine.
    pub fn handle_pending_devices_after_boot(&mut self, replies: Vec<AddReplies>) -> (r: Result<
        Result<(), Error>,
        ChCommand,
    >)
        requires
            old(self)@.state == VmmState::VmRunning ==> forall|i: int|
                0 <= i < old(self)@.pending.len() ==> queues_countable(
                    (#[trigger] old(self)@.pending[i]).kind,
                ),
        ensures
            (final(self)@, flow(r)) == if old(self)@.state != VmmState::VmRunning {
                (
                    old(self)@,
                    Flow::Done(
                        Err(
                            message(
                                "cannot handle pending devices with VMM state "@ + vmm_state_text(
                                    old(self)@.state,
                                ),
                            ),
                        ),
                    ),
                )
            } else {
                pending_handled(old(self)@, replies@)
            },
    {
        if self.state != VmmState::VmRunning {
            return Ok(
                Err(
                    Error::msg(
                        cat2(
                            "cannot handle pending devices with VMM state ",
                            self.state.name(),
                        ),
                    ),
                ),
            );
        }
        let mut rest: Vec<AddReplies> = replies;
        while self.pending_devices.len() > 0
            invariant
                self@.state == VmmState::VmRunning,
                old(self)@.state == VmmState::VmRunning,
                forall|i: int|
                    0 <= i < self@.pending.len() ==> queues_countable(
                        (#[trigger] self@.pending[i]).kind,
                    ),
                pending_handled(old(self)@, replies@) == pending_handled(self@, rest@),
            decreases self.pending_devices@.len(),
        {
            let ghost before = self@;
            let ghost left = rest@;
            let device = match self.pending_devices.pop() {
                Some(device) => device,
                None => {
                    return Ok(Ok(()));
                },
            };
            assert(device == before.pending.last());
            assert(self@.pending =~= before.pending.drop_last());
            let next = if rest.len() == 0 {
                AddReplies { path: None, fds: None, response: None, removed: None }
            } else {
                let next = rest.remove(0);
                assert(rest@ =~= left.drop_first());
                next
            };
            assert(queues_countable(before.pending[before.pending.len() - 1].kind));
            assert forall|i: int| 0 <= i < self@.pending.len() implies queues_countable(
                (#[trigger] self@.pending[i]).kind,
            ) by {
                assert(self@.pending[i] == before.pending[i]);
            }
            let ghost popped = self@;
            match self.handle_add_device(&device, next)? {
                Ok(_) => {},
                Err(error) => {
                    return Ok(Err(error.context_str("add_device")));
                },
            }
            assert(self@.pending == popped.pending);
        }
        Ok(Ok(()))
    }

    fn inner_remove_device(
        &mut self,
        device_id: &str,
        stable_vmm_id: Option<&str>,
        removed: Option<Result<Option<String>, Error>>,
    ) -> (r: Result<Result<(), Error>, ChCommand>)
        ensures
            (final(self)@, flow(r)) == id_removed(
                old(self)@,
                device_id@,
                match stable_vmm_id {
                    Some(id) => Some(id@),
                    None => None,
                },
                removed,
            ),
    {
        let known: Option<String> = match self.device_ids.get(device_id) {
            Some(id) => Some(id.clone()),
            None => match stable_vmm_id {
                Some(id) => Some(id.to_owned()),
                None => None,
            },
        };
        let vmm_id = match known {
            Some(id) => id,
            None => {
                return Ok(
                    Err(
                        Error::msg(
                            cat3(
                                "cannot detach runtime device ",
                                device_id,
                                ": Cloud Hypervisor device identity is missing",
                            ),
                        ),
                    ),
                );
            },
        };
        let removed = match removed {
            Some(removed) => removed,
            None => {
                return Err(ChCommand::RemoveDevice(vmm_id));
            },
        };
        match removal_result(removed) {
            Ok(_) => {
                let _ = self.device_ids.remove(device_id);
                Ok(Ok(()))
            },
            Err(error) => Ok(
                Err(
                    error.context(
                        cat5(
                            "Cloud Hypervisor failed to detach runtime device ",
                            device_id,
                            " (VMM device ",
                            vmm_id.as_str(),
                            ")",
                        ),
                    ),
                ),
            ),
        }
    }

    /// Removes a device. A block device that is gone has no path in the guest any more.
    pub fn remove_device(
        &mut self,
        device: &mut Device,
        removed: Option<Result<Option<String>, Error>>,
    ) -> (r: Result<Result<(), Error>, ChCommand>)
        ensures
            (final(self)@, flow(r)) == device_removed(old(self)@, *old(device), removed),
            *final(device) == if r matches Ok(Ok(())) {
                unplaced(*old(device))
            } else {
                *old(device)
            },
    {
        match &mut device.kind {
            DeviceType::Vfio(vfio) => self.inner_remove_device(
                vfio.device_id.as_str(),
                None,
                removed,
            ),
            DeviceType::BlockModern(block) => {
                match self.inner_remove_device(
                    block.device_id.as_str(),
                    Some(block.device_id.as_str()),
                    removed,
                )? {
                    Ok(()) => {
                        block.config.pci_path = None;
                        Ok(Ok(()))
                    },
                    Err(error) => Ok(Err(error)),
                }
            },
            _ => Ok(Ok(())),
        }
    }
}

/// The identity of a block device that could not be plugged in is kept exactly where the device may
/// be there all the same: while the answer is out, and where the failure leaves it in doubt.
pub proof fn law_identity_kept_while_in_doubt(
    m: InnerModel,
    device: BlockDeviceModern,
    replies: AddReplies,
)
    requires
        replies.response matches Some(AddResponse::Failed(error)) ==> !names_doubt(
            error.deep_view(),
        ),
    ensures
        ({
            let (after, came) = block_handled(m, device, replies);
            after.device_ids.contains_key(device.device_id@) <==> match came {
                Flow::Waiting(_) => true,
                Flow::Done(Ok(_)) => true,
                Flow::Done(Err(error)) => names_doubt(error),
            }
        }),
{
    let (after, came) = block_handled(m, device, replies);
    if let Flow::Done(Err(error)) = came {
        if after.device_ids.contains_key(device.device_id@) {
            assert(error[1] is InDoubt);
        } else {
            match replies.response {
                Some(AddResponse::Failed(cause)) => {
                    assert forall|i: int| 0 <= i < error.len() implies !((
                    #[trigger] error[i]) is InDoubt) by {
                        if i > 0 {
                            assert(error[i] == cause.deep_view()[i - 1]);
                        }
                    }
                },
                Some(AddResponse::Identity { detail: _, info: Ok(info) }) => {
                    if info.id@ == device.device_id@ {
                        let cause = bdf_path(info.bdf@)->Err_0;
                        assert(cause.len() == 1 && cause[0] is Message);
                    }
                },
                _ => {},
            }
        }
    }
}

/// Whatever a failed addition leaves in doubt can be taken back: a removal asks for the very
/// identity that the hypervisor may know the device by, and forgets it once the device is gone.
pub proof fn law_doubtful_device_can_be_removed(
    m: InnerModel,
    device: BlockDeviceModern,
    replies: AddReplies,
    gone: Result<Option<String>, Error>,
)
    requires
        block_handled(m, device, replies).1 matches Flow::Done(Err(_)),
        block_handled(m, device, replies).0.device_ids.contains_key(device.device_id@),
        removal_of(outcome(gone)) is Ok,
    ensures
        ({
            let id = device.device_id@;
            let doubtful = block_handled(m, device, replies).0;
            &&& id_removed(doubtful, id, Some(id), None) == (
                doubtful,
                Flow::<(), ChModel>::Waiting(ChModel::RemoveDevice(doubtful.device_ids[id])),
            )
            &&& id_removed(doubtful, id, Some(id), Some(gone)) == (
                without_id(doubtful, id),
                Flow::<(), ChModel>::Done(Ok(())),
            )
        }),
{
}

} // verus!
