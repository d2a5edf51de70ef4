//! What Cloud Hypervisor is told of a device.
//!
//! A configuration holds what this library decides; whatever else the API knows of a device keeps
//! the default that the API has for it.
use crate::block_device::BlockConfigModern;
use crate::error::{dup_option, message, Error, ErrorModel};
use crate::path::{join_path, path_within};
use crate::qmp::session::outcome;
use vstd::prelude::*;

verus! {

/// A network interface of a sandbox.
#[derive(Clone, Debug)]
pub struct NetworkConfig {
    /// The name of the tap device on the host.
    pub host_dev_name: String,
    /// The name of the interface in the guest.
    pub virt_iface_name: String,
    pub queue_size: usize,
    /// The number of queue pairs, each of one receive and one transmit queue.
    pub queue_num: usize,
    pub guest_mac: Option<[u8; 6]>,
    pub allow_duplicate_mac: bool,
    pub use_shared_irq: Option<bool>,
    pub use_generic_irq: Option<bool>,
}

/// A file system that a sandbox shares with the host.
#[derive(Clone, Debug)]
pub struct ShareFsConfig {
    pub fs_type: String,
    pub sock_path: String,
    pub mount_tag: String,
    pub queue_size: u64,
    pub queue_num: u64,
}

/// A shared file system of the virtual machine at `vm_path`.
#[derive(Clone, Debug)]
pub struct ShareFsSettings {
    pub cfg: ShareFsConfig,
    pub vm_path: String,
}

impl ShareFsSettings {
    pub fn new(cfg: ShareFsConfig, vm_path: String) -> (r: Self)
        ensures
            r == (ShareFsSettings { cfg, vm_path }),
    {
        ShareFsSettings { cfg, vm_path }
    }
}

/// A shared file system, as Cloud Hypervisor sees it.
#[derive(Clone, Debug, PartialEq, Eq)]
pub struct FsConfig {
    pub tag: String,
    pub socket: String,
    pub num_queues: usize,
    pub queue_size: u16,
    /// The PCI segment, where it is not the default one.
    pub pci_segment: Option<u16>,
}

/// The model of an [`FsConfig`].
pub struct FsModel {
    pub tag: Seq<char>,
    pub socket: Seq<char>,
    pub num_queues: usize,
    pub queue_size: u16,
    pub pci_segment: Option<u16>,
}

impl DeepView for FsConfig {
    type V = FsModel;

    open spec fn deep_view(&self) -> FsModel {
        FsModel {
            tag: self.tag@,
            socket: self.socket@,
            num_queues: self.num_queues,
            queue_size: self.queue_size,
            pci_segment: self.pci_segment,
        }
    }
}

/// A network interface, as Cloud Hypervisor sees it.
#[derive(Clone, Debug, PartialEq, Eq)]
pub struct NetConfig {
    pub tap: Option<String>,
    pub id: Option<String>,
    pub num_queues: usize,
    pub queue_size: u16,
    pub mac: [u8; 6],
    /// The descriptors of an open tap device, which stand in place of its name.
    pub fds: Option<Vec<i32>>,
}

/// The model of a [`NetConfig`].
pub struct NetModel {
    pub tap: Option<Seq<char>>,
    pub id: Option<Seq<char>>,
    pub num_queues: usize,
    pub queue_size: u16,
    pub mac: [u8; 6],
    pub fds: Option<Seq<i32>>,
}

impl DeepView for NetConfig {
    type V = NetModel;

    open spec fn deep_view(&self) -> NetModel {
        NetModel {
            tap: self.tap.deep_view(),
            id: self.id.deep_view(),
            num_queues: self.num_queues,
            queue_size: self.queue_size,
            mac: self.mac,
            fds: match self.fds {
                Some(fds) => Some(fds@),
                None => None,
            },
        }
    }
}

/// How fast a disk may be used; zero sets no limit.
#[derive(Clone, Copy, Debug, PartialEq, Eq, Structural)]
pub struct RateLimits {
    pub bw_max_rate: u64,
    pub ops_max_rate: u64,
    pub bw_one_time_burst: u64,
    pub ops_one_time_burst: u64,
}

/// The format of a disk image.
#[derive(Clone, Copy, Debug, PartialEq, Eq, Structural)]
pub enum ImageType {
    Raw,
}

/// A disk, as Cloud Hypervisor sees it.
#[derive(Clone, Debug, PartialEq, Eq)]
pub struct DiskConfig {
    pub path: Option<String>,
    pub id: Option<String>,
    pub readonly: bool,
    pub direct: bool,
    pub sparse: bool,
    pub num_queues: usize,
    pub queue_size: u16,
    pub image_type: ImageType,
    pub rate_limits: Option<RateLimits>,
}

/// The model of a [`DiskConfig`].
pub struct DiskConfigModel {
    pub path: Option<Seq<char>>,
    pub id: Option<Seq<char>>,
    pub readonly: bool,
    pub direct: bool,
    pub sparse: bool,
    pub num_queues: usize,
    pub queue_size: u16,
    pub image_type: ImageType,
    pub rate_limits: Option<RateLimits>,
}

impl DeepView for DiskConfig {
    type V = DiskConfigModel;

    open spec fn deep_view(&self) -> DiskConfigModel {
        DiskConfigModel {
            path: self.path.deep_view(),
            id: self.id.deep_view(),
            readonly: self.readonly,
            direct: self.direct,
            sparse: self.sparse,
            num_queues: self.num_queues,
            queue_size: self.queue_size,
            image_type: self.image_type,
            rate_limits: self.rate_limits,
        }
    }
}

/// A device of the host, as Cloud Hypervisor sees it.
#[derive(Clone, Debug, PartialEq, Eq)]
pub struct DeviceConfig {
    pub path: String,
    pub iommu: bool,
}

/// The model of a [`DeviceConfig`].
pub struct DeviceModel {
    pub path: Seq<char>,
    pub iommu: bool,
}

impl DeepView for DeviceConfig {
    type V = DeviceModel;

    open spec fn deep_view(&self) -> DeviceModel {
        DeviceModel { path: self.path@, iommu: self.iommu }
    }
}

/// A socket between host and guest, as Cloud Hypervisor sees it.
#[derive(Clone, Debug, PartialEq, Eq)]
pub struct VsockConfig {
    pub cid: u32,
    pub socket: String,
}

/// The model of a [`VsockConfig`].
pub struct VsockModel {
    pub cid: u32,
    pub socket: Seq<char>,
}

impl DeepView for VsockConfig {
    type V = VsockModel;

    open spec fn deep_view(&self) -> VsockModel {
        VsockModel { cid: self.cid, socket: self.socket@ }
    }
}

/// What the firmware of a protected guest measures.
#[derive(Clone, Debug, PartialEq, Eq)]
pub struct ProtectionDevConfig {
    pub host_data: Option<Vec<u8>>,
    pub mrconfigid: Option<Vec<u8>>,
}

/// Why a number does not fit.
pub open spec fn out_of_range() -> Seq<char> {
    "out of range integral type conversion attempted"@
}

/// A network interface for Cloud Hypervisor; it needs an address.
pub open spec fn net_config_of(cfg: NetworkConfig) -> Result<NetModel, ErrorModel> {
    match cfg.guest_mac {
        Some(mac) => Ok(
            NetModel {
                tap: Some(cfg.host_dev_name@),
                id: Some(cfg.virt_iface_name@),
                num_queues: cfg.queue_num,
                queue_size: cfg.queue_size as u16,
                mac,
                fds: None,
            },
        ),
        None => Err(message("Missing mac address for network device"@)),
    }
}

impl NetConfig {
    /// A network interface for Cloud Hypervisor; it needs an address.
    pub fn from_network(cfg: &NetworkConfig) -> (r: Result<NetConfig, Error>)
        ensures
            outcome(r) == net_config_of(*cfg),
    {
        match cfg.guest_mac {
            Some(mac) => Ok(
                NetConfig {
                    tap: Some(cfg.host_dev_name.clone()),
                    id: Some(cfg.virt_iface_name.clone()),
                    num_queues: cfg.queue_num,
                    queue_size: #[verifier::truncate]
                    (cfg.queue_size as u16),
                    mac,
                    fds: None,
                },
            ),
            None => Err(Error::msg_str("Missing mac address for network device")),
        }
    }
}

/// A disk for Cloud Hypervisor, as far as the block device itself decides.
pub open spec fn disk_config_of(cfg: BlockConfigModern) -> DiskConfigModel {
    DiskConfigModel {
        path: Some(cfg.path_on_host@),
        id: None,
        readonly: cfg.is_readonly,
        direct: false,
        sparse: cfg.discard_unmap,
        num_queues: cfg.num_queues,
        queue_size: cfg.queue_size as u16,
        image_type: ImageType::Raw,
        rate_limits: None,
    }
}

impl DiskConfig {
    /// A disk for Cloud Hypervisor, as far as the block device itself decides.
    pub fn from_block(cfg: &BlockConfigModern) -> (r: DiskConfig)
        ensures
            r.deep_view() == disk_config_of(*cfg),
    {
        DiskConfig {
            path: Some(cfg.path_on_host.clone()),
            id: None,
            readonly: cfg.is_readonly,
            direct: false,
            sparse: cfg.discard_unmap,
            num_queues: cfg.num_queues,
            queue_size: #[verifier::truncate]
            (cfg.queue_size as u16),
            image_type: ImageType::Raw,
            rate_limits: None,
        }
    }

    /// A copy of the configuration.
    pub fn dup(&self) -> (r: DiskConfig)
        ensures
            r.deep_view() == self.deep_view(),
    {
        DiskConfig {
            path: dup_option(&self.path),
            id: dup_option(&self.id),
            readonly: self.readonly,
            direct: self.direct,
            sparse: self.sparse,
            num_queues: self.num_queues,
            queue_size: self.queue_size,
            image_type: self.image_type,
            rate_limits: self.rate_limits,
        }
    }
}

/// A shared file system for Cloud Hypervisor, over the socket at that path.
pub open spec fn fs_config_of(
    cfg: ShareFsConfig,
    socket: Seq<char>,
    pci_segment: Option<u16>,
) -> Result<FsModel, ErrorModel> {
    if cfg.queue_size > u16::MAX {
        Err(message(out_of_range()))
    } else {
        Ok(
            FsModel {
                tag: cfg.mount_tag@,
                socket,
                num_queues: cfg.queue_num as usize,
                queue_size: cfg.queue_size as u16,
                pci_segment,
            },
        )
    }
}

impl FsConfig {
    /// A shared file system for Cloud Hypervisor. A socket path that is not absolute is one within
    /// the directory of the virtual machine.
    pub fn from_settings(settings: &ShareFsSettings) -> (r: Result<FsConfig, Error>)
        ensures
            outcome(r) == fs_config_of(
                settings.cfg,
                path_within(settings.vm_path@, settings.cfg.sock_path@),
                None,
            ),
    {
        let cfg = &settings.cfg;
        if cfg.queue_size > u16::MAX as u64 {
            return Err(Error::msg_str("out of range integral type conversion attempted"));
        }
        Ok(
            FsConfig {
                tag: cfg.mount_tag.clone(),
                socket: join_path(settings.vm_path.as_str(), cfg.sock_path.as_str()),
                num_queues: #[verifier::truncate]
                (cfg.queue_num as usize),
                queue_size: cfg.queue_size as u16,
                pci_segment: None,
            },
        )
    }
}

} // verus!
