//! The devices that a virtual machine under Cloud Hypervisor boots with.
use crate::block_device::BlockConfigModern;
use crate::ch::config::{
    fs_config_of, DeviceConfig, DeviceModel, DiskConfig, DiskConfigModel, FsConfig, FsModel,
    NetConfig, NetModel, NetworkConfig, ProtectionDevConfig, ShareFsConfig, ShareFsSettings,
};
use crate::ch::device::{
    boots_from, disk_config_under, net_config_over_fds, ChCommand, ChModel, CloudHypervisorInner,
    Device, DeviceStep, DeviceType, InnerModel, ProtectionDeviceConfig, Settings,
};
use crate::error::{error_text, in_context, message, Error, ErrorModel};
use crate::path::{file_name, file_name_of, join_path, path_within};
use crate::qmp::session::{flow, outcome, Flow};
use crate::table::push_item;
use crate::text::{cat2, debug_path_text, quoted_path};
use vstd::prelude::*;

verus! {

/// The devices that a virtual machine boots with.
#[derive(Debug)]
pub struct SharedDevices {
    pub shared_fs_devices: Vec<FsConfig>,
    pub network_devices: Vec<NetConfig>,
    pub host_devices: Vec<DeviceConfig>,
    pub protection_device: ProtectionDevConfig,
    pub boot_disks: Vec<DiskConfig>,
}

/// The model of [`SharedDevices`].
pub struct SharedModel {
    pub fs: Seq<FsModel>,
    pub net: Seq<NetModel>,
    pub host: Seq<DeviceModel>,
    pub protection: ProtectionDevConfig,
    pub disks: Seq<DiskConfigModel>,
}

impl DeepView for SharedDevices {
    type V = SharedModel;

    open spec fn deep_view(&self) -> SharedModel {
        SharedModel {
            fs: self.shared_fs_devices.deep_view(),
            net: self.network_devices.deep_view(),
            host: self.host_devices.deep_view(),
            protection: self.protection_device,
            disks: self.boot_disks.deep_view(),
        }
    }
}

/// A reply to what the collection of the devices needed.
#[derive(Debug)]
pub enum SharedReply {
    Done(Result<(), Error>),
    /// The descriptors of the open tap device.
    Fds(Result<Vec<i32>, Error>),
    /// How the block device is configured now.
    Config(BlockConfigModern),
}

/// What came of something that has no result of its own. A reply of another kind is a failure.
pub open spec fn done_of(reply: SharedReply) -> Result<(), ErrorModel> {
    match reply {
        SharedReply::Done(done) => outcome(done),
        _ => Err(message("unexpected reply"@)),
    }
}

/// The descriptors in a reply. A reply of another kind is a failure.
pub open spec fn fds_of(reply: SharedReply) -> Result<Seq<i32>, ErrorModel> {
    match reply {
        SharedReply::Fds(Ok(fds)) => Ok(fds@),
        SharedReply::Fds(Err(error)) => Err(error.deep_view()),
        _ => Err(message("unexpected reply"@)),
    }
}

/// What one device adds to those that the virtual machine boots with.
pub enum SharedStep {
    /// A reply is needed first.
    Waiting(ChModel),
    Failed(ErrorModel),
    /// The devices with this one, and the replies that are left.
    Next(SharedModel, Seq<SharedReply>),
}

/// A shared file system over a socket within the directory of the virtual machine. Without root
/// privileges the hypervisor gets a link to the socket in place of its path, which may be too long
/// for one.
pub open spec fn fs_shared(
    settings: Settings,
    config: ShareFsConfig,
    shared: SharedModel,
    replies: Seq<SharedReply>,
) -> SharedStep {
    let socket = path_within(settings.vm_path@, config.sock_path@);
    match fs_config_of(config, socket, None) {
        Err(error) => SharedStep::Failed(error),
        Ok(fs) => match settings.rootless_link_root {
            None => SharedStep::Next(
                SharedModel { fs: shared.fs.push(fs), ..shared },
                replies,
            ),
            Some(root) => if replies.len() == 0 {
                SharedStep::Waiting(ChModel::CreateDir(root@))
            } else if let Err(error) = done_of(replies[0]) {
                SharedStep::Failed(
                    message(
                        "failed to create rootless sharefs symlink jailer root dir: "@
                            + error_text(error),
                    ),
                )
            } else {
                match file_name_of(socket) {
                    None => SharedStep::Failed(
                        message(
                            "failed to get virtiofsd socket file name from path: "@ + debug_path_text(
                                socket,
                            ),
                        ),
                    ),
                    Some(name) => {
                        let link = path_within(root@, name);
                        if replies.len() == 1 {
                            SharedStep::Waiting(ChModel::Symlink { target: socket, link })
                        } else if let Err(error) = done_of(replies[1]) {
                            SharedStep::Failed(
                                message(
                                    "failed to create symlink for rootless sharefs socket: "@
                                        + error_text(error),
                                ),
                            )
                        } else {
                            SharedStep::Next(
                                SharedModel {
                                    fs: shared.fs.push(FsModel { socket: link, ..fs }),
                                    ..shared
                                },
                                replies.skip(2),
                            )
                        }
                    },
                }
            },
        },
    }
}

/// A network interface whose tap device is opened in the network namespace of the sandbox.
pub open spec fn network_shared(
    settings: Settings,
    config: NetworkConfig,
    shared: SharedModel,
    replies: Seq<SharedReply>,
) -> SharedStep {
    let netns = match settings.netns {
        Some(netns) => netns@,
        None => seq![],
    };
    match net_config_over_fds(config, settings.network_queues as usize) {
        Err(error) => SharedStep::Failed(error),
        Ok(net) => if replies.len() == 0 {
            SharedStep::Waiting(ChModel::EnterNetns(netns))
        } else if let Err(error) = done_of(replies[0]) {
            SharedStep::Failed(in_context(error, "new netns guard"@))
        } else if replies.len() == 1 {
            SharedStep::Waiting(
                ChModel::OpenTap { name: config.host_dev_name@, queues: settings.network_queues },
            )
        } else {
            match fds_of(replies[1]) {
                Err(error) => SharedStep::Failed(in_context(error, "open named tuntap"@)),
                Ok(fds) => SharedStep::Next(
                    SharedModel {
                        net: shared.net.push(NetModel { fds: Some(fds), ..net }),
                        ..shared
                    },
                    replies.skip(2),
                ),
            }
        },
    }
}

/// What protects the guest, with this device.
pub open spec fn protection_with(
    protection: ProtectionDevConfig,
    device: ProtectionDeviceConfig,
) -> ProtectionDevConfig {
    match device {
        ProtectionDeviceConfig::SevSnp { is_snp, host_data } => if is_snp {
            ProtectionDevConfig { host_data, ..protection }
        } else {
            protection
        },
        ProtectionDeviceConfig::Tdx { mrconfigid } => ProtectionDevConfig {
            mrconfigid,
            ..protection
        },
        ProtectionDeviceConfig::Other => protection,
    }
}

/// A disk that is there at boot. The files that the virtual machine boots from are there anyway,
/// and a disk that the guest finds by its serial cannot be told to the hypervisor.
pub open spec fn disk_shared(
    settings: Settings,
    id: Seq<char>,
    shared: SharedModel,
    replies: Seq<SharedReply>,
) -> SharedStep {
    if replies.len() == 0 {
        SharedStep::Waiting(ChModel::CurrentConfig(id))
    } else {
        match replies[0] {
            SharedReply::Config(config) => SharedStep::Next(
                if boots_from(settings, config.path_on_host@) || config.serial_override@.len()
                    != 0 {
                    shared
                } else {
                    SharedModel {
                        disks: shared.disks.push(disk_config_under(settings, config)),
                        ..shared
                    }
                },
                replies.drop_first(),
            ),
            _ => SharedStep::Failed(message("unexpected reply"@)),
        }
    }
}

/// What one device adds to those that the virtual machine boots with.
pub open spec fn device_shared(
    settings: Settings,
    device: Device,
    shared: SharedModel,
    replies: Seq<SharedReply>,
) -> SharedStep {
    match device.kind {
        DeviceType::ShareFs(config) => fs_shared(settings, config, shared, replies),
        DeviceType::Network(config) => network_shared(settings, config, shared, replies),
        DeviceType::Vfio(vfio) => if vfio.devices@.len() == 0 {
            SharedStep::Failed(
                message("Primary device list empty for vfio device "@ + device.described@),
            )
        } else {
            SharedStep::Next(
                SharedModel {
                    host: shared.host.push(
                        DeviceModel { path: vfio.devices@[0].sysfs_path@, iommu: false },
                    ),
                    ..shared
                },
                replies,
            )
        },
        DeviceType::Protection(protection) => SharedStep::Next(
            SharedModel {
                protection: protection_with(shared.protection, protection),
                ..shared
            },
            replies,
        ),
        DeviceType::BlockModern(block) => disk_shared(
            settings,
            block.device_id@,
            shared,
            replies,
        ),
        _ => SharedStep::Next(shared, replies),
    }
}

/// The devices that waited are collected, the oldest one first.
pub open spec fn all_shared(m: InnerModel, shared: SharedModel, replies: Seq<SharedReply>) -> DeviceStep<
    SharedModel,
>
    decreases m.pending.len(),
{
    if m.pending.len() == 0 {
        (m, Flow::Done(Ok(shared)))
    } else {
        let popped = InnerModel { pending: m.pending.drop_last(), ..m };
        match device_shared(m.settings, m.pending.last(), shared, replies) {
            SharedStep::Waiting(command) => (popped, Flow::Waiting(command)),
            SharedStep::Failed(error) => (popped, Flow::Done(Err(error))),
            SharedStep::Next(shared, replies) => all_shared(popped, shared, replies),
        }
    }
}

/// No device.
pub open spec fn none_shared() -> SharedModel {
    SharedModel {
        fs: seq![],
        net: seq![],
        host: seq![],
        protection: ProtectionDevConfig { host_data: None, mrconfigid: None },
        disks: seq![],
    }
}

/// How far a device has come, as a model. `Ok(None)` has it done.
pub open spec fn shared_step(
    r: Result<Result<(), Error>, ChCommand>,
    shared: SharedModel,
    replies: Seq<SharedReply>,
) -> SharedStep {
    match r {
        Err(command) => SharedStep::Waiting(command.deep_view()),
        Ok(Err(error)) => SharedStep::Failed(error.deep_view()),
        Ok(Ok(())) => SharedStep::Next(shared, replies),
    }
}

fn next_reply(replies: &mut Vec<SharedReply>, command: ChCommand) -> (r: Result<
    SharedReply,
    ChCommand,
>)
    ensures
        match r {
            Ok(reply) => old(replies)@.len() > 0 && reply == old(replies)@[0] && final(replies)@
                == old(replies)@.drop_first(),
            Err(waiting) => old(replies)@.len() == 0 && waiting == command && final(replies)@
                == old(replies)@,
        },
{
    if replies.len() == 0 {
        return Err(command);
    }
    let reply = replies.remove(0);
    assert(replies@ =~= old(replies)@.drop_first());
    Ok(reply)
}

fn read_done(reply: SharedReply) -> (r: Result<(), Error>)
    ensures
        outcome(r) == done_of(reply),
{
    match reply {
        SharedReply::Done(done) => done,
        _ => Err(Error::msg_str("unexpected reply")),
    }
}

fn read_fds(reply: SharedReply) -> (r: Result<Vec<i32>, Error>)
    ensures
        match r {
            Ok(fds) => Ok::<Seq<i32>, ErrorModel>(fds@),
            Err(error) => Err(error.deep_view()),
        } == fds_of(reply),
{
    match reply {
        SharedReply::Fds(Ok(fds)) => Ok(fds),
        SharedReply::Fds(Err(error)) => Err(error),
        _ => Err(Error::msg_str("unexpected reply")),
    }
}

impl CloudHypervisorInner {
    fn share_fs(
        &self,
        config: ShareFsConfig,
        shared: &mut SharedDevices,
        replies: &mut Vec<SharedReply>,
    ) -> (r: Result<Result<(), Error>, ChCommand>)
        ensures
            shared_step(r, final(shared).deep_view(), final(replies)@) == fs_shared(
                self.settings,
                config,
                old(shared).deep_view(),
                old(replies)@,
            ),
    {
        let settings = ShareFsSettings::new(config, self.settings.vm_path.clone());
        let mut fs_config = match FsConfig::from_settings(&settings) {
            Ok(fs_config) => fs_config,
            Err(error) => {
                return Ok(Err(error));
            },
        };
        if let Some(root) = &self.settings.rootless_link_root {
            let ghost all = replies@;
            let reply = next_reply(replies, ChCommand::CreateDir(root.clone()))?;
            if let Err(error) = read_done(reply) {
                return Ok(
                    Err(
                        Error::msg(
                            cat2(
                                "failed to create rootless sharefs symlink jailer root dir: ",
                                error.text().as_str(),
                            ),
                        ),
                    ),
                );
            }
            let name = match file_name(fs_config.socket.as_str()) {
                Some(name) => name,
                None => {
                    return Ok(
                        Err(
                            Error::msg(
                                cat2(
                                    "failed to get virtiofsd socket file name from path: ",
                                    quoted_path(fs_config.socket.as_str()).as_str(),
                                ),
                            ),
                        ),
                    );
                },
            };
            let link = join_path(root.as_str(), name.as_str());
            let reply = next_reply(
                replies,
                ChCommand::Symlink { target: fs_config.socket.clone(), link: link.clone() },
            )?;
            assert(reply == all[1]);
            assert(replies@ =~= all.skip(2));
            if let Err(error) = read_done(reply) {
                return Ok(
                    Err(
                        Error::msg(
                            cat2(
                                "failed to create symlink for rootless sharefs socket: ",
                                error.text().as_str(),
                            ),
                        ),
                    ),
                );
            }
            fs_config.socket = link;
        }
        push_item(&mut shared.shared_fs_devices, fs_config);
        Ok(Ok(()))
    }

    fn share_network(
        &self,
        config: &NetworkConfig,
        shared: &mut SharedDevices,
        replies: &mut Vec<SharedReply>,
    ) -> (r: Result<Result<(), Error>, ChCommand>)
        requires
            2 * self.settings.network_queues <= usize::MAX,
        ensures
            shared_step(r, final(shared).deep_view(), final(replies)@) == network_shared(
                self.settings,
                *config,
                old(shared).deep_view(),
                old(replies)@,
            ),
    {
        let pairs: usize = self.settings.network_queues as usize;
        let mut net_config = match NetConfig::from_network(config) {
            Ok(net_config) => net_config,
            Err(error) => {
                return Ok(Err(error));
            },
        };
        net_config.tap = None;
        net_config.id = None;
        net_config.num_queues = 2 * pairs;
        let netns = match &self.settings.netns {
            Some(netns) => netns.clone(),
            None => String::new(),
        };
        let ghost all = replies@;
        assert(self.settings.netns is None ==> netns@ =~= seq![]);
        let reply = next_reply(replies, ChCommand::EnterNetns(netns))?;
        if let Err(error) = read_done(reply) {
            return Ok(Err(error.context_str("new netns guard")));
        }
        let reply = next_reply(
            replies,
            ChCommand::OpenTap {
                name: config.host_dev_name.clone(),
                queues: self.settings.network_queues,
            },
        )?;
        assert(reply == all[1]);
        assert(replies@ =~= all.skip(2));
        match read_fds(reply) {
            Err(error) => Ok(Err(error.context_str("open named tuntap"))),
            Ok(fds) => {
                net_config.fds = Some(fds);
                push_item(&mut shared.network_devices, net_config);
                Ok(Ok(()))
            },
        }
    }

    fn share_disk(
        &self,
        device_id: &str,
        shared: &mut SharedDevices,
        replies: &mut Vec<SharedReply>,
    ) -> (r: Result<Result<(), Error>, ChCommand>)
        ensures
            shared_step(r, final(shared).deep_view(), final(replies)@) == disk_shared(
                self.settings,
                device_id@,
                old(shared).deep_view(),
                old(replies)@,
            ),
    {
        match next_reply(replies, ChCommand::CurrentConfig(device_id.to_owned()))? {
            SharedReply::Config(config) => {
                if !self.is_vm_boot_file(config.path_on_host.as_str())
                    && config.serial_override.as_str().unicode_len() == 0 {
                    let disk = self.make_disk_config(&config);
                    push_item(&mut shared.boot_disks, disk);
                }
                Ok(Ok(()))
            },
            _ => Ok(Err(Error::msg_str("unexpected reply"))),
        }
    }

    fn share_device(
        &self,
        device: Device,
        shared: &mut SharedDevices,
        replies: &mut Vec<SharedReply>,
    ) -> (r: Result<Result<(), Error>, ChCommand>)
        requires
            2 * self.settings.network_queues <= usize::MAX,
        ensures
            shared_step(r, final(shared).deep_view(), final(replies)@) == device_shared(
                self.settings,
                device,
                old(shared).deep_view(),
                old(replies)@,
            ),
    {
        match device.kind {
            DeviceType::ShareFs(config) => self.share_fs(config, shared, replies),
            DeviceType::Network(config) => self.share_network(&config, shared, replies),
            DeviceType::Vfio(vfio) => {
                if vfio.devices.len() == 0 {
                    return Ok(
                        Err(
                            Error::msg(
                                cat2(
                                    "Primary device list empty for vfio device ",
                                    device.described.as_str(),
                                ),
                            ),
                        ),
                    );
                }
                push_item(
                    &mut shared.host_devices,
                    DeviceConfig { path: vfio.devices[0].sysfs_path.clone(), iommu: false },
                );
                Ok(Ok(()))
            },
            DeviceType::Protection(protection) => {
                match protection {
                    ProtectionDeviceConfig::SevSnp { is_snp, host_data } => {
                        if is_snp {
                            shared.protection_device.host_data = host_data;
                        }
                    },
                    ProtectionDeviceConfig::Tdx { mrconfigid } => {
                        shared.protection_device.mrconfigid = mrconfigid;
                    },
                    ProtectionDeviceConfig::Other => {},
                }
                Ok(Ok(()))
            },
            DeviceType::BlockModern(block) => self.share_disk(
                block.device_id.as_str(),
                shared,
                replies,
            ),
            DeviceType::HybridVsock(_) | DeviceType::Other => Ok(Ok(())),
        }
    }

    /// Collects the devices that waited for the virtual machine, for it to boot with. A block
    /// device is shared with its owner: how it is configured is looked up here.
    pub fn get_shared_devices(&mut self, replies: Vec<SharedReply>) -> (r: Result<
        Result<SharedDevices, Error>,
        ChCommand,
    >)
        requires
            2 * old(self).settings.network_queues <= usize::MAX,
        ensures
            (final(self)@, flow(r)) == all_shared(old(self)@, none_shared(), replies@),
    {
        let mut rest: Vec<SharedReply> = replies;
        let mut shared = SharedDevices {
            shared_fs_devices: Vec::new(),
            network_devices: Vec::new(),
            host_devices: Vec::new(),
            protection_device: ProtectionDevConfig { host_data: None, mrconfigid: None },
            boot_disks: Vec::new(),
        };
        proof {
            assert(shared.deep_view().fs =~= seq![]);
            assert(shared.deep_view().net =~= seq![]);
            assert(shared.deep_view().host =~= seq![]);
            assert(shared.deep_view().disks =~= seq![]);
        }
        loop
            invariant
                2 * self.settings.network_queues <= usize::MAX,
                all_shared(old(self)@, none_shared(), replies@) == all_shared(
                    self@,
                    shared.deep_view(),
                    rest@,
                ),
            decreases self.pending_devices@.len(),
        {
            let ghost before = self@;
            let device = match self.pending_devices.pop() {
                Some(device) => device,
                None => {
                    assert(self@ == before);
                    return Ok(Ok(shared));
                },
            };
            assert(device == before.pending.last());
            assert(self@.pending =~= before.pending.drop_last());
            match self.share_device(device, &mut shared, &mut rest)? {
                Ok(()) => {},
                Err(error) => {
                    return Ok(Err(error));
                },
            }
        }
    }
}

/// The devices that waited come in the order in which they were added: whatever an older device
/// needs or fails with comes before anything of a younger one.
pub proof fn law_oldest_device_first(
    m: InnerModel,
    device: Device,
    shared: SharedModel,
    replies: Seq<SharedReply>,
)
    requires
        all_shared(m, shared, replies).1 !is Done || all_shared(m, shared, replies).1->Done_0 is Err,
    ensures
        all_shared(InnerModel { pending: seq![device] + m.pending, ..m }, shared, replies).1
            == all_shared(m, shared, replies).1,
    decreases m.pending.len(),
{
    let queued = InnerModel { pending: seq![device] + m.pending, ..m };
    if m.pending.len() > 0 {
        let popped = InnerModel { pending: m.pending.drop_last(), ..m };
        assert(queued.pending.drop_last() =~= seq![device] + popped.pending);
        assert(queued.pending.last() == m.pending.last());
        if let SharedStep::Next(more, left) = device_shared(
            m.settings,
            m.pending.last(),
            shared,
            replies,
        ) {
            law_oldest_device_first(popped, device, more, left);
        }
    }
}

/// The shared file system of a device, without a link to its socket or with one.
pub open spec fn fs_entry(settings: Settings, config: ShareFsConfig) -> FsModel {
    let socket = path_within(settings.vm_path@, config.sock_path@);
    let fs = fs_config_of(config, socket, None)->Ok_0;
    match settings.rootless_link_root {
        None => fs,
        Some(root) => FsModel { socket: path_within(root@, file_name_of(socket)->0), ..fs },
    }
}

/// The shared file systems of devices, the oldest one first.
pub open spec fn queued_fs(settings: Settings, pending: Seq<Device>) -> Seq<FsModel>
    decreases pending.len(),
{
    if pending.len() == 0 {
        seq![]
    } else {
        let later = queued_fs(settings, pending.drop_last());
        match pending.last().kind {
            DeviceType::ShareFs(config) => seq![fs_entry(settings, config)] + later,
            _ => later,
        }
    }
}

/// A network interface without the descriptors of its tap device.
pub open spec fn without_fds(net: NetModel) -> NetModel {
    NetModel { fds: None, ..net }
}

/// Network interfaces without the descriptors of their tap devices.
pub open spec fn all_without_fds(nets: Seq<NetModel>) -> Seq<NetModel> {
    Seq::new(nets.len(), |i: int| without_fds(nets[i]))
}

/// The network interfaces of devices without their descriptors, the oldest one first.
pub open spec fn queued_net(settings: Settings, pending: Seq<Device>) -> Seq<NetModel>
    decreases pending.len(),
{
    if pending.len() == 0 {
        seq![]
    } else {
        let later = queued_net(settings, pending.drop_last());
        match pending.last().kind {
            DeviceType::Network(config) => seq![
                without_fds(
                    net_config_over_fds(config, settings.network_queues as usize)->Ok_0,
                ),
            ] + later,
            _ => later,
        }
    }
}

/// The devices of the host that are passed through, the oldest one first.
pub open spec fn queued_host(pending: Seq<Device>) -> Seq<DeviceModel>
    decreases pending.len(),
{
    if pending.len() == 0 {
        seq![]
    } else {
        let later = queued_host(pending.drop_last());
        match pending.last().kind {
            DeviceType::Vfio(vfio) => seq![
                DeviceModel { path: vfio.devices@[0].sysfs_path@, iommu: false },
            ] + later,
            _ => later,
        }
    }
}

/// What protects the guest with all devices, of which a younger one counts more.
pub open spec fn queued_protection(
    protection: ProtectionDevConfig,
    pending: Seq<Device>,
) -> ProtectionDevConfig
    decreases pending.len(),
{
    if pending.len() == 0 {
        protection
    } else {
        queued_protection(
            match pending.last().kind {
                DeviceType::Protection(device) => protection_with(protection, device),
                _ => protection,
            },
            pending.drop_last(),
        )
    }
}

/// The number of block devices.
pub open spec fn block_count(pending: Seq<Device>) -> nat
    decreases pending.len(),
{
    if pending.len() == 0 {
        0
    } else {
        block_count(pending.drop_last()) + if pending.last().kind is BlockModern {
            1nat
        } else {
            0nat
        }
    }
}

/// The configurations of block devices that came back, in their order.
pub open spec fn configs_in(replies: Seq<SharedReply>) -> Seq<BlockConfigModern>
    decreases replies.len(),
{
    if replies.len() == 0 {
        seq![]
    } else {
        match replies[0] {
            SharedReply::Config(config) => seq![config] + configs_in(replies.drop_first()),
            _ => configs_in(replies.drop_first()),
        }
    }
}

/// The disks that are there at boot, of block devices with these configurations.
pub open spec fn booted_disks(settings: Settings, configs: Seq<BlockConfigModern>) -> Seq<
    DiskConfigModel,
>
    decreases configs.len(),
{
    if configs.len() == 0 {
        seq![]
    } else {
        let later = booted_disks(settings, configs.drop_first());
        if boots_from(settings, configs[0].path_on_host@) || configs[0].serial_override@.len()
            != 0 {
            later
        } else {
            seq![disk_config_under(settings, configs[0])] + later
        }
    }
}

/// The descriptors and other replies that a device looks at hold no configuration, and the one that
/// a block device looks at holds its own.
proof fn lemma_configs_taken(
    settings: Settings,
    device: Device,
    shared: SharedModel,
    replies: Seq<SharedReply>,
)
    requires
        device_shared(settings, device, shared, replies) is Next,
    ensures
        ({
            let left = device_shared(settings, device, shared, replies)->Next_1;
            if device.kind is BlockModern {
                &&& configs_in(replies).len() > 0
                &&& replies[0] == SharedReply::Config(configs_in(replies)[0])
                &&& configs_in(left) == configs_in(replies).drop_first()
            } else {
                configs_in(left) == configs_in(replies)
            }
        }),
{
    let left = device_shared(settings, device, shared, replies)->Next_1;
    if device.kind is BlockModern {
        assert(configs_in(replies).drop_first() =~= configs_in(replies.drop_first()));
    } else if left != replies {
        assert(replies.len() >= 2);
        assert(replies.skip(2) =~= replies.drop_first().drop_first());
        reveal_with_fuel(configs_in, 3);
    }
}

/// What a virtual machine boots with is all that waited, and nothing else, in the order in which it
/// was added: one shared file system, interface or passed-through device for each that waited, what
/// protects the guest, and a disk for each block device that is neither booted from nor found by a
/// serial.
pub proof fn law_every_device_is_collected(
    m: InnerModel,
    before: SharedModel,
    replies: Seq<SharedReply>,
)
    ensures
        all_shared(m, before, replies).1 matches Flow::Done(Ok(shared)) ==> {
            &&& shared.fs == before.fs + queued_fs(m.settings, m.pending)
            &&& all_without_fds(shared.net) == all_without_fds(before.net) + queued_net(
                m.settings,
                m.pending,
            )
            &&& shared.host == before.host + queued_host(m.pending)
            &&& shared.protection == queued_protection(before.protection, m.pending)
            &&& block_count(m.pending) <= configs_in(replies).len()
            &&& shared.disks == before.disks + booted_disks(
                m.settings,
                configs_in(replies).take(block_count(m.pending) as int),
            )
            &&& all_shared(m, before, replies).0.pending.len() == 0
        },
    decreases m.pending.len(),
{
    let came = all_shared(m, before, replies).1;
    if came matches Flow::Done(Ok(shared)) {
        let shared = came->Done_0->Ok_0;
        if m.pending.len() == 0 {
            assert(before.fs + queued_fs(m.settings, m.pending) =~= before.fs);
            assert(all_without_fds(before.net) + queued_net(m.settings, m.pending)
                =~= all_without_fds(before.net));
            assert(before.host + queued_host(m.pending) =~= before.host);
            assert(before.disks + booted_disks(m.settings, configs_in(replies).take(0))
                =~= before.disks);
        } else {
            let device = m.pending.last();
            let popped = InnerModel { pending: m.pending.drop_last(), ..m };
            let step = device_shared(m.settings, device, before, replies);
            let next = step->Next_0;
            let left = step->Next_1;
            lemma_configs_taken(m.settings, device, before, replies);
            law_every_device_is_collected(popped, next, left);
            let rest = popped.pending;
            let count = block_count(rest) as int;
            assert(next.fs + queued_fs(m.settings, rest) =~= before.fs + queued_fs(
                m.settings,
                m.pending,
            ));
            assert(all_without_fds(next.net) + queued_net(m.settings, rest) =~= all_without_fds(
                before.net,
            ) + queued_net(m.settings, m.pending));
            assert(next.host + queued_host(rest) =~= before.host + queued_host(m.pending));
            let configs = configs_in(replies).take(block_count(m.pending) as int);
            if device.kind is BlockModern {
                assert(configs.drop_first() =~= configs_in(left).take(count));
                assert(configs[0] == configs_in(replies)[0]);
            } else {
                assert(configs =~= configs_in(left).take(count));
            }
            assert(next.disks + booted_disks(m.settings, configs_in(left).take(count))
                =~= before.disks + booted_disks(m.settings, configs));
        }
    }
}

} // verus!
