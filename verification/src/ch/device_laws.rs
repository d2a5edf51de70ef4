//! What the hypervisor is told of the devices of a virtual machine.
use crate::block_device::BlockConfigModern;
use crate::ch::config::{
    disk_config_of, fs_config_of, net_config_of, DeviceModel, DiskConfigModel, FsModel, ImageType,
    NetModel, NetworkConfig, ShareFsConfig,
};
use crate::ch::device::{
    boots_from, device_added, device_handled, device_removed, disk_config_under, no_replies,
    pending_handled, unplaced, AddReplies, AddResponse, ChModel, Device, DeviceType, InnerModel,
    ProtectionDeviceConfig, Settings, VmmState,
};
use crate::ch::shared::{
    all_shared, block_count, booted_disks, configs_in, device_shared, law_every_device_is_collected,
    none_shared, SharedModel, SharedReply, SharedStep,
};
use crate::error::{server_status, StatusCode};
use crate::path::{file_name_of, path_within};
use crate::qmp::session::Flow;
use crate::text::begins_with;
use vstd::prelude::*;

verus! {

/// Whether a disk is that of a block device: read-only exactly where the device is, over its file,
/// with its queues, direct where the device or else the hypervisor's settings say so, and held to
/// the limits of the settings.
pub open spec fn disk_follows(
    settings: Settings,
    config: BlockConfigModern,
    disk: DiskConfigModel,
) -> bool {
    &&& disk.path == Some(config.path_on_host@)
    &&& disk.readonly <==> config.is_readonly
    &&& disk.sparse <==> config.discard_unmap
    &&& disk.num_queues == config.num_queues
    &&& disk.queue_size == config.queue_size % 65536
    &&& config.is_direct is Some ==> Some(disk.direct) == config.is_direct
    &&& config.is_direct is None ==> disk.direct == settings.block_device_cache_direct
    &&& disk.rate_limits == Some(settings.rate_limits)
    &&& disk.image_type == ImageType::Raw
}

/// Whether a network device is that of an interface whose tap device is handed over open: so many
/// pairs of queues, the address of the interface, and neither a name nor an identity.
pub open spec fn net_follows(config: NetworkConfig, pairs: int, net: NetModel) -> bool {
    &&& net.num_queues == 2 * pairs
    &&& config.guest_mac == Some(net.mac)
    &&& net.queue_size == config.queue_size % 65536
    &&& net.tap is None
    &&& net.id is None
}

/// Whether a shared file system is that of its configuration, over that socket.
pub open spec fn fs_follows(config: ShareFsConfig, socket: Seq<char>, fs: FsModel) -> bool {
    &&& fs.tag == config.mount_tag@
    &&& fs.socket == socket
    &&& config.queue_num <= usize::MAX ==> fs.num_queues == config.queue_num
    &&& fs.queue_size == config.queue_size
}

/// Whether a command tells of a device what its configuration says.
pub open spec fn told(
    settings: Settings,
    device: Device,
    replies: AddReplies,
    command: ChModel,
) -> bool {
    match command {
        ChModel::AddDisk(disk) => device.kind matches DeviceType::BlockModern(block)
            && disk.id == Some(block.device_id@) && disk_follows(settings, block.config, disk),
        ChModel::RemoveDevice(id) => device.kind matches DeviceType::BlockModern(block) && (id
            == block.device_id@ || (replies.response matches Some(
            AddResponse::Identity { detail: _, info: Ok(info) },
        ) && id == info.id@)),
        ChModel::OpenTap { name, queues } => device.kind matches DeviceType::Network(config) && {
            &&& name == config.host_dev_name@
            &&& config.queue_num == 0 ==> queues == 1
            &&& 1 <= config.queue_num <= u32::MAX ==> queues == config.queue_num
        },
        ChModel::AddNet(net, fds) => device.kind matches DeviceType::Network(config) && {
            &&& replies.fds matches Some(Ok(opened)) && opened@ == fds
            &&& config.queue_num == 0 ==> net_follows(config, 1, net)
            &&& config.queue_num >= 1 && 2 * config.queue_num <= usize::MAX ==> net_follows(
                config,
                config.queue_num as int,
                net,
            )
        },
        ChModel::ScopedJoin { root, path } => device.kind matches DeviceType::ShareFs(config)
            && root == settings.vm_path@ && path == config.sock_path@,
        ChModel::AddFs(fs) => device.kind matches DeviceType::ShareFs(config) && {
            &&& config.fs_type@ == "virtio-fs"@
            &&& fs.pci_segment == Some(settings.fs_pci_segment)
            &&& if begins_with(config.sock_path@, "/"@) {
                fs_follows(config, config.sock_path@, fs)
            } else {
                replies.path matches Some(Ok(socket)) && fs_follows(config, socket@, fs)
            }
        },
        ChModel::AddVsock(vsock) => device.kind matches DeviceType::HybridVsock(config) && vsock.cid
            == config.guest_cid && vsock.socket == config.uds_path@,
        ChModel::AddDevice(host) => device.kind matches DeviceType::Vfio(vfio)
            && vfio.devices@.len() > 0 && host.path == vfio.devices@[0].sysfs_path@ && !host.iommu,
        _ => false,
    }
}

proof fn lemma_low_half(n: u32, size: usize)
    ensures
        (n as u16) as int == n % 65536,
        (size as u16) as int == size % 65536,
{
    assert((n as u16) == n % 65536) by (bit_vector);
    assert((size as u16) == size % 65536) by (bit_vector);
}

/// Every command that plugging a device in asks for tells the hypervisor of that device what its
/// configuration says, and of nothing else. An interface with no number of queue pairs has one;
/// otherwise its tap device is opened with exactly that number of queues, and the network device has
/// two queues for each.
pub proof fn law_hypervisor_is_told_of_the_device(m: InnerModel, device: Device, replies: AddReplies)
    ensures
        device_handled(m, device, replies).1 matches Flow::Waiting(command) ==> told(
            m.settings,
            device,
            replies,
            command,
        ),
{
    match device.kind {
        DeviceType::BlockModern(block) => {
            lemma_low_half(block.config.queue_size, 0);
        },
        DeviceType::Network(config) => {
            lemma_low_half(0, config.queue_size);
        },
        _ => {},
    }
}

/// A device that is added to a running virtual machine is told to the hypervisor at once. Before
/// that nothing is asked for: a device that the virtual machine can boot with waits, as the newest
/// one, and any other is passed over.
pub proof fn law_device_is_added_or_waits(m: InnerModel, device: Device, replies: AddReplies)
    ensures
        m.state == VmmState::VmRunning ==> (device_added(m, device, replies).1 matches Flow::Waiting(
            command,
        ) ==> told(m.settings, device, replies, command)),
        m.state == VmmState::VmRunning && replies.response is None && (device.kind is BlockModern
            || device.kind is HybridVsock || (device.kind matches DeviceType::Vfio(vfio)
            && vfio.devices@.len() > 0)) ==> device_added(m, device, replies).1 is Waiting,
        m.state != VmmState::VmRunning ==> {
            let (after, came) = device_added(m, device, replies);
            &&& came == Flow::<Option<Seq<u8>>, ChModel>::Done(Ok(None))
            &&& after.pending == if device.kind is HybridVsock || device.kind is Other {
                m.pending
            } else {
                seq![device] + m.pending
            }
            &&& after.device_ids == m.device_ids
            &&& after.state == m.state
        },
{
    law_hypervisor_is_told_of_the_device(m, device, replies);
}

/// The replies to what the `j`-th device needs.
pub open spec fn replies_of(replies: Seq<AddReplies>, j: int) -> AddReplies {
    if 0 <= j < replies.len() {
        replies[j]
    } else {
        no_replies()
    }
}

/// The devices that waited are told to the hypervisor, the oldest one first, each with the replies
/// to what it needs; once all are, none waits any more.
pub proof fn law_waiting_devices_are_told(m: InnerModel, replies: Seq<AddReplies>)
    ensures
        pending_handled(m, replies).1 matches Flow::Waiting(command) ==> exists|j: int|
            0 <= j < m.pending.len() && #[trigger] told(
                m.settings,
                m.pending[m.pending.len() - 1 - j],
                replies_of(replies, j),
                command,
            ),
        pending_handled(m, replies).1 matches Flow::Done(Ok(_)) ==> pending_handled(
            m,
            replies,
        ).0.pending.len() == 0,
    decreases m.pending.len(),
{
    if m.pending.len() > 0 {
        let device = m.pending.last();
        let popped = InnerModel { pending: m.pending.drop_last(), ..m };
        let next = replies_of(replies, 0);
        law_hypervisor_is_told_of_the_device(popped, device, next);
        let (after, came) = device_handled(popped, device, next);
        assert(after.pending == popped.pending && after.settings == m.settings);
        match came {
            Flow::Waiting(command) => {
                assert(told(
                    m.settings,
                    m.pending[m.pending.len() - 1 - 0],
                    replies_of(replies, 0),
                    command,
                ));
            },
            Flow::Done(Ok(_)) => {
                let later = if replies.len() == 0 {
                    replies
                } else {
                    replies.drop_first()
                };
                law_waiting_devices_are_told(after, later);
                if let Flow::Waiting(command) = pending_handled(after, later).1 {
                    let j = choose|j: int|
                        0 <= j < after.pending.len() && #[trigger] told(
                            after.settings,
                            after.pending[after.pending.len() - 1 - j],
                            replies_of(later, j),
                            command,
                        );
                    assert(replies_of(later, j) == replies_of(replies, j + 1));
                    assert(told(
                        m.settings,
                        m.pending[m.pending.len() - 1 - (j + 1)],
                        replies_of(replies, j + 1),
                        command,
                    ));
                }
            },
            _ => {},
        }
    }
}

/// A device that can be told to the hypervisor is told: nothing is taken for done before the
/// hypervisor has answered. The tap device of an interface is opened first, and the path of a socket
/// is looked up first where it is not absolute.
pub proof fn law_nothing_is_done_unanswered(m: InnerModel, device: Device, replies: AddReplies)
    requires
        replies.response is None,
    ensures
        device.kind is BlockModern ==> (device_handled(m, device, replies).1 matches Flow::Waiting(
            ChModel::AddDisk(_),
        )),
        device.kind is HybridVsock ==> (device_handled(m, device, replies).1 matches Flow::Waiting(
            ChModel::AddVsock(_),
        )),
        device.kind matches DeviceType::Vfio(vfio) ==> (if vfio.devices@.len() > 0 {
            device_handled(m, device, replies).1 matches Flow::Waiting(ChModel::AddDevice(_))
        } else {
            device_handled(m, device, replies).1 matches Flow::Done(Err(_))
        }),
        device.kind matches DeviceType::Network(config) ==> (if config.guest_mac is None {
            device_handled(m, device, replies).1 matches Flow::Done(Err(_))
        } else if replies.fds is None {
            device_handled(m, device, replies).1 matches Flow::Waiting(ChModel::OpenTap { .. })
        } else if replies.fds matches Some(Err(_)) {
            device_handled(m, device, replies).1 matches Flow::Done(Err(_))
        } else {
            device_handled(m, device, replies).1 matches Flow::Waiting(ChModel::AddNet(_, _))
        }),
        device.kind matches DeviceType::ShareFs(config) ==> (if config.fs_type@ != "virtio-fs"@
            || config.queue_size > 65535 {
            device_handled(m, device, replies).1 matches Flow::Done(Err(_))
        } else if begins_with(config.sock_path@, "/"@) || (replies.path matches Some(Ok(_))) {
            device_handled(m, device, replies).1 matches Flow::Waiting(ChModel::AddFs(_))
        } else if replies.path is None {
            device_handled(m, device, replies).1 matches Flow::Waiting(ChModel::ScopedJoin { .. })
        } else {
            device_handled(m, device, replies).1 matches Flow::Done(Err(_))
        }),
        device.kind is Protection || device.kind is Other ==> (device_handled(
            m,
            device,
            replies,
        ).1 matches Flow::Done(Err(_))),
{
}

/// A device is plugged in exactly where the hypervisor says so. A block device needs an answer that
/// names it as it was asked for; a group of passed-through devices is known from then on by the
/// identity in the answer. Where the hypervisor refuses, its error comes out.
pub proof fn law_answer_decides(m: InnerModel, device: Device, replies: AddReplies)
    ensures
        ({
            let (after, came) = device_handled(m, device, replies);
            &&& replies.response matches Some(AddResponse::Failed(_)) ==> !(came matches Flow::Done(
                Ok(_),
            ))
            &&& device.kind matches DeviceType::BlockModern(block) ==> (came matches Flow::Done(
                Ok(path),
            ) ==> {
                &&& path is Some
                &&& replies.response matches Some(AddResponse::Identity { detail: _, info: Ok(info) })
                    && info.id@ == block.device_id@
                &&& after.device_ids == m.device_ids.insert(block.device_id@, block.device_id@)
            })
            &&& device.kind matches DeviceType::Vfio(vfio) ==> (replies.response matches Some(
                AddResponse::Identity { detail: _, info: Ok(info) },
            ) ==> (vfio.devices@.len() > 0 ==> after.device_ids == m.device_ids.insert(
                vfio.device_id@,
                info.id@,
            )))
            &&& device.kind is Network || device.kind is ShareFs || device.kind is HybridVsock
                ==> after == m && (came matches Flow::Done(Ok(path)) ==> path is None
                && replies.response is Some)
            &&& after.pending == m.pending && after.state == m.state
        }),
{
}

/// A device is removed under the identity that the hypervisor gave it; a block device without one,
/// under its own. What is not known and has no such name is refused. A device that is gone is
/// forgotten, and one that is not is kept. Devices of other kinds have nothing to remove.
pub proof fn law_removal_asks_for_the_known_identity(
    m: InnerModel,
    device: Device,
    removed: Option<Result<Option<String>, crate::error::Error>>,
)
    ensures
        ({
            let (after, came) = device_removed(m, device, removed);
            let id = match device.kind {
                DeviceType::Vfio(vfio) => Some(vfio.device_id@),
                DeviceType::BlockModern(block) => Some(block.device_id@),
                _ => None,
            };
            match id {
                None => after == m && came == Flow::<(), ChModel>::Done(Ok(())),
                Some(id) => if !m.device_ids.contains_key(id) && device.kind is Vfio {
                    after == m && came matches Flow::Done(Err(_))
                } else if removed is None {
                    after == m && came == Flow::<(), ChModel>::Waiting(
                        ChModel::RemoveDevice(
                            if m.device_ids.contains_key(id) {
                                m.device_ids[id]
                            } else {
                                id
                            },
                        ),
                    )
                } else {
                    match came {
                        Flow::Done(Ok(_)) => after == (InnerModel {
                            device_ids: m.device_ids.remove(id),
                            ..m
                        }),
                        Flow::Done(Err(_)) => after == m,
                        Flow::Waiting(_) => false,
                    }
                },
            }
        }),
        removed matches Some(Ok(_)) ==> (device.kind is BlockModern ==> device_removed(
            m,
            device,
            removed,
        ).1 == Flow::<(), ChModel>::Done(Ok(()))),
        removed matches Some(Err(error)) ==> (device.kind is BlockModern ==> (device_removed(
            m,
            device,
            removed,
        ).1 == Flow::<(), ChModel>::Done(Ok(())) <==> server_status(error.deep_view()) == Some(
            StatusCode::NotFound,
        ))),
{
}

/// Whether the virtual machine boots with a disk for such a block device: it neither boots from that
/// file anyway, nor finds the device by a serial.
pub open spec fn boots_with(settings: Settings, config: BlockConfigModern) -> bool {
    let path = config.path_on_host@;
    &&& !(settings.boot_image@.len() > 0 && path == settings.boot_image@)
    &&& !(settings.boot_initrd@.len() > 0 && path == settings.boot_initrd@)
    &&& config.serial_override@.len() == 0
}

proof fn lemma_first_filtered<T>(s: Seq<T>, p: spec_fn(T) -> bool)
    requires
        s.len() > 0,
    ensures
        s.filter(p) == if p(s[0]) {
            seq![s[0]] + s.drop_first().filter(p)
        } else {
            s.drop_first().filter(p)
        },
{
    let head = seq![s[0]];
    let tail = s.drop_first();
    assert(s =~= head + tail);
    Seq::filter_distributes_over_add(head, tail, p);
    reveal_with_fuel(Seq::filter, 2);
    assert(head.drop_last() =~= Seq::<T>::empty());
    assert(head.filter(p) =~= if p(s[0]) {
        head
    } else {
        seq![]
    });
    assert(Seq::<T>::empty() + tail.filter(p) =~= tail.filter(p));
}

proof fn lemma_boot_disks(settings: Settings, configs: Seq<BlockConfigModern>)
    ensures
        ({
            let due = configs.filter(|config: BlockConfigModern| boots_with(settings, config));
            let disks = booted_disks(settings, configs);
            &&& disks.len() == due.len()
            &&& forall|i: int|
                0 <= i < due.len() ==> (#[trigger] disks[i]).id is None && disk_follows(
                    settings,
                    due[i],
                    disks[i],
                )
        }),
    decreases configs.len(),
{
    let p = |config: BlockConfigModern| boots_with(settings, config);
    let due = configs.filter(p);
    let disks = booted_disks(settings, configs);
    if configs.len() == 0 {
        reveal_with_fuel(Seq::filter, 1);
    } else {
        let rest = configs.drop_first();
        lemma_first_filtered(configs, p);
        lemma_boot_disks(settings, rest);
        lemma_low_half(configs[0].queue_size, 0);
        let later = booted_disks(settings, rest);
        if boots_with(settings, configs[0]) {
            assert forall|i: int| 0 <= i < due.len() implies (#[trigger] disks[i]).id is None
                && disk_follows(settings, due[i], disks[i]) by {
                if i > 0 {
                    assert(disks[i] == later[i - 1]);
                    assert(due[i] == rest.filter(p)[i - 1]);
                }
            }
        }
    }
}

/// The devices that wait, the oldest one first.
pub open spec fn oldest_first(m: InnerModel) -> Seq<Device> {
    m.pending.reverse()
}

proof fn lemma_oldest_taken(m: InnerModel)
    requires
        m.pending.len() > 0,
    ensures
        oldest_first(m).len() > 0,
        oldest_first(m)[0] == m.pending.last(),
        oldest_first(m).drop_first() == oldest_first(
            InnerModel { pending: m.pending.drop_last(), ..m },
        ),
{
    assert(oldest_first(m).drop_first() =~= oldest_first(
        InnerModel { pending: m.pending.drop_last(), ..m },
    ));
}

proof fn lemma_boot_nets(m: InnerModel, before: SharedModel, replies: Seq<SharedReply>)
    requires
        2 * m.settings.network_queues <= usize::MAX,
        all_shared(m, before, replies).1 matches Flow::Done(Ok(_)),
    ensures
        ({
            let shared = all_shared(m, before, replies).1->Done_0->Ok_0;
            let due = oldest_first(m).filter(|device: Device| device.kind is Network);
            &&& shared.net.len() == before.net.len() + due.len()
            &&& forall|i: int| 0 <= i < before.net.len() ==> shared.net[i] == before.net[i]
            &&& forall|i: int|
                0 <= i < due.len() ==> (#[trigger] shared.net[before.net.len() + i]).fds is Some
                    && net_follows(
                    due[i].kind->Network_0,
                    m.settings.network_queues as int,
                    shared.net[before.net.len() + i],
                )
        }),
    decreases m.pending.len(),
{
    let p = |device: Device| device.kind is Network;
    let due = oldest_first(m).filter(p);
    let shared = all_shared(m, before, replies).1->Done_0->Ok_0;
    if m.pending.len() == 0 {
        assert(oldest_first(m) =~= seq![]);
        reveal_with_fuel(Seq::filter, 1);
    } else {
        let device = m.pending.last();
        let popped = InnerModel { pending: m.pending.drop_last(), ..m };
        lemma_oldest_taken(m);
        lemma_first_filtered(oldest_first(m), p);
        if let SharedStep::Next(next, left) = device_shared(m.settings, device, before, replies) {
            lemma_boot_nets(popped, next, left);
            let later = oldest_first(popped).filter(p);
            if let DeviceType::Network(config) = device.kind {
                lemma_low_half(0, config.queue_size);
                assert(next.net.len() == before.net.len() + 1);
                assert(shared.net[before.net.len() as int] == next.net[before.net.len() as int]);
                assert forall|i: int| 0 <= i < before.net.len() implies shared.net[i]
                    == before.net[i] by {
                    assert(next.net[i] == before.net[i]);
                }
                assert forall|i: int| 0 <= i < due.len() implies (
                #[trigger] shared.net[before.net.len() + i]).fds is Some && net_follows(
                    due[i].kind->Network_0,
                    m.settings.network_queues as int,
                    shared.net[before.net.len() + i],
                ) by {
                    if i > 0 {
                        assert(due[i] == later[i - 1]);
                        assert(shared.net[next.net.len() + (i - 1)].fds is Some);
                    }
                }
            } else {
                assert(next.net == before.net);
            }
        }
    }
}

/// A virtual machine boots with a disk for each block device whose configuration it looked up and
/// that it needs one for, in the order in which the devices came, and each disk is that of its
/// device. It boots with a network device for each interface that waited, the oldest one first, with
/// two queues for each pair that the settings give a network device.
pub proof fn law_boot_devices_follow_their_configuration(m: InnerModel, replies: Seq<SharedReply>)
    requires
        2 * m.settings.network_queues <= usize::MAX,
    ensures
        all_shared(m, none_shared(), replies).1 matches Flow::Done(Ok(shared)) ==> {
            let looked_up = configs_in(replies).take(block_count(m.pending) as int);
            let disks = looked_up.filter(
                |config: BlockConfigModern| boots_with(m.settings, config),
            );
            let nets = oldest_first(m).filter(|device: Device| device.kind is Network);
            &&& shared.disks.len() == disks.len()
            &&& forall|i: int|
                0 <= i < disks.len() ==> (#[trigger] shared.disks[i]).id is None && disk_follows(
                    m.settings,
                    disks[i],
                    shared.disks[i],
                )
            &&& shared.net.len() == nets.len()
            &&& forall|i: int|
                0 <= i < nets.len() ==> (#[trigger] shared.net[i]).fds is Some && net_follows(
                    nets[i].kind->Network_0,
                    m.settings.network_queues as int,
                    shared.net[i],
                )
        },
{
    if let Flow::Done(Ok(shared)) = all_shared(m, none_shared(), replies).1 {
        law_every_device_is_collected(m, none_shared(), replies);
        let looked_up = configs_in(replies).take(block_count(m.pending) as int);
        lemma_boot_disks(m.settings, looked_up);
        assert(shared.disks =~= booted_disks(m.settings, looked_up));
        lemma_boot_nets(m, none_shared(), replies);
        let nets = oldest_first(m).filter(|device: Device| device.kind is Network);
        assert forall|i: int| 0 <= i < nets.len() implies (#[trigger] shared.net[i]).fds is Some
            && net_follows(
            nets[i].kind->Network_0,
            m.settings.network_queues as int,
            shared.net[i],
        ) by {
            assert(shared.net[none_shared().net.len() + i].fds is Some);
        }
    }
}

/// Whether the collection of the devices asks about a device what the settings say.
pub open spec fn asked_at_boot(settings: Settings, device: Device, command: ChModel) -> bool {
    match command {
        ChModel::EnterNetns(netns) => device.kind is Network && match settings.netns {
            Some(given) => netns == given@,
            None => netns.len() == 0,
        },
        ChModel::OpenTap { name, queues } => device.kind matches DeviceType::Network(config) && name
            == config.host_dev_name@ && queues == settings.network_queues,
        ChModel::CreateDir(path) => device.kind is ShareFs && (
        settings.rootless_link_root matches Some(root) && path == root@),
        ChModel::Symlink { target, link } => device.kind matches DeviceType::ShareFs(config) && {
            &&& target == path_within(settings.vm_path@, config.sock_path@)
            &&& settings.rootless_link_root matches Some(root) && (file_name_of(
                target,
            ) matches Some(name) && link == path_within(root@, name))
        },
        ChModel::CurrentConfig(id) => device.kind matches DeviceType::BlockModern(block) && id
            == block.device_id@,
        _ => false,
    }
}

/// What the collection of the devices asks for is what one of the devices needs: an interface has its
/// tap device opened in the network namespace of the sandbox, a shared file system has its socket
/// linked where the runtime has no root privileges, and the configuration of a block device is looked
/// up by the identity of the device.
pub proof fn law_boot_asks_for_what_devices_need(
    m: InnerModel,
    before: SharedModel,
    replies: Seq<SharedReply>,
)
    ensures
        all_shared(m, before, replies).1 matches Flow::Waiting(command) ==> exists|i: int|
            0 <= i < m.pending.len() && asked_at_boot(
                m.settings,
                #[trigger] m.pending[i],
                command,
            ),
    decreases m.pending.len(),
{
    if m.pending.len() > 0 {
        let device = m.pending.last();
        let popped = InnerModel { pending: m.pending.drop_last(), ..m };
        match device_shared(m.settings, device, before, replies) {
            SharedStep::Waiting(command) => {
                assert(asked_at_boot(m.settings, m.pending[m.pending.len() - 1], command));
            },
            SharedStep::Next(next, left) => {
                law_boot_asks_for_what_devices_need(popped, next, left);
                if let Flow::Waiting(command) = all_shared(popped, next, left).1 {
                    let i = choose|i: int|
                        0 <= i < popped.pending.len() && asked_at_boot(
                            m.settings,
                            #[trigger] popped.pending[i],
                            command,
                        );
                    assert(m.pending[i] == popped.pending[i]);
                }
            },
            _ => {},
        }
    }
}

/// Whether a shared file system that a virtual machine boots with is that of its device: over the
/// socket in the directory of the virtual machine, or over a link to that socket of the same name.
pub open spec fn boot_fs_follows(settings: Settings, config: ShareFsConfig, fs: FsModel) -> bool {
    let socket = path_within(settings.vm_path@, config.sock_path@);
    &&& fs.pci_segment is None
    &&& match settings.rootless_link_root {
        None => fs_follows(config, socket, fs),
        Some(root) => file_name_of(socket) matches Some(name) && fs_follows(
            config,
            path_within(root@, name),
            fs,
        ),
    }
}

/// A virtual machine boots with a file system for each that waited to be shared, the oldest one
/// first.
pub proof fn law_boot_shares_every_file_system(
    m: InnerModel,
    before: SharedModel,
    replies: Seq<SharedReply>,
)
    requires
        all_shared(m, before, replies).1 matches Flow::Done(Ok(_)),
    ensures
        ({
            let shared = all_shared(m, before, replies).1->Done_0->Ok_0;
            let due = oldest_first(m).filter(|device: Device| device.kind is ShareFs);
            &&& shared.fs.len() == before.fs.len() + due.len()
            &&& forall|i: int| 0 <= i < before.fs.len() ==> shared.fs[i] == before.fs[i]
            &&& forall|i: int|
                0 <= i < due.len() ==> boot_fs_follows(
                    m.settings,
                    due[i].kind->ShareFs_0,
                    #[trigger] shared.fs[before.fs.len() + i],
                )
        }),
    decreases m.pending.len(),
{
    let p = |device: Device| device.kind is ShareFs;
    let due = oldest_first(m).filter(p);
    let shared = all_shared(m, before, replies).1->Done_0->Ok_0;
    if m.pending.len() == 0 {
        assert(oldest_first(m) =~= seq![]);
        reveal_with_fuel(Seq::filter, 1);
    } else {
        let device = m.pending.last();
        let popped = InnerModel { pending: m.pending.drop_last(), ..m };
        lemma_oldest_taken(m);
        lemma_first_filtered(oldest_first(m), p);
        if let SharedStep::Next(next, left) = device_shared(m.settings, device, before, replies) {
            law_boot_shares_every_file_system(popped, next, left);
            let later = oldest_first(popped).filter(p);
            if let DeviceType::ShareFs(config) = device.kind {
                let at = before.fs.len() as int;
                assert(next.fs.len() == at + 1);
                assert(shared.fs[at] == next.fs[at]);
                assert(boot_fs_follows(m.settings, config, next.fs[at]));
                assert forall|i: int| 0 <= i < before.fs.len() implies shared.fs[i]
                    == before.fs[i] by {
                    assert(next.fs[i] == before.fs[i]);
                }
                assert forall|i: int| 0 <= i < due.len() implies boot_fs_follows(
                    m.settings,
                    due[i].kind->ShareFs_0,
                    #[trigger] shared.fs[before.fs.len() + i],
                ) by {
                    if i > 0 {
                        assert(due[i] == later[i - 1]);
                        assert(boot_fs_follows(
                            m.settings,
                            later[i - 1].kind->ShareFs_0,
                            shared.fs[next.fs.len() + (i - 1)],
                        ));
                    }
                }
            } else {
                assert(next.fs == before.fs);
            }
        }
    }
}

/// A virtual machine boots with a device for each group that waited to be passed through, namely its
/// first one, the oldest group first.
pub proof fn law_boot_passes_every_primary_device_through(
    m: InnerModel,
    before: SharedModel,
    replies: Seq<SharedReply>,
)
    requires
        all_shared(m, before, replies).1 matches Flow::Done(Ok(_)),
    ensures
        ({
            let shared = all_shared(m, before, replies).1->Done_0->Ok_0;
            let due = oldest_first(m).filter(|device: Device| device.kind is Vfio);
            &&& shared.host.len() == before.host.len() + due.len()
            &&& forall|i: int| 0 <= i < before.host.len() ==> shared.host[i] == before.host[i]
            &&& forall|i: int|
                0 <= i < due.len() ==> passes_through(
                    due[i],
                    #[trigger] shared.host[before.host.len() + i],
                )
        }),
    decreases m.pending.len(),
{
    let p = |device: Device| device.kind is Vfio;
    let due = oldest_first(m).filter(p);
    let shared = all_shared(m, before, replies).1->Done_0->Ok_0;
    if m.pending.len() == 0 {
        assert(oldest_first(m) =~= seq![]);
        reveal_with_fuel(Seq::filter, 1);
    } else {
        let device = m.pending.last();
        let popped = InnerModel { pending: m.pending.drop_last(), ..m };
        lemma_oldest_taken(m);
        lemma_first_filtered(oldest_first(m), p);
        if let SharedStep::Next(next, left) = device_shared(m.settings, device, before, replies) {
            law_boot_passes_every_primary_device_through(popped, next, left);
            let later = oldest_first(popped).filter(p);
            if device.kind is Vfio {
                let at = before.host.len() as int;
                assert(next.host.len() == at + 1);
                assert(shared.host[at] == next.host[at]);
                assert(passes_through(device, next.host[at]));
                assert forall|i: int| 0 <= i < before.host.len() implies shared.host[i]
                    == before.host[i] by {
                    assert(next.host[i] == before.host[i]);
                }
                assert forall|i: int| 0 <= i < due.len() implies passes_through(
                    due[i],
                    #[trigger] shared.host[before.host.len() + i],
                ) by {
                    if i > 0 {
                        assert(due[i] == later[i - 1]);
                        assert(passes_through(
                            later[i - 1],
                            shared.host[next.host.len() + (i - 1)],
                        ));
                    }
                }
            } else {
                assert(next.host == before.host);
            }
        }
    }
}

/// Whether a device of the host is the first one of its group.
pub open spec fn passes_through(device: Device, host: DeviceModel) -> bool {
    device.kind matches DeviceType::Vfio(vfio) && vfio.devices@.len() > 0 && host.path
        == vfio.devices@[0].sysfs_path@ && !host.iommu
}

/// What protects the guest is what the youngest device of each kind says; without one it is what it
/// was.
pub proof fn law_boot_protection_is_the_youngest(
    m: InnerModel,
    before: SharedModel,
    replies: Seq<SharedReply>,
)
    ensures
        all_shared(m, before, replies).1 matches Flow::Done(Ok(shared)) ==> {
            &&& (forall|i: int|
                0 <= i < m.pending.len() ==> !((#[trigger] m.pending[i]).kind is Protection))
                ==> shared.protection == before.protection
            &&& m.pending.len() > 0 ==> (m.pending[0].kind matches DeviceType::Protection(
                device,
            ) ==> match device {
                ProtectionDeviceConfig::SevSnp { is_snp, host_data } => is_snp
                    ==> shared.protection.host_data == host_data,
                ProtectionDeviceConfig::Tdx { mrconfigid } => shared.protection.mrconfigid
                    == mrconfigid,
                ProtectionDeviceConfig::Other => true,
            })
        },
    decreases m.pending.len(),
{
    if m.pending.len() > 0 {
        let device = m.pending.last();
        let popped = InnerModel { pending: m.pending.drop_last(), ..m };
        if let SharedStep::Next(next, left) = device_shared(m.settings, device, before, replies) {
            law_boot_protection_is_the_youngest(popped, next, left);
            assert(forall|i: int|
                0 <= i < popped.pending.len() ==> popped.pending[i] == m.pending[i]);
            if m.pending.len() == 1 {
                assert(all_shared(popped, next, left).1 == Flow::<SharedModel, ChModel>::Done(
                    Ok(next),
                ));
            }
            if forall|i: int|
                0 <= i < m.pending.len() ==> !((#[trigger] m.pending[i]).kind is Protection) {
                assert(!(m.pending[m.pending.len() - 1].kind is Protection));
            }
        }
    }
}

/// A block device that was removed has no place on the bus of the guest, and is otherwise as it was;
/// nothing changes of another device.
pub proof fn law_removed_device_has_no_place(device: Device)
    ensures
        match (device.kind, unplaced(device).kind) {
            (DeviceType::BlockModern(block), DeviceType::BlockModern(after)) => {
                &&& after.config.pci_path is None
                &&& after.device_id == block.device_id
                &&& after.attach_count == block.attach_count
                &&& after.config.path_on_host == block.config.path_on_host
                &&& after.config.is_readonly == block.config.is_readonly
                &&& block.config.pci_path is None ==> unplaced(device) == device
            },
            (DeviceType::BlockModern(_), _) => false,
            _ => unplaced(device) == device,
        },
{
}

/// A machine boots from a file exactly where the file is its image or its initial file system.
pub proof fn law_machine_boots_from_image_or_initrd(settings: Settings, path: Seq<char>)
    ensures
        path.len() > 0 ==> (boots_from(settings, path) <==> settings.boot_image@ == path
            || settings.boot_initrd@ == path),
        path.len() == 0 ==> !boots_from(settings, path),
{
}

/// A disk passes the cache of the host by where its own configuration says so, and where that leaves it
/// open, the settings decide.
pub proof fn law_settings_decide_what_a_disk_leaves_open(
    settings: Settings,
    config: BlockConfigModern,
)
    ensures
        ({
            let disk = disk_config_under(settings, config);
            &&& config.is_direct matches Some(direct) ==> disk.direct == direct
            &&& config.is_direct is None ==> disk.direct == settings.block_device_cache_direct
            &&& disk.path == Some(config.path_on_host@)
            &&& disk.readonly == config.is_readonly
            &&& disk.sparse == config.discard_unmap
            &&& disk.num_queues == config.num_queues
            &&& disk.rate_limits == Some(settings.rate_limits)
        }),
        ({
            let disk = disk_config_of(config);
            &&& disk.path == Some(config.path_on_host@)
            &&& disk.readonly == config.is_readonly
            &&& disk.sparse == config.discard_unmap
            &&& disk.num_queues == config.num_queues
            &&& config.queue_size <= 65535 ==> disk.queue_size == config.queue_size
            &&& disk.image_type == ImageType::Raw
            &&& disk.id is None && disk.rate_limits is None && !disk.direct
        }),
{
}

/// An interface without an address on its network is refused, and another one is carried over as it
/// is configured.
pub proof fn law_interface_needs_an_address(config: NetworkConfig)
    ensures
        net_config_of(config) is Err <==> config.guest_mac is None,
        net_config_of(config) matches Ok(net) ==> {
            &&& net.tap == Some(config.host_dev_name@)
            &&& net.id == Some(config.virt_iface_name@)
            &&& Some(net.mac) == config.guest_mac
            &&& net.num_queues == config.queue_num
            &&& config.queue_size <= 65535 ==> net.queue_size == config.queue_size
            &&& net.fds is None
        },
{
}

/// A shared file system is refused where its queue is too long for the hypervisor, and carried over
/// as it is configured otherwise.
pub proof fn law_shared_file_system_has_a_short_queue(
    config: ShareFsConfig,
    socket: Seq<char>,
    segment: Option<u16>,
)
    ensures
        fs_config_of(config, socket, segment) is Err <==> config.queue_size > 65535,
        fs_config_of(config, socket, segment) matches Ok(fs) ==> {
            &&& fs.tag == config.mount_tag@
            &&& fs.socket == socket
            &&& config.queue_num <= usize::MAX ==> fs.num_queues == config.queue_num
            &&& fs.queue_size == config.queue_size
            &&& fs.pci_segment == segment
        },
{
}

} // verus!
