//! What QEMU is told of a network device, and in which order.
use crate::qmp::block_laws::{has_property, replying};
use crate::qmp::ccw::ccw_address;
use crate::qmp::network::{
    fd_names, fds_passed, net_added, net_arguments, net_frontend, net_placed, net_plugged,
    NetModel, NetPlace, NetdevModel,
};
use crate::qmp::pci::free_on_bridges;
use crate::qmp::session::{taken, Flow, QmpModel};
use crate::qmp::wire::{
    integer_argument, set_flag, text_argument, CommandModel, QmpReply, ValueModel,
};
use crate::text::{dec, hex, joined, zero_padded};
use vstd::prelude::*;

verus! {

/// Whether a command about a network device is one that its two sides ask for.
pub open spec fn net_command_follows(
    netdev: NetdevModel,
    device: NetModel,
    use_ccw_bus: bool,
    command: CommandModel,
) -> bool {
    match command {
        CommandModel::QueryPci => !use_ccw_bus,
        CommandModel::PassFd { fd, name } => {
            ||| exists|i: int|
                0 <= i < netdev.fds.len() && fd == #[trigger] netdev.fds[i] && name == "fd"@ + dec(
                    i,
                )
            ||| exists|i: int|
                0 <= i < netdev.vhostfds.len() && fd == #[trigger] netdev.vhostfds[i] && name
                    == "vhostfd"@ + dec(i)
        },
        CommandModel::NetdevAdd { id, fds, vhostfds } => {
            &&& id == netdev.id
            &&& fds == joined(Seq::new(netdev.fds.len(), |i: int| "fd"@ + dec(i)), ","@)
            &&& vhostfds is None <==> netdev.vhostfds.len() == 0
            &&& vhostfds matches Some(names) ==> names == joined(
                Seq::new(netdev.vhostfds.len(), |i: int| "vhostfd"@ + dec(i)),
                ","@,
            )
        },
        CommandModel::DeviceAdd { driver, bus, id, arguments } => {
            &&& driver == device.driver
            &&& id == "frontend-"@ + device.netdev_id
            &&& bus is None <==> use_ccw_bus
            &&& has_property(arguments, "netdev"@, ValueModel::Text(device.netdev_id))
            &&& has_property(arguments, "mac"@, ValueModel::Text(device.mac))
            &&& has_property(arguments, "mq"@, ValueModel::Flag(true))
            &&& use_ccw_bus ==> exists|slot: u32| #[trigger]
                has_property(
                    arguments,
                    "devno"@,
                    ValueModel::Text("fe.0."@ + zero_padded(hex(slot as nat), 4)),
                )
            &&& !use_ccw_bus ==> has_property(
                arguments,
                "vectors"@,
                ValueModel::Integer(2 * device.num_queues + 2),
            )
        },
        CommandModel::NetdevDel(id) => id == netdev.id,
        _ => false,
    }
}

proof fn lemma_arguments_follow(device: NetModel, place: NetPlace)
    ensures
        ({
            let arguments = net_arguments(device, place);
            &&& has_property(arguments, "netdev"@, ValueModel::Text(device.netdev_id))
            &&& has_property(arguments, "mac"@, ValueModel::Text(device.mac))
            &&& has_property(arguments, "mq"@, ValueModel::Flag(true))
            &&& place matches NetPlace::Ccw(slot) ==> has_property(
                arguments,
                "devno"@,
                ValueModel::Text("fe.0."@ + zero_padded(hex(slot as nat), 4)),
            )
            &&& place matches NetPlace::Pci { bus: _, slot } ==> has_property(
                arguments,
                "vectors"@,
                ValueModel::Integer(2 * device.num_queues + 2),
            ) && has_property(
                arguments,
                "addr"@,
                ValueModel::Text(zero_padded(dec(slot as int), 2)),
            )
        }),
{
    let arguments = net_arguments(device, place);
    assert(arguments[0] == text_argument("netdev"@, device.netdev_id));
    assert(arguments[1] == text_argument("mac"@, device.mac));
    assert(arguments[2] == set_flag("mq"@));
    match place {
        NetPlace::Ccw(slot) => {
            assert(arguments[3] == text_argument("devno"@, ccw_address(slot)));
        },
        NetPlace::Pci { slot, .. } => {
            assert(arguments[3] == text_argument("addr"@, zero_padded(dec(slot as int), 2)));
            assert(arguments[4] == integer_argument("vectors"@, 2 * device.num_queues + 2));
        },
    }
}

proof fn lemma_passing_follows(q: QmpModel, prefix: Seq<char>, fds: Seq<i32>, index: int)
    requires
        0 <= index,
    ensures
        fds_passed(q, prefix, fds, index).1 matches Flow::Waiting(command) ==> exists|i: int|
            0 <= i < fds.len() && command == (CommandModel::PassFd {
                fd: #[trigger] fds[i],
                name: prefix + dec(i),
            }),
    decreases fds.len() - index,
{
    if index < fds.len() {
        if q.replies.len() > 0 {
            lemma_passing_follows(taken(q), prefix, fds, index + 1);
        } else {
            assert(fds_passed(q, prefix, fds, index).1 == Flow::<(), CommandModel>::Waiting(
                CommandModel::PassFd { fd: fds[index], name: prefix + dec(index) },
            ));
        }
    }
}

/// Whatever QEMU replies, every command that plugging a network device asks for says of the device
/// what its two sides say: each descriptor is passed under its own number, the host side takes
/// exactly those names, the guest side draws on it, and what is removed is the host side.
pub proof fn law_net_commands_follow_the_device(
    q: QmpModel,
    netdev: NetdevModel,
    device: NetModel,
    use_ccw_bus: bool,
)
    ensures
        net_plugged(q, netdev, device, use_ccw_bus).1 matches Flow::Waiting(command)
            ==> net_command_follows(netdev, device, use_ccw_bus, command),
{
    let frontend = net_frontend(device);
    if let (q1, Flow::Done(Ok(place))) = net_placed(q, use_ccw_bus, frontend) {
        assert(use_ccw_bus <==> place is Ccw);
        lemma_passing_follows(q1, "fd"@, netdev.fds, 0);
        if let (q2, Flow::Done(Ok(_))) = fds_passed(q1, "fd"@, netdev.fds, 0) {
            lemma_passing_follows(q2, "vhostfd"@, netdev.vhostfds, 0);
            if let (q3, Flow::Done(Ok(_))) = fds_passed(q2, "vhostfd"@, netdev.vhostfds, 0) {
                lemma_arguments_follow(device, place);
                assert(fd_names("fd"@, netdev.fds.len()) =~= Seq::new(
                    netdev.fds.len(),
                    |i: int| "fd"@ + dec(i),
                ));
                assert(fd_names("vhostfd"@, netdev.vhostfds.len()) =~= Seq::new(
                    netdev.vhostfds.len(),
                    |i: int| "vhostfd"@ + dec(i),
                ));
            }
        }
    }
}

/// That many replies of a command that was carried out.
pub open spec fn all_done(count: nat) -> Seq<QmpReply> {
    Seq::new(count, |i: int| QmpReply::Done)
}

proof fn lemma_done_taken(q: QmpModel, count: nat)
    requires
        count > 0,
    ensures
        replying(q, all_done(count)).replies.len() == count,
        replying(q, all_done(count)).replies[0] == QmpReply::Done,
        taken(replying(q, all_done(count))) == replying(q, all_done((count - 1) as nat)),
{
    assert(all_done(count).drop_first() =~= all_done((count - 1) as nat));
}

proof fn lemma_all_passed(q: QmpModel, prefix: Seq<char>, fds: Seq<i32>, index: int, count: nat)
    requires
        0 <= index <= fds.len(),
    ensures
        ({
            let (after, came) = fds_passed(replying(q, all_done(count)), prefix, fds, index);
            if count < fds.len() - index {
                came == Flow::<(), CommandModel>::Waiting(
                    CommandModel::PassFd {
                        fd: fds[index + count],
                        name: prefix + dec(index + count),
                    },
                )
            } else {
                &&& came == Flow::<(), CommandModel>::Done(Ok(()))
                &&& after == replying(q, all_done((count - (fds.len() - index)) as nat))
            }
        }),
    decreases fds.len() - index,
{
    if index < fds.len() {
        if count > 0 {
            lemma_done_taken(q, count);
            lemma_all_passed(q, prefix, fds, index + 1, (count - 1) as nat);
        }
    }
}

/// A network device that has a place is plugged in step by step, as long as QEMU takes every step:
/// each descriptor of the host side is passed, in order and under its number, then each of the
/// kernel's side, then the host side is added, and after it the guest side.
pub proof fn law_net_device_is_plugged_step_by_step(
    q: QmpModel,
    netdev: NetdevModel,
    device: NetModel,
    use_ccw_bus: bool,
    done: nat,
)
    requires
        use_ccw_bus ==> (q.ccw matches Some(ccw) && !ccw.devices.contains_key(
            "frontend-"@ + device.netdev_id,
        ) && ccw.next_slot < u32::MAX),
        !use_ccw_bus ==> free_on_bridges(q.bridges, 0) is Some,
    ensures
        ({
            let came = net_plugged(
                replying(q, all_done(done)),
                netdev,
                device,
                use_ccw_bus,
            ).1;
            let fds = netdev.fds.len();
            let all = fds + netdev.vhostfds.len();
            if done < fds {
                came == Flow::<(), CommandModel>::Waiting(
                    CommandModel::PassFd { fd: netdev.fds[done as int], name: "fd"@ + dec(done as int) },
                )
            } else if done < all {
                came == Flow::<(), CommandModel>::Waiting(
                    CommandModel::PassFd {
                        fd: netdev.vhostfds[done - fds],
                        name: "vhostfd"@ + dec(done - fds),
                    },
                )
            } else if done == all {
                came matches Flow::Waiting(CommandModel::NetdevAdd { .. })
            } else if done == all + 1 {
                came matches Flow::Waiting(CommandModel::DeviceAdd { .. })
            } else {
                came == Flow::<(), CommandModel>::Done(Ok(()))
            }
        }),
{
    let q0 = replying(q, all_done(done));
    let frontend = net_frontend(device);
    let fds = netdev.fds.len();
    let all = fds + netdev.vhostfds.len();
    let (q1, placed) = net_placed(q0, use_ccw_bus, frontend);
    let base = QmpModel { ccw: q1.ccw, ..q };
    assert(q1 == replying(base, all_done(done)));
    lemma_all_passed(base, "fd"@, netdev.fds, 0, done);
    if done >= fds {
        lemma_all_passed(base, "vhostfd"@, netdev.vhostfds, 0, (done - fds) as nat);
        if done > all {
            lemma_done_taken(base, (done - all) as nat);
            if done > all + 1 {
                lemma_done_taken(base, (done - all - 1) as nat);
            }
        }
    }
}

/// A guest side that QEMU refuses has the host side removed again, and the plugging fails; a device
/// on the subchannel has left it.
pub proof fn law_refused_net_device_leaves_nothing(
    q: QmpModel,
    netdev: NetdevModel,
    device: NetModel,
    use_ccw_bus: bool,
    place: NetPlace,
    refused: QmpReply,
    any: QmpReply,
)
    requires
        refused is Failed,
        use_ccw_bus <==> place is Ccw,
    ensures
        ({
            let asked = net_added(
                replying(q, seq![QmpReply::Done, refused]),
                netdev,
                device,
                use_ccw_bus,
                place,
            );
            let (after, came) = net_added(
                replying(q, seq![QmpReply::Done, refused, any]),
                netdev,
                device,
                use_ccw_bus,
                place,
            );
            &&& asked.1 == Flow::<(), CommandModel>::Waiting(CommandModel::NetdevDel(netdev.id))
            &&& came matches Flow::Done(Err(_))
            &&& after.bridges == q.bridges
            &&& use_ccw_bus ==> (after.ccw matches Some(ccw) ==> !ccw.devices.contains_key(
                "frontend-"@ + device.netdev_id,
            ))
        }),
        ({
            let (after, came) = net_added(
                replying(q, seq![refused]),
                netdev,
                device,
                use_ccw_bus,
                place,
            );
            &&& came matches Flow::Done(Err(_))
            &&& use_ccw_bus ==> (after.ccw matches Some(ccw) ==> !ccw.devices.contains_key(
                "frontend-"@ + device.netdev_id,
            ))
        }),
{
    let done = QmpReply::Done;
    assert(seq![done, refused].drop_first() =~= seq![refused]);
    assert(seq![done, refused, any].drop_first() =~= seq![refused, any]);
    assert(seq![refused].drop_first() =~= seq![]);
    assert(seq![refused, any].drop_first() =~= seq![any]);
}

} // verus!
