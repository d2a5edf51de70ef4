//! Hot-plugging network devices.
use crate::error::{message, Error};
use crate::qmp::block::off_subchannel;
use crate::qmp::ccw::{ccw_added, ccw_address, ccw_error_text};
use crate::qmp::pci::{free_slot, slot_recorded};
use crate::qmp::session::{decode_done, done_in, flow, taken, Flow, Qmp, QmpModel, Step};
use crate::qmp::wire::{
    failure_error, integer_argument, push_flag, push_integer, push_text, set_flag, text_argument,
    Argument, ArgumentModel, CommandModel, QmpCommand,
};
use crate::text::{cat2, cat5, dec, dec_i64, dec_u64, join, joined, pad, zero_padded};
use vstd::prelude::*;

verus! {

/// The host side of a network device: a tap device, with its descriptors.
#[derive(Clone, Debug)]
pub struct Netdev {
    pub id: String,
    pub fds: Vec<i32>,
    pub vhostfds: Vec<i32>,
}

/// The guest side of a network device.
#[derive(Clone, Debug)]
pub struct DeviceVirtioNet {
    pub device_driver: String,
    pub netdev_id: String,
    pub mac_addr: String,
    pub num_queues: u32,
}

/// The guest side of a network device, as a model.
pub struct NetModel {
    pub driver: Seq<char>,
    pub netdev_id: Seq<char>,
    pub mac: Seq<char>,
    pub num_queues: u32,
}

impl View for DeviceVirtioNet {
    type V = NetModel;

    open spec fn view(&self) -> NetModel {
        NetModel {
            driver: self.device_driver@,
            netdev_id: self.netdev_id@,
            mac: self.mac_addr@,
            num_queues: self.num_queues,
        }
    }
}

/// The host side of a network device, as a model.
pub struct NetdevModel {
    pub id: Seq<char>,
    pub fds: Seq<i32>,
    pub vhostfds: Seq<i32>,
}

impl View for Netdev {
    type V = NetdevModel;

    open spec fn view(&self) -> NetdevModel {
        NetdevModel { id: self.id@, fds: self.fds@, vhostfds: self.vhostfds@ }
    }
}

/// The name of the guest side of a network device.
pub open spec fn net_frontend(device: NetModel) -> Seq<char> {
    "frontend-"@ + device.netdev_id
}

/// Where a network device goes.
pub enum NetPlace {
    /// A slot of the CCW subchannel.
    Ccw(u32),
    /// A slot of a PCI bridge.
    Pci { bus: Seq<char>, slot: i64 },
}

/// Choosing where a network device goes.
pub open spec fn net_placed(q: QmpModel, use_ccw_bus: bool, frontend: Seq<char>) -> Step<NetPlace> {
    if use_ccw_bus {
        match q.ccw {
            None => (
                q,
                Flow::Done(
                    Err(message("CCW subchannel not available for virtio-net-ccw hotplug"@)),
                ),
            ),
            Some(ccw) => {
                let (after, slot) = ccw_added(ccw, frontend);
                (
                    QmpModel { ccw: Some(after), ..q },
                    Flow::Done(
                        match slot {
                            Ok(slot) => Ok(NetPlace::Ccw(slot)),
                            Err(error) => Err(
                                message(
                                    "CCW subchannel add_device failed: "@ + ccw_error_text(error),
                                ),
                            ),
                        },
                    ),
                )
            },
        }
    } else {
        match free_slot(q) {
            (q1, Flow::Waiting(command)) => (q1, Flow::Waiting(command)),
            (q1, Flow::Done(Err(error))) => (q1, Flow::Done(Err(error))),
            (q1, Flow::Done(Ok((bus, slot)))) => (
                q1,
                Flow::Done(Ok(NetPlace::Pci { bus, slot })),
            ),
        }
    }
}

/// The properties of a network device: on PCI with an interrupt vector for every queue in each
/// direction, one for the configuration and one for control.
pub open spec fn net_arguments(device: NetModel, place: NetPlace) -> Seq<ArgumentModel> {
    let common = seq![
        text_argument("netdev"@, device.netdev_id),
        text_argument("mac"@, device.mac),
        set_flag("mq"@),
    ];
    match place {
        NetPlace::Ccw(slot) => common.push(text_argument("devno"@, ccw_address(slot))),
        NetPlace::Pci { slot, .. } => common.push(
            text_argument("addr"@, zero_padded(dec(slot as int), 2)),
        ).push(integer_argument("vectors"@, 2 * device.num_queues + 2)),
    }
}

/// The names under which descriptors are passed: `prefix` and a number that counts up from zero.
pub open spec fn fd_names(prefix: Seq<char>, count: nat) -> Seq<Seq<char>> {
    Seq::new(count, |i: int| prefix + dec(i))
}

/// Passing a descriptor under a name.
pub open spec fn fd_named(q: QmpModel, fd: i32, name: Seq<char>) -> Step<()> {
    if q.replies.len() == 0 {
        (q, Flow::Waiting(CommandModel::PassFd { fd, name }))
    } else {
        (
            taken(q),
            Flow::Done(
                match done_in(q.replies[0]) {
                    Ok(_) => Ok(()),
                    Err(failure) => Err(
                        message(
                            "failed to pass "@ + name + " ("@ + dec(fd as int) + "): "@
                                + failure.text,
                        ),
                    ),
                },
            ),
        )
    }
}

/// Passing descriptors from `index` on, each under its name.
pub open spec fn fds_passed(q: QmpModel, prefix: Seq<char>, fds: Seq<i32>, index: int) -> Step<()>
    decreases fds.len() - index,
{
    if index < 0 || index >= fds.len() {
        (q, Flow::Done(Ok(())))
    } else {
        match fd_named(q, fds[index], prefix + dec(index)) {
            (q1, Flow::Waiting(command)) => (q1, Flow::Waiting(command)),
            (q1, Flow::Done(Err(error))) => (q1, Flow::Done(Err(error))),
            (q1, Flow::Done(Ok(_))) => fds_passed(q1, prefix, fds, index + 1),
        }
    }
}

/// The session after a network device could not be added: the device leaves the subchannel.
pub open spec fn net_released(q: QmpModel, use_ccw_bus: bool, frontend: Seq<char>) -> QmpModel {
    if use_ccw_bus {
        off_subchannel(q, frontend)
    } else {
        q
    }
}

/// Adding the host side of a network device, then the guest side. Where the guest side is refused,
/// the host side is removed again.
pub open spec fn net_added(
    q: QmpModel,
    netdev: NetdevModel,
    device: NetModel,
    use_ccw_bus: bool,
    place: NetPlace,
) -> Step<()> {
    let frontend = net_frontend(device);
    if q.replies.len() == 0 {
        (
            q,
            Flow::Waiting(
                CommandModel::NetdevAdd {
                    id: netdev.id,
                    fds: joined(fd_names("fd"@, netdev.fds.len()), ","@),
                    vhostfds: if netdev.vhostfds.len() == 0 {
                        None
                    } else {
                        Some(joined(fd_names("vhostfd"@, netdev.vhostfds.len()), ","@))
                    },
                },
            ),
        )
    } else {
        let q1 = taken(q);
        match done_in(q.replies[0]) {
            Err(failure) => (
                net_released(q1, use_ccw_bus, frontend),
                Flow::Done(Err(failure_error(failure))),
            ),
            Ok(_) => if q1.replies.len() == 0 {
                (
                    q1,
                    Flow::Waiting(
                        CommandModel::DeviceAdd {
                            driver: device.driver,
                            bus: match place {
                                NetPlace::Pci { bus, .. } => Some(bus),
                                NetPlace::Ccw(_) => None,
                            },
                            id: frontend,
                            arguments: net_arguments(device, place),
                        },
                    ),
                )
            } else {
                let q2 = taken(q1);
                match done_in(q1.replies[0]) {
                    Ok(_) => (
                        match place {
                            NetPlace::Pci { bus, slot } => QmpModel {
                                bridges: slot_recorded(q2.bridges, bus, slot, frontend),
                                ..q2
                            },
                            NetPlace::Ccw(_) => q2,
                        },
                        Flow::Done(Ok(())),
                    ),
                    Err(failure) => {
                        let q3 = net_released(q2, use_ccw_bus, frontend);
                        if q3.replies.len() == 0 {
                            (q3, Flow::Waiting(CommandModel::NetdevDel(netdev.id)))
                        } else {
                            (taken(q3), Flow::Done(Err(failure_error(failure))))
                        }
                    },
                }
            },
        }
    }
}

/// Hot-plugging a network device.
pub open spec fn net_plugged(
    q: QmpModel,
    netdev: NetdevModel,
    device: NetModel,
    use_ccw_bus: bool,
) -> Step<()> {
    match net_placed(q, use_ccw_bus, net_frontend(device)) {
        (q1, Flow::Waiting(command)) => (q1, Flow::Waiting(command)),
        (q1, Flow::Done(Err(error))) => (q1, Flow::Done(Err(error))),
        (q1, Flow::Done(Ok(place))) => match fds_passed(q1, "fd"@, netdev.fds, 0) {
            (q2, Flow::Waiting(command)) => (q2, Flow::Waiting(command)),
            (q2, Flow::Done(Err(error))) => (q2, Flow::Done(Err(error))),
            (q2, Flow::Done(Ok(_))) => match fds_passed(q2, "vhostfd"@, netdev.vhostfds, 0) {
                (q3, Flow::Waiting(command)) => (q3, Flow::Waiting(command)),
                (q3, Flow::Done(Err(error))) => (q3, Flow::Done(Err(error))),
                (q3, Flow::Done(Ok(_))) => net_added(q3, netdev, device, use_ccw_bus, place),
            },
        },
    }
}

/// Where a network device goes: a CCW slot, or a PCI bus with a slot.
pub enum Placement {
    Ccw(u32),
    Pci { bus: String, slot: i64 },
}

impl DeepView for Placement {
    type V = NetPlace;

    open spec fn deep_view(&self) -> NetPlace {
        match *self {
            Placement::Ccw(slot) => NetPlace::Ccw(slot),
            Placement::Pci { bus, slot } => NetPlace::Pci { bus: bus@, slot },
        }
    }
}

fn names_of_fds(prefix: &str, count: usize) -> (r: Vec<String>)
    ensures
        r.deep_view() == fd_names(prefix@, count as nat),
{
    let mut names: Vec<String> = Vec::new();
    let mut i: usize = 0;
    while i < count
        invariant
            0 <= i <= count,
            names@.len() == i,
            forall|j: int| 0 <= j < i ==> (#[trigger] names@[j])@ == prefix@ + dec(j),
        decreases count - i,
    {
        names.push(cat2(prefix, dec_u64(i as u64).as_str()));
        i = i + 1;
    }
    assert(names.deep_view() =~= fd_names(prefix@, count as nat));
    names
}

impl Qmp {
    fn place_net(&mut self, use_ccw_bus: bool, frontend: &str) -> (r: Result<
        Result<Placement, Error>,
        QmpCommand,
    >)
        ensures
            (final(self)@, flow(r)) == net_placed(old(self)@, use_ccw_bus, frontend@),
    {
        if use_ccw_bus {
            match self.ccw_subchannel.take() {
                None => Ok(
                    Err(
                        Error::msg_str("CCW subchannel not available for virtio-net-ccw hotplug"),
                    ),
                ),
                Some(mut subchannel) => {
                    let added = subchannel.add_device(frontend);
                    self.ccw_subchannel = Some(subchannel);
                    match added {
                        Ok(slot) => Ok(Ok(Placement::Ccw(slot))),
                        Err(error) => Ok(
                            Err(
                                Error::msg(
                                    cat2(
                                        "CCW subchannel add_device failed: ",
                                        error.text().as_str(),
                                    ),
                                ),
                            ),
                        ),
                    }
                },
            }
        } else {
            match self.find_free_slot()? {
                Err(error) => Ok(Err(error)),
                Ok((bus, slot)) => Ok(Ok(Placement::Pci { bus, slot })),
            }
        }
    }

    /// Passes a descriptor under a name.
    pub fn pass_fd(&mut self, fd: i32, fdname: &str) -> (r: Result<Result<(), Error>, QmpCommand>)
        ensures
            (final(self)@, flow(r)) == fd_named(old(self)@, fd, fdname@),
    {
        let reply = self.ask(QmpCommand::PassFd { fd, name: fdname.to_owned() })?;
        match decode_done(reply) {
            Ok(_) => Ok(Ok(())),
            Err(failure) => Ok(
                Err(
                    Error::msg(
                        cat5(
                            "failed to pass ",
                            fdname,
                            " (",
                            dec_i64(fd as i64).as_str(),
                            "): ",
                        ).concat(failure.text.as_str()),
                    ),
                ),
            ),
        }
    }

    /// Passes descriptors, each under `prefix` and its number.
    fn pass_fds(&mut self, prefix: &str, fds: &Vec<i32>) -> (r: Result<
        Result<(), Error>,
        QmpCommand,
    >)
        ensures
            (final(self)@, flow(r)) == fds_passed(old(self)@, prefix@, fds@, 0),
    {
        let mut i: usize = 0;
        while i < fds.len()
            invariant
                0 <= i <= fds@.len(),
                fds_passed(old(self)@, prefix@, fds@, 0) == fds_passed(
                    self@,
                    prefix@,
                    fds@,
                    i as int,
                ),
            decreases fds@.len() - i,
        {
            let name = cat2(prefix, dec_u64(i as u64).as_str());
            if let Err(error) = self.pass_fd(fds[i], name.as_str())? {
                return Ok(Err(error));
            }
            i = i + 1;
        }
        Ok(Ok(()))
    }

    fn release_net(&mut self, use_ccw_bus: bool, frontend: &str)
        ensures
            final(self)@ == net_released(old(self)@, use_ccw_bus, frontend@),
    {
        if use_ccw_bus {
            self.leave_subchannel(frontend);
        }
    }

    fn add_net(
        &mut self,
        netdev: &Netdev,
        device: &DeviceVirtioNet,
        use_ccw_bus: bool,
        place: Placement,
    ) -> (r: Result<Result<(), Error>, QmpCommand>)
        requires
            place is Pci ==> 2 * device.num_queues + 2 <= u32::MAX,
        ensures
            (final(self)@, flow(r)) == net_added(
                old(self)@,
                netdev@,
                device@,
                use_ccw_bus,
                place.deep_view(),
            ),
    {
        let frontend = cat2("frontend-", device.netdev_id.as_str());
        let vhostfds: Option<String> = if netdev.vhostfds.len() == 0 {
            None
        } else {
            Some(join(&names_of_fds("vhostfd", netdev.vhostfds.len()), ","))
        };
        let reply = self.ask(
            QmpCommand::NetdevAdd {
                id: netdev.id.clone(),
                fds: join(&names_of_fds("fd", netdev.fds.len()), ","),
                vhostfds,
            },
        )?;
        if let Err(failure) = decode_done(reply) {
            self.release_net(use_ccw_bus, frontend.as_str());
            return Ok(Err(failure.into_error()));
        }
        let mut arguments: Vec<Argument> = Vec::new();
        push_text(&mut arguments, "netdev", device.netdev_id.clone());
        push_text(&mut arguments, "mac", device.mac_addr.clone());
        push_flag(&mut arguments, "mq");
        assert(arguments.deep_view() =~= seq![
            text_argument("netdev"@, device.netdev_id@),
            text_argument("mac"@, device.mac_addr@),
            set_flag("mq"@),
        ]);
        let bus: Option<String> = match &place {
            Placement::Ccw(slot) => {
                push_text(
                    &mut arguments,
                    "devno",
                    cat2("fe.0.", crate::text::hex_padded(*slot as u64, 4).as_str()),
                );
                None
            },
            Placement::Pci { bus, slot } => {
                push_text(&mut arguments, "addr", pad(dec_i64(*slot), 2));
                push_integer(&mut arguments, "vectors", (2 * device.num_queues + 2) as i64);
                Some(bus.clone())
            },
        };
        let reply = self.ask(
            QmpCommand::DeviceAdd {
                driver: device.device_driver.clone(),
                bus,
                id: frontend.clone(),
                arguments,
            },
        )?;
        if let Err(failure) = decode_done(reply) {
            self.release_net(use_ccw_bus, frontend.as_str());
            let _ = self.ask(QmpCommand::NetdevDel(netdev.id.clone()))?;
            return Ok(Err(failure.into_error()));
        }
        if let Placement::Pci { bus, slot } = place {
            self.record_pci_bridge_slot(bus.as_str(), slot, frontend.as_str());
        }
        Ok(Ok(()))
    }

    /// Hot-plugs a network device, on the CCW subchannel or on a PCI bridge.
    pub fn hotplug_network_device(
        &mut self,
        netdev: &Netdev,
        virtio_net_device: &DeviceVirtioNet,
        use_ccw_bus: bool,
    ) -> (r: Result<Result<(), Error>, QmpCommand>)
        requires
            !use_ccw_bus ==> 2 * virtio_net_device.num_queues + 2 <= u32::MAX,
        ensures
            (final(self)@, flow(r)) == net_plugged(
                old(self)@,
                netdev@,
                virtio_net_device@,
                use_ccw_bus,
            ),
    {
        let frontend = cat2("frontend-", virtio_net_device.netdev_id.as_str());
        let place = match self.place_net(use_ccw_bus, frontend.as_str())? {
            Ok(place) => place,
            Err(error) => {
                return Ok(Err(error));
            },
        };
        if let Err(error) = self.pass_fds("fd", &netdev.fds)? {
            return Ok(Err(error));
        }
        if let Err(error) = self.pass_fds("vhostfd", &netdev.vhostfds)? {
            return Ok(Err(error));
        }
        self.add_net(netdev, virtio_net_device, use_ccw_bus, place)
    }
}

} // verus!
