//! Hot-plugging vCPUs and passed-through devices.
use crate::error::{in_context, message, Error};
use crate::pci_path::PciPath;
use crate::qmp::cleanup::DEFAULT_READ_TIMEOUT;
use crate::qmp::pci::device_path;
use crate::qmp::session::{decode_done, done_in, flow, taken, Flow, Qmp, QmpModel, Step};
use crate::qmp::wire::{
    failure_error, integer_argument, push_integer, push_text, text_argument, unexpected_reply,
    Argument, ArgumentModel, CommandModel, CpuThread, FailureModel, HotpluggableCpu, QmpCommand,
    QmpError, QmpReply,
};
use crate::text::{begins_with, cat2, dec, dec_i64, has_prefix, same};
use std::collections::HashMap;
use vstd::prelude::*;

verus! {

broadcast use vstd::std_specs::hash::group_hash_axioms;

/// The name of the vCPU on that core.
pub open spec fn vcpu_name(core_id: int) -> Seq<char> {
    "cpu-"@ + dec(core_id)
}

/// Whether the vCPUs of a driver are told apart by their cores alone.
pub open spec fn flat_topology(driver: Seq<char>) -> bool {
    driver == "host-s390x-cpu"@ || driver == "host-powerpc64-cpu"@
}

/// The properties with which a vCPU is added; none where it cannot be added: it has no core, is
/// plugged in, or lacks a socket or a thread that its driver needs.
pub open spec fn vcpu_arguments(cpu: HotpluggableCpu) -> Option<Seq<ArgumentModel>> {
    match cpu.core_id {
        None => None,
        Some(core_id) => if cpu.plugged {
            None
        } else {
            let core = seq![integer_argument("core-id"@, core_id as int)];
            if flat_topology(cpu.driver@) {
                Some(core)
            } else {
                match (cpu.socket_id, cpu.thread_id) {
                    (Some(socket_id), Some(thread_id)) => Some(
                        core.push(integer_argument("socket-id"@, socket_id as int)).push(
                            integer_argument("thread-id"@, thread_id as int),
                        ),
                    ),
                    _ => None,
                }
            }
        },
    }
}

/// Adding vCPUs from `index` of the list on, until `wanted` are added. `added` were added before.
pub open spec fn vcpus_added(
    q: QmpModel,
    cpus: Seq<HotpluggableCpu>,
    index: int,
    wanted: u32,
    added: u32,
) -> Step<u32>
    decreases cpus.len() - index,
{
    if index < 0 || index >= cpus.len() || added >= wanted {
        (q, Flow::Done(Ok(added)))
    } else {
        match vcpu_arguments(cpus[index]) {
            None => vcpus_added(q, cpus, index + 1, wanted, added),
            Some(arguments) => if q.replies.len() == 0 {
                (
                    q,
                    Flow::Waiting(
                        CommandModel::DeviceAdd {
                            driver: cpus[index].driver@,
                            bus: None,
                            id: vcpu_name(cpus[index].core_id->0 as int),
                            arguments,
                        },
                    ),
                )
            } else {
                match done_in(q.replies[0]) {
                    Ok(_) => vcpus_added(taken(q), cpus, index + 1, wanted, (added + 1) as u32),
                    Err(failure) => (taken(q), Flow::Done(Err(failure_error(failure)))),
                }
            },
        }
    }
}

/// Removing vCPUs from `index` of the list on, until `wanted` are removed. `removed` were removed
/// before.
pub open spec fn vcpus_removed(
    q: QmpModel,
    cpus: Seq<HotpluggableCpu>,
    index: int,
    wanted: u32,
    removed: u32,
) -> Step<u32>
    decreases cpus.len() - index,
{
    if index < 0 || index >= cpus.len() || removed >= wanted {
        (q, Flow::Done(Ok(removed)))
    } else if cpus[index].core_id is None || !cpus[index].plugged {
        vcpus_removed(q, cpus, index + 1, wanted, removed)
    } else if q.replies.len() == 0 {
        (q, Flow::Waiting(CommandModel::DeviceDel(vcpu_name(cpus[index].core_id->0 as int))))
    } else {
        match done_in(q.replies[0]) {
            Ok(_) => vcpus_removed(taken(q), cpus, index + 1, wanted, (removed + 1) as u32),
            Err(failure) => (taken(q), Flow::Done(Err(failure_error(failure)))),
        }
    }
}

/// No more vCPUs are added than were asked for, and no more than can be added.
pub proof fn law_vcpus_added_bounded(
    q: QmpModel,
    cpus: Seq<HotpluggableCpu>,
    index: int,
    wanted: u32,
    added: u32,
)
    requires
        0 <= index <= cpus.len(),
        added <= wanted,
    ensures
        vcpus_added(q, cpus, index, wanted, added).1 matches Flow::Done(Ok(count)) ==> added
            <= count <= wanted && count - added <= cpus.len() - index,
    decreases cpus.len() - index,
{
    if index < cpus.len() && added < wanted {
        match vcpu_arguments(cpus[index]) {
            None => law_vcpus_added_bounded(q, cpus, index + 1, wanted, added),
            Some(_) => if q.replies.len() > 0 && done_in(q.replies[0]) is Ok {
                law_vcpus_added_bounded(taken(q), cpus, index + 1, wanted, (added + 1) as u32);
            },
        }
    }
}

/// What a reply says to a query for vCPUs.
pub open spec fn cpus_in(reply: QmpReply) -> Result<Seq<HotpluggableCpu>, FailureModel> {
    match reply {
        QmpReply::Cpus(cpus) => Ok(cpus@),
        QmpReply::Failed(error) => Err(error.deep_view()),
        _ => Err(unexpected_reply()),
    }
}

/// Adding vCPUs: up to `wanted` of those that QEMU lists.
pub open spec fn vcpus_plugged(q: QmpModel, wanted: u32) -> Step<u32> {
    if q.replies.len() == 0 {
        (q, Flow::Waiting(CommandModel::QueryHotpluggableCpus))
    } else {
        match cpus_in(q.replies[0]) {
            Err(failure) => (taken(q), Flow::Done(Err(failure_error(failure)))),
            Ok(cpus) => vcpus_added(taken(q), cpus, 0, wanted, 0),
        }
    }
}

/// Removing vCPUs: up to `wanted` of those that QEMU lists.
pub open spec fn vcpus_unplugged(q: QmpModel, wanted: u32) -> Step<u32> {
    if q.replies.len() == 0 {
        (q, Flow::Waiting(CommandModel::QueryHotpluggableCpus))
    } else {
        match cpus_in(q.replies[0]) {
            Err(failure) => (taken(q), Flow::Done(Err(failure_error(failure)))),
            Ok(cpus) => vcpus_removed(taken(q), cpus, 0, wanted, 0),
        }
    }
}

/// The host threads of vCPUs.
#[derive(Clone, Debug)]
pub struct VcpuThreadIds {
    pub vcpus: HashMap<u32, u32>,
}

impl DeepView for VcpuThreadIds {
    type V = Map<u32, u32>;

    open spec fn deep_view(&self) -> Map<u32, u32> {
        self.vcpus@
    }
}

/// The host threads of the listed vCPUs, by their index: of two with one index, the later counts.
pub open spec fn threads_of(threads: Seq<CpuThread>) -> Map<u32, u32>
    decreases threads.len(),
{
    if threads.len() == 0 {
        Map::empty()
    } else {
        threads_of(threads.drop_last()).insert(
            threads.last().cpu_index as u32,
            threads.last().thread_id as u32,
        )
    }
}

/// Asking for the host threads of the vCPUs.
pub open spec fn threads_queried(q: QmpModel) -> Step<Map<u32, u32>> {
    if q.replies.len() == 0 {
        (q, Flow::Waiting(CommandModel::QueryCpusFast))
    } else {
        (
            taken(q),
            Flow::Done(
                match q.replies[0] {
                    QmpReply::Threads(threads) => Ok(threads_of(threads@)),
                    QmpReply::Failed(failure) => Err(
                        message("query_cpus_fast failed: "@ + failure.debug@),
                    ),
                    _ => Err(
                        message("query_cpus_fast failed: "@ + unexpected_reply().debug),
                    ),
                },
            ),
        )
    }
}

/// The driver of adjunct processors, which have no PCI path.
pub const VFIO_AP: &'static str = "vfio-ap";

/// How long the addition of a passed-through device may take, in nanoseconds.
pub const VFIO_READ_TIMEOUT: u64 = 5_000_000_000;

/// The address of a passed-through device on the host, with its domain.
pub open spec fn host_address(bus_slot_func: Seq<char>) -> Seq<char> {
    if begins_with(bus_slot_func, "0000"@) {
        bus_slot_func
    } else {
        "0000:"@ + bus_slot_func
    }
}

/// The command that adds a passed-through device.
pub open spec fn vfio_command(
    hostdev_id: Seq<char>,
    sysfs_path: Seq<char>,
    bus_slot_func: Seq<char>,
    driver: Seq<char>,
    bus: Seq<char>,
) -> CommandModel {
    if driver == VFIO_AP@ {
        CommandModel::DeviceAdd {
            driver,
            bus: None,
            id: hostdev_id,
            arguments: seq![text_argument("sysfsdev"@, sysfs_path)],
        }
    } else {
        CommandModel::DeviceAdd {
            driver,
            bus: Some(bus),
            id: hostdev_id,
            arguments: seq![
                text_argument("addr"@, "0x0"@),
                text_argument("host"@, host_address(bus_slot_func)),
                text_argument("multifunction"@, "off"@),
            ],
        }
    }
}

/// Adding a passed-through device, with more time for the reply than usual, and looking its path
/// up where it has one.
pub open spec fn vfio_plugged(
    q: QmpModel,
    command: CommandModel,
    hostdev_id: Seq<char>,
    has_path: bool,
) -> Step<Option<Seq<u8>>> {
    if q.replies.len() == 0 {
        (q, Flow::Waiting(CommandModel::SetReadTimeout(VFIO_READ_TIMEOUT as int)))
    } else {
        let q1 = taken(q);
        match done_in(q.replies[0]) {
            Err(failure) => (q1, Flow::Done(Err(message(failure.text)))),
            Ok(_) => if q1.replies.len() == 0 {
                (q1, Flow::Waiting(command))
            } else {
                let q2 = taken(q1);
                match done_in(q1.replies[0]) {
                    Err(failure) => (
                        q2,
                        Flow::Done(
                            Err(message("device_add vfio device failed "@ + failure.debug)),
                        ),
                    ),
                    Ok(_) => if q2.replies.len() == 0 {
                        (
                            q2,
                            Flow::Waiting(
                                CommandModel::SetReadTimeout(DEFAULT_READ_TIMEOUT as int),
                            ),
                        )
                    } else {
                        match done_in(q2.replies[0]) {
                            Err(failure) => (
                                taken(q2),
                                Flow::Done(Err(message(failure.text))),
                            ),
                            Ok(_) => if !has_path {
                                (taken(q2), Flow::Done(Ok(None)))
                            } else {
                                match device_path(taken(q2), hostdev_id) {
                                    (q3, Flow::Waiting(command)) => (q3, Flow::Waiting(command)),
                                    (q3, Flow::Done(Ok(path))) => (
                                        q3,
                                        Flow::Done(Ok(Some(path))),
                                    ),
                                    (q3, Flow::Done(Err(error))) => (
                                        q3,
                                        Flow::Done(
                                            Err(
                                                in_context(
                                                    error,
                                                    "get device by qdev_id failed"@,
                                                ),
                                            ),
                                        ),
                                    ),
                                }
                            },
                        }
                    },
                }
            },
        }
    }
}

/// The name of the vCPU on that core.
pub fn vcpu_id_from_core_id(core_id: i64) -> (r: String)
    ensures
        r@ == vcpu_name(core_id as int),
{
    cat2("cpu-", dec_i64(core_id).as_str())
}

/// Whether the vCPUs of a driver are told apart by their cores alone.
pub fn is_flat_cpu_topology(driver: &str) -> (r: bool)
    ensures
        r == flat_topology(driver@),
{
    same(driver, "host-s390x-cpu") || same(driver, "host-powerpc64-cpu")
}

fn arguments_of_vcpu(cpu: &HotpluggableCpu) -> (r: Option<(i64, Vec<Argument>)>)
    ensures
        match r {
            Some((core_id, arguments)) => cpu.core_id == Some(core_id) && vcpu_arguments(*cpu)
                == Some(arguments.deep_view()),
            None => vcpu_arguments(*cpu) is None,
        },
{
    let core_id: i64 = match cpu.core_id {
        Some(core_id) => core_id,
        None => {
            return None;
        },
    };
    if cpu.plugged {
        return None;
    }
    let mut arguments: Vec<Argument> = Vec::new();
    push_integer(&mut arguments, "core-id", core_id);
    assert(arguments.deep_view() =~= seq![integer_argument("core-id"@, core_id as int)]);
    if !is_flat_cpu_topology(cpu.driver.as_str()) {
        match (cpu.socket_id, cpu.thread_id) {
            (Some(socket_id), Some(thread_id)) => {
                push_integer(&mut arguments, "socket-id", socket_id);
                push_integer(&mut arguments, "thread-id", thread_id);
            },
            _ => {
                return None;
            },
        }
    }
    Some((core_id, arguments))
}

fn decode_cpus(reply: QmpReply) -> (r: Result<Vec<HotpluggableCpu>, QmpError>)
    ensures
        match r {
            Ok(cpus) => cpus_in(reply) == Ok::<Seq<HotpluggableCpu>, FailureModel>(cpus@),
            Err(error) => cpus_in(reply) == Err::<Seq<HotpluggableCpu>, FailureModel>(
                error.deep_view(),
            ),
        },
{
    match reply {
        QmpReply::Cpus(cpus) => Ok(cpus),
        QmpReply::Failed(error) => Err(error),
        _ => Err(QmpError::unexpected()),
    }
}

impl Qmp {
    /// Adds up to `vcpu_cnt` vCPUs and gives the number that was added.
    pub fn hotplug_vcpus(&mut self, vcpu_cnt: u32) -> (r: Result<Result<u32, Error>, QmpCommand>)
        ensures
            (final(self)@, flow(r)) == vcpus_plugged(old(self)@, vcpu_cnt),
    {
        let reply = self.ask(QmpCommand::QueryHotpluggableCpus)?;
        let cpus = match decode_cpus(reply) {
            Ok(cpus) => cpus,
            Err(failure) => {
                return Ok(Err(failure.into_error()));
            },
        };
        let ghost first = self@;
        let mut hotplugged: u32 = 0;
        let mut i: usize = 0;
        while i < cpus.len() && hotplugged < vcpu_cnt
            invariant
                0 <= i <= cpus@.len(),
                hotplugged <= vcpu_cnt,
                vcpus_plugged(old(self)@, vcpu_cnt) == vcpus_added(first, cpus@, 0, vcpu_cnt, 0),
                vcpus_added(first, cpus@, 0, vcpu_cnt, 0) == vcpus_added(
                    self@,
                    cpus@,
                    i as int,
                    vcpu_cnt,
                    hotplugged,
                ),
            decreases cpus@.len() - i,
        {
            if let Some((core_id, arguments)) = arguments_of_vcpu(&cpus[i]) {
                let reply = self.ask(
                    QmpCommand::DeviceAdd {
                        driver: cpus[i].driver.clone(),
                        bus: None,
                        id: vcpu_id_from_core_id(core_id),
                        arguments,
                    },
                )?;
                if let Err(failure) = decode_done(reply) {
                    return Ok(Err(failure.into_error()));
                }
                hotplugged = hotplugged + 1;
            }
            i = i + 1;
        }
        Ok(Ok(hotplugged))
    }

    /// Removes up to `vcpu_cnt` vCPUs and gives the number that was removed.
    pub fn hotunplug_vcpus(&mut self, vcpu_cnt: u32) -> (r: Result<Result<u32, Error>, QmpCommand>)
        ensures
            (final(self)@, flow(r)) == vcpus_unplugged(old(self)@, vcpu_cnt),
    {
        let reply = self.ask(QmpCommand::QueryHotpluggableCpus)?;
        let cpus = match decode_cpus(reply) {
            Ok(cpus) => cpus,
            Err(failure) => {
                return Ok(Err(failure.into_error()));
            },
        };
        let ghost first = self@;
        let mut hotunplugged: u32 = 0;
        let mut i: usize = 0;
        while i < cpus.len() && hotunplugged < vcpu_cnt
            invariant
                0 <= i <= cpus@.len(),
                hotunplugged <= vcpu_cnt,
                vcpus_unplugged(old(self)@, vcpu_cnt) == vcpus_removed(
                    first,
                    cpus@,
                    0,
                    vcpu_cnt,
                    0,
                ),
                vcpus_removed(first, cpus@, 0, vcpu_cnt, 0) == vcpus_removed(
                    self@,
                    cpus@,
                    i as int,
                    vcpu_cnt,
                    hotunplugged,
                ),
            decreases cpus@.len() - i,
        {
            if let Some(core_id) = cpus[i].core_id {
                if cpus[i].plugged {
                    let reply = self.ask(QmpCommand::DeviceDel(vcpu_id_from_core_id(core_id)))?;
                    if let Err(failure) = decode_done(reply) {
                        return Ok(Err(failure.into_error()));
                    }
                    hotunplugged = hotunplugged + 1;
                }
            }
            i = i + 1;
        }
        Ok(Ok(hotunplugged))
    }

    /// The host threads of the vCPUs.
    pub fn get_vcpu_thread_ids(&mut self) -> (r: Result<
        Result<VcpuThreadIds, Error>,
        QmpCommand,
    >)
        ensures
            (final(self)@, flow(r)) == threads_queried(old(self)@),
    {
        let reply = self.ask(QmpCommand::QueryCpusFast)?;
        let threads = match reply {
            QmpReply::Threads(threads) => threads,
            QmpReply::Failed(failure) => {
                return Ok(
                    Err(
                        Error::msg(cat2("query_cpus_fast failed: ", failure.debug.as_str())),
                    ),
                );
            },
            _ => {
                return Ok(
                    Err(
                        Error::msg(
                            cat2(
                                "query_cpus_fast failed: ",
                                QmpError::unexpected().debug.as_str(),
                            ),
                        ),
                    ),
                );
            },
        };
        let mut vcpus: HashMap<u32, u32> = HashMap::new();
        let mut i: usize = 0;
        while i < threads.len()
            invariant
                0 <= i <= threads@.len(),
                vcpus@ == threads_of(threads@.take(i as int)),
            decreases threads@.len() - i,
        {
            proof {
                assert(threads@.take(i + 1).drop_last() =~= threads@.take(i as int));
                assert(threads@.take(i + 1).last() == threads@[i as int]);
            }
            let cpu_index: u32 = #[verifier::truncate]
            (threads[i].cpu_index as u32);
            let thread_id: u32 = #[verifier::truncate]
            (threads[i].thread_id as u32);
            vcpus.insert(cpu_index, thread_id);
            i = i + 1;
        }
        assert(threads@.take(i as int) =~= threads@);
        Ok(Ok(VcpuThreadIds { vcpus }))
    }

    /// Adds a passed-through device and gives its path, where it has one.
    pub fn hotplug_vfio_device(
        &mut self,
        hostdev_id: &str,
        sysfs_path: &str,
        bus_slot_func: &str,
        driver: &str,
        bus: &str,
    ) -> (r: Result<Result<Option<PciPath>, Error>, QmpCommand>)
        ensures
            (final(self)@, flow(r)) == vfio_plugged(
                old(self)@,
                vfio_command(hostdev_id@, sysfs_path@, bus_slot_func@, driver@, bus@),
                hostdev_id@,
                driver@ != VFIO_AP@,
            ),
    {
        let is_ap: bool = same(driver, VFIO_AP);
        let mut arguments: Vec<Argument> = Vec::new();
        let on_bus: Option<String> = if is_ap {
            push_text(&mut arguments, "sysfsdev", sysfs_path.to_owned());
            assert(arguments.deep_view() =~= seq![text_argument("sysfsdev"@, sysfs_path@)]);
            None
        } else {
            let host: String = if has_prefix(bus_slot_func, "0000") {
                bus_slot_func.to_owned()
            } else {
                cat2("0000:", bus_slot_func)
            };
            push_text(&mut arguments, "addr", "0x0".to_owned());
            push_text(&mut arguments, "host", host);
            push_text(&mut arguments, "multifunction", "off".to_owned());
            assert(arguments.deep_view() =~= seq![
                text_argument("addr"@, "0x0"@),
                text_argument("host"@, host_address(bus_slot_func@)),
                text_argument("multifunction"@, "off"@),
            ]);
            Some(bus.to_owned())
        };
        let reply = self.ask(QmpCommand::SetReadTimeout(VFIO_READ_TIMEOUT))?;
        if let Err(failure) = decode_done(reply) {
            return Ok(Err(Error::msg(failure.text)));
        }
        let reply = self.ask(
            QmpCommand::DeviceAdd {
                driver: driver.to_owned(),
                bus: on_bus,
                id: hostdev_id.to_owned(),
                arguments,
            },
        )?;
        if let Err(failure) = decode_done(reply) {
            return Ok(
                Err(
                    Error::msg(
                        cat2("device_add vfio device failed ", failure.debug.as_str()),
                    ),
                ),
            );
        }
        let reply = self.ask(QmpCommand::SetReadTimeout(DEFAULT_READ_TIMEOUT))?;
        if let Err(failure) = decode_done(reply) {
            return Ok(Err(Error::msg(failure.text)));
        }
        if is_ap {
            return Ok(Ok(None));
        }
        match self.get_device_by_qdev_id(hostdev_id)? {
            Ok(path) => Ok(Ok(Some(path))),
            Err(error) => Ok(Err(error.context_str("get device by qdev_id failed"))),
        }
    }
}

} // verus!
