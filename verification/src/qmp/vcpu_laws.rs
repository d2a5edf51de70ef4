//! Which vCPUs are added and removed, and how many.
use crate::error::LayerModel;
use crate::qmp::session::{taken, Flow, QmpModel};
use crate::qmp::vcpu::{
    host_address, threads_of, threads_queried, vcpus_added, vcpus_plugged, vcpus_removed,
    vcpus_unplugged, vfio_command, vfio_plugged,
};
use crate::qmp::wire::{
    integer_argument, ArgumentModel, CommandModel, CpuThread, HotpluggableCpu, QmpReply, ValueModel,
};
use crate::text::{begins_with, dec};
use vstd::prelude::*;

verus! {

/// Whether a listed vCPU can be removed: it has a core and is plugged in.
pub open spec fn removable(cpu: HotpluggableCpu) -> bool {
    cpu.core_id is Some && cpu.plugged
}

/// Whether a listed vCPU can be added: it has a core, is not plugged in, and has a socket and a
/// thread unless its driver knows cores alone.
pub open spec fn addable(cpu: HotpluggableCpu) -> bool {
    &&& cpu.core_id is Some
    &&& !cpu.plugged
    &&& {
        ||| cpu.driver@ == "host-s390x-cpu"@
        ||| cpu.driver@ == "host-powerpc64-cpu"@
        ||| cpu.socket_id is Some && cpu.thread_id is Some
    }
}

/// The smaller of two numbers.
pub open spec fn smaller(a: int, b: int) -> int {
    if a <= b {
        a
    } else {
        b
    }
}

/// The list from `index` on, one entry further.
proof fn lemma_filter_from(
    cpus: Seq<HotpluggableCpu>,
    index: int,
    p: spec_fn(HotpluggableCpu) -> bool,
)
    requires
        0 <= index < cpus.len(),
    ensures
        cpus.skip(index).filter(p) == if p(cpus[index]) {
            seq![cpus[index]] + cpus.skip(index + 1).filter(p)
        } else {
            cpus.skip(index + 1).filter(p)
        },
{
    let head = seq![cpus[index]];
    let tail = cpus.skip(index + 1);
    assert(cpus.skip(index) =~= head + tail);
    Seq::filter_distributes_over_add(head, tail, p);
    reveal_with_fuel(Seq::filter, 2);
    assert(head.drop_last() =~= Seq::<HotpluggableCpu>::empty());
    assert(head.filter(p) =~= if p(cpus[index]) {
        head
    } else {
        seq![]
    });
    assert(Seq::<HotpluggableCpu>::empty() + tail.filter(p) =~= tail.filter(p));
}

proof fn lemma_removed(
    q: QmpModel,
    cpus: Seq<HotpluggableCpu>,
    index: int,
    wanted: u32,
    removed: u32,
)
    requires
        0 <= index <= cpus.len(),
        removed <= wanted,
    ensures
        ({
            let due = cpus.skip(index).filter(|cpu: HotpluggableCpu| removable(cpu));
            let total = smaller(wanted - removed, due.len() as int);
            let (after, came) = vcpus_removed(q, cpus, index, wanted, removed);
            (forall|i: int|
                0 <= i < q.replies.len() && i < total ==> #[trigger] q.replies[i] is Done) ==> {
                if q.replies.len() < total {
                    let cpu = due[q.replies.len() as int];
                    came == Flow::<u32, CommandModel>::Waiting(
                        CommandModel::DeviceDel("cpu-"@ + dec(cpu.core_id->0 as int)),
                    )
                } else {
                    &&& came == Flow::<u32, CommandModel>::Done(Ok((removed + total) as u32))
                    &&& after == (QmpModel { replies: q.replies.skip(total), ..q })
                }
            }
        }),
    decreases cpus.len() - index,
{
    let p = |cpu: HotpluggableCpu| removable(cpu);
    let due = cpus.skip(index).filter(p);
    let total = smaller(wanted - removed, due.len() as int);
    if index >= cpus.len() {
        assert(cpus.skip(index) =~= seq![]);
        reveal_with_fuel(Seq::filter, 1);
        assert(due.len() == 0);
        assert(q.replies.skip(0) =~= q.replies);
    } else {
        lemma_filter_from(cpus, index, p);
        let later = cpus.skip(index + 1).filter(p);
        if removed >= wanted {
            assert(q.replies.skip(0) =~= q.replies);
        } else if !removable(cpus[index]) {
            lemma_removed(q, cpus, index + 1, wanted, removed);
        } else {
            assert(due[0] == cpus[index]);
            if q.replies.len() > 0 {
                let rest = taken(q);
                lemma_removed(rest, cpus, index + 1, wanted, (removed + 1) as u32);
                if forall|i: int|
                    0 <= i < q.replies.len() && i < total ==> #[trigger] q.replies[i] is Done {
                    assert(q.replies[0] is Done);
                    assert forall|i: int|
                        0 <= i < rest.replies.len() && i < total - 1 implies #[trigger] rest.replies[i] is Done by {
                        assert(q.replies[i + 1] is Done);
                    }
                    if rest.replies.len() < total - 1 {
                        assert(due[rest.replies.len() as int + 1] == later[rest.replies.len() as int]);
                    } else {
                        assert(rest.replies.skip(total - 1) =~= q.replies.skip(total));
                    }
                }
            }
        }
    }
}

/// Where QEMU takes every removal, as many vCPUs are removed as are asked for, or all that can be
/// removed where those are fewer. They are the first of the list that have a core and are plugged
/// in, in the order of the list, and the number that comes back is how many there were.
pub proof fn law_first_plugged_vcpus_are_removed(
    q: QmpModel,
    cpus: Vec<HotpluggableCpu>,
    accepted: nat,
    wanted: u32,
)
    ensures
        ({
            let due = cpus@.filter(|cpu: HotpluggableCpu| removable(cpu));
            let total = smaller(wanted as int, due.len() as int);
            let replies = seq![QmpReply::Cpus(cpus)] + Seq::new(
                accepted,
                |i: int| QmpReply::Done,
            );
            let came = vcpus_unplugged(QmpModel { replies, ..q }, wanted).1;
            if accepted < total {
                came == Flow::<u32, CommandModel>::Waiting(
                    CommandModel::DeviceDel("cpu-"@ + dec(due[accepted as int].core_id->0 as int)),
                )
            } else {
                came == Flow::<u32, CommandModel>::Done(Ok(total as u32))
            }
        }),
        vcpus_unplugged(QmpModel { replies: seq![], ..q }, wanted).1 == Flow::<
            u32,
            CommandModel,
        >::Waiting(CommandModel::QueryHotpluggableCpus),
{
    let done = Seq::new(accepted, |i: int| QmpReply::Done);
    let replies = seq![QmpReply::Cpus(cpus)] + done;
    let q0 = QmpModel { replies, ..q };
    assert(replies.drop_first() =~= done);
    assert(cpus@.skip(0) =~= cpus@);
    lemma_removed(taken(q0), cpus@, 0, wanted, 0);
}

/// Whether an addition names a vCPU as it is listed: by its driver and its core, and by its socket
/// and its thread unless the driver knows cores alone.
pub open spec fn adds_vcpu(command: CommandModel, cpu: HotpluggableCpu) -> bool {
    command matches CommandModel::DeviceAdd { driver, bus, id, arguments } && {
        &&& driver == cpu.driver@
        &&& bus is None
        &&& id == "cpu-"@ + dec(cpu.core_id->0 as int)
        &&& arguments.contains(
            ArgumentModel {
                name: "core-id"@,
                value: ValueModel::Integer(cpu.core_id->0 as int),
            },
        )
        &&& if driver == "host-s390x-cpu"@ || driver == "host-powerpc64-cpu"@ {
            arguments.len() == 1
        } else {
            &&& arguments.len() == 3
            &&& arguments.contains(
                ArgumentModel {
                    name: "socket-id"@,
                    value: ValueModel::Integer(cpu.socket_id->0 as int),
                },
            )
            &&& arguments.contains(
                ArgumentModel {
                    name: "thread-id"@,
                    value: ValueModel::Integer(cpu.thread_id->0 as int),
                },
            )
        }
    }
}

proof fn lemma_added(
    q: QmpModel,
    cpus: Seq<HotpluggableCpu>,
    index: int,
    wanted: u32,
    added: u32,
)
    requires
        0 <= index <= cpus.len(),
        added <= wanted,
    ensures
        ({
            let due = cpus.skip(index).filter(|cpu: HotpluggableCpu| addable(cpu));
            let total = smaller(wanted - added, due.len() as int);
            let (after, came) = vcpus_added(q, cpus, index, wanted, added);
            (forall|i: int|
                0 <= i < q.replies.len() && i < total ==> #[trigger] q.replies[i] is Done) ==> {
                if q.replies.len() < total {
                    came matches Flow::Waiting(command) && adds_vcpu(
                        command,
                        due[q.replies.len() as int],
                    )
                } else {
                    came == Flow::<u32, CommandModel>::Done(Ok((added + total) as u32))
                }
            }
        }),
    decreases cpus.len() - index,
{
    let p = |cpu: HotpluggableCpu| addable(cpu);
    let due = cpus.skip(index).filter(p);
    let total = smaller(wanted - added, due.len() as int);
    if index >= cpus.len() {
        assert(cpus.skip(index) =~= seq![]);
        reveal_with_fuel(Seq::filter, 1);
        assert(due.len() == 0);
    } else if added < wanted {
        lemma_filter_from(cpus, index, p);
        let later = cpus.skip(index + 1).filter(p);
        if !addable(cpus[index]) {
            lemma_added(q, cpus, index + 1, wanted, added);
        } else {
            let cpu = cpus[index];
            assert(due[0] == cpu);
            let core = seq![integer_argument("core-id"@, cpu.core_id->0 as int)];
            assert(core[0].name == "core-id"@);
            let placed = core.push(integer_argument("socket-id"@, cpu.socket_id->0 as int)).push(
                integer_argument("thread-id"@, cpu.thread_id->0 as int),
            );
            assert(placed[0] == core[0]);
            assert(placed[1].name == "socket-id"@);
            assert(placed[2].name == "thread-id"@);
            if q.replies.len() > 0 {
                let rest = taken(q);
                lemma_added(rest, cpus, index + 1, wanted, (added + 1) as u32);
                if forall|i: int|
                    0 <= i < q.replies.len() && i < total ==> #[trigger] q.replies[i] is Done {
                    assert(q.replies[0] is Done);
                    assert forall|i: int|
                        0 <= i < rest.replies.len() && i < total - 1 implies #[trigger] rest.replies[i] is Done by {
                        assert(q.replies[i + 1] is Done);
                    }
                    if rest.replies.len() < total - 1 {
                        assert(due[rest.replies.len() as int + 1] == later[rest.replies.len() as int]);
                    }
                }
            }
        }
    }
}

/// Where QEMU takes every addition, as many vCPUs are added as are asked for, or all that can be
/// added where those are fewer. They are the first of the list that can be added, in the order of
/// the list, each under the name of its core, and the number that comes back is how many there were.
pub proof fn law_first_free_vcpus_are_added(
    q: QmpModel,
    cpus: Vec<HotpluggableCpu>,
    accepted: nat,
    wanted: u32,
)
    ensures
        ({
            let due = cpus@.filter(|cpu: HotpluggableCpu| addable(cpu));
            let total = smaller(wanted as int, due.len() as int);
            let replies = seq![QmpReply::Cpus(cpus)] + Seq::new(
                accepted,
                |i: int| QmpReply::Done,
            );
            let came = vcpus_plugged(QmpModel { replies, ..q }, wanted).1;
            if accepted < total {
                came matches Flow::Waiting(command) && adds_vcpu(command, due[accepted as int])
            } else {
                came == Flow::<u32, CommandModel>::Done(Ok(total as u32))
            }
        }),
        vcpus_plugged(QmpModel { replies: seq![], ..q }, wanted).1 == Flow::<
            u32,
            CommandModel,
        >::Waiting(CommandModel::QueryHotpluggableCpus),
{
    let done = Seq::new(accepted, |i: int| QmpReply::Done);
    let replies = seq![QmpReply::Cpus(cpus)] + done;
    let q0 = QmpModel { replies, ..q };
    assert(replies.drop_first() =~= done);
    assert(cpus@.skip(0) =~= cpus@);
    lemma_added(taken(q0), cpus@, 0, wanted, 0);
}

/// A vCPU that QEMU refuses to add or to remove puts an end to the work: what QEMU said comes out as
/// an error, and nothing more is asked for.
pub proof fn law_refused_vcpu_ends_the_work(
    q: QmpModel,
    cpus: Seq<HotpluggableCpu>,
    index: int,
    wanted: u32,
    before: u32,
)
    requires
        0 <= index < cpus.len(),
        before < wanted,
        q.replies.len() > 0,
        q.replies[0] is Failed,
    ensures
        removable(cpus[index]) ==> (vcpus_removed(
            q,
            cpus,
            index,
            wanted,
            before,
        ).1 matches Flow::Done(Err(error)) && error.len() > 0 && error[0] == LayerModel::Message(
            q.replies[0]->Failed_0.text@,
        )),
        addable(cpus[index]) ==> (vcpus_added(
            q,
            cpus,
            index,
            wanted,
            before,
        ).1 matches Flow::Done(Err(error)) && error.len() > 0 && error[0] == LayerModel::Message(
            q.replies[0]->Failed_0.text@,
        )),
{
}

/// The threads of vCPUs are those that QEMU lists: each vCPU has the thread that is listed for it,
/// the last one where there are several, and a vCPU that is not listed has none.
pub proof fn law_threads_are_those_listed(
    q: QmpModel,
    threads: Vec<CpuThread>,
    vcpu: u32,
    at: int,
)
    requires
        -1 <= at < threads@.len(),
        at >= 0 ==> threads@[at].cpu_index as u32 == vcpu,
        forall|i: int| at < i < threads@.len() ==> (#[trigger] threads@[i]).cpu_index as u32 != vcpu,
    ensures
        threads_queried(QmpModel { replies: seq![], ..q }).1 == Flow::<
            Map<u32, u32>,
            CommandModel,
        >::Waiting(CommandModel::QueryCpusFast),
        threads_queried(
            QmpModel { replies: seq![QmpReply::Threads(threads)], ..q },
        ).1 matches Flow::Done(Ok(found)) && {
            &&& found.contains_key(vcpu) <==> at >= 0
            &&& at >= 0 ==> found[vcpu] == threads@[at].thread_id as u32
        },
{
    lemma_threads(threads@, vcpu, at);
}

proof fn lemma_threads(threads: Seq<CpuThread>, vcpu: u32, at: int)
    requires
        -1 <= at < threads.len(),
        at >= 0 ==> threads[at].cpu_index as u32 == vcpu,
        forall|i: int| at < i < threads.len() ==> (#[trigger] threads[i]).cpu_index as u32 != vcpu,
    ensures
        threads_of(threads).contains_key(vcpu) <==> at >= 0,
        at >= 0 ==> threads_of(threads)[vcpu] == threads[at].thread_id as u32,
    decreases threads.len(),
{
    if threads.len() > 0 && at < threads.len() - 1 {
        assert(threads[threads.len() - 1].cpu_index as u32 != vcpu);
        lemma_threads(threads.drop_last(), vcpu, at);
    }
}

/// The address of a passed-through device on the host has a domain: the one that it is given with,
/// or the first one.
pub proof fn law_host_address_has_a_domain(address: Seq<char>)
    ensures
        begins_with(host_address(address), "0000"@),
        begins_with(address, "0000"@) ==> host_address(address) == address,
        !begins_with(address, "0000"@) ==> host_address(address) == "0000:"@ + address,
{
    reveal_strlit("0000");
    reveal_strlit("0000:");
    assert(("0000:"@ + address).take(4) =~= "0000"@);
}

/// A passed-through device is added step by step: more time is given for the reply, the device is
/// added as it was described, and the usual time is given again. An adjunct processor is named by
/// its path and has no place; any other device is named by its address on the host, and its path in
/// the guest is looked up.
pub proof fn law_passed_through_device_is_added(
    q: QmpModel,
    hostdev_id: Seq<char>,
    sysfs_path: Seq<char>,
    bus_slot_func: Seq<char>,
    driver: Seq<char>,
    bus: Seq<char>,
    refused: QmpReply,
)
    requires
        refused is Failed,
    ensures
        ({
            let command = vfio_command(hostdev_id, sysfs_path, bus_slot_func, driver, bus);
            let has_path = driver != "vfio-ap"@;
            let run = |replies: Seq<QmpReply>|
                vfio_plugged(QmpModel { replies, ..q }, command, hostdev_id, has_path).1;
            let done = QmpReply::Done;
            &&& command matches CommandModel::DeviceAdd {
                driver: added,
                bus: placed,
                id,
                arguments,
            } && {
                &&& added == driver
                &&& id == hostdev_id
                &&& driver == "vfio-ap"@ ==> placed is None && arguments.contains(
                    ArgumentModel { name: "sysfsdev"@, value: ValueModel::Text(sysfs_path) },
                )
                &&& driver != "vfio-ap"@ ==> placed == Some(bus) && arguments.contains(
                    ArgumentModel {
                        name: "host"@,
                        value: ValueModel::Text(
                            if begins_with(bus_slot_func, "0000"@) {
                                bus_slot_func
                            } else {
                                "0000:"@ + bus_slot_func
                            },
                        ),
                    },
                ) && arguments.contains(
                    ArgumentModel { name: "addr"@, value: ValueModel::Text("0x0"@) },
                ) && arguments.contains(
                    ArgumentModel { name: "multifunction"@, value: ValueModel::Text("off"@) },
                )
            }
            &&& run(seq![]) == Flow::<Option<Seq<u8>>, CommandModel>::Waiting(
                CommandModel::SetReadTimeout(5_000_000_000),
            )
            &&& run(seq![done]) == Flow::<Option<Seq<u8>>, CommandModel>::Waiting(command)
            &&& run(seq![done, refused]) matches Flow::Done(Err(_))
            &&& run(seq![done, done]) == Flow::<Option<Seq<u8>>, CommandModel>::Waiting(
                CommandModel::SetReadTimeout(250_000_000),
            )
            &&& driver == "vfio-ap"@ ==> run(seq![done, done, done]) == Flow::<
                Option<Seq<u8>>,
                CommandModel,
            >::Done(Ok(None))
            &&& driver != "vfio-ap"@ ==> run(seq![done, done, done]) == Flow::<
                Option<Seq<u8>>,
                CommandModel,
            >::Waiting(CommandModel::QueryPci)
        }),
{
    let done = QmpReply::Done;
    assert(seq![done].drop_first() =~= seq![]);
    assert(seq![done, done].drop_first() =~= seq![done]);
    assert(seq![done, refused].drop_first() =~= seq![refused]);
    assert(seq![done, done, done].drop_first() =~= seq![done, done]);
    if let CommandModel::DeviceAdd { arguments, .. } = vfio_command(
        hostdev_id,
        sysfs_path,
        bus_slot_func,
        driver,
        bus,
    ) {
        assert(arguments[0].name == if driver == "vfio-ap"@ {
            "sysfsdev"@
        } else {
            "addr"@
        });
        if driver != "vfio-ap"@ {
            assert(arguments[1].name == "host"@);
            assert(arguments[2].name == "multifunction"@);
        }
    }
}

} // verus!
