//! How much memory is added and removed, and under which names.
use crate::qmp::memory::{
    dimm_count, has_virtio_mem, hotplugged_total, measurable, memory_measured, memory_plugged,
    memory_unplugged, removable_from, virtio_mem_mebibytes, virtio_mem_resized, virtio_mem_set_up,
    virtio_mem_total,
};
use crate::qmp::session::{taken, Flow, QmpModel};
use crate::qmp::wire::{ArgumentModel, CommandModel, MemoryDevice, QmpReply, ValueModel};
use crate::text::{begins_with, dec, hex, zero_padded};
use vstd::prelude::*;

verus! {

/// Whether memory is a module that was hot-plugged.
pub open spec fn plugged_module(device: MemoryDevice) -> bool {
    device matches MemoryDevice::Dimm { hotpluggable, hotplugged, .. } && hotpluggable && hotplugged
}

/// A session that got a list of memory, and then replies.
pub open spec fn told_of_memory(
    q: QmpModel,
    devices: Vec<MemoryDevice>,
    replies: Seq<QmpReply>,
) -> QmpModel {
    QmpModel { replies: seq![QmpReply::Memory(devices)] + replies, ..q }
}

/// Some memory, as the session tells of it.
pub open spec fn measured(q: QmpModel, devices: Vec<MemoryDevice>) -> int {
    memory_measured(told_of_memory(q, devices, seq![])).1->Done_0->Ok_0 as int
}

proof fn lemma_told(q: QmpModel, devices: Vec<MemoryDevice>, replies: Seq<QmpReply>)
    ensures
        told_of_memory(q, devices, replies).replies[0] == QmpReply::Memory(devices),
        taken(told_of_memory(q, devices, replies)) == (QmpModel { replies, ..q }),
{
    assert((seq![QmpReply::Memory(devices)] + replies).drop_first() =~= replies);
}

proof fn lemma_totals_add(a: Seq<MemoryDevice>, b: Seq<MemoryDevice>)
    ensures
        hotplugged_total(a + b) == hotplugged_total(a) + hotplugged_total(b),
        virtio_mem_total(a + b) == virtio_mem_total(a) + virtio_mem_total(b),
        virtio_mem_mebibytes(a + b) == virtio_mem_mebibytes(a) + virtio_mem_mebibytes(b),
    decreases b.len(),
{
    if b.len() == 0 {
        assert(a + b =~= a);
    } else {
        assert((a + b).drop_last() =~= a + b.drop_last());
        assert((a + b).last() == b.last());
        lemma_totals_add(a, b.drop_last());
    }
}

proof fn lemma_totals_at_least_zero(devices: Seq<MemoryDevice>)
    ensures
        hotplugged_total(devices) >= 0,
        virtio_mem_total(devices) >= 0,
        virtio_mem_mebibytes(devices) >= 0,
    decreases devices.len(),
{
    if devices.len() > 0 {
        lemma_totals_at_least_zero(devices.drop_last());
    }
}

/// The memory that was hot-plugged is the sum over its parts: two lists one after the other have as
/// much as both together.
pub proof fn law_hotplugged_memory_adds_up(
    q: QmpModel,
    first: Vec<MemoryDevice>,
    second: Vec<MemoryDevice>,
    both: Vec<MemoryDevice>,
)
    requires
        both@ == first@ + second@,
        measurable(both@),
    ensures
        measured(q, both) == measured(q, first) + measured(q, second),
        memory_measured(told_of_memory(q, both, seq![])).1 matches Flow::Done(Ok(_)),
{
    lemma_totals_add(first@, second@);
    lemma_totals_at_least_zero(first@);
    lemma_totals_at_least_zero(second@);
    lemma_told(q, first, seq![]);
    lemma_told(q, second, seq![]);
    lemma_told(q, both, seq![]);
}

/// A single device has the memory that it says: a module where it was hot-plugged, a virtio-mem
/// device in any case, and any other device none.
pub proof fn law_hotplugged_memory_of_one_device(
    q: QmpModel,
    devices: Vec<MemoryDevice>,
    none: Vec<MemoryDevice>,
)
    requires
        devices@.len() == 1,
        none@.len() == 0,
    ensures
        measured(q, none) == 0,
        match devices@[0] {
            MemoryDevice::Dimm { size, hotpluggable, hotplugged, .. } => {
                &&& hotpluggable && hotplugged && size >= 0 ==> measured(q, devices) == size
                &&& !(hotpluggable && hotplugged) ==> measured(q, devices) == 0
            },
            MemoryDevice::VirtioMem { size } => measured(q, devices) == size,
            MemoryDevice::Other => measured(q, devices) == 0,
        },
{
    lemma_told(q, devices, seq![]);
    lemma_told(q, none, seq![]);
    assert(devices@.drop_last() =~= seq![]);
    reveal_with_fuel(hotplugged_total, 2);
}

proof fn lemma_module_count(devices: Seq<MemoryDevice>)
    ensures
        dimm_count(devices) == devices.filter(
            |device: MemoryDevice| plugged_module(device),
        ).len(),
    decreases devices.len(),
{
    reveal_with_fuel(Seq::filter, 2);
    if devices.len() > 0 {
        lemma_module_count(devices.drop_last());
    }
}

/// Without a virtio-mem device, memory is added as a module of exactly that size: its memory first,
/// in a file that is shared, then the module over that memory. Both are numbered by the modules that
/// were hot-plugged before.
pub proof fn law_module_is_added_in_two_steps(q: QmpModel, devices: Vec<MemoryDevice>, bytes: u64)
    requires
        forall|i: int| 0 <= i < devices@.len() ==> !((#[trigger] devices@[i]) is VirtioMem),
    ensures
        ({
            let name = "hotplugged-"@ + dec(
                devices@.filter(|device: MemoryDevice| plugged_module(device)).len() as int,
            );
            &&& memory_plugged(QmpModel { replies: seq![], ..q }, bytes).1 == Flow::<
                (),
                CommandModel,
            >::Waiting(CommandModel::QueryMemoryDevices)
            &&& memory_plugged(told_of_memory(q, devices, seq![]), bytes).1 == Flow::<
                (),
                CommandModel,
            >::Waiting(
                CommandModel::MemoryBackendAdd {
                    id: name,
                    size: bytes as int,
                    share: true,
                    mem_path: Some("/dev/shm"@),
                },
            )
            &&& memory_plugged(told_of_memory(q, devices, seq![QmpReply::Done]), bytes).1
                == Flow::<(), CommandModel>::Waiting(
                CommandModel::DeviceAdd {
                    driver: "pc-dimm"@,
                    bus: None,
                    id: "frontend-to-"@ + name,
                    arguments: seq![
                        ArgumentModel { name: "memdev"@, value: ValueModel::Text(name) },
                    ],
                },
            )
            &&& memory_plugged(
                told_of_memory(q, devices, seq![QmpReply::Done, QmpReply::Done]),
                bytes,
            ).1 == Flow::<(), CommandModel>::Done(Ok(()))
        }),
{
    let one = seq![QmpReply::Done];
    let two = seq![QmpReply::Done, QmpReply::Done];
    lemma_module_count(devices@);
    lemma_told(q, devices, seq![]);
    lemma_told(q, devices, one);
    lemma_told(q, devices, two);
    assert(one.drop_first() =~= seq![]);
    assert(two.drop_first() =~= one);
}

/// What a step asks a virtio-mem device to take.
pub open spec fn requested(came: Flow<(), CommandModel>) -> Option<int> {
    match came {
        Flow::Waiting(CommandModel::QomSet { path, property, value }) => if path == "virtiomem0"@
            && property == "requested-size"@ {
            Some(value)
        } else {
            None
        },
        _ => None,
    }
}

/// A virtio-mem device that is alone grows by the mebibytes that are asked for, from the mebibytes
/// that it has, and shrinks by the bytes that are asked for, to whole mebibytes and never below
/// nothing. A negative size is refused.
pub proof fn law_virtio_mem_grows_and_shrinks(
    q: QmpModel,
    devices: Vec<MemoryDevice>,
    current: u64,
    more: u64,
    less: i64,
)
    requires
        devices@ == seq![MemoryDevice::VirtioMem { size: current }],
    ensures
        requested(memory_plugged(told_of_memory(q, devices, seq![]), more).1) == Some(
            (current as int / 1_048_576 + more as int / 1_048_576) * 1_048_576,
        ),
        0 <= less <= current ==> requested(
            memory_unplugged(told_of_memory(q, devices, seq![]), less).1,
        ) == Some((current - less) / 1_048_576 * 1_048_576),
        less > current ==> requested(memory_unplugged(told_of_memory(q, devices, seq![]), less).1)
            == Some(0int),
        less < 0 ==> (memory_unplugged(
            told_of_memory(q, devices, seq![]),
            less,
        ).1 matches Flow::Done(Err(_))),
        memory_plugged(told_of_memory(q, devices, seq![QmpReply::Done]), more).1 == Flow::<
            (),
            CommandModel,
        >::Done(Ok(())),
        less >= 0 ==> memory_unplugged(told_of_memory(q, devices, seq![QmpReply::Done]), less).1
            == Flow::<(), CommandModel>::Done(Ok(())),
{
    lemma_told(q, devices, seq![]);
    lemma_told(q, devices, seq![QmpReply::Done]);
    assert(devices@.drop_last() =~= seq![]);
    assert(devices@[0] is VirtioMem);
    reveal_with_fuel(virtio_mem_mebibytes, 2);
    reveal_with_fuel(virtio_mem_total, 2);
}

/// What virtio-mem devices are to take together is what each of two lists has, and the growth is
/// counted once.
pub proof fn law_virtio_mem_sizes_add_up(
    q: QmpModel,
    first: Vec<MemoryDevice>,
    second: Vec<MemoryDevice>,
    both: Vec<MemoryDevice>,
    more: u64,
)
    requires
        both@ == first@ + second@,
        has_virtio_mem(first@),
        has_virtio_mem(second@),
    ensures
        requested(memory_plugged(told_of_memory(q, both, seq![]), more).1) is Some,
        requested(memory_plugged(told_of_memory(q, both, seq![]), more).1)->0 == requested(
            memory_plugged(told_of_memory(q, first, seq![]), more).1,
        )->0 + requested(memory_plugged(told_of_memory(q, second, seq![]), 0).1)->0,
{
    lemma_told(q, first, seq![]);
    lemma_told(q, second, seq![]);
    lemma_told(q, both, seq![]);
    lemma_totals_add(first@, second@);
    lemma_totals_at_least_zero(first@);
    lemma_totals_at_least_zero(second@);
    let i = choose|i: int| 0 <= i < first@.len() && (#[trigger] first@[i]) is VirtioMem;
    assert(both@[i] is VirtioMem);
}

/// Whether a device is a hot-plugged module of that size that was added here.
pub open spec fn own_module(device: MemoryDevice, bytes: i64) -> bool {
    device matches MemoryDevice::Dimm { id: Some(id), size, hotpluggable, hotplugged } && {
        &&& hotpluggable
        &&& hotplugged
        &&& size == bytes
        &&& begins_with(id@, "frontend-to-hotplugged-"@)
    }
}

proof fn lemma_first_removable(devices: Seq<MemoryDevice>, bytes: i64, index: int)
    requires
        0 <= index <= devices.len(),
    ensures
        match removable_from(devices, bytes, index) {
            None => forall|i: int|
                index <= i < devices.len() ==> !own_module(#[trigger] devices[i], bytes),
            Some(frontend) => exists|i: int|
                index <= i < devices.len() && own_module(#[trigger] devices[i], bytes)
                    && frontend == devices[i]->id->0@ && forall|j: int|
                    index <= j < i ==> !own_module(#[trigger] devices[j], bytes),
        },
    decreases devices.len() - index,
{
    if index < devices.len() {
        if own_module(devices[index], bytes) {
            assert(own_module(devices[index], bytes) && removable_from(devices, bytes, index)
                == Some(devices[index]->id->0@));
        } else {
            lemma_first_removable(devices, bytes, index + 1);
            if let Some(frontend) = removable_from(devices, bytes, index + 1) {
                let i = choose|i: int|
                    index + 1 <= i < devices.len() && own_module(#[trigger] devices[i], bytes)
                        && frontend == devices[i]->id->0@ && forall|j: int|
                        index + 1 <= j < i ==> !own_module(#[trigger] devices[j], bytes);
                assert(own_module(devices[i], bytes));
            }
        }
    }
}

/// Without a virtio-mem device, the first module that was added here and has exactly that size is
/// removed, and after it the memory that its name goes with. Where there is no such module, the
/// removal is refused and QEMU is asked for nothing.
pub proof fn law_first_module_of_that_size_is_removed(
    q: QmpModel,
    devices: Vec<MemoryDevice>,
    bytes: i64,
    i: int,
)
    requires
        forall|k: int| 0 <= k < devices@.len() ==> !((#[trigger] devices@[k]) is VirtioMem),
        0 <= i <= devices@.len(),
        i < devices@.len() ==> own_module(devices@[i], bytes),
        forall|j: int| 0 <= j < i ==> !own_module(#[trigger] devices@[j], bytes),
    ensures
        i == devices@.len() ==> (memory_unplugged(
            told_of_memory(q, devices, seq![]),
            bytes,
        ).1 matches Flow::Done(Err(_))),
        i < devices@.len() ==> memory_unplugged(told_of_memory(q, devices, seq![]), bytes).1
            == Flow::<(), CommandModel>::Waiting(
            CommandModel::DeviceDel(devices@[i]->id->0@),
        ),
        i < devices@.len() ==> (memory_unplugged(
            told_of_memory(q, devices, seq![QmpReply::Done]),
            bytes,
        ).1 matches Flow::Waiting(CommandModel::ObjectDel(backend)) && devices@[i]->id->0@
            == "frontend-to-"@ + backend),
        i < devices@.len() ==> memory_unplugged(
            told_of_memory(q, devices, seq![QmpReply::Done, QmpReply::Done]),
            bytes,
        ).1 == Flow::<(), CommandModel>::Done(Ok(())),
{
    let one = seq![QmpReply::Done];
    let two = seq![QmpReply::Done, QmpReply::Done];
    lemma_told(q, devices, seq![]);
    lemma_told(q, devices, one);
    lemma_told(q, devices, two);
    assert(one.drop_first() =~= seq![]);
    assert(two.drop_first() =~= one);
    lemma_first_removable(devices@, bytes, 0);
    if let Some(frontend) = removable_from(devices@, bytes, 0) {
        let k = choose|k: int|
            0 <= k < devices@.len() && own_module(#[trigger] devices@[k], bytes) && frontend
                == devices@[k]->id->0@ && forall|j: int|
                0 <= j < k ==> !own_module(#[trigger] devices@[j], bytes);
        assert(own_module(devices@[k], bytes));
        if k < i {
            assert(!own_module(devices@[k], bytes));
        }
        if i < k {
            assert(!own_module(devices@[i], bytes));
        }
        assert(k == i);
        reveal_strlit("frontend-to-hotplugged-");
        reveal_strlit("frontend-to-");
        let long = "frontend-to-hotplugged-"@;
        let short = "frontend-to-"@;
        assert(frontend.take(long.len() as int) =~= long);
        assert(long.take(short.len() as int) =~= short);
        assert(frontend.take(short.len() as int) =~= short);
        assert(frontend =~= short + frontend.skip(short.len() as int));
    } else if i < devices@.len() {
        assert(!own_module(devices@[i], bytes));
    }
}

/// A virtio-mem device is set up with the largest multiple of four mebibytes by which the guest may
/// grow, over memory of that size. The memory is in a shared file exactly where a file system is
/// shared through virtio-fs. A guest that cannot grow so far has no such device.
pub proof fn law_virtio_mem_takes_what_the_guest_may_grow(
    q: QmpModel,
    default_memory: u32,
    default_maxmemory: u32,
    machine_type: Seq<char>,
    shared_fs: Option<Seq<char>>,
)
    ensures
        default_maxmemory < default_memory ==> (virtio_mem_set_up(
            q,
            default_memory,
            default_maxmemory,
            machine_type,
            shared_fs,
        ).1 matches Flow::Done(Err(_))),
        0 <= default_maxmemory - default_memory < 4 ==> virtio_mem_set_up(
            q,
            default_memory,
            default_maxmemory,
            machine_type,
            shared_fs,
        ) == (q, Flow::<(), CommandModel>::Done(Ok(()))),
        default_maxmemory - default_memory >= 4 && (machine_type != "s390-ccw-virtio"@ || q.ccw is None)
            ==> (virtio_mem_set_up(
            q,
            default_memory,
            default_maxmemory,
            machine_type,
            shared_fs,
        ).1 matches Flow::Done(Err(_))),
        virtio_mem_set_up(
            q,
            default_memory,
            default_maxmemory,
            machine_type,
            shared_fs,
        ).1 matches Flow::Waiting(command) ==> match command {
            CommandModel::MemoryBackendAdd { id, size, share, mem_path } => {
                let growth = (default_maxmemory - default_memory) * 1_048_576;
                &&& id == "virtiomem"@
                &&& size % 4_194_304 == 0
                &&& growth - 4_194_304 < size <= growth
                &&& share <==> shared_fs == Some("virtio-fs"@) || shared_fs == Some(
                    "virtio-fs-nydus"@,
                )
                &&& share ==> mem_path == Some("/dev/shm"@)
                &&& !share ==> mem_path is None
            },
            CommandModel::DeviceAdd { driver, bus, id, arguments } => {
                &&& driver == "virtio-mem-ccw"@
                &&& bus is None
                &&& id == "virtiomem0"@
                &&& q.ccw matches Some(ccw) && arguments == seq![
                    ArgumentModel { name: "memdev"@, value: ValueModel::Text("virtiomem"@) },
                    ArgumentModel {
                        name: "devno"@,
                        value: ValueModel::Text(
                            "fe.0."@ + zero_padded(hex(ccw.next_slot as nat), 4),
                        ),
                    },
                ]
            },
            CommandModel::ObjectDel(id) => id == "virtiomem"@,
            _ => false,
        },
{
    let growth = default_maxmemory - default_memory;
    if growth >= 0 {
        assert(growth / 4 * 4 * 1_048_576 == growth / 4 * 4_194_304);
        assert((growth / 4 * 4_194_304) % 4_194_304 == 0) by (nonlinear_arith)
            requires
                growth >= 0,
        ;
    }
}

/// A virtio-mem device is set up step by step as long as QEMU takes every step. Where QEMU refuses
/// one, the memory is removed, the device leaves the subchannel, and the setup fails.
pub proof fn law_virtio_mem_is_set_up_or_undone(
    q: QmpModel,
    default_memory: u32,
    default_maxmemory: u32,
    shared_fs: Option<Seq<char>>,
    refused: QmpReply,
    any: QmpReply,
)
    requires
        default_maxmemory - default_memory >= 4,
        q.ccw matches Some(ccw) && !ccw.devices.contains_key("virtiomem0"@) && ccw.next_slot
            < u32::MAX,
        refused is Failed,
    ensures
        ({
            let run = |replies: Seq<QmpReply>|
                virtio_mem_set_up(
                    QmpModel { replies, ..q },
                    default_memory,
                    default_maxmemory,
                    "s390-ccw-virtio"@,
                    shared_fs,
                );
            &&& run(seq![]).1 matches Flow::Waiting(CommandModel::MemoryBackendAdd { .. })
            &&& run(seq![QmpReply::Done]).1 matches Flow::Waiting(CommandModel::DeviceAdd { .. })
            &&& run(seq![QmpReply::Done, QmpReply::Done]).1 == Flow::<(), CommandModel>::Done(
                Ok(()),
            )
            &&& run(seq![QmpReply::Done, QmpReply::Done]).0.ccw matches Some(ccw)
                && ccw.devices.contains_key("virtiomem0"@)
            &&& run(seq![refused]).1 matches Flow::Waiting(CommandModel::ObjectDel(_))
            &&& run(seq![refused, any]).1 matches Flow::Done(Err(_))
            &&& run(seq![refused, any]).0.ccw matches Some(ccw) && ccw.devices =~= q.ccw->0.devices
            &&& run(seq![QmpReply::Done, refused]).1 matches Flow::Waiting(
                CommandModel::ObjectDel(_),
            )
            &&& run(seq![QmpReply::Done, refused, any]).1 matches Flow::Done(Err(_))
            &&& run(seq![QmpReply::Done, refused, any]).0.ccw matches Some(ccw) && ccw.devices
                =~= q.ccw->0.devices
        }),
{
    let done = QmpReply::Done;
    assert(seq![done].drop_first() =~= seq![]);
    assert(seq![done, done].drop_first() =~= seq![done]);
    assert(seq![refused].drop_first() =~= seq![]);
    assert(seq![refused, any].drop_first() =~= seq![any]);
    assert(seq![done, refused].drop_first() =~= seq![refused]);
    assert(seq![done, refused, any].drop_first() =~= seq![refused, any]);
    assert(seq![any].drop_first() =~= seq![]);
}

/// The device is asked for that many mebibytes, in bytes, and cannot be asked for fewer than none.
pub proof fn law_virtio_mem_is_resized_in_mebibytes(q: QmpModel, mebibytes: int, failed: QmpReply)
    requires
        failed is Failed,
    ensures
        mebibytes < 0 ==> (virtio_mem_resized(q, mebibytes).1 matches Flow::Done(Err(_)))
            && virtio_mem_resized(q, mebibytes).0 == q,
        mebibytes >= 0 ==> {
            let run = |replies: Seq<QmpReply>|
                virtio_mem_resized(QmpModel { replies, ..q }, mebibytes).1;
            &&& run(seq![]) == Flow::<(), CommandModel>::Waiting(
                CommandModel::QomSet {
                    path: "virtiomem0"@,
                    property: "requested-size"@,
                    value: mebibytes * 1_048_576,
                },
            )
            &&& run(seq![QmpReply::Done]) == Flow::<(), CommandModel>::Done(Ok(()))
            &&& run(seq![failed]) matches Flow::Done(Err(_))
        },
{
}

} // verus!
