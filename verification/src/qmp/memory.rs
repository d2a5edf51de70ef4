//! Hot-plugging memory.
use crate::error::{message, Error, ErrorModel};
use crate::qmp::block::off_subchannel;
use crate::qmp::ccw::{ccw_added, ccw_address, ccw_error_text};
use crate::qmp::session::{decode_done, done_in, flow, taken, Flow, Qmp, QmpModel, Step};
use crate::qmp::wire::{
    failure_error, push_text, text_argument, unexpected_reply, Argument, CommandModel, FailureModel,
    MemoryDevice, QmpCommand, QmpError, QmpReply,
};
use crate::text::{
    after_prefix, begins_with, cat2, cat3, cat5, contains_text, dec, dec_i64, dec_u64, has_prefix,
    holds_text, same, strip_prefix,
};
use vstd::prelude::*;

verus! {

/// The bytes of a mebibyte.
pub const MIB: u64 = 1_048_576;

/// Whether memory was hot-plugged as a module.
pub open spec fn is_hotplugged_dimm(device: MemoryDevice) -> bool {
    device matches MemoryDevice::Dimm { hotpluggable, hotplugged, .. } && hotpluggable && hotplugged
}

/// The bytes that a device adds to the memory that was hot-plugged. The size of a module counts as
/// an unsigned number.
pub open spec fn hotplugged_bytes(device: MemoryDevice) -> int {
    match device {
        MemoryDevice::Dimm { size, hotpluggable, hotplugged, .. } => if hotpluggable && hotplugged {
            size as u64 as int
        } else {
            0
        },
        MemoryDevice::VirtioMem { size } => size as int,
        MemoryDevice::Other => 0,
    }
}

/// The bytes of the memory that was hot-plugged.
pub open spec fn hotplugged_total(devices: Seq<MemoryDevice>) -> int
    decreases devices.len(),
{
    if devices.len() == 0 {
        0
    } else {
        hotplugged_total(devices.drop_last()) + hotplugged_bytes(devices.last())
    }
}

/// The bytes that the virtio-mem devices have.
pub open spec fn virtio_mem_total(devices: Seq<MemoryDevice>) -> int
    decreases devices.len(),
{
    if devices.len() == 0 {
        0
    } else {
        virtio_mem_total(devices.drop_last()) + match devices.last() {
            MemoryDevice::VirtioMem { size } => size as int,
            _ => 0,
        }
    }
}

/// The mebibytes that the virtio-mem devices have, each rounded down.
pub open spec fn virtio_mem_mebibytes(devices: Seq<MemoryDevice>) -> int
    decreases devices.len(),
{
    if devices.len() == 0 {
        0
    } else {
        virtio_mem_mebibytes(devices.drop_last()) + match devices.last() {
            MemoryDevice::VirtioMem { size } => (size / MIB) as int,
            _ => 0,
        }
    }
}

/// The number of modules that were hot-plugged.
pub open spec fn dimm_count(devices: Seq<MemoryDevice>) -> int
    decreases devices.len(),
{
    if devices.len() == 0 {
        0
    } else {
        dimm_count(devices.drop_last()) + if is_hotplugged_dimm(devices.last()) {
            1int
        } else {
            0
        }
    }
}

pub open spec fn has_virtio_mem(devices: Seq<MemoryDevice>) -> bool {
    exists|i: int| 0 <= i < devices.len() && (#[trigger] devices[i]) is VirtioMem
}

/// Whether the memory that was hot-plugged can be added up in 64 bits.
pub open spec fn measurable(devices: Seq<MemoryDevice>) -> bool {
    hotplugged_total(devices) <= u64::MAX
}

/// Whether the size of a virtio-mem device that grows by `size` bytes fits in 64 bits.
pub open spec fn can_grow(devices: Seq<MemoryDevice>, size: u64) -> bool {
    has_virtio_mem(devices) ==> (virtio_mem_mebibytes(devices) + size / MIB) * MIB <= u64::MAX
}

/// Whether the size of a virtio-mem device that shrinks by `size` bytes fits in 64 bits.
pub open spec fn can_shrink(devices: Seq<MemoryDevice>, size: i64) -> bool {
    has_virtio_mem(devices) && size >= 0 ==> virtio_mem_total(devices) <= u64::MAX
}

/// What a reply says to `query-memory-devices`.
pub open spec fn memory_in(reply: QmpReply) -> Result<Seq<MemoryDevice>, FailureModel> {
    match reply {
        QmpReply::Memory(devices) => Ok(devices@),
        QmpReply::Failed(error) => Err(error.deep_view()),
        _ => Err(unexpected_reply()),
    }
}

/// The memory that the next reply lists, where it does.
pub open spec fn listed_memory(q: QmpModel) -> Option<Seq<MemoryDevice>> {
    if q.replies.len() == 0 {
        None
    } else {
        match memory_in(q.replies[0]) {
            Ok(devices) => Some(devices),
            Err(_) => None,
        }
    }
}

/// Asking for the bytes of the memory that was hot-plugged.
pub open spec fn memory_measured(q: QmpModel) -> Step<u64> {
    if q.replies.len() == 0 {
        (q, Flow::Waiting(CommandModel::QueryMemoryDevices))
    } else {
        (
            taken(q),
            Flow::Done(
                match memory_in(q.replies[0]) {
                    Ok(devices) => Ok(hotplugged_total(devices) as u64),
                    Err(failure) => Err(failure_error(failure)),
                },
            ),
        )
    }
}

/// Giving the virtio-mem device that many mebibytes.
pub open spec fn virtio_mem_resized(q: QmpModel, mebibytes: int) -> Step<()> {
    if mebibytes < 0 {
        (
            q,
            Flow::Done(
                Err(
                    message(
                        "cannot resize virtio-mem device to negative size ("@ + dec(mebibytes)
                            + ") memory"@,
                    ),
                ),
            ),
        )
    } else if q.replies.len() == 0 {
        (
            q,
            Flow::Waiting(
                CommandModel::QomSet {
                    path: "virtiomem0"@,
                    property: "requested-size"@,
                    value: mebibytes * MIB,
                },
            ),
        )
    } else {
        (
            taken(q),
            Flow::Done(
                match done_in(q.replies[0]) {
                    Ok(_) => Ok(()),
                    Err(failure) => Err(failure_error(failure)),
                },
            ),
        )
    }
}

/// The name of the backend of a hot-plugged module.
pub open spec fn dimm_backend(index: int) -> Seq<char> {
    "hotplugged-"@ + dec(index)
}

/// Adding a module of that many bytes after `index` others.
pub open spec fn dimm_plugged(q: QmpModel, size: u64, index: int) -> Step<()> {
    if q.replies.len() == 0 {
        (
            q,
            Flow::Waiting(
                CommandModel::MemoryBackendAdd {
                    id: dimm_backend(index),
                    size: size as int,
                    share: true,
                    mem_path: Some("/dev/shm"@),
                },
            ),
        )
    } else {
        let q1 = taken(q);
        match done_in(q.replies[0]) {
            Err(failure) => (q1, Flow::Done(Err(failure_error(failure)))),
            Ok(_) => if q1.replies.len() == 0 {
                (
                    q1,
                    Flow::Waiting(
                        CommandModel::DeviceAdd {
                            driver: "pc-dimm"@,
                            bus: None,
                            id: "frontend-to-"@ + dimm_backend(index),
                            arguments: seq![text_argument("memdev"@, dimm_backend(index))],
                        },
                    ),
                )
            } else {
                (
                    taken(q1),
                    Flow::Done(
                        match done_in(q1.replies[0]) {
                            Ok(_) => Ok(()),
                            Err(failure) => Err(failure_error(failure)),
                        },
                    ),
                )
            },
        }
    }
}

/// Adding memory: a virtio-mem device grows, where there is one; otherwise a module is added.
pub open spec fn memory_plugged(q: QmpModel, size: u64) -> Step<()> {
    if q.replies.len() == 0 {
        (q, Flow::Waiting(CommandModel::QueryMemoryDevices))
    } else {
        match memory_in(q.replies[0]) {
            Err(failure) => (taken(q), Flow::Done(Err(failure_error(failure)))),
            Ok(devices) => if has_virtio_mem(devices) {
                virtio_mem_resized(taken(q), virtio_mem_mebibytes(devices) + size / MIB)
            } else {
                dimm_plugged(taken(q), size, dimm_count(devices))
            },
        }
    }
}

/// Whether a device is a hot-plugged module of that size that was added here.
pub open spec fn is_removable(device: MemoryDevice, wanted: i64) -> bool {
    match device {
        MemoryDevice::Dimm { id: Some(id), size, hotpluggable, hotplugged } => hotpluggable
            && hotplugged && size == wanted && begins_with(id@, "frontend-to-hotplugged-"@),
        _ => false,
    }
}

/// The first hot-plugged module of that size from `index` on that was added here.
pub open spec fn removable_from(devices: Seq<MemoryDevice>, wanted: i64, index: int) -> Option<
    Seq<char>,
>
    decreases devices.len() - index,
{
    if index < 0 || index >= devices.len() {
        None
    } else if is_removable(devices[index], wanted) {
        Some(devices[index]->id->0@)
    } else {
        removable_from(devices, wanted, index + 1)
    }
}

/// Removing a module, then its backend.
pub open spec fn dimm_unplugged(q: QmpModel, devices: Seq<MemoryDevice>, size: i64) -> Step<()> {
    match removable_from(devices, size, 0) {
        None => (
            q,
            Flow::Done(Err(message("couldn't find a suitable memory device to hotunplug"@))),
        ),
        Some(frontend) => if q.replies.len() == 0 {
            (q, Flow::Waiting(CommandModel::DeviceDel(frontend)))
        } else {
            let q1 = taken(q);
            match done_in(q.replies[0]) {
                Err(failure) => (q1, Flow::Done(Err(failure_error(failure)))),
                Ok(_) => if q1.replies.len() == 0 {
                    (
                        q1,
                        Flow::Waiting(
                            CommandModel::ObjectDel(after_prefix(frontend, "frontend-to-"@)->0),
                        ),
                    )
                } else {
                    (
                        taken(q1),
                        Flow::Done(
                            match done_in(q1.replies[0]) {
                                Ok(_) => Ok(()),
                                Err(failure) => Err(failure_error(failure)),
                            },
                        ),
                    )
                },
            }
        },
    }
}

/// Removing memory: a virtio-mem device shrinks, where there is one; otherwise a module of exactly
/// that size is removed.
pub open spec fn memory_unplugged(q: QmpModel, size: i64) -> Step<()> {
    if q.replies.len() == 0 {
        (q, Flow::Waiting(CommandModel::QueryMemoryDevices))
    } else {
        match memory_in(q.replies[0]) {
            Err(failure) => (taken(q), Flow::Done(Err(failure_error(failure)))),
            Ok(devices) => if has_virtio_mem(devices) {
                virtio_mem_shrunk(taken(q), devices, size)
            } else {
                dimm_unplugged(taken(q), devices, size)
            },
        }
    }
}

/// Shrinking the virtio-mem device by that many bytes, down to nothing.
pub open spec fn virtio_mem_shrunk(q: QmpModel, devices: Seq<MemoryDevice>, size: i64) -> Step<()> {
    if size < 0 {
        (
            q,
            Flow::Done(
                Err(
                    message(
                        "cannot hotunplug negative memory size: "@ + dec(size as int) + " bytes"@,
                    ),
                ),
            ),
        )
    } else {
        let current = virtio_mem_total(devices);
        let left = if current >= size {
            current - size
        } else {
            0
        };
        virtio_mem_resized(q, left / MIB as int)
    }
}

/// The mebibytes that a virtio-mem device can have at most: what the guest may have beyond what it
/// starts with, rounded down to a multiple of four.
pub open spec fn virtio_mem_capacity(default_memory: u32, default_maxmemory: u32) -> int {
    (default_maxmemory - default_memory) / 4 * 4
}

/// Whether the file system that is shared with the guest needs memory in a file.
pub open spec fn uses_virtio_fs(shared_fs: Option<Seq<char>>) -> bool {
    shared_fs == Some("virtio-fs"@) || shared_fs == Some("virtio-fs-nydus"@)
}

/// Undoing a setup of virtio-mem that failed with `error`.
pub open spec fn virtio_mem_undone(q: QmpModel, error: ErrorModel) -> Step<()> {
    if q.replies.len() == 0 {
        (q, Flow::Waiting(CommandModel::ObjectDel("virtiomem"@)))
    } else {
        (off_subchannel(taken(q), "virtiomem0"@), Flow::Done(Err(error)))
    }
}

/// Why the memory of a virtio-mem device could not be set aside.
pub open spec fn backend_refused(failure: FailureModel, mebibytes: int) -> ErrorModel {
    if holds_text(failure.text, "Cannot allocate memory"@) {
        message(
            "Failed to allocate "@ + dec(mebibytes) + " MB for virtio-mem: "@ + failure.text
                + ". Please use command 'echo 1 > /proc/sys/vm/overcommit_memory' to handle it."@,
        )
    } else {
        failure_error(failure)
    }
}

/// Adding a virtio-mem device of that many mebibytes in a slot of the CCW subchannel: its memory
/// first, then the device. Where either fails, both are undone.
pub open spec fn virtio_mem_added(q: QmpModel, mebibytes: int, in_file: bool, slot: u32) -> Step<()> {
    if q.replies.len() == 0 {
        (
            q,
            Flow::Waiting(
                CommandModel::MemoryBackendAdd {
                    id: "virtiomem"@,
                    size: mebibytes * MIB,
                    share: in_file,
                    mem_path: if in_file {
                        Some("/dev/shm"@)
                    } else {
                        None
                    },
                },
            ),
        )
    } else {
        let q1 = taken(q);
        match done_in(q.replies[0]) {
            Err(failure) => virtio_mem_undone(q1, backend_refused(failure, mebibytes)),
            Ok(_) => if q1.replies.len() == 0 {
                (
                    q1,
                    Flow::Waiting(
                        CommandModel::DeviceAdd {
                            driver: "virtio-mem-ccw"@,
                            bus: None,
                            id: "virtiomem0"@,
                            arguments: seq![
                                text_argument("memdev"@, "virtiomem"@),
                                text_argument("devno"@, ccw_address(slot)),
                            ],
                        },
                    ),
                )
            } else {
                match done_in(q1.replies[0]) {
                    Ok(_) => (taken(q1), Flow::Done(Ok(()))),
                    Err(failure) => virtio_mem_undone(
                        taken(q1),
                        message("Failed to add virtio-mem-ccw device: "@ + failure.text),
                    ),
                }
            },
        }
    }
}

/// Setting up the virtio-mem device of a guest. A guest that starts with all its memory has none;
/// only s390x guests can have one.
pub open spec fn virtio_mem_set_up(
    q: QmpModel,
    default_memory: u32,
    default_maxmemory: u32,
    machine_type: Seq<char>,
    shared_fs: Option<Seq<char>>,
) -> Step<()> {
    let mebibytes = virtio_mem_capacity(default_memory, default_maxmemory);
    if default_maxmemory < default_memory {
        (
            q,
            Flow::Done(
                Err(
                    message(
                        "default_maxmemory ("@ + dec(default_maxmemory as int)
                            + ") must be >= default_memory ("@ + dec(default_memory as int)
                            + ") for virtio-mem setup"@,
                    ),
                ),
            ),
        )
    } else if mebibytes == 0 {
        (q, Flow::Done(Ok(())))
    } else if machine_type != "s390-ccw-virtio"@ {
        (
            q,
            Flow::Done(
                Err(
                    message(
                        "virtio-mem supports multiple architectures, the current implementation is only for s390x (s390-ccw-virtio). Current machine type: "@
                            + machine_type,
                    ),
                ),
            ),
        )
    } else {
        match q.ccw {
            None => (
                q,
                Flow::Done(Err(message("CCW subchannel not initialized for s390x"@))),
            ),
            Some(ccw) => {
                let (after, slot) = ccw_added(ccw, "virtiomem0"@);
                let q1 = QmpModel { ccw: Some(after), ..q };
                match slot {
                    Err(error) => (
                        q1,
                        Flow::Done(
                            Err(message("Failed to add CCW device: "@ + ccw_error_text(error))),
                        ),
                    ),
                    Ok(slot) => virtio_mem_added(q1, mebibytes, uses_virtio_fs(shared_fs), slot),
                }
            },
        }
    }
}

/// The sums over a part of a list are no larger than those over the list.
proof fn lemma_totals_grow(devices: Seq<MemoryDevice>, i: int)
    requires
        0 <= i <= devices.len(),
    ensures
        0 <= hotplugged_total(devices.take(i)) <= hotplugged_total(devices),
        0 <= virtio_mem_total(devices.take(i)) <= virtio_mem_total(devices),
        0 <= virtio_mem_mebibytes(devices.take(i)) <= virtio_mem_mebibytes(devices),
    decreases devices.len(),
{
    if i == devices.len() {
        assert(devices.take(i) =~= devices);
        if i > 0 {
            lemma_totals_grow(devices.drop_last(), i - 1);
            assert(devices.drop_last().take(i - 1) =~= devices.drop_last());
        }
    } else {
        lemma_totals_grow(devices.drop_last(), i);
        assert(devices.drop_last().take(i) =~= devices.take(i));
    }
}

/// Removing memory undoes adding as much: a virtio-mem device that was grown by some mebibytes is
/// asked to take the size it had.
pub proof fn law_resize_undone(
    q: QmpModel,
    before: Vec<MemoryDevice>,
    grown: Vec<MemoryDevice>,
    current: u64,
    size: u64,
)
    requires
        current % MIB == 0,
        size % MIB == 0,
        size <= i64::MAX,
        current + size <= u64::MAX,
        before@ == seq![MemoryDevice::VirtioMem { size: current }],
        grown@ == seq![MemoryDevice::VirtioMem { size: (current + size) as u64 }],
    ensures
        memory_plugged(QmpModel { replies: seq![QmpReply::Memory(before)], ..q }, size).1
            == resize_asked(current + size),
        memory_unplugged(QmpModel { replies: seq![QmpReply::Memory(grown)], ..q }, size as i64).1
            == resize_asked(current as int),
{
    assert(before@.drop_last() =~= seq![]);
    assert(grown@.drop_last() =~= seq![]);
    assert(before@[0] is VirtioMem && grown@[0] is VirtioMem);
    reveal_with_fuel(virtio_mem_mebibytes, 2);
    reveal_with_fuel(virtio_mem_total, 2);
    let first = taken(QmpModel { replies: seq![QmpReply::Memory(before)], ..q });
    let second = taken(QmpModel { replies: seq![QmpReply::Memory(grown)], ..q });
    assert(first.replies =~= seq![] && second.replies =~= seq![]);
}

/// The device is asked to take that many bytes.
pub open spec fn resize_asked(bytes: int) -> Flow<(), CommandModel> {
    Flow::Waiting(
        CommandModel::QomSet {
            path: "virtiomem0"@,
            property: "requested-size"@,
            value: bytes,
        },
    )
}

fn decode_memory(reply: QmpReply) -> (r: Result<Vec<MemoryDevice>, QmpError>)
    ensures
        match r {
            Ok(devices) => memory_in(reply) == Ok::<Seq<MemoryDevice>, FailureModel>(devices@),
            Err(error) => memory_in(reply) == Err::<Seq<MemoryDevice>, FailureModel>(
                error.deep_view(),
            ),
        },
{
    match reply {
        QmpReply::Memory(devices) => Ok(devices),
        QmpReply::Failed(error) => Err(error),
        _ => Err(QmpError::unexpected()),
    }
}

/// The bytes of the memory that was hot-plugged, where they can be added up in 64 bits.
fn add_hotplugged(devices: &Vec<MemoryDevice>) -> (r: Option<u64>)
    ensures
        match r {
            Some(total) => total == hotplugged_total(devices@),
            None => hotplugged_total(devices@) > u64::MAX,
        },
{
    let mut total: u64 = 0;
    let mut i: usize = 0;
    while i < devices.len()
        invariant
            0 <= i <= devices@.len(),
            total == hotplugged_total(devices@.take(i as int)),
        decreases devices@.len() - i,
    {
        proof {
            assert(devices@.take(i + 1).drop_last() =~= devices@.take(i as int));
            assert(devices@.take(i + 1).last() == devices@[i as int]);
            lemma_totals_grow(devices@, i + 1);
        }
        let bytes: u64 = match &devices[i] {
            MemoryDevice::Dimm { id: _, size, hotpluggable, hotplugged } => {
                if *hotpluggable && *hotplugged {
                    *size as u64
                } else {
                    0
                }
            },
            MemoryDevice::VirtioMem { size } => *size,
            MemoryDevice::Other => 0,
        };
        total = total.checked_add(bytes)?;
        i = i + 1;
    }
    assert(devices@.take(i as int) =~= devices@);
    Some(total)
}

/// The bytes that the virtio-mem devices have, where they can be added up in 64 bits.
fn add_virtio_mem_bytes(devices: &Vec<MemoryDevice>) -> (r: Option<u64>)
    ensures
        match r {
            Some(total) => total == virtio_mem_total(devices@),
            None => virtio_mem_total(devices@) > u64::MAX,
        },
{
    let mut total: u64 = 0;
    let mut i: usize = 0;
    while i < devices.len()
        invariant
            0 <= i <= devices@.len(),
            total == virtio_mem_total(devices@.take(i as int)),
        decreases devices@.len() - i,
    {
        proof {
            assert(devices@.take(i + 1).drop_last() =~= devices@.take(i as int));
            assert(devices@.take(i + 1).last() == devices@[i as int]);
            lemma_totals_grow(devices@, i + 1);
        }
        if let MemoryDevice::VirtioMem { size } = &devices[i] {
            total = total.checked_add(*size)?;
        }
        i = i + 1;
    }
    assert(devices@.take(i as int) =~= devices@);
    Some(total)
}

/// The mebibytes that the virtio-mem devices have and get, where their bytes fit in 64 bits.
fn add_virtio_mem_mebibytes(devices: &Vec<MemoryDevice>, size: u64) -> (r: Option<u64>)
    ensures
        match r {
            Some(total) => {
                &&& total == virtio_mem_mebibytes(devices@) + size / MIB
                &&& total * MIB <= u64::MAX
            },
            None => (virtio_mem_mebibytes(devices@) + size / MIB) * MIB > u64::MAX,
        },
{
    let mut total: u64 = size / MIB;
    let mut i: usize = 0;
    while i < devices.len()
        invariant
            0 <= i <= devices@.len(),
            total == virtio_mem_mebibytes(devices@.take(i as int)) + size / MIB,
        decreases devices@.len() - i,
    {
        proof {
            assert(devices@.take(i + 1).drop_last() =~= devices@.take(i as int));
            assert(devices@.take(i + 1).last() == devices@[i as int]);
            lemma_totals_grow(devices@, i + 1);
        }
        if let MemoryDevice::VirtioMem { size } = &devices[i] {
            total = total.checked_add(*size / MIB)?;
        }
        i = i + 1;
    }
    assert(devices@.take(i as int) =~= devices@);
    if total > u64::MAX / MIB {
        return None;
    }
    Some(total)
}

/// Whether the memory that was hot-plugged can be added up in 64 bits.
pub fn is_measurable(devices: &Vec<MemoryDevice>) -> (r: bool)
    ensures
        r == measurable(devices@),
{
    add_hotplugged(devices).is_some()
}

/// Whether the size of a virtio-mem device that grows by `size` bytes fits in 64 bits.
pub fn can_grow_by(devices: &Vec<MemoryDevice>, size: u64) -> (r: bool)
    ensures
        r == can_grow(devices@, size),
{
    !detects_virtio_mem(devices) || add_virtio_mem_mebibytes(devices, size).is_some()
}

/// Whether the size of a virtio-mem device that shrinks by `size` bytes fits in 64 bits.
pub fn can_shrink_by(devices: &Vec<MemoryDevice>, size: i64) -> (r: bool)
    ensures
        r == can_shrink(devices@, size),
{
    !detects_virtio_mem(devices) || size < 0 || add_virtio_mem_bytes(devices).is_some()
}

fn detects_virtio_mem(devices: &Vec<MemoryDevice>) -> (r: bool)
    ensures
        r == has_virtio_mem(devices@),
{
    let mut i: usize = 0;
    while i < devices.len()
        invariant
            0 <= i <= devices@.len(),
            forall|j: int| 0 <= j < i ==> !((#[trigger] devices@[j]) is VirtioMem),
        decreases devices@.len() - i,
    {
        if let MemoryDevice::VirtioMem { size: _ } = &devices[i] {
            assert(devices@[i as int] is VirtioMem);
            return true;
        }
        i = i + 1;
    }
    false
}

fn count_dimms(devices: &Vec<MemoryDevice>) -> (r: u64)
    ensures
        r == dimm_count(devices@),
{
    let mut count: u64 = 0;
    let mut i: usize = 0;
    while i < devices.len()
        invariant
            0 <= i <= devices@.len(),
            count == dimm_count(devices@.take(i as int)),
            count <= i,
        decreases devices@.len() - i,
    {
        proof {
            assert(devices@.take(i + 1).drop_last() =~= devices@.take(i as int));
            assert(devices@.take(i + 1).last() == devices@[i as int]);
        }
        if let MemoryDevice::Dimm { id: _, size: _, hotpluggable, hotplugged } = &devices[i] {
            if *hotpluggable && *hotplugged {
                count = count + 1;
            }
        }
        i = i + 1;
    }
    assert(devices@.take(i as int) =~= devices@);
    count
}

fn find_removable(devices: &Vec<MemoryDevice>, wanted: i64) -> (r: Option<String>)
    ensures
        r.deep_view() == removable_from(devices@, wanted, 0),
{
    let mut i: usize = 0;
    while i < devices.len()
        invariant
            0 <= i <= devices@.len(),
            removable_from(devices@, wanted, 0) == removable_from(devices@, wanted, i as int),
        decreases devices@.len() - i,
    {
        if let MemoryDevice::Dimm { id: Some(id), size, hotpluggable, hotplugged } = &devices[i] {
            if *hotpluggable && *hotplugged && *size == wanted && has_prefix(
                id.as_str(),
                "frontend-to-hotplugged-",
            ) {
                return Some(id.clone());
            }
        }
        i = i + 1;
    }
    None
}

/// The name of a removable module has a backend in it.
proof fn lemma_removable_backend(devices: Seq<MemoryDevice>, wanted: i64, index: int)
    ensures
        removable_from(devices, wanted, index) matches Some(frontend) ==> after_prefix(
            frontend,
            "frontend-to-"@,
        ) is Some,
    decreases devices.len() - index,
{
    if 0 <= index < devices.len() {
        if is_removable(devices[index], wanted) {
            reveal_strlit("frontend-to-hotplugged-");
            reveal_strlit("frontend-to-");
            let id = devices[index]->id->0@;
            let long = "frontend-to-hotplugged-"@;
            let short = "frontend-to-"@;
            assert(long.subrange(0, 12) =~= short);
            assert(id.subrange(0, 12) =~= id.subrange(0, 23).subrange(0, 12));
        } else {
            lemma_removable_backend(devices, wanted, index + 1);
        }
    }
}

impl Qmp {
    /// The bytes of the memory that was hot-plugged.
    pub fn hotplugged_memory_size(&mut self) -> (r: Result<Result<u64, Error>, QmpCommand>)
        requires
            listed_memory(old(self)@) matches Some(devices) ==> measurable(devices),
        ensures
            (final(self)@, flow(r)) == memory_measured(old(self)@),
    {
        let reply = self.ask(QmpCommand::QueryMemoryDevices)?;
        match decode_memory(reply) {
            Ok(devices) => Ok(Ok(add_hotplugged(&devices).unwrap())),
            Err(failure) => Ok(Err(failure.into_error())),
        }
    }

    /// Gives the virtio-mem device that many mebibytes.
    pub fn resize_virtio_mem(&mut self, new_size_mb: i64) -> (r: Result<
        Result<(), Error>,
        QmpCommand,
    >)
        requires
            new_size_mb * MIB <= u64::MAX,
        ensures
            (final(self)@, flow(r)) == virtio_mem_resized(old(self)@, new_size_mb as int),
    {
        if new_size_mb < 0 {
            return Ok(
                Err(
                    Error::msg(
                        cat3(
                            "cannot resize virtio-mem device to negative size (",
                            dec_i64(new_size_mb).as_str(),
                            ") memory",
                        ),
                    ),
                ),
            );
        }
        let reply = self.ask(
            QmpCommand::QomSet {
                path: "virtiomem0".to_owned(),
                property: "requested-size".to_owned(),
                value: new_size_mb as u64 * MIB,
            },
        )?;
        match decode_done(reply) {
            Ok(_) => Ok(Ok(())),
            Err(failure) => Ok(Err(failure.into_error())),
        }
    }

    fn hotplug_virtio_mem(&mut self, size: u64, devices: &Vec<MemoryDevice>) -> (r: Result<
        Result<(), Error>,
        QmpCommand,
    >)
        requires
            (virtio_mem_mebibytes(devices@) + size / MIB) * MIB <= u64::MAX,
        ensures
            (final(self)@, flow(r)) == virtio_mem_resized(
                old(self)@,
                virtio_mem_mebibytes(devices@) + size / MIB,
            ),
    {
        let new_total_mb: u64 = add_virtio_mem_mebibytes(devices, size).unwrap();
        self.resize_virtio_mem(new_total_mb as i64)
    }

    fn hotplug_pc_dimm(&mut self, size: u64, index: u64) -> (r: Result<
        Result<(), Error>,
        QmpCommand,
    >)
        ensures
            (final(self)@, flow(r)) == dimm_plugged(old(self)@, size, index as int),
    {
        let backend = cat2("hotplugged-", dec_u64(index).as_str());
        let reply = self.ask(
            QmpCommand::MemoryBackendAdd {
                id: backend.clone(),
                size,
                share: true,
                mem_path: Some("/dev/shm".to_owned()),
            },
        )?;
        if let Err(failure) = decode_done(reply) {
            return Ok(Err(failure.into_error()));
        }
        let mut arguments: Vec<Argument> = Vec::new();
        push_text(&mut arguments, "memdev", backend.clone());
        assert(arguments.deep_view() =~= seq![text_argument("memdev"@, backend@)]);
        let reply = self.ask(
            QmpCommand::DeviceAdd {
                driver: "pc-dimm".to_owned(),
                bus: None,
                id: cat2("frontend-to-", backend.as_str()),
                arguments,
            },
        )?;
        match decode_done(reply) {
            Ok(_) => Ok(Ok(())),
            Err(failure) => Ok(Err(failure.into_error())),
        }
    }

    /// Adds `size` bytes of memory.
    pub fn hotplug_memory(&mut self, size: u64) -> (r: Result<Result<(), Error>, QmpCommand>)
        requires
            listed_memory(old(self)@) matches Some(devices) ==> can_grow(devices, size),
        ensures
            (final(self)@, flow(r)) == memory_plugged(old(self)@, size),
    {
        let reply = self.ask(QmpCommand::QueryMemoryDevices)?;
        let devices = match decode_memory(reply) {
            Ok(devices) => devices,
            Err(failure) => {
                return Ok(Err(failure.into_error()));
            },
        };
        if detects_virtio_mem(&devices) {
            self.hotplug_virtio_mem(size, &devices)
        } else {
            self.hotplug_pc_dimm(size, count_dimms(&devices))
        }
    }

    fn hotunplug_virtio_mem(&mut self, size: i64, devices: &Vec<MemoryDevice>) -> (r: Result<
        Result<(), Error>,
        QmpCommand,
    >)
        requires
            size >= 0 ==> virtio_mem_total(devices@) <= u64::MAX,
        ensures
            (final(self)@, flow(r)) == virtio_mem_shrunk(old(self)@, devices@, size),
    {
        if size < 0 {
            return Ok(
                Err(
                    Error::msg(
                        cat3(
                            "cannot hotunplug negative memory size: ",
                            dec_i64(size).as_str(),
                            " bytes",
                        ),
                    ),
                ),
            );
        }
        let bytes: u64 = add_virtio_mem_bytes(devices).unwrap();
        let left: u64 = if bytes >= size as u64 {
            bytes - size as u64
        } else {
            0
        };
        self.resize_virtio_mem((left / MIB) as i64)
    }

    fn hotunplug_pc_dimm(&mut self, size: i64, devices: &Vec<MemoryDevice>) -> (r: Result<
        Result<(), Error>,
        QmpCommand,
    >)
        ensures
            (final(self)@, flow(r)) == dimm_unplugged(old(self)@, devices@, size),
    {
        let frontend = match find_removable(devices, size) {
            Some(frontend) => frontend,
            None => {
                return Ok(
                    Err(
                        Error::msg_str("couldn't find a suitable memory device to hotunplug"),
                    ),
                );
            },
        };
        proof {
            lemma_removable_backend(devices@, size, 0);
        }
        let backend = match strip_prefix(frontend.as_str(), "frontend-to-") {
            Some(backend) => backend,
            None => String::new(),
        };
        let reply = self.ask(QmpCommand::DeviceDel(frontend))?;
        if let Err(failure) = decode_done(reply) {
            return Ok(Err(failure.into_error()));
        }
        let reply = self.ask(QmpCommand::ObjectDel(backend))?;
        match decode_done(reply) {
            Ok(_) => Ok(Ok(())),
            Err(failure) => Ok(Err(failure.into_error())),
        }
    }

    /// Removes `size` bytes of memory.
    pub fn hotunplug_memory(&mut self, size: i64) -> (r: Result<Result<(), Error>, QmpCommand>)
        requires
            listed_memory(old(self)@) matches Some(devices) ==> can_shrink(devices, size),
        ensures
            (final(self)@, flow(r)) == memory_unplugged(old(self)@, size),
    {
        let reply = self.ask(QmpCommand::QueryMemoryDevices)?;
        let devices = match decode_memory(reply) {
            Ok(devices) => devices,
            Err(failure) => {
                return Ok(Err(failure.into_error()));
            },
        };
        if detects_virtio_mem(&devices) {
            self.hotunplug_virtio_mem(size, &devices)
        } else {
            self.hotunplug_pc_dimm(size, &devices)
        }
    }

    /// Undoes a setup of virtio-mem that failed.
    fn cleanup_virtio_mem_setup(&mut self, error: Error) -> (r: Result<
        Result<(), Error>,
        QmpCommand,
    >)
        ensures
            (final(self)@, flow(r)) == virtio_mem_undone(old(self)@, error.deep_view()),
    {
        let _ = self.ask(QmpCommand::ObjectDel("virtiomem".to_owned()))?;
        self.leave_subchannel("virtiomem0");
        Ok(Err(error))
    }

    fn add_virtio_mem(&mut self, size_mb: u64, in_file: bool, slot: u32) -> (r: Result<
        Result<(), Error>,
        QmpCommand,
    >)
        requires
            size_mb <= u32::MAX,
        ensures
            (final(self)@, flow(r)) == virtio_mem_added(
                old(self)@,
                size_mb as int,
                in_file,
                slot,
            ),
    {
        let reply = self.ask(
            QmpCommand::MemoryBackendAdd {
                id: "virtiomem".to_owned(),
                size: size_mb * MIB,
                share: in_file,
                mem_path: if in_file {
                    Some("/dev/shm".to_owned())
                } else {
                    None
                },
            },
        )?;
        if let Err(failure) = decode_done(reply) {
            let error = if contains_text(failure.text.as_str(), "Cannot allocate memory") {
                Error::msg(
                    cat5(
                        "Failed to allocate ",
                        dec_u64(size_mb).as_str(),
                        " MB for virtio-mem: ",
                        failure.text.as_str(),
                        ". Please use command 'echo 1 > /proc/sys/vm/overcommit_memory' to handle it.",
                    ),
                )
            } else {
                failure.into_error()
            };
            return self.cleanup_virtio_mem_setup(error);
        }
        let mut arguments: Vec<Argument> = Vec::new();
        push_text(&mut arguments, "memdev", "virtiomem".to_owned());
        push_text(
            &mut arguments,
            "devno",
            cat2("fe.0.", crate::text::hex_padded(slot as u64, 4).as_str()),
        );
        assert(arguments.deep_view() =~= seq![
            text_argument("memdev"@, "virtiomem"@),
            text_argument("devno"@, ccw_address(slot)),
        ]);
        let reply = self.ask(
            QmpCommand::DeviceAdd {
                driver: "virtio-mem-ccw".to_owned(),
                bus: None,
                id: "virtiomem0".to_owned(),
                arguments,
            },
        )?;
        match decode_done(reply) {
            Ok(_) => Ok(Ok(())),
            Err(failure) => self.cleanup_virtio_mem_setup(
                Error::msg(
                    cat2("Failed to add virtio-mem-ccw device: ", failure.text.as_str()),
                ),
            ),
        }
    }

    /// Sets up the virtio-mem device of a guest.
    pub fn setup_virtio_mem(
        &mut self,
        default_memory: u32,
        default_maxmemory: u32,
        machine_type: &str,
        shared_fs: Option<&str>,
    ) -> (r: Result<Result<(), Error>, QmpCommand>)
        ensures
            (final(self)@, flow(r)) == virtio_mem_set_up(
                old(self)@,
                default_memory,
                default_maxmemory,
                machine_type@,
                crate::qmp::block::str_option(shared_fs),
            ),
    {
        if default_maxmemory < default_memory {
            return Ok(
                Err(
                    Error::msg(
                        cat5(
                            "default_maxmemory (",
                            dec_u64(default_maxmemory as u64).as_str(),
                            ") must be >= default_memory (",
                            dec_u64(default_memory as u64).as_str(),
                            ") for virtio-mem setup",
                        ),
                    ),
                ),
            );
        }
        let size_mb: u64 = ((default_maxmemory - default_memory) / 4 * 4) as u64;
        if size_mb == 0 {
            return Ok(Ok(()));
        }
        if !same(machine_type, "s390-ccw-virtio") {
            return Ok(
                Err(
                    Error::msg(
                        cat2(
                            "virtio-mem supports multiple architectures, the current implementation is only for s390x (s390-ccw-virtio). Current machine type: ",
                            machine_type,
                        ),
                    ),
                ),
            );
        }
        let in_file: bool = match shared_fs {
            Some(fs) => same(fs, "virtio-fs") || same(fs, "virtio-fs-nydus"),
            None => false,
        };
        let mut subchannel = match self.ccw_subchannel.take() {
            Some(subchannel) => subchannel,
            None => {
                return Ok(Err(Error::msg_str("CCW subchannel not initialized for s390x")));
            },
        };
        let added = subchannel.add_device("virtiomem0");
        self.ccw_subchannel = Some(subchannel);
        match added {
            Err(error) => Ok(
                Err(Error::msg(cat2("Failed to add CCW device: ", error.text().as_str()))),
            ),
            Ok(slot) => self.add_virtio_mem(size_mb, in_file, slot),
        }
    }
}

} // verus!
