//! What QEMU is told of a block device, command by command.
use crate::block_device::BlockCleanupState;
use crate::error::{cleanup_pending_in, lemma_first_layer, LayerModel};
use crate::qmp::block::{
    abandoned, add_reconciled, block_plugged, ccw_device_added, common_arguments, device_added,
    fd_passed, fdset_path, lemma_passing_takes_replies, lookup_rolled_back, node_name_of,
    nodes_added, pci_device_added, scsi_added, shared_unless_read_only, source_in, source_prepared,
    unplugged, BlockRequest, Location, QmpResidue,
};
use crate::qmp::ccw::{ccw_added, ccw_address};
use crate::qmp::cleanup::{
    backend_cleaned, block_fdsets_removed, cleaned, deletion_awaited, deletion_polled,
    deletion_round, fdset_removed, fdsets_cleaned, fdsets_removed, frontend_cleaned,
    lemma_round_takes_replies, DEVICE_DELETED_TIMEOUT,
};
use crate::qmp::fdset::opaque_tag;
use crate::qmp::pci::{
    device_path, free_on_bridges, free_slot, lemma_bridge_found, pci_target_selected, root_port_path,
};
use crate::qmp::session::{
    done_in, elapsed_in, refreshed_recovering, taken, with_fdsets, Flow, QmpModel, Step,
};
use crate::qmp::wire::{
    integer_argument, set_flag, text_argument, AddfdInfo, AioOption, ArgumentModel, CommandModel,
    FailureKind, FdsetInfo, ImageFormat, PciDevice, QmpReply, SourceStep, ValueModel,
};
use crate::text::{dec, hex, zero_padded};
use vstd::prelude::*;

verus! {

/// Whether a device has a property of that name and value.
pub open spec fn has_property(
    arguments: Seq<ArgumentModel>,
    name: Seq<char>,
    value: ValueModel,
) -> bool {
    arguments.contains(ArgumentModel { name, value })
}

/// Whether a device has a property of that name.
pub open spec fn has_property_named(arguments: Seq<ArgumentModel>, name: Seq<char>) -> bool {
    exists|i: int| 0 <= i < arguments.len() && (#[trigger] arguments[i]).name == name
}

/// Whether a command adds nothing to QEMU, and removes nothing but what has the name `node_name`.
pub open spec fn adds_nothing(command: CommandModel, node_name: Seq<char>) -> bool {
    match command {
        CommandModel::DeviceDel(id) => id == node_name,
        CommandModel::BlockdevDel(id) => id == node_name,
        CommandModel::Connect(_) => true,
        CommandModel::QueryFdsets => true,
        CommandModel::RemoveFd(_) => true,
        CommandModel::QueryNamedBlockNodes => true,
        CommandModel::QomList(_) => true,
        CommandModel::QomGet { .. } => true,
        CommandModel::QueryPci => true,
        CommandModel::Clock => true,
        CommandModel::SetReadTimeout(_) => true,
        CommandModel::Poll => true,
        CommandModel::Sleep(_) => true,
        _ => false,
    }
}

/// Whether a step that waits asks for nothing to be added.
pub open spec fn step_adds_nothing<T>(step: Step<T>, node_name: Seq<char>) -> bool {
    step.1 matches Flow::Waiting(command) ==> adds_nothing(command, node_name)
}

proof fn lemma_polling_adds_nothing(q: QmpModel, node_name: Seq<char>, start: u64, millis: u32)
    ensures
        step_adds_nothing(deletion_polled(q, node_name, start, millis), node_name),
    decreases q.replies.len(),
{
    lemma_round_takes_replies(q, node_name, start, millis);
    if let (q1, Flow::Done(Ok(None))) = deletion_round(q, node_name, start, millis) {
        lemma_polling_adds_nothing(q1, node_name, start, millis);
    }
}

proof fn lemma_frontend_adds_nothing(
    q: QmpModel,
    node_name: Seq<char>,
    state: BlockCleanupState,
    millis: u32,
)
    ensures
        step_adds_nothing(frontend_cleaned(q, node_name, state, millis), node_name),
{
    if q.replies.len() > 0 {
        let q1 = taken(q);
        if q1.replies.len() > 0 {
            lemma_polling_adds_nothing(taken(q1), node_name, elapsed_in(q1.replies[0]), millis);
        }
        assert(step_adds_nothing(deletion_awaited(q1, node_name, millis), node_name));
    }
}

proof fn lemma_backend_adds_nothing(q: QmpModel, node_name: Seq<char>, state: BlockCleanupState)
    ensures
        step_adds_nothing(backend_cleaned(q, node_name, state), node_name),
{
}

proof fn lemma_fdsets_add_nothing(
    q: QmpModel,
    ids: Seq<i64>,
    failed: Seq<i64>,
    node_name: Seq<char>,
)
    ensures
        step_adds_nothing(fdsets_removed(q, ids, failed), node_name),
    decreases ids.len(),
{
    if ids.len() > 0 {
        if let (q1, Flow::Done(Ok(gone))) = fdset_removed(q, ids[0]) {
            lemma_fdsets_add_nothing(
                q1,
                ids.drop_first(),
                if gone {
                    failed
                } else {
                    failed.push(ids[0])
                },
                node_name,
            );
        }
    }
}

proof fn lemma_block_fdsets_add_nothing(q: QmpModel, node_name: Seq<char>)
    ensures
        step_adds_nothing(block_fdsets_removed(q, node_name), node_name),
{
    if q.block_fdsets.contains_key(node_name) {
        lemma_fdsets_add_nothing(
            with_fdsets(q, q.block_fdsets.remove(node_name)),
            q.block_fdsets[node_name],
            seq![],
            node_name,
        );
    }
}

proof fn lemma_fdsets_part_adds_nothing(
    q: QmpModel,
    node_name: Seq<char>,
    state: BlockCleanupState,
)
    ensures
        step_adds_nothing(fdsets_cleaned(q, node_name, state), node_name),
{
    if let (q1, Flow::Done(Ok(_))) = refreshed_recovering(q) {
        lemma_block_fdsets_add_nothing(q1, node_name);
    }
}

proof fn lemma_cleanup_adds_nothing(
    q: QmpModel,
    node_name: Seq<char>,
    state: BlockCleanupState,
    millis: u32,
)
    ensures
        step_adds_nothing(cleaned(q, node_name, state, millis), node_name),
{
    let start = BlockCleanupState {
        fdsets: state.fdsets || q.block_fdsets.contains_key(node_name),
        ..state
    };
    lemma_frontend_adds_nothing(q, node_name, start, millis);
    if let (q1, Flow::Done(Ok(s1))) = frontend_cleaned(q, node_name, start, millis) {
        lemma_backend_adds_nothing(q1, node_name, s1);
        if let (q2, Flow::Done(Ok(s2))) = backend_cleaned(q1, node_name, s1) {
            lemma_fdsets_part_adds_nothing(q2, node_name, s2);
        }
    }
}

proof fn lemma_abandoning_adds_nothing<T>(
    q: QmpModel,
    node_name: Seq<char>,
    error: crate::error::ErrorModel,
)
    ensures
        step_adds_nothing(abandoned::<T>(q, node_name, error), node_name),
{
    let state = BlockCleanupState {
        frontend: false,
        backend: true,
        fdsets: q.block_fdsets.contains_key(node_name),
    };
    lemma_cleanup_adds_nothing(q, node_name, state, DEVICE_DELETED_TIMEOUT);
}

/// The frontend is the only thing that its addition adds.
proof fn lemma_device_added(
    q: QmpModel,
    node_name: Seq<char>,
    bus: Option<Seq<char>>,
    driver: Seq<char>,
    arguments: Seq<ArgumentModel>,
)
    ensures
        device_added(q, node_name, bus, driver, arguments).1 matches Flow::Waiting(command) ==> {
            ||| adds_nothing(command, node_name)
            ||| command == (CommandModel::DeviceAdd { driver, bus, id: node_name, arguments })
        },
{
    if q.replies.len() > 0 {
        let state = BlockCleanupState {
            frontend: true,
            backend: true,
            fdsets: q.block_fdsets.contains_key(node_name),
        };
        if let (q1, Flow::Done(Ok(Some(error)))) = add_reconciled(
            taken(q),
            node_name,
            "device_add"@,
            done_in(q.replies[0]),
            state,
            QmpResidue::Frontend,
        ) {
            lemma_abandoning_adds_nothing::<()>(q1, node_name, error);
        }
    }
}


/// Whether a frontend says of its device what the request says: it draws on the node of that name,
/// it shares writing unless the device is read-only, it hands free space back where that is asked
/// for (a disk on the SCSI bus does so by itself), and it has the block sizes that are given.
pub open spec fn frontend_follows(request: BlockRequest, arguments: Seq<ArgumentModel>) -> bool {
    let name = "drive-"@ + dec(request.index as int);
    &&& has_property(arguments, "drive"@, ValueModel::Text(name))
    &&& !request.read_only ==> has_property(arguments, "share-rw"@, ValueModel::Flag(true))
    &&& request.read_only ==> !has_property_named(arguments, "share-rw"@)
    &&& request.discard_unmap && request.driver != "virtio-scsi"@ ==> has_property(
        arguments,
        "discard"@,
        ValueModel::Flag(true),
    )
    &&& !(request.discard_unmap && request.driver != "virtio-scsi"@) ==> !has_property_named(
        arguments,
        "discard"@,
    )
    &&& request.logical_block_size != 0 ==> has_property(
        arguments,
        "logical_block_size"@,
        ValueModel::Integer(request.logical_block_size as int),
    )
    &&& request.logical_block_size == 0 ==> !has_property_named(arguments, "logical_block_size"@)
    &&& request.physical_block_size != 0 ==> has_property(
        arguments,
        "physical_block_size"@,
        ValueModel::Integer(request.physical_block_size as int),
    )
    &&& request.physical_block_size == 0 ==> !has_property_named(arguments, "physical_block_size"@)
}

/// Whether a frontend is where the request puts it: a SCSI disk at the target and the unit that
/// together number it, a CCW device at an address of its own, a PCI device on its root port or on a
/// bridge, with the I/O thread that is given.
pub open spec fn frontend_placed(
    request: BlockRequest,
    driver: Seq<char>,
    bus: Option<Seq<char>>,
    arguments: Seq<ArgumentModel>,
) -> bool {
    if request.driver == "virtio-scsi"@ {
        &&& driver == "scsi-hd"@
        &&& bus == Some("scsi0.0"@)
        &&& exists|target: int, unit: int|
            {
                &&& 0 <= target < 256
                &&& 0 <= unit < 256
                &&& target * 256 + unit == request.index
                &&& #[trigger] has_property(arguments, "scsi-id"@, ValueModel::Integer(target))
                &&& #[trigger] has_property(arguments, "lun"@, ValueModel::Integer(unit))
            }
    } else if request.driver == "virtio-blk-ccw"@ {
        &&& driver == request.driver
        &&& bus is None
        &&& exists|slot: u32| #[trigger]
            has_property(
                arguments,
                "devno"@,
                ValueModel::Text("fe.0."@ + zero_padded(hex(slot as nat), 4)),
            )
    } else {
        &&& driver == request.driver
        &&& bus is Some
        &&& request.root_port is Some ==> bus == request.root_port && has_property(
            arguments,
            "addr"@,
            ValueModel::Text("00"@),
        )
        &&& match request.iothread {
            Some(thread) => has_property(arguments, "iothread"@, ValueModel::Text(thread)),
            None => !has_property_named(arguments, "iothread"@),
        }
    }
}

/// Whether a command about a block device is one that the request asks for.
pub open spec fn command_follows(request: BlockRequest, command: CommandModel) -> bool {
    let name = "drive-"@ + dec(request.index as int);
    match command {
        CommandModel::OpenSource { path, layout, read_only, direct } => {
            &&& path == request.path
            &&& layout == request.vmdk
            &&& read_only == request.read_only
            &&& direct <==> request.direct == Some(true)
        },
        CommandModel::BlockdevAdd(node) => {
            &&& node.node_name == name
            &&& node.format == ImageFormat::Vmdk <==> request.vmdk is Some
            &&& node.format == ImageFormat::Raw <==> request.vmdk is None
            &&& node.read_only == request.read_only
            &&& node.discard_unmap == request.discard_unmap
            &&& node.cache_direct == request.direct
            &&& node.force_share == Some(true) <==> request.read_only || request.vmdk is Some
            &&& node.force_share is None <==> !request.read_only && request.vmdk is None
            &&& node.drop_cache == Some(true) <==> request.no_drop
            &&& node.drop_cache is None <==> !request.no_drop
            &&& node.aio == AioOption::Threads <==> request.aio == "threads"@
            &&& node.aio == AioOption::Native <==> request.aio == "native"@
        },
        CommandModel::DeviceAdd { driver, bus, id, arguments } => {
            &&& id == name
            &&& frontend_follows(request, arguments)
            &&& frontend_placed(request, driver, bus, arguments)
        },
        CommandModel::AddFd(tag) => exists|label: Seq<char>|
            tag == "kata-block:"@ + name + ":"@ + label,
        CommandModel::ContinueSource(path) => exists|id: i64|
            path == "/dev/fdset/"@ + #[trigger] dec(id as int),
        _ => adds_nothing(command, name),
    }
}

proof fn lemma_source_follows(
    q: QmpModel,
    request: BlockRequest,
    command: CommandModel,
    fdset_ids: Seq<i64>,
)
    requires
        command_follows(request, command),
    ensures
        source_prepared(
            q,
            "drive-"@ + dec(request.index as int),
            command,
            fdset_ids,
        ).1 matches Flow::Waiting(asked) ==> command_follows(request, asked),
    decreases q.replies.len(),
{
    let name = "drive-"@ + dec(request.index as int);
    if q.replies.len() > 0 {
        if let Ok(SourceStep::PassFd(label)) = source_in(q.replies[0]) {
            let tag = opaque_tag(name, label@);
            assert(tag == "kata-block:"@ + name + ":"@ + label@);
            lemma_passing_takes_replies(taken(q), tag);
            if let (q1, Flow::Done(Ok(info))) = fd_passed(taken(q), tag) {
                let next = CommandModel::ContinueSource(fdset_path(info.fdset_id));
                assert(fdset_path(info.fdset_id) == "/dev/fdset/"@ + dec(info.fdset_id as int));
                lemma_source_follows(q1, request, next, fdset_ids.push(info.fdset_id));
            }
        }
    }
}

/// What one more property adds to those of a device.
proof fn lemma_property_pushed(arguments: Seq<ArgumentModel>, property: ArgumentModel)
    ensures
        has_property(arguments.push(property), property.name, property.value),
        forall|name: Seq<char>, value: ValueModel|
            has_property(arguments, name, value) ==> #[trigger] has_property(
                arguments.push(property),
                name,
                value,
            ),
        forall|name: Seq<char>| #[trigger]
            has_property_named(arguments.push(property), name) <==> has_property_named(
                arguments,
                name,
            ) || property.name == name,
{
    let more = arguments.push(property);
    assert(more[arguments.len() as int] == property);
    assert forall|name: Seq<char>, value: ValueModel| has_property(
        arguments,
        name,
        value,
    ) implies #[trigger] has_property(more, name, value) by {
        let at = arguments.index_of(ArgumentModel { name, value });
        assert(more[at] == ArgumentModel { name, value });
    }
    assert forall|name: Seq<char>| #[trigger]
        has_property_named(more, name) <==> has_property_named(arguments, name) || property.name
            == name by {
        if has_property_named(arguments, name) {
            let at = choose|i: int|
                0 <= i < arguments.len() && (#[trigger] arguments[i]).name == name;
            assert(more[at].name == name);
        }
        if has_property_named(more, name) {
            let at = choose|i: int| 0 <= i < more.len() && (#[trigger] more[i]).name == name;
            if at < arguments.len() {
                assert(arguments[at].name == name);
            }
        }
    }
}

proof fn lemma_names_differ()
    ensures
        "drive"@.len() == 5,
        "devno"@.len() == 5,
        "addr"@.len() == 4,
        "lun"@.len() == 3,
        "logical_block_size"@.len() == 18,
        "physical_block_size"@.len() == 19,
        "discard"@.len() == 7,
        "scsi-id"@.len() == 7,
        "discard"@ != "scsi-id"@,
        "share-rw"@.len() == 8,
        "iothread"@.len() == 8,
        "share-rw"@ != "iothread"@,
{
    reveal_strlit("drive");
    reveal_strlit("devno");
    reveal_strlit("addr");
    reveal_strlit("lun");
    reveal_strlit("logical_block_size");
    reveal_strlit("physical_block_size");
    reveal_strlit("discard");
    reveal_strlit("scsi-id");
    reveal_strlit("share-rw");
    reveal_strlit("iothread");
    assert("discard"@[0] != "scsi-id"@[0]);
    assert("share-rw"@[0] != "iothread"@[0]);
}

/// Whether the properties say what the request says, and nothing of writing or of an I/O thread.
spec fn base_follows(request: BlockRequest, arguments: Seq<ArgumentModel>) -> bool {
    &&& frontend_follows(BlockRequest { read_only: true, ..request }, arguments)
    &&& !has_property_named(arguments, "iothread"@)
}

proof fn lemma_common_follow(request: BlockRequest)
    ensures
        base_follows(
            request,
            common_arguments(request, "drive-"@ + dec(request.index as int)),
        ),
{
    lemma_names_differ();
    let name = "drive-"@ + dec(request.index as int);
    let drive = seq![text_argument("drive"@, name)];
    assert(drive[0].name == "drive"@);
    assert(has_property(drive, "drive"@, ValueModel::Text(name)));
    lemma_property_pushed(drive, set_flag("discard"@));
    let discard = if request.discard_unmap && request.driver != "virtio-scsi"@ {
        drive.push(set_flag("discard"@))
    } else {
        drive
    };
    let size = integer_argument("logical_block_size"@, request.logical_block_size as int);
    lemma_property_pushed(discard, size);
    let logical = if request.logical_block_size > 0 {
        discard.push(size)
    } else {
        discard
    };
    lemma_property_pushed(
        logical,
        integer_argument("physical_block_size"@, request.physical_block_size as int),
    );
}

proof fn lemma_base_pushed(
    request: BlockRequest,
    arguments: Seq<ArgumentModel>,
    property: ArgumentModel,
)
    requires
        base_follows(request, arguments),
        property.name != "share-rw"@,
        property.name != "iothread"@,
        property.name != "discard"@,
        property.name != "logical_block_size"@,
        property.name != "physical_block_size"@,
    ensures
        base_follows(request, arguments.push(property)),
{
    lemma_property_pushed(arguments, property);
}

proof fn lemma_sharing_follows(request: BlockRequest, arguments: Seq<ArgumentModel>)
    requires
        base_follows(request, arguments),
    ensures
        ({
            let shared = shared_unless_read_only(arguments, request.read_only);
            &&& frontend_follows(request, shared)
            &&& !has_property_named(shared, "iothread"@)
            &&& forall|name: Seq<char>, value: ValueModel|
                has_property(arguments, name, value) ==> #[trigger] has_property(
                    shared,
                    name,
                    value,
                )
        }),
{
    lemma_names_differ();
    lemma_property_pushed(arguments, set_flag("share-rw"@));
}

proof fn lemma_scsi_follows(q: QmpModel, request: BlockRequest)
    requires
        request.driver == "virtio-scsi"@,
    ensures
        scsi_added(q, request, "drive-"@ + dec(request.index as int)).1 matches Flow::Waiting(
            command,
        ) ==> command_follows(request, command),
{
    if request.index <= u16::MAX {
        let name = "drive-"@ + dec(request.index as int);
        let target = integer_argument("scsi-id"@, (request.index / 256) as int);
        let unit = integer_argument("lun"@, (request.index % 256) as int);
        let common = common_arguments(request, name);
        lemma_names_differ();
        lemma_common_follow(request);
        lemma_base_pushed(request, common, target);
        lemma_property_pushed(common, target);
        lemma_base_pushed(request, common.push(target), unit);
        lemma_property_pushed(common.push(target), unit);
        lemma_sharing_follows(request, common.push(target).push(unit));
        let arguments = shared_unless_read_only(
            common.push(target).push(unit),
            request.read_only,
        );
        assert(has_property(
            arguments,
            "scsi-id"@,
            ValueModel::Integer((request.index / 256) as int),
        ));
        assert(has_property(arguments, "lun"@, ValueModel::Integer((request.index % 256) as int)));
        lemma_device_added(q, name, Some("scsi0.0"@), "scsi-hd"@, arguments);
    }
}

proof fn lemma_ccw_follows(q: QmpModel, request: BlockRequest)
    requires
        request.driver == "virtio-blk-ccw"@,
        request.driver != "virtio-scsi"@,
    ensures
        ccw_device_added(q, request, "drive-"@ + dec(request.index as int)).1 matches Flow::Waiting(
            command,
        ) ==> command_follows(request, command),
{
    let name = "drive-"@ + dec(request.index as int);
    match q.ccw {
        None => {
            lemma_abandoning_adds_nothing::<Location>(
                q,
                name,
                crate::error::message("CCW subchannel not available for virtio-blk-ccw hotplug"@),
            );
        },
        Some(ccw) => {
            let (after, slot) = ccw_added(ccw, name);
            let q1 = QmpModel { ccw: Some(after), ..q };
            match slot {
                Err(error) => {
                    lemma_abandoning_adds_nothing::<Location>(
                        q1,
                        name,
                        crate::error::message(
                            "CCW subchannel add_device failed: "@
                                + crate::qmp::ccw::ccw_error_text(error),
                        ),
                    );
                },
                Ok(slot) => {
                    let common = common_arguments(request, name);
                    let devno = text_argument("devno"@, ccw_address(slot));
                    lemma_names_differ();
                    lemma_common_follow(request);
                    lemma_base_pushed(request, common, devno);
                    lemma_property_pushed(common, devno);
                    lemma_sharing_follows(request, common.push(devno));
                    let arguments = shared_unless_read_only(common.push(devno), request.read_only);
                    assert(has_property(
                        arguments,
                        "devno"@,
                        ValueModel::Text("fe.0."@ + zero_padded(hex(slot as nat), 4)),
                    ));
                    lemma_device_added(q1, name, None, request.driver, arguments);
                },
            }
        },
    }
}

proof fn lemma_pci_arguments(request: BlockRequest, bus: Seq<char>, slot: i64)
    requires
        request.driver != "virtio-scsi"@,
        request.driver != "virtio-blk-ccw"@,
        request.root_port is Some ==> request.root_port == Some(bus) && slot == 0,
    ensures
        ({
            let name = "drive-"@ + dec(request.index as int);
            let placed = shared_unless_read_only(
                common_arguments(request, name).push(
                    text_argument("addr"@, zero_padded(dec(slot as int), 2)),
                ),
                request.read_only,
            );
            let arguments = match request.iothread {
                Some(iothread) => placed.push(text_argument("iothread"@, iothread)),
                None => placed,
            };
            &&& frontend_follows(request, arguments)
            &&& frontend_placed(request, request.driver, Some(bus), arguments)
        }),
{
    let name = "drive-"@ + dec(request.index as int);
    let common = common_arguments(request, name);
    let addr = text_argument("addr"@, zero_padded(dec(slot as int), 2));
    lemma_names_differ();
    lemma_common_follow(request);
    lemma_base_pushed(request, common, addr);
    lemma_property_pushed(common, addr);
    lemma_sharing_follows(request, common.push(addr));
    let placed = shared_unless_read_only(common.push(addr), request.read_only);
    lemma_slot_zero();
    assert(has_property(placed, "addr"@, addr.value));
    if let Some(iothread) = request.iothread {
        lemma_property_pushed(placed, text_argument("iothread"@, iothread));
    }
}

proof fn lemma_lookup_follows(q: QmpModel, request: BlockRequest, error: crate::error::ErrorModel)
    ensures
        step_adds_nothing(
            lookup_rolled_back(q, request, "drive-"@ + dec(request.index as int), error),
            "drive-"@ + dec(request.index as int),
        ),
{
    let name = "drive-"@ + dec(request.index as int);
    let state = BlockCleanupState {
        frontend: true,
        backend: true,
        fdsets: q.block_fdsets.contains_key(name),
    };
    lemma_cleanup_adds_nothing(q, name, state, DEVICE_DELETED_TIMEOUT);
    assert(step_adds_nothing(unplugged(q, request.driver, name, state), name));
}

proof fn lemma_pci_follows(q: QmpModel, request: BlockRequest)
    requires
        request.driver != "virtio-scsi"@,
        request.driver != "virtio-blk-ccw"@,
    ensures
        pci_device_added(q, request, "drive-"@ + dec(request.index as int)).1 matches Flow::Waiting(
            command,
        ) ==> command_follows(request, command),
{
    let name = "drive-"@ + dec(request.index as int);
    match pci_target_selected(q, request.root_port) {
        (q1, Flow::Done(Err(error))) => {
            lemma_abandoning_adds_nothing::<Location>(q1, name, error);
        },
        (q1, Flow::Done(Ok((bus, slot, on_bridge)))) => {
            let placed = shared_unless_read_only(
                common_arguments(request, name).push(
                    text_argument("addr"@, zero_padded(dec(slot as int), 2)),
                ),
                request.read_only,
            );
            let arguments = match request.iothread {
                Some(iothread) => placed.push(text_argument("iothread"@, iothread)),
                None => placed,
            };
            lemma_pci_arguments(request, bus, slot);
            lemma_device_added(q1, name, Some(bus), request.driver, arguments);
            let (q2, added) = device_added(q1, name, Some(bus), request.driver, arguments);
            if added is Done && added->Done_0 is Ok {
                let (q3, looked_up) = match request.root_port {
                    Some(root_port) => root_port_path(q2, name, root_port),
                    None => device_path(q2, name),
                };
                assert(looked_up matches Flow::Waiting(command) ==> adds_nothing(command, name));
                if let Flow::Done(Err(error)) = looked_up {
                    lemma_lookup_follows(
                        q3,
                        request,
                        crate::error::in_context(error, "get device by qdev_id failed"@),
                    );
                }
            }
        },
        _ => {},
    }
}

proof fn lemma_slot_zero()
    ensures
        zero_padded(dec(0), 2) == "00"@,
{
    reveal_strlit("00");
    reveal_with_fuel(crate::text::digits, 2);
    assert(zero_padded(dec(0), 2) =~= "00"@);
}

proof fn lemma_nodes_follow(
    q: QmpModel,
    request: BlockRequest,
    filename: Seq<char>,
    is_regular_file: bool,
)
    ensures
        nodes_added(
            q,
            request,
            "drive-"@ + dec(request.index as int),
            filename,
            is_regular_file,
        ).1 matches Flow::Waiting(command) ==> command_follows(request, command),
{
    let name = "drive-"@ + dec(request.index as int);
    if q.replies.len() == 0 {
        reveal_strlit("threads");
        reveal_strlit("native");
        assert("threads"@.len() != "native"@.len());
    } else {
        let state = BlockCleanupState {
            frontend: false,
            backend: true,
            fdsets: q.block_fdsets.contains_key(name),
        };
        match add_reconciled(
            taken(q),
            name,
            "blockdev-add"@,
            done_in(q.replies[0]),
            state,
            QmpResidue::Backend,
        ) {
            (q1, Flow::Done(Ok(Some(_)))) => {
                lemma_block_fdsets_add_nothing(q1, name);
            },
            (q1, Flow::Done(Ok(None))) => {
                if request.driver == "virtio-scsi"@ {
                    lemma_scsi_follows(q1, request);
                } else if request.driver == "virtio-blk-ccw"@ {
                    lemma_ccw_follows(q1, request);
                } else {
                    lemma_pci_follows(q1, request);
                }
            },
            _ => {},
        }
    }
}

/// Whatever QEMU replies, every command that plugging a block device asks for says of the device
/// what the request says. The source is opened by its path, in its layout and for that use. The node
/// has the image format of the layout and the modes of the request. The frontend draws on that
/// node, with the properties and in the place that are asked for. Nothing else is added, and nothing
/// but what bears the name of the device is removed.
pub proof fn law_block_commands_follow_the_request(q: QmpModel, request: BlockRequest)
    ensures
        block_plugged(q, request).1 matches Flow::Waiting(command) ==> command_follows(
            request,
            command,
        ),
{
    let name = "drive-"@ + dec(request.index as int);
    let open = CommandModel::OpenSource {
        path: request.path,
        layout: request.vmdk,
        read_only: request.read_only,
        direct: request.direct == Some(true),
    };
    assert(node_name_of(request.index as int) == name);
    lemma_source_follows(q, request, open, seq![]);
    if let (q1, Flow::Done(Ok(prepared))) = source_prepared(q, name, open, seq![]) {
        match prepared.source {
            Err(error) => {
                lemma_fdsets_add_nothing(q1, prepared.fdset_ids, seq![], name);
            },
            Ok((filename, is_regular_file)) => {
                let known = if prepared.fdset_ids.len() > 0 {
                    with_fdsets(q1, q1.block_fdsets.insert(name, prepared.fdset_ids))
                } else {
                    q1
                };
                lemma_nodes_follow(known, request, filename, is_regular_file);
            },
        }
    }
}

/// A session with other replies.
pub open spec fn replying(q: QmpModel, replies: Seq<QmpReply>) -> QmpModel {
    QmpModel { replies, ..q }
}

proof fn lemma_reply_taken(q: QmpModel, first: QmpReply, rest: Seq<QmpReply>)
    ensures
        replying(q, seq![first] + rest).replies.len() > 0,
        replying(q, seq![first] + rest).replies[0] == first,
        taken(replying(q, seq![first] + rest)) == replying(q, rest),
{
    assert((seq![first] + rest).drop_first() =~= rest);
}

/// A device that is not there yet is plugged in step by step, as long as QEMU takes every step: its
/// source is opened, a node is added over the file that the source turned out to be, and a frontend
/// after the node.
pub proof fn law_block_device_is_plugged_step_by_step(
    q: QmpModel,
    request: BlockRequest,
    ready: SourceStep,
)
    requires
        !q.block_fdsets.contains_key("drive-"@ + dec(request.index as int)),
        ready is Prepared,
    ensures
        block_plugged(replying(q, seq![]), request).1 matches Flow::Waiting(
            CommandModel::OpenSource { .. },
        ),
        block_plugged(replying(q, seq![QmpReply::Source(ready)]), request).1 matches Flow::Waiting(
            CommandModel::BlockdevAdd(node),
        ) && node.filename == ready->filename@ && node.is_regular_file == ready->is_regular_file,
        request.driver == "virtio-scsi"@ && request.index <= 65535 ==> block_plugged(
            replying(q, seq![QmpReply::Source(ready), QmpReply::Done]),
            request,
        ).1 matches Flow::Waiting(CommandModel::DeviceAdd { .. }),
        request.driver == "virtio-scsi"@ && request.index <= 65535 ==> block_plugged(
            replying(q, seq![QmpReply::Source(ready), QmpReply::Done, QmpReply::Done]),
            request,
        ) == (
            replying(q, seq![]),
            Flow::<Location, CommandModel>::Done(
                Ok(
                    (
                        None,
                        Some(
                            dec(request.index as int / 256) + ":"@ + dec(
                                request.index as int % 256,
                            ),
                        ),
                    ),
                ),
            ),
        ),
        request.driver == "virtio-scsi"@ && request.index > 65535 ==> block_plugged(
            replying(q, seq![QmpReply::Source(ready), QmpReply::Done]),
            request,
        ).1 matches Flow::Done(Err(_)),
        request.driver == "virtio-blk-ccw"@ ==> (q.ccw matches Some(ccw) ==> (
        !ccw.devices.contains_key("drive-"@ + dec(request.index as int)) && ccw.next_slot < u32::MAX
            ==> {
            let address = zero_padded(hex(ccw.next_slot as nat), 4);
            let (after, result) = block_plugged(
                replying(q, seq![QmpReply::Source(ready), QmpReply::Done, QmpReply::Done]),
                request,
            );
            &&& block_plugged(
                replying(q, seq![QmpReply::Source(ready), QmpReply::Done]),
                request,
            ).1 matches Flow::Waiting(CommandModel::DeviceAdd { arguments, .. }) && has_property(
                arguments,
                "devno"@,
                ValueModel::Text("fe.0."@ + address),
            )
            &&& result == Flow::<Location, CommandModel>::Done(
                Ok((None, Some("0.0."@ + address))),
            )
            &&& after.ccw matches Some(later) && later.devices == ccw.devices.insert(
                "drive-"@ + dec(request.index as int),
                ccw.next_slot,
            ) && later.next_slot == ccw.next_slot + 1
        })),
{
    let name = "drive-"@ + dec(request.index as int);
    assert(node_name_of(request.index as int) == name);
    let source = QmpReply::Source(ready);
    assert(seq![source] =~= seq![source] + seq![]);
    assert(seq![source, QmpReply::Done] =~= seq![source] + seq![QmpReply::Done]);
    assert(seq![source, QmpReply::Done, QmpReply::Done] =~= seq![source] + seq![QmpReply::Done, QmpReply::Done]);
    assert(seq![QmpReply::Done] =~= seq![QmpReply::Done] + seq![]);
    assert(seq![QmpReply::Done, QmpReply::Done] =~= seq![QmpReply::Done] + seq![QmpReply::Done]);
    lemma_reply_taken(q, source, seq![]);
    lemma_reply_taken(q, source, seq![QmpReply::Done]);
    lemma_reply_taken(q, source, seq![QmpReply::Done, QmpReply::Done]);
    lemma_reply_taken(q, QmpReply::Done, seq![]);
    lemma_reply_taken(q, QmpReply::Done, seq![QmpReply::Done]);
    lemma_seated_frontend(q, request);
    reveal_strlit("virtio-scsi");
    reveal_strlit("virtio-blk-ccw");
    assert("virtio-scsi"@.len() != "virtio-blk-ccw"@.len());
    law_block_commands_follow_the_request(replying(q, seq![source, QmpReply::Done]), request);
}

proof fn lemma_seated_frontend(q: QmpModel, request: BlockRequest)
    ensures
        ({
            let name = "drive-"@ + dec(request.index as int);
            let asked = scsi_added(replying(q, seq![]), request, name);
            let done = scsi_added(replying(q, seq![QmpReply::Done]), request, name);
            &&& request.index <= 65535 ==> (asked.1 matches Flow::Waiting(
                CommandModel::DeviceAdd { .. },
            ))
            &&& request.index <= 65535 ==> done == (
                replying(q, seq![]),
                Flow::<Location, CommandModel>::Done(
                    Ok(
                        (
                            None,
                            Some(
                                dec(request.index as int / 256) + ":"@ + dec(
                                    request.index as int % 256,
                                ),
                            ),
                        ),
                    ),
                ),
            )
            &&& request.index > 65535 ==> (asked.1 matches Flow::Done(Err(_)))
        }),
        request.driver == "virtio-blk-ccw"@ && request.driver != "virtio-scsi"@ ==> (
        q.ccw matches Some(ccw) ==> (!ccw.devices.contains_key(
            "drive-"@ + dec(request.index as int),
        ) && ccw.next_slot < u32::MAX ==> {
            let name = "drive-"@ + dec(request.index as int);
            let address = zero_padded(hex(ccw.next_slot as nat), 4);
            let (after, result) = ccw_device_added(replying(q, seq![QmpReply::Done]), request, name);
            &&& ccw_device_added(replying(q, seq![]), request, name).1 matches Flow::Waiting(
                CommandModel::DeviceAdd { arguments, .. },
            ) && has_property(arguments, "devno"@, ValueModel::Text("fe.0."@ + address))
            &&& result == Flow::<Location, CommandModel>::Done(
                Ok((None, Some("0.0."@ + address))),
            )
            &&& after.ccw matches Some(later) && later.devices == ccw.devices.insert(
                name,
                ccw.next_slot,
            ) && later.next_slot == ccw.next_slot + 1
        })),
{
    assert(seq![QmpReply::Done] =~= seq![QmpReply::Done] + seq![]);
    lemma_reply_taken(q, QmpReply::Done, seq![]);
    let name = "drive-"@ + dec(request.index as int);
    if let Some(ccw) = q.ccw {
        let (after, _) = ccw_added(ccw, name);
        let q1 = QmpModel { ccw: Some(after), ..q };
        lemma_reply_taken(q1, QmpReply::Done, seq![]);
        let common = common_arguments(request, name);
        let devno = text_argument("devno"@, ccw_address(ccw.next_slot));
        lemma_common_follow(request);
        lemma_property_pushed(common, devno);
        lemma_names_differ();
        lemma_base_pushed(request, common, devno);
        lemma_sharing_follows(request, common.push(devno));
        assert(has_property(
            shared_unless_read_only(common.push(devno), request.read_only),
            devno.name,
            devno.value,
        ));
    }
}

/// Each descriptor of a source is passed to QEMU under a tag that names the device, the source goes
/// on over the fdset that QEMU put it in, and the fdsets are known of the device once its source is
/// ready. A source that could not be opened ends the plugging with its own error.
pub proof fn law_descriptors_of_the_source_are_passed(
    q: QmpModel,
    request: BlockRequest,
    label: String,
    info: AddfdInfo,
    ready: SourceStep,
    error: crate::error::Error,
)
    requires
        !q.block_fdsets.contains_key("drive-"@ + dec(request.index as int)),
        ready is Prepared,
    ensures
        ({
            let name = "drive-"@ + dec(request.index as int);
            let run = |replies: Seq<QmpReply>| block_plugged(replying(q, replies), request);
            let opened = QmpReply::Source(SourceStep::PassFd(label));
            let passed = QmpReply::FdAdded(info);
            let prepared = QmpReply::Source(ready);
            &&& run(seq![opened]).1 == Flow::<Location, CommandModel>::Waiting(
                CommandModel::AddFd("kata-block:"@ + name + ":"@ + label@),
            )
            &&& run(seq![opened, passed]).1 == Flow::<Location, CommandModel>::Waiting(
                CommandModel::ContinueSource("/dev/fdset/"@ + dec(info.fdset_id as int)),
            )
            &&& run(seq![opened, passed, prepared]).1 matches Flow::Waiting(
                CommandModel::BlockdevAdd(node),
            ) && node.filename == ready->filename@
            &&& run(seq![opened, passed, prepared]).0.block_fdsets =~= q.block_fdsets.insert(
                name,
                seq![info.fdset_id],
            )
            &&& run(seq![QmpReply::Source(SourceStep::Failed(error))]).1 == Flow::<
                Location,
                CommandModel,
            >::Done(Err(error.deep_view()))
        }),
{
    let name = "drive-"@ + dec(request.index as int);
    assert(node_name_of(request.index as int) == name);
    let opened = QmpReply::Source(SourceStep::PassFd(label));
    let passed = QmpReply::FdAdded(info);
    let prepared = QmpReply::Source(ready);
    let failed = QmpReply::Source(SourceStep::Failed(error));
    assert(seq![failed].drop_first() =~= seq![]);
    assert(seq![opened].drop_first() =~= seq![]);
    assert(seq![opened, passed].drop_first() =~= seq![passed]);
    assert(seq![passed].drop_first() =~= seq![]);
    assert(seq![opened, passed, prepared].drop_first() =~= seq![passed, prepared]);
    assert(seq![passed, prepared].drop_first() =~= seq![prepared]);
    assert(seq![prepared].drop_first() =~= seq![]);
    assert(Seq::<i64>::empty().push(info.fdset_id) =~= seq![info.fdset_id]);
    reveal_with_fuel(source_prepared, 3);
}

/// A frontend whose addition got no reply counts as added exactly where QEMU lists it afterwards, over
/// a new connection; where it does not, the backend is removed. A frontend that QEMU refuses has its
/// backend removed at once.
pub proof fn law_lost_addition_is_looked_up(
    q: QmpModel,
    node_name: Seq<char>,
    bus: Option<Seq<char>>,
    driver: Seq<char>,
    arguments: Seq<ArgumentModel>,
    path: Seq<char>,
    failed: QmpReply,
    fdsets: Vec<FdsetInfo>,
    names: Vec<String>,
)
    requires
        failed is Failed,
        q.socket_path == Some(path),
    ensures
        ({
            let run = |replies: Seq<QmpReply>|
                device_added(replying(q, replies), node_name, bus, driver, arguments).1;
            let done = QmpReply::Done;
            let listed = QmpReply::Fdsets(fdsets);
            let found = QmpReply::Names(names);
            &&& run(seq![done]) == Flow::<(), CommandModel>::Done(Ok(()))
            &&& failed->Failed_0.kind != FailureKind::Io ==> run(seq![failed]) == Flow::<
                (),
                CommandModel,
            >::Waiting(CommandModel::BlockdevDel(node_name))
            &&& failed->Failed_0.kind == FailureKind::Io ==> {
                &&& run(seq![failed]) == Flow::<(), CommandModel>::Waiting(
                    CommandModel::Connect(path),
                )
                &&& run(seq![failed, done]) == Flow::<(), CommandModel>::Waiting(
                    CommandModel::QueryFdsets,
                )
                &&& run(seq![failed, done, listed]) == Flow::<(), CommandModel>::Waiting(
                    CommandModel::QomList("/machine/peripheral"@),
                )
                &&& run(seq![failed, done, listed, found]) == if names.deep_view().contains(
                    node_name,
                ) {
                    Flow::<(), CommandModel>::Done(Ok(()))
                } else {
                    Flow::<(), CommandModel>::Waiting(CommandModel::BlockdevDel(node_name))
                }
            }
        }),
{
    let done = QmpReply::Done;
    let listed = QmpReply::Fdsets(fdsets);
    let found = QmpReply::Names(names);
    assert(seq![done].drop_first() =~= seq![]);
    assert(seq![failed].drop_first() =~= seq![]);
    assert(seq![failed, done].drop_first() =~= seq![done]);
    assert(seq![failed, done, listed].drop_first() =~= seq![done, listed]);
    assert(seq![done, listed].drop_first() =~= seq![listed]);
    assert(seq![listed].drop_first() =~= seq![]);
    assert(seq![failed, done, listed, found].drop_first() =~= seq![done, listed, found]);
    assert(seq![done, listed, found].drop_first() =~= seq![listed, found]);
    assert(seq![listed, found].drop_first() =~= seq![found]);
    assert(seq![found].drop_first() =~= seq![]);
}

/// A node that QEMU refuses ends the plugging, after the fdsets of the device are removed; without
/// any, at once.
pub proof fn law_refused_node_ends_the_plugging(
    q: QmpModel,
    request: BlockRequest,
    ready: SourceStep,
    refused: QmpReply,
)
    requires
        !q.block_fdsets.contains_key("drive-"@ + dec(request.index as int)),
        ready is Prepared,
        refused matches QmpReply::Failed(error) && error.kind != FailureKind::Io,
    ensures
        block_plugged(
            replying(q, seq![QmpReply::Source(ready), refused]),
            request,
        ).1 matches Flow::Done(Err(_)),
{
    assert(node_name_of(request.index as int) == "drive-"@ + dec(request.index as int));
    let prepared = QmpReply::Source(ready);
    assert(seq![prepared, refused].drop_first() =~= seq![refused]);
    assert(seq![refused].drop_first() =~= seq![]);
}

/// A device whose fdsets are known is there already: it is refused, and QEMU is asked for nothing.
pub proof fn law_known_device_is_not_plugged_again(q: QmpModel, request: BlockRequest)
    requires
        q.block_fdsets.contains_key("drive-"@ + dec(request.index as int)),
    ensures
        block_plugged(q, request).0 == q,
        block_plugged(q, request).1 matches Flow::Done(Err(_)),
{
    assert(node_name_of(request.index as int) == "drive-"@ + dec(request.index as int));
}

/// A PCI device without a root port goes into the first free slot of a bridge that is known. Once
/// QEMU has it, its path is looked up, and the slot is noted as taken by the device when that is
/// known.
pub proof fn law_pci_device_is_plugged_into_a_bridge(
    q: QmpModel,
    request: BlockRequest,
    ready: SourceStep,
    index: int,
    slot: i64,
    buses: Vec<Vec<PciDevice>>,
    path: Seq<u8>,
)
    requires
        !q.block_fdsets.contains_key("drive-"@ + dec(request.index as int)),
        ready is Prepared,
        request.driver != "virtio-scsi"@,
        request.driver != "virtio-blk-ccw"@,
        request.root_port is None,
        0 <= index < q.bridges.len(),
        free_slot(q) == (
            q,
            Flow::<(Seq<char>, i64), CommandModel>::Done(Ok(("pci-bridge-"@ + dec(index), slot))),
        ),
        device_path(
            replying(q, seq![QmpReply::Pci(buses)]),
            "drive-"@ + dec(request.index as int),
        ).1 == Flow::<Seq<u8>, CommandModel>::Done(Ok(path)),
        free_on_bridges(q.bridges, 0) is Some,
    ensures
        ({
            let name = "drive-"@ + dec(request.index as int);
            let run = |replies: Seq<QmpReply>| block_plugged(replying(q, replies), request);
            let prepared = QmpReply::Source(ready);
            let done = QmpReply::Done;
            let listed = QmpReply::Pci(buses);
            &&& run(seq![prepared, done]).1 matches Flow::Waiting(
                CommandModel::DeviceAdd { driver: _, bus, id: _, arguments },
            ) && bus == Some("pci-bridge-"@ + dec(index)) && has_property(
                arguments,
                "addr"@,
                ValueModel::Text(zero_padded(dec(slot as int), 2)),
            )
            &&& run(seq![prepared, done, done]).1 == Flow::<Location, CommandModel>::Waiting(
                CommandModel::QueryPci,
            )
            &&& run(seq![prepared, done, done, listed]).1 == Flow::<Location, CommandModel>::Done(
                Ok((Some(path), None)),
            )
            &&& run(seq![prepared, done, done, listed]).0.bridges == q.bridges.update(
                index,
                q.bridges[index].insert(slot, name),
            )
        }),
{
    let name = "drive-"@ + dec(request.index as int);
    assert(node_name_of(request.index as int) == name);
    let prepared = QmpReply::Source(ready);
    let done = QmpReply::Done;
    let listed = QmpReply::Pci(buses);
    assert(seq![prepared, done].drop_first() =~= seq![done]);
    assert(seq![done].drop_first() =~= seq![]);
    assert(seq![prepared, done, done].drop_first() =~= seq![done, done]);
    assert(seq![done, done].drop_first() =~= seq![done]);
    assert(seq![prepared, done, done, listed].drop_first() =~= seq![done, done, listed]);
    assert(seq![done, done, listed].drop_first() =~= seq![done, listed]);
    assert(seq![done, listed].drop_first() =~= seq![listed]);
    assert(seq![listed].drop_first() =~= seq![]);
    lemma_bridge_found(q.bridges, index, 0);
    let common = common_arguments(request, name);
    let addr = text_argument("addr"@, zero_padded(dec(slot as int), 2));
    lemma_names_differ();
    lemma_common_follow(request);
    lemma_base_pushed(request, common, addr);
    lemma_property_pushed(common, addr);
    lemma_sharing_follows(request, common.push(addr));
    let placed = shared_unless_read_only(common.push(addr), request.read_only);
    assert(has_property(placed, addr.name, addr.value));
    if let Some(iothread) = request.iothread {
        lemma_property_pushed(placed, text_argument("iothread"@, iothread));
    }
}

/// An addition whose reply is lost, in a session that cannot be opened again, may have left what was
/// there before it and what it adds: of a descriptor its fdset, of a node the node with the fdsets of
/// the device, and of a frontend all of it.
pub proof fn law_lost_addition_tells_what_may_remain(
    q: QmpModel,
    request: BlockRequest,
    node_name: Seq<char>,
    filename: Seq<char>,
    is_regular_file: bool,
    label: Seq<char>,
    bus: Option<Seq<char>>,
    arguments: Seq<ArgumentModel>,
    lost: QmpReply,
)
    requires
        q.socket_path is None,
        lost matches QmpReply::Failed(error) && error.kind == FailureKind::Io,
    ensures
        ({
            let lost_session = replying(q, seq![lost]);
            let known = q.block_fdsets.contains_key(node_name);
            &&& (fd_passed(lost_session, opaque_tag(node_name, label)).1 matches Flow::Done(
                Err(error),
            ) && cleanup_pending_in(error) == Some(
                BlockCleanupState { frontend: false, backend: false, fdsets: true },
            ))
            &&& (nodes_added(
                lost_session,
                request,
                node_name,
                filename,
                is_regular_file,
            ).1 matches Flow::Done(Err(error)) && cleanup_pending_in(error) == Some(
                BlockCleanupState { frontend: false, backend: true, fdsets: known },
            ))
            &&& (device_added(
                lost_session,
                node_name,
                bus,
                request.driver,
                arguments,
            ).1 matches Flow::Done(Err(error)) && cleanup_pending_in(error) == Some(
                BlockCleanupState { frontend: true, backend: true, fdsets: known },
            ))
        }),
{
    let pending = |l: LayerModel| l is CleanupPending;
    assert forall|layer: LayerModel| layer is CleanupPending implies #[trigger] cleanup_pending_in(
        seq![layer],
    ) == Some(layer->state) by {
        lemma_first_layer(seq![layer], pending);
        assert(pending(seq![layer][0]));
    }
}

} // verus!
