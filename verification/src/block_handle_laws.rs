//! When an attachment and a detachment reach the hypervisor, and what the owners are then.
use crate::block_device::{chunks, sector_count, BlockConfigModern, ExtentModel};
use crate::block_handle::{
    attached, counted_down, counted_up, detached, doubt_of, root_port_use, BackendReply,
    BlockDeviceModernHandle, DeviceCommand, DeviceReplies, PCIeTopology,
};
use crate::error::{
    cleanup_pending_in, device_in_doubt, error_text, lemma_first_layer, names_doubt, Error,
    ErrorModel, LayerModel,
};
use crate::qmp::session::Flow;
use vstd::prelude::*;

verus! {

/// One owner more and one owner less are where they started, and the other way round. There is
/// always one owner less, unless there is none, and one owner more, as long as it can be counted.
/// What both tell of another owner agrees.
pub proof fn law_owners_count_up_and_down(count: u64)
    ensures
        counted_up(count) is Err <==> count == u64::MAX,
        counted_down(count) is Err <==> count == 0,
        counted_up(count) matches Ok((up, before)) ==> {
            &&& up == count + 1
            &&& before <==> count > 0
            &&& counted_down(up) == Ok::<(u64, bool), ErrorModel>((count, before))
        },
        counted_down(count) matches Ok((down, left)) ==> {
            &&& down == count - 1
            &&& left <==> count > 1
            &&& counted_up(down) == Ok::<(u64, bool), ErrorModel>((count, left))
        },
{
}

/// Whether a device has to be plugged into a root port of QEMU.
pub open spec fn needs_root_port(
    config: BlockConfigModern,
    topology: Option<PCIeTopology>,
) -> bool {
    config.use_pcie_root_port && (topology matches Some(topology) && topology.hypervisor_name@
        == "qemu"@)
}

/// The first owner has the hypervisor add the device, and nobody before it has: a root port is
/// reserved first where the device needs one, the device is added on that port, and the attachment
/// is done when the hypervisor says so. From the request on, the owner counts, and where the
/// hypervisor completes the request on its own, the outcome is pending.
pub proof fn law_first_owner_adds_the_device(
    h: BlockDeviceModernHandle,
    topology: Option<PCIeTopology>,
    independent: bool,
    replies: DeviceReplies,
)
    requires
        h.device.attach_count == 0,
        !h.attach_pending,
        h.device.config.cleanup_state is None,
        h.device.config.use_pcie_root_port ==> topology is Some,
    ensures
        ({
            let config = h.device.config;
            let port = needs_root_port(config, topology);
            let (after, came) = attached(h, topology, independent, replies);
            if port && replies.reserved is None {
                &&& came == Flow::<(), DeviceCommand>::Waiting(DeviceCommand::ReserveRootPort)
                &&& after.device.attach_count == 1
                &&& after.device.config == config
            } else if port && (replies.reserved matches Some(Err(_))) {
                &&& came matches Flow::Done(Err(_))
                &&& after.device == h.device
            } else if replies.backend is None {
                &&& came == Flow::<(), DeviceCommand>::Waiting(DeviceCommand::AddDevice)
                &&& after.device.attach_count == 1
                &&& after.attach_pending <==> independent
                &&& after.device.config == BlockConfigModern {
                    pcie_root_port: if port {
                        Some(replies.reserved->0->Ok_0)
                    } else {
                        config.pcie_root_port
                    },
                    ..config
                }
            } else if replies.backend->0.failure is None {
                &&& came == Flow::<(), DeviceCommand>::Done(Ok(()))
                &&& after.device.attach_count == 1
                &&& !after.attach_pending
                &&& after.device.config == replies.backend->0.config
            } else {
                came is Waiting || (came matches Flow::Done(Err(_)))
            }
        }),
        attached(h, topology, independent, replies).0.device.device_id == h.device.device_id,
{
}

/// Without a topology there is no root port to reserve: the attachment is refused, and nobody owns
/// the device.
pub proof fn law_required_topology_has_to_be_there(
    h: BlockDeviceModernHandle,
    independent: bool,
    replies: DeviceReplies,
)
    requires
        h.device.attach_count == 0,
        !h.attach_pending,
        h.device.config.cleanup_state is None,
        h.device.config.use_pcie_root_port,
    ensures
        attached(h, None, independent, replies).1 matches Flow::Done(Err(_)),
        attached(h, None, independent, replies).0.device == h.device,
{
}

/// What the first owner is left with when the hypervisor fails. Where something of the device is
/// left, or may be, the owner keeps it, and the error says that it is in doubt; what is left is noted
/// on the device. Otherwise the owner is counted off, and the root port is given back before the
/// failure comes out.
pub proof fn law_failed_addition_is_kept_or_undone(
    h: BlockDeviceModernHandle,
    topology: Option<PCIeTopology>,
    independent: bool,
    replies: DeviceReplies,
    reply: BackendReply,
    failure: Error,
)
    requires
        h.device.attach_count == 0,
        !h.attach_pending,
        h.device.config.cleanup_state is None,
        h.device.config.use_pcie_root_port ==> topology is Some,
        needs_root_port(h.device.config, topology) ==> (replies.reserved matches Some(Ok(_))),
        replies.backend == Some(reply),
        reply.failure == Some(failure),
    ensures
        ({
            let port = needs_root_port(h.device.config, topology);
            let error = failure.deep_view();
            let (after, came) = attached(h, topology, independent, replies);
            if cleanup_pending_in(error) is Some {
                &&& came matches Flow::Done(Err(shown)) && names_doubt(shown)
                &&& after.device.attach_count == 1
                &&& after.attach_pending
                &&& after.device.config.cleanup_state == cleanup_pending_in(error)
            } else if names_doubt(error) || reply.config.retain_on_unclassified_attach_error {
                &&& came matches Flow::Done(Err(shown)) && names_doubt(shown)
                &&& after.device.attach_count == 1
                &&& after.attach_pending
                &&& after.device.config == reply.config
            } else if port && replies.released is None {
                &&& came == Flow::<(), DeviceCommand>::Waiting(DeviceCommand::ReleaseBus)
                &&& after.device.attach_count == 0
            } else if port && (replies.released matches Some(Ok(_))) {
                &&& came == Flow::<(), DeviceCommand>::Done(Err(error))
                &&& after.device.attach_count == 0
                &&& after.device.config.pcie_root_port is None
                &&& !after.attach_pending
            } else {
                &&& came matches Flow::Done(Err(shown)) && (!port ==> shown == error)
                &&& after.device.attach_count == 0
                &&& !after.attach_pending
            }
        }),
{
    let error = failure.deep_view();
    let (after, came) = attached(h, topology, independent, replies);
    let shown = came->Done_0->Err_0;
    if cleanup_pending_in(error) is Some {
        assert(shown[0] is InDoubt);
    } else if !names_doubt(error) && reply.config.retain_on_unclassified_attach_error {
        assert(shown[0] is InDoubt);
    }
}

/// The last owner has the hypervisor remove the device, and only the last one: any other is counted
/// off and nothing is asked for, and without an owner the detachment is refused. A device that the
/// hypervisor could not remove keeps its owner, with what is left of it noted. A root port is given
/// back after the device is gone.
pub proof fn law_last_owner_removes_the_device(
    h: BlockDeviceModernHandle,
    topology: Option<PCIeTopology>,
    replies: DeviceReplies,
)
    ensures
        ({
            let (after, came) = detached(h, topology, replies);
            let count = h.device.attach_count;
            if count == 0 {
                &&& came matches Flow::Done(Err(_))
                &&& after == h
            } else if count > 1 {
                &&& came == Flow::<Option<u64>, DeviceCommand>::Done(Ok(None))
                &&& after.device.attach_count == count - 1
                &&& after.device.config == h.device.config
            } else if replies.backend is None {
                &&& came == Flow::<Option<u64>, DeviceCommand>::Waiting(DeviceCommand::RemoveDevice)
                &&& after.device.config == h.device.config
            } else if let Some(failure) = replies.backend->0.failure {
                &&& came matches Flow::Done(Err(_))
                &&& after.device.attach_count == 1
                &&& cleanup_pending_in(failure.deep_view()) is Some ==> (
                after.device.config.cleanup_state == cleanup_pending_in(failure.deep_view()))
                &&& cleanup_pending_in(failure.deep_view()) is None ==> after.device.config
                    == replies.backend->0.config
            } else {
                let config = replies.backend->0.config;
                &&& after.device.attach_count == 0
                &&& after.device.config.cleanup_state is None
                &&& config.pcie_root_port is None ==> came == Flow::<
                    Option<u64>,
                    DeviceCommand,
                >::Done(Ok(Some(config.index)))
                &&& config.pcie_root_port is Some && topology is None ==> (came matches Flow::Done(
                    Err(_),
                ))
                &&& config.pcie_root_port is Some && topology is Some && replies.released is None
                    ==> came == Flow::<Option<u64>, DeviceCommand>::Waiting(
                    DeviceCommand::ReleaseBus,
                ) && after.device.config.pcie_root_port == config.pcie_root_port
                &&& config.pcie_root_port is Some && topology is Some && (
                replies.released matches Some(Ok(_))) ==> came == Flow::<
                    Option<u64>,
                    DeviceCommand,
                >::Done(Ok(Some(config.index))) && after.device.config.pcie_root_port is None
                &&& config.pcie_root_port is Some && topology is Some && (
                replies.released matches Some(Err(_))) ==> (came matches Flow::Done(Err(_)))
                    && after.device.config.pcie_root_port == config.pcie_root_port
            }
        }),
        detached(h, topology, replies).0.device.device_id == h.device.device_id,
        detached(h, topology, replies).0.attach_pending == h.attach_pending,
{
}

/// A file that is cut into runs is cut after every two gibibytes and nowhere else, and no sector is
/// left out: run `i` begins where `i` whole runs end.
pub proof fn law_runs_are_two_gibibytes(path: Seq<char>, total: int, i: int)
    requires
        0 <= i < chunks(path, 0, total).len(),
    ensures
        ({
            let run = chunks(path, 0, total)[i];
            &&& run.path == path
            &&& run.file_offset == i * 4_194_304
            &&& run.file_offset < total
            &&& run.sectors == if total - run.file_offset > 4_194_304 {
                4_194_304
            } else {
                total - run.file_offset
            }
        }),
    decreases total,
{
    lemma_runs(path, 0, total, i);
}

proof fn lemma_runs(path: Seq<char>, offset: int, total: int, i: int)
    requires
        0 <= i < chunks(path, offset, total).len(),
    ensures
        ({
            let run = chunks(path, offset, total)[i];
            let before = i * 4_194_304;
            &&& run.path == path
            &&& run.file_offset == offset + before
            &&& before < total
            &&& run.sectors == if total - before > 4_194_304 {
                4_194_304
            } else {
                total - before
            }
        }),
    decreases total,
{
    if total > 4_194_304 && i > 0 {
        let rest = chunks(path, offset + 4_194_304, total - 4_194_304);
        assert(chunks(path, offset, total)[i] == rest[i - 1]);
        lemma_runs(path, offset + 4_194_304, total - 4_194_304, i - 1);
    }
}

/// The sectors of a layout are those of its runs: none for none, and with one run more, those of that
/// run more.
pub proof fn law_sectors_are_those_of_the_runs(extents: Seq<ExtentModel>, extent: ExtentModel)
    ensures
        sector_count(seq![]) == 0,
        sector_count(extents.push(extent)) == sector_count(extents) + extent.sectors,
{
    assert(extents.push(extent).drop_last() =~= extents);
}

/// A root port is used exactly where the device asks for one and the hypervisor is QEMU; what the
/// hypervisor is has to be known then.
pub proof fn law_root_port_is_used_under_qemu(
    config: BlockConfigModern,
    topology: Option<PCIeTopology>,
)
    ensures
        root_port_use(config, topology) is Err <==> config.use_pcie_root_port && topology is None,
        root_port_use(config, topology) == Ok::<bool, ErrorModel>(true)
            <==> config.use_pcie_root_port && (topology matches Some(known)
            && known.hypervisor_name@ == "qemu"@),
{
}

/// The doubt of a device names it and says what the error says.
pub proof fn law_doubt_names_the_device(id: Seq<char>, error: ErrorModel)
    ensures
        device_in_doubt(doubt_of(id, error)) == Some(id),
        error_text(doubt_of(id, error)) == "device "@ + id + " state is in doubt: "@ + error_text(
            error,
        ),
{
    let doubt = |l: LayerModel| l is InDoubt;
    lemma_first_layer(doubt_of(id, error), doubt);
    assert(doubt(doubt_of(id, error)[0]));
}

} // verus!
