//! What holds of the removal of block devices as a whole.
use crate::block_device::BlockCleanupState;
use crate::error::{cleanup_pending_in, error_text, in_context, lemma_first_layer_is, ErrorModel, LayerModel};
use crate::qmp::block::{
    add_reconciled, backend_rolled_back, block_plugged, ccw_device_added, common_arguments,
    device_added, fd_passed, fdset_path, lemma_passing_takes_replies, lookup_completed, node_name_of,
    nodes_added, pci_device_added, shared_unless_read_only, source_in, source_prepared, unplugged,
    BlockRequest, QmpResidue, VIRTIO_BLK_CCW, VIRTIO_SCSI,
};
use crate::qmp::ccw::{ccw_added, ccw_address, ccw_removed};
use crate::qmp::cleanup::{
    backend_cleaned, cleaned, deletion_awaited, deletion_polled, deletion_round, fdset_removed,
    fdsets_cleaned, fdsets_removed, frontend_cleaned, lemma_round_takes_replies,
};
use crate::qmp::fdset::opaque_tag;
use crate::qmp::pci::{device_path, pci_target_selected, root_port_path};
use crate::qmp::session::{
    done_in, refreshed_recovering, taken, with_fdsets, Flow, QmpModel, Step,
};
use crate::qmp::wire::{
    integer_argument, text_argument, ArgumentModel, CommandModel, SourceStep,
};
use crate::text::{dec, zero_padded};
use vstd::prelude::*;

verus! {

/// Whether a command takes anything of a block device out of QEMU.
pub open spec fn removes(command: CommandModel) -> bool {
    command is DeviceDel || command is BlockdevDel || command is RemoveFd
}

/// Whether a step leaves the addresses of devices alone, and while it waits, removes nothing.
pub open spec fn only_looks<T>(q: QmpModel, step: Step<T>) -> bool {
    &&& step.0.ccw == q.ccw
    &&& step.0.bridges == q.bridges
    &&& step.1 matches Flow::Waiting(command) ==> !removes(command)
}

proof fn lemma_round_only_looks(q: QmpModel, device_id: Seq<char>, start: u64, millis: u32)
    ensures
        only_looks(q, deletion_round(q, device_id, start, millis)),
{
}

proof fn lemma_polling_only_looks(q: QmpModel, device_id: Seq<char>, start: u64, millis: u32)
    ensures
        only_looks(q, deletion_polled(q, device_id, start, millis)),
    decreases q.replies.len(),
{
    lemma_round_only_looks(q, device_id, start, millis);
    lemma_round_takes_replies(q, device_id, start, millis);
    if let (q1, Flow::Done(Ok(None))) = deletion_round(q, device_id, start, millis) {
        lemma_polling_only_looks(q1, device_id, start, millis);
    }
}

proof fn lemma_awaiting_only_looks(q: QmpModel, device_id: Seq<char>, millis: u32)
    ensures
        only_looks(q, deletion_awaited(q, device_id, millis)),
{
    if q.replies.len() > 0 {
        lemma_polling_only_looks(
            taken(q),
            device_id,
            crate::qmp::session::elapsed_in(q.replies[0]),
            millis,
        );
    }
}

/// What the first part of a cleanup comes to: the frontend is gone and the rest is as it was, or
/// nothing has changed and the error says so.
proof fn lemma_frontend_part(
    q: QmpModel,
    node_name: Seq<char>,
    state: BlockCleanupState,
    millis: u32,
)
    ensures
        ({
            let (q1, came) = frontend_cleaned(q, node_name, state, millis);
            &&& q1.ccw == q.ccw
            &&& q1.bridges == q.bridges
            &&& match came {
                Flow::Waiting(command) => state.frontend && (command is DeviceDel || !removes(
                    command,
                )),
                Flow::Done(Ok(after)) => after == (BlockCleanupState { frontend: false, ..state }),
                Flow::Done(Err(error)) => state.frontend && error.len() == 1
                    && (error[0] matches LayerModel::CleanupPending {
                    node_name: named,
                    details: _,
                    state: left,
                } && named == node_name && left == state),
            }
        }),
{
    if state.frontend && q.replies.len() > 0 {
        lemma_awaiting_only_looks(taken(q), node_name, millis);
    } else if !state.frontend {
        assert(state == BlockCleanupState { frontend: false, ..state });
    }
}

proof fn lemma_backend_part(q: QmpModel, node_name: Seq<char>, state: BlockCleanupState)
    ensures
        ({
            let (q1, came) = backend_cleaned(q, node_name, state);
            &&& q1.ccw == q.ccw
            &&& q1.bridges == q.bridges
            &&& match came {
                Flow::Waiting(command) => state.backend && (command is BlockdevDel || !removes(
                    command,
                )),
                Flow::Done(Ok(after)) => after == (BlockCleanupState { backend: false, ..state }),
                Flow::Done(Err(error)) => state.backend && error.len() == 1
                    && (error[0] matches LayerModel::CleanupPending {
                    node_name: named,
                    details: _,
                    state: left,
                } && named == node_name && left == state),
            }
        }),
{
    if !state.backend {
        assert(state == BlockCleanupState { backend: false, ..state });
    }
}

proof fn lemma_fdsets_removed(q: QmpModel, ids: Seq<i64>, failed: Seq<i64>)
    ensures
        ({
            let (q1, came) = fdsets_removed(q, ids, failed);
            &&& q1.ccw == q.ccw
            &&& q1.bridges == q.bridges
            &&& match came {
                Flow::Waiting(command) => command is RemoveFd || !removes(command),
                Flow::Done(result) => result is Ok,
            }
        }),
    decreases ids.len(),
{
    if ids.len() > 0 {
        if let (q1, Flow::Done(Ok(gone))) = fdset_removed(q, ids[0]) {
            lemma_fdsets_removed(
                q1,
                ids.drop_first(),
                if gone {
                    failed
                } else {
                    failed.push(ids[0])
                },
            );
        }
    }
}

proof fn lemma_fdsets_part(q: QmpModel, node_name: Seq<char>, state: BlockCleanupState)
    ensures
        ({
            let (q1, came) = fdsets_cleaned(q, node_name, state);
            &&& q1.ccw == q.ccw
            &&& q1.bridges == q.bridges
            &&& match came {
                Flow::Waiting(command) => state.fdsets && (command is RemoveFd || !removes(
                    command,
                )),
                Flow::Done(Ok(after)) => after == (BlockCleanupState { fdsets: false, ..state }),
                Flow::Done(Err(error)) => state.fdsets && error.len() == 1
                    && (error[0] matches LayerModel::CleanupPending {
                    node_name: named,
                    details: _,
                    state: left,
                } && named == node_name && left == state),
            }
        }),
{
    if state.fdsets {
        if let (q1, Flow::Done(Ok(_))) = refreshed_recovering(q) {
            if q1.block_fdsets.contains_key(node_name) {
                lemma_fdsets_removed(
                    with_fdsets(q1, q1.block_fdsets.remove(node_name)),
                    q1.block_fdsets[node_name],
                    seq![],
                );
            }
        }
    } else {
        assert(state == BlockCleanupState { fdsets: false, ..state });
    }
}

/// What may be left of a block device when its cleanup begins: what the caller says, and the fdsets
/// that are known.
pub open spec fn suspected(q: QmpModel, node_name: Seq<char>, state: BlockCleanupState) -> BlockCleanupState {
    BlockCleanupState {
        fdsets: state.fdsets || q.block_fdsets.contains_key(node_name),
        ..state
    }
}

/// A cleanup that does not finish names the device and what is left of it. Something is left, and
/// nothing that was not suspected. As the parts depend on each other, what is left is the device
/// from some part on: with the frontend everything is left that was there, with the backend the
/// fdsets.
pub proof fn law_cleanup_names_its_residue(
    q: QmpModel,
    node_name: Seq<char>,
    state: BlockCleanupState,
    millis: u32,
)
    ensures
        cleaned(q, node_name, state, millis).1 matches Flow::Done(Err(error)) ==> {
            let start = suspected(q, node_name, state);
            &&& error.len() == 1
            &&& error[0] matches LayerModel::CleanupPending {
                node_name: named,
                details: _,
                state: left,
            } && {
                &&& named == node_name
                &&& !left.complete()
                &&& left.frontend ==> left == start
                &&& left.backend ==> start.backend && left.fdsets == start.fdsets
                &&& left.fdsets ==> start.fdsets
            }
        },
{
    let start = suspected(q, node_name, state);
    lemma_frontend_part(q, node_name, start, millis);
    if let (q1, Flow::Done(Ok(s1))) = frontend_cleaned(q, node_name, start, millis) {
        lemma_backend_part(q1, node_name, s1);
        if let (q2, Flow::Done(Ok(s2))) = backend_cleaned(q1, node_name, s1) {
            lemma_fdsets_part(q2, node_name, s2);
        }
    }
}

/// The parts of a device go in order: the backend is not touched while the frontend may be there,
/// nor an fdset while the frontend or the backend may.
pub proof fn law_cleanup_goes_in_order(
    q: QmpModel,
    node_name: Seq<char>,
    state: BlockCleanupState,
    millis: u32,
)
    ensures
        ({
            let start = suspected(q, node_name, state);
            let (q1, first) = frontend_cleaned(q, node_name, start, millis);
            let frontend_gone = first is Done && first->Done_0 is Ok;
            let (q2, second) = backend_cleaned(
                q1,
                node_name,
                BlockCleanupState { frontend: false, ..start },
            );
            let backend_gone = second is Done && second->Done_0 is Ok;
            match cleaned(q, node_name, state, millis).1 {
                Flow::Waiting(CommandModel::DeviceDel(_)) => start.frontend,
                Flow::Waiting(CommandModel::BlockdevDel(_)) => start.backend && frontend_gone,
                Flow::Waiting(CommandModel::RemoveFd(_)) => start.fdsets && frontend_gone
                    && backend_gone,
                _ => true,
            }
        }),
{
    let start = suspected(q, node_name, state);
    lemma_frontend_part(q, node_name, start, millis);
    if let (q1, Flow::Done(Ok(s1))) = frontend_cleaned(q, node_name, start, millis) {
        lemma_backend_part(q1, node_name, s1);
        if let (q2, Flow::Done(Ok(s2))) = backend_cleaned(q1, node_name, s1) {
            lemma_fdsets_part(q2, node_name, s2);
        }
    }
}

/// A device of which nothing is suspected to be left is clean at once: QEMU is asked nothing.
pub proof fn law_clean_device_asks_nothing(
    q: QmpModel,
    node_name: Seq<char>,
    state: BlockCleanupState,
    millis: u32,
)
    requires
        suspected(q, node_name, state).complete(),
    ensures
        cleaned(q, node_name, state, millis) == (q, Flow::<(), CommandModel>::Done(Ok(()))),
{
}

/// A cleanup that is taken up again begins with the first part that is left, so nothing that is
/// gone is removed twice.
pub proof fn law_cleanup_resumes(
    q: QmpModel,
    node_name: Seq<char>,
    left: BlockCleanupState,
    millis: u32,
)
    requires
        q.replies.len() == 0,
        !left.complete(),
    ensures
        cleaned(q, node_name, left, millis).1 == Flow::<(), CommandModel>::Waiting(
            if left.frontend {
                CommandModel::DeviceDel(node_name)
            } else if left.backend {
                CommandModel::BlockdevDel(node_name)
            } else {
                CommandModel::QueryFdsets
            },
        ),
{
}

proof fn lemma_pending_first(error: ErrorModel, at: int)
    requires
        0 <= at < error.len(),
        error[at] is CleanupPending,
        forall|i: int| 0 <= i < at ==> !((#[trigger] error[i]) is CleanupPending),
    ensures
        cleanup_pending_in(error) == Some(error[at]->CleanupPending_state),
{
    lemma_first_layer_is(error, |l: LayerModel| l is CleanupPending, at);
}

/// A device address is given back once nothing of the device is left, and not before: a removal that
/// waits or fails keeps it, one that succeeds frees it.
pub proof fn law_address_outlives_device(
    q: QmpModel,
    driver: Seq<char>,
    node_name: Seq<char>,
    state: BlockCleanupState,
)
    ensures
        unplugged(q, driver, node_name, state).1 != Flow::<(), CommandModel>::Done(Ok(()))
            ==> unplugged(q, driver, node_name, state).0.ccw == q.ccw,
        unplugged(q, driver, node_name, state).1 == Flow::<(), CommandModel>::Done(Ok(())) && driver
            == VIRTIO_BLK_CCW@ ==> (unplugged(q, driver, node_name, state).0.ccw matches Some(ccw)
            ==> !ccw.devices.contains_key(node_name)),
        unplugged(q, driver, node_name, state).0.bridges == q.bridges,
{
    let millis = crate::qmp::cleanup::DEVICE_DELETED_TIMEOUT;
    let start = suspected(q, node_name, state);
    lemma_frontend_part(q, node_name, start, millis);
    if let (q1, Flow::Done(Ok(s1))) = frontend_cleaned(q, node_name, start, millis) {
        lemma_backend_part(q1, node_name, s1);
        if let (q2, Flow::Done(Ok(s2))) = backend_cleaned(q1, node_name, s1) {
            lemma_fdsets_part(q2, node_name, s2);
        }
    }
}

/// A frontend that could not be added leaves nothing unnamed: either QEMU has no frontend and the
/// backend is removed, or the error names what may be left.
pub proof fn law_failed_frontend_leaves_nothing_unnamed(
    q: QmpModel,
    node_name: Seq<char>,
    bus: Option<Seq<char>>,
    driver: Seq<char>,
    arguments: Seq<ArgumentModel>,
)
    requires
        device_added(q, node_name, bus, driver, arguments).1 matches Flow::Done(Err(error))
            && cleanup_pending_in(error) is None,
    ensures
        ({
            let state = BlockCleanupState {
                frontend: true,
                backend: true,
                fdsets: q.block_fdsets.contains_key(node_name),
            };
            let (q1, came) = add_reconciled(
                taken(q),
                node_name,
                "device_add"@,
                done_in(q.replies[0]),
                state,
                QmpResidue::Frontend,
            );
            &&& came matches Flow::Done(Ok(Some(_)))
            &&& backend_rolled_back(q1, node_name).1 == Flow::<(), CommandModel>::Done(Ok(()))
        }),
{
    let state = BlockCleanupState {
        frontend: true,
        backend: true,
        fdsets: q.block_fdsets.contains_key(node_name),
    };
    let error = device_added(q, node_name, bus, driver, arguments).1->Done_0->Err_0;
    match add_reconciled(
        taken(q),
        node_name,
        "device_add"@,
        done_in(q.replies[0]),
        state,
        QmpResidue::Frontend,
    ) {
        (_, Flow::Done(Err(unknown))) => {
            lemma_pending_first(unknown, 0);
        },
        (q1, Flow::Done(Ok(Some(refusal)))) => {
            let rollback = BlockCleanupState {
                frontend: false,
                backend: true,
                fdsets: q1.block_fdsets.contains_key(node_name),
            };
            law_cleanup_names_its_residue(
                q1,
                node_name,
                rollback,
                crate::qmp::cleanup::DEVICE_DELETED_TIMEOUT,
            );
            if let Flow::Done(Err(cleanup)) = backend_rolled_back(q1, node_name).1 {
                assert(error == in_context(cleanup, error_text(refusal)));
                assert(error[1] == cleanup[0]);
                lemma_pending_first(error, 1);
            }
        },
        _ => {},
    }
}

/// A device whose path cannot be looked up is removed again, and the failure of the lookup is what
/// comes out; where the removal fails, the error also names what is left.
pub proof fn law_failed_lookup_names_its_residue(
    node_name: Seq<char>,
    error: ErrorModel,
    state: BlockCleanupState,
    cleanup: Result<(), ErrorModel>,
)
    ensures
        match cleanup {
            Ok(()) => lookup_completed(node_name, Err(error), state, cleanup) == Err::<
                Seq<u8>,
                ErrorModel,
            >(error),
            Err(failure) => lookup_completed(node_name, Err(error), state, cleanup) matches Err(
                shown,
            ) && cleanup_pending_in(shown) == match cleanup_pending_in(failure) {
                Some(left) => Some(left),
                None => Some(state),
            },
        },
{
    if let Err(failure) = cleanup {
        let shown = lookup_completed(node_name, Err(error), state, cleanup)->Err_0;
        let p = |l: LayerModel| l is CleanupPending;
        crate::error::lemma_first_layer(failure, p);
        let at = crate::error::first_layer(failure, p);
        if cleanup_pending_in(failure) is Some {
            assert forall|i: int| 0 <= i < at + 1 implies !((
            #[trigger] shown[i]) is CleanupPending) by {
                if i > 0 {
                    assert(!p(failure[i - 1]));
                }
            }
            assert(shown[at + 1] == failure[at]);
            lemma_pending_first(shown, at + 1);
        } else {
            lemma_pending_first(shown, 0);
        }
    }
}

proof fn lemma_cleanup_keeps_addresses(
    q: QmpModel,
    node_name: Seq<char>,
    state: BlockCleanupState,
    millis: u32,
)
    ensures
        cleaned(q, node_name, state, millis).0.ccw == q.ccw,
        cleaned(q, node_name, state, millis).0.bridges == q.bridges,
{
    let start = suspected(q, node_name, state);
    lemma_frontend_part(q, node_name, start, millis);
    if let (q1, Flow::Done(Ok(s1))) = frontend_cleaned(q, node_name, start, millis) {
        lemma_backend_part(q1, node_name, s1);
        if let (q2, Flow::Done(Ok(s2))) = backend_cleaned(q1, node_name, s1) {
            lemma_fdsets_part(q2, node_name, s2);
        }
    }
}

proof fn lemma_source_keeps_addresses(
    q: QmpModel,
    node_name: Seq<char>,
    command: CommandModel,
    fdset_ids: Seq<i64>,
)
    ensures
        source_prepared(q, node_name, command, fdset_ids).0.ccw == q.ccw,
        source_prepared(q, node_name, command, fdset_ids).0.bridges == q.bridges,
    decreases q.replies.len(),
{
    if q.replies.len() > 0 {
        if let Ok(SourceStep::PassFd(label)) = source_in(q.replies[0]) {
            let tag = opaque_tag(node_name, label@);
            lemma_passing_takes_replies(taken(q), tag);
            if let (q1, Flow::Done(Ok(info))) = fd_passed(taken(q), tag) {
                lemma_source_keeps_addresses(
                    q1,
                    node_name,
                    CommandModel::ContinueSource(fdset_path(info.fdset_id)),
                    fdset_ids.push(info.fdset_id),
                );
            }
        }
    }
}

proof fn lemma_rollback_keeps_addresses(q: QmpModel, node_name: Seq<char>)
    ensures
        backend_rolled_back(q, node_name).0.ccw == q.ccw,
        backend_rolled_back(q, node_name).0.bridges == q.bridges,
{
    let state = BlockCleanupState {
        frontend: false,
        backend: true,
        fdsets: q.block_fdsets.contains_key(node_name),
    };
    lemma_cleanup_keeps_addresses(
        q,
        node_name,
        state,
        crate::qmp::cleanup::DEVICE_DELETED_TIMEOUT,
    );
}

proof fn lemma_addition_keeps_addresses(
    q: QmpModel,
    node_name: Seq<char>,
    bus: Option<Seq<char>>,
    driver: Seq<char>,
    arguments: Seq<ArgumentModel>,
)
    ensures
        device_added(q, node_name, bus, driver, arguments).0.ccw == q.ccw,
        device_added(q, node_name, bus, driver, arguments).0.bridges == q.bridges,
{
    if q.replies.len() > 0 {
        let state = BlockCleanupState {
            frontend: true,
            backend: true,
            fdsets: q.block_fdsets.contains_key(node_name),
        };
        if let (q1, Flow::Done(Ok(Some(_)))) = add_reconciled(
            taken(q),
            node_name,
            "device_add"@,
            done_in(q.replies[0]),
            state,
            QmpResidue::Frontend,
        ) {
            lemma_rollback_keeps_addresses(q1, node_name);
        }
    }
}

/// Whether a session holds the same device addresses as another one. Slot numbers of a subchannel
/// are not given out again, so the next one may be larger.
pub open spec fn same_addresses(before: QmpModel, after: QmpModel) -> bool {
    &&& after.bridges == before.bridges
    &&& match (before.ccw, after.ccw) {
        (Some(earlier), Some(later)) => later.devices == earlier.devices && later.next_slot
            >= earlier.next_slot,
        (None, None) => true,
        _ => false,
    }
}

proof fn lemma_failed_ccw_addition(q: QmpModel, request: BlockRequest, node_name: Seq<char>)
    ensures
        ccw_device_added(q, request, node_name).1 matches Flow::Done(Err(_)) ==> same_addresses(
            q,
            ccw_device_added(q, request, node_name).0,
        ),
{
    lemma_rollback_keeps_addresses(q, node_name);
    if let Some(ccw) = q.ccw {
        let (after, slot) = ccw_added(ccw, node_name);
        let q1 = QmpModel { ccw: Some(after), ..q };
        lemma_rollback_keeps_addresses(q1, node_name);
        if let Ok(slot) = slot {
            let arguments = shared_unless_read_only(
                common_arguments(request, node_name).push(
                    text_argument("devno"@, ccw_address(slot)),
                ),
                request.read_only,
            );
            lemma_addition_keeps_addresses(q1, node_name, None, request.driver, arguments);
            assert(ccw_removed(after, node_name).devices =~= ccw.devices);
        }
    }
}

proof fn lemma_failed_pci_addition(q: QmpModel, request: BlockRequest, node_name: Seq<char>)
    requires
        request.driver != VIRTIO_BLK_CCW@,
    ensures
        pci_device_added(q, request, node_name).1 matches Flow::Done(Err(_)) ==> same_addresses(
            q,
            pci_device_added(q, request, node_name).0,
        ),
{
    let (q1, selected) = pci_target_selected(q, request.root_port);
    assert(q1.ccw == q.ccw && q1.bridges == q.bridges);
    lemma_rollback_keeps_addresses(q1, node_name);
    if let Flow::Done(Ok((bus, slot, on_bridge))) = selected {
        let placed_arguments = shared_unless_read_only(
            common_arguments(request, node_name).push(
                text_argument("addr"@, zero_padded(dec(slot as int), 2)),
            ),
            request.read_only,
        );
        let arguments = match request.iothread {
            Some(iothread) => placed_arguments.push(text_argument("iothread"@, iothread)),
            None => placed_arguments,
        };
        lemma_addition_keeps_addresses(q1, node_name, Some(bus), request.driver, arguments);
        let (q2, added) = device_added(q1, node_name, Some(bus), request.driver, arguments);
        let (q3, looked_up) = match request.root_port {
            Some(root_port) => root_port_path(q2, node_name, root_port),
            None => device_path(q2, node_name),
        };
        assert(q3.ccw == q2.ccw && q3.bridges == q2.bridges);
        let state = BlockCleanupState {
            frontend: true,
            backend: true,
            fdsets: q3.block_fdsets.contains_key(node_name),
        };
        lemma_cleanup_keeps_addresses(
            q3,
            node_name,
            state,
            crate::qmp::cleanup::DEVICE_DELETED_TIMEOUT,
        );
    }
}

/// A block device that could not be plugged in holds no address: the slots on bridges and on the
/// subchannel are those of the devices that were there before.
pub proof fn law_failed_plug_keeps_addresses(q: QmpModel, request: BlockRequest)
    ensures
        block_plugged(q, request).1 matches Flow::Done(Err(_)) ==> same_addresses(
            q,
            block_plugged(q, request).0,
        ),
{
    let node_name = node_name_of(request.index as int);
    let open = CommandModel::OpenSource {
        path: request.path,
        layout: request.vmdk,
        read_only: request.read_only,
        direct: request.direct == Some(true),
    };
    lemma_source_keeps_addresses(q, node_name, open, seq![]);
    if let (q1, Flow::Done(Ok(prepared))) = source_prepared(q, node_name, open, seq![]) {
        match prepared.source {
            Err(_) => {
                lemma_fdsets_removed(q1, prepared.fdset_ids, seq![]);
            },
            Ok((filename, is_regular_file)) => {
                let known = if prepared.fdset_ids.len() > 0 {
                    with_fdsets(q1, q1.block_fdsets.insert(node_name, prepared.fdset_ids))
                } else {
                    q1
                };
                lemma_failed_nodes(known, request, node_name, filename, is_regular_file);
            },
        }
    }
}

proof fn lemma_failed_nodes(
    q: QmpModel,
    request: BlockRequest,
    node_name: Seq<char>,
    filename: Seq<char>,
    is_regular_file: bool,
)
    ensures
        nodes_added(q, request, node_name, filename, is_regular_file).1 matches Flow::Done(Err(_))
            ==> same_addresses(
            q,
            nodes_added(q, request, node_name, filename, is_regular_file).0,
        ),
{
    if q.replies.len() > 0 {
        let state = BlockCleanupState {
            frontend: false,
            backend: true,
            fdsets: q.block_fdsets.contains_key(node_name),
        };
        match add_reconciled(
            taken(q),
            node_name,
            "blockdev-add"@,
            done_in(q.replies[0]),
            state,
            QmpResidue::Backend,
        ) {
            (q1, Flow::Done(Ok(Some(_)))) => {
                if q1.block_fdsets.contains_key(node_name) {
                    lemma_fdsets_removed(
                        with_fdsets(q1, q1.block_fdsets.remove(node_name)),
                        q1.block_fdsets[node_name],
                        seq![],
                    );
                }
            },
            (q1, Flow::Done(Ok(None))) => {
                if request.driver == VIRTIO_SCSI@ {
                    let arguments = shared_unless_read_only(
                        common_arguments(request, node_name).push(
                            integer_argument("scsi-id"@, (request.index / 256) as int),
                        ).push(integer_argument("lun"@, (request.index % 256) as int)),
                        request.read_only,
                    );
                    lemma_addition_keeps_addresses(
                        q1,
                        node_name,
                        Some("scsi0.0"@),
                        "scsi-hd"@,
                        arguments,
                    );
                } else if request.driver == VIRTIO_BLK_CCW@ {
                    lemma_failed_ccw_addition(q1, request, node_name);
                } else {
                    lemma_failed_pci_addition(q1, request, node_name);
                }
            },
            _ => {},
        }
    }
}

} // verus!
