//! Hot-plugging block devices.
use crate::block_device::{BlockCleanupState, ExtentModel, VmdkConfig};
use crate::error::{cleanup_pending_in, error_text, in_context, message, Error, ErrorModel};
use crate::pci_path::PciPath;
use crate::qmp::ccw::{ccw_added, ccw_address, ccw_error_text, ccw_guest_address, ccw_removed};
use crate::qmp::cleanup::{
    block_fdsets_removed, cleaned, fdset_ids_removed, DEVICE_DELETED_TIMEOUT,
};
use crate::qmp::fdset::{
    block_fd_node_name, block_fd_opaque, collect_block_fdsets, collected, opaque_tag, tagged_node,
};
use crate::qmp::pci::{
    device_path, pci_target_selected, root_port_path, slot_recorded,
};
use crate::qmp::session::{
    backend_found, cleanup_error, cleanup_state_error, decode_done, decode_fdsets, done_in, exchange,
    fdsets_in, flow, frontend_found, incomplete_block_cleanup, outcome, reconnected, taken,
    with_fdsets, Flow, Qmp, QmpModel, Step,
};
use crate::qmp::wire::{
    failure_error, integer_argument, push_flag, push_integer, push_text, set_flag, text_argument,
    unexpected_reply, AddfdInfo, AioOption, Argument, ArgumentModel, BlockdevModel, BlockdevOptions,
    CommandModel, FailureKind, FailureModel, FdsetFd, FdsetInfo, ImageFormat, QmpCommand, QmpError,
    QmpReply, SourceStep,
};
use crate::text::{
    cat2, cat3, cat4, cat5, dec, dec_i64, dec_u64, law_decimal_text_is_injective, pad, same,
    zero_padded,
};
use vstd::prelude::*;

verus! {

/// The driver of SCSI block devices.
pub const VIRTIO_SCSI: &'static str = "virtio-scsi";

/// The driver of block devices on a CCW subchannel.
pub const VIRTIO_BLK_CCW: &'static str = "virtio-blk-ccw";

/// What of a block device a lost reply leaves open.
#[derive(Clone, Copy, Debug, PartialEq, Eq, Structural)]
pub enum QmpResidue {
    Frontend,
    Backend,
}

/// The name of a block device in QEMU.
pub open spec fn node_name_of(index: int) -> Seq<char> {
    "drive-"@ + dec(index)
}

/// Block devices with different indices have different names.
pub proof fn law_block_names_differ(a: u64, b: u64)
    requires
        node_name_of(a as int) == node_name_of(b as int),
    ensures
        a == b,
{
    let head = "drive-"@.len() as int;
    assert(node_name_of(a as int).skip(head) =~= dec(a as int));
    assert(node_name_of(b as int).skip(head) =~= dec(b as int));
    law_decimal_text_is_injective(a as nat, b as nat);
}

/// The name of a block device in QEMU.
pub fn block_node_name(index: u64) -> (r: String)
    ensures
        r@ == node_name_of(index as int),
{
    cat2("drive-", dec_u64(index).as_str())
}

/// The first descriptor with that tag among the descriptors of an fdset.
pub open spec fn tagged_among(fdset_id: i64, fds: Seq<FdsetFd>, opaque: Seq<char>) -> Option<
    AddfdInfo,
>
    decreases fds.len(),
{
    if fds.len() == 0 {
        None
    } else if fds[0].opaque.deep_view() == Some(opaque) {
        Some(AddfdInfo { fd: fds[0].fd, fdset_id })
    } else {
        tagged_among(fdset_id, fds.drop_first(), opaque)
    }
}

/// The first descriptor with that tag.
pub open spec fn tagged_fd(fdsets: Seq<FdsetInfo>, opaque: Seq<char>) -> Option<AddfdInfo>
    decreases fdsets.len(),
{
    if fdsets.len() == 0 {
        None
    } else {
        match tagged_among(fdsets[0].fdset_id, fdsets[0].fds@, opaque) {
            Some(info) => Some(info),
            None => tagged_fd(fdsets.drop_first(), opaque),
        }
    }
}

/// The first descriptor with that tag.
pub fn find_fd_by_opaque(fdsets: &Vec<FdsetInfo>, opaque: &str) -> (r: Option<AddfdInfo>)
    ensures
        r == tagged_fd(fdsets@, opaque@),
{
    let mut i: usize = 0;
    assert(fdsets@.skip(0) =~= fdsets@);
    while i < fdsets.len()
        invariant
            0 <= i <= fdsets@.len(),
            tagged_fd(fdsets@, opaque@) == tagged_fd(fdsets@.skip(i as int), opaque@),
        decreases fdsets@.len() - i,
    {
        let fdset = &fdsets[i];
        let mut k: usize = 0;
        assert(fdsets@.skip(i as int)[0] == fdset);
        assert(fdsets@.skip(i as int).drop_first() =~= fdsets@.skip(i + 1));
        assert(fdset.fds@.skip(0) =~= fdset.fds@);
        while k < fdset.fds.len()
            invariant
                0 <= k <= fdset.fds@.len(),
                i < fdsets@.len(),
                fdset == fdsets@.skip(i as int)[0],
                tagged_fd(fdsets@, opaque@) == tagged_fd(fdsets@.skip(i as int), opaque@),
                tagged_among(fdset.fdset_id, fdset.fds@, opaque@) == tagged_among(
                    fdset.fdset_id,
                    fdset.fds@.skip(k as int),
                    opaque@,
                ),
            decreases fdset.fds@.len() - k,
        {
            assert(fdset.fds@.skip(k as int).drop_first() =~= fdset.fds@.skip(k + 1));
            if let Some(tag) = &fdset.fds[k].opaque {
                if same(tag.as_str(), opaque) {
                    return Some(AddfdInfo { fd: fdset.fds[k].fd, fdset_id: fdset.fdset_id });
                }
            }
            k = k + 1;
        }
        i = i + 1;
    }
    None
}

/// What a reply says to `add-fd`: a descriptor, a command that was never sent, or a failure.
pub open spec fn fd_added_in(reply: QmpReply) -> Result<AddfdInfo, Result<FailureModel, Seq<char>>> {
    match reply {
        QmpReply::FdAdded(info) => Ok(info),
        QmpReply::NotSent(reason) => Err(Err(reason@)),
        QmpReply::Failed(error) => Err(Ok(error.deep_view())),
        _ => Err(Ok(unexpected_reply())),
    }
}

/// The block device of a tag, or a stand-in where the tag names none.
pub open spec fn node_of_tag(opaque: Seq<char>) -> Seq<char> {
    match tagged_node(opaque) {
        Some(node_name) => node_name,
        None => "unknown-block-device"@,
    }
}

pub open spec fn only_fdsets() -> BlockCleanupState {
    BlockCleanupState { frontend: false, backend: false, fdsets: true }
}

/// Passing a descriptor to QEMU. After a lost reply QEMU is asked whether it has the descriptor;
/// where that cannot be found out, fdsets may be left behind.
pub open spec fn fd_passed(q: QmpModel, opaque: Seq<char>) -> Step<AddfdInfo> {
    if q.replies.len() == 0 {
        (q, Flow::Waiting(CommandModel::AddFd(opaque)))
    } else {
        let q1 = taken(q);
        match fd_added_in(q.replies[0]) {
            Ok(info) => (q1, Flow::Done(Ok(info))),
            Err(Err(reason)) => (
                q1,
                Flow::Done(
                    Err(in_context(message(reason), "send QEMU block fd for "@ + opaque)),
                ),
            ),
            Err(Ok(failure)) => if failure.kind != FailureKind::Io {
                (
                    q1,
                    Flow::Done(
                        Err(
                            message(
                                "QEMU rejected add-fd for "@ + opaque + ": "@ + failure.text,
                            ),
                        ),
                    ),
                )
            } else {
                fd_discovered(q1, opaque, failure.text)
            },
        }
    }
}

/// Looking for a descriptor after the reply to its passing was lost.
pub open spec fn fd_discovered(q: QmpModel, opaque: Seq<char>, lost: Seq<char>) -> Step<AddfdInfo> {
    match reconnected(q) {
        (q1, Flow::Waiting(command)) => (q1, Flow::Waiting(command)),
        (q1, Flow::Done(Err(error))) => (
            q1,
            Flow::Done(
                Err(
                    cleanup_error(
                        node_of_tag(opaque),
                        "add-fd response was lost: "@ + lost + "; QMP reconnection failed: "@
                            + error_text(error),
                        only_fdsets(),
                    ),
                ),
            ),
        ),
        (q1, Flow::Done(Ok(_))) => if q1.replies.len() == 0 {
            (q1, Flow::Waiting(CommandModel::QueryFdsets))
        } else {
            match fdsets_in(q1.replies[0]) {
                Err(failure) => (
                    taken(q1),
                    Flow::Done(
                        Err(
                            cleanup_error(
                                node_of_tag(opaque),
                                "add-fd response was lost: "@ + lost + "; fdset discovery failed: "@
                                    + failure.text,
                                only_fdsets(),
                            ),
                        ),
                    ),
                ),
                Ok(fdsets) => (
                    with_fdsets(taken(q1), collected(fdsets)),
                    Flow::Done(
                        match tagged_fd(fdsets, opaque) {
                            Some(info) => Ok(info),
                            None => Err(
                                message(
                                    "add-fd response was lost for "@ + opaque
                                        + ", and QEMU confirms the fd is absent"@,
                                ),
                            ),
                        },
                    ),
                ),
            }
        },
    }
}

/// Finding out, after a lost reply to `operation`, whether it was carried out.
pub open spec fn ambiguous_add_reconciled(
    q: QmpModel,
    node_name: Seq<char>,
    operation: Seq<char>,
    lost: Seq<char>,
    state: BlockCleanupState,
    residue: QmpResidue,
) -> Step<bool> {
    match reconnected(q) {
        (q1, Flow::Waiting(command)) => (q1, Flow::Waiting(command)),
        (q1, Flow::Done(Err(error))) => (
            q1,
            Flow::Done(
                Err(
                    cleanup_error(
                        node_name,
                        operation + " response was lost: "@ + lost + "; QMP reconnection failed: "@
                            + error_text(error),
                        state,
                    ),
                ),
            ),
        ),
        (q1, Flow::Done(Ok(_))) => {
            let discovered = match residue {
                QmpResidue::Frontend => frontend_found(q1, node_name),
                QmpResidue::Backend => backend_found(q1, node_name),
            };
            match discovered {
                (q2, Flow::Waiting(command)) => (q2, Flow::Waiting(command)),
                (q2, Flow::Done(Ok(found))) => (q2, Flow::Done(Ok(found))),
                (q2, Flow::Done(Err(error))) => (
                    q2,
                    Flow::Done(
                        Err(
                            cleanup_error(
                                node_name,
                                operation + " response was lost: "@ + lost
                                    + "; state discovery failed: "@ + error_text(error),
                                state,
                            ),
                        ),
                    ),
                ),
            }
        },
    }
}

/// Whether an addition took effect: `None` where it did, the reason where QEMU has nothing of it.
pub open spec fn add_reconciled(
    q: QmpModel,
    node_name: Seq<char>,
    operation: Seq<char>,
    result: Result<(), FailureModel>,
    state: BlockCleanupState,
    residue: QmpResidue,
) -> Step<Option<ErrorModel>> {
    match result {
        Ok(_) => (q, Flow::Done(Ok(None))),
        Err(failure) => if failure.kind != FailureKind::Io {
            (
                q,
                Flow::Done(
                    Ok(
                        Some(
                            message(
                                "QEMU rejected "@ + operation + " for "@ + node_name + ": "@
                                    + failure.text,
                            ),
                        ),
                    ),
                ),
            )
        } else {
            match ambiguous_add_reconciled(q, node_name, operation, failure.text, state, residue) {
                (q1, Flow::Waiting(command)) => (q1, Flow::Waiting(command)),
                (q1, Flow::Done(Err(error))) => (q1, Flow::Done(Err(error))),
                (q1, Flow::Done(Ok(true))) => (q1, Flow::Done(Ok(None))),
                (q1, Flow::Done(Ok(false))) => (
                    q1,
                    Flow::Done(
                        Ok(
                            Some(
                                message(
                                    operation + " response was lost for "@ + node_name
                                        + ", and QEMU confirms the resource is absent"@,
                                ),
                            ),
                        ),
                    ),
                ),
            }
        },
    }
}

/// Removing the backend of a block device that has no frontend.
pub open spec fn backend_rolled_back(q: QmpModel, node_name: Seq<char>) -> Step<()> {
    cleaned(
        q,
        node_name,
        BlockCleanupState {
            frontend: false,
            backend: true,
            fdsets: q.block_fdsets.contains_key(node_name),
        },
        DEVICE_DELETED_TIMEOUT,
    )
}

/// Giving up on a block device after `error`: its backend is removed, and the error of an
/// incomplete removal comes out below the text of `error`.
pub open spec fn abandoned<T>(q: QmpModel, node_name: Seq<char>, error: ErrorModel) -> Step<T> {
    match backend_rolled_back(q, node_name) {
        (q1, Flow::Waiting(command)) => (q1, Flow::Waiting(command)),
        (q1, Flow::Done(Err(cleanup))) => (
            q1,
            Flow::Done(Err(in_context(cleanup, error_text(error)))),
        ),
        (q1, Flow::Done(Ok(_))) => (q1, Flow::Done(Err(error))),
    }
}

/// Adding the frontend of a block device. Where QEMU did not take it, the backend is removed.
pub open spec fn device_added(
    q: QmpModel,
    node_name: Seq<char>,
    bus: Option<Seq<char>>,
    driver: Seq<char>,
    arguments: Seq<ArgumentModel>,
) -> Step<()> {
    if q.replies.len() == 0 {
        (q, Flow::Waiting(CommandModel::DeviceAdd { driver, bus, id: node_name, arguments }))
    } else {
        let state = BlockCleanupState {
            frontend: true,
            backend: true,
            fdsets: q.block_fdsets.contains_key(node_name),
        };
        match add_reconciled(
            taken(q),
            node_name,
            "device_add"@,
            done_in(q.replies[0]),
            state,
            QmpResidue::Frontend,
        ) {
            (q1, Flow::Waiting(command)) => (q1, Flow::Waiting(command)),
            (q1, Flow::Done(Err(error))) => (q1, Flow::Done(Err(error))),
            (q1, Flow::Done(Ok(None))) => (q1, Flow::Done(Ok(()))),
            (q1, Flow::Done(Ok(Some(error)))) => abandoned(q1, node_name, error),
        }
    }
}

/// What comes of looking a path up, and of removing the device where that failed.
pub open spec fn lookup_completed(
    node_name: Seq<char>,
    lookup: Result<Seq<u8>, ErrorModel>,
    state: BlockCleanupState,
    cleanup: Result<(), ErrorModel>,
) -> Result<Seq<u8>, ErrorModel> {
    match (lookup, cleanup) {
        (Ok(path), _) => Ok(path),
        (Err(error), Ok(_)) => Err(error),
        (Err(error), Err(cleanup)) => if cleanup_pending_in(cleanup) is Some {
            Err(in_context(cleanup, error_text(error)))
        } else {
            Err(
                cleanup_error(
                    node_name,
                    error_text(error) + "; rollback failed: "@ + error_text(cleanup),
                    state,
                ),
            )
        },
    }
}

/// What comes of looking a path up, and of removing the device where that failed. `cleanup` is
/// the result of that removal; it counts only where the lookup failed.
pub fn complete_pci_path_lookup(
    node_name: &str,
    lookup: Result<PciPath, Error>,
    cleanup_state: BlockCleanupState,
    cleanup: Result<(), Error>,
) -> (r: Result<PciPath, Error>)
    ensures
        outcome(r) == lookup_completed(
            node_name@,
            outcome(lookup),
            cleanup_state,
            outcome(cleanup),
        ),
{
    match lookup {
        Ok(path) => Ok(path),
        Err(error) => match cleanup {
            Ok(_) => Err(error),
            Err(cleanup) => if cleanup.is_cleanup_pending() {
                Err(cleanup.context(error.text()))
            } else {
                Err(
                    incomplete_block_cleanup(
                        node_name,
                        error.text().as_str(),
                        cleanup.text().as_str(),
                        cleanup_state,
                    ),
                )
            },
        },
    }
}

fn decode_fd_added(reply: QmpReply) -> (r: Result<AddfdInfo, Result<QmpError, String>>)
    ensures
        match r {
            Ok(info) => fd_added_in(reply) == Ok::<AddfdInfo, Result<FailureModel, Seq<char>>>(
                info,
            ),
            Err(Ok(error)) => fd_added_in(reply) == Err::<
                AddfdInfo,
                Result<FailureModel, Seq<char>>,
            >(Ok(error.deep_view())),
            Err(Err(reason)) => fd_added_in(reply) == Err::<
                AddfdInfo,
                Result<FailureModel, Seq<char>>,
            >(Err(reason@)),
        },
{
    match reply {
        QmpReply::FdAdded(info) => Ok(info),
        QmpReply::NotSent(reason) => Err(Err(reason)),
        QmpReply::Failed(error) => Err(Ok(error)),
        _ => Err(Ok(QmpError::unexpected())),
    }
}

fn node_name_of_tag(opaque: &str) -> (r: String)
    ensures
        r@ == node_of_tag(opaque@),
{
    match block_fd_node_name(opaque) {
        Some(node_name) => node_name,
        None => "unknown-block-device".to_owned(),
    }
}

impl Qmp {
    /// Passes the descriptor that the block source just opened to QEMU, with that tag.
    pub fn pass_block_fd(&mut self, opaque: &str) -> (r: Result<
        Result<AddfdInfo, Error>,
        QmpCommand,
    >)
        ensures
            (final(self)@, flow(r)) == fd_passed(old(self)@, opaque@),
    {
        let reply = self.ask(QmpCommand::AddFd(opaque.to_owned()))?;
        match decode_fd_added(reply) {
            Ok(info) => Ok(Ok(info)),
            Err(Err(reason)) => Ok(
                Err(Error::msg(reason).context(cat2("send QEMU block fd for ", opaque))),
            ),
            Err(Ok(failure)) => {
                if failure.kind != FailureKind::Io {
                    return Ok(
                        Err(
                            Error::msg(
                                cat4(
                                    "QEMU rejected add-fd for ",
                                    opaque,
                                    ": ",
                                    failure.text.as_str(),
                                ),
                            ),
                        ),
                    );
                }
                self.discover_fd(opaque, failure.text.as_str())
            },
        }
    }

    fn discover_fd(&mut self, opaque: &str, lost: &str) -> (r: Result<
        Result<AddfdInfo, Error>,
        QmpCommand,
    >)
        ensures
            (final(self)@, flow(r)) == fd_discovered(old(self)@, opaque@, lost@),
    {
        let state = BlockCleanupState { frontend: false, backend: false, fdsets: true };
        if let Err(error) = self.reconnect()? {
            return Ok(
                Err(
                    cleanup_state_error(
                        node_name_of_tag(opaque).as_str(),
                        cat4(
                            "add-fd response was lost: ",
                            lost,
                            "; QMP reconnection failed: ",
                            error.text().as_str(),
                        ),
                        state,
                    ),
                ),
            );
        }
        let reply = self.ask(QmpCommand::QueryFdsets)?;
        match decode_fdsets(reply) {
            Err(failure) => Ok(
                Err(
                    cleanup_state_error(
                        node_name_of_tag(opaque).as_str(),
                        cat4(
                            "add-fd response was lost: ",
                            lost,
                            "; fdset discovery failed: ",
                            failure.text.as_str(),
                        ),
                        state,
                    ),
                ),
            ),
            Ok(fdsets) => {
                self.block_fdsets = collect_block_fdsets(&fdsets);
                match find_fd_by_opaque(&fdsets, opaque) {
                    Some(info) => Ok(Ok(info)),
                    None => Ok(
                        Err(
                            Error::msg(
                                cat3(
                                    "add-fd response was lost for ",
                                    opaque,
                                    ", and QEMU confirms the fd is absent",
                                ),
                            ),
                        ),
                    ),
                }
            },
        }
    }

    /// Finds out, after a lost reply to `operation`, whether it was carried out.
    pub fn reconcile_ambiguous_add(
        &mut self,
        node_name: &str,
        operation: &str,
        lost: &str,
        state: BlockCleanupState,
        residue: QmpResidue,
    ) -> (r: Result<Result<bool, Error>, QmpCommand>)
        ensures
            (final(self)@, flow(r)) == ambiguous_add_reconciled(
                old(self)@,
                node_name@,
                operation@,
                lost@,
                state,
                residue,
            ),
    {
        if let Err(error) = self.reconnect()? {
            return Ok(
                Err(
                    cleanup_state_error(
                        node_name,
                        cat5(
                            operation,
                            " response was lost: ",
                            lost,
                            "; QMP reconnection failed: ",
                            error.text().as_str(),
                        ),
                        state,
                    ),
                ),
            );
        }
        let discovered = match residue {
            QmpResidue::Frontend => self.frontend_exists(node_name)?,
            QmpResidue::Backend => self.block_backend_exists(node_name)?,
        };
        match discovered {
            Ok(found) => Ok(Ok(found)),
            Err(error) => Ok(
                Err(
                    cleanup_state_error(
                        node_name,
                        cat5(
                            operation,
                            " response was lost: ",
                            lost,
                            "; state discovery failed: ",
                            error.text().as_str(),
                        ),
                        state,
                    ),
                ),
            ),
        }
    }

    /// Whether an addition took effect: `None` where it did, the reason where QEMU has nothing of
    /// it.
    pub fn reconcile_add_result(
        &mut self,
        node_name: &str,
        operation: &str,
        result: Result<(), QmpError>,
        state: BlockCleanupState,
        residue: QmpResidue,
    ) -> (r: Result<Result<Option<Error>, Error>, QmpCommand>)
        ensures
            (final(self)@, flow(r)) == add_reconciled(
                old(self)@,
                node_name@,
                operation@,
                exchange(result),
                state,
                residue,
            ),
    {
        match result {
            Ok(_) => Ok(Ok(None)),
            Err(failure) => {
                if failure.kind != FailureKind::Io {
                    return Ok(
                        Ok(
                            Some(
                                Error::msg(
                                    cat5(
                                        "QEMU rejected ",
                                        operation,
                                        " for ",
                                        node_name,
                                        ": ",
                                    ).concat(failure.text.as_str()),
                                ),
                            ),
                        ),
                    );
                }
                match self.reconcile_ambiguous_add(
                    node_name,
                    operation,
                    failure.text.as_str(),
                    state,
                    residue,
                )? {
                    Ok(true) => Ok(Ok(None)),
                    Ok(false) => Ok(
                        Ok(
                            Some(
                                Error::msg(
                                    cat4(
                                        operation,
                                        " response was lost for ",
                                        node_name,
                                        ", and QEMU confirms the resource is absent",
                                    ),
                                ),
                            ),
                        ),
                    ),
                    Err(error) => Ok(Err(error)),
                }
            },
        }
    }

    /// Removes the backend of a block device that has no frontend.
    pub fn cleanup_block_backend(&mut self, node_name: &str) -> (r: Result<
        Result<(), Error>,
        QmpCommand,
    >)
        ensures
            (final(self)@, flow(r)) == backend_rolled_back(old(self)@, node_name@),
    {
        let state = BlockCleanupState {
            frontend: false,
            backend: true,
            fdsets: self.block_fdsets.contains_key(node_name),
        };
        self.cleanup_pending_block_device(node_name, state)
    }

    fn abandon<T: DeepView>(&mut self, node_name: &str, error: Error) -> (r: Result<
        Result<T, Error>,
        QmpCommand,
    >)
        ensures
            (final(self)@, flow(r)) == abandoned::<T::V>(
                old(self)@,
                node_name@,
                error.deep_view(),
            ),
    {
        match self.cleanup_block_backend(node_name)? {
            Err(cleanup) => Ok(Err(cleanup.context(error.text()))),
            Ok(_) => Ok(Err(error)),
        }
    }

    /// Adds the frontend of a block device. Where QEMU did not take it, the backend is removed.
    pub fn device_add_with_rollback(
        &mut self,
        node_name: &str,
        bus: Option<String>,
        driver: &str,
        arguments: Vec<Argument>,
    ) -> (r: Result<Result<(), Error>, QmpCommand>)
        ensures
            (final(self)@, flow(r)) == device_added(
                old(self)@,
                node_name@,
                bus.deep_view(),
                driver@,
                arguments.deep_view(),
            ),
    {
        let reply = self.ask(
            QmpCommand::DeviceAdd {
                driver: driver.to_owned(),
                bus,
                id: node_name.to_owned(),
                arguments,
            },
        )?;
        let state = BlockCleanupState::attached(self.block_fdsets.contains_key(node_name));
        match self.reconcile_add_result(
            node_name,
            "device_add",
            decode_done(reply),
            state,
            QmpResidue::Frontend,
        )? {
            Err(error) => Ok(Err(error)),
            Ok(None) => Ok(Ok(())),
            Ok(Some(error)) => self.abandon::<()>(node_name, error),
        }
    }
}

/// What a block device is to be like.
pub struct BlockRequest {
    pub driver: Seq<char>,
    pub index: u64,
    pub path: Seq<char>,
    pub aio: Seq<char>,
    pub direct: Option<bool>,
    pub read_only: bool,
    pub no_drop: bool,
    pub discard_unmap: bool,
    pub logical_block_size: u32,
    pub physical_block_size: u32,
    /// The structured VMDK layout of the source, where it has one.
    pub vmdk: Option<Seq<ExtentModel>>,
    pub iothread: Option<Seq<char>>,
    pub root_port: Option<Seq<char>>,
}

/// How far the source of a block device has been prepared: the file name and whether it is a
/// regular file, or why it failed; with the fdsets of the descriptors that were passed.
pub struct SourceModel {
    pub fdset_ids: Seq<i64>,
    pub source: Result<(Seq<char>, bool), ErrorModel>,
}

/// What a reply says to a step of preparing a block source.
pub open spec fn source_in(reply: QmpReply) -> Result<SourceStep, FailureModel> {
    match reply {
        QmpReply::Source(step) => Ok(step),
        QmpReply::Failed(error) => Err(error.deep_view()),
        _ => Err(unexpected_reply()),
    }
}

/// The path under which QEMU knows the descriptors of an fdset.
pub open spec fn fdset_path(fdset_id: i64) -> Seq<char> {
    "/dev/fdset/"@ + dec(fdset_id as int)
}

/// Preparing the source of a block device: each descriptor that is opened is passed to QEMU, until
/// the source is ready or something fails.
pub open spec fn source_prepared(
    q: QmpModel,
    node_name: Seq<char>,
    command: CommandModel,
    fdset_ids: Seq<i64>,
) -> Step<SourceModel>
    decreases q.replies.len(),
{
    if q.replies.len() == 0 {
        (q, Flow::Waiting(command))
    } else {
        match source_in(q.replies[0]) {
            Err(failure) => (
                taken(q),
                Flow::Done(Ok(SourceModel { fdset_ids, source: Err(failure_error(failure)) })),
            ),
            Ok(SourceStep::Failed(error)) => (
                taken(q),
                Flow::Done(Ok(SourceModel { fdset_ids, source: Err(error.deep_view()) })),
            ),
            Ok(SourceStep::Prepared { filename, is_regular_file }) => (
                taken(q),
                Flow::Done(
                    Ok(SourceModel { fdset_ids, source: Ok((filename@, is_regular_file)) }),
                ),
            ),
            Ok(SourceStep::PassFd(label)) => match fd_passed(
                taken(q),
                opaque_tag(node_name, label@),
            ) {
                (q1, Flow::Waiting(command)) => (q1, Flow::Waiting(command)),
                (q1, Flow::Done(Err(error))) => (
                    q1,
                    Flow::Done(Ok(SourceModel { fdset_ids, source: Err(error) })),
                ),
                (q1, Flow::Done(Ok(info))) => {
                    proof {
                        lemma_passing_takes_replies(taken(q), opaque_tag(node_name, label@));
                    }
                    source_prepared(
                        q1,
                        node_name,
                        CommandModel::ContinueSource(fdset_path(info.fdset_id)),
                        fdset_ids.push(info.fdset_id),
                    )
                },
            },
        }
    }
}

/// A descriptor that was passed has taken up a reply.
pub proof fn lemma_passing_takes_replies(q: QmpModel, opaque: Seq<char>)
    ensures
        fd_passed(q, opaque).0.replies.len() <= q.replies.len(),
{
}

/// How QEMU is to read and write the file, by the name that is configured.
pub open spec fn aio_option(name: Seq<char>) -> AioOption {
    if name == "threads"@ {
        AioOption::Threads
    } else if name == "native"@ {
        AioOption::Native
    } else {
        AioOption::IoUring
    }
}

/// The block nodes of a device.
pub open spec fn block_nodes(
    request: BlockRequest,
    node_name: Seq<char>,
    filename: Seq<char>,
    is_regular_file: bool,
) -> BlockdevModel {
    BlockdevModel {
        node_name,
        format: if request.vmdk is Some {
            ImageFormat::Vmdk
        } else {
            ImageFormat::Raw
        },
        force_share: if request.vmdk is Some || request.read_only {
            Some(true)
        } else {
            None
        },
        read_only: request.read_only,
        discard_unmap: request.discard_unmap,
        filename,
        is_regular_file,
        aio: aio_option(request.aio),
        drop_cache: if request.no_drop {
            Some(true)
        } else {
            None
        },
        cache_direct: request.direct,
    }
}

/// The properties that every frontend of a block device has.
pub open spec fn common_arguments(request: BlockRequest, node_name: Seq<char>) -> Seq<
    ArgumentModel,
> {
    let drive = seq![text_argument("drive"@, node_name)];
    let discard = if request.discard_unmap && request.driver != VIRTIO_SCSI@ {
        drive.push(set_flag("discard"@))
    } else {
        drive
    };
    let logical = if request.logical_block_size > 0 {
        discard.push(integer_argument("logical_block_size"@, request.logical_block_size as int))
    } else {
        discard
    };
    if request.physical_block_size > 0 {
        logical.push(integer_argument("physical_block_size"@, request.physical_block_size as int))
    } else {
        logical
    }
}

/// The properties of a frontend, with writing shared where the device is writable.
pub open spec fn shared_unless_read_only(
    arguments: Seq<ArgumentModel>,
    read_only: bool,
) -> Seq<ArgumentModel> {
    if read_only {
        arguments
    } else {
        arguments.push(set_flag("share-rw"@))
    }
}

/// Where a device was found: a PCI path, or an address of another kind.
pub type Location = (Option<Seq<u8>>, Option<Seq<char>>);

/// Adding a SCSI frontend. The index of the device gives the target and the unit; one that does
/// not fit is refused, and the backend stays.
pub open spec fn scsi_added(q: QmpModel, request: BlockRequest, node_name: Seq<char>) -> Step<
    Location,
> {
    if request.index > u16::MAX {
        (
            q,
            Flow::Done(Err(message("out of range integral type conversion attempted"@))),
        )
    } else {
        let scsi_id = request.index / 256;
        let lun = request.index % 256;
        let arguments = shared_unless_read_only(
            common_arguments(request, node_name).push(
                integer_argument("scsi-id"@, scsi_id as int),
            ).push(integer_argument("lun"@, lun as int)),
            request.read_only,
        );
        match device_added(q, node_name, Some("scsi0.0"@), "scsi-hd"@, arguments) {
            (q1, Flow::Waiting(command)) => (q1, Flow::Waiting(command)),
            (q1, Flow::Done(Err(error))) => (q1, Flow::Done(Err(error))),
            (q1, Flow::Done(Ok(_))) => (
                q1,
                Flow::Done(Ok((None, Some(dec(scsi_id as int) + ":"@ + dec(lun as int))))),
            ),
        }
    }
}

/// The session without a device on its subchannel.
pub open spec fn off_subchannel(q: QmpModel, device_id: Seq<char>) -> QmpModel {
    QmpModel {
        ccw: match q.ccw {
            Some(ccw) => Some(ccw_removed(ccw, device_id)),
            None => None,
        },
        ..q
    }
}

/// Adding a frontend on the CCW subchannel. The device leaves the subchannel again where it could
/// not be added.
pub open spec fn ccw_device_added(q: QmpModel, request: BlockRequest, node_name: Seq<char>) -> Step<
    Location,
> {
    match q.ccw {
        None => abandoned(
            q,
            node_name,
            message("CCW subchannel not available for virtio-blk-ccw hotplug"@),
        ),
        Some(ccw) => {
            let (after, slot) = ccw_added(ccw, node_name);
            let q1 = QmpModel { ccw: Some(after), ..q };
            match slot {
                Err(error) => abandoned(
                    q1,
                    node_name,
                    message("CCW subchannel add_device failed: "@ + ccw_error_text(error)),
                ),
                Ok(slot) => {
                    let arguments = shared_unless_read_only(
                        common_arguments(request, node_name).push(
                            text_argument("devno"@, ccw_address(slot)),
                        ),
                        request.read_only,
                    );
                    match device_added(q1, node_name, None, request.driver, arguments) {
                        (q2, Flow::Waiting(command)) => (q2, Flow::Waiting(command)),
                        (q2, Flow::Done(Err(error))) => (
                            off_subchannel(q2, node_name),
                            Flow::Done(Err(error)),
                        ),
                        (q2, Flow::Done(Ok(_))) => (
                            q2,
                            Flow::Done(Ok((None, Some(ccw_guest_address(slot))))),
                        ),
                    }
                },
            }
        },
    }
}

/// Adding a PCI frontend, on the root port that is given or on a bridge, and looking its path up.
/// Where that fails the device is removed again.
pub open spec fn pci_device_added(q: QmpModel, request: BlockRequest, node_name: Seq<char>) -> Step<
    Location,
> {
    match pci_target_selected(q, request.root_port) {
        (q1, Flow::Waiting(command)) => (q1, Flow::Waiting(command)),
        (q1, Flow::Done(Err(error))) => abandoned(q1, node_name, error),
        (q1, Flow::Done(Ok((bus, slot, on_bridge)))) => {
            let placed_arguments = shared_unless_read_only(
                common_arguments(request, node_name).push(
                    text_argument("addr"@, zero_padded(dec(slot as int), 2)),
                ),
                request.read_only,
            );
            let arguments = match request.iothread {
                Some(iothread) => placed_arguments.push(text_argument("iothread"@, iothread)),
                None => placed_arguments,
            };
            match device_added(q1, node_name, Some(bus), request.driver, arguments) {
                (q2, Flow::Waiting(command)) => (q2, Flow::Waiting(command)),
                (q2, Flow::Done(Err(error))) => (q2, Flow::Done(Err(error))),
                (q2, Flow::Done(Ok(_))) => {
                    let looked_up = match request.root_port {
                        Some(root_port) => root_port_path(q2, node_name, root_port),
                        None => device_path(q2, node_name),
                    };
                    match looked_up {
                        (q3, Flow::Waiting(command)) => (q3, Flow::Waiting(command)),
                        (q3, Flow::Done(Ok(path))) => (
                            if on_bridge {
                                QmpModel {
                                    bridges: slot_recorded(q3.bridges, bus, slot, node_name),
                                    ..q3
                                }
                            } else {
                                q3
                            },
                            Flow::Done(Ok((Some(path), None))),
                        ),
                        (q3, Flow::Done(Err(error))) => lookup_rolled_back(
                            q3,
                            request,
                            node_name,
                            in_context(error, "get device by qdev_id failed"@),
                        ),
                    }
                },
            }
        },
    }
}

/// Removing a device whose path could not be looked up.
pub open spec fn lookup_rolled_back(
    q: QmpModel,
    request: BlockRequest,
    node_name: Seq<char>,
    error: ErrorModel,
) -> Step<Location> {
    let state = BlockCleanupState {
        frontend: true,
        backend: true,
        fdsets: q.block_fdsets.contains_key(node_name),
    };
    match unplugged(q, request.driver, node_name, state) {
        (q1, Flow::Waiting(command)) => (q1, Flow::Waiting(command)),
        (q1, Flow::Done(cleanup)) => match lookup_completed(node_name, Err(error), state, cleanup) {
            Ok(path) => (q1, Flow::Done(Ok((Some(path), None)))),
            Err(error) => (q1, Flow::Done(Err(error))),
        },
    }
}

/// Removing a block device. It leaves the CCW subchannel once nothing of it is left.
pub open spec fn unplugged(
    q: QmpModel,
    driver: Seq<char>,
    node_name: Seq<char>,
    state: BlockCleanupState,
) -> Step<()> {
    match cleaned(q, node_name, state, DEVICE_DELETED_TIMEOUT) {
        (q1, Flow::Waiting(command)) => (q1, Flow::Waiting(command)),
        (q1, Flow::Done(Err(error))) => (q1, Flow::Done(Err(error))),
        (q1, Flow::Done(Ok(_))) => (
            if driver == VIRTIO_BLK_CCW@ {
                off_subchannel(q1, node_name)
            } else {
                q1
            },
            Flow::Done(Ok(())),
        ),
    }
}

/// Adding the block nodes of a device whose source is ready, then its frontend.
pub open spec fn nodes_added(
    q: QmpModel,
    request: BlockRequest,
    node_name: Seq<char>,
    filename: Seq<char>,
    is_regular_file: bool,
) -> Step<Location> {
    if q.replies.len() == 0 {
        (
            q,
            Flow::Waiting(
                CommandModel::BlockdevAdd(
                    block_nodes(request, node_name, filename, is_regular_file),
                ),
            ),
        )
    } else {
        let state = BlockCleanupState {
            frontend: false,
            backend: true,
            fdsets: q.block_fdsets.contains_key(node_name),
        };
        match add_reconciled(
            taken(q),
            node_name,
            "blockdev-add"@,
            done_in(q.replies[0]),
            state,
            QmpResidue::Backend,
        ) {
            (q1, Flow::Waiting(command)) => (q1, Flow::Waiting(command)),
            (q1, Flow::Done(Err(error))) => (q1, Flow::Done(Err(error))),
            (q1, Flow::Done(Ok(Some(error)))) => match block_fdsets_removed(q1, node_name) {
                (q2, Flow::Waiting(command)) => (q2, Flow::Waiting(command)),
                (q2, Flow::Done(Err(cleanup))) => (
                    q2,
                    Flow::Done(
                        Err(
                            cleanup_error(
                                node_name,
                                error_text(error) + "; rollback failed: "@ + error_text(cleanup),
                                only_fdsets(),
                            ),
                        ),
                    ),
                ),
                (q2, Flow::Done(Ok(_))) => (
                    q2,
                    Flow::Done(Err(message("blockdev-add backend "@ + error_text(error)))),
                ),
            },
            (q1, Flow::Done(Ok(None))) => if request.driver == VIRTIO_SCSI@ {
                scsi_added(q1, request, node_name)
            } else if request.driver == VIRTIO_BLK_CCW@ {
                ccw_device_added(q1, request, node_name)
            } else {
                pci_device_added(q1, request, node_name)
            },
        }
    }
}

/// Giving up on a source that could not be prepared: the fdsets that were made for it are removed,
/// unless it is in doubt which those are.
pub open spec fn source_abandoned(
    q: QmpModel,
    node_name: Seq<char>,
    fdset_ids: Seq<i64>,
    error: ErrorModel,
) -> Step<Location> {
    if cleanup_pending_in(error) is Some {
        (q, Flow::Done(Err(error)))
    } else {
        match fdset_ids_removed(q, node_name, fdset_ids) {
            (q1, Flow::Waiting(command)) => (q1, Flow::Waiting(command)),
            (q1, Flow::Done(Err(cleanup))) => (
                q1,
                Flow::Done(
                    Err(
                        cleanup_error(
                            node_name,
                            error_text(error) + "; rollback failed: "@ + error_text(cleanup),
                            only_fdsets(),
                        ),
                    ),
                ),
            ),
            (q1, Flow::Done(Ok(_))) => (q1, Flow::Done(Err(error))),
        }
    }
}

/// Hot-plugging a block device: its source is prepared, its block nodes are added, then its
/// frontend. Whatever fails, what was added before is removed again, and what could not be removed
/// is named in the error.
pub open spec fn block_plugged(q: QmpModel, request: BlockRequest) -> Step<Location> {
    let node_name = node_name_of(request.index as int);
    if q.block_fdsets.contains_key(node_name) {
        (q, Flow::Done(Err(message("duplicate QEMU block device ID "@ + node_name))))
    } else {
        let open = CommandModel::OpenSource {
            path: request.path,
            layout: request.vmdk,
            read_only: request.read_only,
            direct: request.direct == Some(true),
        };
        match source_prepared(q, node_name, open, seq![]) {
            (q1, Flow::Waiting(command)) => (q1, Flow::Waiting(command)),
            (q1, Flow::Done(Err(error))) => (q1, Flow::Done(Err(error))),
            (q1, Flow::Done(Ok(prepared))) => match prepared.source {
                Err(error) => source_abandoned(q1, node_name, prepared.fdset_ids, error),
                Ok((filename, is_regular_file)) => nodes_added(
                    if prepared.fdset_ids.len() > 0 {
                        with_fdsets(q1, q1.block_fdsets.insert(node_name, prepared.fdset_ids))
                    } else {
                        q1
                    },
                    request,
                    node_name,
                    filename,
                    is_regular_file,
                ),
            },
        }
    }
}

/// A prepared source.
pub struct PreparedSource {
    pub fdset_ids: Vec<i64>,
    pub source: Result<(String, bool), Error>,
}

impl DeepView for PreparedSource {
    type V = SourceModel;

    open spec fn deep_view(&self) -> SourceModel {
        SourceModel {
            fdset_ids: self.fdset_ids@,
            source: match self.source {
                Ok((filename, is_regular_file)) => Ok((filename@, is_regular_file)),
                Err(error) => Err(error.deep_view()),
            },
        }
    }
}

fn decode_source(reply: QmpReply) -> (r: Result<SourceStep, QmpError>)
    ensures
        match r {
            Ok(step) => source_in(reply) == Ok::<SourceStep, FailureModel>(step),
            Err(error) => source_in(reply) == Err::<SourceStep, FailureModel>(error.deep_view()),
        },
{
    match reply {
        QmpReply::Source(step) => Ok(step),
        QmpReply::Failed(error) => Err(error),
        _ => Err(QmpError::unexpected()),
    }
}

fn aio_by_name(name: &str) -> (r: AioOption)
    ensures
        r == aio_option(name@),
{
    if same(name, "threads") {
        AioOption::Threads
    } else if same(name, "native") {
        AioOption::Native
    } else {
        AioOption::IoUring
    }
}

/// An optional text, as a model.
pub open spec fn str_option(s: Option<&str>) -> Option<Seq<char>> {
    match s {
        Some(text) => Some(text@),
        None => None,
    }
}

/// The layout of a source, as a model.
pub open spec fn layout_of(vmdk: Option<&VmdkConfig>) -> Option<Seq<ExtentModel>> {
    match vmdk {
        Some(layout) => Some(layout@),
        None => None,
    }
}

/// A block device to be hot-plugged, with what is needed after its source is ready.
pub struct PlugRequest<'a> {
    pub block_driver: &'a str,
    pub index: u64,
    pub path_on_host: &'a str,
    pub blkdev_aio: &'a str,
    pub is_direct: Option<bool>,
    pub is_readonly: bool,
    pub no_drop: bool,
    pub discard_unmap: bool,
    pub logical_block_size: u32,
    pub physical_block_size: u32,
    pub vmdk: Option<&'a VmdkConfig>,
    pub iothread: Option<&'a str>,
    pub pcie_root_port: Option<&'a str>,
}

impl<'a> View for PlugRequest<'a> {
    type V = BlockRequest;

    open spec fn view(&self) -> BlockRequest {
        BlockRequest {
            driver: self.block_driver@,
            index: self.index,
            path: self.path_on_host@,
            aio: self.blkdev_aio@,
            direct: self.is_direct,
            read_only: self.is_readonly,
            no_drop: self.no_drop,
            discard_unmap: self.discard_unmap,
            logical_block_size: self.logical_block_size,
            physical_block_size: self.physical_block_size,
            vmdk: layout_of(self.vmdk),
            iothread: str_option(self.iothread),
            root_port: str_option(self.pcie_root_port),
        }
    }
}

impl<'a> PlugRequest<'a> {
    fn arguments(&self, node_name: &str) -> (r: Vec<Argument>)
        ensures
            r.deep_view() == common_arguments(self@, node_name@),
    {
        let mut arguments: Vec<Argument> = Vec::new();
        push_text(&mut arguments, "drive", node_name.to_owned());
        assert(arguments.deep_view() =~= seq![text_argument("drive"@, node_name@)]);
        if self.discard_unmap && !same(self.block_driver, VIRTIO_SCSI) {
            push_flag(&mut arguments, "discard");
        }
        if self.logical_block_size > 0 {
            push_integer(&mut arguments, "logical_block_size", self.logical_block_size as i64);
        }
        if self.physical_block_size > 0 {
            push_integer(&mut arguments, "physical_block_size", self.physical_block_size as i64);
        }
        arguments
    }

    fn share_writing(&self, arguments: &mut Vec<Argument>)
        ensures
            final(arguments).deep_view() == shared_unless_read_only(
                old(arguments).deep_view(),
                self.is_readonly,
            ),
    {
        if !self.is_readonly {
            push_flag(arguments, "share-rw");
        }
    }
}

impl Qmp {
    fn prepare_source(&mut self, node_name: &str, open: QmpCommand) -> (r: Result<
        Result<PreparedSource, Error>,
        QmpCommand,
    >)
        ensures
            (final(self)@, flow(r)) == source_prepared(
                old(self)@,
                node_name@,
                open.deep_view(),
                seq![],
            ),
    {
        let mut fdset_ids: Vec<i64> = Vec::new();
        let mut command: QmpCommand = open;
        loop
            invariant
                source_prepared(old(self)@, node_name@, open.deep_view(), seq![])
                    == source_prepared(self@, node_name@, command.deep_view(), fdset_ids@),
            decreases self@.replies.len(),
        {
            let reply = self.ask(command)?;
            match decode_source(reply) {
                Err(failure) => {
                    return Ok(
                        Ok(PreparedSource { fdset_ids, source: Err(failure.into_error()) }),
                    );
                },
                Ok(SourceStep::Failed(error)) => {
                    return Ok(Ok(PreparedSource { fdset_ids, source: Err(error) }));
                },
                Ok(SourceStep::Prepared { filename, is_regular_file }) => {
                    return Ok(
                        Ok(PreparedSource { fdset_ids, source: Ok((filename, is_regular_file)) }),
                    );
                },
                Ok(SourceStep::PassFd(label)) => {
                    let opaque = block_fd_opaque(node_name, label.as_str());
                    proof {
                        lemma_passing_takes_replies(self@, opaque@);
                    }
                    match self.pass_block_fd(opaque.as_str())? {
                        Err(error) => {
                            return Ok(Ok(PreparedSource { fdset_ids, source: Err(error) }));
                        },
                        Ok(info) => {
                            fdset_ids.push(info.fdset_id);
                            command = QmpCommand::ContinueSource(
                                cat2("/dev/fdset/", dec_i64(info.fdset_id).as_str()),
                            );
                        },
                    }
                },
            }
        }
    }

    fn abandon_source(&mut self, node_name: &str, fdset_ids: &Vec<i64>, error: Error) -> (r: Result<
        Result<(Option<PciPath>, Option<String>), Error>,
        QmpCommand,
    >)
        ensures
            (final(self)@, flow(r)) == source_abandoned(
                old(self)@,
                node_name@,
                fdset_ids@,
                error.deep_view(),
            ),
    {
        if error.is_cleanup_pending() {
            return Ok(Err(error));
        }
        match self.remove_fdset_ids(node_name, fdset_ids)? {
            Err(cleanup) => Ok(
                Err(
                    incomplete_block_cleanup(
                        node_name,
                        error.text().as_str(),
                        cleanup.text().as_str(),
                        BlockCleanupState { frontend: false, backend: false, fdsets: true },
                    ),
                ),
            ),
            Ok(_) => Ok(Err(error)),
        }
    }

    fn add_scsi_device(&mut self, request: &PlugRequest, node_name: &str) -> (r: Result<
        Result<(Option<PciPath>, Option<String>), Error>,
        QmpCommand,
    >)
        ensures
            (final(self)@, flow(r)) == scsi_added(old(self)@, request@, node_name@),
    {
        if request.index > u16::MAX as u64 {
            return Ok(Err(Error::msg_str("out of range integral type conversion attempted")));
        }
        let scsi_id: u64 = request.index / 256;
        let lun: u64 = request.index % 256;
        let mut arguments = request.arguments(node_name);
        push_integer(&mut arguments, "scsi-id", scsi_id as i64);
        push_integer(&mut arguments, "lun", lun as i64);
        request.share_writing(&mut arguments);
        match self.device_add_with_rollback(
            node_name,
            Some("scsi0.0".to_owned()),
            "scsi-hd",
            arguments,
        )? {
            Err(error) => Ok(Err(error)),
            Ok(_) => Ok(
                Ok(
                    (
                        None,
                        Some(cat3(dec_u64(scsi_id).as_str(), ":", dec_u64(lun).as_str())),
                    ),
                ),
            ),
        }
    }

    fn add_ccw_device(&mut self, request: &PlugRequest, node_name: &str) -> (r: Result<
        Result<(Option<PciPath>, Option<String>), Error>,
        QmpCommand,
    >)
        ensures
            (final(self)@, flow(r)) == ccw_device_added(old(self)@, request@, node_name@),
    {
        let mut subchannel = match self.ccw_subchannel.take() {
            Some(subchannel) => subchannel,
            None => {
                return self.abandon::<(Option<PciPath>, Option<String>)>(
                    node_name,
                    Error::msg_str("CCW subchannel not available for virtio-blk-ccw hotplug"),
                );
            },
        };
        let added = subchannel.add_device(node_name);
        let slot: u32 = match added {
            Ok(slot) => slot,
            Err(error) => {
                self.ccw_subchannel = Some(subchannel);
                return self.abandon::<(Option<PciPath>, Option<String>)>(
                    node_name,
                    Error::msg(
                        cat2("CCW subchannel add_device failed: ", error.text().as_str()),
                    ),
                );
            },
        };
        let devno = subchannel.address_format_ccw(slot);
        let ccw_addr = subchannel.address_format_ccw_for_virt_server(slot);
        self.ccw_subchannel = Some(subchannel);
        let mut arguments = request.arguments(node_name);
        push_text(&mut arguments, "devno", devno);
        request.share_writing(&mut arguments);
        match self.device_add_with_rollback(node_name, None, request.block_driver, arguments)? {
            Err(error) => {
                self.leave_subchannel(node_name);
                Ok(Err(error))
            },
            Ok(_) => Ok(Ok((None, Some(ccw_addr)))),
        }
    }

    /// Takes a device off the CCW subchannel.
    pub fn leave_subchannel(&mut self, device_id: &str)
        ensures
            final(self)@ == off_subchannel(old(self)@, device_id@),
    {
        match self.ccw_subchannel.take() {
            Some(mut subchannel) => {
                let _ = subchannel.remove_device(device_id);
                self.ccw_subchannel = Some(subchannel);
            },
            None => {},
        }
    }

    fn roll_back_lookup(&mut self, request: &PlugRequest, node_name: &str, error: Error) -> (r:
        Result<Result<(Option<PciPath>, Option<String>), Error>, QmpCommand>)
        ensures
            (final(self)@, flow(r)) == lookup_rolled_back(
                old(self)@,
                request@,
                node_name@,
                error.deep_view(),
            ),
    {
        let state = BlockCleanupState::attached(self.block_fdsets.contains_key(node_name));
        let cleanup = self.unplug(request.block_driver, node_name, state)?;
        match complete_pci_path_lookup(node_name, Err(error), state, cleanup) {
            Ok(path) => Ok(Ok((Some(path), None))),
            Err(error) => Ok(Err(error)),
        }
    }

    fn add_pci_device(&mut self, request: &PlugRequest, node_name: &str) -> (r: Result<
        Result<(Option<PciPath>, Option<String>), Error>,
        QmpCommand,
    >)
        ensures
            (final(self)@, flow(r)) == pci_device_added(old(self)@, request@, node_name@),
    {
        let (bus, slot, on_bridge) = match self.select_pci_target(request.pcie_root_port)? {
            Ok(target) => target,
            Err(error) => {
                return self.abandon::<(Option<PciPath>, Option<String>)>(node_name, error);
            },
        };
        let mut arguments = request.arguments(node_name);
        push_text(&mut arguments, "addr", pad(dec_i64(slot), 2));
        request.share_writing(&mut arguments);
        if let Some(iothread) = request.iothread {
            push_text(&mut arguments, "iothread", iothread.to_owned());
        }
        if let Err(error) = self.device_add_with_rollback(
            node_name,
            Some(bus.clone()),
            request.block_driver,
            arguments,
        )? {
            return Ok(Err(error));
        }
        let looked_up = match request.pcie_root_port {
            Some(root_port) => self.get_root_port_device_path(node_name, root_port)?,
            None => self.get_device_by_qdev_id(node_name)?,
        };
        match looked_up {
            Ok(path) => {
                if on_bridge {
                    self.record_pci_bridge_slot(bus.as_str(), slot, node_name);
                }
                Ok(Ok((Some(path), None)))
            },
            Err(error) => self.roll_back_lookup(
                request,
                node_name,
                error.context_str("get device by qdev_id failed"),
            ),
        }
    }

    fn add_nodes(
        &mut self,
        request: &PlugRequest,
        node_name: &str,
        filename: String,
        is_regular_file: bool,
    ) -> (r: Result<Result<(Option<PciPath>, Option<String>), Error>, QmpCommand>)
        ensures
            (final(self)@, flow(r)) == nodes_added(
                old(self)@,
                request@,
                node_name@,
                filename@,
                is_regular_file,
            ),
    {
        let options = BlockdevOptions {
            node_name: node_name.to_owned(),
            format: if request.vmdk.is_some() {
                ImageFormat::Vmdk
            } else {
                ImageFormat::Raw
            },
            force_share: if request.vmdk.is_some() || request.is_readonly {
                Some(true)
            } else {
                None
            },
            read_only: request.is_readonly,
            discard_unmap: request.discard_unmap,
            filename,
            is_regular_file,
            aio: aio_by_name(request.blkdev_aio),
            drop_cache: if request.no_drop {
                Some(true)
            } else {
                None
            },
            cache_direct: request.is_direct,
        };
        let reply = self.ask(QmpCommand::BlockdevAdd(options))?;
        let state = BlockCleanupState {
            frontend: false,
            backend: true,
            fdsets: self.block_fdsets.contains_key(node_name),
        };
        let absent = match self.reconcile_add_result(
            node_name,
            "blockdev-add",
            decode_done(reply),
            state,
            QmpResidue::Backend,
        )? {
            Err(error) => {
                return Ok(Err(error));
            },
            Ok(absent) => absent,
        };
        if let Some(error) = absent {
            return match self.remove_block_fdsets(node_name)? {
                Err(cleanup) => Ok(
                    Err(
                        incomplete_block_cleanup(
                            node_name,
                            error.text().as_str(),
                            cleanup.text().as_str(),
                            BlockCleanupState { frontend: false, backend: false, fdsets: true },
                        ),
                    ),
                ),
                Ok(_) => Ok(
                    Err(Error::msg(cat2("blockdev-add backend ", error.text().as_str()))),
                ),
            };
        }
        if same(request.block_driver, VIRTIO_SCSI) {
            self.add_scsi_device(request, node_name)
        } else if same(request.block_driver, VIRTIO_BLK_CCW) {
            self.add_ccw_device(request, node_name)
        } else {
            self.add_pci_device(request, node_name)
        }
    }

    /// Hot-plugs a block device. Gives its PCI path, or its SCSI or CCW address.
    pub fn hotplug_block_device(
        &mut self,
        block_driver: &str,
        index: u64,
        path_on_host: &str,
        blkdev_aio: &str,
        is_direct: Option<bool>,
        is_readonly: bool,
        no_drop: bool,
        discard_unmap: bool,
        logical_block_size: u32,
        physical_block_size: u32,
        vmdk: Option<&VmdkConfig>,
        iothread: Option<&str>,
        pcie_root_port: Option<&str>,
    ) -> (r: Result<Result<(Option<PciPath>, Option<String>), Error>, QmpCommand>)
        ensures
            (final(self)@, flow(r)) == block_plugged(
                old(self)@,
                BlockRequest {
                    driver: block_driver@,
                    index,
                    path: path_on_host@,
                    aio: blkdev_aio@,
                    direct: is_direct,
                    read_only: is_readonly,
                    no_drop,
                    discard_unmap,
                    logical_block_size,
                    physical_block_size,
                    vmdk: layout_of(vmdk),
                    iothread: str_option(iothread),
                    root_port: str_option(pcie_root_port),
                },
            ),
    {
        let request = PlugRequest {
            block_driver,
            index,
            path_on_host,
            blkdev_aio,
            is_direct,
            is_readonly,
            no_drop,
            discard_unmap,
            logical_block_size,
            physical_block_size,
            vmdk,
            iothread,
            pcie_root_port,
        };
        let node_name = block_node_name(index);
        if self.block_fdsets.contains_key(node_name.as_str()) {
            return Ok(
                Err(Error::msg(cat2("duplicate QEMU block device ID ", node_name.as_str()))),
            );
        }
        let open = QmpCommand::OpenSource {
            path: path_on_host.to_owned(),
            layout: match vmdk {
                Some(layout) => Some(layout.dup()),
                None => None,
            },
            read_only: is_readonly,
            direct: match is_direct {
                Some(direct) => direct,
                None => false,
            },
        };
        let prepared = match self.prepare_source(node_name.as_str(), open)? {
            Ok(prepared) => prepared,
            Err(error) => {
                return Ok(Err(error));
            },
        };
        match prepared.source {
            Err(error) => self.abandon_source(node_name.as_str(), &prepared.fdset_ids, error),
            Ok((filename, is_regular_file)) => {
                if prepared.fdset_ids.len() > 0 {
                    assert(prepared.fdset_ids.deep_view() =~= prepared.fdset_ids@);
                    self.block_fdsets.insert(node_name.clone(), prepared.fdset_ids);
                }
                self.add_nodes(&request, node_name.as_str(), filename, is_regular_file)
            },
        }
    }

    fn unplug(&mut self, block_driver: &str, node_name: &str, state: BlockCleanupState) -> (r:
        Result<Result<(), Error>, QmpCommand>)
        ensures
            (final(self)@, flow(r)) == unplugged(old(self)@, block_driver@, node_name@, state),
    {
        match self.cleanup_pending_block_device(node_name, state)? {
            Err(error) => Ok(Err(error)),
            Ok(_) => {
                if same(block_driver, VIRTIO_BLK_CCW) {
                    self.leave_subchannel(node_name);
                }
                Ok(Ok(()))
            },
        }
    }

    /// Removes a block device. Where `cleanup_state` is given, only what it says may be left is
    /// removed.
    pub fn hotunplug_block_device(
        &mut self,
        block_driver: &str,
        index: u64,
        cleanup_state: Option<BlockCleanupState>,
    ) -> (r: Result<Result<(), Error>, QmpCommand>)
        ensures
            (final(self)@, flow(r)) == unplugged(
                old(self)@,
                block_driver@,
                node_name_of(index as int),
                match cleanup_state {
                    Some(state) => state,
                    None => BlockCleanupState {
                        frontend: true,
                        backend: true,
                        fdsets: old(self)@.block_fdsets.contains_key(node_name_of(index as int)),
                    },
                },
            ),
    {
        let node_name = block_node_name(index);
        let state = match cleanup_state {
            Some(state) => state,
            None => BlockCleanupState::attached(self.block_fdsets.contains_key(node_name.as_str())),
        };
        self.unplug(block_driver, node_name.as_str(), state)
    }
}

} // verus!
