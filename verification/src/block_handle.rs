//! Attaching block devices to a hypervisor, and detaching them.
//!
//! A handle counts its owners. Only the first attachment and the last detachment reach the
//! hypervisor; what the hypervisor answers is handed back to the operation, which begins again
//! from the state it started in. The state that a waiting operation leaves is the one that holds
//! while nobody waits any more.
use crate::block_device::{BlockCleanupState, BlockConfigModern, BlockDeviceModern};
use crate::error::{
    cleanup_pending_in, error_text, in_context, message, names_doubt, Error, ErrorModel, Layer,
    DeviceStateInDoubt, LayerModel,
};
use crate::qmp::session::{flow, outcome, Flow};
use crate::text::{cat2, cat3, same};
use vstd::prelude::*;

verus! {

/// The name of QEMU among the hypervisors.
pub const HYPERVISOR_QEMU: &'static str = "qemu";

/// The PCIe topology of a sandbox, as far as an attachment looks at it.
#[derive(Clone, Debug)]
pub struct PCIeTopology {
    pub hypervisor_name: String,
}

/// A block device with the owners that share it.
#[derive(Clone, Debug)]
pub struct BlockDeviceModernHandle {
    pub device: BlockDeviceModern,
    /// Whether an attachment was begun and its outcome is not known.
    pub attach_pending: bool,
}

/// What an attachment or a detachment needs done.
#[derive(Clone, Copy, Debug, PartialEq, Eq, Structural)]
pub enum DeviceCommand {
    /// Reserve one of the preconfigured root ports for the device.
    ReserveRootPort,
    /// Let the hypervisor add the device, as the handle holds it.
    AddDevice,
    /// Let the hypervisor remove the device, as the handle holds it.
    RemoveDevice,
    /// Give back the bus that is reserved for the device.
    ReleaseBus,
}

impl DeepView for DeviceCommand {
    type V = DeviceCommand;

    open spec fn deep_view(&self) -> DeviceCommand {
        *self
    }
}

/// What the hypervisor made of the device: its configuration, and why the request failed.
#[derive(Clone, Debug)]
pub struct BackendReply {
    pub config: BlockConfigModern,
    pub failure: Option<Error>,
}

/// The replies to what an attachment or a detachment needed done; `None` where it was not done yet.
#[derive(Debug)]
pub struct DeviceReplies {
    /// The bus of the reserved root port.
    pub reserved: Option<Result<String, Error>>,
    pub backend: Option<BackendReply>,
    pub released: Option<Result<(), Error>>,
}

/// An attach count with one owner more, and whether another owner was there before.
pub open spec fn counted_up(count: u64) -> Result<(u64, bool), ErrorModel> {
    if count == 0 {
        Ok((1, false))
    } else if count == u64::MAX {
        Err(message("device was attached too many times"@))
    } else {
        Ok(((count + 1) as u64, true))
    }
}

/// An attach count with one owner less, and whether another owner is left.
pub open spec fn counted_down(count: u64) -> Result<(u64, bool), ErrorModel> {
    if count == 0 {
        Err(message("detaching a device that wasn't attached"@))
    } else if count == 1 {
        Ok((0, false))
    } else {
        Ok(((count - 1) as u64, true))
    }
}

/// Counts one owner more, and tells whether another owner was there before.
pub fn do_increase_count(count: &mut u64) -> (r: Result<bool, Error>)
    ensures
        match counted_up(*old(count)) {
            Ok((up, before)) => r == Ok::<bool, Error>(before) && *final(count) == up,
            Err(error) => outcome(r) == Err::<bool, ErrorModel>(error) && *final(count) == *old(
                count,
            ),
        },
{
    if *count == 0 {
        *count = 1;
        Ok(false)
    } else if *count == u64::MAX {
        Err(Error::msg_str("device was attached too many times"))
    } else {
        *count = *count + 1;
        Ok(true)
    }
}

/// Counts one owner less, and tells whether another owner is left.
pub fn do_decrease_count(count: &mut u64) -> (r: Result<bool, Error>)
    ensures
        match counted_down(*old(count)) {
            Ok((down, left)) => r == Ok::<bool, Error>(left) && *final(count) == down,
            Err(error) => outcome(r) == Err::<bool, ErrorModel>(error) && *final(count) == *old(
                count,
            ),
        },
{
    if *count == 0 {
        Err(Error::msg_str("detaching a device that wasn't attached"))
    } else if *count == 1 {
        *count = 0;
        Ok(false)
    } else {
        *count = *count - 1;
        Ok(true)
    }
}

/// Whether QEMU has to use a root port for a device of that configuration.
pub open spec fn root_port_use(config: BlockConfigModern, topology: Option<PCIeTopology>) -> Result<
    bool,
    ErrorModel,
> {
    if !config.use_pcie_root_port {
        Ok(false)
    } else {
        match topology {
            None => Err(message("required PCIe topology is unavailable for block device"@)),
            Some(topology) => Ok(topology.hypervisor_name@ == HYPERVISOR_QEMU@),
        }
    }
}

/// Whether QEMU has to use a root port for a device of that configuration.
pub fn uses_qemu_pcie_root_port(config: &BlockConfigModern, topology: &Option<PCIeTopology>) -> (r:
    Result<bool, Error>)
    ensures
        outcome(r) == root_port_use(*config, *topology),
{
    if !config.use_pcie_root_port {
        return Ok(false);
    }
    match topology {
        None => Err(Error::msg_str("required PCIe topology is unavailable for block device")),
        Some(topology) => Ok(same(topology.hypervisor_name.as_str(), HYPERVISOR_QEMU)),
    }
}

/// What is left of the device that an error speaks of.
pub fn pending_cleanup_state(error: &Error) -> (r: Option<BlockCleanupState>)
    ensures
        r == cleanup_pending_in(error.deep_view()),
{
    error.cleanup_pending()
}

/// The error that leaves a device in doubt because its cleanup failed with `error`.
pub open spec fn doubt_of(device_id: Seq<char>, error: ErrorModel) -> ErrorModel {
    seq![LayerModel::InDoubt { device_id, reason: error_text(error) }]
}

/// Turns the failure of a cleanup into a device whose state is in doubt.
pub fn cleanup_state_in_doubt(device_id: String, error: Error) -> (r: Error)
    ensures
        r.deep_view() == doubt_of(device_id@, error.deep_view()),
{
    Error::in_doubt(device_id, error.text())
}

/// A truth value as text.
pub open spec fn truth(b: bool) -> Seq<char> {
    if b {
        "true"@
    } else {
        "false"@
    }
}

fn truth_name(b: bool) -> (r: &'static str)
    ensures
        r@ == truth(b),
{
    if b {
        "true"
    } else {
        "false"
    }
}

/// How a developer sees what is left of a device.
pub open spec fn cleanup_state_text(state: BlockCleanupState) -> Seq<char> {
    "BlockCleanupState { frontend: "@ + truth(state.frontend) + ", backend: "@ + truth(
        state.backend,
    ) + ", fdsets: "@ + truth(state.fdsets) + " }"@
}

fn describe_cleanup_state(state: BlockCleanupState) -> (r: String)
    ensures
        r@ == cleanup_state_text(state),
{
    cat3("BlockCleanupState { frontend: ", truth_name(state.frontend), ", backend: ").concat(
        truth_name(state.backend),
    ).concat(", fdsets: ").concat(truth_name(state.fdsets)).concat(" }")
}

/// A handle with another count of owners.
pub open spec fn with_count(h: BlockDeviceModernHandle, count: u64) -> BlockDeviceModernHandle {
    BlockDeviceModernHandle { device: BlockDeviceModern { attach_count: count, ..h.device }, ..h }
}

/// A handle with another configuration.
pub open spec fn with_config(
    h: BlockDeviceModernHandle,
    config: BlockConfigModern,
) -> BlockDeviceModernHandle {
    BlockDeviceModernHandle { device: BlockDeviceModern { config, ..h.device }, ..h }
}

/// A handle on another root port.
pub open spec fn with_root_port(
    h: BlockDeviceModernHandle,
    bus: Option<String>,
) -> BlockDeviceModernHandle {
    with_config(h, BlockConfigModern { pcie_root_port: bus, ..h.device.config })
}

/// A handle with another residue.
pub open spec fn with_residue(
    h: BlockDeviceModernHandle,
    state: Option<BlockCleanupState>,
) -> BlockDeviceModernHandle {
    with_config(h, BlockConfigModern { cleanup_state: state, ..h.device.config })
}

/// A handle whose attachment is pending or not.
pub open spec fn with_pending(h: BlockDeviceModernHandle, pending: bool) -> BlockDeviceModernHandle {
    BlockDeviceModernHandle { attach_pending: pending, ..h }
}

/// A step on a handle: the handle after it, and how far the operation has come.
pub type HandleStep<T> = (BlockDeviceModernHandle, Flow<T, DeviceCommand>);

/// An attachment that failed with `error`: its owner is counted off again.
pub open spec fn owner_undone(h: BlockDeviceModernHandle, error: ErrorModel) -> HandleStep<()> {
    match counted_down(h.device.attach_count) {
        Err(uncounted) => (h, Flow::Done(Err(uncounted))),
        Ok((count, _)) => (with_count(h, count), Flow::Done(Err(error))),
    }
}

/// What follows the hypervisor's refusal of a device. A device of which something is left, or may
/// be left, stays with its owner; any other is let go, with its root port.
pub open spec fn refused(
    h: BlockDeviceModernHandle,
    root_port: bool,
    error: ErrorModel,
    released: Option<Result<(), Error>>,
) -> HandleStep<()> {
    match cleanup_pending_in(error) {
        Some(state) => (
            with_pending(with_residue(h, Some(state)), true),
            Flow::Done(Err(doubt_of(h.device.device_id@, error))),
        ),
        None => if names_doubt(error) {
            (with_pending(h, true), Flow::Done(Err(error)))
        } else if h.device.config.retain_on_unclassified_attach_error {
            (
                with_pending(h, true),
                Flow::Done(
                    Err(
                        seq![
                            LayerModel::InDoubt {
                                device_id: h.device.device_id@,
                                reason: "unclassified block-device attach failure retained for reconciliation"@,
                            },
                        ] + error,
                    ),
                ),
            )
        } else {
            let h = with_pending(h, false);
            match counted_down(h.device.attach_count) {
                Err(uncounted) => (h, Flow::Done(Err(uncounted))),
                Ok((count, _)) => {
                    let h = with_count(h, count);
                    if !root_port {
                        (h, Flow::Done(Err(error)))
                    } else {
                        match released {
                            None => (h, Flow::Waiting(DeviceCommand::ReleaseBus)),
                            Some(Err(unreleased)) => (h, Flow::Done(Err(unreleased.deep_view()))),
                            Some(Ok(())) => (with_root_port(h, None), Flow::Done(Err(error))),
                        }
                    }
                },
            }
        },
    }
}

/// The hypervisor's part of an attachment.
pub open spec fn device_added(
    h: BlockDeviceModernHandle,
    root_port: bool,
    replies: DeviceReplies,
) -> HandleStep<()> {
    match replies.backend {
        None => (h, Flow::Waiting(DeviceCommand::AddDevice)),
        Some(reply) => {
            let h = with_config(h, reply.config);
            match reply.failure {
                None => (with_pending(h, false), Flow::Done(Ok(()))),
                Some(error) => refused(h, root_port, error.deep_view(), replies.released),
            }
        },
    }
}

/// An attachment whose owner is counted. The outcome is pending from here on where the backend
/// completes the request on its own.
pub open spec fn owner_attached(
    h: BlockDeviceModernHandle,
    topology: Option<PCIeTopology>,
    independent: bool,
    replies: DeviceReplies,
) -> HandleStep<()> {
    let h = if independent {
        with_pending(h, true)
    } else {
        h
    };
    match root_port_use(h.device.config, topology) {
        Err(error) => owner_undone(h, error),
        Ok(false) => device_added(h, false, replies),
        Ok(true) => match replies.reserved {
            None => (h, Flow::Waiting(DeviceCommand::ReserveRootPort)),
            Some(Err(error)) => owner_undone(h, error.deep_view()),
            Some(Ok(bus)) => device_added(with_root_port(h, Some(bus)), true, replies),
        },
    }
}

/// An attachment.
pub open spec fn attached(
    h: BlockDeviceModernHandle,
    topology: Option<PCIeTopology>,
    independent: bool,
    replies: DeviceReplies,
) -> HandleStep<()> {
    match h.device.config.cleanup_state {
        Some(state) => (
            h,
            Flow::Done(
                Err(
                    seq![
                        LayerModel::InDoubt {
                            device_id: h.device.device_id@,
                            reason: "QEMU cleanup remains pending: "@ + cleanup_state_text(state),
                        },
                    ],
                ),
            ),
        ),
        None => if h.attach_pending {
            owner_attached(h, topology, independent, replies)
        } else {
            match counted_up(h.device.attach_count) {
                Err(error) => (
                    h,
                    Flow::Done(Err(in_context(error, "failed to increase attach count"@))),
                ),
                Ok((count, true)) => (with_count(h, count), Flow::Done(Ok(()))),
                Ok((count, false)) => owner_attached(
                    with_count(h, count),
                    topology,
                    independent,
                    replies,
                ),
            }
        },
    }
}

/// A detachment after the hypervisor removed the device: the root port is given back.
pub open spec fn port_released(
    h: BlockDeviceModernHandle,
    topology: Option<PCIeTopology>,
    replies: DeviceReplies,
) -> HandleStep<Option<u64>> {
    let index = h.device.config.index;
    if h.device.config.pcie_root_port is None {
        (h, Flow::Done(Ok(Some(index))))
    } else if topology is None {
        (
            h,
            Flow::Done(
                Err(
                    message(
                        "missing PCIe topology while detaching block device "@
                            + h.device.device_id@,
                    ),
                ),
            ),
        )
    } else {
        match replies.released {
            None => (h, Flow::Waiting(DeviceCommand::ReleaseBus)),
            Some(Err(error)) => (h, Flow::Done(Err(error.deep_view()))),
            Some(Ok(())) => (with_root_port(h, None), Flow::Done(Ok(Some(index)))),
        }
    }
}

/// A detachment. The index of the device comes with the last owner.
pub open spec fn detached(
    h: BlockDeviceModernHandle,
    topology: Option<PCIeTopology>,
    replies: DeviceReplies,
) -> HandleStep<Option<u64>> {
    match counted_down(h.device.attach_count) {
        Err(error) => (h, Flow::Done(Err(in_context(error, "failed to decrease attach count"@)))),
        Ok((count, true)) => (with_count(h, count), Flow::Done(Ok(None))),
        Ok((count, false)) => match replies.backend {
            None => (with_count(h, count), Flow::Waiting(DeviceCommand::RemoveDevice)),
            Some(reply) => {
                let h = with_config(h, reply.config);
                match reply.failure {
                    Some(error) => match cleanup_pending_in(error.deep_view()) {
                        Some(state) => (
                            with_residue(h, Some(state)),
                            Flow::Done(Err(doubt_of(h.device.device_id@, error.deep_view()))),
                        ),
                        None => (h, Flow::Done(Err(error.deep_view()))),
                    },
                    None => port_released(
                        with_residue(with_count(h, count), None),
                        topology,
                        replies,
                    ),
                }
            },
        },
    }
}

impl BlockDeviceModernHandle {
    /// A handle on a device that nobody has attached yet.
    pub fn new(device_id: String, config: BlockConfigModern) -> (r: Self)
        ensures
            r == (BlockDeviceModernHandle {
                device: BlockDeviceModern { device_id, attach_count: 0, config },
                attach_pending: false,
            }),
    {
        BlockDeviceModernHandle {
            device: BlockDeviceModern { device_id, attach_count: 0, config },
            attach_pending: false,
        }
    }

    pub fn device_id(&self) -> (r: String)
        ensures
            r@ == self.device.device_id@,
    {
        self.device.device_id.clone()
    }

    /// A copy of the configuration.
    pub fn snapshot_config(&self) -> (r: BlockConfigModern)
        ensures
            r.deep_view() == self.device.config.deep_view(),
    {
        self.device.config.dup()
    }

    pub fn attach_count(&self) -> (r: u64)
        ensures
            r == self.device.attach_count,
    {
        self.device.attach_count
    }

    /// Counts one owner more, and tells whether another owner was there before.
    pub fn increase_attach_count(&mut self) -> (r: Result<bool, Error>)
        ensures
            match counted_up(old(self).device.attach_count) {
                Ok((up, before)) => r == Ok::<bool, Error>(before) && *final(self) == with_count(
                    *old(self),
                    up,
                ),
                Err(error) => outcome(r) == Err::<bool, ErrorModel>(error) && *final(self) == *old(
                    self,
                ),
            },
    {
        let mut count: u64 = self.device.attach_count;
        let r = do_increase_count(&mut count);
        self.device.attach_count = count;
        r
    }

    /// Counts one owner less, and tells whether another owner is left.
    pub fn decrease_attach_count(&mut self) -> (r: Result<bool, Error>)
        ensures
            match counted_down(old(self).device.attach_count) {
                Ok((down, left)) => r == Ok::<bool, Error>(left) && *final(self) == with_count(
                    *old(self),
                    down,
                ),
                Err(error) => outcome(r) == Err::<bool, ErrorModel>(error) && *final(self) == *old(
                    self,
                ),
            },
    {
        let mut count: u64 = self.device.attach_count;
        let r = do_decrease_count(&mut count);
        self.device.attach_count = count;
        r
    }

    fn undo_owner(&mut self, error: Error) -> (r: Result<Result<(), Error>, DeviceCommand>)
        ensures
            (*final(self), flow(r)) == owner_undone(*old(self), error.deep_view()),
    {
        match self.decrease_attach_count() {
            Err(uncounted) => Ok(Err(uncounted)),
            Ok(_) => Ok(Err(error)),
        }
    }

    fn refuse(&mut self, root_port: bool, error: Error, released: Option<Result<(), Error>>) -> (r:
        Result<Result<(), Error>, DeviceCommand>)
        ensures
            (*final(self), flow(r)) == refused(
                *old(self),
                root_port,
                error.deep_view(),
                released,
            ),
    {
        if let Some(state) = pending_cleanup_state(&error) {
            self.device.config.cleanup_state = Some(state);
            self.attach_pending = true;
            return Ok(Err(cleanup_state_in_doubt(self.device_id(), error)));
        }
        if error.device_state_in_doubt().is_some() {
            self.attach_pending = true;
            return Ok(Err(error));
        }
        if self.device.config.retain_on_unclassified_attach_error {
            self.attach_pending = true;
            let doubt = DeviceStateInDoubt {
                device_id: self.device_id(),
                reason: "unclassified block-device attach failure retained for reconciliation".to_owned(),
            };
            return Ok(Err(error.below(Layer::InDoubt(doubt))));
        }
        self.attach_pending = false;
        if let Err(uncounted) = self.decrease_attach_count() {
            return Ok(Err(uncounted));
        }
        if root_port {
            match released {
                None => {
                    return Err(DeviceCommand::ReleaseBus);
                },
                Some(Err(unreleased)) => {
                    return Ok(Err(unreleased));
                },
                Some(Ok(())) => {
                    self.device.config.pcie_root_port = None;
                },
            }
        }
        Ok(Err(error))
    }

    fn add_device(&mut self, root_port: bool, replies: DeviceReplies) -> (r: Result<
        Result<(), Error>,
        DeviceCommand,
    >)
        ensures
            (*final(self), flow(r)) == device_added(*old(self), root_port, replies),
    {
        let reply = match replies.backend {
            None => {
                return Err(DeviceCommand::AddDevice);
            },
            Some(reply) => reply,
        };
        self.device.config = reply.config;
        match reply.failure {
            None => {
                self.attach_pending = false;
                Ok(Ok(()))
            },
            Some(error) => self.refuse(root_port, error, replies.released),
        }
    }

    /// Attaches the device for one owner more. Only the first owner's attachment reaches the
    /// hypervisor. `independent` says that the hypervisor completes a request to add a device even
    /// where nobody waits for it: a retry then joins that request.
    pub fn attach(
        &mut self,
        topology: &Option<PCIeTopology>,
        independent: bool,
        replies: DeviceReplies,
    ) -> (r: Result<Result<(), Error>, DeviceCommand>)
        ensures
            (*final(self), flow(r)) == attached(*old(self), *topology, independent, replies),
    {
        if let Some(state) = self.device.config.cleanup_state {
            return Ok(
                Err(
                    Error::in_doubt(
                        self.device_id(),
                        cat2(
                            "QEMU cleanup remains pending: ",
                            describe_cleanup_state(state).as_str(),
                        ),
                    ),
                ),
            );
        }
        if !self.attach_pending {
            match self.increase_attach_count() {
                Err(error) => {
                    return Ok(Err(error.context_str("failed to increase attach count")));
                },
                Ok(before) => if before {
                    return Ok(Ok(()));
                },
            }
        }
        if independent {
            self.attach_pending = true;
        }
        let root_port = match uses_qemu_pcie_root_port(&self.device.config, topology) {
            Ok(root_port) => root_port,
            Err(error) => {
                return self.undo_owner(error);
            },
        };
        if !root_port {
            return self.add_device(false, replies);
        }
        let DeviceReplies { reserved, backend, released } = replies;
        match reserved {
            None => Err(DeviceCommand::ReserveRootPort),
            Some(Err(error)) => self.undo_owner(error),
            Some(Ok(bus)) => {
                self.device.config.pcie_root_port = Some(bus);
                self.add_device(true, DeviceReplies { reserved: None, backend, released })
            },
        }
    }

    /// Detaches the device for one owner. Only the last owner's detachment reaches the hypervisor,
    /// and gives the index of the device.
    pub fn detach(&mut self, topology: &Option<PCIeTopology>, replies: DeviceReplies) -> (r: Result<
        Result<Option<u64>, Error>,
        DeviceCommand,
    >)
        ensures
            (*final(self), flow(r)) == detached(*old(self), *topology, replies),
    {
        match self.decrease_attach_count() {
            Err(error) => {
                return Ok(Err(error.context_str("failed to decrease attach count")));
            },
            Ok(left) => if left {
                return Ok(Ok(None));
            },
        }
        let reply = match replies.backend {
            None => {
                return Err(DeviceCommand::RemoveDevice);
            },
            Some(reply) => reply,
        };
        self.device.config = reply.config;
        if let Some(error) = reply.failure {
            if let Err(uncounted) = self.increase_attach_count() {
                return Ok(Err(uncounted));
            }
            return match pending_cleanup_state(&error) {
                Some(state) => {
                    self.device.config.cleanup_state = Some(state);
                    Ok(Err(cleanup_state_in_doubt(self.device_id(), error)))
                },
                None => Ok(Err(error)),
            };
        }
        self.device.config.cleanup_state = None;
        if self.device.config.pcie_root_port.is_some() {
            if topology.is_none() {
                return Ok(
                    Err(
                        Error::msg(
                            cat2(
                                "missing PCIe topology while detaching block device ",
                                self.device.device_id.as_str(),
                            ),
                        ),
                    ),
                );
            }
            match replies.released {
                None => {
                    return Err(DeviceCommand::ReleaseBus);
                },
                Some(Err(error)) => {
                    return Ok(Err(error));
                },
                Some(Ok(())) => {
                    self.device.config.pcie_root_port = None;
                },
            }
        }
        Ok(Ok(Some(self.device.config.index)))
    }
}

/// While a cleanup is pending, an attachment asks nothing of the hypervisor and changes nothing:
/// it only reports the doubt.
pub proof fn law_pending_cleanup_blocks_attach(
    h: BlockDeviceModernHandle,
    topology: Option<PCIeTopology>,
    independent: bool,
    replies: DeviceReplies,
)
    requires
        h.device.config.cleanup_state is Some,
    ensures
        attached(h, topology, independent, replies).0 == h,
        attached(h, topology, independent, replies).1 matches Flow::Done(Err(error)) && names_doubt(
            error,
        ),
{
    let error = attached(h, topology, independent, replies).1->Done_0->Err_0;
    assert(error[0] is InDoubt);
}

/// An attachment that fails and is not in doubt leaves the owners as they were.
pub proof fn law_failed_attach_keeps_owners(
    h: BlockDeviceModernHandle,
    topology: Option<PCIeTopology>,
    independent: bool,
    replies: DeviceReplies,
)
    requires
        !h.attach_pending,
        attached(h, topology, independent, replies).1 matches Flow::Done(Err(error))
            && !names_doubt(error),
    ensures
        attached(h, topology, independent, replies).0.device.attach_count == h.device.attach_count,
{
    let (after, done) = attached(h, topology, independent, replies);
    let shown = done->Done_0->Err_0;
    if h.device.config.cleanup_state is Some {
        assert(shown[0] is InDoubt);
    }
    if let Some(reply) = replies.backend {
        if let Some(error) = reply.failure {
            if cleanup_pending_in(error.deep_view()) is Some || (!names_doubt(error.deep_view())
                && reply.config.retain_on_unclassified_attach_error) {
                assert(after.device.attach_count != h.device.attach_count ==> shown[0] is InDoubt);
            }
        }
    }
}

/// Every owner between the first and the last only counts: attaching and detaching once more asks
/// nothing of the hypervisor, and leaves the handle as it was.
pub proof fn law_inner_owner_only_counts(
    h: BlockDeviceModernHandle,
    topology: Option<PCIeTopology>,
    independent: bool,
    on_attach: DeviceReplies,
    on_detach: DeviceReplies,
)
    requires
        0 < h.device.attach_count < u64::MAX,
        !h.attach_pending,
        h.device.config.cleanup_state is None,
    ensures
        ({
            let (inner, done) = attached(h, topology, independent, on_attach);
            &&& done == Flow::<(), DeviceCommand>::Done(Ok(()))
            &&& detached(inner, topology, on_detach) == (
                h,
                Flow::<Option<u64>, DeviceCommand>::Done(Ok(None)),
            )
        }),
{
}

/// The last owner undoes what the first one did: once the hypervisor has removed the device and its
/// root port is given back, nothing of the attachment is left on the handle, and the index of the
/// device comes out.
pub proof fn law_last_owner_undoes_first(
    h: BlockDeviceModernHandle,
    topology: Option<PCIeTopology>,
    independent: bool,
    on_attach: DeviceReplies,
    on_detach: DeviceReplies,
    removed: BackendReply,
)
    requires
        h.device.attach_count == 0,
        !h.attach_pending,
        attached(h, topology, independent, on_attach).1 == Flow::<(), DeviceCommand>::Done(Ok(())),
        on_detach.backend == Some(removed),
        removed.failure is None,
        removed.config.pcie_root_port is Some ==> topology is Some && on_detach.released == Some(
            Ok::<(), Error>(()),
        ),
    ensures
        ({
            let (held, _) = attached(h, topology, independent, on_attach);
            let (after, came) = detached(held, topology, on_detach);
            &&& held.device.attach_count == 1
            &&& came == Flow::<Option<u64>, DeviceCommand>::Done(Ok(Some(removed.config.index)))
            &&& after == (BlockDeviceModernHandle {
                device: BlockDeviceModern {
                    config: BlockConfigModern {
                        cleanup_state: None,
                        pcie_root_port: None,
                        ..removed.config
                    },
                    ..h.device
                },
                attach_pending: false,
            })
        }),
{
}

} // verus!
