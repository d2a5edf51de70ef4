//! Starting and stopping a virtual machine, and adding block devices while it runs.
//!
//! Several callers may ask for the same thing at the same time, and a caller may go away. So a
//! worker of its own does each piece of work, and every caller waits for the worker's outcome. The
//! state here decides who begins a piece of work and who joins one; every transition is made while
//! the state is locked. A piece of work is known by its ticket.
use crate::block_device::{BlockConfigModel, BlockConfigModern, BlockDeviceModern};
use crate::ch::api::{
    cloud_hypervisor_vm_pause, cloud_hypervisor_vm_resume, ApiRequest, RequestModel,
};
use crate::ch::device::Device;
use crate::error::{
    device_in_doubt, error_chain_text, error_text, first_layer, in_context, lemma_first_layer, message,
    names_doubt, Error, ErrorModel, Layer, LayerModel,
};
use crate::qmp::session::outcome;
use crate::table::Table;
use crate::text::{cat2, cat3, cat5, same};
use vstd::prelude::*;

verus! {

/// The failure of a piece of work, as each of its callers is told.
pub open spec fn shared_failure(error: ErrorModel) -> ErrorModel {
    seq![LayerModel::Shared(error_text(error))] + error
}

fn share_failure(error: &Error) -> (r: Error)
    ensures
        r.deep_view() == shared_failure(error.deep_view()),
{
    error.dup().below(Layer::Shared(error.text()))
}

/// What came of adding a block device.
#[derive(Clone, Debug)]
pub enum BlockAddOutcome {
    Success(Device),
    Failure(Error),
}

impl BlockAddOutcome {
    pub fn from_result(result: Result<Device, Error>) -> (r: Self)
        ensures
            r == match result {
                Ok(device) => BlockAddOutcome::Success(device),
                Err(error) => BlockAddOutcome::Failure(error),
            },
    {
        match result {
            Ok(device) => BlockAddOutcome::Success(device),
            Err(error) => BlockAddOutcome::Failure(error),
        }
    }

    /// Whether the device may be there although it was not added.
    pub open spec fn in_doubt(self) -> bool {
        self matches BlockAddOutcome::Failure(error) && names_doubt(error.deep_view())
    }

    /// Whether the device may be there although it was not added.
    pub fn is_in_doubt(&self) -> (r: bool)
        ensures
            r == self.in_doubt(),
    {
        match self {
            BlockAddOutcome::Success(_) => false,
            BlockAddOutcome::Failure(error) => error.device_state_in_doubt().is_some(),
        }
    }

    /// What a caller is told.
    pub fn into_result(self) -> (r: Result<Device, Error>)
        ensures
            match self {
                BlockAddOutcome::Success(device) => r == Ok::<Device, Error>(device),
                BlockAddOutcome::Failure(error) => r matches Err(told) && told.deep_view()
                    == shared_failure(error.deep_view()),
            },
    {
        match self {
            BlockAddOutcome::Success(device) => Ok(device),
            BlockAddOutcome::Failure(error) => Err(share_failure(&error)),
        }
    }
}

/// What came of starting or stopping the virtual machine.
#[derive(Clone, Debug)]
pub enum VmOperationOutcome {
    Success,
    Failure(Error),
}

impl VmOperationOutcome {
    pub fn from_result(result: Result<(), Error>) -> (r: Self)
        ensures
            r == match result {
                Ok(()) => VmOperationOutcome::Success,
                Err(error) => VmOperationOutcome::Failure(error),
            },
    {
        match result {
            Ok(()) => VmOperationOutcome::Success,
            Err(error) => VmOperationOutcome::Failure(error),
        }
    }

    /// What a caller is told.
    pub fn into_result(self) -> (r: Result<(), Error>)
        ensures
            outcome(r) == match self {
                VmOperationOutcome::Success => Ok::<(), ErrorModel>(()),
                VmOperationOutcome::Failure(error) => Err(shared_failure(error.deep_view())),
            },
    {
        match self {
            VmOperationOutcome::Success => Ok(()),
            VmOperationOutcome::Failure(error) => Err(share_failure(&error)),
        }
    }
}

/// What tells one request to add a block device from another.
#[derive(Clone, Debug)]
pub struct BlockAddIdentity {
    /// The number of the shared device.
    pub device: u64,
    pub device_id: String,
    pub config: BlockConfigModern,
}

/// The model of a [`BlockAddIdentity`].
pub struct IdentityModel {
    pub device: u64,
    pub device_id: Seq<char>,
    pub config: BlockConfigModel,
}

impl DeepView for BlockAddIdentity {
    type V = IdentityModel;

    open spec fn deep_view(&self) -> IdentityModel {
        IdentityModel {
            device: self.device,
            device_id: self.device_id@,
            config: self.config.deep_view(),
        }
    }
}

impl BlockAddIdentity {
    /// The identity of a request for the shared device of that number. The path in the guest is
    /// what the request brings about, and no part of it.
    pub fn from_device(device: u64, snapshot: &BlockDeviceModern) -> (r: Self)
        ensures
            r.deep_view() == (IdentityModel {
                device,
                device_id: snapshot.device_id@,
                config: BlockConfigModel { pci_path: None, ..snapshot.config.deep_view() },
            }),
    {
        let mut config = snapshot.config.dup();
        config.pci_path = None;
        BlockAddIdentity { device, device_id: snapshot.device_id.clone(), config }
    }

    /// Whether two requests are for the same thing.
    pub fn matches(&self, other: &Self) -> (r: bool)
        ensures
            r == (self.deep_view() == other.deep_view()),
    {
        same(self.device_id.as_str(), other.device_id.as_str()) && self.config.same_config(
            &other.config,
        ) && self.device == other.device
    }
}

/// The work on adding a block device.
#[derive(Clone, Debug)]
pub struct BlockAddOperation {
    pub ticket: u64,
    pub identity: BlockAddIdentity,
    /// Whether the outcome is there.
    pub finished: bool,
}

/// The model of a [`BlockAddOperation`].
pub struct OperationModel {
    pub ticket: u64,
    pub identity: IdentityModel,
    pub finished: bool,
}

impl DeepView for BlockAddOperation {
    type V = OperationModel;

    open spec fn deep_view(&self) -> OperationModel {
        OperationModel {
            ticket: self.ticket,
            identity: self.identity.deep_view(),
            finished: self.finished,
        }
    }
}

/// What is going on with a virtual machine.
#[derive(Clone, Debug)]
pub struct BlockAddState {
    /// Whether block devices may be added.
    pub admission_open: bool,
    /// The work on adding block devices, by device.
    pub operations: Table<BlockAddOperation>,
    /// The work on stopping the virtual machine, which stays where it succeeded.
    pub stop: Option<u64>,
    /// The work on starting the virtual machine.
    pub start: Option<u64>,
    /// Why the processes of the virtual machine may still be there.
    pub cleanup_unresolved: Option<Error>,
    /// The next ticket that nobody has.
    pub next_ticket: u64,
}

/// The model of a [`BlockAddState`].
pub struct LifecycleModel {
    pub admission_open: bool,
    pub operations: Map<Seq<char>, OperationModel>,
    pub stop: Option<u64>,
    pub start: Option<u64>,
    pub cleanup_unresolved: Option<ErrorModel>,
    pub next_ticket: u64,
}

impl View for BlockAddState {
    type V = LifecycleModel;

    open spec fn view(&self) -> LifecycleModel {
        LifecycleModel {
            admission_open: self.admission_open,
            operations: self.operations.deep_view(),
            stop: self.stop,
            start: self.start,
            cleanup_unresolved: match self.cleanup_unresolved {
                Some(error) => Some(error.deep_view()),
                None => None,
            },
            next_ticket: self.next_ticket,
        }
    }
}

/// How a request takes part in a piece of work.
#[derive(Clone, Copy, Debug, PartialEq, Eq, Structural)]
pub enum Admission {
    /// The work is to be begun.
    Begin(u64),
    /// The work is going on; its outcome is awaited.
    Join(u64),
}

impl DeepView for Admission {
    type V = Admission;

    open spec fn deep_view(&self) -> Admission {
        *self
    }
}

/// A request to add a block device. One that is the same as a request that is going on joins it;
/// another one for the same device leaves the device in doubt.
pub open spec fn add_admitted(s: LifecycleModel, identity: IdentityModel) -> (
    LifecycleModel,
    Result<Admission, ErrorModel>,
) {
    let id = identity.device_id;
    if s.operations.contains_key(id) {
        let operation = s.operations[id];
        if operation.identity == identity {
            (s, Ok(Admission::Join(operation.ticket)))
        } else {
            (
                s,
                Err(
                    seq![
                        LayerModel::InDoubt {
                            device_id: id,
                            reason: "Cloud Hypervisor block add retry for device "@ + id
                                + " does not match the admitted device at "@
                                + operation.identity.config.path_on_host
                                + "; original cleanup remains pending"@,
                        },
                    ],
                ),
            )
        }
    } else if !s.admission_open {
        (
            s,
            Err(
                message(
                    "Cloud Hypervisor block add for device "@ + id
                        + " was not admitted because VM stop has begun"@,
                ),
            ),
        )
    } else {
        (
            LifecycleModel {
                operations: s.operations.insert(
                    id,
                    OperationModel { ticket: s.next_ticket, identity, finished: false },
                ),
                next_ticket: (s.next_ticket + 1) as u64,
                ..s
            },
            Ok(Admission::Begin(s.next_ticket)),
        )
    }
}

/// The outcome of adding the block device `id` is there.
pub open spec fn add_finished(s: LifecycleModel, id: Seq<char>, ticket: u64) -> LifecycleModel {
    if s.operations.contains_key(id) && s.operations[id].ticket == ticket {
        LifecycleModel {
            operations: s.operations.insert(
                id,
                OperationModel { finished: true, ..s.operations[id] },
            ),
            ..s
        }
    } else {
        s
    }
}

/// A caller has seen the outcome of adding the block device `id`. The work stays known while the
/// device is in doubt.
pub open spec fn add_seen(s: LifecycleModel, id: Seq<char>, ticket: u64, in_doubt: bool) -> LifecycleModel {
    if !in_doubt && s.operations.contains_key(id) && s.operations[id].ticket == ticket {
        LifecycleModel { operations: s.operations.remove(id), ..s }
    } else {
        s
    }
}

/// The block device `id` is gone, and with it the work on adding it.
pub open spec fn device_forgotten(s: LifecycleModel, id: Seq<char>) -> LifecycleModel {
    LifecycleModel { operations: s.operations.remove(id), ..s }
}

/// Whether these are the tickets of the work on adding block devices.
pub open spec fn names_adds(
    tickets: Seq<u64>,
    operations: Map<Seq<char>, OperationModel>,
) -> bool {
    forall|ticket: u64| #[trigger]
        tickets.contains(ticket) <==> exists|id: Seq<char>| #[trigger]
            operations.contains_key(id) && operations[id].ticket == ticket
}

/// A request to stop the virtual machine. The first one closes the admission of block devices.
pub open spec fn stop_admitted(s: LifecycleModel) -> (LifecycleModel, Admission) {
    match s.stop {
        Some(ticket) => (s, Admission::Join(ticket)),
        None => (
            LifecycleModel {
                stop: Some(s.next_ticket),
                admission_open: false,
                next_ticket: (s.next_ticket + 1) as u64,
                ..s
            },
            Admission::Begin(s.next_ticket),
        ),
    }
}

/// What a stop that begins waits for first.
#[derive(Clone, Debug)]
pub struct StopAdmission {
    pub admission: Admission,
    /// The start that is going on.
    pub active_start: Option<u64>,
    /// The block devices that are being added.
    pub block_adds: Vec<u64>,
}

/// What a stop does next.
#[derive(Clone, Copy, Debug, PartialEq, Eq, Structural)]
pub enum StopStep {
    /// Wait for the outcome of the start of that ticket.
    AwaitStart(u64),
    /// Look up whether the cleanup of an earlier try is unresolved.
    ReadUnresolved,
    /// Wait for the outcome of adding the block device of that ticket.
    AwaitAdd(u64),
    /// Terminate the processes, and come to the end.
    Terminate,
    /// Ask the virtual machine to stop, and come to the end.
    Shutdown,
}

/// What a stop does next that waits for `active_start` and `block_adds`: it waits for the start,
/// looks up whether an earlier cleanup is unresolved, waits for every block device, and only then
/// puts an end to the virtual machine.
pub open spec fn stop_step(
    active_start: Option<u64>,
    block_adds: Seq<u64>,
    start_done: bool,
    unresolved: Option<bool>,
    adds_done: int,
) -> StopStep {
    if active_start is Some && !start_done {
        StopStep::AwaitStart(active_start->0)
    } else {
        match unresolved {
            None => StopStep::ReadUnresolved,
            Some(unresolved) => if adds_done < block_adds.len() {
                StopStep::AwaitAdd(block_adds[adds_done])
            } else if unresolved {
                StopStep::Terminate
            } else {
                StopStep::Shutdown
            },
        }
    }
}

/// Says what a stop does next. `start_done` is whether the start that it waits for has come to its
/// end, `unresolved` whether an earlier cleanup is unresolved once that was looked up, and
/// `adds_done` how many of the block devices have their outcome.
pub fn next_stop_step(
    stop: &StopAdmission,
    start_done: bool,
    unresolved: Option<bool>,
    adds_done: usize,
) -> (r: StopStep)
    requires
        adds_done <= stop.block_adds@.len(),
    ensures
        r == stop_step(
            stop.active_start,
            stop.block_adds@,
            start_done,
            unresolved,
            adds_done as int,
        ),
{
    if let Some(start) = stop.active_start {
        if !start_done {
            return StopStep::AwaitStart(start);
        }
    }
    match unresolved {
        None => StopStep::ReadUnresolved,
        Some(unresolved) => if adds_done < stop.block_adds.len() {
            StopStep::AwaitAdd(stop.block_adds[adds_done])
        } else if unresolved {
            StopStep::Terminate
        } else {
            StopStep::Shutdown
        },
    }
}

/// How the virtual machine was stopped.
#[derive(Debug)]
pub enum StopRun {
    /// It was asked to stop, or where an earlier cleanup is unresolved, its processes were
    /// terminated.
    Ran {
        result: Result<(), Error>,
        /// Whether anything of it is left.
        resources_remain: bool,
        /// Whether it still runs.
        running: bool,
    },
    /// The worker is gone for a reason that nobody foresaw.
    Panicked,
}

/// What came of stopping a virtual machine, and whether block devices can be added to it still.
pub open spec fn stop_concluded(unresolved: Option<ErrorModel>, run: StopRun) -> (
    Result<(), ErrorModel>,
    bool,
) {
    match run {
        StopRun::Ran { result, resources_remain, running } => (
            match (result, unresolved) {
                (Ok(()), _) => if resources_remain {
                    Err(
                        message(
                            "Cloud Hypervisor stop returned before all epoch resources were cleaned"@,
                        ),
                    )
                } else {
                    Ok(())
                },
                (Err(error), None) => Err(error.deep_view()),
                (Err(error), Some(earlier)) => Err(
                    in_context(
                        shared_failure(earlier),
                        "Cloud Hypervisor stop cleanup remains unresolved: "@ + error_chain_text(
                            error.deep_view(),
                        ),
                    ),
                ),
            },
            running,
        ),
        StopRun::Panicked => (
            Err(
                message("Cloud Hypervisor stop worker panicked; VM state remains unresolved"@),
            ),
            false,
        ),
    }
}

/// Concludes the stop of a virtual machine whose cleanup was unresolved before, or not.
pub fn conclude_stop(unresolved: Option<Error>, run: StopRun) -> (r: (VmOperationOutcome, bool))
    ensures
        ({
            let earlier = match unresolved {
                Some(error) => Some(error.deep_view()),
                None => None,
            };
            let (result, hot) = stop_concluded(earlier, run);
            &&& r.1 == hot
            &&& outcome_of(r.0) == result
        }),
{
    match run {
        StopRun::Ran { result, resources_remain, running } => {
            let result = match result {
                Ok(()) => if resources_remain {
                    Err(
                        Error::msg_str(
                            "Cloud Hypervisor stop returned before all epoch resources were cleaned",
                        ),
                    )
                } else {
                    Ok(())
                },
                Err(error) => match unresolved {
                    None => Err(error),
                    Some(earlier) => Err(
                        share_failure(&earlier).context(
                            cat2(
                                "Cloud Hypervisor stop cleanup remains unresolved: ",
                                error.chain_text().as_str(),
                            ),
                        ),
                    ),
                },
            };
            (VmOperationOutcome::from_result(result), running)
        },
        StopRun::Panicked => (
            VmOperationOutcome::Failure(
                Error::msg_str(
                    "Cloud Hypervisor stop worker panicked; VM state remains unresolved",
                ),
            ),
            false,
        ),
    }
}

/// An outcome as a result with a model of its error.
pub open spec fn outcome_of(o: VmOperationOutcome) -> Result<(), ErrorModel> {
    match o {
        VmOperationOutcome::Success => Ok(()),
        VmOperationOutcome::Failure(error) => Err(error.deep_view()),
    }
}

/// The outcome of a stop is there. One that succeeded is the last of this virtual machine. One that
/// failed lets another try follow; block devices can be added again where the virtual machine
/// still runs, and else nothing can be done before its processes are gone.
pub open spec fn stop_finished(
    s: LifecycleModel,
    ticket: u64,
    result: Result<(), ErrorModel>,
    can_hot_add: bool,
) -> LifecycleModel {
    if s.stop != Some(ticket) {
        s
    } else {
        match result {
            Ok(()) => LifecycleModel {
                admission_open: false,
                operations: Map::empty(),
                cleanup_unresolved: None,
                ..s
            },
            Err(error) => LifecycleModel {
                admission_open: can_hot_add,
                stop: None,
                cleanup_unresolved: if can_hot_add {
                    None
                } else {
                    Some(error)
                },
                ..s
            },
        }
    }
}

/// How a request to start the virtual machine takes part.
#[derive(Clone, Copy, Debug, PartialEq, Eq, Structural)]
pub enum StartAdmission {
    /// The work is to be begun.
    Begin(u64),
    /// The work is going on; its outcome is awaited.
    Join(u64),
    /// The virtual machine is being stopped, or was; the outcome of that says why it cannot start.
    AwaitStop(u64),
}

impl DeepView for StartAdmission {
    type V = StartAdmission;

    open spec fn deep_view(&self) -> StartAdmission {
        *self
    }
}

/// A request to start the virtual machine.
pub open spec fn start_admitted(s: LifecycleModel) -> (
    LifecycleModel,
    Result<StartAdmission, ErrorModel>,
) {
    match (s.cleanup_unresolved, s.start, s.stop) {
        (Some(error), _, _) => (
            s,
            Err(
                in_context(
                    shared_failure(error),
                    "Cloud Hypervisor cannot start while the previous VM shutdown is unresolved because process cleanup remains unresolved"@,
                ),
            ),
        ),
        (None, Some(ticket), _) => (s, Ok(StartAdmission::Join(ticket))),
        (None, None, Some(ticket)) => (s, Ok(StartAdmission::AwaitStop(ticket))),
        (None, None, None) => (
            LifecycleModel {
                start: Some(s.next_ticket),
                next_ticket: (s.next_ticket + 1) as u64,
                ..s
            },
            Ok(StartAdmission::Begin(s.next_ticket)),
        ),
    }
}

/// Why a virtual machine cannot start after a stop.
pub open spec fn start_refused(stopped: Result<(), ErrorModel>) -> ErrorModel {
    match stopped {
        Ok(()) => message(
            "Cloud Hypervisor VM has stopped; this sandbox lifecycle cannot restart"@,
        ),
        Err(error) => in_context(
            shared_failure(error),
            "Cloud Hypervisor cannot start while the previous VM shutdown is unresolved"@,
        ),
    }
}

/// Says why a virtual machine cannot start after a stop.
pub fn refuse_start(stopped: &VmOperationOutcome) -> (r: Error)
    ensures
        r.deep_view() == start_refused(outcome_of(*stopped)),
{
    match stopped {
        VmOperationOutcome::Success => Error::msg_str(
            "Cloud Hypervisor VM has stopped; this sandbox lifecycle cannot restart",
        ),
        VmOperationOutcome::Failure(error) => share_failure(error).context_str(
            "Cloud Hypervisor cannot start while the previous VM shutdown is unresolved",
        ),
    }
}

/// How the processes of a virtual machine were cleaned after its start went wrong.
#[derive(Debug)]
pub enum CleanupRun {
    Ran(Result<(), Error>),
    /// The cleanup is gone for a reason that nobody foresaw.
    Panicked,
}

/// How a virtual machine was started.
#[derive(Debug)]
pub enum StartRun {
    /// It runs already, and was left alone.
    AlreadyRunning,
    Ran {
        result: Result<(), Error>,
        /// Whether anything of it is there.
        resources_active: bool,
    },
    /// The start is gone for a reason that nobody foresaw, and its processes were cleaned.
    Panicked(CleanupRun),
}

/// What came of starting a virtual machine, and whether its processes may be there all the same.
pub open spec fn start_concluded(run: StartRun) -> (Result<(), ErrorModel>, bool) {
    match run {
        StartRun::AlreadyRunning => (
            Err(message("Cloud Hypervisor VM is already running"@)),
            false,
        ),
        StartRun::Ran { result, resources_active } => (
            outcome(result),
            result is Err && resources_active,
        ),
        StartRun::Panicked(CleanupRun::Ran(Ok(()))) => (
            Err(
                message(
                    "Cloud Hypervisor start worker panicked; spawned process resources were cleaned"@,
                ),
            ),
            false,
        ),
        StartRun::Panicked(CleanupRun::Ran(Err(error))) => (
            Err(
                message(
                    "Cloud Hypervisor start worker panicked; process cleanup remains unresolved: "@
                        + error_chain_text(error.deep_view()),
                ),
            ),
            true,
        ),
        StartRun::Panicked(CleanupRun::Panicked) => (
            Err(
                message(
                    "Cloud Hypervisor start worker panicked; process cleanup also panicked"@,
                ),
            ),
            true,
        ),
    }
}

/// Concludes the start of a virtual machine.
pub fn conclude_start(run: StartRun) -> (r: (VmOperationOutcome, bool))
    ensures
        (outcome_of(r.0), r.1) == start_concluded(run),
{
    match run {
        StartRun::AlreadyRunning => (
            VmOperationOutcome::Failure(
                Error::msg_str("Cloud Hypervisor VM is already running"),
            ),
            false,
        ),
        StartRun::Ran { result, resources_active } => {
            let unresolved = result.is_err() && resources_active;
            (VmOperationOutcome::from_result(result), unresolved)
        },
        StartRun::Panicked(cleanup) => match cleanup {
            CleanupRun::Ran(Ok(())) => (
                VmOperationOutcome::Failure(
                    Error::msg_str(
                        "Cloud Hypervisor start worker panicked; spawned process resources were cleaned",
                    ),
                ),
                false,
            ),
            CleanupRun::Ran(Err(error)) => (
                VmOperationOutcome::Failure(
                    Error::msg(
                        cat2(
                            "Cloud Hypervisor start worker panicked; process cleanup remains unresolved: ",
                            error.chain_text().as_str(),
                        ),
                    ),
                ),
                true,
            ),
            CleanupRun::Panicked => (
                VmOperationOutcome::Failure(
                    Error::msg_str(
                        "Cloud Hypervisor start worker panicked; process cleanup also panicked",
                    ),
                ),
                true,
            ),
        },
    }
}

/// The work on block devices whose outcome is not there yet.
pub open spec fn unfinished(operations: Map<Seq<char>, OperationModel>) -> Map<
    Seq<char>,
    OperationModel,
> {
    operations.remove_keys(
        Set::new(|id: Seq<char>| operations.contains_key(id) && operations[id].finished),
    )
}

/// The outcome of a start is there. One that succeeded forgets the block devices that were added
/// before, and opens the admission of block devices unless a stop has begun meanwhile.
pub open spec fn start_finished(
    s: LifecycleModel,
    ticket: u64,
    result: Result<(), ErrorModel>,
    cleanup_unresolved: bool,
) -> LifecycleModel {
    if s.start != Some(ticket) {
        s
    } else {
        let s = LifecycleModel { start: None, ..s };
        match result {
            Err(error) => if cleanup_unresolved {
                LifecycleModel {
                    cleanup_unresolved: Some(error),
                    admission_open: false,
                    ..s
                }
            } else {
                s
            },
            Ok(()) => if cleanup_unresolved {
                s
            } else {
                LifecycleModel {
                    cleanup_unresolved: None,
                    operations: unfinished(s.operations),
                    admission_open: s.admission_open || s.stop is None,
                    ..s
                }
            },
        }
    }
}

/// The failure of a worker that went away while it added a block device.
pub open spec fn add_worker_lost(id: Seq<char>) -> ErrorModel {
    seq![
        LayerModel::InDoubt {
            device_id: id,
            reason: "Cloud Hypervisor block attach worker panicked; cleanup remains pending"@,
        },
    ]
}

/// What a worker that added a block device came to; `None` where it went away.
pub fn conclude_add(device_id: &str, ran: Option<Result<Device, Error>>) -> (r: BlockAddOutcome)
    ensures
        match ran {
            Some(Ok(device)) => r == BlockAddOutcome::Success(device),
            Some(Err(error)) => r == BlockAddOutcome::Failure(error),
            None => r matches BlockAddOutcome::Failure(error) && error.deep_view()
                == add_worker_lost(device_id@),
        },
{
    match ran {
        Some(result) => BlockAddOutcome::from_result(result),
        None => BlockAddOutcome::Failure(
            Error::in_doubt(
                device_id.to_owned(),
                "Cloud Hypervisor block attach worker panicked; cleanup remains pending".to_owned(),
            ),
        ),
    }
}

impl Default for BlockAddState {
    fn default() -> (r: BlockAddState)
        ensures
            r@ == (LifecycleModel {
                admission_open: true,
                operations: Map::empty(),
                stop: None,
                start: None,
                cleanup_unresolved: None,
                next_ticket: 0,
            }),
    {
        BlockAddState {
            admission_open: true,
            operations: Table::new(),
            stop: None,
            start: None,
            cleanup_unresolved: None,
            next_ticket: 0,
        }
    }
}

impl BlockAddState {
    /// Admits a request to add a block device.
    pub fn add_block_device(&mut self, identity: BlockAddIdentity) -> (r: Result<Admission, Error>)
        requires
            old(self).next_ticket < u64::MAX,
        ensures
            (final(self)@, outcome(r)) == add_admitted(old(self)@, identity.deep_view()),
    {
        let id = identity.device_id.clone();
        if let Some(operation) = self.operations.get(id.as_str()) {
            if operation.identity.matches(&identity) {
                return Ok(Admission::Join(operation.ticket));
            }
            let reason = cat5(
                "Cloud Hypervisor block add retry for device ",
                id.as_str(),
                " does not match the admitted device at ",
                operation.identity.config.path_on_host.as_str(),
                "; original cleanup remains pending",
            );
            return Err(Error::in_doubt(id, reason));
        }
        if !self.admission_open {
            return Err(
                Error::msg(
                    cat3(
                        "Cloud Hypervisor block add for device ",
                        id.as_str(),
                        " was not admitted because VM stop has begun",
                    ),
                ),
            );
        }
        let ticket: u64 = self.next_ticket;
        self.operations.insert(id, BlockAddOperation { ticket, identity, finished: false });
        self.next_ticket = ticket + 1;
        Ok(Admission::Begin(ticket))
    }

    /// Notes that the outcome of adding a block device is there.
    pub fn complete_block_add(&mut self, device_id: &str, ticket: u64)
        ensures
            final(self)@ == add_finished(old(self)@, device_id@, ticket),
    {
        if let Some(operation) = self.operations.remove(device_id) {
            let ghost before = old(self)@.operations;
            if operation.ticket == ticket {
                self.operations.insert(
                    device_id.to_owned(),
                    BlockAddOperation {
                        ticket: operation.ticket,
                        identity: operation.identity,
                        finished: true,
                    },
                );
                assert(self@.operations =~= before.insert(
                    device_id@,
                    OperationModel { finished: true, ..before[device_id@] },
                ));
            } else {
                self.operations.insert(device_id.to_owned(), operation);
                assert(self@.operations =~= before);
            }
        } else {
            assert(self@.operations =~= old(self)@.operations);
        }
    }

    /// Notes that a caller has seen the outcome of adding a block device.
    pub fn release_block_add(&mut self, device_id: &str, ticket: u64, outcome: &BlockAddOutcome)
        ensures
            final(self)@ == add_seen(old(self)@, device_id@, ticket, outcome.in_doubt()),
    {
        if outcome.is_in_doubt() {
            return;
        }
        let current = match self.operations.get(device_id) {
            Some(operation) => operation.ticket == ticket,
            None => false,
        };
        if current {
            let _ = self.operations.remove(device_id);
        }
    }

    /// Notes that a block device is gone.
    pub fn forget_block_add(&mut self, device_id: &str)
        ensures
            final(self)@ == device_forgotten(old(self)@, device_id@),
    {
        let _ = self.operations.remove(device_id);
    }

    fn active_tickets(&self) -> (r: Vec<u64>)
        ensures
            names_adds(r@, self@.operations),
    {
        let keys = self.operations.keys();
        let mut tickets: Vec<u64> = Vec::new();
        let mut i: usize = 0;
        while i < keys.len()
            invariant
                0 <= i <= keys@.len(),
                tickets@.len() == i,
                forall|key: Seq<char>|
                    #[trigger] keys.deep_view().contains(key) <==> self@.operations.contains_key(
                        key,
                    ),
                forall|j: int|
                    0 <= j < i ==> self@.operations.contains_key((#[trigger] keys@[j])@)
                        && tickets@[j] == self@.operations[keys@[j]@].ticket,
            decreases keys@.len() - i,
        {
            assert(keys.deep_view()[i as int] == keys@[i as int]@);
            assert(keys.deep_view().contains(keys@[i as int]@));
            let ticket: u64 = match self.operations.get(keys[i].as_str()) {
                Some(operation) => operation.ticket,
                None => 0,
            };
            tickets.push(ticket);
            i = i + 1;
        }
        assert forall|ticket: u64| #[trigger] tickets@.contains(ticket) <==> exists|
            id: Seq<char>,
        | #[trigger] self@.operations.contains_key(id) && self@.operations[id].ticket == ticket by {
            if tickets@.contains(ticket) {
                let j = choose|j: int| 0 <= j < tickets@.len() && tickets@[j] == ticket;
                assert(self@.operations.contains_key(keys@[j]@));
            }
            if exists|id: Seq<char>| #[trigger]
                self@.operations.contains_key(id) && self@.operations[id].ticket == ticket {
                let id = choose|id: Seq<char>| #[trigger]
                    self@.operations.contains_key(id) && self@.operations[id].ticket == ticket;
                assert(keys.deep_view().contains(id));
                let j = choose|j: int| 0 <= j < keys.deep_view().len() && keys.deep_view()[j] == id;
                assert(keys@[j]@ == id);
                assert(tickets@[j] == ticket);
            }
        }
        tickets
    }

    /// Admits a request to stop the virtual machine. One that begins the work first waits for the
    /// start and the block devices that are going on.
    pub fn stop_vm_shared(&mut self) -> (r: StopAdmission)
        requires
            old(self).next_ticket < u64::MAX,
        ensures
            (final(self)@, r.admission) == stop_admitted(old(self)@),
            r.admission is Begin ==> r.active_start == old(self)@.start && names_adds(
                r.block_adds@,
                old(self)@.operations,
            ),
            r.admission is Join ==> r.active_start is None && r.block_adds@.len() == 0,
    {
        if let Some(ticket) = self.stop {
            return StopAdmission {
                admission: Admission::Join(ticket),
                active_start: None,
                block_adds: Vec::new(),
            };
        }
        let ticket: u64 = self.next_ticket;
        let block_adds = self.active_tickets();
        self.stop = Some(ticket);
        self.admission_open = false;
        self.next_ticket = ticket + 1;
        StopAdmission {
            admission: Admission::Begin(ticket),
            active_start: self.start,
            block_adds,
        }
    }

    /// The request that pauses the virtual machine. What may be added to it is as before.
    pub fn pause_vm(&self) -> (r: ApiRequest)
        ensures
            r@ == (RequestModel { method: "PUT"@, endpoint: "vm.pause"@, body: None }),
    {
        cloud_hypervisor_vm_pause()
    }

    /// The request that lets the virtual machine go on. What may be added to it is as before.
    pub fn resume_vm(&self) -> (r: ApiRequest)
        ensures
            r@ == (RequestModel { method: "PUT"@, endpoint: "vm.resume"@, body: None }),
    {
        cloud_hypervisor_vm_resume()
    }

    /// Notes the outcome of a stop.
    pub fn finish_stop(&mut self, ticket: u64, outcome: &VmOperationOutcome, can_hot_add: bool)
        ensures
            final(self)@ == stop_finished(
                old(self)@,
                ticket,
                outcome_of(*outcome),
                can_hot_add,
            ),
    {
        let current = match self.stop {
            Some(active) => active == ticket,
            None => false,
        };
        if !current {
            return;
        }
        match outcome {
            VmOperationOutcome::Success => {
                self.admission_open = false;
                self.operations.clear();
                self.cleanup_unresolved = None;
            },
            VmOperationOutcome::Failure(error) => {
                self.stop = None;
                self.admission_open = can_hot_add;
                self.cleanup_unresolved = if can_hot_add {
                    None
                } else {
                    Some(error.dup())
                };
            },
        }
    }

    /// Admits a request to start the virtual machine.
    pub fn start_vm_shared(&mut self) -> (r: Result<StartAdmission, Error>)
        requires
            old(self).next_ticket < u64::MAX,
        ensures
            (final(self)@, outcome(r)) == start_admitted(old(self)@),
    {
        if let Some(error) = &self.cleanup_unresolved {
            return Err(
                share_failure(error).context_str(
                    "Cloud Hypervisor cannot start while the previous VM shutdown is unresolved because process cleanup remains unresolved",
                ),
            );
        }
        if let Some(ticket) = self.start {
            return Ok(StartAdmission::Join(ticket));
        }
        if let Some(ticket) = self.stop {
            return Ok(StartAdmission::AwaitStop(ticket));
        }
        let ticket: u64 = self.next_ticket;
        self.start = Some(ticket);
        self.next_ticket = ticket + 1;
        Ok(StartAdmission::Begin(ticket))
    }

    fn forget_finished(&mut self)
        ensures
            final(self)@ == (LifecycleModel {
                operations: unfinished(old(self)@.operations),
                ..old(self)@
            }),
    {
        let keys = self.operations.keys();
        let ghost all = self@.operations;
        let mut i: usize = 0;
        while i < keys.len()
            invariant
                0 <= i <= keys@.len(),
                all == old(self)@.operations,
                self@ == (LifecycleModel { operations: self@.operations, ..old(self)@ }),
                forall|key: Seq<char>| #[trigger]
                    self@.operations.contains_key(key) ==> all.contains_key(key)
                        && self@.operations[key] == all[key],
                forall|key: Seq<char>| #[trigger]
                    all.contains_key(key) && !all[key].finished ==> self@.operations.contains_key(
                        key,
                    ),
                forall|j: int|
                    0 <= j < i && all.contains_key((#[trigger] keys@[j])@)
                        && all[keys@[j]@].finished ==> !self@.operations.contains_key(keys@[j]@),
            decreases keys@.len() - i,
        {
            let finished = match self.operations.get(keys[i].as_str()) {
                Some(operation) => operation.finished,
                None => false,
            };
            if finished {
                let _ = self.operations.remove(keys[i].as_str());
            }
            i = i + 1;
        }
        assert forall|key: Seq<char>| #[trigger]
            all.contains_key(key) && all[key].finished implies !self@.operations.contains_key(
            key,
        ) by {
            assert(keys.deep_view().contains(key));
            let j = choose|j: int| 0 <= j < keys.deep_view().len() && keys.deep_view()[j] == key;
            assert(keys@[j]@ == key);
        }
        assert(self@.operations =~= unfinished(all));
    }

    /// Notes the outcome of a start.
    pub fn finish_start(&mut self, ticket: u64, outcome: &VmOperationOutcome, cleanup_unresolved: bool)
        ensures
            final(self)@ == start_finished(
                old(self)@,
                ticket,
                outcome_of(*outcome),
                cleanup_unresolved,
            ),
    {
        let current = match self.start {
            Some(active) => active == ticket,
            None => false,
        };
        if !current {
            return;
        }
        self.start = None;
        match outcome {
            VmOperationOutcome::Failure(error) => {
                if cleanup_unresolved {
                    self.cleanup_unresolved = Some(error.dup());
                    self.admission_open = false;
                }
            },
            VmOperationOutcome::Success => {
                if !cleanup_unresolved {
                    self.cleanup_unresolved = None;
                    self.forget_finished();
                    if self.stop.is_none() {
                        self.admission_open = true;
                    }
                }
            },
        }
    }
}

/// The exit code of a virtual machine, as it was last heard of.
#[derive(Clone, Copy, Debug, PartialEq, Eq, Structural)]
pub struct ExitWaiter {
    pub exit_code: i32,
}

impl ExitWaiter {
    pub fn new() -> (r: ExitWaiter)
        ensures
            r.exit_code == 0,
    {
        ExitWaiter { exit_code: 0 }
    }

    /// The exit code of the virtual machine. `received` is what came from it; once it is gone,
    /// nothing comes any more, and the last code stands.
    pub fn wait_vm(&mut self, received: Option<i32>) -> (r: i32)
        ensures
            r == match received {
                Some(exit_code) => exit_code,
                None => old(self).exit_code,
            },
            final(self).exit_code == r,
    {
        if let Some(exit_code) = received {
            self.exit_code = exit_code;
        }
        self.exit_code
    }
}

/// A retry of the same request joins the work that is going on, and changes nothing; a request that
/// differs is in doubt, and changes nothing either. So no device is ever added twice at a time.
pub proof fn law_retry_joins(s: LifecycleModel, identity: IdentityModel, retry: IdentityModel)
    requires
        add_admitted(s, identity).1 is Ok,
        retry.device_id == identity.device_id,
    ensures
        ({
            let (admitted, first) = add_admitted(s, identity);
            let (after, second) = add_admitted(admitted, retry);
            &&& after == admitted
            &&& retry == identity ==> second == Ok::<Admission, ErrorModel>(
                Admission::Join(
                    match first->Ok_0 {
                        Admission::Begin(ticket) => ticket,
                        Admission::Join(ticket) => ticket,
                    },
                ),
            )
            &&& retry != identity ==> (second matches Err(error) && names_doubt(error))
        }),
{
    let (admitted, first) = add_admitted(s, identity);
    let second = add_admitted(admitted, retry).1;
    if retry != identity {
        assert(second->Err_0[0] is InDoubt);
    }
}

/// A device in doubt stays with the work that left it so; any other outcome lets a new request
/// begin afresh.
pub proof fn law_doubt_keeps_operation(
    s: LifecycleModel,
    identity: IdentityModel,
    ticket: u64,
    in_doubt: bool,
)
    requires
        s.operations.contains_key(identity.device_id),
        s.operations[identity.device_id].ticket == ticket,
        s.operations[identity.device_id].identity == identity,
        s.admission_open,
    ensures
        add_admitted(add_seen(s, identity.device_id, ticket, in_doubt), identity).1 == Ok::<
            Admission,
            ErrorModel,
        >(
            if in_doubt {
                Admission::Join(ticket)
            } else {
                Admission::Begin(s.next_ticket)
            },
        ),
{
}

/// What can happen to a virtual machine while it is being stopped.
pub enum LifecycleEvent {
    /// A start or another stop is asked for.
    StartAsked,
    StopAsked,
    /// A block device is to be added.
    AddAsked(IdentityModel),
    /// A start came to its end.
    StartFinished { ticket: u64, result: Result<(), ErrorModel>, unresolved: bool },
    /// The addition of a block device came to its end, or its outcome was seen by a caller.
    AddFinished { id: Seq<char>, ticket: u64 },
    AddSeen { id: Seq<char>, ticket: u64, in_doubt: bool },
    /// A block device is gone.
    DeviceGone(Seq<char>),
}

/// The virtual machine after an event.
pub open spec fn after_event(s: LifecycleModel, event: LifecycleEvent) -> LifecycleModel {
    match event {
        LifecycleEvent::StartAsked => start_admitted(s).0,
        LifecycleEvent::StopAsked => stop_admitted(s).0,
        LifecycleEvent::AddAsked(identity) => add_admitted(s, identity).0,
        LifecycleEvent::StartFinished { ticket, result, unresolved } => start_finished(
            s,
            ticket,
            result,
            unresolved,
        ),
        LifecycleEvent::AddFinished { id, ticket } => add_finished(s, id, ticket),
        LifecycleEvent::AddSeen { id, ticket, in_doubt } => add_seen(s, id, ticket, in_doubt),
        LifecycleEvent::DeviceGone(id) => device_forgotten(s, id),
    }
}

/// The virtual machine after some events.
pub open spec fn after_events(s: LifecycleModel, events: Seq<LifecycleEvent>) -> LifecycleModel
    decreases events.len(),
{
    if events.len() == 0 {
        s
    } else {
        after_event(after_events(s, events.drop_last()), events.last())
    }
}

/// Once a stop has begun, and until it ends, no block device is admitted that was not being added
/// before, whatever else is asked for and comes to its end meanwhile.
pub proof fn law_stop_closes_admission(
    s: LifecycleModel,
    identity: IdentityModel,
    events: Seq<LifecycleEvent>,
)
    requires
        s.stop is None,
        !s.operations.contains_key(identity.device_id),
    ensures
        ({
            let stopping = after_events(stop_admitted(s).0, events);
            &&& stopping.stop == Some(s.next_ticket)
            &&& !stopping.admission_open
            &&& !stopping.operations.contains_key(identity.device_id)
            &&& add_admitted(stopping, identity) == (
                stopping,
                Err::<Admission, ErrorModel>(
                    message(
                        "Cloud Hypervisor block add for device "@ + identity.device_id
                            + " was not admitted because VM stop has begun"@,
                    ),
                ),
            )
        }),
    decreases events.len(),
{
    if events.len() > 0 {
        law_stop_closes_admission(s, identity, events.drop_last());
    }
}

/// A stop that succeeded is the last of a virtual machine: no start and no block device is admitted
/// afterwards, a second stop only joins the first, and nothing of that changes the state.
pub proof fn law_stop_is_final(s: LifecycleModel, ticket: u64, identity: IdentityModel)
    requires
        s.stop == Some(ticket),
        s.start is None,
    ensures
        ({
            let stopped = stop_finished(s, ticket, Ok(()), false);
            &&& start_admitted(stopped) == (
                stopped,
                Ok::<StartAdmission, ErrorModel>(StartAdmission::AwaitStop(ticket)),
            )
            &&& stop_admitted(stopped) == (stopped, Admission::Join(ticket))
            &&& add_admitted(stopped, identity).0 == stopped
            &&& add_admitted(stopped, identity).1 is Err
        }),
{
}

/// While processes of an earlier try may be there, a start is refused with the failure that left
/// them; a stop whose cleanup succeeds resolves that.
pub proof fn law_unresolved_cleanup_blocks_start(
    s: LifecycleModel,
    ticket: u64,
    error: ErrorModel,
)
    requires
        s.stop == Some(ticket),
    ensures
        ({
            let failed = stop_finished(s, ticket, Err(error), false);
            &&& !failed.admission_open
            &&& failed.stop is None
            &&& start_admitted(failed).0 == failed
            &&& start_admitted(failed).1 matches Err(refusal) && refusal.skip(1) == shared_failure(
                error,
            )
            &&& stop_admitted(failed).1 == Admission::Begin(s.next_ticket)
            &&& stop_finished(
                stop_admitted(failed).0,
                s.next_ticket,
                Ok(()),
                false,
            ).cleanup_unresolved is None
        }),
{
    let failed = stop_finished(s, ticket, Err(error), false);
    assert((start_admitted(failed).1->Err_0).skip(1) =~= shared_failure(error));
}

/// Every caller of a shared piece of work sees whether the device is in doubt, and which one.
pub proof fn law_sharing_keeps_doubt(error: ErrorModel)
    ensures
        names_doubt(shared_failure(error)) == names_doubt(error),
        device_in_doubt(shared_failure(error)) == device_in_doubt(error),
        error_text(shared_failure(error)) == error_text(error),
{
    let outer = shared_failure(error);
    assert(outer.drop_first() =~= error);
    assert(outer[0] is Shared);
    if names_doubt(error) {
        let i = choose|i: int| 0 <= i < error.len() && (#[trigger] error[i]) is InDoubt;
        assert(outer[i + 1] is InDoubt);
    }
    if names_doubt(outer) {
        let i = choose|i: int| 0 <= i < outer.len() && (#[trigger] outer[i]) is InDoubt;
        assert(error[i - 1] is InDoubt);
    }
    let doubt = |l: LayerModel| l is InDoubt;
    lemma_first_layer(error, doubt);
    assert(first_layer(outer, doubt) == 1 + first_layer(error, doubt));
}

} // verus!
