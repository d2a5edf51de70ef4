//! What holds of a virtual machine as a whole, whatever is asked for and comes to its end meanwhile,
//! and whoever goes away.
use crate::ch::lifecycle::{
    after_event, names_adds, stop_admitted, stop_concluded, stop_finished, stop_step, Admission,
    LifecycleEvent, LifecycleModel, StopRun, StopStep,
};
use crate::error::ErrorModel;
use vstd::prelude::*;

verus! {

/// A stop that is going on.
pub struct StopWork {
    pub ticket: u64,
    /// What it waits for.
    pub active_start: Option<u64>,
    pub block_adds: Seq<u64>,
    /// How far it has come.
    pub start_done: bool,
    /// The unresolved cleanup of an earlier try, once that was looked up.
    pub unresolved: Option<Option<ErrorModel>>,
    pub adds_done: int,
}

/// An end that a stop put to the virtual machine, with how things were at that time.
pub struct EndModel {
    pub terminated: bool,
    pub work: StopWork,
    pub state: LifecycleModel,
    pub settled: Set<u64>,
}

/// A virtual machine and the work on it.
pub struct VmModel {
    pub state: LifecycleModel,
    /// The tickets of the work whose outcome is there.
    pub settled: Set<u64>,
    /// The stop that is going on.
    pub stop: Option<StopWork>,
    /// What came of the stops, by ticket. That is what each of their callers is told.
    pub outcomes: Map<u64, Result<(), ErrorModel>>,
    /// The ends that were put to the virtual machine.
    pub ends: Seq<EndModel>,
}

/// What can happen to a virtual machine. A caller who goes away is nothing that happens to it.
pub enum VmEvent {
    /// A stop is asked for. Where it begins, these are the block devices that it waits for.
    StopAsked(Seq<u64>),
    /// Something other than a stop is asked for or comes to its end.
    Happened(LifecycleEvent),
    /// The worker of a stop goes on. Where it puts an end to the virtual machine, this is what came
    /// of it.
    StopWorks(StopRun),
    /// The worker of a stop is gone for a reason that nobody foresaw.
    StopLost,
}

/// A virtual machine to which nothing has happened.
pub open spec fn fresh_vm(state: LifecycleModel) -> VmModel {
    VmModel {
        state,
        settled: Set::empty(),
        stop: None,
        outcomes: Map::empty(),
        ends: seq![],
    }
}

/// What the worker of a stop does next.
pub open spec fn next_step(work: StopWork) -> StopStep {
    stop_step(
        work.active_start,
        work.block_adds,
        work.start_done,
        match work.unresolved {
            Some(unresolved) => Some(unresolved is Some),
            None => None,
        },
        work.adds_done,
    )
}

/// A stop comes to its end.
pub open spec fn stop_ended(m: VmModel, work: StopWork, run: StopRun) -> VmModel {
    let unresolved = match work.unresolved {
        Some(unresolved) => unresolved,
        None => None,
    };
    let (result, can_hot_add) = stop_concluded(unresolved, run);
    VmModel {
        state: stop_finished(m.state, work.ticket, result, can_hot_add),
        settled: m.settled.insert(work.ticket),
        stop: None,
        outcomes: m.outcomes.insert(work.ticket, result),
        ..m
    }
}

/// The worker of a stop goes on by one step. Where the outcome that it waits for is not there yet,
/// nothing happens.
pub open spec fn stop_worked(m: VmModel, work: StopWork, run: StopRun) -> VmModel {
    match next_step(work) {
        StopStep::AwaitStart(ticket) => if m.settled.contains(ticket) {
            VmModel { stop: Some(StopWork { start_done: true, ..work }), ..m }
        } else {
            m
        },
        StopStep::ReadUnresolved => VmModel {
            stop: Some(StopWork { unresolved: Some(m.state.cleanup_unresolved), ..work }),
            ..m
        },
        StopStep::AwaitAdd(ticket) => if m.settled.contains(ticket) {
            VmModel { stop: Some(StopWork { adds_done: work.adds_done + 1, ..work }), ..m }
        } else {
            m
        },
        step => VmModel {
            ends: m.ends.push(
                EndModel {
                    terminated: step is Terminate,
                    work,
                    state: m.state,
                    settled: m.settled,
                },
            ),
            ..stop_ended(m, work, run)
        },
    }
}

/// The tickets whose outcome is there after an event. Only a ticket that was given out has one.
pub open spec fn settled_after(m: VmModel, event: LifecycleEvent) -> Set<u64> {
    match event {
        LifecycleEvent::AddFinished { ticket, .. } => if ticket < m.state.next_ticket {
            m.settled.insert(ticket)
        } else {
            m.settled
        },
        LifecycleEvent::StartFinished { ticket, .. } => if ticket < m.state.next_ticket {
            m.settled.insert(ticket)
        } else {
            m.settled
        },
        _ => m.settled,
    }
}

/// The virtual machine after an event. Nothing is asked for any more once the tickets are
/// exhausted.
pub open spec fn vm_after(m: VmModel, event: VmEvent) -> VmModel {
    match event {
        VmEvent::StopAsked(block_adds) => if m.state.next_ticket == u64::MAX {
            m
        } else {
            match stop_admitted(m.state) {
                (state, Admission::Join(_)) => VmModel { state, ..m },
                (state, Admission::Begin(ticket)) => if names_adds(
                    block_adds,
                    m.state.operations,
                ) {
                    VmModel {
                        state,
                        stop: Some(
                            StopWork {
                                ticket,
                                active_start: m.state.start,
                                block_adds,
                                start_done: false,
                                unresolved: None,
                                adds_done: 0,
                            },
                        ),
                        ..m
                    }
                } else {
                    m
                },
            }
        },
        VmEvent::Happened(event) => if event is StopAsked || m.state.next_ticket == u64::MAX {
            m
        } else {
            VmModel {
                state: after_event(m.state, event),
                settled: settled_after(m, event),
                ..m
            }
        },
        VmEvent::StopWorks(run) => match m.stop {
            Some(work) => stop_worked(m, work, run),
            None => m,
        },
        VmEvent::StopLost => match m.stop {
            Some(work) => stop_ended(m, work, StopRun::Panicked),
            None => m,
        },
    }
}

/// The virtual machine after some events.
pub open spec fn vm_after_all(m: VmModel, events: Seq<VmEvent>) -> VmModel
    decreases events.len(),
{
    if events.len() == 0 {
        m
    } else {
        vm_after(vm_after_all(m, events.drop_last()), events.last())
    }
}

/// Whether every block device that is being added has its outcome.
pub open spec fn adds_settled(state: LifecycleModel, settled: Set<u64>) -> bool {
    forall|id: Seq<char>| #[trigger]
        state.operations.contains_key(id) ==> settled.contains(state.operations[id].ticket)
}

/// Whether an end was put to the virtual machine only once everything that the stop had to wait for
/// had its outcome: the start, and every block device that was being added when the stop began. No
/// other block device was being added, and none could be. The processes were terminated where an
/// earlier cleanup was unresolved, and only there.
pub open spec fn end_in_order(end: EndModel) -> bool {
    &&& end.work.active_start matches Some(start) ==> end.settled.contains(start)
    &&& forall|ticket: u64| #[trigger]
        end.work.block_adds.contains(ticket) ==> end.settled.contains(ticket)
    &&& adds_settled(end.state, end.settled)
    &&& !end.state.admission_open
    &&& end.work.unresolved is Some
    &&& end.terminated == (end.work.unresolved->0 is Some)
}

/// Whether a stop that is going on has waited for what it has passed, and nobody else is at it.
pub open spec fn work_in_order(m: VmModel, work: StopWork) -> bool {
    &&& m.state.stop == Some(work.ticket)
    &&& work.ticket < m.state.next_ticket
    &&& !m.state.admission_open
    &&& !m.outcomes.contains_key(work.ticket)
    &&& forall|i: int| 0 <= i < m.ends.len() ==> (#[trigger] m.ends[i]).work.ticket != work.ticket
    &&& 0 <= work.adds_done <= work.block_adds.len()
    &&& forall|i: int|
        0 <= i < work.adds_done ==> m.settled.contains(#[trigger] work.block_adds[i])
    &&& work.start_done && work.active_start is Some ==> m.settled.contains(work.active_start->0)
    &&& work.unresolved is Some && work.active_start is Some ==> work.start_done
    &&& forall|id: Seq<char>| #[trigger]
        m.state.operations.contains_key(id) ==> work.block_adds.contains(
            m.state.operations[id].ticket,
        )
}

/// Whether everything about the stops of a virtual machine is in order.
pub open spec fn vm_in_order(m: VmModel) -> bool {
    &&& match m.stop {
        Some(work) => work_in_order(m, work),
        None => m.state.stop matches Some(ticket) ==> m.outcomes.contains_key(ticket)
            && m.outcomes[ticket] is Ok,
    }
    &&& forall|ticket: u64| #[trigger]
        m.outcomes.contains_key(ticket) ==> ticket < m.state.next_ticket
    &&& forall|i: int|
        0 <= i < m.ends.len() ==> end_in_order(#[trigger] m.ends[i]) && m.outcomes.contains_key(
            m.ends[i].work.ticket,
        )
    &&& forall|i: int, j: int|
        0 <= i < j < m.ends.len() ==> (#[trigger] m.ends[i]).work.ticket != (
        #[trigger] m.ends[j]).work.ticket
}

/// Work goes on with what an event leaves.
proof fn lemma_event_keeps_order(m: VmModel, event: LifecycleEvent)
    requires
        vm_in_order(m),
    ensures
        vm_in_order(vm_after(m, VmEvent::Happened(event))),
{
    let after = vm_after(m, VmEvent::Happened(event));
    if let Some(work) = m.stop {
        assert forall|id: Seq<char>| #[trigger]
            after.state.operations.contains_key(id) implies work.block_adds.contains(
            after.state.operations[id].ticket,
        ) by {
            assert(m.state.operations.contains_key(id));
        }
    }
}

proof fn lemma_work_keeps_order(m: VmModel, run: StopRun)
    requires
        vm_in_order(m),
    ensures
        vm_in_order(vm_after(m, VmEvent::StopWorks(run))),
{
    if let Some(work) = m.stop {
        let after = vm_after(m, VmEvent::StopWorks(run));
        let step = next_step(work);
        if step is Terminate || step is Shutdown {
            let end = after.ends.last();
            assert forall|ticket: u64| #[trigger] work.block_adds.contains(ticket) implies
                m.settled.contains(ticket) by {
                let i = choose|i: int|
                    0 <= i < work.block_adds.len() && work.block_adds[i] == ticket;
                assert(m.settled.contains(work.block_adds[i]));
            }
            assert(adds_settled(m.state, m.settled));
            assert(end_in_order(end));
            assert forall|i: int| 0 <= i < after.ends.len() implies end_in_order(
                #[trigger] after.ends[i],
            ) && after.outcomes.contains_key(after.ends[i].work.ticket) by {
                if i < m.ends.len() {
                    assert(after.ends[i] == m.ends[i]);
                }
            }
            assert forall|i: int, j: int| 0 <= i < j < after.ends.len() implies (
            #[trigger] after.ends[i]).work.ticket != (#[trigger] after.ends[j]).work.ticket by {
                assert(after.ends[i] == m.ends[i]);
                if j < m.ends.len() {
                    assert(after.ends[j] == m.ends[j]);
                }
            }
        }
    }
}

/// Whatever happens, everything about the stops of a virtual machine stays in order. So each stop
/// puts one end to it at most, and only after the start and every block device that was being added
/// have their outcome; and no stop begins while another one is going on or has succeeded.
pub proof fn law_stops_stay_in_order(m: VmModel, events: Seq<VmEvent>)
    requires
        vm_in_order(m),
    ensures
        vm_in_order(vm_after_all(m, events)),
    decreases events.len(),
{
    if events.len() > 0 {
        law_stops_stay_in_order(m, events.drop_last());
        let before = vm_after_all(m, events.drop_last());
        match events.last() {
            VmEvent::StopAsked(block_adds) => {
                let after = vm_after(before, events.last());
                if before.stop is None && after.stop is Some {
                    assert forall|id: Seq<char>| #[trigger]
                        after.state.operations.contains_key(id) implies block_adds.contains(
                        after.state.operations[id].ticket,
                    ) by {}
                }
            },
            VmEvent::Happened(event) => lemma_event_keeps_order(before, event),
            VmEvent::StopWorks(run) => lemma_work_keeps_order(before, run),
            VmEvent::StopLost => {},
        }
    }
}

/// A virtual machine to which nothing has happened is in order.
pub proof fn law_fresh_vm_is_in_order(state: LifecycleModel)
    requires
        state.stop is None,
    ensures
        vm_in_order(fresh_vm(state)),
{
}

/// Everybody who asks for a stop while one is going on joins it, and nothing changes by that. What
/// came of a stop never changes, so all who wait for it are told the same.
pub proof fn law_stop_callers_share_the_outcome(
    m: VmModel,
    block_adds: Seq<u64>,
    events: Seq<VmEvent>,
    ticket: u64,
)
    requires
        vm_in_order(m),
    ensures
        m.stop matches Some(work) ==> {
            &&& stop_admitted(m.state) == (m.state, Admission::Join(work.ticket))
            &&& vm_after(m, VmEvent::StopAsked(block_adds)) == m
        },
        m.outcomes.contains_key(ticket) ==> {
            let after = vm_after_all(m, events);
            after.outcomes.contains_key(ticket) && after.outcomes[ticket] == m.outcomes[ticket]
        },
    decreases events.len(),
{
    if events.len() > 0 {
        law_stop_callers_share_the_outcome(m, block_adds, events.drop_last(), ticket);
        law_stops_stay_in_order(m, events.drop_last());
    }
}

/// Once a stop has come to its end: where it failed, the next one that is asked for begins afresh;
/// where it succeeded, the next one joins it, and its success is there already.
pub proof fn law_failed_stop_can_be_retried(m: VmModel, work: StopWork, run: StopRun)
    requires
        vm_in_order(m),
        m.stop == Some(work),
    ensures
        ({
            let after = stop_ended(m, work, run);
            match after.outcomes[work.ticket] {
                Err(_) => stop_admitted(after.state).1 == Admission::Begin(m.state.next_ticket)
                    && !after.outcomes.contains_key(m.state.next_ticket),
                Ok(()) => stop_admitted(after.state) == (
                    after.state,
                    Admission::Join(work.ticket),
                ),
            }
        }),
{
}

/// How many steps a stop has before it.
pub open spec fn steps_left(work: StopWork) -> nat {
    (work.block_adds.len() - work.adds_done + 1 + if work.active_start is Some && !work.start_done {
        1int
    } else {
        0
    } + if work.unresolved is None {
        1int
    } else {
        0
    }) as nat
}

/// The worker of a stop goes on for so many steps.
pub open spec fn worked(m: VmModel, run: StopRun, steps: nat) -> VmModel
    decreases steps,
{
    if steps == 0 {
        m
    } else {
        worked(vm_after(m, VmEvent::StopWorks(run)), run, (steps - 1) as nat)
    }
}

/// A stop comes to its end once everything that it waits for has its outcome, whether anybody still
/// waits for it or not: it puts exactly one end to the virtual machine, and what came of that is its
/// outcome.
pub proof fn law_stop_comes_to_its_end(m: VmModel, work: StopWork, run: StopRun)
    requires
        vm_in_order(m),
        m.stop == Some(work),
        work.active_start matches Some(start) ==> m.settled.contains(start),
        forall|ticket: u64| #[trigger]
            work.block_adds.contains(ticket) ==> m.settled.contains(ticket),
    ensures
        ({
            let after = worked(m, run, steps_left(work));
            &&& after.stop is None
            &&& after.ends.len() == m.ends.len() + 1
            &&& after.ends.last().work.ticket == work.ticket
            &&& after.outcomes.contains_key(work.ticket)
            &&& after.outcomes[work.ticket] == stop_concluded(
                after.ends.last().work.unresolved->0,
                run,
            ).0
        }),
    decreases steps_left(work),
{
    let next = vm_after(m, VmEvent::StopWorks(run));
    lemma_work_keeps_order(m, run);
    let left = steps_left(work);
    match next_step(work) {
        StopStep::AwaitStart(_) => {
            law_stop_comes_to_its_end(next, next.stop->0, run);
        },
        StopStep::ReadUnresolved => {
            law_stop_comes_to_its_end(next, next.stop->0, run);
        },
        StopStep::AwaitAdd(ticket) => {
            assert(work.block_adds.contains(ticket));
            law_stop_comes_to_its_end(next, next.stop->0, run);
        },
        _ => {
            assert(left == 1);
            assert(worked(next, run, 0) == next);
        },
    }
    assert(worked(m, run, left) == worked(next, run, (left - 1) as nat));
}

} // verus!
