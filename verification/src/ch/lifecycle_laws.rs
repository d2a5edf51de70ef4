//! Who begins a piece of work on a virtual machine, what it waits for, and what comes of it.
use crate::ch::lifecycle::{
    add_admitted, add_finished, add_seen, add_worker_lost, device_forgotten, start_admitted,
    start_concluded, start_finished, start_refused, stop_admitted, stop_concluded, stop_finished,
    stop_step, Admission, BlockAddOutcome, CleanupRun, IdentityModel, LifecycleModel,
    StartAdmission, StartRun, StopRun, StopStep,
};
use crate::error::{device_in_doubt, error_text, lemma_first_layer, ErrorModel, LayerModel};
use crate::error_laws::law_first_layer_of_a_kind_counts;
use vstd::prelude::*;

verus! {

/// A stop puts an end to the virtual machine only after the start that was going on has ended, an
/// earlier cleanup was looked up, and every block device that was being added has its outcome. The
/// processes are terminated exactly where an earlier cleanup is unresolved.
pub proof fn law_stop_waits_for_all_before_it(
    active_start: Option<u64>,
    block_adds: Seq<u64>,
    start_done: bool,
    unresolved: Option<bool>,
    adds_done: int,
)
    requires
        0 <= adds_done <= block_adds.len(),
    ensures
        ({
            let step = stop_step(active_start, block_adds, start_done, unresolved, adds_done);
            let started = active_start is None || start_done;
            &&& step matches StopStep::AwaitStart(ticket) ==> !started && active_start == Some(
                ticket,
            )
            &&& step == StopStep::ReadUnresolved ==> started && unresolved is None
            &&& step matches StopStep::AwaitAdd(ticket) ==> started && unresolved is Some
                && adds_done < block_adds.len() && block_adds[adds_done] == ticket
            &&& step == StopStep::Terminate <==> started && unresolved == Some(true) && adds_done
                == block_adds.len()
            &&& step == StopStep::Shutdown <==> started && unresolved == Some(false) && adds_done
                == block_adds.len()
        }),
{
}

/// A stop has succeeded exactly where the virtual machine was stopped and nothing of it is left. Block
/// devices can be added afterwards exactly where it still runs.
pub proof fn law_stop_succeeds_when_nothing_is_left(unresolved: Option<ErrorModel>, run: StopRun)
    ensures
        match run {
            StopRun::Ran { result, resources_remain, running } => {
                &&& stop_concluded(unresolved, run).0 is Ok <==> result is Ok && !resources_remain
                &&& stop_concluded(unresolved, run).1 == running
                &&& result matches Err(error) ==> (unresolved is None ==> stop_concluded(
                    unresolved,
                    run,
                ).0 == Err::<(), ErrorModel>(error.deep_view()))
            },
            StopRun::Panicked => stop_concluded(unresolved, run).0 is Err && !stop_concluded(
                unresolved,
                run,
            ).1,
        },
{
}

/// A start has succeeded exactly where it ran and says so. Its processes may be there all the same
/// exactly where it failed with some left, or went away and they could not be cleaned.
pub proof fn law_start_succeeds_when_it_ran(run: StartRun)
    ensures
        start_concluded(run).0 is Ok <==> (run matches StartRun::Ran { result: Ok(_), .. }),
        start_concluded(run).1 <==> match run {
            StartRun::AlreadyRunning => false,
            StartRun::Ran { result, resources_active } => result is Err && resources_active,
            StartRun::Panicked(CleanupRun::Ran(Ok(_))) => false,
            StartRun::Panicked(_) => true,
        },
        run matches StartRun::Ran { result: Err(error), .. } ==> start_concluded(run).0 == Err::<
            (),
            ErrorModel,
        >(error.deep_view()),
{
}

/// The first request for a piece of work begins it under a ticket that nobody has, and every request
/// after that joins it.
pub proof fn law_first_request_begins_and_others_join(s: LifecycleModel, identity: IdentityModel)
    requires
        s.next_ticket < u64::MAX,
    ensures
        s.start is None && s.stop is None && s.cleanup_unresolved is None ==> {
            let (after, admission) = start_admitted(s);
            &&& admission == Ok::<StartAdmission, ErrorModel>(
                StartAdmission::Begin(s.next_ticket),
            )
            &&& after.start == Some(s.next_ticket)
            &&& after.next_ticket == s.next_ticket + 1
            &&& after.admission_open == s.admission_open && after.operations == s.operations
            &&& start_admitted(after) == (
                after,
                Ok::<StartAdmission, ErrorModel>(StartAdmission::Join(s.next_ticket)),
            )
        },
        s.stop is None ==> {
            let (after, admission) = stop_admitted(s);
            &&& admission == Admission::Begin(s.next_ticket)
            &&& after.stop == Some(s.next_ticket)
            &&& !after.admission_open
            &&& after.next_ticket == s.next_ticket + 1
            &&& after.operations == s.operations && after.start == s.start
            &&& stop_admitted(after) == (after, Admission::Join(s.next_ticket))
        },
        s.admission_open && !s.operations.contains_key(identity.device_id) ==> {
            let (after, admission) = add_admitted(s, identity);
            &&& admission == Ok::<Admission, ErrorModel>(Admission::Begin(s.next_ticket))
            &&& after.operations.contains_key(identity.device_id)
            &&& after.operations[identity.device_id].ticket == s.next_ticket
            &&& after.operations[identity.device_id].identity == identity
            &&& !after.operations[identity.device_id].finished
            &&& after.next_ticket == s.next_ticket + 1
            &&& after.operations.remove(identity.device_id) =~= s.operations
        },
{
}

/// A start that succeeded opens the admission of block devices, unless a stop has begun, and forgets
/// the additions that have their outcome; those that do not are kept. One that failed leaves the
/// admission as it was, unless its processes may be there: then nothing can be added or started.
pub proof fn law_start_opens_the_admission(
    s: LifecycleModel,
    ticket: u64,
    error: ErrorModel,
    id: Seq<char>,
)
    requires
        s.start == Some(ticket),
    ensures
        ({
            let after = start_finished(s, ticket, Ok(()), false);
            &&& after.start is None
            &&& s.stop is None ==> after.admission_open
            &&& s.stop is Some && !s.admission_open ==> !after.admission_open
            &&& after.cleanup_unresolved is None
            &&& after.operations.contains_key(id) <==> s.operations.contains_key(id)
                && !s.operations[id].finished
            &&& after.operations.contains_key(id) ==> after.operations[id] == s.operations[id]
        }),
        ({
            let after = start_finished(s, ticket, Err(error), true);
            &&& after.start is None
            &&& !after.admission_open
            &&& after.cleanup_unresolved == Some(error)
            &&& start_admitted(after).1 is Err
        }),
        start_finished(s, ticket, Err(error), false) == (LifecycleModel { start: None, ..s }),
        forall|other: u64, result: Result<(), ErrorModel>, unresolved: bool|
            other != ticket ==> #[trigger] start_finished(s, other, result, unresolved) == s,
{
}

/// A stop that failed can be tried again. Where the virtual machine still runs, block devices can be
/// added again; where it does not, the failure stands in the way of a start.
pub proof fn law_failed_stop_reopens_what_still_runs(
    s: LifecycleModel,
    ticket: u64,
    error: ErrorModel,
    running: bool,
)
    requires
        s.stop == Some(ticket),
    ensures
        ({
            let after = stop_finished(s, ticket, Err(error), running);
            &&& after.stop is None
            &&& after.admission_open == running
            &&& running ==> after.cleanup_unresolved is None
            &&& !running ==> after.cleanup_unresolved == Some(error)
            &&& after.operations == s.operations
        }),
        ({
            let after = stop_finished(s, ticket, Ok(()), running);
            &&& after.stop == Some(ticket)
            &&& !after.admission_open
            &&& after.cleanup_unresolved is None
            &&& after.operations =~= Map::empty()
        }),
        forall|other: u64, result: Result<(), ErrorModel>|
            other != ticket ==> #[trigger] stop_finished(s, other, result, running) == s,
{
}

/// The outcome of an addition concerns that addition alone: another device, or another request for
/// the same device, is not touched by it.
pub proof fn law_outcome_of_an_addition_is_its_own(
    s: LifecycleModel,
    id: Seq<char>,
    ticket: u64,
    other: Seq<char>,
    in_doubt: bool,
)
    requires
        s.operations.contains_key(id),
    ensures
        s.operations[id].ticket == ticket ==> add_finished(s, id, ticket).operations[id].finished,
        s.operations[id].ticket == ticket ==> (add_seen(
            s,
            id,
            ticket,
            in_doubt,
        ).operations.contains_key(id) <==> in_doubt),
        s.operations[id].ticket != ticket ==> add_finished(s, id, ticket) == s && add_seen(
            s,
            id,
            ticket,
            in_doubt,
        ) == s,
        !device_forgotten(s, id).operations.contains_key(id),
        other != id ==> {
            &&& add_finished(s, id, ticket).operations.contains_key(other)
                == s.operations.contains_key(other)
            &&& add_seen(s, id, ticket, in_doubt).operations.contains_key(other)
                == s.operations.contains_key(other)
            &&& device_forgotten(s, id).operations.contains_key(other)
                == s.operations.contains_key(other)
            &&& s.operations.contains_key(other) ==> add_finished(s, id, ticket).operations[other]
                == s.operations[other]
        },
{
}

/// A start after a stop is refused, with the failure of the stop where it failed.
pub proof fn law_start_after_a_stop_is_refused(error: ErrorModel)
    ensures
        start_refused(Ok(())).len() == 1,
        start_refused(Err(error)).len() == error.len() + 2,
        forall|i: int| 0 <= i < error.len() ==> start_refused(Err(error))[i + 2] == error[i],
        start_refused(Err(error))[1] == LayerModel::Shared(error_text(error)),
{
}

/// A device whose addition was lost is in doubt, and so is one whose addition failed with a doubt; one
/// that was added is not.
pub proof fn law_lost_addition_is_in_doubt(id: Seq<char>, outcome: BlockAddOutcome)
    ensures
        device_in_doubt(add_worker_lost(id)) == Some(id),
        outcome is Success ==> !outcome.in_doubt(),
        outcome matches BlockAddOutcome::Failure(error) ==> (outcome.in_doubt() <==> device_in_doubt(
            error.deep_view(),
        ) is Some),
{
    let doubt = |l: LayerModel| l is InDoubt;
    lemma_first_layer(add_worker_lost(id), doubt);
    assert(doubt(add_worker_lost(id)[0]));
    if let BlockAddOutcome::Failure(error) = outcome {
        law_first_layer_of_a_kind_counts(error.deep_view());
    }
}

} // verus!
