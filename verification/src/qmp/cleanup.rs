//! Removing block devices from QEMU, and finding out what a lost reply left behind.
use crate::block_device::BlockCleanupState;
use crate::error::{error_text, message, Error, ErrorModel};
use crate::qmp::fdset::{collect_block_fdsets, collected, ids_or_none};
use crate::qmp::session::{
    backend_found, cleanup_error, cleanup_state_error, contains_name, decode_done, decode_fdsets,
    done_in, elapsed, elapsed_in, fdsets_in, flow, frontend_found, reconnected, refreshed_recovering, remaining_time,
    taken, time_left, with_fdsets,
    Flow, Qmp, QmpModel, Step,
};
use crate::qmp::wire::{
    CommandModel, FailureKind, FailureModel, FdsetInfo, QmpCommand, QmpError, QmpReply,
};
use crate::text::{cat2, cat3, cat4, dec, dec_i64, dec_u64, join, joined, pad, zero_padded};
use vstd::prelude::*;

verus! {

/// How often QEMU is asked whether a device is gone, in nanoseconds.
pub const POLL_INTERVAL: u64 = 100_000_000;

/// How long a reply is waited for outside of special operations, in nanoseconds.
pub const DEFAULT_READ_TIMEOUT: u64 = 250_000_000;

/// How long a device may take to go away, in milliseconds.
pub const DEVICE_DELETED_TIMEOUT: u32 = 10_000;

/// A span of time in the shortest unit that shows it: seconds, or milliseconds below one second.
pub open spec fn span_text(millis: int) -> Seq<char> {
    let seconds = millis / 1000;
    let rest = millis % 1000;
    if millis == 0 {
        "0ns"@
    } else if seconds == 0 {
        dec(millis) + "ms"@
    } else if rest == 0 {
        dec(seconds) + "s"@
    } else if rest % 100 == 0 {
        dec(seconds) + "."@ + dec(rest / 100) + "s"@
    } else if rest % 10 == 0 {
        dec(seconds) + "."@ + zero_padded(dec(rest / 10), 2) + "s"@
    } else {
        dec(seconds) + "."@ + zero_padded(dec(rest), 3) + "s"@
    }
}

/// A span of time as text.
pub fn span(millis: u32) -> (r: String)
    ensures
        r@ == span_text(millis as int),
{
    let seconds: u64 = (millis / 1000) as u64;
    let rest: u64 = (millis % 1000) as u64;
    if millis == 0 {
        "0ns".to_owned()
    } else if seconds == 0 {
        cat2(dec_u64(millis as u64).as_str(), "ms")
    } else if rest == 0 {
        cat2(dec_u64(seconds).as_str(), "s")
    } else if rest % 100 == 0 {
        cat4(dec_u64(seconds).as_str(), ".", dec_u64(rest / 100).as_str(), "s")
    } else if rest % 10 == 0 {
        cat4(dec_u64(seconds).as_str(), ".", pad(dec_u64(rest / 10), 2).as_str(), "s")
    } else {
        cat4(dec_u64(seconds).as_str(), ".", pad(dec_u64(rest), 3).as_str(), "s")
    }
}

/// A list of ids as text.
pub open spec fn ids_text(ids: Seq<i64>) -> Seq<char> {
    "["@ + joined(ids.map_values(|id: i64| dec(id as int)), ", "@) + "]"@
}

fn ids_to_text(ids: &Vec<i64>) -> (r: String)
    ensures
        r@ == ids_text(ids@),
{
    let mut parts: Vec<String> = Vec::new();
    let mut i: usize = 0;
    while i < ids.len()
        invariant
            0 <= i <= ids@.len(),
            parts@.len() == i,
            forall|j: int| 0 <= j < i ==> (#[trigger] parts@[j])@ == dec(ids@[j] as int),
        decreases ids@.len() - i,
    {
        parts.push(dec_i64(ids[i]));
        i = i + 1;
    }
    assert(parts.deep_view() =~= ids@.map_values(|id: i64| dec(id as int)));
    cat3("[", join(&parts, ", ").as_str(), "]")
}

/// A list in ascending order with `id` put in its place, unless it is there.
pub open spec fn placed(sorted: Seq<i64>, id: i64) -> Seq<i64>
    decreases sorted.len(),
{
    if sorted.len() == 0 {
        seq![id]
    } else if id < sorted[0] {
        seq![id] + sorted
    } else if id == sorted[0] {
        sorted
    } else {
        seq![sorted[0]] + placed(sorted.drop_first(), id)
    }
}

/// The ids of a list in ascending order, each once.
pub open spec fn ascending(ids: Seq<i64>) -> Seq<i64>
    decreases ids.len(),
{
    if ids.len() == 0 {
        seq![]
    } else {
        placed(ascending(ids.drop_last()), ids.last())
    }
}

/// Whether every id of a list is larger than the one before it.
pub open spec fn strictly_ascending(ids: Seq<i64>) -> bool {
    forall|i: int, j: int| 0 <= i < j < ids.len() ==> ids[i] < ids[j]
}

proof fn lemma_placed(sorted: Seq<i64>, id: i64)
    requires
        strictly_ascending(sorted),
    ensures
        strictly_ascending(placed(sorted, id)),
        forall|x: i64| #[trigger] placed(sorted, id).contains(x) <==> x == id || sorted.contains(x),
    decreases sorted.len(),
{
    let r = placed(sorted, id);
    if sorted.len() == 0 {
        assert(r[0] == id);
    } else if id < sorted[0] {
        assert(r[0] == id);
        assert forall|x: i64| r.contains(x) <==> x == id || sorted.contains(x) by {
            if sorted.contains(x) {
                let k = choose|k: int| 0 <= k < sorted.len() && sorted[k] == x;
                assert(r[k + 1] == x);
            }
        }
    } else if id > sorted[0] {
        let tail = sorted.drop_first();
        assert(strictly_ascending(tail));
        lemma_placed(tail, id);
        let rest = placed(tail, id);
        assert forall|i: int, j: int| 0 <= i < j < r.len() implies r[i] < r[j] by {
            let y = rest[j - 1];
            assert(r[j] == y);
            assert(rest.contains(y));
            if i == 0 {
                if y != id {
                    assert(tail.contains(y));
                    let k = choose|k: int| 0 <= k < tail.len() && tail[k] == y;
                    assert(sorted[0] < sorted[k + 1]);
                }
            } else {
                assert(r[i] == rest[i - 1]);
            }
        }
        assert forall|x: i64| r.contains(x) <==> x == id || sorted.contains(x) by {
            if r.contains(x) {
                let k = choose|k: int| 0 <= k < r.len() && r[k] == x;
                if k > 0 {
                    assert(rest[k - 1] == x);
                    assert(rest.contains(x));
                    if tail.contains(x) {
                        let m = choose|m: int| 0 <= m < tail.len() && tail[m] == x;
                        assert(sorted[m + 1] == x);
                    }
                } else {
                    assert(sorted[0] == x);
                }
            }
            if x == id {
                assert(rest.contains(x));
                let k = choose|k: int| 0 <= k < rest.len() && rest[k] == x;
                assert(r[k + 1] == x);
            }
            if sorted.contains(x) {
                let m = choose|m: int| 0 <= m < sorted.len() && sorted[m] == x;
                if m > 0 {
                    assert(tail[m - 1] == x);
                    assert(rest.contains(x));
                    let k = choose|k: int| 0 <= k < rest.len() && rest[k] == x;
                    assert(r[k + 1] == x);
                } else {
                    assert(r[0] == x);
                }
            }
        }
    }
}

/// Putting ids in order keeps each of them, once, and adds none.
pub proof fn law_ascending(ids: Seq<i64>)
    ensures
        strictly_ascending(ascending(ids)),
        forall|x: i64| #[trigger] ascending(ids).contains(x) <==> ids.contains(x),
    decreases ids.len(),
{
    if ids.len() > 0 {
        law_ascending(ids.drop_last());
        lemma_placed(ascending(ids.drop_last()), ids.last());
        assert forall|x: i64| ascending(ids).contains(x) <==> ids.contains(x) by {
            if ids.contains(x) {
                let k = choose|k: int| 0 <= k < ids.len() && ids[k] == x;
                if k < ids.len() - 1 {
                    assert(ids.drop_last()[k] == x);
                }
            }
            if ids.drop_last().contains(x) {
                let k = choose|k: int| 0 <= k < ids.drop_last().len() && ids.drop_last()[k] == x;
                assert(ids[k] == x);
            }
            assert(ids[ids.len() - 1] == ids.last());
        }
    }
}

fn place(sorted: &Vec<i64>, id: i64) -> (r: Vec<i64>)
    ensures
        r@ == placed(sorted@, id),
{
    let mut r: Vec<i64> = Vec::new();
    let mut i: usize = 0;
    assert(sorted@.skip(0) =~= sorted@);
    while i < sorted.len() && sorted[i] < id
        invariant
            0 <= i <= sorted@.len(),
            r@ =~= sorted@.take(i as int),
            placed(sorted@, id) =~= sorted@.take(i as int) + placed(sorted@.skip(i as int), id),
        decreases sorted@.len() - i,
    {
        proof {
            let rest = sorted@.skip(i as int);
            assert(rest[0] == sorted@[i as int]);
            assert(rest.drop_first() =~= sorted@.skip(i + 1));
            assert(placed(rest, id) == seq![rest[0]] + placed(rest.drop_first(), id));
        }
        r.push(sorted[i]);
        i = i + 1;
    }
    let ghost rest = sorted@.skip(i as int);
    if i >= sorted.len() || sorted[i] != id {
        r.push(id);
        assert(i < sorted@.len() ==> placed(rest, id) == seq![id] + rest);
    } else {
        assert(placed(rest, id) == rest);
    }
    let ghost head = r@;
    let from: usize = i;
    while i < sorted.len()
        invariant
            from <= i <= sorted@.len(),
            r@ =~= head + sorted@.subrange(from as int, i as int),
        decreases sorted@.len() - i,
    {
        r.push(sorted[i]);
        i = i + 1;
    }
    assert(r@ =~= placed(sorted@, id));
    r
}

/// The ids of a list in ascending order, each once.
pub fn in_ascending_order(ids: &Vec<i64>) -> (r: Vec<i64>)
    ensures
        r@ == ascending(ids@),
{
    let mut r: Vec<i64> = Vec::new();
    let mut i: usize = 0;
    while i < ids.len()
        invariant
            0 <= i <= ids@.len(),
            r@ == ascending(ids@.take(i as int)),
        decreases ids@.len() - i,
    {
        proof {
            assert(ids@.take(i + 1).drop_last() =~= ids@.take(i as int));
            assert(ids@.take(i + 1).last() == ids@[i as int]);
        }
        r = place(&r, ids[i]);
        i = i + 1;
    }
    assert(ids@.take(i as int) =~= ids@);
    r
}

/// Whether an fdset of that id is listed.
pub open spec fn fdset_listed(fdsets: Seq<FdsetInfo>, fdset_id: i64) -> bool {
    exists|i: int| 0 <= i < fdsets.len() && (#[trigger] fdsets[i]).fdset_id == fdset_id
}

fn lists_fdset(fdsets: &Vec<FdsetInfo>, fdset_id: i64) -> (r: bool)
    ensures
        r == fdset_listed(fdsets@, fdset_id),
{
    let mut i: usize = 0;
    while i < fdsets.len()
        invariant
            0 <= i <= fdsets@.len(),
            forall|j: int| 0 <= j < i ==> (#[trigger] fdsets@[j]).fdset_id != fdset_id,
        decreases fdsets@.len() - i,
    {
        if fdsets[i].fdset_id == fdset_id {
            return true;
        }
        i = i + 1;
    }
    false
}

/// Removing one fdset: whether QEMU confirms afterwards that it is gone.
///
/// A lost reply is followed by a new connection. Only a list without the fdset counts, not the
/// reply to the removal.
pub open spec fn fdset_removed(q: QmpModel, fdset_id: i64) -> Step<bool> {
    if q.replies.len() == 0 {
        (q, Flow::Waiting(CommandModel::RemoveFd(fdset_id)))
    } else {
        let lost = done_in(q.replies[0]) matches Err(failure) && failure.kind == FailureKind::Io;
        if lost {
            match reconnected(taken(q)) {
                (q1, Flow::Waiting(command)) => (q1, Flow::Waiting(command)),
                (q1, Flow::Done(Err(_))) => (q1, Flow::Done(Ok(false))),
                (q1, Flow::Done(Ok(_))) => fdset_gone(q1, fdset_id),
            }
        } else {
            fdset_gone(taken(q), fdset_id)
        }
    }
}

/// Whether QEMU lists its fdsets without that one.
pub open spec fn fdset_gone(q: QmpModel, fdset_id: i64) -> Step<bool> {
    if q.replies.len() == 0 {
        (q, Flow::Waiting(CommandModel::QueryFdsets))
    } else {
        match fdsets_in(q.replies[0]) {
            Ok(fdsets) => (
                with_fdsets(taken(q), collected(fdsets)),
                Flow::Done(Ok(!fdset_listed(fdsets, fdset_id))),
            ),
            Err(_) => (taken(q), Flow::Done(Ok(false))),
        }
    }
}

/// Removing several fdsets, one after the other: `failed` and those that QEMU does not confirm
/// as gone.
pub open spec fn fdsets_removed(q: QmpModel, ids: Seq<i64>, failed: Seq<i64>) -> Step<Seq<i64>>
    decreases ids.len(),
{
    if ids.len() == 0 {
        (q, Flow::Done(Ok(failed)))
    } else {
        match fdset_removed(q, ids[0]) {
            (q1, Flow::Waiting(command)) => (q1, Flow::Waiting(command)),
            (q1, Flow::Done(Err(error))) => (q1, Flow::Done(Err(error))),
            (q1, Flow::Done(Ok(gone))) => fdsets_removed(
                q1,
                ids.drop_first(),
                if gone {
                    failed
                } else {
                    failed.push(ids[0])
                },
            ),
        }
    }
}

/// The ids that are known of a block device.
pub open spec fn known_ids(q: QmpModel, node_name: Seq<char>) -> Seq<i64> {
    if q.block_fdsets.contains_key(node_name) {
        q.block_fdsets[node_name]
    } else {
        seq![]
    }
}

/// Removing the fdsets of a block device. Those that could not be removed stay known.
pub open spec fn fdset_ids_removed(q: QmpModel, node_name: Seq<char>, ids: Seq<i64>) -> Step<()> {
    match fdsets_removed(q, ids, seq![]) {
        (q1, Flow::Waiting(command)) => (q1, Flow::Waiting(command)),
        (q1, Flow::Done(Err(error))) => (q1, Flow::Done(Err(error))),
        (q1, Flow::Done(Ok(failed))) => if failed.len() == 0 {
            (q1, Flow::Done(Ok(())))
        } else {
            (
                with_fdsets(
                    q1,
                    q1.block_fdsets.insert(node_name, ascending(known_ids(q1, node_name) + failed)),
                ),
                Flow::Done(
                    Err(
                        message(
                            "failed to remove QEMU fdsets "@ + ids_text(failed) + " for "@
                                + node_name,
                        ),
                    ),
                ),
            )
        },
    }
}

/// Removing the fdsets that are known of a block device.
pub open spec fn block_fdsets_removed(q: QmpModel, node_name: Seq<char>) -> Step<()> {
    if q.block_fdsets.contains_key(node_name) {
        fdset_ids_removed(
            with_fdsets(q, q.block_fdsets.remove(node_name)),
            node_name,
            q.block_fdsets[node_name],
        )
    } else {
        (q, Flow::Done(Ok(())))
    }
}

/// What a poll for events says.
pub open spec fn deleted_in(reply: QmpReply) -> Result<Seq<Seq<char>>, FailureModel> {
    match reply {
        QmpReply::Deleted(devices) => Ok(devices.deep_view()),
        QmpReply::Failed(error) => Err(error.deep_view()),
        _ => Err(crate::qmp::wire::unexpected_reply()),
    }
}

pub open spec fn min_nanos(a: u64, b: u64) -> u64 {
    if a <= b {
        a
    } else {
        b
    }
}

pub open spec fn timed_out(device_id: Seq<char>, millis: int) -> ErrorModel {
    message(
        "timed out ("@ + span_text(millis) + ") waiting for DEVICE_DELETED event for "@ + device_id,
    )
}

pub open spec fn poll_failed(device_id: Seq<char>, poll: Seq<char>) -> Seq<char> {
    "QMP deletion poll failed for "@ + device_id + ": "@ + poll
}

/// One round of waiting for a device to go away: `Some` with the result, or `None` where another
/// round is due.
pub open spec fn deletion_round(
    q: QmpModel,
    device_id: Seq<char>,
    start: u64,
    millis: u32,
) -> Step<Option<Result<(), ErrorModel>>> {
    let limit = (millis * 1_000_000) as u64;
    if q.replies.len() == 0 {
        (q, Flow::Waiting(CommandModel::Clock))
    } else {
        let q1 = taken(q);
        match time_left(start, elapsed_in(q.replies[0]), limit) {
            None => (q1, Flow::Done(Ok(Some(Err(timed_out(device_id, millis as int)))))),
            Some(left) => if q1.replies.len() == 0 {
                (q1, Flow::Waiting(CommandModel::SetReadTimeout(min_nanos(POLL_INTERVAL, left) as int)))
            } else {
                let q2 = taken(q1);
                match done_in(q1.replies[0]) {
                    Err(failure) => (q2, Flow::Done(Ok(Some(Err(message(failure.text)))))),
                    Ok(_) => if q2.replies.len() == 0 {
                        (q2, Flow::Waiting(CommandModel::Poll))
                    } else {
                        match deleted_in(q2.replies[0]) {
                            Err(failure) => deletion_checked(
                                taken(q2),
                                device_id,
                                start,
                                millis,
                                failure.text,
                            ),
                            Ok(devices) => if devices.contains(device_id) {
                                (taken(q2), Flow::Done(Ok(Some(Ok(())))))
                            } else {
                                deletion_paused(taken(q2), device_id, start, millis)
                            },
                        }
                    },
                }
            },
        }
    }
}

/// After a poll whose reply was lost: a new connection, and a look at the peripherals.
pub open spec fn deletion_checked(
    q: QmpModel,
    device_id: Seq<char>,
    start: u64,
    millis: u32,
    poll: Seq<char>,
) -> Step<Option<Result<(), ErrorModel>>> {
    let limit = (millis * 1_000_000) as u64;
    match reconnected(q) {
        (q1, Flow::Waiting(command)) => (q1, Flow::Waiting(command)),
        (q1, Flow::Done(Err(error))) => (
            q1,
            Flow::Done(
                Ok(
                    Some(
                        Err(
                            message(
                                poll_failed(device_id, poll) + "; QMP reconnection failed: "@
                                    + error_text(error),
                            ),
                        ),
                    ),
                ),
            ),
        ),
        (q1, Flow::Done(Ok(_))) => if q1.replies.len() == 0 {
            (q1, Flow::Waiting(CommandModel::Clock))
        } else {
            let q2 = taken(q1);
            match time_left(start, elapsed_in(q1.replies[0]), limit) {
                None => (q2, Flow::Done(Ok(Some(Err(timed_out(device_id, millis as int)))))),
                Some(left) => if q2.replies.len() == 0 {
                    (q2, Flow::Waiting(CommandModel::SetReadTimeout(left as int)))
                } else {
                    match done_in(q2.replies[0]) {
                        Err(failure) => (
                            taken(q2),
                            Flow::Done(Ok(Some(Err(message(failure.text))))),
                        ),
                        Ok(_) => match frontend_found(taken(q2), device_id) {
                            (q3, Flow::Waiting(command)) => (q3, Flow::Waiting(command)),
                            (q3, Flow::Done(Ok(true))) => (q3, Flow::Done(Ok(None))),
                            (q3, Flow::Done(Ok(false))) => (q3, Flow::Done(Ok(Some(Ok(()))))),
                            (q3, Flow::Done(Err(error))) => (
                                q3,
                                Flow::Done(
                                    Ok(
                                        Some(
                                            Err(
                                                message(
                                                    poll_failed(device_id, poll)
                                                        + "; failed to verify frontend state after reconnection: "@
                                                        + error_text(error),
                                                ),
                                            ),
                                        ),
                                    ),
                                ),
                            ),
                        },
                    }
                },
            }
        },
    }
}

/// After a poll that did not report the device: a pause, where time is left.
pub open spec fn deletion_paused(
    q: QmpModel,
    device_id: Seq<char>,
    start: u64,
    millis: u32,
) -> Step<Option<Result<(), ErrorModel>>> {
    let limit = (millis * 1_000_000) as u64;
    if q.replies.len() == 0 {
        (q, Flow::Waiting(CommandModel::Clock))
    } else {
        let q1 = taken(q);
        match time_left(start, elapsed_in(q.replies[0]), limit) {
            None => (q1, Flow::Done(Ok(Some(Err(timed_out(device_id, millis as int)))))),
            Some(left) => if q1.replies.len() == 0 {
                (q1, Flow::Waiting(CommandModel::Sleep(min_nanos(POLL_INTERVAL, left) as int)))
            } else {
                (taken(q1), Flow::Done(Ok(None)))
            },
        }
    }
}

/// Rounds of waiting for a device to go away, until one has a result.
pub open spec fn deletion_polled(
    q: QmpModel,
    device_id: Seq<char>,
    start: u64,
    millis: u32,
) -> Step<Result<(), ErrorModel>>
    decreases q.replies.len(),
{
    match deletion_round(q, device_id, start, millis) {
        (q1, Flow::Waiting(command)) => (q1, Flow::Waiting(command)),
        (q1, Flow::Done(Err(error))) => (q1, Flow::Done(Err(error))),
        (q1, Flow::Done(Ok(Some(result)))) => (q1, Flow::Done(Ok(result))),
        (q1, Flow::Done(Ok(None))) => {
            proof {
                lemma_round_takes_replies(q, device_id, start, millis);
            }
            deletion_polled(q1, device_id, start, millis)
        },
    }
}

/// A round that comes to its end has looked at a reply.
pub proof fn lemma_round_takes_replies(q: QmpModel, device_id: Seq<char>, start: u64, millis: u32)
    ensures
        deletion_round(q, device_id, start, millis).1 is Done ==> deletion_round(
            q,
            device_id,
            start,
            millis,
        ).0.replies.len() < q.replies.len(),
{
}

/// Waiting for QEMU to report that a device is gone, with the usual bound on replies restored
/// afterwards.
pub open spec fn deletion_awaited(q: QmpModel, device_id: Seq<char>, millis: u32) -> Step<()> {
    if q.replies.len() == 0 {
        (q, Flow::Waiting(CommandModel::Clock))
    } else {
        match deletion_polled(taken(q), device_id, elapsed_in(q.replies[0]), millis) {
            (q1, Flow::Waiting(command)) => (q1, Flow::Waiting(command)),
            (q1, Flow::Done(Err(error))) => (q1, Flow::Done(Err(error))),
            (q1, Flow::Done(Ok(result))) => if q1.replies.len() == 0 {
                (q1, Flow::Waiting(CommandModel::SetReadTimeout(DEFAULT_READ_TIMEOUT as int)))
            } else {
                (taken(q1), Flow::Done(result))
            },
        }
    }
}

/// A cleanup that found out that part of a device is still there, or could not find out.
pub open spec fn stuck<T>(
    q: QmpModel,
    node_name: Seq<char>,
    details: Seq<char>,
    state: BlockCleanupState,
) -> Step<T> {
    (q, Flow::Done(Err(cleanup_error(node_name, details, state))))
}

/// Finding out whether the frontend is gone after the failure `cause`.
pub open spec fn frontend_checked(
    q: QmpModel,
    node_name: Seq<char>,
    state: BlockCleanupState,
    cause: Seq<char>,
    unverified: Seq<char>,
) -> Step<BlockCleanupState> {
    match frontend_found(q, node_name) {
        (q1, Flow::Waiting(command)) => (q1, Flow::Waiting(command)),
        (q1, Flow::Done(Ok(false))) => (
            q1,
            Flow::Done(Ok(BlockCleanupState { frontend: false, ..state })),
        ),
        (q1, Flow::Done(Ok(true))) => stuck(q1, node_name, cause, state),
        (q1, Flow::Done(Err(error))) => stuck(
            q1,
            node_name,
            cause + unverified + error_text(error),
            state,
        ),
    }
}

/// The first part of a cleanup: the frontend is removed, where it may be there.
///
/// It counts as removed when QEMU reports its deletion, does not know it, or lists the
/// peripherals without it.
pub open spec fn frontend_cleaned(
    q: QmpModel,
    node_name: Seq<char>,
    state: BlockCleanupState,
    millis: u32,
) -> Step<BlockCleanupState> {
    if !state.frontend {
        (q, Flow::Done(Ok(state)))
    } else if q.replies.len() == 0 {
        (q, Flow::Waiting(CommandModel::DeviceDel(node_name)))
    } else {
        match done_in(q.replies[0]) {
            Ok(_) => match deletion_awaited(taken(q), node_name, millis) {
                (q1, Flow::Waiting(command)) => (q1, Flow::Waiting(command)),
                (q1, Flow::Done(Ok(_))) => (
                    q1,
                    Flow::Done(Ok(BlockCleanupState { frontend: false, ..state })),
                ),
                (q1, Flow::Done(Err(wait))) => match reconnected(q1) {
                    (q2, Flow::Waiting(command)) => (q2, Flow::Waiting(command)),
                    (q2, Flow::Done(Err(error))) => stuck(
                        q2,
                        node_name,
                        error_text(wait)
                            + "; QMP reconnection before frontend discovery failed: "@
                            + error_text(error),
                        state,
                    ),
                    (q2, Flow::Done(Ok(_))) => frontend_checked(
                        q2,
                        node_name,
                        state,
                        error_text(wait),
                        "; failed to verify frontend removal: "@,
                    ),
                },
            },
            Err(failure) => if failure.kind == FailureKind::DeviceNotFound {
                (taken(q), Flow::Done(Ok(BlockCleanupState { frontend: false, ..state })))
            } else if failure.kind == FailureKind::Io {
                match reconnected(taken(q)) {
                    (q1, Flow::Waiting(command)) => (q1, Flow::Waiting(command)),
                    (q1, Flow::Done(Err(error))) => stuck(
                        q1,
                        node_name,
                        failure.text + "; QMP reconnection before frontend discovery failed: "@
                            + error_text(error),
                        state,
                    ),
                    (q1, Flow::Done(Ok(_))) => frontend_checked(
                        q1,
                        node_name,
                        state,
                        failure.text,
                        "; failed to verify frontend state: "@,
                    ),
                }
            } else {
                frontend_checked(
                    taken(q),
                    node_name,
                    state,
                    failure.text,
                    "; failed to verify frontend state: "@,
                )
            },
        }
    }
}

/// Finding out whether the backend is gone after the failure `cause`.
pub open spec fn backend_checked(
    q: QmpModel,
    node_name: Seq<char>,
    state: BlockCleanupState,
    cause: Seq<char>,
) -> Step<BlockCleanupState> {
    match backend_found(q, node_name) {
        (q1, Flow::Waiting(command)) => (q1, Flow::Waiting(command)),
        (q1, Flow::Done(Ok(false))) => (
            q1,
            Flow::Done(Ok(BlockCleanupState { backend: false, ..state })),
        ),
        (q1, Flow::Done(Ok(true))) => stuck(q1, node_name, cause, state),
        (q1, Flow::Done(Err(error))) => stuck(
            q1,
            node_name,
            cause + "; failed to verify backend state: "@ + error_text(error),
            state,
        ),
    }
}

/// The second part of a cleanup: the backend is removed, where it may be there.
///
/// It counts as removed when QEMU removes it, does not know it, or lists the block nodes without
/// it.
pub open spec fn backend_cleaned(
    q: QmpModel,
    node_name: Seq<char>,
    state: BlockCleanupState,
) -> Step<BlockCleanupState> {
    if !state.backend {
        (q, Flow::Done(Ok(state)))
    } else if q.replies.len() == 0 {
        (q, Flow::Waiting(CommandModel::BlockdevDel(node_name)))
    } else {
        match done_in(q.replies[0]) {
            Ok(_) => (taken(q), Flow::Done(Ok(BlockCleanupState { backend: false, ..state }))),
            Err(failure) => if failure.kind == FailureKind::DeviceNotFound {
                (taken(q), Flow::Done(Ok(BlockCleanupState { backend: false, ..state })))
            } else if failure.kind == FailureKind::Io {
                match reconnected(taken(q)) {
                    (q1, Flow::Waiting(command)) => (q1, Flow::Waiting(command)),
                    (q1, Flow::Done(Err(error))) => stuck(
                        q1,
                        node_name,
                        failure.text + "; QMP reconnection before backend discovery failed: "@
                            + error_text(error),
                        state,
                    ),
                    (q1, Flow::Done(Ok(_))) => backend_checked(q1, node_name, state, failure.text),
                }
            } else {
                backend_checked(taken(q), node_name, state, failure.text)
            },
        }
    }
}

/// The last part of a cleanup: the fdsets are removed, where there may be some.
pub open spec fn fdsets_cleaned(
    q: QmpModel,
    node_name: Seq<char>,
    state: BlockCleanupState,
) -> Step<BlockCleanupState> {
    if !state.fdsets {
        (q, Flow::Done(Ok(state)))
    } else {
        match refreshed_recovering(q) {
            (q1, Flow::Waiting(command)) => (q1, Flow::Waiting(command)),
            (q1, Flow::Done(Err(error))) => stuck(q1, node_name, error_text(error), state),
            (q1, Flow::Done(Ok(_))) => match block_fdsets_removed(q1, node_name) {
                (q2, Flow::Waiting(command)) => (q2, Flow::Waiting(command)),
                (q2, Flow::Done(Err(error))) => stuck(
                    q2,
                    node_name,
                    error_text(error),
                    BlockCleanupState {
                        fdsets: q2.block_fdsets.contains_key(node_name),
                        ..state
                    },
                ),
                (q2, Flow::Done(Ok(_))) => (
                    q2,
                    Flow::Done(Ok(BlockCleanupState { fdsets: false, ..state })),
                ),
            },
        }
    }
}

/// Removing from QEMU what `state` says may be left of a block device: the frontend, then the
/// backend, then the fdsets, each only after what depends on it is gone.
pub open spec fn cleaned(
    q: QmpModel,
    node_name: Seq<char>,
    state: BlockCleanupState,
    millis: u32,
) -> Step<()> {
    let start = BlockCleanupState {
        fdsets: state.fdsets || q.block_fdsets.contains_key(node_name),
        ..state
    };
    match frontend_cleaned(q, node_name, start, millis) {
        (q1, Flow::Waiting(command)) => (q1, Flow::Waiting(command)),
        (q1, Flow::Done(Err(error))) => (q1, Flow::Done(Err(error))),
        (q1, Flow::Done(Ok(s1))) => match backend_cleaned(q1, node_name, s1) {
            (q2, Flow::Waiting(command)) => (q2, Flow::Waiting(command)),
            (q2, Flow::Done(Err(error))) => (q2, Flow::Done(Err(error))),
            (q2, Flow::Done(Ok(s2))) => match fdsets_cleaned(q2, node_name, s2) {
                (q3, Flow::Waiting(command)) => (q3, Flow::Waiting(command)),
                (q3, Flow::Done(Err(error))) => (q3, Flow::Done(Err(error))),
                (q3, Flow::Done(Ok(_))) => (q3, Flow::Done(Ok(()))),
            },
        },
    }
}

fn decode_deleted(reply: QmpReply) -> (r: Result<Vec<String>, QmpError>)
    ensures
        crate::qmp::session::exchange(r) == deleted_in(reply),
{
    match reply {
        QmpReply::Deleted(devices) => Ok(devices),
        QmpReply::Failed(error) => Err(error),
        _ => Err(QmpError::unexpected()),
    }
}

fn shorter(a: u64, b: u64) -> (r: u64)
    ensures
        r == min_nanos(a, b),
{
    if a <= b {
        a
    } else {
        b
    }
}

fn timeout_error(device_id: &str, millis: u32) -> (r: Error)
    ensures
        r.deep_view() == timed_out(device_id@, millis as int),
{
    Error::msg(
        cat4(
            "timed out (",
            span(millis).as_str(),
            ") waiting for DEVICE_DELETED event for ",
            device_id,
        ),
    )
}

fn poll_failure(device_id: &str, poll: &str) -> (r: String)
    ensures
        r@ == poll_failed(device_id@, poll@),
{
    cat4("QMP deletion poll failed for ", device_id, ": ", poll)
}

/// The result of a round of waiting, with its error as a model.
pub open spec fn round_flow(r: Result<Option<Result<(), Error>>, QmpCommand>) -> Flow<
    Option<Result<(), ErrorModel>>,
    CommandModel,
> {
    match r {
        Err(command) => Flow::Waiting(command.deep_view()),
        Ok(None) => Flow::Done(Ok(None)),
        Ok(Some(Ok(_))) => Flow::Done(Ok(Some(Ok(())))),
        Ok(Some(Err(error))) => Flow::Done(Ok(Some(Err(error.deep_view())))),
    }
}

impl Qmp {
    fn wait_round(&mut self, device_id: &str, start: u64, millis: u32) -> (r: Result<
        Option<Result<(), Error>>,
        QmpCommand,
    >)
        ensures
            (final(self)@, round_flow(r)) == deletion_round(old(self)@, device_id@, start, millis),
    {
        let limit: u64 = millis as u64 * 1_000_000;
        let now = elapsed(self.ask(QmpCommand::Clock)?);
        let left: u64 = match remaining_time(start, now, limit) {
            Some(left) => left,
            None => {
                return Ok(Some(Err(timeout_error(device_id, millis))));
            },
        };
        let reply = self.ask(QmpCommand::SetReadTimeout(shorter(POLL_INTERVAL, left)))?;
        if let Err(error) = decode_done(reply) {
            return Ok(Some(Err(Error::msg(error.text))));
        }
        let reply = self.ask(QmpCommand::Poll)?;
        match decode_deleted(reply) {
            Err(error) => self.wait_checked(device_id, start, millis, error.text.as_str()),
            Ok(devices) => if contains_name(&devices, device_id) {
                Ok(Some(Ok(())))
            } else {
                self.wait_paused(device_id, start, millis)
            },
        }
    }

    fn wait_checked(
        &mut self,
        device_id: &str,
        start: u64,
        millis: u32,
        poll: &str,
    ) -> (r: Result<Option<Result<(), Error>>, QmpCommand>)
        ensures
            (final(self)@, round_flow(r)) == deletion_checked(
                old(self)@,
                device_id@,
                start,
                millis,
                poll@,
            ),
    {
        let limit: u64 = millis as u64 * 1_000_000;
        if let Err(error) = self.reconnect()? {
            return Ok(
                Some(
                    Err(
                        Error::msg(
                            cat3(
                                poll_failure(device_id, poll).as_str(),
                                "; QMP reconnection failed: ",
                                error.text().as_str(),
                            ),
                        ),
                    ),
                ),
            );
        }
        let now = elapsed(self.ask(QmpCommand::Clock)?);
        let left: u64 = match remaining_time(start, now, limit) {
            Some(left) => left,
            None => {
                return Ok(Some(Err(timeout_error(device_id, millis))));
            },
        };
        let reply = self.ask(QmpCommand::SetReadTimeout(left))?;
        if let Err(error) = decode_done(reply) {
            return Ok(Some(Err(Error::msg(error.text))));
        }
        match self.frontend_exists(device_id)? {
            Ok(true) => Ok(None),
            Ok(false) => Ok(Some(Ok(()))),
            Err(error) => Ok(
                Some(
                    Err(
                        Error::msg(
                            cat3(
                                poll_failure(device_id, poll).as_str(),
                                "; failed to verify frontend state after reconnection: ",
                                error.text().as_str(),
                            ),
                        ),
                    ),
                ),
            ),
        }
    }

    fn wait_paused(&mut self, device_id: &str, start: u64, millis: u32) -> (r: Result<
        Option<Result<(), Error>>,
        QmpCommand,
    >)
        ensures
            (final(self)@, round_flow(r)) == deletion_paused(old(self)@, device_id@, start, millis),
    {
        let limit: u64 = millis as u64 * 1_000_000;
        let now = elapsed(self.ask(QmpCommand::Clock)?);
        match remaining_time(start, now, limit) {
            Some(left) => {
                let _ = self.ask(QmpCommand::Sleep(shorter(POLL_INTERVAL, left)))?;
                Ok(None)
            },
            None => Ok(Some(Err(timeout_error(device_id, millis)))),
        }
    }

    /// Waits for QEMU to report that a device is gone.
    pub fn wait_for_device_deleted(&mut self, device_id: &str, millis: u32) -> (r: Result<
        Result<(), Error>,
        QmpCommand,
    >)
        ensures
            (final(self)@, flow(r)) == deletion_awaited(old(self)@, device_id@, millis),
    {
        let start: u64 = elapsed(self.ask(QmpCommand::Clock)?);
        let ghost first = self@;
        let mut result: Option<Result<(), Error>> = None;
        while result.is_none()
            invariant
                old(self)@.replies.len() > 0,
                start == elapsed_in(old(self)@.replies[0]),
                first == taken(old(self)@),
                result is None ==> deletion_polled(first, device_id@, start, millis)
                    == deletion_polled(self@, device_id@, start, millis),
                result matches Some(Ok(_)) ==> deletion_polled(first, device_id@, start, millis)
                    == (self@, Flow::<Result<(), ErrorModel>, CommandModel>::Done(Ok(Ok(())))),
                result matches Some(Err(error)) ==> deletion_polled(
                    first,
                    device_id@,
                    start,
                    millis,
                ) == (
                    self@,
                    Flow::<Result<(), ErrorModel>, CommandModel>::Done(Ok(Err(error.deep_view()))),
                ),
            decreases self@.replies.len() + (if result is None { 1int } else { 0int }),
        {
            proof {
                lemma_round_takes_replies(self@, device_id@, start, millis);
            }
            result = self.wait_round(device_id, start, millis)?;
        }
        let _ = self.ask(QmpCommand::SetReadTimeout(DEFAULT_READ_TIMEOUT))?;
        match result {
            Some(result) => Ok(result),
            None => Ok(Ok(())),
        }
    }

    fn fdset_is_gone(&mut self, fdset_id: i64) -> (r: Result<Result<bool, Error>, QmpCommand>)
        ensures
            (final(self)@, flow(r)) == fdset_gone(old(self)@, fdset_id),
    {
        let reply = self.ask(QmpCommand::QueryFdsets)?;
        match decode_fdsets(reply) {
            Ok(fdsets) => {
                let remains = lists_fdset(&fdsets, fdset_id);
                self.block_fdsets = collect_block_fdsets(&fdsets);
                Ok(Ok(!remains))
            },
            Err(_) => Ok(Ok(false)),
        }
    }

    fn remove_fdset(&mut self, fdset_id: i64) -> (r: Result<Result<bool, Error>, QmpCommand>)
        ensures
            (final(self)@, flow(r)) == fdset_removed(old(self)@, fdset_id),
    {
        let reply = self.ask(QmpCommand::RemoveFd(fdset_id))?;
        if let Err(error) = decode_done(reply) {
            if error.kind == FailureKind::Io {
                if self.reconnect()?.is_err() {
                    return Ok(Ok(false));
                }
            }
        }
        self.fdset_is_gone(fdset_id)
    }

    /// Removes fdsets of a block device. Those that could not be removed stay known.
    pub fn remove_fdset_ids(&mut self, node_name: &str, fdset_ids: &Vec<i64>) -> (r: Result<
        Result<(), Error>,
        QmpCommand,
    >)
        ensures
            (final(self)@, flow(r)) == fdset_ids_removed(old(self)@, node_name@, fdset_ids@),
    {
        let mut failed: Vec<i64> = Vec::new();
        let mut i: usize = 0;
        assert(fdset_ids@.skip(0) =~= fdset_ids@);
        while i < fdset_ids.len()
            invariant
                0 <= i <= fdset_ids@.len(),
                fdsets_removed(old(self)@, fdset_ids@, seq![]) == fdsets_removed(
                    self@,
                    fdset_ids@.skip(i as int),
                    failed@,
                ),
            decreases fdset_ids@.len() - i,
        {
            let ghost rest = fdset_ids@.skip(i as int);
            assert(rest.drop_first() =~= fdset_ids@.skip(i + 1));
            assert(rest[0] == fdset_ids@[i as int]);
            match self.remove_fdset(fdset_ids[i])? {
                Ok(gone) => {
                    if !gone {
                        failed.push(fdset_ids[i]);
                    }
                },
                Err(error) => {
                    return Ok(Err(error));
                },
            }
            i = i + 1;
        }
        if failed.len() == 0 {
            return Ok(Ok(()));
        }
        let mut ids = ids_or_none(&self.block_fdsets, node_name);
        let mut more = crate::qmp::fdset::dup_ids(&failed);
        ids.append(&mut more);
        let ids = in_ascending_order(&ids);
        assert(ids.deep_view() =~= ids@);
        self.block_fdsets.insert(node_name.to_owned(), ids);
        Ok(
            Err(
                Error::msg(
                    cat4(
                        "failed to remove QEMU fdsets ",
                        ids_to_text(&failed).as_str(),
                        " for ",
                        node_name,
                    ),
                ),
            ),
        )
    }

    /// Removes the fdsets that are known of a block device.
    pub fn remove_block_fdsets(&mut self, node_name: &str) -> (r: Result<
        Result<(), Error>,
        QmpCommand,
    >)
        ensures
            (final(self)@, flow(r)) == block_fdsets_removed(old(self)@, node_name@),
    {
        match self.block_fdsets.remove(node_name) {
            Some(fdset_ids) => {
                assert(fdset_ids.deep_view() =~= fdset_ids@);
                self.remove_fdset_ids(node_name, &fdset_ids)
            },
            None => {
                assert(self@.block_fdsets =~= old(self)@.block_fdsets);
                Ok(Ok(()))
            },
        }
    }

    fn check_frontend(
        &mut self,
        node_name: &str,
        state: BlockCleanupState,
        cause: &str,
        unverified: &str,
    ) -> (r: Result<Result<BlockCleanupState, Error>, QmpCommand>)
        ensures
            (final(self)@, state_flow(r)) == frontend_checked(
                old(self)@,
                node_name@,
                state,
                cause@,
                unverified@,
            ),
    {
        match self.frontend_exists(node_name)? {
            Ok(false) => Ok(Ok(BlockCleanupState { frontend: false, ..state })),
            Ok(true) => Ok(Err(cleanup_state_error(node_name, cause.to_owned(), state))),
            Err(error) => Ok(
                Err(
                    cleanup_state_error(
                        node_name,
                        cat3(cause, unverified, error.text().as_str()),
                        state,
                    ),
                ),
            ),
        }
    }

    fn cleanup_frontend(&mut self, node_name: &str, state: BlockCleanupState, millis: u32) -> (r:
        Result<Result<BlockCleanupState, Error>, QmpCommand>)
        ensures
            (final(self)@, state_flow(r)) == frontend_cleaned(
                old(self)@,
                node_name@,
                state,
                millis,
            ),
    {
        if !state.frontend {
            return Ok(Ok(state));
        }
        let reply = self.ask(QmpCommand::DeviceDel(node_name.to_owned()))?;
        match decode_done(reply) {
            Ok(_) => match self.wait_for_device_deleted(node_name, millis)? {
                Ok(_) => Ok(Ok(BlockCleanupState { frontend: false, ..state })),
                Err(wait) => {
                    if let Err(error) = self.reconnect()? {
                        return Ok(
                            Err(
                                cleanup_state_error(
                                    node_name,
                                    cat3(
                                        wait.text().as_str(),
                                        "; QMP reconnection before frontend discovery failed: ",
                                        error.text().as_str(),
                                    ),
                                    state,
                                ),
                            ),
                        );
                    }
                    self.check_frontend(
                        node_name,
                        state,
                        wait.text().as_str(),
                        "; failed to verify frontend removal: ",
                    )
                },
            },
            Err(failure) => {
                if failure.kind == FailureKind::DeviceNotFound {
                    return Ok(Ok(BlockCleanupState { frontend: false, ..state }));
                }
                if failure.kind == FailureKind::Io {
                    if let Err(error) = self.reconnect()? {
                        return Ok(
                            Err(
                                cleanup_state_error(
                                    node_name,
                                    cat3(
                                        failure.text.as_str(),
                                        "; QMP reconnection before frontend discovery failed: ",
                                        error.text().as_str(),
                                    ),
                                    state,
                                ),
                            ),
                        );
                    }
                }
                self.check_frontend(
                    node_name,
                    state,
                    failure.text.as_str(),
                    "; failed to verify frontend state: ",
                )
            },
        }
    }

    fn check_backend(&mut self, node_name: &str, state: BlockCleanupState, cause: &str) -> (r:
        Result<Result<BlockCleanupState, Error>, QmpCommand>)
        ensures
            (final(self)@, state_flow(r)) == backend_checked(
                old(self)@,
                node_name@,
                state,
                cause@,
            ),
    {
        match self.block_backend_exists(node_name)? {
            Ok(false) => Ok(Ok(BlockCleanupState { backend: false, ..state })),
            Ok(true) => Ok(Err(cleanup_state_error(node_name, cause.to_owned(), state))),
            Err(error) => Ok(
                Err(
                    cleanup_state_error(
                        node_name,
                        cat3(cause, "; failed to verify backend state: ", error.text().as_str()),
                        state,
                    ),
                ),
            ),
        }
    }

    fn cleanup_backend(&mut self, node_name: &str, state: BlockCleanupState) -> (r: Result<
        Result<BlockCleanupState, Error>,
        QmpCommand,
    >)
        ensures
            (final(self)@, state_flow(r)) == backend_cleaned(old(self)@, node_name@, state),
    {
        if !state.backend {
            return Ok(Ok(state));
        }
        let reply = self.ask(QmpCommand::BlockdevDel(node_name.to_owned()))?;
        if let Err(failure) = decode_done(reply) {
            if failure.kind != FailureKind::DeviceNotFound {
                if failure.kind == FailureKind::Io {
                    if let Err(error) = self.reconnect()? {
                        return Ok(
                            Err(
                                cleanup_state_error(
                                    node_name,
                                    cat3(
                                        failure.text.as_str(),
                                        "; QMP reconnection before backend discovery failed: ",
                                        error.text().as_str(),
                                    ),
                                    state,
                                ),
                            ),
                        );
                    }
                }
                return self.check_backend(node_name, state, failure.text.as_str());
            }
        }
        Ok(Ok(BlockCleanupState { backend: false, ..state }))
    }

    fn cleanup_fdsets(&mut self, node_name: &str, state: BlockCleanupState) -> (r: Result<
        Result<BlockCleanupState, Error>,
        QmpCommand,
    >)
        ensures
            (final(self)@, state_flow(r)) == fdsets_cleaned(old(self)@, node_name@, state),
    {
        if !state.fdsets {
            return Ok(Ok(state));
        }
        if let Err(error) = self.refresh_block_fdsets_recovering()? {
            return Ok(Err(cleanup_state_error(node_name, error.text(), state)));
        }
        if let Err(error) = self.remove_block_fdsets(node_name)? {
            let state = BlockCleanupState {
                fdsets: self.block_fdsets.contains_key(node_name),
                ..state
            };
            return Ok(Err(cleanup_state_error(node_name, error.text(), state)));
        }
        Ok(Ok(BlockCleanupState { fdsets: false, ..state }))
    }

    /// Removes from QEMU what `state` says may be left of a block device. A device may take
    /// `device_deleted_timeout` milliseconds to go away.
    pub fn cleanup_pending_block_device_with_timeout(
        &mut self,
        node_name: &str,
        state: BlockCleanupState,
        device_deleted_timeout: u32,
    ) -> (r: Result<Result<(), Error>, QmpCommand>)
        ensures
            (final(self)@, flow(r)) == cleaned(
                old(self)@,
                node_name@,
                state,
                device_deleted_timeout,
            ),
    {
        let state = BlockCleanupState {
            fdsets: state.fdsets || self.block_fdsets.contains_key(node_name),
            ..state
        };
        let state = match self.cleanup_frontend(node_name, state, device_deleted_timeout)? {
            Ok(state) => state,
            Err(error) => {
                return Ok(Err(error));
            },
        };
        let state = match self.cleanup_backend(node_name, state)? {
            Ok(state) => state,
            Err(error) => {
                return Ok(Err(error));
            },
        };
        match self.cleanup_fdsets(node_name, state)? {
            Ok(_) => Ok(Ok(())),
            Err(error) => Ok(Err(error)),
        }
    }

    /// Removes from QEMU what `state` says may be left of a block device.
    pub fn cleanup_pending_block_device(
        &mut self,
        node_name: &str,
        state: BlockCleanupState,
    ) -> (r: Result<Result<(), Error>, QmpCommand>)
        ensures
            (final(self)@, flow(r)) == cleaned(
                old(self)@,
                node_name@,
                state,
                DEVICE_DELETED_TIMEOUT,
            ),
    {
        self.cleanup_pending_block_device_with_timeout(node_name, state, DEVICE_DELETED_TIMEOUT)
    }
}

/// How far a part of a cleanup has come.
pub open spec fn state_flow(r: Result<Result<BlockCleanupState, Error>, QmpCommand>) -> Flow<
    BlockCleanupState,
    CommandModel,
> {
    match r {
        Ok(Ok(state)) => Flow::Done(Ok(state)),
        Ok(Err(error)) => Flow::Done(Err(error.deep_view())),
        Err(command) => Flow::Waiting(command.deep_view()),
    }
}

} // verus!
