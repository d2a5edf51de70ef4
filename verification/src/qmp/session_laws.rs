//! How a session is opened, how the removal of a device is waited for, and what is known of fdsets.
use crate::block_device::BlockCleanupState;
use crate::error::LayerModel;
use crate::qmp::block::{tagged_among, tagged_fd, unplugged};
use crate::qmp::block_laws::replying;
use crate::qmp::cleanup::{
    block_fdsets_removed, deletion_awaited, deletion_polled, fdset_gone, fdset_removed,
    fdsets_removed, span_text,
};
use crate::qmp::fdset::{collected, fd_node, noted_fds, tables_agree, tagged_node};
use crate::qmp::session::{
    backend_found, executed, frontend_found, migration_queried, reconnected, refreshed,
    refreshed_recovering, session_opened, time_left, with_fdsets, Flow, QmpModel,
};
use crate::qmp::wire::{
    AddfdInfo, CommandModel, FailureKind, FdsetFd, FdsetInfo, MigrationInfo, QmpReply,
};
use crate::text::{dec, digit_char, zero_padded};
use vstd::prelude::*;

verus! {

/// Time is left exactly as long as less than the limit has passed, and then what is left and what has
/// passed are the limit together. A clock that went back has not moved.
pub proof fn law_time_left_and_passed_are_the_limit(start: u64, now: u64, limit: u64)
    ensures
        now >= start ==> (time_left(start, now, limit) is None <==> now - start >= limit),
        now >= start ==> (time_left(start, now, limit) matches Some(left) ==> left + (now - start)
            == limit),
        now < start && limit > 0 ==> time_left(start, now, limit) == Some(limit),
{
}

/// A command that gives nothing back is asked for as it is; it succeeds where QEMU has carried it
/// out, and what QEMU says otherwise comes out.
pub proof fn law_command_is_carried_out(q: QmpModel, command: CommandModel, what: Seq<char>)
    ensures
        executed(replying(q, seq![]), command, what).1 == Flow::<(), CommandModel>::Waiting(
            command,
        ),
        executed(replying(q, seq![QmpReply::Done]), command, what).1 == Flow::<
            (),
            CommandModel,
        >::Done(Ok(())),
        q.replies.len() > 0 && q.replies[0] is Failed ==> (executed(
            q,
            command,
            what,
        ).1 matches Flow::Done(Err(error)) && error.len() > 1 && error[0] == LayerModel::Message(
            what,
        ) && error[1] == LayerModel::Message(q.replies[0]->Failed_0.text@)),
{
}

/// What QEMU says of a migration is what comes out.
pub proof fn law_migration_is_told(q: QmpModel, info: MigrationInfo)
    ensures
        migration_queried(replying(q, seq![])).1 == Flow::<MigrationInfo, CommandModel>::Waiting(
            CommandModel::QueryMigrate,
        ),
        migration_queried(replying(q, seq![QmpReply::Migration(info)])).1 == Flow::<
            MigrationInfo,
            CommandModel,
        >::Done(Ok(info)),
        q.replies.len() > 0 && q.replies[0] is Failed ==> (migration_queried(
            q,
        ).1 matches Flow::Done(Err(_))),
{
}

/// A session is opened by connecting to its socket and reading the fdsets that QEMU has, which is
/// tried again after fifty milliseconds where it fails, until fifty seconds have passed.
pub proof fn law_session_is_opened_in_time(
    path: Seq<char>,
    start: u64,
    now: u64,
    fdsets: Vec<FdsetInfo>,
    failed: QmpReply,
    any: QmpReply,
)
    requires
        failed is Failed || failed is NotConnected,
        now >= start,
    ensures
        ({
            let run = |replies: Seq<QmpReply>| session_opened(path, replies);
            let begun = QmpReply::Elapsed(start);
            let later = QmpReply::Elapsed(now);
            let done = QmpReply::Done;
            let listed = QmpReply::Fdsets(fdsets);
            &&& run(seq![]).1 == Flow::<(), CommandModel>::Waiting(CommandModel::Clock)
            &&& run(seq![begun]).1 == Flow::<(), CommandModel>::Waiting(CommandModel::Clock)
            &&& if now - start >= 50_000_000_000 {
                run(seq![begun, later]).1 matches Flow::Done(Err(_))
            } else {
                &&& run(seq![begun, later]).1 == Flow::<(), CommandModel>::Waiting(
                    CommandModel::Connect(path),
                )
                &&& run(seq![begun, later, done]).1 == Flow::<(), CommandModel>::Waiting(
                    CommandModel::QueryFdsets,
                )
                &&& run(seq![begun, later, done, listed]).1 == Flow::<(), CommandModel>::Done(
                    Ok(()),
                )
                &&& run(seq![begun, later, done, listed]).0.block_fdsets == collected(fdsets@)
                &&& run(seq![begun, later, done, listed]).0.socket_path == Some(path)
                &&& run(seq![begun, later, failed]).1 == Flow::<(), CommandModel>::Waiting(
                    CommandModel::Sleep(50_000_000),
                )
                &&& run(seq![begun, later, failed, any]).1 == Flow::<(), CommandModel>::Waiting(
                    CommandModel::Clock,
                )
            }
        }),
{
    let begun = QmpReply::Elapsed(start);
    let later = QmpReply::Elapsed(now);
    let done = QmpReply::Done;
    let listed = QmpReply::Fdsets(fdsets);
    assert(seq![begun].drop_first() =~= seq![]);
    assert(seq![begun, later].drop_first() =~= seq![later]);
    assert(seq![later].drop_first() =~= seq![]);
    assert(seq![begun, later, done].drop_first() =~= seq![later, done]);
    assert(seq![later, done].drop_first() =~= seq![done]);
    assert(seq![done].drop_first() =~= seq![]);
    assert(seq![begun, later, done, listed].drop_first() =~= seq![later, done, listed]);
    assert(seq![later, done, listed].drop_first() =~= seq![done, listed]);
    assert(seq![done, listed].drop_first() =~= seq![listed]);
    assert(seq![listed].drop_first() =~= seq![]);
    assert(seq![begun, later, failed].drop_first() =~= seq![later, failed]);
    assert(seq![later, failed].drop_first() =~= seq![failed]);
    assert(seq![failed].drop_first() =~= seq![]);
    assert(seq![begun, later, failed, any].drop_first() =~= seq![later, failed, any]);
    assert(seq![later, failed, any].drop_first() =~= seq![failed, any]);
    assert(seq![failed, any].drop_first() =~= seq![any]);
    assert(seq![any].drop_first() =~= seq![]);
    reveal_with_fuel(crate::qmp::session::established, 2);
}

/// The shorter of a tenth of a second and the time that is left.
pub open spec fn poll_span(left: int) -> int {
    if left < 100_000_000 {
        left
    } else {
        100_000_000
    }
}

/// The deletion of a device is waited for in rounds of at most a tenth of a second, until QEMU
/// reports that very device or the time is up, and the usual bound on replies is restored in either
/// case. Where QEMU reports it in time the wait has succeeded; where the time is up, it has failed.
pub proof fn law_deletion_is_awaited_in_time(
    q: QmpModel,
    device_id: Seq<char>,
    millis: u32,
    start: u64,
    now: u64,
    deleted: Vec<String>,
    any: QmpReply,
)
    requires
        now >= start,
    ensures
        ({
            let run = |replies: Seq<QmpReply>|
                deletion_awaited(replying(q, replies), device_id, millis).1;
            let begun = QmpReply::Elapsed(start);
            let later = QmpReply::Elapsed(now);
            let done = QmpReply::Done;
            let report = QmpReply::Deleted(deleted);
            let left = millis * 1_000_000 - (now - start);
            let restored = Flow::<(), CommandModel>::Waiting(
                CommandModel::SetReadTimeout(250_000_000),
            );
            &&& run(seq![]) == Flow::<(), CommandModel>::Waiting(CommandModel::Clock)
            &&& run(seq![begun]) == Flow::<(), CommandModel>::Waiting(CommandModel::Clock)
            &&& if left <= 0 {
                &&& run(seq![begun, later]) == restored
                &&& run(seq![begun, later, any]) matches Flow::Done(Err(_))
            } else {
                &&& run(seq![begun, later]) == Flow::<(), CommandModel>::Waiting(
                    CommandModel::SetReadTimeout(poll_span(left)),
                )
                &&& run(seq![begun, later, done]) == Flow::<(), CommandModel>::Waiting(
                    CommandModel::Poll,
                )
                &&& if deleted.deep_view().contains(device_id) {
                    &&& run(seq![begun, later, done, report]) == restored
                    &&& run(seq![begun, later, done, report, any]) == Flow::<
                        (),
                        CommandModel,
                    >::Done(Ok(()))
                } else {
                    &&& run(seq![begun, later, done, report]) == Flow::<
                        (),
                        CommandModel,
                    >::Waiting(CommandModel::Clock)
                    &&& run(seq![begun, later, done, report, later]) == Flow::<
                        (),
                        CommandModel,
                    >::Waiting(CommandModel::Sleep(poll_span(left)))
                    &&& run(seq![begun, later, done, report, later, any]) == Flow::<
                        (),
                        CommandModel,
                    >::Waiting(CommandModel::Clock)
                }
            }
        }),
{
    let begun = QmpReply::Elapsed(start);
    let later = QmpReply::Elapsed(now);
    let done = QmpReply::Done;
    let report = QmpReply::Deleted(deleted);
    assert(seq![begun].drop_first() =~= seq![]);
    assert(seq![begun, later].drop_first() =~= seq![later]);
    assert(seq![later].drop_first() =~= seq![]);
    assert(seq![begun, later, any].drop_first() =~= seq![later, any]);
    assert(seq![later, any].drop_first() =~= seq![any]);
    assert(seq![any].drop_first() =~= seq![]);
    assert(seq![begun, later, done].drop_first() =~= seq![later, done]);
    assert(seq![later, done].drop_first() =~= seq![done]);
    assert(seq![done].drop_first() =~= seq![]);
    assert(seq![begun, later, done, report].drop_first() =~= seq![later, done, report]);
    assert(seq![later, done, report].drop_first() =~= seq![done, report]);
    assert(seq![done, report].drop_first() =~= seq![report]);
    assert(seq![report].drop_first() =~= seq![]);
    assert(seq![begun, later, done, report, any].drop_first() =~= seq![later, done, report, any]);
    assert(seq![later, done, report, any].drop_first() =~= seq![done, report, any]);
    assert(seq![done, report, any].drop_first() =~= seq![report, any]);
    assert(seq![report, any].drop_first() =~= seq![any]);
    assert(seq![begun, later, done, report, later].drop_first()
        =~= seq![later, done, report, later]);
    assert(seq![later, done, report, later].drop_first() =~= seq![done, report, later]);
    assert(seq![done, report, later].drop_first() =~= seq![report, later]);
    assert(seq![report, later].drop_first() =~= seq![later]);
    assert(seq![begun, later, done, report, later, any].drop_first()
        =~= seq![later, done, report, later, any]);
    assert(seq![later, done, report, later, any].drop_first() =~= seq![done, report, later, any]);
    assert(seq![done, report, later, any].drop_first() =~= seq![report, later, any]);
    assert(seq![report, later, any].drop_first() =~= seq![later, any]);
    reveal_with_fuel(deletion_polled, 2);
}

/// Whether QEMU lists a descriptor in that fdset whose tag names that block device.
pub open spec fn fdset_serves(fdsets: Seq<FdsetInfo>, node_name: Seq<char>, id: i64) -> bool {
    exists|i: int, k: int|
        0 <= i < fdsets.len() && 0 <= k < fdsets[i].fds@.len() && fdsets[i].fdset_id == id && (
        (#[trigger] fdsets[i].fds@[k]).opaque matches Some(tag) && tagged_node(tag@) == Some(
            node_name,
        ))
}

/// Whether one of the descriptors has a tag that names that block device.
spec fn fds_serve(fds: Seq<FdsetFd>, node_name: Seq<char>) -> bool {
    exists|k: int|
        0 <= k < fds.len() && ((#[trigger] fds[k]).opaque matches Some(tag) && tagged_node(tag@)
            == Some(node_name))
}

/// Whether an id is known of a block device.
pub open spec fn knows(known: Map<Seq<char>, Seq<i64>>, node_name: Seq<char>, id: i64) -> bool {
    known.contains_key(node_name) && known[node_name].contains(id)
}

proof fn lemma_noted_fds(
    known: Map<Seq<char>, Seq<i64>>,
    fdset_id: i64,
    fds: Seq<FdsetFd>,
    node_name: Seq<char>,
    id: i64,
)
    requires
        known.contains_key(node_name) ==> known[node_name].no_duplicates()
            && known[node_name].len() > 0,
    ensures
        ({
            let after = noted_fds(known, fdset_id, fds);
            &&& knows(after, node_name, id) <==> knows(known, node_name, id) || (id == fdset_id
                && fds_serve(fds, node_name))
            &&& after.contains_key(node_name) ==> after[node_name].no_duplicates()
                && after[node_name].len() > 0
        }),
    decreases fds.len(),
{
    if fds.len() > 0 {
        let front = fds.drop_last();
        lemma_noted_fds(known, fdset_id, front, node_name, id);
        let before = noted_fds(known, fdset_id, front);
        let after = noted_fds(known, fdset_id, fds);
        assert(fds_serve(fds, node_name) <==> fds_serve(front, node_name) || fd_node(fds.last())
            == Some(node_name)) by {
            if fds_serve(front, node_name) {
                let k = choose|k: int|
                    0 <= k < front.len() && ((#[trigger] front[k]).opaque matches Some(tag)
                        && tagged_node(tag@) == Some(node_name));
                assert(fds[k] == front[k]);
            }
            if fds_serve(fds, node_name) {
                let k = choose|k: int|
                    0 <= k < fds.len() && ((#[trigger] fds[k]).opaque matches Some(tag)
                        && tagged_node(tag@) == Some(node_name));
                if k < front.len() {
                    assert(front[k] == fds[k]);
                }
            }
            if fd_node(fds.last()) == Some(node_name) {
                assert(fds[fds.len() - 1].opaque is Some);
            }
        }
        if fd_node(fds.last()) == Some(node_name) {
            let ids = if before.contains_key(node_name) {
                before[node_name]
            } else {
                seq![]
            };
            if !ids.contains(fdset_id) {
                let more = ids.push(fdset_id);
                assert(after[node_name] == more);
                assert(more[ids.len() as int] == fdset_id);
                if ids.contains(id) {
                    let j = ids.index_of(id);
                    assert(more[j] == id);
                }
                if more.contains(id) {
                    let j = more.index_of(id);
                    if j < ids.len() {
                        assert(ids[j] == id);
                    }
                }
                assert forall|i: int, j: int|
                    0 <= i < more.len() && 0 <= j < more.len() && i != j implies more[i]
                    != more[j] by {
                    if i < ids.len() && j < ids.len() {
                        assert(ids[i] != ids[j]);
                    } else if i < ids.len() {
                        assert(ids.contains(ids[i]));
                    } else {
                        assert(ids.contains(ids[j]));
                    }
                }
            }
        }
    }
}

/// What is known of fdsets is what QEMU lists: an fdset is known of a block device exactly where a
/// descriptor in it has a tag that names the device, and each is known once.
pub proof fn law_known_fdsets_are_those_listed(
    fdsets: Seq<FdsetInfo>,
    node_name: Seq<char>,
    id: i64,
)
    ensures
        knows(collected(fdsets), node_name, id) <==> fdset_serves(fdsets, node_name, id),
        collected(fdsets).contains_key(node_name) ==> collected(
            fdsets,
        )[node_name].no_duplicates() && collected(fdsets)[node_name].len() > 0,
    decreases fdsets.len(),
{
    if fdsets.len() > 0 {
        let front = fdsets.drop_last();
        let last = fdsets.last();
        law_known_fdsets_are_those_listed(front, node_name, id);
        lemma_noted_fds(collected(front), last.fdset_id, last.fds@, node_name, id);
        if fdset_serves(front, node_name, id) {
            let (i, k) = choose|i: int, k: int|
                0 <= i < front.len() && 0 <= k < front[i].fds@.len() && front[i].fdset_id == id && (
                (#[trigger] front[i].fds@[k]).opaque matches Some(tag) && tagged_node(tag@)
                    == Some(node_name));
            assert(fdsets[i].fds@[k].opaque is Some);
        }
        if last.fdset_id == id && fds_serve(last.fds@, node_name) {
            let k = choose|k: int|
                0 <= k < last.fds@.len() && ((#[trigger] last.fds@[k]).opaque matches Some(tag)
                    && tagged_node(tag@) == Some(node_name));
            assert(fdsets[fdsets.len() - 1].fds@[k].opaque is Some);
        }
        if fdset_serves(fdsets, node_name, id) {
            let (i, k) = choose|i: int, k: int|
                0 <= i < fdsets.len() && 0 <= k < fdsets[i].fds@.len() && fdsets[i].fdset_id == id
                    && ((#[trigger] fdsets[i].fds@[k]).opaque matches Some(tag) && tagged_node(tag@)
                    == Some(node_name));
            if i < front.len() {
                assert(front[i].fds@[k].opaque is Some);
            } else {
                assert(last.fds@[k].opaque is Some);
            }
        }
    }
}

/// Whether a descriptor is listed under a tag.
pub open spec fn listed_under(fdsets: Seq<FdsetInfo>, tag: Seq<char>, info: AddfdInfo) -> bool {
    exists|i: int, k: int|
        0 <= i < fdsets.len() && 0 <= k < fdsets[i].fds@.len() && fdsets[i].fdset_id
            == info.fdset_id && (#[trigger] fdsets[i].fds@[k]).fd == info.fd
            && fdsets[i].fds@[k].opaque.deep_view() == Some(tag)
}

proof fn lemma_tagged_among(fdset_id: i64, fds: Seq<FdsetFd>, tag: Seq<char>)
    ensures
        match tagged_among(fdset_id, fds, tag) {
            Some(info) => info.fdset_id == fdset_id && exists|k: int|
                0 <= k < fds.len() && (#[trigger] fds[k]).fd == info.fd && fds[k].opaque.deep_view()
                    == Some(tag),
            None => forall|k: int|
                0 <= k < fds.len() ==> (#[trigger] fds[k]).opaque.deep_view() != Some(tag),
        },
    decreases fds.len(),
{
    if fds.len() > 0 {
        if fds[0].opaque.deep_view() == Some(tag) {
            assert(fds[0].fd == fds[0].fd);
        } else {
            let rest = fds.drop_first();
            lemma_tagged_among(fdset_id, rest, tag);
            match tagged_among(fdset_id, rest, tag) {
                Some(info) => {
                    let k = choose|k: int|
                        0 <= k < rest.len() && (#[trigger] rest[k]).fd == info.fd
                            && rest[k].opaque.deep_view() == Some(tag);
                    assert(fds[k + 1] == rest[k]);
                },
                None => {
                    assert forall|k: int| 0 <= k < fds.len() implies (
                    #[trigger] fds[k]).opaque.deep_view() != Some(tag) by {
                        if k > 0 {
                            assert(rest[k - 1] == fds[k]);
                        }
                    }
                },
            }
        }
    }
}

/// A descriptor is found by its tag exactly where QEMU lists one under that tag.
pub proof fn law_descriptor_is_found_by_its_tag(fdsets: Seq<FdsetInfo>, tag: Seq<char>)
    ensures
        match tagged_fd(fdsets, tag) {
            Some(info) => listed_under(fdsets, tag, info),
            None => forall|info: AddfdInfo| !listed_under(fdsets, tag, info),
        },
    decreases fdsets.len(),
{
    if fdsets.len() > 0 {
        let first = fdsets[0];
        let rest = fdsets.drop_first();
        lemma_tagged_among(first.fdset_id, first.fds@, tag);
        law_descriptor_is_found_by_its_tag(rest, tag);
        match tagged_among(first.fdset_id, first.fds@, tag) {
            Some(info) => {
                let k = choose|k: int|
                    0 <= k < first.fds@.len() && (#[trigger] first.fds@[k]).fd == info.fd
                        && first.fds@[k].opaque.deep_view() == Some(tag);
                assert(fdsets[0].fds@[k].fd == info.fd);
            },
            None => {
                match tagged_fd(rest, tag) {
                    Some(info) => {
                        let (i, k) = choose|i: int, k: int|
                            0 <= i < rest.len() && 0 <= k < rest[i].fds@.len() && rest[i].fdset_id
                                == info.fdset_id && (#[trigger] rest[i].fds@[k]).fd == info.fd
                                && rest[i].fds@[k].opaque.deep_view() == Some(tag);
                        assert(fdsets[i + 1].fds@[k].fd == info.fd);
                    },
                    None => {
                        assert forall|info: AddfdInfo| !listed_under(fdsets, tag, info) by {
                            if listed_under(fdsets, tag, info) {
                                let (i, k) = choose|i: int, k: int|
                                    0 <= i < fdsets.len() && 0 <= k < fdsets[i].fds@.len()
                                        && fdsets[i].fdset_id == info.fdset_id && (
                                    #[trigger] fdsets[i].fds@[k]).fd == info.fd
                                        && fdsets[i].fds@[k].opaque.deep_view() == Some(tag);
                                if i > 0 {
                                    assert(rest[i - 1].fds@[k].fd == info.fd);
                                    assert(listed_under(rest, tag, info));
                                }
                            }
                        }
                    },
                }
            },
        }
    }
}

/// An fdset counts as removed where QEMU lists its fdsets without it afterwards, whatever QEMU said
/// to the removal itself.
pub proof fn law_removal_of_an_fdset_is_confirmed(
    q: QmpModel,
    id: i64,
    said: QmpReply,
    fdsets: Vec<FdsetInfo>,
)
    requires
        said matches QmpReply::Failed(error) ==> error.kind != FailureKind::Io,
    ensures
        fdset_removed(replying(q, seq![]), id).1 == Flow::<bool, CommandModel>::Waiting(
            CommandModel::RemoveFd(id),
        ),
        said is Done || said is Failed ==> fdset_removed(replying(q, seq![said]), id).1 == Flow::<
            bool,
            CommandModel,
        >::Waiting(CommandModel::QueryFdsets),
        said is Done || said is Failed ==> (fdset_removed(
            replying(q, seq![said, QmpReply::Fdsets(fdsets)]),
            id,
        ).1 matches Flow::Done(Ok(gone)) && (gone <==> forall|i: int|
            0 <= i < fdsets@.len() ==> (#[trigger] fdsets@[i]).fdset_id != id)),
{
    let listed = QmpReply::Fdsets(fdsets);
    assert(seq![said].drop_first() =~= seq![]);
    assert(seq![said, listed].drop_first() =~= seq![listed]);
    assert(seq![listed].drop_first() =~= seq![]);
}

proof fn lemma_only_own_fdsets(q: QmpModel, ids: Seq<i64>, failed: Seq<i64>)
    ensures
        fdsets_removed(q, ids, failed).1 matches Flow::Waiting(CommandModel::RemoveFd(id))
            ==> ids.contains(id),
        fdsets_removed(q, ids, failed).1 matches Flow::Done(Ok(left)) ==> {
            &&& failed.len() <= left.len()
            &&& forall|i: int| 0 <= i < failed.len() ==> left[i] == failed[i]
            &&& forall|i: int| failed.len() <= i < left.len() ==> ids.contains(#[trigger] left[i])
        },
    decreases ids.len(),
{
    if ids.len() > 0 {
        assert(ids.contains(ids[0]));
        if let (q1, Flow::Done(Ok(gone))) = fdset_removed(q, ids[0]) {
            let rest = ids.drop_first();
            let more = if gone {
                failed
            } else {
                failed.push(ids[0])
            };
            lemma_only_own_fdsets(q1, rest, more);
            assert forall|id: i64| rest.contains(id) implies ids.contains(id) by {
                let i = rest.index_of(id);
                assert(ids[i + 1] == id);
            }
            if let Flow::Done(Ok(left)) = fdsets_removed(q1, rest, more).1 {
                assert forall|i: int| 0 <= i < failed.len() implies left[i] == failed[i] by {
                    assert(more[i] == failed[i]);
                }
                assert forall|i: int| failed.len() <= i < left.len() implies ids.contains(
                    #[trigger] left[i],
                ) by {
                    if i < more.len() {
                        assert(left[i] == more[i]);
                    }
                }
            }
        }
    }
}

/// Only the fdsets that are known of a device are removed with it.
pub proof fn law_only_fdsets_of_the_device_go(q: QmpModel, node_name: Seq<char>)
    ensures
        block_fdsets_removed(q, node_name).1 matches Flow::Waiting(CommandModel::RemoveFd(id))
            ==> q.block_fdsets.contains_key(node_name) && q.block_fdsets[node_name].contains(id),
        !q.block_fdsets.contains_key(node_name) ==> block_fdsets_removed(q, node_name) == (
            q,
            Flow::<(), CommandModel>::Done(Ok(())),
        ),
{
    if q.block_fdsets.contains_key(node_name) {
        lemma_only_own_fdsets(
            with_fdsets(q, q.block_fdsets.remove(node_name)),
            q.block_fdsets[node_name],
            seq![],
        );
    }
}

/// A device whose parts QEMU does not know any more is gone after two commands, one for the frontend
/// and one for the backend, both by its name; a device with neither part and no fdset is gone at
/// once.
pub proof fn law_unknown_parts_count_as_gone(
    q: QmpModel,
    driver: Seq<char>,
    node_name: Seq<char>,
    unknown: QmpReply,
)
    requires
        !q.block_fdsets.contains_key(node_name),
        unknown matches QmpReply::Failed(error) && error.kind == FailureKind::DeviceNotFound,
    ensures
        ({
            let both = BlockCleanupState { frontend: true, backend: true, fdsets: false };
            let run = |replies: Seq<QmpReply>|
                unplugged(replying(q, replies), driver, node_name, both).1;
            &&& run(seq![]) == Flow::<(), CommandModel>::Waiting(
                CommandModel::DeviceDel(node_name),
            )
            &&& run(seq![unknown]) == Flow::<(), CommandModel>::Waiting(
                CommandModel::BlockdevDel(node_name),
            )
            &&& run(seq![unknown, unknown]) == Flow::<(), CommandModel>::Done(Ok(()))
            &&& run(seq![unknown, QmpReply::Done]) == Flow::<(), CommandModel>::Done(Ok(()))
        }),
{
    assert(seq![unknown].drop_first() =~= seq![]);
    assert(seq![unknown, unknown].drop_first() =~= seq![unknown]);
    assert(seq![unknown, QmpReply::Done].drop_first() =~= seq![QmpReply::Done]);
    assert(seq![QmpReply::Done].drop_first() =~= seq![]);
}

/// What is known of fdsets is read anew from QEMU. Where the session is broken, it is opened again on
/// its socket before that; without a socket it stays broken.
pub proof fn law_broken_session_is_restored(
    q: QmpModel,
    path: Seq<char>,
    fdsets: Vec<FdsetInfo>,
    broken: QmpReply,
)
    requires
        q.socket_path == Some(path),
        broken matches QmpReply::Failed(error) && error.kind == FailureKind::Io,
    ensures
        ({
            let done = QmpReply::Done;
            let listed = QmpReply::Fdsets(fdsets);
            let again = |replies: Seq<QmpReply>| reconnected(replying(q, replies));
            let recovering = |replies: Seq<QmpReply>| refreshed_recovering(replying(q, replies));
            let ask = Flow::<(), CommandModel>::Waiting(CommandModel::QueryFdsets);
            let connect = Flow::<(), CommandModel>::Waiting(CommandModel::Connect(path));
            let success = Flow::<(), CommandModel>::Done(Ok(()));
            &&& refreshed(replying(q, seq![])).1 == ask
            &&& refreshed(replying(q, seq![listed])).1 == success
            &&& refreshed(replying(q, seq![listed])).0.block_fdsets == collected(fdsets@)
            &&& refreshed(replying(q, seq![broken])).1 matches Flow::Done(Err(_))
            &&& again(seq![]).1 == connect
            &&& again(seq![done]).1 == ask
            &&& again(seq![done, listed]).1 == success
            &&& again(seq![done, listed]).0.block_fdsets == collected(fdsets@)
            &&& recovering(seq![]).1 == ask
            &&& recovering(seq![listed]).1 == success
            &&& recovering(seq![listed]).0.block_fdsets == collected(fdsets@)
            &&& recovering(seq![broken]).1 == connect
            &&& recovering(seq![broken, done]).1 == ask
            &&& recovering(seq![broken, done, listed]).1 == success
        }),
        reconnected(QmpModel { socket_path: None, ..q }).1 matches Flow::Done(Err(_)),
{
    let done = QmpReply::Done;
    let listed = QmpReply::Fdsets(fdsets);
    assert(seq![listed].drop_first() =~= seq![]);
    assert(seq![done].drop_first() =~= seq![]);
    assert(seq![done, listed].drop_first() =~= seq![listed]);
    assert(seq![broken].drop_first() =~= seq![]);
    assert(seq![broken, done].drop_first() =~= seq![done]);
    assert(seq![broken, done, listed].drop_first() =~= seq![done, listed]);
}

/// A refusal of QEMU does not break the session: what it said comes out, and nothing is opened again.
pub proof fn law_refusal_does_not_break_the_session(q: QmpModel, refusal: QmpReply)
    requires
        refusal matches QmpReply::Failed(error) && error.kind != FailureKind::Io,
    ensures
        refreshed_recovering(replying(q, seq![refusal])).1 matches Flow::Done(Err(_)),
{
}

/// A frontend is there exactly where QEMU lists it among the peripherals, and a backend exactly where
/// QEMU lists it among the block nodes.
pub proof fn law_part_is_there_when_listed(q: QmpModel, node_name: Seq<char>, names: Vec<String>)
    ensures
        frontend_found(replying(q, seq![]), node_name).1 == Flow::<bool, CommandModel>::Waiting(
            CommandModel::QomList("/machine/peripheral"@),
        ),
        backend_found(replying(q, seq![]), node_name).1 == Flow::<bool, CommandModel>::Waiting(
            CommandModel::QueryNamedBlockNodes,
        ),
        ({
            let listed = exists|i: int| 0 <= i < names@.len() && (#[trigger] names@[i])@ == node_name;
            let replies = seq![QmpReply::Names(names)];
            &&& frontend_found(replying(q, replies), node_name).1 == Flow::<
                bool,
                CommandModel,
            >::Done(Ok(listed))
            &&& backend_found(replying(q, replies), node_name).1 == Flow::<
                bool,
                CommandModel,
            >::Done(Ok(listed))
        }),
        q.replies.len() > 0 && q.replies[0] is Failed ==> {
            &&& frontend_found(q, node_name).1 matches Flow::Done(Err(_))
            &&& backend_found(q, node_name).1 matches Flow::Done(Err(_))
        },
{
    let views = names.deep_view();
    assert(views.len() == names@.len());
    assert(forall|i: int| 0 <= i < names@.len() ==> #[trigger] views[i] == names@[i]@);
    if views.contains(node_name) {
        let i = choose|i: int| 0 <= i < views.len() && views[i] == node_name;
        assert(names@[i]@ == node_name);
    }
    if exists|i: int| 0 <= i < names@.len() && (#[trigger] names@[i])@ == node_name {
        let i = choose|i: int| 0 <= i < names@.len() && (#[trigger] names@[i])@ == node_name;
        assert(views[i] == node_name);
    }
}

/// Two tables of fdsets agree exactly where they have the same devices, and of each device the same
/// fdsets equally often; their order does not matter.
pub proof fn law_tables_agree_whatever_the_order(
    a: Map<Seq<char>, Seq<i64>>,
    b: Map<Seq<char>, Seq<i64>>,
)
    ensures
        tables_agree(a, b) == tables_agree(b, a),
        tables_agree(a, b) <==> forall|node: Seq<char>|
            #![trigger a.contains_key(node)]
            #![trigger b.contains_key(node)]
            a.contains_key(node) == b.contains_key(node) && (a.contains_key(node) ==> forall|
                id: i64,
            |
                a[node].to_multiset().count(id) == b[node].to_multiset().count(id)),
{
    if forall|node: Seq<char>|
        #![trigger a.contains_key(node)]
        #![trigger b.contains_key(node)]
        a.contains_key(node) == b.contains_key(node) && (a.contains_key(node) ==> forall|id: i64|
            a[node].to_multiset().count(id) == b[node].to_multiset().count(id)) {
        assert forall|node: Seq<char>| a.dom().contains(node) == b.dom().contains(node) by {
            assert(a.contains_key(node) == b.contains_key(node));
        }
        assert(a.dom() =~= b.dom());
        assert forall|node: Seq<char>| #[trigger] a.contains_key(node) implies a[node].to_multiset()
            == b[node].to_multiset() by {
            assert(a[node].to_multiset() =~= b[node].to_multiset());
        }
    }
    if tables_agree(a, b) {
        assert forall|node: Seq<char>| a.contains_key(node) == b.contains_key(node) by {
            assert(a.dom().contains(node) == b.dom().contains(node));
        }
    }
    if tables_agree(b, a) {
        assert forall|node: Seq<char>| a.contains_key(node) == b.contains_key(node) by {
            assert(a.dom().contains(node) == b.dom().contains(node));
        }
    }
}

/// A span is told in milliseconds below a second, and otherwise in seconds, with as many digits
/// behind the point as it needs.
pub proof fn law_span_is_told_in_its_unit(seconds: int, millis: int)
    requires
        0 <= seconds,
        0 < millis < 1000,
    ensures
        span_text(millis) == dec(millis) + "ms"@,
        seconds > 0 ==> span_text(1000 * seconds) == dec(seconds) + "s"@,
        seconds > 0 ==> {
            let text = span_text(1000 * seconds + millis);
            let whole = dec(seconds) + "."@;
            let digits = zero_padded(dec(millis), 3);
            exists|shown: int|
                1 <= shown <= 3 && text == whole + #[trigger] digits.take(shown) + "s"@ && (shown
                    < 3 ==> forall|i: int| shown <= i < 3 ==> digits[i] == '0') && (digits[shown
                    - 1] != '0')
        },
{
    let text = span_text(1000 * seconds + millis);
    if seconds > 0 {
        assert((1000 * seconds + millis) / 1000 == seconds);
        assert((1000 * seconds + millis) % 1000 == millis);
        let whole = dec(seconds) + "."@;
        let digits = zero_padded(dec(millis), 3);
        reveal_with_fuel(crate::text::digits, 4);
        let hundreds: int = millis / 100;
        let tens: int = (millis / 10) % 10;
        let ones: int = millis % 10;
        assert(digits =~= seq![digit_char(hundreds), digit_char(tens), digit_char(ones)]);
        if millis % 100 == 0 {
            assert(digits.take(1) =~= dec(hundreds));
            assert(text == whole + digits.take(1) + "s"@);
        } else if millis % 10 == 0 {
            assert(digits.take(2) =~= zero_padded(dec(millis / 10), 2));
            assert(text == whole + digits.take(2) + "s"@);
        } else {
            assert(digits.take(3) =~= digits);
            assert(text == whole + digits.take(3) + "s"@);
        }
    }
}

/// An fdset is gone exactly where QEMU lists the fdsets and it is not among them.
pub proof fn law_fdset_is_gone_when_not_listed(
    q: QmpModel,
    id: i64,
    fdsets: Vec<FdsetInfo>,
    failed: QmpReply,
)
    requires
        failed is Failed,
    ensures
        fdset_gone(replying(q, seq![]), id).1 == Flow::<bool, CommandModel>::Waiting(
            CommandModel::QueryFdsets,
        ),
        fdset_gone(replying(q, seq![failed]), id).1 == Flow::<bool, CommandModel>::Done(Ok(false)),
        fdset_gone(replying(q, seq![QmpReply::Fdsets(fdsets)]), id).1 == Flow::<
            bool,
            CommandModel,
        >::Done(
            Ok(forall|i: int| 0 <= i < fdsets@.len() ==> (#[trigger] fdsets@[i]).fdset_id != id),
        ),
{
    if forall|i: int| 0 <= i < fdsets@.len() ==> (#[trigger] fdsets@[i]).fdset_id != id {
    } else {
        let i = choose|i: int| 0 <= i < fdsets@.len() && (#[trigger] fdsets@[i]).fdset_id == id;
        assert(fdsets@[i].fdset_id == id);
    }
}

} // verus!
