//! What holds of the finalization of a sandbox and its store of disks together.
use crate::error::{DiskModel, ErrorModel};
use crate::volume::disk_store::{
    law_reconcile_keeps_records, reconciled, sealed, setup_begun, tracked_once, tracking_ids,
    StoreModel,
};
use crate::volume::finalize::{
    disk_finalized, disks_finalized, finalization_round, lemma_round_takes, rounds_finalized,
    store_finalized,
};
use crate::volume::reconcile::{occurrences, successes};
use crate::volume::wire::{disks_in, VolumeModel, VolumeReply};
use vstd::prelude::*;

verus! {

/// Which of the disks cannot be finalized, with the replies that come back: those whose device is
/// not let go, or whose artifacts are not removed.
pub open spec fn failing(rs: Seq<VolumeReply>, disks: Seq<DiskModel>) -> Seq<bool>
    decreases disks.len(),
{
    if disks.len() == 0 {
        seq![]
    } else {
        let (rest, came) = disk_finalized(rs, disks[0]);
        seq![came matches Ok(Some(_))] + failing(rest, disks.drop_first())
    }
}

/// The disks that remain after a round over all disks in a store.
pub open spec fn round_remaining(rs: Seq<VolumeReply>) -> Seq<DiskModel> {
    match disks_finalized(rs.drop_first(), disks_in(rs[0]), seq![], seq![]).1 {
        Ok((_, remaining)) => remaining,
        Err(_) => seq![],
    }
}

/// The store after a round.
pub open spec fn store_after_round(s: StoreModel, rs: Seq<VolumeReply>) -> StoreModel {
    if rs.len() == 0 || disks_in(rs[0]).len() == 0 {
        s
    } else {
        reconciled(s, disks_in(rs[0]), round_remaining(rs))
    }
}

/// Whether the replies are those of a store: each look at it shows the disks that it has then.
pub open spec fn shows_store(s: StoreModel, rs: Seq<VolumeReply>) -> bool
    decreases rs.len(),
{
    rs.len() > 0 ==> disks_in(rs[0]) == s.disks && match finalization_round(rs) {
        (rest, Ok(Ok(false))) => rest.len() < rs.len() ==> shows_store(
            store_after_round(s, rs),
            rest,
        ),
        _ => true,
    }
}

/// The store after the rounds that were made over it.
pub open spec fn store_after_rounds(s: StoreModel, rs: Seq<VolumeReply>) -> StoreModel
    decreases rs.len(),
{
    match finalization_round(rs) {
        (rest, Ok(Ok(false))) => if rest.len() < rs.len() {
            store_after_rounds(store_after_round(s, rs), rest)
        } else {
            s
        },
        (_, Ok(_)) => store_after_round(s, rs),
        (_, Err(_)) => s,
    }
}

/// What remains of some disks is what failed, in their order, behind what remained before, and each
/// of them is reported.
proof fn lemma_failing_remain(
    rs: Seq<VolumeReply>,
    disks: Seq<DiskModel>,
    errors: Seq<Seq<char>>,
    remaining: Seq<DiskModel>,
)
    requires
        disks_finalized(rs, disks, errors, remaining).1 is Ok,
    ensures
        ({
            let (reported, left) = disks_finalized(rs, disks, errors, remaining).1->Ok_0;
            let failed = failing(rs, disks);
            &&& failed.len() == disks.len()
            &&& reported.len() - errors.len() == left.len() - remaining.len()
            &&& left.len() >= remaining.len()
            &&& forall|i: int| 0 <= i < remaining.len() ==> left[i] == remaining[i]
            &&& forall|i: int|
                remaining.len() <= i < left.len() ==> exists|j: int|
                    0 <= j < disks.len() && #[trigger] failed[j] && disks[j] == #[trigger] left[i]
            &&& forall|j: int|
                0 <= j < disks.len() && #[trigger] failed[j] ==> left.contains(disks[j])
            &&& left.len() == remaining.len() <==> forall|j: int|
                0 <= j < disks.len() ==> !#[trigger] failed[j]
        }),
    decreases disks.len(),
{
    let failed = failing(rs, disks);
    if disks.len() > 0 {
        let (rest, came) = disk_finalized(rs, disks[0]);
        let behind = disks.drop_first();
        let later = failing(rest, behind);
        let (errors1, remaining1) = match came {
            Ok(Some(error)) => (errors.push(error), remaining.push(disks[0])),
            _ => (errors, remaining),
        };
        lemma_failing_remain(rest, behind, errors1, remaining1);
        let (reported, left) = disks_finalized(rest, behind, errors1, remaining1).1->Ok_0;
        assert(failed[0] == (came matches Ok(Some(_))));
        assert forall|j: int| 1 <= j < disks.len() implies #[trigger] failed[j] == later[j - 1]
            && disks[j] == behind[j - 1] by {}
        assert forall|i: int| 0 <= i < remaining.len() implies left[i] == remaining[i] by {
            assert(remaining1[i] == remaining[i]);
        }
        assert forall|i: int| remaining.len() <= i < left.len() implies exists|j: int|
            0 <= j < disks.len() && #[trigger] failed[j] && disks[j] == #[trigger] left[i] by {
            if i < remaining1.len() {
                assert(left[i] == remaining1[i]);
                assert(failed[0] && disks[0] == left[i]);
            } else {
                let k = choose|k: int|
                    0 <= k < behind.len() && #[trigger] later[k] && behind[k] == left[i];
                assert(failed[k + 1] && disks[k + 1] == left[i]);
            }
        }
        assert forall|j: int| 0 <= j < disks.len() && #[trigger] failed[j] implies left.contains(
            disks[j],
        ) by {
            if j == 0 {
                assert(left[remaining.len() as int] == remaining1[remaining.len() as int]);
            } else {
                assert(later[j - 1]);
                assert(left.contains(behind[j - 1]));
            }
        }
        if left.len() == remaining.len() {
            assert forall|j: int| 0 <= j < disks.len() implies !#[trigger] failed[j] by {
                if j > 0 {
                    assert(!later[j - 1]);
                }
            }
        }
        if forall|j: int| 0 <= j < disks.len() ==> !#[trigger] failed[j] {
            assert(!failed[0]);
            assert forall|k: int| 0 <= k < behind.len() implies !#[trigger] later[k] by {
                assert(!failed[k + 1]);
            }
        }
    }
}

proof fn lemma_occurs(keys: Seq<u64>, key: u64)
    ensures
        occurrences(keys, key) > 0 <==> keys.contains(key),
    decreases keys.len(),
{
    if keys.len() > 0 {
        let front = keys.drop_last();
        lemma_occurs(front, key);
        if front.contains(key) {
            let i = choose|i: int| 0 <= i < front.len() && front[i] == key;
            assert(keys[i] == key);
        }
        if keys.contains(key) && keys.last() != key {
            let i = choose|i: int| 0 <= i < keys.len() && keys[i] == key;
            assert(front[i] == key);
        }
        if keys.last() == key {
            assert(keys[keys.len() - 1] == key);
        }
    }
}

proof fn lemma_occurs_once(disks: Seq<DiskModel>, upto: int, key: u64)
    requires
        tracked_once(disks),
        0 <= upto <= disks.len(),
    ensures
        occurrences(tracking_ids(disks).take(upto), key) <= 1,
    decreases upto,
{
    if upto > 0 {
        let keys = tracking_ids(disks).take(upto);
        let front = tracking_ids(disks).take(upto - 1);
        assert(keys.drop_last() =~= front);
        lemma_occurs_once(disks, upto - 1, key);
        if keys.last() == key && occurrences(front, key) > 0 {
            lemma_occurs(front, key);
            let i = choose|i: int| 0 <= i < front.len() && front[i] == key;
            assert(disks[i].tracking_id == disks[upto - 1].tracking_id);
        }
    }
}

/// Of the disks that were all tried, the store keeps exactly those that remain.
proof fn lemma_store_keeps_remaining(s: StoreModel, remaining: Seq<DiskModel>)
    requires
        tracked_once(s.disks),
        forall|i: int| 0 <= i < remaining.len() ==> s.disks.contains(#[trigger] remaining[i]),
    ensures
        ({
            let after = reconciled(s, s.disks, remaining);
            &&& tracked_once(after.disks)
            &&& forall|disk: DiskModel| #[trigger]
                after.disks.contains(disk) <==> remaining.contains(disk)
        }),
{
    let after = reconciled(s, s.disks, remaining);
    let tried = tracking_ids(s.disks);
    let left = tracking_ids(remaining);
    law_reconcile_keeps_records(s.disks, s.disks, remaining);
    assert(tried.take(tried.len() as int) =~= tried);
    assert forall|disk: DiskModel| #[trigger] after.disks.contains(disk) <==> remaining.contains(
        disk,
    ) by {
        let key = disk.tracking_id;
        lemma_occurs(tried, key);
        lemma_occurs(left, key);
        lemma_occurs_once(s.disks, s.disks.len() as int, key);
        if after.disks.contains(disk) {
            assert(s.disks.contains(disk) && successes(tried, left, key) == 0);
            let i = choose|i: int| 0 <= i < s.disks.len() && s.disks[i] == disk;
            assert(tried[i] == key);
            assert(left.contains(key));
            let k = choose|k: int| 0 <= k < left.len() && left[k] == key;
            assert(s.disks.contains(remaining[k]));
            let j = choose|j: int| 0 <= j < s.disks.len() && s.disks[j] == remaining[k];
            if i < j {
                assert(s.disks[i].tracking_id != s.disks[j].tracking_id);
            }
            if j < i {
                assert(s.disks[j].tracking_id != s.disks[i].tracking_id);
            }
            assert(remaining[k] == disk);
        }
        if remaining.contains(disk) {
            let k = choose|k: int| 0 <= k < remaining.len() && remaining[k] == disk;
            assert(s.disks.contains(remaining[k]));
            assert(left[k] == key);
            assert(successes(tried, left, key) == 0);
        }
    }
}

/// The finalization of a sandbox that sets no container up any more seals the store, so that no
/// container can be set up afterwards. It succeeds exactly where no disk of the store fails: the
/// store has no disk left then. Otherwise exactly the disks that failed are still in the store, and
/// since nothing else about it has changed, they can be finalized by another try.
pub proof fn law_finalization_keeps_what_failed(s: StoreModel, rs: Seq<VolumeReply>)
    requires
        tracked_once(s.disks),
        s.active_setups == 0,
        rs.len() > 0,
        shows_store(sealed(s), rs.drop_first()),
        store_finalized(rs).1 is Ok,
    ensures
        ({
            let result = store_finalized(rs).1->Ok_0;
            let after = store_after_rounds(sealed(s), rs.drop_first());
            // Behind the reply to the sealing and the first look at the store.
            let failed = failing(rs.skip(2), s.disks);
            &&& after.sealed && setup_begun(after).1 is Err
            &&& after == (StoreModel { disks: after.disks, sealed: true, ..s })
            &&& failed.len() == s.disks.len()
            &&& result is Ok <==> forall|i: int| 0 <= i < failed.len() ==> !#[trigger] failed[i]
            &&& result is Ok <==> after.disks.len() == 0
            &&& forall|disk: DiskModel| #[trigger]
                after.disks.contains(disk) <==> exists|i: int|
                    0 <= i < failed.len() && #[trigger] failed[i] && s.disks[i] == disk
            &&& tracked_once(after.disks)
        }),
{
    let begun = rs.drop_first();
    let start = sealed(s);
    assert(begun.len() > 0);
    assert(begun.drop_first() =~= rs.skip(2));
    let disks = s.disks;
    let failed = failing(rs.skip(2), disks);
    let after = store_after_rounds(start, begun);
    lemma_round_takes(begun);
    if disks.len() == 0 {
        assert(after == start);
    } else {
        let came = disks_finalized(rs.skip(2), disks, seq![], seq![]);
        assert(came.1 is Ok);
        let (errors, remaining) = came.1->Ok_0;
        lemma_failing_remain(rs.skip(2), disks, seq![], seq![]);
        assert forall|i: int| 0 <= i < remaining.len() implies disks.contains(
            #[trigger] remaining[i],
        ) by {
            let j = choose|j: int|
                0 <= j < disks.len() && #[trigger] failed[j] && disks[j] == remaining[i];
            assert(disks[j] == remaining[i]);
        }
        lemma_store_keeps_remaining(start, remaining);
        let kept = reconciled(start, disks, remaining);
        assert(store_after_round(start, begun) == kept);
        assert forall|disk: DiskModel| #[trigger] remaining.contains(disk) <==> exists|i: int|
            0 <= i < failed.len() && #[trigger] failed[i] && disks[i] == disk by {
            if remaining.contains(disk) {
                let k = choose|k: int| 0 <= k < remaining.len() && remaining[k] == disk;
                let j = choose|j: int|
                    0 <= j < disks.len() && #[trigger] failed[j] && disks[j] == remaining[k];
                assert(failed[j] && disks[j] == disk);
            }
        }
        let (rest, round) = finalization_round(begun);
        if errors.len() == 0 {
            assert(remaining.len() == 0);
            assert(kept.disks.len() == 0) by {
                if kept.disks.len() > 0 {
                    assert(kept.disks.contains(kept.disks[0]));
                    assert(remaining.contains(kept.disks[0]));
                }
            }
            assert(round == Ok::<Result<bool, ErrorModel>, VolumeModel>(Ok(false)));
            assert(rounds_finalized(begun) == rounds_finalized(rest));
            assert(rest.len() > 0);
            reveal_with_fuel(shows_store, 2);
            reveal_with_fuel(store_after_rounds, 2);
            assert(disks_in(rest[0]) == kept.disks);
            assert(finalization_round(rest) == (
                rest.drop_first(),
                Ok::<Result<bool, ErrorModel>, VolumeModel>(Ok(true)),
            ));
            assert(after == kept);
        } else {
            assert(after == kept);
            assert(kept.disks.len() > 0) by {
                assert(remaining.contains(remaining[0]));
                assert(kept.disks.contains(remaining[0]));
            }
        }
    }
}

} // verus!
