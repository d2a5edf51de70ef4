//! How disks are detached, finalized and tried again, one after the other.
use crate::error::{DiskModel, ErrorModel};
use crate::volume::artifacts::artifacts_cleaned;
use crate::volume::disk_store::{
    disk_registered, id_allocated, lemma_tracked_at, setup_begun, stats_path, tracked_at, untracked,
    upserted, StoreModel,
};
use crate::volume::finalize::{
    cleaned_after_stop, disk_detached, disk_finalized, disks_detached, rollbacks_retried,
    store_detached, store_finalized, volumes_cleaned, Retry,
};
use crate::volume::wire::{DeviceRemoval, VolumeModel, VolumeReply};
use vstd::prelude::*;

verus! {

/// Whether something that was to be removed is gone: it was removed, or was not there.
pub open spec fn says_gone(reply: VolumeReply) -> bool {
    reply is Done || reply is NotFound
}

/// The artifacts of a disk are removed one after the other, each only where it was made for this
/// sandbox: the disk first, and then what describes its mount, whatever came of the disk. The cleanup
/// succeeds exactly where each of them is gone.
pub proof fn law_artifacts_are_removed_in_turn(
    disk: DiskModel,
    first: VolumeReply,
    second: VolumeReply,
)
    ensures
        ({
            let run = |rs: Seq<VolumeReply>| artifacts_cleaned(rs, disk).1;
            let both = disk.disk_created && disk.metadata_created;
            &&& disk.disk_created ==> run(seq![]) == Err::<Result<(), ErrorModel>, VolumeModel>(
                VolumeModel::RemoveFile(disk.disk_path),
            )
            &&& !disk.disk_created && disk.metadata_created ==> run(seq![]) == Err::<
                Result<(), ErrorModel>,
                VolumeModel,
            >(VolumeModel::RemoveVolumePath(disk.source_path))
            &&& both ==> run(seq![first]) == Err::<Result<(), ErrorModel>, VolumeModel>(
                VolumeModel::RemoveVolumePath(disk.source_path),
            )
            &&& both ==> (run(seq![first, second]) matches Ok(result) && (result is Ok <==> says_gone(
                first,
            ) && says_gone(second)))
            &&& disk.disk_created != disk.metadata_created ==> (run(seq![first]) matches Ok(result)
                && (result is Ok <==> says_gone(first)))
            &&& !disk.disk_created && !disk.metadata_created ==> (run(seq![]) matches Ok(Ok(_)))
        }),
{
    assert(seq![first].drop_first() =~= seq![]);
    assert(seq![first, second].drop_first() =~= seq![second]);
}

/// The device of a disk is let go after the virtual machine has stopped, where it is registered, and
/// only then the artifacts of the disk go. A device that is not known is looked for by the path of the
/// disk.
pub proof fn law_disk_is_finalized_after_its_device(
    disk: DiskModel,
    device: String,
    failed: VolumeReply,
)
    requires
        failed is Failed,
        disk.disk_created,
        disk.metadata_created,
    ensures
        ({
            let run = |rs: Seq<VolumeReply>| disk_finalized(rs, disk).1;
            let asks = |command: VolumeModel| Err::<Option<Seq<char>>, VolumeModel>(command);
            let yes = VolumeReply::Flag(true);
            let no = VolumeReply::Flag(false);
            let done = VolumeReply::Done;
            match disk.device_id {
                Some(id) => {
                    &&& run(seq![]) == asks(VolumeModel::IsRegistered(id))
                    &&& run(seq![no]) == asks(VolumeModel::RemoveFile(disk.disk_path))
                    &&& run(seq![yes]) == asks(VolumeModel::ReleaseAfterStop(id))
                    &&& run(seq![yes, failed]) matches Ok(Some(_))
                    &&& run(seq![yes, done]) == asks(VolumeModel::RemoveFile(disk.disk_path))
                    &&& run(seq![yes, done, done]) == asks(
                        VolumeModel::RemoveVolumePath(disk.source_path),
                    )
                    &&& run(seq![yes, done, done, done]) matches Ok(None)
                    &&& run(seq![yes, done, failed, done]) matches Ok(Some(_))
                },
                None => {
                    &&& run(seq![]) == asks(VolumeModel::FindDevice(disk.disk_path))
                    &&& run(seq![VolumeReply::Device(None)]) == asks(
                        VolumeModel::RemoveFile(disk.disk_path),
                    )
                    &&& run(seq![VolumeReply::Device(Some(device))]) == asks(
                        VolumeModel::IsRegistered(device@),
                    )
                },
            }
        }),
{
    let yes = VolumeReply::Flag(true);
    let no = VolumeReply::Flag(false);
    let done = VolumeReply::Done;
    let none = VolumeReply::Device(None);
    let some = VolumeReply::Device(Some(device));
    assert(seq![no].drop_first() =~= seq![]);
    assert(seq![none].drop_first() =~= seq![]);
    assert(seq![some].drop_first() =~= seq![]);
    assert(seq![yes, done].skip(2) =~= seq![]);
    assert(seq![yes, done, done].skip(2) =~= seq![done]);
    assert(seq![done].drop_first() =~= seq![]);
    assert(seq![yes, done, done, done].skip(2) =~= seq![done, done]);
    assert(seq![done, done].drop_first() =~= seq![done]);
    assert(seq![yes, done, failed, done].skip(2) =~= seq![failed, done]);
    assert(seq![failed, done].drop_first() =~= seq![done]);
}

/// The device of a disk is removed where it is registered: what is known of it is noted first, and
/// what is not registered, or has no device, needs no removal.
pub proof fn law_device_of_a_disk_is_detached(
    disk: DiskModel,
    device: String,
    removal: DeviceRemoval,
    noted: VolumeReply,
    failed: VolumeReply,
)
    requires
        failed is Failed,
    ensures
        ({
            let run = |rs: Seq<VolumeReply>| disk_detached(rs, disk).1;
            let asks = |command: VolumeModel| Err::<Option<Seq<char>>, VolumeModel>(command);
            let yes = VolumeReply::Flag(true);
            let no = VolumeReply::Flag(false);
            match disk.device_id {
                Some(id) => {
                    &&& run(seq![]) == asks(
                        VolumeModel::UpdateDiscovered {
                            tracking_id: disk.tracking_id,
                            device_id: id,
                        },
                    )
                    &&& run(seq![noted]) == asks(VolumeModel::IsRegistered(id))
                    &&& run(seq![noted, no]) matches Ok(None)
                    &&& run(seq![noted, yes]) == asks(VolumeModel::RemoveDevice(id))
                    &&& run(seq![noted, yes, VolumeReply::Removal(removal)]) matches Ok(None)
                    &&& run(seq![noted, yes, failed]) matches Ok(Some(_))
                },
                None => {
                    &&& run(seq![]) == asks(VolumeModel::FindDevice(disk.disk_path))
                    &&& run(seq![VolumeReply::Device(None)]) matches Ok(None)
                    &&& run(seq![VolumeReply::Device(Some(device))]) == asks(
                        VolumeModel::UpdateDiscovered {
                            tracking_id: disk.tracking_id,
                            device_id: device@,
                        },
                    )
                },
            }
        }),
{
    let none = VolumeReply::Device(None);
    let some = VolumeReply::Device(Some(device));
    assert(seq![none].drop_first() =~= seq![]);
    assert(seq![some].drop_first() =~= seq![]);
}

/// The replies under which the devices of disks are noted, registered and detached, one after the
/// other.
pub open spec fn detachments(count: nat) -> Seq<VolumeReply> {
    Seq::new(
        count,
        |i: int|
            if i % 3 == 0 {
                VolumeReply::Done
            } else if i % 3 == 1 {
                VolumeReply::Flag(true)
            } else {
                VolumeReply::Removal(DeviceRemoval::Detached)
            },
    )
}

/// The devices of all disks are detached, each in its turn, and where none fails, the detachment has
/// succeeded.
pub proof fn law_every_device_is_detached(
    disks: Seq<DiskModel>,
    errors: Seq<Seq<char>>,
    count: nat,
)
    requires
        forall|i: int| 0 <= i < disks.len() ==> (#[trigger] disks[i]).device_id is Some,
    ensures
        ({
            let came = disks_detached(detachments(count), disks, errors).1;
            let at = count as int / 3;
            if at >= disks.len() {
                came == Ok::<Seq<Seq<char>>, VolumeModel>(errors)
            } else {
                let id = disks[at].device_id->0;
                came == Err::<Seq<Seq<char>>, VolumeModel>(
                    if count % 3 == 0 {
                        VolumeModel::UpdateDiscovered {
                            tracking_id: disks[at].tracking_id,
                            device_id: id,
                        }
                    } else if count % 3 == 1 {
                        VolumeModel::IsRegistered(id)
                    } else {
                        VolumeModel::RemoveDevice(id)
                    },
                )
            }
        }),
    decreases disks.len(),
{
    if disks.len() > 0 {
        assert(disks[0].device_id is Some);
        if count >= 3 {
            let fewer = (count - 3) as nat;
            assert(detachments(count).skip(3) =~= detachments(fewer));
            law_every_device_is_detached(disks.drop_first(), errors, fewer);
            assert((count - 3) as int / 3 == count as int / 3 - 1);
            if count as int / 3 < disks.len() {
                assert(disks.drop_first()[count as int / 3 - 1] == disks[count as int / 3]);
            }
        }
    }
}

/// A device that could not be detached is never lost: from then on the detachment of the others goes
/// on, and the whole has failed.
pub proof fn law_failed_detachment_is_reported(
    rs: Seq<VolumeReply>,
    disks: Seq<DiskModel>,
    errors: Seq<Seq<char>>,
)
    ensures
        disks_detached(rs, disks, errors).1 matches Ok(reported) ==> {
            &&& reported.len() >= errors.len()
            &&& disks.len() > 0 && (disk_detached(rs, disks[0]).1 matches Ok(Some(_)))
                ==> reported.len() > errors.len()
        },
        rs.len() > 0 ==> (store_detached(rs).1 matches Ok(result) ==> (result is Ok
            <==> disks_detached(
            rs.drop_first(),
            crate::volume::wire::disks_in(rs[0]),
            seq![],
        ).1->Ok_0.len() == 0)),
        store_detached(seq![]).1 == Err::<Result<(), ErrorModel>, VolumeModel>(
            VolumeModel::Snapshot,
        ),
    decreases disks.len(),
{
    if disks.len() > 0 {
        match disk_detached(rs, disks[0]) {
            (rest, Ok(None)) => {
                law_failed_detachment_is_reported(rest, disks.drop_first(), errors);
            },
            (rest, Ok(Some(error))) => {
                law_failed_detachment_is_reported(rest, disks.drop_first(), errors.push(error));
            },
            _ => {},
        }
    }
}

/// The finalization seals the store before it looks at it, and is done at once where it is empty.
pub proof fn law_finalization_seals_first(sealed: VolumeReply, none: VolumeReply)
    requires
        none matches VolumeReply::Disks(disks) && disks@.len() == 0,
    ensures
        store_finalized(seq![]).1 == Err::<Result<(), ErrorModel>, VolumeModel>(
            VolumeModel::SealAndWait,
        ),
        store_finalized(seq![sealed]).1 == Err::<Result<(), ErrorModel>, VolumeModel>(
            VolumeModel::Snapshot,
        ),
        store_finalized(seq![sealed, none]).1 == Ok::<Result<(), ErrorModel>, VolumeModel>(Ok(())),
{
    assert(seq![sealed].drop_first() =~= seq![]);
    assert(seq![sealed, none].drop_first() =~= seq![none]);
}

/// Volumes whose cleanup failed are tried again one after the other, each by the number it is known
/// by, in the way that the virtual machine allows. What failed again remains, with a reason, and
/// nothing else does.
pub proof fn law_pending_volumes_are_tried_again(
    rs: Seq<VolumeReply>,
    retry: Retry,
    volumes: Seq<u64>,
    errors: Seq<Seq<char>>,
    remaining: Seq<u64>,
)
    ensures
        ({
            let came = volumes_cleaned(rs, retry, volumes, errors, remaining).1;
            if rs.len() < volumes.len() {
                let next = volumes[rs.len() as int];
                came == Err::<(Seq<Seq<char>>, Seq<u64>), VolumeModel>(
                    if retry == Retry::Live {
                        VolumeModel::CleanupVolume(next)
                    } else {
                        VolumeModel::CleanupAfterStop(next)
                    },
                )
            } else {
                came matches Ok((reported, left)) && {
                    &&& reported.len() - errors.len() == left.len() - remaining.len()
                    &&& left.len() >= remaining.len()
                    &&& forall|i: int| 0 <= i < remaining.len() ==> left[i] == remaining[i]
                    &&& forall|i: int|
                        0 <= i < volumes.len() && !((#[trigger] rs[i]) is Done) ==> left.contains(
                            volumes[i],
                        )
                    &&& forall|k: int|
                        remaining.len() <= k < left.len() ==> exists|i: int|
                            0 <= i < volumes.len() && !((#[trigger] rs[i]) is Done) && volumes[i]
                                == #[trigger] left[k]
                    &&& (forall|i: int| 0 <= i < volumes.len() ==> (#[trigger] rs[i]) is Done)
                        ==> left == remaining
                }
            }
        }),
    decreases volumes.len(),
{
    if volumes.len() > 0 && rs.len() > 0 {
        let rest = rs.drop_first();
        let later = volumes.drop_first();
        let failed = !(rs[0] is Done);
        let errors1 = if failed {
            volumes_cleaned_errors(rs, retry, errors)
        } else {
            errors
        };
        let remaining1 = if failed {
            remaining.push(volumes[0])
        } else {
            remaining
        };
        law_pending_volumes_are_tried_again(rest, retry, later, errors1, remaining1);
        if rs.len() >= volumes.len() {
            let (reported, left) = volumes_cleaned(rs, retry, volumes, errors, remaining).1->Ok_0;
            assert forall|i: int| 0 <= i < remaining.len() implies left[i] == remaining[i] by {
                assert(remaining1[i] == remaining[i]);
            }
            assert forall|i: int| 0 <= i < volumes.len() && !((#[trigger] rs[i]) is Done) implies left.contains(
                volumes[i],
            ) by {
                if i == 0 {
                    assert(left[remaining.len() as int] == remaining1[remaining.len() as int]);
                } else {
                    assert(rest[i - 1] == rs[i]);
                    assert(later[i - 1] == volumes[i]);
                }
            }
            assert forall|k: int| remaining.len() <= k < left.len() implies exists|i: int|
                0 <= i < volumes.len() && !((#[trigger] rs[i]) is Done) && volumes[i]
                    == #[trigger] left[k] by {
                if k < remaining1.len() {
                    assert(left[k] == remaining1[k]);
                    assert(!(rs[0] is Done) && volumes[0] == left[k]);
                } else {
                    let i = choose|i: int|
                        0 <= i < later.len() && !((#[trigger] rest[i]) is Done) && later[i]
                            == left[k];
                    assert(rs[i + 1] == rest[i]);
                    assert(volumes[i + 1] == later[i]);
                }
            }
            if forall|i: int| 0 <= i < volumes.len() ==> (#[trigger] rs[i]) is Done {
                assert(rs[0] is Done);
                assert forall|i: int| 0 <= i < later.len() implies (#[trigger] rest[i]) is Done by {
                    assert(rs[i + 1] is Done);
                }
            }
        }
    }
}

spec fn volumes_cleaned_errors(
    rs: Seq<VolumeReply>,
    retry: Retry,
    errors: Seq<Seq<char>>,
) -> Seq<Seq<char>> {
    errors.push(
        crate::volume::finalize::cleanup_context(retry) + crate::error::error_chain_text(
            crate::volume::wire::done_in(rs[0])->Err_0,
        ),
    )
}

/// The pending volumes are read first, and once each was tried, what remains of them is written back.
/// The retry has succeeded exactly where nothing remains.
pub proof fn law_retry_writes_back_what_remains(
    rs: Seq<VolumeReply>,
    retry: Retry,
    volumes: Vec<u64>,
    written: VolumeReply,
)
    requires
        rs.len() == volumes@.len(),
    ensures
        rollbacks_retried(seq![], retry).1 == Err::<Result<(), ErrorModel>, VolumeModel>(
            VolumeModel::PendingVolumes,
        ),
        rollbacks_retried(seq![VolumeReply::Volumes(volumes)] + rs, retry).1 matches Err(
            VolumeModel::ReconcilePending { attempted, remaining },
        ) && attempted == volumes@ && {
            &&& forall|i: int|
                0 <= i < volumes@.len() && !((#[trigger] rs[i]) is Done) ==> remaining.contains(
                    volumes@[i],
                )
            &&& (forall|i: int| 0 <= i < volumes@.len() ==> (#[trigger] rs[i]) is Done)
                ==> remaining.len() == 0
        },
        rollbacks_retried(
            seq![VolumeReply::Volumes(volumes)] + rs.push(written),
            retry,
        ).1 matches Ok(result) && (result is Ok <==> forall|i: int|
            0 <= i < volumes@.len() ==> (#[trigger] rs[i]) is Done),
{
    let first = seq![VolumeReply::Volumes(volumes)];
    let none = Seq::<Seq<char>>::empty();
    assert((first + rs).drop_first() =~= rs);
    assert((first + rs.push(written)).drop_first() =~= rs.push(written));
    law_pending_volumes_are_tried_again(rs, retry, volumes@, none, seq![]);
    law_pending_volumes_are_tried_again(rs.push(written), retry, volumes@, none, seq![]);
    lemma_cleaned_takes(rs, retry, volumes@, none, seq![]);
    lemma_cleaned_takes(rs.push(written), retry, volumes@, none, seq![]);
    let (reported, left) = volumes_cleaned(
        rs.push(written),
        retry,
        volumes@,
        none,
        seq![],
    ).1->Ok_0;
    let more = rs.push(written);
    assert(forall|i: int| 0 <= i < rs.len() ==> more[i] == rs[i]);
    if reported.len() == 0 {
        assert(left.len() == 0);
        assert forall|i: int| 0 <= i < volumes@.len() implies (#[trigger] rs[i]) is Done by {
            if !(rs[i] is Done) {
                assert(!(more[i] is Done));
                assert(left.contains(volumes@[i]));
            }
        }
    } else if forall|i: int| 0 <= i < volumes@.len() ==> (#[trigger] rs[i]) is Done {
        assert forall|i: int| 0 <= i < volumes@.len() implies (#[trigger] more[i]) is Done by {
            assert(rs[i] is Done);
        }
        assert(left.len() == 0);
    }
}

proof fn lemma_cleaned_takes(
    rs: Seq<VolumeReply>,
    retry: Retry,
    volumes: Seq<u64>,
    errors: Seq<Seq<char>>,
    remaining: Seq<u64>,
)
    requires
        rs.len() >= volumes.len(),
    ensures
        volumes_cleaned(rs, retry, volumes, errors, remaining).0.len() == rs.len() - volumes.len(),
    decreases volumes.len(),
{
    if volumes.len() > 0 {
        let failed = !(rs[0] is Done);
        lemma_cleaned_takes(
            rs.drop_first(),
            retry,
            volumes.drop_first(),
            if failed {
                volumes_cleaned_errors(rs, retry, errors)
            } else {
                errors
            },
            if failed {
                remaining.push(volumes[0])
            } else {
                remaining
            },
        );
    }
}

/// After the virtual machine has stopped, a volume is clean once its device is not registered any
/// more, or is let go. One without a device has something else on the host, and is not clean.
pub proof fn law_stopped_volume_lets_its_device_go(
    device_id: Option<Seq<char>>,
    failed: VolumeReply,
)
    requires
        failed is Failed,
    ensures
        ({
            let run = |rs: Seq<VolumeReply>| cleaned_after_stop(rs, device_id).1;
            let yes = VolumeReply::Flag(true);
            let no = VolumeReply::Flag(false);
            match device_id {
                None => run(seq![]) matches Ok(Err(_)),
                Some(id) => {
                    &&& run(seq![]) == Err::<Result<(), ErrorModel>, VolumeModel>(
                        VolumeModel::IsRegistered(id),
                    )
                    &&& run(seq![no]) matches Ok(Ok(_))
                    &&& run(seq![yes]) == Err::<Result<(), ErrorModel>, VolumeModel>(
                        VolumeModel::ReleaseAfterStop(id),
                    )
                    &&& run(seq![yes, VolumeReply::Done]) matches Ok(Ok(_))
                    &&& run(seq![yes, failed]) matches Ok(Err(_))
                },
            }
        }),
{
}

/// A disk that is put into the store changes no other record: it takes the place of the one with its
/// number, or stands behind all of them.
pub proof fn law_other_records_stay(disks: Seq<DiskModel>, disk: DiskModel, i: int)
    requires
        0 <= i < disks.len(),
    ensures
        disks[i].tracking_id != disk.tracking_id ==> upserted(disks, disk)[i] == disks[i],
        upserted(disks, disk).contains(disk),
        disks.len() <= upserted(disks, disk).len() <= disks.len() + 1,
        disks[i].tracking_id == disk.tracking_id ==> upserted(disks, disk).len() == disks.len(),
{
    lemma_tracked_at(disks, disk.tracking_id);
    let at = tracked_at(disks, disk.tracking_id);
    assert(upserted(disks, disk)[at] == disk);
}

/// Letting go of a disk keeps all others, in their order.
pub proof fn law_letting_go_keeps_the_others(disks: Seq<DiskModel>, tracking_id: u64)
    ensures
        untracked(disks, tracking_id) == disks.filter(
            |disk: DiskModel| disk.tracking_id != tracking_id,
        ),
    decreases disks.len(),
{
    reveal_with_fuel(Seq::filter, 2);
    if disks.len() > 0 {
        law_letting_go_keeps_the_others(disks.drop_last(), tracking_id);
    }
}

/// Tracking numbers are given out one after the other, up to the largest, and then no more.
pub proof fn law_tracking_ids_count_up(s: StoreModel)
    ensures
        !s.exhausted ==> id_allocated(s).1 == Ok::<u64, ErrorModel>(s.next_tracking_id),
        !s.exhausted && s.next_tracking_id < u64::MAX ==> id_allocated(s).0 == (StoreModel {
            next_tracking_id: (s.next_tracking_id + 1) as u64,
            ..s
        }),
        !s.exhausted && s.next_tracking_id == u64::MAX ==> id_allocated(s).0.exhausted,
        s.exhausted ==> id_allocated(s).1 is Err && id_allocated(s).0 == s,
{
}

/// As long as the store is not sealed, a setup is counted and a disk is taken in.
pub proof fn law_open_store_accepts(s: StoreModel, disk: DiskModel)
    requires
        !s.sealed,
        s.active_setups < usize::MAX,
    ensures
        setup_begun(s).1 is Ok,
        setup_begun(s).0 == (StoreModel { active_setups: (s.active_setups + 1) as usize, ..s }),
        disk_registered(s, disk).1 is Ok,
        disk_registered(s, disk).0.disks.contains(disk),
        disk_registered(s, disk).0 == (StoreModel {
            disks: disk_registered(s, disk).0.disks,
            ..s
        }),
{
    lemma_tracked_at(s.disks, disk.tracking_id);
    let at = tracked_at(s.disks, disk.tracking_id);
    assert(upserted(s.disks, disk)[at] == disk);
}

/// Whether a disk is at that path of the host, and the guest has it somewhere.
pub open spec fn serves(disk: DiskModel, host_path: Seq<char>) -> bool {
    (disk.source_path == host_path || disk.disk_path == host_path) && disk.guest_stats_path.len()
        > 0
}

/// Where the guest has a volume is what the newest disk at that path says, among those of which the
/// guest has one; without such a disk, the guest has none.
pub proof fn law_newest_disk_tells_where_the_guest_has_it(
    disks: Seq<DiskModel>,
    host_path: Seq<char>,
)
    ensures
        match stats_path(disks, host_path) {
            Some(path) => exists|i: int|
                0 <= i < disks.len() && serves(#[trigger] disks[i], host_path)
                    && disks[i].guest_stats_path == path && forall|j: int|
                    i < j < disks.len() ==> !serves(#[trigger] disks[j], host_path),
            None => forall|i: int| 0 <= i < disks.len() ==> !serves(#[trigger] disks[i], host_path),
        },
    decreases disks.len(),
{
    if disks.len() > 0 {
        let front = disks.drop_last();
        let last = disks.len() - 1;
        if serves(disks[last], host_path) {
            assert(serves(disks[last], host_path) && disks[last].guest_stats_path == stats_path(
                disks,
                host_path,
            )->0);
        } else {
            law_newest_disk_tells_where_the_guest_has_it(front, host_path);
            match stats_path(front, host_path) {
                Some(path) => {
                    let i = choose|i: int|
                        0 <= i < front.len() && serves(#[trigger] front[i], host_path)
                            && front[i].guest_stats_path == path && forall|j: int|
                            i < j < front.len() ==> !serves(#[trigger] front[j], host_path);
                    assert(disks[i] == front[i]);
                    assert forall|j: int| i < j < disks.len() implies !serves(
                        #[trigger] disks[j],
                        host_path,
                    ) by {
                        if j < last {
                            assert(disks[j] == front[j]);
                        }
                    }
                },
                None => {
                    assert forall|i: int| 0 <= i < disks.len() implies !serves(
                        #[trigger] disks[i],
                        host_path,
                    ) by {
                        if i < last {
                            assert(disks[i] == front[i]);
                        }
                    }
                },
            }
        }
    }
}

} // verus!
