//! Which volume a mount gets, and what a container is left with when one of them fails.
use crate::error::ErrorModel;
use crate::volume::handler::{
    container_handled, disks_of, handling_failed, mount_handled, mounts_handled, nothing_undone,
    volume_undone, volumes_undone, HandledModel, MountFacts, RollbackModel, VolumeContext,
};
use crate::volume::wire::{DeviceRemoval, VolumeKind, VolumeModel, VolumeReply};
use vstd::prelude::*;

verus! {

/// Whether a mount is a directory of the host that is to be a block device of the guest: it is bound
/// from an `emptyDir` on a disk, and the mode says so.
pub open spec fn becomes_block(m: MountFacts, mode: Seq<char>) -> bool {
    &&& mode == "block-encrypted"@ || mode == "block-plain"@
    &&& m.typ matches Some(typ) && typ@ == "bind"@
    &&& m.source is Some
    &&& m.disk_empty_dir
}

/// Whether a mount is a directory that is to be made inside the guest: it is an `emptyDir` on a disk,
/// nothing can be shared, and the mode has no block devices.
pub open spec fn becomes_local(m: MountFacts, context: VolumeContext) -> bool {
    let mode = context.emptydir.emptydir_mode@;
    &&& !context.fs_sharing_supported
    &&& mode != "block-encrypted"@
    &&& mode != "block-plain"@
    &&& m.source is Some
    &&& m.disk_empty_dir
}

/// The kind of the volume of a mount, where the mount alone decides; a block device of the guest has
/// none of these kinds.
pub open spec fn plain_kind(m: MountFacts, context: VolumeContext) -> Option<VolumeKind> {
    if m.is_shm {
        Some(VolumeKind::Shm)
    } else if m.is_ephemeral {
        Some(VolumeKind::Ephemeral)
    } else if becomes_block(m, context.emptydir.emptydir_mode@) {
        None
    } else if becomes_local(m, context) {
        Some(VolumeKind::Local)
    } else if m.is_block {
        Some(VolumeKind::Block)
    } else {
        None
    }
}

/// Whether the mount alone decides that its volume is a block device of the guest.
pub open spec fn blocked(m: MountFacts, context: VolumeContext) -> bool {
    !m.is_shm && !m.is_ephemeral && becomes_block(m, context.emptydir.emptydir_mode@)
}

/// The volume of a mount is of the first kind that fits. Where the mount does not decide, it is asked
/// whether a direct volume is there, and then whether the mount has huge pages; what is neither is
/// shared where it can be, and mounted as it is otherwise. Whatever the kind, the volume has the
/// number of the mount, and may only be read exactly where an option of the mount is `ro`.
pub proof fn law_volume_is_of_the_first_kind_that_fits(
    context: VolumeContext,
    ordinal: usize,
    m: MountFacts,
)
    requires
        context.first_volume + ordinal <= u64::MAX,
    ensures
        ({
            let run = |rs: Seq<VolumeReply>| mount_handled(rs, context, ordinal, m).1;
            let made = |kind: VolumeKind|
                Err::<Result<Option<HandledModel>, ErrorModel>, VolumeModel>(
                    VolumeModel::Construct {
                        ordinal,
                        number: (context.first_volume + ordinal) as u64,
                        kind,
                        read_only: m.options.deep_view().contains("ro"@),
                    },
                );
            let yes = VolumeReply::Flag(true);
            let no = VolumeReply::Flag(false);
            if let Some(kind) = plain_kind(m, context) {
                run(seq![]) == made(kind)
            } else if blocked(m, context) {
                run(seq![]) matches Err(VolumeModel::LockTransaction(source)) && m.source matches Some(
                    given,
                ) && source == given@
            } else {
                &&& run(seq![]) matches Err(VolumeModel::IsDirectVolume(at)) && at == ordinal
                &&& run(seq![yes]) == made(VolumeKind::Direct)
                &&& run(seq![no]) matches Err(VolumeModel::HasHugePages(at)) && at == ordinal
                &&& run(seq![no, yes]) matches Err(VolumeModel::HugePageLimits)
                &&& run(seq![no, yes, VolumeReply::Done]) == made(VolumeKind::HugePage)
                &&& m.is_share_fs ==> run(seq![no, no]) == made(VolumeKind::ShareFs)
                &&& !m.is_share_fs ==> run(seq![no, no]) == made(VolumeKind::Plain)
            }
        }),
{
    let yes = VolumeReply::Flag(true);
    let no = VolumeReply::Flag(false);
    let done = VolumeReply::Done;
    assert(seq![yes].drop_first() =~= seq![]);
    assert(seq![no].drop_first() =~= seq![]);
    assert(seq![no, yes].drop_first() =~= seq![yes]);
    assert(seq![no, no].drop_first() =~= seq![no]);
    assert(seq![no, yes, done].drop_first() =~= seq![yes, done]);
    assert(seq![yes, done].drop_first() =~= seq![done]);
    assert(seq![done].drop_first() =~= seq![]);
}

/// A volume that was constructed is that of its mount. One that could not be constructed is an error,
/// and a direct volume that turns out to be none leaves the mount without a volume.
pub proof fn law_constructed_volume_is_that_of_its_mount(
    context: VolumeContext,
    ordinal: usize,
    m: MountFacts,
    failed: VolumeReply,
)
    requires
        context.first_volume + ordinal <= u64::MAX,
        failed is Failed,
    ensures
        ({
            let run = |rs: Seq<VolumeReply>| mount_handled(rs, context, ordinal, m).1;
            let yes = VolumeReply::Flag(true);
            let no = VolumeReply::Flag(false);
            let own = Ok::<Result<Option<HandledModel>, ErrorModel>, VolumeModel>(
                Ok(
                    Some(
                        HandledModel {
                            ordinal: ordinal as u64,
                            number: (context.first_volume + ordinal) as u64,
                            block_emptydir: None,
                        },
                    ),
                ),
            );
            if plain_kind(m, context) is Some {
                &&& run(seq![yes]) == own
                &&& run(seq![no]) == own
                &&& run(seq![failed]) matches Ok(Err(_))
            } else if !blocked(m, context) {
                &&& run(seq![yes, yes]) == own
                &&& run(seq![yes, no]) matches Ok(Ok(None))
                &&& run(seq![yes, failed]) matches Ok(Err(_))
                &&& run(seq![no, no, yes]) == own
                &&& run(seq![no, no, failed]) matches Ok(Err(_))
                &&& run(seq![failed]) matches Ok(Err(_))
                &&& run(seq![no, failed]) matches Ok(Err(_))
            } else {
                true
            }
        }),
{
    let yes = VolumeReply::Flag(true);
    let no = VolumeReply::Flag(false);
    assert(seq![yes, yes].drop_first() =~= seq![yes]);
    assert(seq![yes, no].drop_first() =~= seq![no]);
    assert(seq![yes, failed].drop_first() =~= seq![failed]);
    assert(seq![no, failed].drop_first() =~= seq![failed]);
    assert(seq![no, no, yes].drop_first() =~= seq![no, yes]);
    assert(seq![no, yes].drop_first() =~= seq![yes]);
    assert(seq![no, no, failed].drop_first() =~= seq![no, failed]);
}

/// Whether volumes have one for that mount, which is a block device of the guest exactly where the
/// mount becomes one.
pub open spec fn has_volume(
    volumes: Seq<HandledModel>,
    context: VolumeContext,
    m: MountFacts,
    ordinal: int,
) -> bool {
    exists|k: int|
        0 <= k < volumes.len() && (#[trigger] volumes[k]).ordinal == ordinal && volumes[k].number
            == context.first_volume + ordinal && (volumes[k].block_emptydir is Some <==> blocked(
            m,
            context,
        ))
}

proof fn lemma_one_more(
    volumes: Seq<HandledModel>,
    volume: HandledModel,
    context: VolumeContext,
    m: MountFacts,
    ordinal: int,
)
    requires
        has_volume(volumes, context, m, ordinal),
    ensures
        has_volume(volumes.push(volume), context, m, ordinal),
{
    let k = choose|k: int|
        0 <= k < volumes.len() && (#[trigger] volumes[k]).ordinal == ordinal && volumes[k].number
            == context.first_volume + ordinal && (volumes[k].block_emptydir is Some <==> blocked(
            m,
            context,
        ));
    assert(volumes.push(volume)[k] == volumes[k]);
}

proof fn lemma_every_mount(
    rs: Seq<VolumeReply>,
    context: VolumeContext,
    mounts: Seq<MountFacts>,
    at: int,
    volumes: Seq<HandledModel>,
    i: int,
)
    requires
        0 <= at <= mounts.len() <= usize::MAX,
        context.first_volume + mounts.len() <= u64::MAX,
        0 <= i < mounts.len(),
        plain_kind(mounts[i], context) is Some || blocked(mounts[i], context),
        i < at ==> has_volume(volumes, context, mounts[i], i),
    ensures
        mounts_handled(rs, context, mounts, at, volumes).1 matches Ok(Ok(made)) ==> has_volume(
            made,
            context,
            mounts[i],
            i,
        ),
    decreases mounts.len() - at,
{
    if at < mounts.len() {
        match mount_handled(rs, context, at as usize, mounts[at]) {
            (rest, Ok(Ok(None))) => {
                assert(i != at);
                lemma_every_mount(rest, context, mounts, at + 1, volumes, i);
            },
            (rest, Ok(Ok(Some(volume)))) => {
                let more = volumes.push(volume);
                if i < at {
                    lemma_one_more(volumes, volume, context, mounts[i], i);
                } else if i == at {
                    assert(more[volumes.len() as int] == volume);
                    assert(has_volume(more, context, mounts[i], i));
                }
                lemma_every_mount(rest, context, mounts, at + 1, more, i);
            },
            _ => {},
        }
    }
}

/// A container that gets its volumes gets one for every mount whose kind is clear, under the number of
/// that mount; it is a block device of the guest exactly where the mount becomes one.
pub proof fn law_every_mount_gets_its_volume(
    rs: Seq<VolumeReply>,
    context: VolumeContext,
    mounts: Seq<MountFacts>,
    i: int,
)
    requires
        mounts.len() <= usize::MAX,
        context.first_volume + mounts.len() <= u64::MAX,
        0 <= i < mounts.len(),
        plain_kind(mounts[i], context) is Some || blocked(mounts[i], context),
    ensures
        container_handled(rs, context, mounts).1 matches Ok(Ok(made)) ==> has_volume(
            made,
            context,
            mounts[i],
            i,
        ),
{
    lemma_every_mount(rs, context, mounts, 0, seq![], i);
    lemma_every_mount(rs.drop_first(), context, mounts, 0, seq![], i);
}

/// The setup of a container is announced exactly where one of its mounts is an `emptyDir` on a disk
/// that a block mode is set for, and where that is refused, the container gets no volume and nothing
/// is asked for.
pub proof fn law_setup_is_announced(
    rs: Seq<VolumeReply>,
    context: VolumeContext,
    mounts: Seq<MountFacts>,
)
    ensures
        (exists|i: int|
            0 <= i < mounts.len() && becomes_block(
                #[trigger] mounts[i],
                context.emptydir.emptydir_mode@,
            )) ==> {
            &&& container_handled(seq![], context, mounts).1 matches Err(VolumeModel::BeginSetup)
            &&& rs.len() > 0 && rs[0] is Failed ==> (container_handled(
                rs,
                context,
                mounts,
            ).1 matches Ok(Err(_)))
        },
        !(exists|i: int|
            0 <= i < mounts.len() && becomes_block(
                #[trigger] mounts[i],
                context.emptydir.emptydir_mode@,
            )) ==> container_handled(rs, context, mounts) == mounts_handled(
            rs,
            context,
            mounts,
            0,
            seq![],
        ),
{
    let mode = context.emptydir.emptydir_mode@;
    if exists|i: int| 0 <= i < mounts.len() && becomes_block(#[trigger] mounts[i], mode) {
        let i = choose|i: int| 0 <= i < mounts.len() && becomes_block(#[trigger] mounts[i], mode);
        assert(crate::volume::handler::is_block_emptydir(mounts[i], mode));
    } else {
        assert forall|i: int| 0 <= i < mounts.len() implies !(
        #[trigger] crate::volume::handler::is_block_emptydir(mounts[i], mode)) by {
            assert(!becomes_block(mounts[i], mode));
        }
    }
}

/// A volume of another kind is taken down by its number; one that is a block device has its device
/// removed first, and the artifacts that were made for it only where the device is detached. What
/// could not be taken down is left, with a reason.
pub proof fn law_volume_is_taken_down(
    volume: HandledModel,
    so_far: RollbackModel,
    failed: VolumeReply,
)
    requires
        failed is Failed,
    ensures
        ({
            let run = |rs: Seq<VolumeReply>| volume_undone(rs, volume, so_far).1;
            let done = VolumeReply::Done;
            let detached = VolumeReply::Removal(DeviceRemoval::Detached);
            let shared = VolumeReply::Removal(DeviceRemoval::ReferenceReleased);
            match volume.block_emptydir {
                None => {
                    &&& run(seq![]) == Err::<RollbackModel, VolumeModel>(
                        VolumeModel::CleanupVolume(volume.number),
                    )
                    &&& run(seq![done]) == Ok::<RollbackModel, VolumeModel>(so_far)
                    &&& run(seq![failed]) matches Ok(after) && after.failed == so_far.failed.push(
                        volume.number,
                    ) && after.unresolved == so_far.unresolved && after.errors.len()
                        == so_far.errors.len() + 1
                },
                Some(emptydir) => {
                    let disk = emptydir.disk;
                    &&& run(seq![]) == Err::<RollbackModel, VolumeModel>(
                        VolumeModel::RemoveDevice(emptydir.device_id),
                    )
                    &&& run(seq![failed]) matches Ok(after) && after.unresolved
                        == so_far.unresolved.push(disk) && after.failed == so_far.failed
                        && after.errors.len() == so_far.errors.len() + 1
                    &&& disk.disk_created ==> run(seq![detached]) == Err::<
                        RollbackModel,
                        VolumeModel,
                    >(VolumeModel::RemoveFile(disk.disk_path))
                    &&& disk.disk_created && disk.metadata_created ==> run(seq![detached, done])
                        == Err::<RollbackModel, VolumeModel>(
                        VolumeModel::RemoveVolumePath(disk.source_path),
                    )
                    &&& disk.disk_created && disk.metadata_created ==> run(
                        seq![detached, done, done],
                    ) == Ok::<RollbackModel, VolumeModel>(so_far)
                    &&& disk.disk_created && disk.metadata_created ==> (run(
                        seq![detached, done, failed],
                    ) matches Ok(after) && after.unresolved == so_far.unresolved.push(disk))
                    &&& !disk.disk_created && !disk.metadata_created ==> run(seq![detached])
                        == Ok::<RollbackModel, VolumeModel>(so_far) && run(seq![shared]) == Ok::<
                        RollbackModel,
                        VolumeModel,
                    >(so_far)
                    &&& disk.disk_created ==> (run(seq![shared]) matches Ok(after)
                        && after.unresolved == so_far.unresolved.push(disk))
                },
            }
        }),
{
    let done = VolumeReply::Done;
    let detached = VolumeReply::Removal(DeviceRemoval::Detached);
    assert(seq![detached].drop_first() =~= seq![]);
    assert(seq![detached, done].drop_first() =~= seq![done]);
    assert(seq![done].drop_first() =~= seq![]);
    assert(seq![detached, done, done].drop_first() =~= seq![done, done]);
    assert(seq![done, done].drop_first() =~= seq![done]);
    assert(seq![detached, done, failed].drop_first() =~= seq![done, failed]);
    assert(seq![done, failed].drop_first() =~= seq![failed]);
    assert(seq![failed].drop_first() =~= seq![]);
}

/// That many replies of something that was done.
pub open spec fn all_done(count: nat) -> Seq<VolumeReply> {
    Seq::new(count, |i: int| VolumeReply::Done)
}

/// Every volume is taken down, the newest one first, and where all of them go, nothing is left.
pub proof fn law_every_volume_is_taken_down(
    volumes: Seq<HandledModel>,
    so_far: RollbackModel,
    done: nat,
)
    requires
        forall|i: int| 0 <= i < volumes.len() ==> (#[trigger] volumes[i]).block_emptydir is None,
    ensures
        done < volumes.len() ==> volumes_undone(all_done(done), volumes, so_far).1 == Err::<
            RollbackModel,
            VolumeModel,
        >(VolumeModel::CleanupVolume(volumes[volumes.len() - 1 - done].number)),
        done >= volumes.len() ==> volumes_undone(all_done(done), volumes, so_far).1 == Ok::<
            RollbackModel,
            VolumeModel,
        >(so_far),
    decreases volumes.len(),
{
    if volumes.len() > 0 {
        assert(volumes[volumes.len() - 1].block_emptydir is None);
        if done > 0 {
            let fewer = (done - 1) as nat;
            assert(all_done(done).drop_first() =~= all_done(fewer));
            law_every_volume_is_taken_down(volumes.drop_last(), so_far, fewer);
        }
    }
}

/// After a failure every volume that was made is taken down, and the store is told which disks were
/// to go and which are left; where all of them went, the error is that of the failure, below how many
/// volumes were rolled back.
pub proof fn law_failure_takes_every_volume_down(
    error: ErrorModel,
    volumes: Seq<HandledModel>,
    done: nat,
)
    requires
        forall|i: int| 0 <= i < volumes.len() ==> (#[trigger] volumes[i]).block_emptydir is None,
    ensures
        ({
            let came = handling_failed(all_done(done), error, volumes).1;
            if done < volumes.len() {
                came == Err::<Result<Seq<HandledModel>, ErrorModel>, VolumeModel>(
                    VolumeModel::CleanupVolume(volumes[volumes.len() - 1 - done].number),
                )
            } else if done == volumes.len() {
                came matches Err(VolumeModel::Reconcile { attempted, remaining }) && attempted.len()
                    == 0 && remaining.len() == 0
            } else {
                came matches Ok(Err(shown)) && shown.len() == error.len() + 1 && forall|i: int|
                    0 <= i < error.len() ==> shown[i + 1] == error[i]
            }
        }),
    decreases volumes.len(),
{
    law_every_volume_is_taken_down(volumes, nothing_undone(), done);
    lemma_undone_takes(volumes, nothing_undone(), done);
    lemma_no_disks(volumes);
}

proof fn lemma_no_disks(volumes: Seq<HandledModel>)
    requires
        forall|i: int| 0 <= i < volumes.len() ==> (#[trigger] volumes[i]).block_emptydir is None,
    ensures
        disks_of(volumes).len() == 0,
    decreases volumes.len(),
{
    if volumes.len() > 0 {
        assert(volumes[volumes.len() - 1].block_emptydir is None);
        lemma_no_disks(volumes.drop_last());
    }
}

proof fn lemma_undone_takes(volumes: Seq<HandledModel>, so_far: RollbackModel, done: nat)
    requires
        forall|i: int| 0 <= i < volumes.len() ==> (#[trigger] volumes[i]).block_emptydir is None,
    ensures
        done >= volumes.len() ==> volumes_undone(all_done(done), volumes, so_far).0 == all_done(
            (done - volumes.len()) as nat,
        ),
    decreases volumes.len(),
{
    if volumes.len() > 0 && done > 0 {
        assert(volumes[volumes.len() - 1].block_emptydir is None);
        let fewer = (done - 1) as nat;
        assert(all_done(done).drop_first() =~= all_done(fewer));
        lemma_undone_takes(volumes.drop_last(), so_far, fewer);
    }
}

/// The disks of volumes are those of the volumes that are block devices, in their order.
pub proof fn law_disks_are_those_of_block_volumes(volumes: Seq<HandledModel>)
    ensures
        ({
            let blocks = volumes.filter(|volume: HandledModel| volume.block_emptydir is Some);
            &&& disks_of(volumes).len() == blocks.len()
            &&& forall|i: int|
                0 <= i < blocks.len() ==> (#[trigger] disks_of(volumes)[i])
                    == blocks[i].block_emptydir->0.disk
        }),
    decreases volumes.len(),
{
    reveal_with_fuel(Seq::filter, 2);
    if volumes.len() > 0 {
        law_disks_are_those_of_block_volumes(volumes.drop_last());
    }
}

} // verus!
