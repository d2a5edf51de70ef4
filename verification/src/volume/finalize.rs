//! Taking down the volumes of a sandbox: while it runs, and after its virtual machine has stopped.
use crate::error::{
    error_chain_text, in_context, message, DiskModel, EphemeralDiskInfo, Error, ErrorModel,
};
use crate::qmp::session::outcome;
use crate::table::push_item;
use crate::text::{cat2, cat3, cat4, join, joined};
use crate::volume::artifacts::artifacts_cleaned;
use crate::volume::disk_store::{stats_path, EphemeralDiskStore, StoreModel};
use crate::volume::reconcile::{reconcile_snapshot_occurrences, retained};
use crate::volume::wire::{
    came, device_in, disks_in, done_in, flag_in, given, read_device, read_disks, read_done,
    read_flag, read_removal, read_volumes, removal_in, volumes_in, VolumeCommand, VolumeModel,
    VolumeReply, VolumeSession, VolumeStep,
};
use vstd::prelude::*;

verus! {

/// The result of something that was tried on several items, with why it failed on some.
pub open spec fn summary(errors: Seq<Seq<char>>) -> Result<(), ErrorModel> {
    if errors.len() == 0 {
        Ok(())
    } else {
        Err(message(joined(errors, "; "@)))
    }
}

fn summarize(errors: &Vec<String>) -> (r: Result<(), Error>)
    ensures
        outcome(r) == summary(errors.deep_view()),
{
    if errors.len() == 0 {
        Ok(())
    } else {
        Err(Error::msg(join(errors, "; ")))
    }
}

/// The device of a disk: the one that is known, or the one that has its path.
pub open spec fn device_found(rs: Seq<VolumeReply>, disk: DiskModel) -> VolumeStep<
    Option<Seq<char>>,
> {
    match disk.device_id {
        Some(device_id) => (rs, Ok(Some(device_id))),
        None => if rs.len() == 0 {
            (rs, Err(VolumeModel::FindDevice(disk.disk_path)))
        } else {
            (rs.drop_first(), Ok(device_in(rs[0])))
        },
    }
}

/// The device of one disk is detached, where it is registered; gives why that failed.
pub open spec fn disk_detached(rs: Seq<VolumeReply>, disk: DiskModel) -> VolumeStep<
    Option<Seq<char>>,
> {
    match device_found(rs, disk) {
        (rs, Err(command)) => (rs, Err(command)),
        (rs, Ok(None)) => (rs, Ok(None)),
        (rs, Ok(Some(device_id))) => if rs.len() == 0 {
            (
                rs,
                Err(VolumeModel::UpdateDiscovered { tracking_id: disk.tracking_id, device_id }),
            )
        } else if rs.len() == 1 {
            (rs.drop_first(), Err(VolumeModel::IsRegistered(device_id)))
        } else if !flag_in(rs[1]) {
            (rs.skip(2), Ok(None))
        } else if rs.len() == 2 {
            (rs.skip(2), Err(VolumeModel::RemoveDevice(device_id)))
        } else {
            (
                rs.skip(3),
                Ok(
                    match removal_in(rs[2]) {
                        Ok(_) => None,
                        Err(error) => Some(
                            "detach block emptyDir device "@ + device_id + ": "@
                                + error_chain_text(error),
                        ),
                    },
                ),
            )
        },
    }
}

/// The devices of disks are detached, each one whatever came of the others.
pub open spec fn disks_detached(
    rs: Seq<VolumeReply>,
    disks: Seq<DiskModel>,
    errors: Seq<Seq<char>>,
) -> VolumeStep<Seq<Seq<char>>>
    decreases disks.len(),
{
    if disks.len() == 0 {
        (rs, Ok(errors))
    } else {
        match disk_detached(rs, disks[0]) {
            (rs, Err(command)) => (rs, Err(command)),
            (rs, Ok(None)) => disks_detached(rs, disks.drop_first(), errors),
            (rs, Ok(Some(error))) => disks_detached(rs, disks.drop_first(), errors.push(error)),
        }
    }
}

/// The devices of all disks in the store are detached.
pub open spec fn store_detached(rs: Seq<VolumeReply>) -> VolumeStep<Result<(), ErrorModel>> {
    if rs.len() == 0 {
        (rs, Err(VolumeModel::Snapshot))
    } else {
        match disks_detached(rs.drop_first(), disks_in(rs[0]), seq![]) {
            (rs, Err(command)) => (rs, Err(command)),
            (rs, Ok(errors)) => (rs, Ok(summary(errors))),
        }
    }
}

/// One disk is finalized after the virtual machine has stopped: its device is let go where it is
/// registered, and only then its artifacts are cleaned. Gives why that failed.
pub open spec fn disk_finalized(rs: Seq<VolumeReply>, disk: DiskModel) -> VolumeStep<
    Option<Seq<char>>,
> {
    match device_found(rs, disk) {
        (rs, Err(command)) => (rs, Err(command)),
        (rs, Ok(None)) => disk_cleaned(rs, disk),
        (rs, Ok(Some(device_id))) => if rs.len() == 0 {
            (rs, Err(VolumeModel::IsRegistered(device_id)))
        } else if !flag_in(rs[0]) {
            disk_cleaned(rs.drop_first(), disk)
        } else if rs.len() == 1 {
            (rs.drop_first(), Err(VolumeModel::ReleaseAfterStop(device_id)))
        } else {
            match done_in(rs[1]) {
                Ok(()) => disk_cleaned(rs.skip(2), disk),
                Err(error) => (
                    rs.skip(2),
                    Ok(
                        Some(
                            "finalize block EmptyDir device "@ + device_id + ": "@
                                + error_chain_text(error),
                        ),
                    ),
                ),
            }
        },
    }
}

/// The artifacts of one disk are cleaned; gives why that failed.
pub open spec fn disk_cleaned(rs: Seq<VolumeReply>, disk: DiskModel) -> VolumeStep<
    Option<Seq<char>>,
> {
    match artifacts_cleaned(rs, disk) {
        (rs, Err(command)) => (rs, Err(command)),
        (rs, Ok(Ok(()))) => (rs, Ok(None)),
        (rs, Ok(Err(error))) => (
            rs,
            Ok(
                Some(
                    "clean block EmptyDir artifacts for "@ + disk.source_path + ": "@
                        + error_chain_text(error),
                ),
            ),
        ),
    }
}

/// Disks are finalized, each one whatever came of the others. Gives why it failed, and on which.
pub open spec fn disks_finalized(
    rs: Seq<VolumeReply>,
    disks: Seq<DiskModel>,
    errors: Seq<Seq<char>>,
    remaining: Seq<DiskModel>,
) -> VolumeStep<(Seq<Seq<char>>, Seq<DiskModel>)>
    decreases disks.len(),
{
    if disks.len() == 0 {
        (rs, Ok((errors, remaining)))
    } else {
        match disk_finalized(rs, disks[0]) {
            (rs, Err(command)) => (rs, Err(command)),
            (rs, Ok(None)) => disks_finalized(rs, disks.drop_first(), errors, remaining),
            (rs, Ok(Some(error))) => disks_finalized(
                rs,
                disks.drop_first(),
                errors.push(error),
                remaining.push(disks[0]),
            ),
        }
    }
}

/// One round over the disks in the store. Gives whether the store is empty, or why disks are left.
pub open spec fn finalization_round(rs: Seq<VolumeReply>) -> VolumeStep<Result<bool, ErrorModel>> {
    if rs.len() == 0 {
        (rs, Err(VolumeModel::Snapshot))
    } else {
        let disks = disks_in(rs[0]);
        if disks.len() == 0 {
            (rs.drop_first(), Ok(Ok(true)))
        } else {
            match disks_finalized(rs.drop_first(), disks, seq![], seq![]) {
                (rs, Err(command)) => (rs, Err(command)),
                (rs, Ok((errors, remaining))) => if rs.len() == 0 {
                    (rs, Err(VolumeModel::Reconcile { attempted: disks, remaining }))
                } else {
                    (
                        rs.drop_first(),
                        Ok(
                            match summary(errors) {
                                Ok(()) => Ok(false),
                                Err(error) => Err(error),
                            },
                        ),
                    )
                },
            }
        }
    }
}

pub proof fn lemma_disk_finalized_takes(rs: Seq<VolumeReply>, disk: DiskModel)
    ensures
        disk_finalized(rs, disk).0.len() <= rs.len(),
{
}

pub proof fn lemma_disks_finalized_takes(
    rs: Seq<VolumeReply>,
    disks: Seq<DiskModel>,
    errors: Seq<Seq<char>>,
    remaining: Seq<DiskModel>,
)
    ensures
        disks_finalized(rs, disks, errors, remaining).0.len() <= rs.len(),
    decreases disks.len(),
{
    if disks.len() > 0 {
        lemma_disk_finalized_takes(rs, disks[0]);
        match disk_finalized(rs, disks[0]) {
            (_, Err(_)) => {},
            (left, Ok(None)) => {
                lemma_disks_finalized_takes(left, disks.drop_first(), errors, remaining);
            },
            (left, Ok(Some(error))) => {
                lemma_disks_finalized_takes(
                    left,
                    disks.drop_first(),
                    errors.push(error),
                    remaining.push(disks[0]),
                );
            },
        }
    }
}

/// A round looks at one reply at least.
pub proof fn lemma_round_takes(rs: Seq<VolumeReply>)
    ensures
        finalization_round(rs).1 is Ok ==> finalization_round(rs).0.len() < rs.len(),
{
    if rs.len() > 0 && disks_in(rs[0]).len() > 0 {
        lemma_disks_finalized_takes(rs.drop_first(), disks_in(rs[0]), seq![], seq![]);
    }
}

/// Rounds are made over the store until it is empty or a disk cannot be finalized.
pub open spec fn rounds_finalized(rs: Seq<VolumeReply>) -> VolumeStep<Result<(), ErrorModel>>
    decreases rs.len(),
{
    proof {
        lemma_round_takes(rs);
    }
    match finalization_round(rs) {
        (rs, Err(command)) => (rs, Err(command)),
        (rs, Ok(Ok(true))) => (rs, Ok(Ok(()))),
        (rs, Ok(Err(error))) => (rs, Ok(Err(error))),
        (rest, Ok(Ok(false))) => if rest.len() < rs.len() {
            rounds_finalized(rest)
        } else {
            (rest, Ok(Ok(())))
        },
    }
}

/// The store is sealed, and once no container is being set up any more, all its disks are
/// finalized.
pub open spec fn store_finalized(rs: Seq<VolumeReply>) -> VolumeStep<Result<(), ErrorModel>> {
    if rs.len() == 0 {
        (rs, Err(VolumeModel::SealAndWait))
    } else {
        rounds_finalized(rs.drop_first())
    }
}

/// How volumes whose cleanup failed are tried again.
#[derive(Clone, Copy, Debug, PartialEq, Eq, Structural)]
pub enum Retry {
    /// The virtual machine may run.
    Live,
    /// The virtual machine has stopped.
    AfterStop,
}

/// The command that cleans a volume.
pub open spec fn cleanup_command(retry: Retry, volume: u64) -> VolumeModel {
    match retry {
        Retry::Live => VolumeModel::CleanupVolume(volume),
        Retry::AfterStop => VolumeModel::CleanupAfterStop(volume),
    }
}

/// What a failure to clean a volume is called.
pub open spec fn cleanup_context(retry: Retry) -> Seq<char> {
    match retry {
        Retry::Live => "retry volume rollback cleanup: "@,
        Retry::AfterStop => "finalize failed volume rollback: "@,
    }
}

/// Volumes are cleaned, each one whatever came of the others. Gives why it failed, and on which.
pub open spec fn volumes_cleaned(
    rs: Seq<VolumeReply>,
    retry: Retry,
    volumes: Seq<u64>,
    errors: Seq<Seq<char>>,
    remaining: Seq<u64>,
) -> VolumeStep<(Seq<Seq<char>>, Seq<u64>)>
    decreases volumes.len(),
{
    if volumes.len() == 0 {
        (rs, Ok((errors, remaining)))
    } else if rs.len() == 0 {
        (rs, Err(cleanup_command(retry, volumes[0])))
    } else {
        match done_in(rs[0]) {
            Ok(()) => volumes_cleaned(
                rs.drop_first(),
                retry,
                volumes.drop_first(),
                errors,
                remaining,
            ),
            Err(error) => volumes_cleaned(
                rs.drop_first(),
                retry,
                volumes.drop_first(),
                errors.push(cleanup_context(retry) + error_chain_text(error)),
                remaining.push(volumes[0]),
            ),
        }
    }
}

/// The volumes whose cleanup failed are cleaned again; those that are clean now are let go.
pub open spec fn rollbacks_retried(rs: Seq<VolumeReply>, retry: Retry) -> VolumeStep<
    Result<(), ErrorModel>,
> {
    if rs.len() == 0 {
        (rs, Err(VolumeModel::PendingVolumes))
    } else {
        let volumes = volumes_in(rs[0]);
        match volumes_cleaned(rs.drop_first(), retry, volumes, seq![], seq![]) {
            (rs, Err(command)) => (rs, Err(command)),
            (rs, Ok((errors, remaining))) => if rs.len() == 0 {
                (rs, Err(VolumeModel::ReconcilePending { attempted: volumes, remaining }))
            } else {
                (rs.drop_first(), Ok(summary(errors)))
            },
        }
    }
}

/// A volume is cleaned after the virtual machine has stopped. That lets go of its device; what else
/// it has on the host is not cleaned by that.
pub open spec fn cleaned_after_stop(rs: Seq<VolumeReply>, device_id: Option<Seq<char>>) -> VolumeStep<
    Result<(), ErrorModel>,
> {
    match device_id {
        None => (
            rs,
            Ok(Err(message("non-device host cleanup remains pending after VM stop"@))),
        ),
        Some(device_id) => if rs.len() == 0 {
            (rs, Err(VolumeModel::IsRegistered(device_id)))
        } else if !flag_in(rs[0]) {
            (rs.drop_first(), Ok(Ok(())))
        } else if rs.len() == 1 {
            (rs.drop_first(), Err(VolumeModel::ReleaseAfterStop(device_id)))
        } else {
            (
                rs.skip(2),
                Ok(
                    match done_in(rs[1]) {
                        Ok(()) => Ok(()),
                        Err(error) => Err(
                            in_context(
                                error,
                                "release volume device "@ + device_id
                                    + " after confirmed VM stop"@,
                            ),
                        ),
                    },
                ),
            )
        },
    }
}

impl VolumeSession {
    fn find_device(&mut self, disk: &EphemeralDiskInfo) -> (r: Result<Option<String>, VolumeCommand>)
        ensures
            (final(self)@, given(r)) == device_found(old(self)@, disk.deep_view()),
    {
        match &disk.device_id {
            Some(device_id) => Ok(Some(device_id.clone())),
            None => {
                let reply = self.ask(VolumeCommand::FindDevice(disk.disk_path.clone()))?;
                Ok(read_device(reply))
            },
        }
    }

    fn detach_disk(&mut self, disk: &EphemeralDiskInfo) -> (r: Result<Option<String>, VolumeCommand>)
        ensures
            (final(self)@, given(r)) == disk_detached(old(self)@, disk.deep_view()),
    {
        let device_id = match self.find_device(disk)? {
            Some(device_id) => device_id,
            None => {
                return Ok(None);
            },
        };
        let ghost rest = self@;
        let _ = self.ask(
            VolumeCommand::UpdateDiscovered {
                tracking_id: disk.tracking_id,
                device_id: device_id.clone(),
            },
        )?;
        let reply = self.ask(VolumeCommand::IsRegistered(device_id.clone()))?;
        assert(self@ =~= rest.skip(2));
        assert(reply == rest[1]);
        if !read_flag(reply) {
            return Ok(None);
        }
        let reply = self.ask(VolumeCommand::RemoveDevice(device_id.clone()))?;
        assert(self@ =~= rest.skip(3));
        assert(reply == rest[2]);
        match read_removal(reply) {
            Ok(_) => Ok(None),
            Err(error) => Ok(
                Some(
                    cat4(
                        "detach block emptyDir device ",
                        device_id.as_str(),
                        ": ",
                        error.chain_text().as_str(),
                    ),
                ),
            ),
        }
    }

    /// Detaches the devices of all disks in the store.
    pub fn detach_ephemeral_disks(&mut self) -> (r: Result<Result<(), Error>, VolumeCommand>)
        ensures
            (final(self)@, came(r)) == store_detached(old(self)@),
    {
        let reply = self.ask(VolumeCommand::Snapshot)?;
        let disks = read_disks(reply);
        let ghost start = self@;
        let mut errors: Vec<String> = Vec::new();
        let mut i: usize = 0;
        assert(errors.deep_view() =~= seq![]);
        assert(disks.deep_view().skip(0) =~= disks.deep_view());
        while i < disks.len()
            invariant
                0 <= i <= disks@.len(),
                old(self)@.len() > 0,
                start == old(self)@.drop_first(),
                disks.deep_view() == disks_in(old(self)@[0]),
                disks_detached(start, disks.deep_view(), seq![]) == disks_detached(
                    self@,
                    disks.deep_view().skip(i as int),
                    errors.deep_view(),
                ),
            decreases disks@.len() - i,
        {
            proof {
                let left = disks.deep_view().skip(i as int);
                assert(left[0] == disks@[i as int].deep_view());
                assert(left.drop_first() =~= disks.deep_view().skip(i + 1));
            }
            if let Some(error) = self.detach_disk(&disks[i])? {
                push_item(&mut errors, error);
            }
            i = i + 1;
        }
        Ok(summarize(&errors))
    }

    fn clean_disk(&mut self, disk: &EphemeralDiskInfo) -> (r: Result<Option<String>, VolumeCommand>)
        ensures
            (final(self)@, given(r)) == disk_cleaned(old(self)@, disk.deep_view()),
    {
        match self.cleanup_owned_emptydir_artifacts(disk)? {
            Ok(()) => Ok(None),
            Err(error) => Ok(
                Some(
                    cat4(
                        "clean block EmptyDir artifacts for ",
                        disk.source_path.as_str(),
                        ": ",
                        error.chain_text().as_str(),
                    ),
                ),
            ),
        }
    }

    fn finalize_disk(&mut self, disk: &EphemeralDiskInfo) -> (r: Result<
        Option<String>,
        VolumeCommand,
    >)
        ensures
            (final(self)@, given(r)) == disk_finalized(old(self)@, disk.deep_view()),
    {
        if let Some(device_id) = self.find_device(disk)? {
            let ghost rest = self@;
            let reply = self.ask(VolumeCommand::IsRegistered(device_id.clone()))?;
            if read_flag(reply) {
                let reply = self.ask(VolumeCommand::ReleaseAfterStop(device_id.clone()))?;
                assert(self@ =~= rest.skip(2));
                assert(reply == rest[1]);
                if let Err(error) = read_done(reply) {
                    return Ok(
                        Some(
                            cat4(
                                "finalize block EmptyDir device ",
                                device_id.as_str(),
                                ": ",
                                error.chain_text().as_str(),
                            ),
                        ),
                    );
                }
            }
        }
        self.clean_disk(disk)
    }

    fn make_round(&mut self) -> (r: Result<Result<bool, Error>, VolumeCommand>)
        ensures
            (final(self)@, came(r)) == finalization_round(old(self)@),
    {
        let reply = self.ask(VolumeCommand::Snapshot)?;
        let disks = read_disks(reply);
        if disks.len() == 0 {
            return Ok(Ok(true));
        }
        let ghost start = self@;
        let mut errors: Vec<String> = Vec::new();
        let mut remaining: Vec<EphemeralDiskInfo> = Vec::new();
        let mut i: usize = 0;
        assert(errors.deep_view() =~= seq![]);
        assert(remaining.deep_view() =~= seq![]);
        assert(disks.deep_view().skip(0) =~= disks.deep_view());
        while i < disks.len()
            invariant
                0 <= i <= disks@.len(),
                disks@.len() > 0,
                old(self)@.len() > 0,
                start == old(self)@.drop_first(),
                disks.deep_view() == disks_in(old(self)@[0]),
                disks_finalized(start, disks.deep_view(), seq![], seq![]) == disks_finalized(
                    self@,
                    disks.deep_view().skip(i as int),
                    errors.deep_view(),
                    remaining.deep_view(),
                ),
            decreases disks@.len() - i,
        {
            proof {
                let left = disks.deep_view().skip(i as int);
                assert(left[0] == disks@[i as int].deep_view());
                assert(left.drop_first() =~= disks.deep_view().skip(i + 1));
            }
            if let Some(error) = self.finalize_disk(&disks[i])? {
                push_item(&mut errors, error);
                push_item(&mut remaining, disks[i].dup());
            }
            i = i + 1;
        }
        let _ = self.ask(VolumeCommand::Reconcile { attempted: disks, remaining })?;
        match summarize(&errors) {
            Ok(()) => Ok(Ok(false)),
            Err(error) => Ok(Err(error)),
        }
    }

    /// Finalizes all disks of a sandbox whose virtual machine has stopped.
    pub fn finalize_ephemeral_disks(&mut self) -> (r: Result<Result<(), Error>, VolumeCommand>)
        ensures
            (final(self)@, came(r)) == store_finalized(old(self)@),
    {
        let _ = self.ask(VolumeCommand::SealAndWait)?;
        let ghost start = self@;
        loop
            invariant
                old(self)@.len() > 0,
                start == old(self)@.drop_first(),
                rounds_finalized(start) == rounds_finalized(self@),
            decreases self@.len(),
        {
            proof {
                lemma_round_takes(self@);
            }
            match self.make_round()? {
                Ok(empty) => if empty {
                    return Ok(Ok(()));
                },
                Err(error) => {
                    return Ok(Err(error));
                },
            }
        }
    }

    fn retry_volumes(&mut self, retry: Retry) -> (r: Result<Result<(), Error>, VolumeCommand>)
        ensures
            (final(self)@, came(r)) == rollbacks_retried(old(self)@, retry),
    {
        let reply = self.ask(VolumeCommand::PendingVolumes)?;
        let volumes = read_volumes(reply);
        let ghost start = self@;
        let mut errors: Vec<String> = Vec::new();
        let mut remaining: Vec<u64> = Vec::new();
        let mut i: usize = 0;
        assert(errors.deep_view() =~= seq![]);
        assert(remaining@ =~= seq![]);
        assert(volumes@.skip(0) =~= volumes@);
        while i < volumes.len()
            invariant
                0 <= i <= volumes@.len(),
                old(self)@.len() > 0,
                start == old(self)@.drop_first(),
                volumes@ == volumes_in(old(self)@[0]),
                volumes_cleaned(start, retry, volumes@, seq![], seq![]) == volumes_cleaned(
                    self@,
                    retry,
                    volumes@.skip(i as int),
                    errors.deep_view(),
                    remaining@,
                ),
            decreases volumes@.len() - i,
        {
            let volume: u64 = volumes[i];
            proof {
                let left = volumes@.skip(i as int);
                assert(left[0] == volume);
                assert(left.drop_first() =~= volumes@.skip(i + 1));
            }
            let reply = match retry {
                Retry::Live => self.ask(VolumeCommand::CleanupVolume(volume))?,
                Retry::AfterStop => self.ask(VolumeCommand::CleanupAfterStop(volume))?,
            };
            if let Err(error) = read_done(reply) {
                let context = match retry {
                    Retry::Live => "retry volume rollback cleanup: ",
                    Retry::AfterStop => "finalize failed volume rollback: ",
                };
                push_item(&mut errors, cat2(context, error.chain_text().as_str()));
                remaining.push(volume);
            }
            i = i + 1;
        }
        let _ = self.ask(VolumeCommand::ReconcilePending { attempted: volumes, remaining })?;
        Ok(summarize(&errors))
    }

    /// Cleans the volumes again whose cleanup failed.
    pub fn retry_failed_rollbacks(&mut self) -> (r: Result<Result<(), Error>, VolumeCommand>)
        ensures
            (final(self)@, came(r)) == rollbacks_retried(old(self)@, Retry::Live),
    {
        self.retry_volumes(Retry::Live)
    }

    /// Cleans the volumes again whose cleanup failed, after the virtual machine has stopped.
    pub fn finalize_failed_rollbacks_after_vm_stop(&mut self) -> (r: Result<
        Result<(), Error>,
        VolumeCommand,
    >)
        ensures
            (final(self)@, came(r)) == rollbacks_retried(old(self)@, Retry::AfterStop),
    {
        self.retry_volumes(Retry::AfterStop)
    }

    /// Cleans a volume that has that device after the virtual machine has stopped.
    pub fn cleanup_after_vm_stop(&mut self, device_id: Option<&str>) -> (r: Result<
        Result<(), Error>,
        VolumeCommand,
    >)
        ensures
            (final(self)@, came(r)) == cleaned_after_stop(
                old(self)@,
                match device_id {
                    Some(device_id) => Some(device_id@),
                    None => None,
                },
            ),
    {
        let device_id = match device_id {
            Some(device_id) => device_id,
            None => {
                return Ok(
                    Err(
                        Error::msg_str("non-device host cleanup remains pending after VM stop"),
                    ),
                );
            },
        };
        let ghost all = self@;
        let reply = self.ask(VolumeCommand::IsRegistered(device_id.to_owned()))?;
        if !read_flag(reply) {
            return Ok(Ok(()));
        }
        let reply = self.ask(VolumeCommand::ReleaseAfterStop(device_id.to_owned()))?;
        assert(self@ =~= all.skip(2));
        assert(reply == all[1]);
        match read_done(reply) {
            Ok(()) => Ok(Ok(())),
            Err(error) => Ok(
                Err(
                    error.context(
                        cat3("release volume device ", device_id, " after confirmed VM stop"),
                    ),
                ),
            ),
        }
    }
}

/// The volumes of a sandbox.
#[derive(Debug)]
pub struct VolumeResource {
    pub volumes: Vec<u64>,
    /// The volumes whose cleanup failed.
    pub pending_rollback_volumes: Vec<u64>,
    pub ephemeral_disks: EphemeralDiskStore,
}

impl VolumeResource {
    pub fn new() -> (r: Self)
        ensures
            r.volumes@ == Seq::<u64>::empty(),
            r.pending_rollback_volumes@ == Seq::<u64>::empty(),
            r.ephemeral_disks@ == (StoreModel {
                disks: seq![],
                sealed: false,
                active_setups: 0,
                next_tracking_id: 0,
                exhausted: false,
            }),
    {
        VolumeResource {
            volumes: Vec::new(),
            pending_rollback_volumes: Vec::new(),
            ephemeral_disks: EphemeralDiskStore::default(),
        }
    }

    /// Keeps the volumes of a container.
    pub fn add_volumes(&mut self, volumes: Vec<u64>)
        ensures
            final(self).volumes@ == old(self).volumes@ + volumes@,
            final(self).pending_rollback_volumes == old(self).pending_rollback_volumes,
            final(self).ephemeral_disks == old(self).ephemeral_disks,
    {
        let mut volumes: Vec<u64> = volumes;
        self.volumes.append(&mut volumes);
    }

    /// Keeps volumes whose cleanup failed.
    pub fn add_pending(&mut self, volumes: Vec<u64>)
        ensures
            final(self).pending_rollback_volumes@ == old(self).pending_rollback_volumes@
                + volumes@,
            final(self).volumes == old(self).volumes,
            final(self).ephemeral_disks == old(self).ephemeral_disks,
    {
        let mut volumes: Vec<u64> = volumes;
        self.pending_rollback_volumes.append(&mut volumes);
    }

    /// Lets go of the volumes whose cleanup was attempted and succeeded.
    pub fn reconcile_pending_rollbacks(&mut self, attempted: &Vec<u64>, remaining: &Vec<u64>)
        ensures
            final(self).pending_rollback_volumes@ == retained(
                old(self).pending_rollback_volumes@,
                old(self).pending_rollback_volumes@,
                attempted@,
                remaining@,
            ),
            final(self).volumes == old(self).volumes,
            final(self).ephemeral_disks == old(self).ephemeral_disks,
    {
        let keys = self.pending_rollback_volumes.clone();
        assert(keys@ =~= self.pending_rollback_volumes@);
        reconcile_snapshot_occurrences(
            &mut self.pending_rollback_volumes,
            &keys,
            attempted,
            remaining,
        );
    }

    /// Where the guest has the volume at that path on the host.
    pub fn guest_volume_stats_path(&self, host_volume_path: &str) -> (r: Option<String>)
        ensures
            r.deep_view() == stats_path(self.ephemeral_disks@.disks, host_volume_path@),
    {
        self.ephemeral_disks.guest_volume_stats_path(host_volume_path)
    }
}

/// The artifacts of a disk are never cleaned while its device may still be registered: a failure to
/// let go of the device ends the finalization of that disk, and the disk remains.
pub proof fn law_finalization_waits_for_device(
    rs: Seq<VolumeReply>,
    disk: DiskModel,
    device_id: Seq<char>,
)
    requires
        disk.device_id == Some(device_id),
        rs.len() >= 2,
        flag_in(rs[0]),
        done_in(rs[1]) is Err,
    ensures
        disk_finalized(rs, disk).0 == rs.skip(2),
        disk_finalized(rs, disk).1 matches Ok(Some(_)),
{
}

/// As many disks remain as failed, so a round that leaves a disk always reports it.
pub proof fn law_remaining_disks_are_reported(
    rs: Seq<VolumeReply>,
    disks: Seq<DiskModel>,
    errors: Seq<Seq<char>>,
    remaining: Seq<DiskModel>,
)
    requires
        errors.len() == remaining.len(),
        disks_finalized(rs, disks, errors, remaining).1 is Ok,
    ensures
        ({
            let (reported, left) = disks_finalized(rs, disks, errors, remaining).1->Ok_0;
            reported.len() == left.len()
        }),
    decreases disks.len(),
{
    if disks.len() > 0 {
        match disk_finalized(rs, disks[0]) {
            (_, Err(_)) => {},
            (rest, Ok(None)) => {
                law_remaining_disks_are_reported(rest, disks.drop_first(), errors, remaining);
            },
            (rest, Ok(Some(error))) => {
                law_remaining_disks_are_reported(
                    rest,
                    disks.drop_first(),
                    errors.push(error),
                    remaining.push(disks[0]),
                );
            },
        }
    }
}

/// Whether `rest` is what is left of `rs` after some replies were looked at.
pub open spec fn left_of(rest: Seq<VolumeReply>, rs: Seq<VolumeReply>) -> bool {
    rest.len() <= rs.len() && rest == rs.skip(rs.len() - rest.len())
}

proof fn lemma_left_of_left(a: Seq<VolumeReply>, b: Seq<VolumeReply>, c: Seq<VolumeReply>)
    requires
        left_of(a, b),
        left_of(b, c),
    ensures
        left_of(a, c),
{
    assert(a =~= c.skip(c.len() - a.len()));
}

proof fn lemma_cleaning_leaves(rs: Seq<VolumeReply>, disk: DiskModel)
    ensures
        left_of(artifacts_cleaned(rs, disk).0, rs),
{
    assert(rs.skip(0) =~= rs);
    assert(rs.len() > 0 ==> rs.drop_first() =~= rs.skip(1));
    assert(rs.len() > 1 ==> rs.drop_first().drop_first() =~= rs.skip(2));
}

proof fn lemma_finalizing_leaves(rs: Seq<VolumeReply>, disk: DiskModel)
    ensures
        left_of(disk_finalized(rs, disk).0, rs),
{
    assert(rs.skip(0) =~= rs);
    assert(rs.len() > 0 ==> rs.drop_first() =~= rs.skip(1));
    let (found, device) = device_found(rs, disk);
    assert(left_of(found, rs));
    if let Ok(device) = device {
        let after = if device is None {
            found
        } else if found.len() == 0 {
            found
        } else if !flag_in(found[0]) || found.len() == 1 {
            found.drop_first()
        } else {
            found.skip(2)
        };
        assert(after =~= found.skip(found.len() - after.len()));
        lemma_left_of_left(after, found, rs);
        lemma_cleaning_leaves(after, disk);
        lemma_left_of_left(artifacts_cleaned(after, disk).0, after, rs);
    }
}

proof fn lemma_finalizing_all_leaves(
    rs: Seq<VolumeReply>,
    disks: Seq<DiskModel>,
    errors: Seq<Seq<char>>,
    remaining: Seq<DiskModel>,
)
    ensures
        left_of(disks_finalized(rs, disks, errors, remaining).0, rs),
    decreases disks.len(),
{
    assert(rs.skip(0) =~= rs);
    if disks.len() > 0 {
        lemma_finalizing_leaves(rs, disks[0]);
        let (rest, came) = disk_finalized(rs, disks[0]);
        match came {
            Err(_) => {},
            Ok(None) => {
                lemma_finalizing_all_leaves(rest, disks.drop_first(), errors, remaining);
                lemma_left_of_left(
                    disks_finalized(rest, disks.drop_first(), errors, remaining).0,
                    rest,
                    rs,
                );
            },
            Ok(Some(error)) => {
                let errors = errors.push(error);
                let remaining = remaining.push(disks[0]);
                lemma_finalizing_all_leaves(rest, disks.drop_first(), errors, remaining);
                lemma_left_of_left(
                    disks_finalized(rest, disks.drop_first(), errors, remaining).0,
                    rest,
                    rs,
                );
            },
        }
    }
}

proof fn lemma_round_leaves(rs: Seq<VolumeReply>)
    ensures
        left_of(finalization_round(rs).0, rs),
{
    assert(rs.skip(0) =~= rs);
    if rs.len() > 0 {
        let rest = rs.drop_first();
        assert(rest =~= rs.skip(1));
        let disks = disks_in(rs[0]);
        lemma_finalizing_all_leaves(rest, disks, seq![], seq![]);
        let after = disks_finalized(rest, disks, seq![], seq![]).0;
        lemma_left_of_left(after, rest, rs);
        if after.len() > 0 {
            assert(after.drop_first() =~= after.skip(1));
            lemma_left_of_left(after.drop_first(), after, rs);
        }
    }
}

proof fn lemma_rounds_end_on_an_empty_store(rs: Seq<VolumeReply>)
    requires
        rounds_finalized(rs).1 == Ok::<Result<(), ErrorModel>, VolumeModel>(Ok(())),
    ensures
        ({
            let rest = rounds_finalized(rs).0;
            &&& left_of(rest, rs)
            &&& rest.len() < rs.len()
            &&& disks_in(rs[rs.len() - rest.len() - 1]) == Seq::<DiskModel>::empty()
        }),
    decreases rs.len(),
{
    lemma_round_takes(rs);
    lemma_round_leaves(rs);
    let (rest, came) = finalization_round(rs);
    if came == Ok::<Result<bool, ErrorModel>, VolumeModel>(Ok(false)) {
        lemma_rounds_end_on_an_empty_store(rest);
        let last = rounds_finalized(rest).0;
        lemma_left_of_left(last, rest, rs);
        assert(rest[rest.len() - last.len() - 1] == rs[rs.len() - last.len() - 1]);
    } else {
        assert(disks_in(rs[0]) =~= Seq::<DiskModel>::empty());
    }
}

/// A sandbox is finalized only once its store is empty: what was looked at last is the store, and
/// there was no disk in it.
pub proof fn law_finalized_store_is_empty(rs: Seq<VolumeReply>)
    requires
        store_finalized(rs).1 == Ok::<Result<(), ErrorModel>, VolumeModel>(Ok(())),
    ensures
        ({
            let rest = store_finalized(rs).0;
            &&& left_of(rest, rs)
            &&& rest.len() + 1 < rs.len()
            &&& disks_in(rs[rs.len() - rest.len() - 1]) == Seq::<DiskModel>::empty()
        }),
{
    let begun = rs.drop_first();
    assert(begun =~= rs.skip(1));
    lemma_rounds_end_on_an_empty_store(begun);
    let rest = rounds_finalized(begun).0;
    lemma_left_of_left(rest, begun, rs);
    assert(begun[begun.len() - rest.len() - 1] == rs[rs.len() - rest.len() - 1]);
}

} // verus!
