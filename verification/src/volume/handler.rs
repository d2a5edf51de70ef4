//! Setting up all volumes of a container, and taking down what could not be kept.
use crate::error::{
    error_chain_text, in_context, message, DiskModel, EphemeralDiskInfo, Error, ErrorModel,
};
use crate::qmp::session::outcome;
use crate::table::push_item;
use crate::text::{cat2, cat3, cat4, dec, dec_u64, join, joined, same};
use crate::volume::artifacts::cleaned_after_removal;
use crate::volume::disk_store::dup_disks;
use crate::volume::emptydir::{
    emptydir_made, is_block_emptydir_mode, is_block_mode, BlockEmptyDirVolume, EmptyDirModel,
    EmptyDirSettings, KATA_MOUNT_BIND_TYPE,
};
use crate::volume::wire::{
    all_readable, answer_in, came, done_in, given, read_answer, read_done, read_removal, removal_in,
    DeviceRemoval, VolumeCommand, VolumeKind, VolumeModel, VolumeReply, VolumeSession, VolumeStep,
};
use vstd::prelude::*;

verus! {

/// A mount of a container, with what is known of it.
#[derive(Clone, Debug)]
pub struct MountFacts {
    pub source: Option<String>,
    pub typ: Option<String>,
    pub options: Vec<String>,
    /// How a developer sees the mount.
    pub described: String,
    /// Whether the source is an `emptyDir` on a disk of the host.
    pub disk_empty_dir: bool,
    pub is_shm: bool,
    pub is_ephemeral: bool,
    pub is_block: bool,
    pub is_share_fs: bool,
}

/// What the setup of volumes goes by.
#[derive(Clone, Debug)]
pub struct VolumeContext {
    pub emptydir: EmptyDirSettings,
    /// Whether directories of the host can be shared with the guest.
    pub fs_sharing_supported: bool,
    /// The number under which the sandbox knows the volume of the first mount. Those of the other
    /// mounts have the numbers that follow.
    pub first_volume: u64,
}

/// The number under which the sandbox knows the volume of a mount.
pub open spec fn volume_number(context: VolumeContext, ordinal: int) -> u64 {
    (context.first_volume + ordinal) as u64
}

/// Whether a mount is an `emptyDir` that is to be a block device.
pub open spec fn is_block_emptydir(m: MountFacts, emptydir_mode: Seq<char>) -> bool {
    is_block_mode(emptydir_mode) && (m.typ matches Some(typ) && typ@ == KATA_MOUNT_BIND_TYPE@)
        && m.source is Some && m.disk_empty_dir
}

/// Whether a mount is an `emptyDir` that is to be a block device.
pub fn is_block_emptydir_volume(m: &MountFacts, emptydir_mode: &str) -> (r: bool)
    ensures
        r == is_block_emptydir(*m, emptydir_mode@),
{
    if !is_block_emptydir_mode(emptydir_mode) {
        return false;
    }
    let bind = match &m.typ {
        Some(typ) => same(typ.as_str(), KATA_MOUNT_BIND_TYPE),
        None => false,
    };
    bind && m.source.is_some() && m.disk_empty_dir
}

/// Whether a mount is to be made inside the guest: nothing can be shared with the guest, and the
/// mount is an `emptyDir` that is no block device.
pub open spec fn needs_local(m: MountFacts, fs_sharing_supported: bool, emptydir_mode: Seq<char>) -> bool {
    !fs_sharing_supported && !is_block_mode(emptydir_mode) && m.source is Some && m.disk_empty_dir
}

/// Whether a mount is to be made inside the guest.
pub fn need_local_volume(m: &MountFacts, fs_sharing_supported: bool, emptydir_mode: &str) -> (r: bool)
    ensures
        r == needs_local(*m, fs_sharing_supported, emptydir_mode@),
{
    !fs_sharing_supported && !is_block_emptydir_mode(emptydir_mode) && m.source.is_some()
        && m.disk_empty_dir
}

/// Whether a mount needs no volume at all. None does so far.
pub fn is_skip_volume(m: &MountFacts) -> (r: bool)
    ensures
        !r,
{
    false
}

/// Whether a mount may only be read.
pub open spec fn is_read_only(options: Seq<Seq<char>>) -> bool {
    options.contains("ro"@)
}

fn mounts_read_only(options: &Vec<String>) -> (r: bool)
    ensures
        r == is_read_only(options.deep_view()),
{
    let mut i: usize = 0;
    while i < options.len()
        invariant
            0 <= i <= options@.len(),
            forall|j: int| 0 <= j < i ==> #[trigger] options.deep_view()[j] != "ro"@,
        decreases options@.len() - i,
    {
        assert(options.deep_view()[i as int] == options@[i as int]@);
        if same(options[i].as_str(), "ro") {
            assert(options.deep_view()[i as int] == "ro"@);
            return true;
        }
        i = i + 1;
    }
    false
}

/// A volume that was made for a mount.
#[derive(Debug)]
pub struct HandledVolume {
    /// The place of the mount.
    pub ordinal: u64,
    /// The number under which the sandbox knows the volume.
    pub number: u64,
    pub block_emptydir: Option<BlockEmptyDirVolume>,
}

/// The model of a [`HandledVolume`].
pub struct HandledModel {
    pub ordinal: u64,
    pub number: u64,
    pub block_emptydir: Option<EmptyDirModel>,
}

impl DeepView for HandledVolume {
    type V = HandledModel;

    open spec fn deep_view(&self) -> HandledModel {
        HandledModel {
            ordinal: self.ordinal,
            number: self.number,
            block_emptydir: match self.block_emptydir {
                Some(volume) => Some(volume.deep_view()),
                None => None,
            },
        }
    }
}

/// A volume of that kind is made outside; a failure is put below `context`. Where `optional`, the
/// mount may turn out to need none.
pub open spec fn volume_constructed(
    rs: Seq<VolumeReply>,
    ordinal: usize,
    number: u64,
    kind: VolumeKind,
    read_only: bool,
    context: Seq<char>,
    optional: bool,
) -> VolumeStep<Result<Option<HandledModel>, ErrorModel>> {
    if rs.len() == 0 {
        (rs, Err(VolumeModel::Construct { ordinal, number, kind, read_only }))
    } else {
        (
            rs.drop_first(),
            Ok(
                match answer_in(rs[0]) {
                    Err(error) => Err(in_context(error, context)),
                    Ok(made) => if made || !optional {
                        Ok(
                            Some(
                                HandledModel {
                                    ordinal: ordinal as u64,
                                    number,
                                    block_emptydir: None,
                                },
                            ),
                        )
                    } else {
                        Ok(None)
                    },
                },
            ),
        )
    }
}

/// The volume of a mount with huge pages, of one that is shared, or of any other.
pub open spec fn rest_handled(
    rs: Seq<VolumeReply>,
    ordinal: usize,
    number: u64,
    m: MountFacts,
) -> VolumeStep<Result<Option<HandledModel>, ErrorModel>> {
    let read_only = is_read_only(m.options.deep_view());
    if rs.len() == 0 {
        (rs, Err(VolumeModel::HasHugePages(ordinal)))
    } else {
        let rest = rs.drop_first();
        match answer_in(rs[0]) {
            Err(error) => (rest, Ok(Err(in_context(error, "failed to check huge page"@)))),
            Ok(true) => if rest.len() == 0 {
                (rest, Err(VolumeModel::HugePageLimits))
            } else if let Err(error) = done_in(rest[0]) {
                (rest.drop_first(), Ok(Err(in_context(error, "get huge page option"@))))
            } else {
                volume_constructed(
                    rest.drop_first(),
                    ordinal,
                    number,
                    VolumeKind::HugePage,
                    read_only,
                    "handle hugepages "@ + m.described@,
                    false,
                )
            },
            Ok(false) => if m.is_share_fs {
                volume_constructed(
                    rest,
                    ordinal,
                    number,
                    VolumeKind::ShareFs,
                    read_only,
                    "new share fs volume "@ + m.described@,
                    false,
                )
            } else {
                volume_constructed(
                    rest,
                    ordinal,
                    number,
                    VolumeKind::Plain,
                    read_only,
                    "new default volume "@ + m.described@,
                    false,
                )
            },
        }
    }
}

/// The volume of a mount. The first kind that fits decides.
pub open spec fn mount_handled(
    rs: Seq<VolumeReply>,
    context: VolumeContext,
    ordinal: usize,
    m: MountFacts,
) -> VolumeStep<Result<Option<HandledModel>, ErrorModel>> {
    let read_only = is_read_only(m.options.deep_view());
    let mode = context.emptydir.emptydir_mode@;
    let number = volume_number(context, ordinal as int);
    if m.is_shm {
        volume_constructed(
            rs,
            ordinal,
            number,
            VolumeKind::Shm,
            read_only,
            "new shm volume "@ + m.described@,
            false,
        )
    } else if m.is_ephemeral {
        volume_constructed(
            rs,
            ordinal,
            number,
            VolumeKind::Ephemeral,
            read_only,
            "new ephemeral volume "@ + m.described@,
            false,
        )
    } else if is_block_emptydir(m, mode) {
        match emptydir_made(rs, m.source.deep_view(), context.emptydir) {
            (rs, Err(command)) => (rs, Err(command)),
            (rs, Ok(Err(error))) => (
                rs,
                Ok(Err(in_context(error, "new block emptydir volume "@ + m.described@))),
            ),
            (rs, Ok(Ok(volume))) => (
                rs,
                Ok(
                    Ok(
                        Some(
                            HandledModel {
                                ordinal: ordinal as u64,
                                number,
                                block_emptydir: Some(volume),
                            },
                        ),
                    ),
                ),
            ),
        }
    } else if needs_local(m, context.fs_sharing_supported, mode) {
        volume_constructed(
            rs,
            ordinal,
            number,
            VolumeKind::Local,
            read_only,
            "new local volume "@ + m.described@,
            false,
        )
    } else if m.is_block {
        volume_constructed(
            rs,
            ordinal,
            number,
            VolumeKind::Block,
            read_only,
            "new block volume "@ + m.described@,
            false,
        )
    } else if rs.len() == 0 {
        (rs, Err(VolumeModel::IsDirectVolume(ordinal)))
    } else {
        match answer_in(rs[0]) {
            Err(error) => (rs.drop_first(), Ok(Err(error))),
            Ok(true) => volume_constructed(
                rs.drop_first(),
                ordinal,
                number,
                VolumeKind::Direct,
                read_only,
                "handle direct volume"@,
                true,
            ),
            Ok(false) => rest_handled(rs.drop_first(), ordinal, number, m),
        }
    }
}

/// What a rollback has come to so far.
pub struct RollbackModel {
    /// Why volumes could not be taken down.
    pub errors: Seq<Seq<char>>,
    /// The disks that are still to be cleaned.
    pub unresolved: Seq<DiskModel>,
    /// The other volumes that are still to be cleaned.
    pub failed: Seq<u64>,
}

/// The identity that a volume's device is named by.
pub open spec fn shown_device(volume: EmptyDirModel) -> Seq<char> {
    match volume.disk.device_id {
        Some(device_id) => device_id,
        None => volume.device_id,
    }
}

/// What came of removing the device of a volume.
pub open spec fn detach_in(device_id: Seq<char>, reply: VolumeReply) -> Result<
    DeviceRemoval,
    ErrorModel,
> {
    match removal_in(reply) {
        Ok(removal) => Ok(removal),
        Err(error) => Err(in_context(error, "detach block emptyDir device "@ + device_id)),
    }
}

/// One volume is taken down. The artifacts of a disk go only after its device.
pub open spec fn volume_undone(
    rs: Seq<VolumeReply>,
    volume: HandledModel,
    so_far: RollbackModel,
) -> VolumeStep<RollbackModel> {
    match volume.block_emptydir {
        None => if rs.len() == 0 {
            (rs, Err(VolumeModel::CleanupVolume(volume.number)))
        } else {
            (
                rs.drop_first(),
                Ok(
                    match done_in(rs[0]) {
                        Ok(()) => so_far,
                        Err(error) => RollbackModel {
                            errors: so_far.errors.push(
                                "clean previously constructed volume: "@ + error_chain_text(error),
                            ),
                            failed: so_far.failed.push(volume.number),
                            ..so_far
                        },
                    },
                ),
            )
        },
        Some(emptydir) => if rs.len() == 0 {
            (rs, Err(VolumeModel::RemoveDevice(emptydir.device_id)))
        } else {
            let removal = detach_in(emptydir.device_id, rs[0]);
            let disk = emptydir.disk;
            let unresolved = |why: Seq<char>|
                RollbackModel {
                    errors: so_far.errors.push(why),
                    unresolved: so_far.unresolved.push(disk),
                    ..so_far
                };
            match cleaned_after_removal(rs.drop_first(), disk, removal) {
                (rs, Err(command)) => (rs, Err(command)),
                (rs, Ok(cleanup)) => (
                    rs,
                    Ok(
                        match (removal, cleanup) {
                            (Ok(DeviceRemoval::Detached), Ok(_)) => so_far,
                            (Ok(DeviceRemoval::Detached), Err(error)) => unresolved(
                                "clean artifacts for "@ + disk.source_path + ": "@
                                    + error_chain_text(error),
                            ),
                            (Ok(DeviceRemoval::ReferenceReleased), _) => if disk.disk_created
                                || disk.metadata_created {
                                unresolved(
                                    "device "@ + shown_device(emptydir)
                                        + " still has active references; preserved artifacts for "@
                                        + disk.source_path,
                                )
                            } else {
                                so_far
                            },
                            (Err(error), _) => unresolved(
                                "detach block emptyDir device "@ + shown_device(emptydir) + ": "@
                                    + error_chain_text(error),
                            ),
                        },
                    ),
                ),
            }
        },
    }
}

/// Volumes are taken down, the newest one first.
pub open spec fn volumes_undone(
    rs: Seq<VolumeReply>,
    volumes: Seq<HandledModel>,
    so_far: RollbackModel,
) -> VolumeStep<RollbackModel>
    decreases volumes.len(),
{
    if volumes.len() == 0 {
        (rs, Ok(so_far))
    } else {
        match volume_undone(rs, volumes.last(), so_far) {
            (rs, Err(command)) => (rs, Err(command)),
            (rs, Ok(so_far)) => volumes_undone(rs, volumes.drop_last(), so_far),
        }
    }
}

/// Nothing was taken down yet.
pub open spec fn nothing_undone() -> RollbackModel {
    RollbackModel { errors: seq![], unresolved: seq![], failed: seq![] }
}

/// The error that a rollback reports in place of `attach_error`.
pub open spec fn rollback_error(attach_error: ErrorModel, count: nat, rollback: RollbackModel) -> ErrorModel {
    if rollback.errors.len() == 0 {
        in_context(
            attach_error,
            "rolled back "@ + dec(count as int) + " previously constructed volumes"@,
        )
    } else {
        message(
            error_chain_text(attach_error) + "; volume rollback incomplete: "@ + joined(
                rollback.errors,
                "; "@,
            ),
        )
    }
}

/// The disks of volumes.
pub open spec fn disks_of(volumes: Seq<HandledModel>) -> Seq<DiskModel>
    decreases volumes.len(),
{
    if volumes.len() == 0 {
        seq![]
    } else {
        let before = disks_of(volumes.drop_last());
        match volumes.last().block_emptydir {
            Some(volume) => before.push(volume.disk),
            None => before,
        }
    }
}

/// What is known now of disks goes into the store.
pub open spec fn disks_refreshed(rs: Seq<VolumeReply>, disks: Seq<DiskModel>) -> VolumeStep<()>
    decreases disks.len(),
{
    if disks.len() == 0 {
        (rs, Ok(()))
    } else if rs.len() == 0 {
        (rs, Err(VolumeModel::Refresh(disks[0])))
    } else {
        disks_refreshed(rs.drop_first(), disks.drop_first())
    }
}

/// Volumes are taken down after `error`. The store keeps the disks that are still to be cleaned,
/// and no others of them; other volumes that are still to be cleaned are kept too.
pub open spec fn handling_failed(
    rs: Seq<VolumeReply>,
    error: ErrorModel,
    volumes: Seq<HandledModel>,
) -> VolumeStep<Result<Seq<HandledModel>, ErrorModel>> {
    match volumes_undone(rs, volumes, nothing_undone()) {
        (rs, Err(command)) => (rs, Err(command)),
        (rs, Ok(rollback)) => match disks_refreshed(rs, rollback.unresolved) {
            (rs, Err(command)) => (rs, Err(command)),
            (rs, Ok(())) => if rs.len() == 0 {
                (
                    rs,
                    Err(
                        VolumeModel::Reconcile {
                            attempted: disks_of(volumes),
                            remaining: rollback.unresolved,
                        },
                    ),
                )
            } else if rollback.failed.len() > 0 && rs.len() == 1 {
                (rs.drop_first(), Err(VolumeModel::AddPending(rollback.failed)))
            } else {
                (
                    if rollback.failed.len() > 0 {
                        rs.skip(2)
                    } else {
                        rs.drop_first()
                    },
                    Ok(Err(rollback_error(error, volumes.len(), rollback))),
                )
            },
        },
    }
}

/// The numbers of the mounts of volumes.
pub open spec fn numbers_in(volumes: Seq<HandledModel>) -> Seq<u64> {
    volumes.map_values(|volume: HandledModel| volume.number)
}

/// The volumes of the mounts from `at` on are made, after those that are there.
pub open spec fn mounts_handled(
    rs: Seq<VolumeReply>,
    context: VolumeContext,
    mounts: Seq<MountFacts>,
    at: int,
    volumes: Seq<HandledModel>,
) -> VolumeStep<Result<Seq<HandledModel>, ErrorModel>>
    decreases mounts.len() - at,
{
    if at < 0 || at >= mounts.len() {
        if rs.len() == 0 {
            (rs, Err(VolumeModel::AddVolumes(numbers_in(volumes))))
        } else {
            (rs.drop_first(), Ok(Ok(volumes)))
        }
    } else {
        match mount_handled(rs, context, at as usize, mounts[at]) {
            (rs, Err(command)) => (rs, Err(command)),
            (rs, Ok(Ok(None))) => mounts_handled(rs, context, mounts, at + 1, volumes),
            (rs, Ok(Ok(Some(volume)))) => mounts_handled(
                rs,
                context,
                mounts,
                at + 1,
                volumes.push(volume),
            ),
            (rs, Ok(Err(error))) => handling_failed(
                rs,
                in_context(
                    error,
                    "failed to attach volume "@ + dec(at + 1) + " of "@ + dec(mounts.len() as int),
                ),
                volumes,
            ),
        }
    }
}

/// Whether some mount is an `emptyDir` that is to be a block device.
pub open spec fn any_block_emptydir(mounts: Seq<MountFacts>, emptydir_mode: Seq<char>) -> bool {
    exists|i: int| 0 <= i < mounts.len() && is_block_emptydir(#[trigger] mounts[i], emptydir_mode)
}

/// All volumes of a container are made, or none is kept.
pub open spec fn container_handled(
    rs: Seq<VolumeReply>,
    context: VolumeContext,
    mounts: Seq<MountFacts>,
) -> VolumeStep<Result<Seq<HandledModel>, ErrorModel>> {
    if !any_block_emptydir(mounts, context.emptydir.emptydir_mode@) {
        mounts_handled(rs, context, mounts, 0, seq![])
    } else if rs.len() == 0 {
        (rs, Err(VolumeModel::BeginSetup))
    } else if let Err(error) = done_in(rs[0]) {
        (rs.drop_first(), Ok(Err(error)))
    } else {
        mounts_handled(rs.drop_first(), context, mounts, 0, seq![])
    }
}

/// What a rollback has come to so far.
struct Rollback {
    errors: Vec<String>,
    unresolved: Vec<EphemeralDiskInfo>,
    failed: Vec<u64>,
}

impl Rollback {
    spec fn model(self) -> RollbackModel {
        RollbackModel {
            errors: self.errors.deep_view(),
            unresolved: self.unresolved.deep_view(),
            failed: self.failed@,
        }
    }

    fn unresolved(&mut self, why: String, disk: EphemeralDiskInfo)
        ensures
            final(self).model() == (RollbackModel {
                errors: old(self).model().errors.push(why@),
                unresolved: old(self).model().unresolved.push(disk.deep_view()),
                ..old(self).model()
            }),
    {
        push_item(&mut self.errors, why);
        push_item(&mut self.unresolved, disk);
    }
}

impl BlockEmptyDirVolume {
    /// Removes the device of the volume.
    pub fn cleanup_with_outcome(&self, session: &mut VolumeSession) -> (r: Result<
        Result<DeviceRemoval, Error>,
        VolumeCommand,
    >)
        ensures
            match r {
                Err(command) => old(session)@.len() == 0 && final(session)@ == old(session)@
                    && command.deep_view() == VolumeModel::RemoveDevice(self.device_id@),
                Ok(removal) => old(session)@.len() > 0 && final(session)@ == old(
                    session,
                )@.drop_first() && outcome(removal) == detach_in(
                    self.device_id@,
                    old(session)@[0],
                ),
            },
    {
        let reply = session.ask(VolumeCommand::RemoveDevice(self.device_id.clone()))?;
        match read_removal(reply) {
            Ok(removal) => Ok(Ok(removal)),
            Err(error) => Ok(
                Err(
                    error.context(
                        cat2("detach block emptyDir device ", self.device_id.as_str()),
                    ),
                ),
            ),
        }
    }
}

impl VolumeSession {
    fn construct_volume(
        &mut self,
        ordinal: usize,
        number: u64,
        kind: VolumeKind,
        read_only: bool,
        context: String,
        optional: bool,
    ) -> (r: Result<Result<Option<HandledVolume>, Error>, VolumeCommand>)
        requires
            all_readable(old(self)@),
        ensures
            all_readable(final(self)@),
            (final(self)@, came(r)) == volume_constructed(
                old(self)@,
                ordinal,
                number,
                kind,
                read_only,
                context@,
                optional,
            ),
    {
        let reply = self.ask(VolumeCommand::Construct { ordinal, number, kind, read_only })?;
        match read_answer(reply) {
            Err(error) => Ok(Err(error.context(context))),
            Ok(made) => if made || !optional {
                Ok(
                    Ok(
                        Some(
                            HandledVolume {
                                ordinal: ordinal as u64,
                                number,
                                block_emptydir: None,
                            },
                        ),
                    ),
                )
            } else {
                Ok(Ok(None))
            },
        }
    }

    fn handle_rest(&mut self, ordinal: usize, number: u64, m: &MountFacts) -> (r: Result<
        Result<Option<HandledVolume>, Error>,
        VolumeCommand,
    >)
        requires
            all_readable(old(self)@),
        ensures
            all_readable(final(self)@),
            (final(self)@, came(r)) == rest_handled(old(self)@, ordinal, number, *m),
    {
        let read_only = mounts_read_only(&m.options);
        let described = m.described.as_str();
        let reply = self.ask(VolumeCommand::HasHugePages(ordinal))?;
        match read_answer(reply) {
            Err(error) => Ok(Err(error.context_str("failed to check huge page"))),
            Ok(huge) => if huge {
                let reply = self.ask(VolumeCommand::HugePageLimits)?;
                if let Err(error) = read_done(reply) {
                    return Ok(Err(error.context_str("get huge page option")));
                }
                self.construct_volume(
                    ordinal,
                    number,
                    VolumeKind::HugePage,
                    read_only,
                    cat2("handle hugepages ", described),
                    false,
                )
            } else if m.is_share_fs {
                self.construct_volume(
                    ordinal,
                    number,
                    VolumeKind::ShareFs,
                    read_only,
                    cat2("new share fs volume ", described),
                    false,
                )
            } else if is_skip_volume(m) {
                Ok(Ok(None))
            } else {
                self.construct_volume(
                    ordinal,
                    number,
                    VolumeKind::Plain,
                    read_only,
                    cat2("new default volume ", described),
                    false,
                )
            },
        }
    }

    fn handle_mount(&mut self, context: &VolumeContext, ordinal: usize, m: &MountFacts) -> (r: Result<
        Result<Option<HandledVolume>, Error>,
        VolumeCommand,
    >)
        requires
            all_readable(old(self)@),
            context.first_volume + ordinal <= u64::MAX,
        ensures
            all_readable(final(self)@),
            (final(self)@, came(r)) == mount_handled(old(self)@, *context, ordinal, *m),
    {
        let read_only = mounts_read_only(&m.options);
        let mode = context.emptydir.emptydir_mode.as_str();
        let described = m.described.as_str();
        let number: u64 = context.first_volume + ordinal as u64;
        if m.is_shm {
            self.construct_volume(
                ordinal,
                number,
                VolumeKind::Shm,
                read_only,
                cat2("new shm volume ", described),
                false,
            )
        } else if m.is_ephemeral {
            self.construct_volume(
                ordinal,
                number,
                VolumeKind::Ephemeral,
                read_only,
                cat2("new ephemeral volume ", described),
                false,
            )
        } else if is_block_emptydir_volume(m, mode) {
            let source = match &m.source {
                Some(source) => Some(source.as_str()),
                None => None,
            };
            match BlockEmptyDirVolume::new(source, &context.emptydir, self)? {
                Ok(volume) => Ok(
                    Ok(
                        Some(
                            HandledVolume {
                                ordinal: ordinal as u64,
                                number,
                                block_emptydir: Some(volume),
                            },
                        ),
                    ),
                ),
                Err(error) => Ok(
                    Err(error.context(cat2("new block emptydir volume ", described))),
                ),
            }
        } else if need_local_volume(m, context.fs_sharing_supported, mode) {
            self.construct_volume(
                ordinal,
                number,
                VolumeKind::Local,
                read_only,
                cat2("new local volume ", described),
                false,
            )
        } else if m.is_block {
            self.construct_volume(
                ordinal,
                number,
                VolumeKind::Block,
                read_only,
                cat2("new block volume ", described),
                false,
            )
        } else {
            let reply = self.ask(VolumeCommand::IsDirectVolume(ordinal))?;
            match read_answer(reply) {
                Err(error) => Ok(Err(error)),
                Ok(direct) => if direct {
                    self.construct_volume(
                        ordinal,
                        number,
                        VolumeKind::Direct,
                        read_only,
                        "handle direct volume".to_owned(),
                        true,
                    )
                } else {
                    self.handle_rest(ordinal, number, m)
                },
            }
        }
    }

    fn undo_emptydir(
        &mut self,
        handled: &HandledVolume,
        volume: &BlockEmptyDirVolume,
        rollback: &mut Rollback,
    ) -> (r: Result<(), VolumeCommand>)
        requires
            handled.block_emptydir == Some(*volume),
        ensures
            ({
                let (rs, step) = volume_undone(
                    old(self)@,
                    handled.deep_view(),
                    old(rollback).model(),
                );
                &&& final(self)@ == rs
                &&& match r {
                    Err(command) => step == Err::<RollbackModel, VolumeModel>(
                        command.deep_view(),
                    ),
                    Ok(()) => step == Ok::<RollbackModel, VolumeModel>(final(rollback).model()),
                }
            }),
    {
        let disk = &volume.disk_info;
        let shown = match &disk.device_id {
            Some(device_id) => device_id.clone(),
            None => volume.device_id.clone(),
        };
        let removal = volume.cleanup_with_outcome(self)?;
        let cleanup = self.cleanup_artifacts_after_device_removal(disk, &removal)?;
        match removal {
            Ok(DeviceRemoval::Detached) => {
                if let Err(error) = cleanup {
                    rollback.unresolved(
                        cat4(
                            "clean artifacts for ",
                            disk.source_path.as_str(),
                            ": ",
                            error.chain_text().as_str(),
                        ),
                        disk.dup(),
                    );
                }
            },
            Ok(DeviceRemoval::ReferenceReleased) => {
                if disk.owns_artifacts() {
                    rollback.unresolved(
                        cat4(
                            "device ",
                            shown.as_str(),
                            " still has active references; preserved artifacts for ",
                            disk.source_path.as_str(),
                        ),
                        disk.dup(),
                    );
                }
            },
            Err(error) => {
                rollback.unresolved(
                    cat4(
                        "detach block emptyDir device ",
                        shown.as_str(),
                        ": ",
                        error.chain_text().as_str(),
                    ),
                    disk.dup(),
                );
            },
        }
        Ok(())
    }

    fn undo_volume(&mut self, volume: &HandledVolume, rollback: &mut Rollback) -> (r: Result<
        (),
        VolumeCommand,
    >)
        ensures
            ({
                let (rs, step) = volume_undone(
                    old(self)@,
                    volume.deep_view(),
                    old(rollback).model(),
                );
                &&& final(self)@ == rs
                &&& match r {
                    Err(command) => step == Err::<RollbackModel, VolumeModel>(
                        command.deep_view(),
                    ),
                    Ok(()) => step == Ok::<RollbackModel, VolumeModel>(final(rollback).model()),
                }
            }),
    {
        match &volume.block_emptydir {
            Some(emptydir) => self.undo_emptydir(volume, emptydir, rollback),
            None => {
                let reply = self.ask(VolumeCommand::CleanupVolume(volume.number))?;
                if let Err(error) = read_done(reply) {
                    push_item(
                        &mut rollback.errors,
                        cat2(
                            "clean previously constructed volume: ",
                            error.chain_text().as_str(),
                        ),
                    );
                    rollback.failed.push(volume.number);
                }
                Ok(())
            },
        }
    }

    fn rollback_volume_sequence(&mut self, volumes: &Vec<HandledVolume>) -> (r: Result<
        Rollback,
        VolumeCommand,
    >)
        ensures
            ({
                let (rs, step) = volumes_undone(
                    old(self)@,
                    volumes.deep_view(),
                    nothing_undone(),
                );
                &&& final(self)@ == rs
                &&& match r {
                    Err(command) => step == Err::<RollbackModel, VolumeModel>(
                        command.deep_view(),
                    ),
                    Ok(rollback) => step == Ok::<RollbackModel, VolumeModel>(rollback.model()),
                }
            }),
    {
        let mut rollback = Rollback {
            errors: Vec::new(),
            unresolved: Vec::new(),
            failed: Vec::new(),
        };
        proof {
            assert(rollback.model().errors =~= seq![]);
            assert(rollback.model().unresolved =~= seq![]);
            assert(rollback.model().failed =~= seq![]);
            assert(volumes.deep_view().take(volumes@.len() as int) =~= volumes.deep_view());
        }
        let mut i: usize = volumes.len();
        while i > 0
            invariant
                0 <= i <= volumes@.len(),
                volumes_undone(old(self)@, volumes.deep_view(), nothing_undone())
                    == volumes_undone(
                    self@,
                    volumes.deep_view().take(i as int),
                    rollback.model(),
                ),
            decreases i,
        {
            i = i - 1;
            proof {
                let head = volumes.deep_view().take(i + 1);
                assert(head.drop_last() =~= volumes.deep_view().take(i as int));
                assert(head.last() == volumes@[i as int].deep_view());
            }
            self.undo_volume(&volumes[i], &mut rollback)?;
        }
        Ok(rollback)
    }

    fn refresh_disks(&mut self, disks: &Vec<EphemeralDiskInfo>) -> (r: Result<(), VolumeCommand>)
        ensures
            (final(self)@, given(r)) == disks_refreshed(old(self)@, disks.deep_view()),
    {
        let mut i: usize = 0;
        assert(disks.deep_view().skip(0) =~= disks.deep_view());
        while i < disks.len()
            invariant
                0 <= i <= disks@.len(),
                disks_refreshed(old(self)@, disks.deep_view()) == disks_refreshed(
                    self@,
                    disks.deep_view().skip(i as int),
                ),
            decreases disks@.len() - i,
        {
            proof {
                let left = disks.deep_view().skip(i as int);
                assert(left[0] == disks@[i as int].deep_view());
                assert(left.drop_first() =~= disks.deep_view().skip(i + 1));
            }
            let _ = self.ask(VolumeCommand::Refresh(disks[i].dup()))?;
            i = i + 1;
        }
        Ok(())
    }

    fn fail_handling(&mut self, error: Error, volumes: &Vec<HandledVolume>) -> (r: Result<
        Result<Vec<HandledVolume>, Error>,
        VolumeCommand,
    >)
        ensures
            (final(self)@, came(r)) == handling_failed(
                old(self)@,
                error.deep_view(),
                volumes.deep_view(),
            ),
    {
        let rollback = self.rollback_volume_sequence(volumes)?;
        self.refresh_disks(&rollback.unresolved)?;
        let ghost rest = self@;
        let _ = self.ask(
            VolumeCommand::Reconcile {
                attempted: attempted_disks(volumes),
                remaining: dup_disks(&rollback.unresolved),
            },
        )?;
        if rollback.failed.len() > 0 {
            let _ = self.ask(VolumeCommand::AddPending(dup_numbers(&rollback.failed)))?;
            assert(self@ =~= rest.skip(2));
        }
        if rollback.errors.len() == 0 {
            Ok(
                Err(
                    error.context(
                        cat3(
                            "rolled back ",
                            dec_u64(volumes.len() as u64).as_str(),
                            " previously constructed volumes",
                        ),
                    ),
                ),
            )
        } else {
            Ok(
                Err(
                    Error::msg(
                        cat3(
                            error.chain_text().as_str(),
                            "; volume rollback incomplete: ",
                            join(&rollback.errors, "; ").as_str(),
                        ),
                    ),
                ),
            )
        }
    }

    /// Makes all volumes of a container. Where one fails, those that were made before are taken
    /// down again, the newest one first.
    pub fn handler_volumes(&mut self, context: &VolumeContext, mounts: &Vec<MountFacts>) -> (r: Result<
        Result<Vec<HandledVolume>, Error>,
        VolumeCommand,
    >)
        requires
            all_readable(old(self)@),
            context.first_volume + mounts@.len() <= u64::MAX,
        ensures
            (final(self)@, came(r)) == container_handled(old(self)@, *context, mounts@),
    {
        if finds_block_emptydir(mounts, context.emptydir.emptydir_mode.as_str()) {
            let reply = self.ask(VolumeCommand::BeginSetup)?;
            if let Err(error) = read_done(reply) {
                return Ok(Err(error));
            }
        }
        let mut volumes: Vec<HandledVolume> = Vec::new();
        assert(volumes.deep_view() =~= seq![]);
        let mut i: usize = 0;
        while i < mounts.len()
            invariant
                0 <= i <= mounts@.len(),
                context.first_volume + mounts@.len() <= u64::MAX,
                all_readable(self@),
                container_handled(old(self)@, *context, mounts@) == mounts_handled(
                    self@,
                    *context,
                    mounts@,
                    i as int,
                    volumes.deep_view(),
                ),
            decreases mounts@.len() - i,
        {
            match self.handle_mount(context, i, &mounts[i])? {
                Ok(Some(volume)) => push_item(&mut volumes, volume),
                Ok(None) => {},
                Err(error) => {
                    let error = error.context(
                        cat4(
                            "failed to attach volume ",
                            dec_u64((i + 1) as u64).as_str(),
                            " of ",
                            dec_u64(mounts.len() as u64).as_str(),
                        ),
                    );
                    return self.fail_handling(error, &volumes);
                },
            }
            i = i + 1;
        }
        let _ = self.ask(VolumeCommand::AddVolumes(numbers_of(&volumes)))?;
        Ok(Ok(volumes))
    }
}

fn finds_block_emptydir(mounts: &Vec<MountFacts>, emptydir_mode: &str) -> (r: bool)
    ensures
        r == any_block_emptydir(mounts@, emptydir_mode@),
{
    let mut i: usize = 0;
    while i < mounts.len()
        invariant
            0 <= i <= mounts@.len(),
            forall|j: int|
                0 <= j < i ==> !is_block_emptydir(#[trigger] mounts@[j], emptydir_mode@),
        decreases mounts@.len() - i,
    {
        if is_block_emptydir_volume(&mounts[i], emptydir_mode) {
            return true;
        }
        i = i + 1;
    }
    false
}

fn dup_numbers(numbers: &Vec<u64>) -> (r: Vec<u64>)
    ensures
        r@ == numbers@,
{
    let mut r: Vec<u64> = Vec::new();
    let mut i: usize = 0;
    while i < numbers.len()
        invariant
            0 <= i <= numbers@.len(),
            r@ =~= numbers@.take(i as int),
        decreases numbers@.len() - i,
    {
        r.push(numbers[i]);
        i = i + 1;
    }
    r
}

fn numbers_of(volumes: &Vec<HandledVolume>) -> (r: Vec<u64>)
    ensures
        r@ == numbers_in(volumes.deep_view()),
{
    let mut r: Vec<u64> = Vec::new();
    let mut i: usize = 0;
    while i < volumes.len()
        invariant
            0 <= i <= volumes@.len(),
            r@.len() == i,
            forall|j: int| 0 <= j < i ==> #[trigger] r@[j] == volumes@[j].number,
        decreases volumes@.len() - i,
    {
        r.push(volumes[i].number);
        i = i + 1;
    }
    assert(r@ =~= numbers_in(volumes.deep_view()));
    r
}

fn attempted_disks(volumes: &Vec<HandledVolume>) -> (r: Vec<EphemeralDiskInfo>)
    ensures
        r.deep_view() == disks_of(volumes.deep_view()),
{
    let mut r: Vec<EphemeralDiskInfo> = Vec::new();
    let mut i: usize = 0;
    assert(r.deep_view() =~= disks_of(volumes.deep_view().take(0)));
    while i < volumes.len()
        invariant
            0 <= i <= volumes@.len(),
            r.deep_view() == disks_of(volumes.deep_view().take(i as int)),
        decreases volumes@.len() - i,
    {
        proof {
            let head = volumes.deep_view().take(i + 1);
            assert(head.drop_last() =~= volumes.deep_view().take(i as int));
            assert(head.last() == volumes@[i as int].deep_view());
        }
        if let Some(volume) = &volumes[i].block_emptydir {
            push_item(&mut r, volume.disk_info.dup());
        }
        i = i + 1;
    }
    assert(volumes.deep_view().take(i as int) =~= volumes.deep_view());
    r
}

/// Volumes are taken down the newest one first: as long as the newest one waits for something,
/// nothing is asked of an older one.
pub proof fn law_rollback_takes_newest_first(
    rs: Seq<VolumeReply>,
    volumes: Seq<HandledModel>,
    so_far: RollbackModel,
)
    requires
        volumes.len() > 0,
        volume_undone(rs, volumes.last(), so_far).1 is Err,
    ensures
        volumes_undone(rs, volumes, so_far) == volume_undone(rs, volumes.last(), so_far),
{
}

/// A rollback reports every volume that it could not take down, once each, and a disk that it
/// leaves is that of a volume which it was to take down.
pub proof fn law_rollback_reports_what_is_left(
    rs: Seq<VolumeReply>,
    volumes: Seq<HandledModel>,
    so_far: RollbackModel,
)
    requires
        so_far.errors.len() == so_far.unresolved.len() + so_far.failed.len(),
    ensures
        volumes_undone(rs, volumes, so_far).1 matches Ok(rollback) ==> {
            &&& rollback.errors.len() == rollback.unresolved.len() + rollback.failed.len()
            &&& forall|disk: DiskModel| #[trigger]
                rollback.unresolved.contains(disk) ==> so_far.unresolved.contains(disk)
                    || disks_of(volumes).contains(disk)
        },
    decreases volumes.len(),
{
    if volumes.len() > 0 {
        let volume = volumes.last();
        if let (rest, Ok(next)) = volume_undone(rs, volume, so_far) {
            law_rollback_reports_what_is_left(rest, volumes.drop_last(), next);
            if let Ok(rollback) = volumes_undone(rs, volumes, so_far).1 {
                assert forall|disk: DiskModel| #[trigger]
                    rollback.unresolved.contains(disk) implies so_far.unresolved.contains(disk)
                    || disks_of(volumes).contains(disk) by {
                    let before = disks_of(volumes.drop_last());
                    if before.contains(disk) {
                        let i = choose|i: int| 0 <= i < before.len() && before[i] == disk;
                        assert(disks_of(volumes)[i] == disk);
                    } else {
                        assert(next.unresolved.contains(disk));
                        let i = choose|i: int|
                            0 <= i < next.unresolved.len() && next.unresolved[i] == disk;
                        if i < so_far.unresolved.len() {
                            assert(so_far.unresolved[i] == disk);
                        } else {
                            let own = volume.block_emptydir->0.disk;
                            assert(disk == own);
                            assert(disks_of(volumes)[before.len() as int] == own);
                        }
                    }
                }
            }
        }
    }
}

/// Whether volumes are in the order of their mounts, with one volume for a mount at most, and have
/// the numbers that follow from it.
pub open spec fn in_mount_order(
    volumes: Seq<HandledModel>,
    context: VolumeContext,
    upto: int,
) -> bool {
    &&& forall|i: int, j: int|
        0 <= i < j < volumes.len() ==> (#[trigger] volumes[i]).ordinal < (
        #[trigger] volumes[j]).ordinal
    &&& forall|i: int|
        0 <= i < volumes.len() ==> {
            let volume = #[trigger] volumes[i];
            volume.ordinal < upto && volume.number == context.first_volume + volume.ordinal
        }
}

/// The volumes of a container are in the order of its mounts, no mount has two, and each has the
/// number of its mount.
pub proof fn law_volumes_in_mount_order(
    rs: Seq<VolumeReply>,
    context: VolumeContext,
    mounts: Seq<MountFacts>,
    at: int,
    volumes: Seq<HandledModel>,
)
    requires
        0 <= at <= mounts.len() <= usize::MAX,
        context.first_volume + mounts.len() <= u64::MAX,
        in_mount_order(volumes, context, at),
    ensures
        mounts_handled(rs, context, mounts, at, volumes).1 matches Ok(Ok(made)) ==> in_mount_order(
            made,
            context,
            mounts.len() as int,
        ),
    decreases mounts.len() - at,
{
    if at < mounts.len() {
        match mount_handled(rs, context, at as usize, mounts[at]) {
            (rest, Ok(Ok(None))) => {
                law_volumes_in_mount_order(rest, context, mounts, at + 1, volumes);
            },
            (rest, Ok(Ok(Some(volume)))) => {
                assert(volume.ordinal == at);
                law_volumes_in_mount_order(rest, context, mounts, at + 1, volumes.push(volume));
            },
            (rest, Ok(Err(error))) => {
                let shown = in_context(
                    error,
                    "failed to attach volume "@ + dec(at + 1) + " of "@ + dec(mounts.len() as int),
                );
                assert(!(handling_failed(rest, shown, volumes).1 matches Ok(Ok(_))));
            },
            _ => {},
        }
    }
}

/// Volumes of two containers never go by one number, as long as the numbers that the containers
/// were given do not overlap.
pub proof fn law_containers_share_no_volume(
    rs: Seq<VolumeReply>,
    context: VolumeContext,
    mounts: Seq<MountFacts>,
    other_rs: Seq<VolumeReply>,
    other_context: VolumeContext,
    other_mounts: Seq<MountFacts>,
)
    requires
        mounts.len() <= usize::MAX,
        other_mounts.len() <= usize::MAX,
        context.first_volume + mounts.len() <= other_context.first_volume,
        other_context.first_volume + other_mounts.len() <= u64::MAX,
    ensures
        container_handled(rs, context, mounts).1 matches Ok(Ok(made)) ==> (container_handled(
            other_rs,
            other_context,
            other_mounts,
        ).1 matches Ok(Ok(other_made)) ==> forall|i: int, j: int|
            0 <= i < made.len() && 0 <= j < other_made.len() ==> (#[trigger] made[i]).number != (
            #[trigger] other_made[j]).number),
{
    let none = Seq::<HandledModel>::empty();
    law_volumes_in_mount_order(rs, context, mounts, 0, none);
    law_volumes_in_mount_order(rs.drop_first(), context, mounts, 0, none);
    law_volumes_in_mount_order(other_rs, other_context, other_mounts, 0, none);
    law_volumes_in_mount_order(other_rs.drop_first(), other_context, other_mounts, 0, none);
}

} // verus!
