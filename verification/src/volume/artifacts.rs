//! The artifacts of an `emptyDir` volume on the host: a sparse disk and what describes its mount.
use crate::error::{
    error_chain_text, error_text, in_context, message, pending_disk_in, DiskModel, EphemeralDiskInfo,
    Error, ErrorModel, Layer, LayerModel,
};
use crate::path::{join_path, path_within};
use crate::table::push_item;
use crate::text::{cat2, cat3, cat4, cat5, debug_path_text, dec, dec_u64, join, joined, quoted_path};
use crate::volume::wire::{
    all_readable, came, done_in, flag_in, given, path_in, read_done, read_flag, read_path, readable,
    unexpected, DeviceRemoval, DirectVolumeMountInfo, MountInfoModel, VolumeCommand, VolumeModel,
    VolumeReply, VolumeSession, VolumeStep,
};
use vstd::prelude::*;

verus! {

/// The name of the disk of a volume.
pub const DISK_IMG: &'static str = "disk.img";

/// The name of the file that serializes the setup of a volume on this host.
pub const SETUP_LOCK_FILE: &'static str = ".kata-block-emptydir.lock";

/// The option that encrypts the disk with a key that nobody keeps.
pub const ENCRYPTION_KEY_VALUE: &'static str = "ephemeral";

/// The option that hands free space of a file system back to the host.
pub const DISCARD_MOUNT_OPTION: &'static str = "discard";

/// An error about a disk that is still to be cleaned.
pub open spec fn pending_error(disk: DiskModel, text: Seq<char>) -> ErrorModel {
    seq![LayerModel::PendingDisk { disk, text }]
}

/// An error about a disk that is still to be cleaned.
pub fn pending_cleanup_error(disk: EphemeralDiskInfo, text: String) -> (r: Error)
    ensures
        r.deep_view() == pending_error(disk.deep_view(), text@),
{
    Error::of(Layer::PendingDisk { disk, text })
}

/// The disk that an error says is still to be cleaned.
pub fn pending_ephemeral_disk(error: &Error) -> (r: Option<EphemeralDiskInfo>)
    ensures
        r.deep_view() == pending_disk_in(error.deep_view()),
{
    error.pending_disk()
}

/// Why something could not be removed; what is not there needs no removal.
pub open spec fn removal_failure(reply: VolumeReply) -> Option<Seq<char>> {
    match reply {
        VolumeReply::Done => None,
        VolumeReply::NotFound => None,
        VolumeReply::Failed(error) => Some(error_text(error.deep_view())),
        _ => Some(error_text(unexpected())),
    }
}

fn read_removal_failure(reply: VolumeReply) -> (r: Option<String>)
    ensures
        r.deep_view() == removal_failure(reply),
{
    match reply {
        VolumeReply::Done => None,
        VolumeReply::NotFound => None,
        VolumeReply::Failed(error) => Some(error.text()),
        _ => Some("unexpected reply".to_owned()),
    }
}

/// The disk is removed where it was made for this sandbox; gives why that failed.
pub open spec fn disk_removed(rs: Seq<VolumeReply>, disk: DiskModel) -> VolumeStep<Seq<Seq<char>>> {
    if !disk.disk_created {
        (rs, Ok(seq![]))
    } else if rs.len() == 0 {
        (rs, Err(VolumeModel::RemoveFile(disk.disk_path)))
    } else {
        (
            rs.drop_first(),
            Ok(
                match removal_failure(rs[0]) {
                    None => seq![],
                    Some(reason) => seq!["remove "@ + disk.disk_path + ": "@ + reason],
                },
            ),
        )
    }
}

/// What describes the mount is removed where it was made for this sandbox; gives why that or
/// anything before failed.
pub open spec fn metadata_removed(
    rs: Seq<VolumeReply>,
    disk: DiskModel,
    failures: Seq<Seq<char>>,
) -> VolumeStep<Seq<Seq<char>>> {
    if !disk.metadata_created {
        (rs, Ok(failures))
    } else if rs.len() == 0 {
        (rs, Err(VolumeModel::RemoveVolumePath(disk.source_path)))
    } else {
        (
            rs.drop_first(),
            Ok(
                match removal_failure(rs[0]) {
                    None => failures,
                    Some(reason) => failures.push(
                        "remove direct-volume metadata for "@ + disk.source_path + ": "@ + reason,
                    ),
                },
            ),
        )
    }
}

/// The artifacts that were made for this sandbox are removed, and only those. Both are tried,
/// whatever comes of the first.
pub open spec fn artifacts_cleaned(rs: Seq<VolumeReply>, disk: DiskModel) -> VolumeStep<
    Result<(), ErrorModel>,
> {
    match disk_removed(rs, disk) {
        (rs, Err(command)) => (rs, Err(command)),
        (rs, Ok(failures)) => match metadata_removed(rs, disk, failures) {
            (rs, Err(command)) => (rs, Err(command)),
            (rs, Ok(failures)) => (
                rs,
                Ok(
                    if failures.len() == 0 {
                        Ok(())
                    } else {
                        Err(message(joined(failures, "; "@)))
                    },
                ),
            ),
        },
    }
}

/// The artifacts are cleaned after `error`; a cleanup that fails leaves the disk pending.
pub open spec fn cleaned_after(rs: Seq<VolumeReply>, error: ErrorModel, disk: DiskModel) -> VolumeStep<
    ErrorModel,
> {
    match artifacts_cleaned(rs, disk) {
        (rs, Err(command)) => (rs, Err(command)),
        (rs, Ok(Ok(()))) => (rs, Ok(error)),
        (rs, Ok(Err(cleanup))) => (
            rs,
            Ok(
                pending_error(
                    disk,
                    error_chain_text(error) + "; failed to clean block emptyDir setup: "@
                        + error_chain_text(cleanup),
                ),
            ),
        ),
    }
}

/// The artifacts are cleaned where the device is gone; says whether they were.
pub open spec fn cleaned_after_removal(
    rs: Seq<VolumeReply>,
    disk: DiskModel,
    removal: Result<DeviceRemoval, ErrorModel>,
) -> VolumeStep<Result<bool, ErrorModel>> {
    if !(disk.disk_created || disk.metadata_created) || removal != Ok::<DeviceRemoval, ErrorModel>(
        DeviceRemoval::Detached,
    ) {
        (rs, Ok(Ok(false)))
    } else {
        match artifacts_cleaned(rs, disk) {
            (rs, Err(command)) => (rs, Err(command)),
            (rs, Ok(Ok(()))) => (rs, Ok(Ok(true))),
            (rs, Ok(Err(error))) => (rs, Ok(Err(error))),
        }
    }
}

/// The keys and values that describe a mount.
pub open spec fn metadata_of(encrypted: bool, dir_gid: u32) -> Seq<(Seq<char>, Seq<char>)> {
    let made = seq![("createFilesystem"@, "true"@)];
    let keyed = if encrypted {
        made.push(("encryptionKey"@, ENCRYPTION_KEY_VALUE@))
    } else {
        made
    };
    if dir_gid != 0 {
        keyed.push(("fsGroup"@, dec(dir_gid as int)))
    } else {
        keyed
    }
}

/// The keys and values that describe a mount.
pub fn block_emptydir_metadata(encrypted: bool, dir_gid: u32) -> (r: Vec<(String, String)>)
    ensures
        r.deep_view() == metadata_of(encrypted, dir_gid),
{
    let mut metadata: Vec<(String, String)> = Vec::new();
    assert(metadata.deep_view() =~= seq![]);
    push_item(&mut metadata, ("createFilesystem".to_owned(), "true".to_owned()));
    assert(metadata.deep_view() =~= seq![("createFilesystem"@, "true"@)]);
    if encrypted {
        push_item(
            &mut metadata,
            ("encryptionKey".to_owned(), ENCRYPTION_KEY_VALUE.to_owned()),
        );
    }
    if dir_gid != 0 {
        push_item(&mut metadata, ("fsGroup".to_owned(), dec_u64(dir_gid as u64)));
    }
    metadata
}

/// The options of a mount.
pub open spec fn mount_options_of(discard_unmap: bool) -> Seq<Seq<char>> {
    if discard_unmap {
        seq![DISCARD_MOUNT_OPTION@]
    } else {
        seq![]
    }
}

/// The options of a mount.
pub fn block_emptydir_mount_options(discard_unmap: bool) -> (r: Vec<String>)
    ensures
        r.deep_view() == mount_options_of(discard_unmap),
{
    let mut options: Vec<String> = Vec::new();
    assert(options.deep_view() =~= seq![]);
    if discard_unmap {
        push_item(&mut options, DISCARD_MOUNT_OPTION.to_owned());
        assert(options.deep_view() =~= seq![DISCARD_MOUNT_OPTION@]);
    }
    options
}

/// A disk of which nothing was made yet.
pub open spec fn fresh_disk(source: Seq<char>, tracking_id: u64) -> DiskModel {
    DiskModel {
        tracking_id,
        disk_path: path_within(source, DISK_IMG@),
        source_path: source,
        guest_stats_path: seq![],
        disk_created: false,
        metadata_created: false,
        device_id: None,
    }
}

/// What describes the mount of a disk.
pub open spec fn mount_info_of(
    disk: DiskModel,
    encrypted: bool,
    discard_unmap: bool,
    dir_gid: u32,
) -> MountInfoModel {
    MountInfoModel {
        volume_type: "blk"@,
        device: disk.disk_path,
        fs_type: "ext4"@,
        metadata: metadata_of(encrypted, dir_gid),
        options: mount_options_of(discard_unmap),
    }
}

/// The size of the file system of a volume, in bytes.
pub open spec fn capacity_in(source: Seq<char>, reply: VolumeReply) -> Result<u64, ErrorModel> {
    match reply {
        VolumeReply::Filesystem { blocks, block_size } => if blocks * block_size == 0 {
            Err(
                message("filesystem at "@ + debug_path_text(source) + " reports zero capacity"@),
            )
        } else {
            Ok((blocks * block_size) as u64)
        },
        VolumeReply::Failed(error) => Err(
            in_context(error.deep_view(), "statfs "@ + debug_path_text(source)),
        ),
        _ => Err(in_context(unexpected(), "statfs "@ + debug_path_text(source))),
    }
}

/// A disk that was made gets its size and its description. Gives the disk as far as it came, and
/// why it came no further.
pub open spec fn disk_filled(
    rs: Seq<VolumeReply>,
    disk: DiskModel,
    encrypted: bool,
    discard_unmap: bool,
    dir_gid: u32,
) -> VolumeStep<(DiskModel, Result<(), ErrorModel>)> {
    let source = disk.source_path;
    if rs.len() == 0 {
        (rs, Err(VolumeModel::Statfs(source)))
    } else {
        match capacity_in(source, rs[0]) {
            Err(error) => (rs.drop_first(), Ok((disk, Err(error)))),
            Ok(capacity) => if rs.len() == 1 {
                (
                    rs.drop_first(),
                    Err(VolumeModel::SetLen { path: disk.disk_path, length: capacity }),
                )
            } else if let Err(error) = done_in(rs[1]) {
                (
                    rs.skip(2),
                    Ok(
                        (
                            disk,
                            Err(
                                in_context(
                                    error,
                                    "truncate sparse disk to "@ + dec(capacity as int) + " bytes"@,
                                ),
                            ),
                        ),
                    ),
                )
            } else {
                let described = DiskModel { metadata_created: true, ..disk };
                if rs.len() == 2 {
                    (
                        rs.skip(2),
                        Err(
                            VolumeModel::AddMountInfo {
                                source,
                                info: mount_info_of(disk, encrypted, discard_unmap, dir_gid),
                            },
                        ),
                    )
                } else if let Err(error) = done_in(rs[2]) {
                    (
                        rs.skip(3),
                        Ok(
                            (
                                described,
                                Err(
                                    in_context(error, "write direct-volume mountInfo.json"@),
                                ),
                            ),
                        ),
                    )
                } else {
                    (rs.skip(3), Ok((described, Ok(()))))
                }
            },
        }
    }
}

/// The disk is made. A disk that is there already is somebody else's, unless its volume is mounted.
pub open spec fn disk_made(
    rs: Seq<VolumeReply>,
    disk: DiskModel,
    encrypted: bool,
    discard_unmap: bool,
    dir_gid: u32,
) -> VolumeStep<Result<DiskModel, ErrorModel>> {
    let source = disk.source_path;
    if rs.len() == 0 {
        (rs, Err(VolumeModel::CreateDisk(disk.disk_path)))
    } else {
        let rest = rs.drop_first();
        match rs[0] {
            VolumeReply::Done => match disk_filled(
                rest,
                DiskModel { disk_created: true, ..disk },
                encrypted,
                discard_unmap,
                dir_gid,
            ) {
                (rest, Err(command)) => (rest, Err(command)),
                (rest, Ok((disk, Ok(())))) => (rest, Ok(Ok(disk))),
                (rest, Ok((disk, Err(error)))) => match cleaned_after(rest, error, disk) {
                    (rest, Err(command)) => (rest, Err(command)),
                    (rest, Ok(error)) => (rest, Ok(Err(error))),
                },
            },
            VolumeReply::AlreadyExists => if rest.len() == 0 {
                (rest, Err(VolumeModel::IsVolumeMounted(source)))
            } else if flag_in(rest[0]) {
                (rest.drop_first(), Ok(Ok(disk)))
            } else {
                (
                    rest.drop_first(),
                    Ok(
                        Err(
                            message(
                                "block emptyDir "@ + source
                                    + " has an unowned or in-progress disk "@ + disk.disk_path
                                    + "; refusing to truncate or remove it"@,
                            ),
                        ),
                    ),
                )
            },
            VolumeReply::Failed(error) => (
                rest,
                Ok(
                    Err(
                        in_context(
                            error.deep_view(),
                            "create sparse disk "@ + debug_path_text(disk.disk_path),
                        ),
                    ),
                ),
            ),
            _ => (
                rest,
                Ok(
                    Err(
                        in_context(
                            unexpected(),
                            "create sparse disk "@ + debug_path_text(disk.disk_path),
                        ),
                    ),
                ),
            ),
        }
    }
}

/// The directory for what describes the mount is looked at. What is there already is somebody
/// else's.
pub open spec fn metadata_checked(
    rs: Seq<VolumeReply>,
    source: Seq<char>,
    root: Seq<char>,
) -> VolumeStep<Result<(), ErrorModel>> {
    if rs.len() == 0 {
        (rs, Err(VolumeModel::CreateDirs(root)))
    } else if let Err(error) = done_in(rs[0]) {
        (
            rs.drop_first(),
            Ok(Err(in_context(error, "create direct-volume root "@ + root))),
        )
    } else if rs.len() == 1 {
        (rs.drop_first(), Err(VolumeModel::JoinPath { root, path: source }))
    } else {
        match path_in(rs[1]) {
            Err(error) => (rs.skip(2), Ok(Err(error))),
            Ok(path) => if rs.len() == 2 {
                (rs.skip(2), Err(VolumeModel::Exists(path)))
            } else if flag_in(rs[2]) {
                (
                    rs.skip(3),
                    Ok(
                        Err(
                            message(
                                "block emptyDir "@ + source
                                    + " has unowned partial metadata; refusing to remove it"@,
                            ),
                        ),
                    ),
                )
            } else {
                (rs.skip(3), Ok(Ok(())))
            },
        }
    }
}

/// The setup of a volume is locked against others on this host.
pub open spec fn source_locked(rs: Seq<VolumeReply>, source: Seq<char>) -> VolumeStep<
    Result<(), ErrorModel>,
> {
    let path = path_within(source, SETUP_LOCK_FILE@);
    if rs.len() == 0 {
        (rs, Err(VolumeModel::OpenLock(path)))
    } else if let Err(error) = done_in(rs[0]) {
        (
            rs.drop_first(),
            Ok(
                Err(in_context(error, "open block emptyDir setup lock "@ + debug_path_text(path))),
            ),
        )
    } else if rs.len() == 1 {
        (rs.drop_first(), Err(VolumeModel::LockFile(path)))
    } else if let Err(error) = done_in(rs[1]) {
        (
            rs.skip(2),
            Ok(Err(in_context(error, "lock block emptyDir setup "@ + debug_path_text(path)))),
        )
    } else {
        (rs.skip(2), Ok(Ok(())))
    }
}

/// The artifacts of a volume are made, each at most once: a volume that is mounted has them, and
/// whatever is there of one that is not mounted is left alone. What was made before a failure is
/// cleaned again.
pub open spec fn artifacts_prepared(
    rs: Seq<VolumeReply>,
    source: Seq<char>,
    root: Seq<char>,
    encrypted: bool,
    discard_unmap: bool,
    dir_gid: u32,
    tracking_id: u64,
) -> VolumeStep<Result<DiskModel, ErrorModel>> {
    let disk = fresh_disk(source, tracking_id);
    match source_locked(rs, source) {
        (rs, Err(command)) => (rs, Err(command)),
        (rs, Ok(Err(error))) => (rs, Ok(Err(error))),
        (rs, Ok(Ok(()))) => if rs.len() == 0 {
            (rs, Err(VolumeModel::IsVolumeMounted(source)))
        } else if flag_in(rs[0]) {
            (rs.drop_first(), Ok(Ok(disk)))
        } else {
            match metadata_checked(rs.drop_first(), source, root) {
                (rs, Err(command)) => (rs, Err(command)),
                (rs, Ok(Err(error))) => (rs, Ok(Err(error))),
                (rs, Ok(Ok(()))) => disk_made(rs, disk, encrypted, discard_unmap, dir_gid),
            }
        },
    }
}

impl VolumeSession {
    fn remove_disk(&mut self, disk: &EphemeralDiskInfo) -> (r: Result<Vec<String>, VolumeCommand>)
        ensures
            all_readable(old(self)@) ==> all_readable(final(self)@),
            (final(self)@, given(r)) == disk_removed(old(self)@, disk.deep_view()),
    {
        let mut failures: Vec<String> = Vec::new();
        assert(failures.deep_view() =~= seq![]);
        if disk.disk_created {
            let reply = self.ask(VolumeCommand::RemoveFile(disk.disk_path.clone()))?;
            if let Some(reason) = read_removal_failure(reply) {
                push_item(
                    &mut failures,
                    cat4("remove ", disk.disk_path.as_str(), ": ", reason.as_str()),
                );
                assert(failures.deep_view() =~= seq![
                    "remove "@ + disk.disk_path@ + ": "@ + reason@,
                ]);
            }
        }
        Ok(failures)
    }

    fn remove_metadata(&mut self, disk: &EphemeralDiskInfo, failures: Vec<String>) -> (r: Result<
        Vec<String>,
        VolumeCommand,
    >)
        ensures
            all_readable(old(self)@) ==> all_readable(final(self)@),
            (final(self)@, given(r)) == metadata_removed(
                old(self)@,
                disk.deep_view(),
                failures.deep_view(),
            ),
    {
        let mut failures: Vec<String> = failures;
        if disk.metadata_created {
            let reply = self.ask(VolumeCommand::RemoveVolumePath(disk.source_path.clone()))?;
            if let Some(reason) = read_removal_failure(reply) {
                push_item(
                    &mut failures,
                    cat4(
                        "remove direct-volume metadata for ",
                        disk.source_path.as_str(),
                        ": ",
                        reason.as_str(),
                    ),
                );
            }
        }
        Ok(failures)
    }

    /// Removes the artifacts of a disk that were made for this sandbox.
    pub fn cleanup_owned_emptydir_artifacts(&mut self, disk: &EphemeralDiskInfo) -> (r: Result<
        Result<(), Error>,
        VolumeCommand,
    >)
        ensures
            all_readable(old(self)@) ==> all_readable(final(self)@),
            (final(self)@, came(r)) == artifacts_cleaned(old(self)@, disk.deep_view()),
    {
        let failures = self.remove_disk(disk)?;
        let failures = self.remove_metadata(disk, failures)?;
        if failures.len() == 0 {
            Ok(Ok(()))
        } else {
            Ok(Err(Error::msg(join(&failures, "; "))))
        }
    }

    /// Removes the artifacts of a disk after `setup_error`.
    pub fn cleanup_owned_emptydir_after_error(
        &mut self,
        setup_error: Error,
        disk: &EphemeralDiskInfo,
    ) -> (r: Result<Error, VolumeCommand>)
        ensures
            all_readable(old(self)@) ==> all_readable(final(self)@),
            (final(self)@, given(r)) == cleaned_after(
                old(self)@,
                setup_error.deep_view(),
                disk.deep_view(),
            ),
    {
        match self.cleanup_owned_emptydir_artifacts(disk)? {
            Ok(()) => Ok(setup_error),
            Err(cleanup) => Ok(
                pending_cleanup_error(
                    disk.dup(),
                    cat3(
                        setup_error.chain_text().as_str(),
                        "; failed to clean block emptyDir setup: ",
                        cleanup.chain_text().as_str(),
                    ),
                ),
            ),
        }
    }

    /// Removes the artifacts of a disk whose device is gone, and tells whether it did.
    pub fn cleanup_artifacts_after_device_removal(
        &mut self,
        disk: &EphemeralDiskInfo,
        removal: &Result<DeviceRemoval, Error>,
    ) -> (r: Result<Result<bool, Error>, VolumeCommand>)
        ensures
            all_readable(old(self)@) ==> all_readable(final(self)@),
            (final(self)@, came(r)) == cleaned_after_removal(
                old(self)@,
                disk.deep_view(),
                crate::qmp::session::outcome(*removal),
            ),
    {
        let detached = match removal {
            Ok(DeviceRemoval::Detached) => true,
            _ => false,
        };
        if !disk.owns_artifacts() || !detached {
            return Ok(Ok(false));
        }
        match self.cleanup_owned_emptydir_artifacts(disk)? {
            Ok(()) => Ok(Ok(true)),
            Err(error) => Ok(Err(error)),
        }
    }

    fn get_filesystem_capacity(&mut self, source: &str) -> (r: Result<
        Result<u64, Error>,
        VolumeCommand,
    >)
        requires
            all_readable(old(self)@),
        ensures
            all_readable(old(self)@) ==> all_readable(final(self)@),
            r is Err ==> old(self)@.len() == 0 && final(self)@ == old(self)@,
            r is Ok ==> old(self)@.len() > 0 && final(self)@ == old(self)@.drop_first()
                && crate::qmp::session::outcome(r->Ok_0) == capacity_in(source@, old(self)@[0]),
            r matches Err(command) ==> command.deep_view() == VolumeModel::Statfs(source@),
    {
        match self.ask(VolumeCommand::Statfs(source.to_owned()))? {
            VolumeReply::Filesystem { blocks, block_size } => {
                assert(readable(old(self)@[0]));
                let total: u64 = blocks * block_size;
                if total == 0 {
                    Ok(
                        Err(
                            Error::msg(
                                cat3(
                                    "filesystem at ",
                                    quoted_path(source).as_str(),
                                    " reports zero capacity",
                                ),
                            ),
                        ),
                    )
                } else {
                    Ok(Ok(total))
                }
            },
            VolumeReply::Failed(error) => Ok(
                Err(error.context(cat2("statfs ", quoted_path(source).as_str()))),
            ),
            _ => Ok(
                Err(
                    Error::msg_str("unexpected reply").context(
                        cat2("statfs ", quoted_path(source).as_str()),
                    ),
                ),
            ),
        }
    }

    fn fill_disk(
        &mut self,
        disk: &mut EphemeralDiskInfo,
        encrypted: bool,
        discard_unmap: bool,
        dir_gid: u32,
    ) -> (r: Result<Result<(), Error>, VolumeCommand>)
        requires
            all_readable(old(self)@),
        ensures
            all_readable(old(self)@) ==> all_readable(final(self)@),
            ({
                let (rs, step) = disk_filled(
                    old(self)@,
                    old(disk).deep_view(),
                    encrypted,
                    discard_unmap,
                    dir_gid,
                );
                &&& final(self)@ == rs
                &&& match r {
                    Err(command) => step == Err::<(DiskModel, Result<(), ErrorModel>), VolumeModel>(
                        command.deep_view(),
                    ),
                    Ok(result) => step == Ok::<(DiskModel, Result<(), ErrorModel>), VolumeModel>(
                        (final(disk).deep_view(), crate::qmp::session::outcome(result)),
                    ),
                }
            }),
    {
        let ghost all = self@;
        let capacity: u64 = match self.get_filesystem_capacity(disk.source_path.as_str())? {
            Ok(capacity) => capacity,
            Err(error) => {
                return Ok(Err(error));
            },
        };
        let reply = self.ask(
            VolumeCommand::SetLen { path: disk.disk_path.clone(), length: capacity },
        )?;
        assert(self@ =~= all.skip(2));
        assert(reply == all[1]);
        if let Err(error) = read_done(reply) {
            return Ok(
                Err(
                    error.context(
                        cat3("truncate sparse disk to ", dec_u64(capacity).as_str(), " bytes"),
                    ),
                ),
            );
        }
        let info = DirectVolumeMountInfo {
            volume_type: "blk".to_owned(),
            device: disk.disk_path.clone(),
            fs_type: "ext4".to_owned(),
            metadata: block_emptydir_metadata(encrypted, dir_gid),
            options: block_emptydir_mount_options(discard_unmap),
        };
        disk.metadata_created = true;
        let reply = self.ask(
            VolumeCommand::AddMountInfo { source: disk.source_path.clone(), info },
        )?;
        assert(self@ =~= all.skip(3));
        assert(reply == all[2]);
        match read_done(reply) {
            Ok(()) => Ok(Ok(())),
            Err(error) => Ok(Err(error.context_str("write direct-volume mountInfo.json"))),
        }
    }

    fn make_disk(
        &mut self,
        disk: EphemeralDiskInfo,
        encrypted: bool,
        discard_unmap: bool,
        dir_gid: u32,
    ) -> (r: Result<Result<EphemeralDiskInfo, Error>, VolumeCommand>)
        requires
            all_readable(old(self)@),
        ensures
            all_readable(old(self)@) ==> all_readable(final(self)@),
            (final(self)@, came(r)) == disk_made(
                old(self)@,
                disk.deep_view(),
                encrypted,
                discard_unmap,
                dir_gid,
            ),
    {
        let mut disk: EphemeralDiskInfo = disk;
        match self.ask(VolumeCommand::CreateDisk(disk.disk_path.clone()))? {
            VolumeReply::Done => {},
            VolumeReply::AlreadyExists => {
                let reply = self.ask(
                    VolumeCommand::IsVolumeMounted(disk.source_path.clone()),
                )?;
                if read_flag(reply) {
                    return Ok(Ok(disk));
                }
                return Ok(
                    Err(
                        Error::msg(
                            cat5(
                                "block emptyDir ",
                                disk.source_path.as_str(),
                                " has an unowned or in-progress disk ",
                                disk.disk_path.as_str(),
                                "; refusing to truncate or remove it",
                            ),
                        ),
                    ),
                );
            },
            VolumeReply::Failed(error) => {
                return Ok(
                    Err(
                        error.context(
                            cat2("create sparse disk ", quoted_path(disk.disk_path.as_str()).as_str()),
                        ),
                    ),
                );
            },
            _ => {
                return Ok(
                    Err(
                        Error::msg_str("unexpected reply").context(
                            cat2("create sparse disk ", quoted_path(disk.disk_path.as_str()).as_str()),
                        ),
                    ),
                );
            },
        }
        disk.disk_created = true;
        match self.fill_disk(&mut disk, encrypted, discard_unmap, dir_gid)? {
            Ok(()) => Ok(Ok(disk)),
            Err(error) => Ok(Err(self.cleanup_owned_emptydir_after_error(error, &disk)?)),
        }
    }

    fn check_metadata(&mut self, source: &str, root: &str) -> (r: Result<
        Result<(), Error>,
        VolumeCommand,
    >)
        ensures
            (final(self)@, came(r)) == metadata_checked(old(self)@, source@, root@),
            all_readable(old(self)@) ==> all_readable(final(self)@),
    {
        let ghost all = self@;
        assert(self@ =~= all.skip(0));
        let reply = self.ask(VolumeCommand::CreateDirs(root.to_owned()))?;
        assert(self@ =~= all.skip(1));
        if let Err(error) = read_done(reply) {
            return Ok(Err(error.context(cat2("create direct-volume root ", root))));
        }
        let reply = self.ask(
            VolumeCommand::JoinPath { root: root.to_owned(), path: source.to_owned() },
        )?;
        assert(self@ =~= all.skip(2));
        assert(reply == all[1]);
        let path = match read_path(reply) {
            Ok(path) => path,
            Err(error) => {
                return Ok(Err(error));
            },
        };
        let reply = self.ask(VolumeCommand::Exists(path))?;
        assert(self@ =~= all.skip(3));
        assert(reply == all[2]);
        if read_flag(reply) {
            return Ok(
                Err(
                    Error::msg(
                        cat3(
                            "block emptyDir ",
                            source,
                            " has unowned partial metadata; refusing to remove it",
                        ),
                    ),
                ),
            );
        }
        Ok(Ok(()))
    }

    fn lock_emptydir_source(&mut self, source: &str) -> (r: Result<
        Result<(), Error>,
        VolumeCommand,
    >)
        ensures
            (final(self)@, came(r)) == source_locked(old(self)@, source@),
            all_readable(old(self)@) ==> all_readable(final(self)@),
    {
        let ghost all = self@;
        assert(self@ =~= all.skip(0));
        let path = join_path(source, SETUP_LOCK_FILE);
        let reply = self.ask(VolumeCommand::OpenLock(path.clone()))?;
        assert(self@ =~= all.skip(1));
        if let Err(error) = read_done(reply) {
            return Ok(
                Err(
                    error.context(
                        cat2("open block emptyDir setup lock ", quoted_path(path.as_str()).as_str()),
                    ),
                ),
            );
        }
        let described = quoted_path(path.as_str());
        let reply = self.ask(VolumeCommand::LockFile(path))?;
        assert(self@ =~= all.skip(2));
        assert(reply == all[1]);
        match read_done(reply) {
            Ok(()) => Ok(Ok(())),
            Err(error) => Ok(
                Err(error.context(cat2("lock block emptyDir setup ", described.as_str()))),
            ),
        }
    }

    /// Makes the artifacts of a volume. `metadata_root` is the directory below which the mounts of
    /// direct volumes are described.
    pub fn prepare_emptydir_artifacts_with_tracking_id(
        &mut self,
        source: &str,
        metadata_root: &str,
        encrypted: bool,
        discard_unmap: bool,
        dir_gid: u32,
        tracking_id: u64,
    ) -> (r: Result<Result<EphemeralDiskInfo, Error>, VolumeCommand>)
        requires
            all_readable(old(self)@),
        ensures
            all_readable(old(self)@) ==> all_readable(final(self)@),
            (final(self)@, came(r)) == artifacts_prepared(
                old(self)@,
                source@,
                metadata_root@,
                encrypted,
                discard_unmap,
                dir_gid,
                tracking_id,
            ),
    {
        if let Err(error) = self.lock_emptydir_source(source)? {
            return Ok(Err(error));
        }
        let disk = EphemeralDiskInfo {
            tracking_id,
            disk_path: join_path(source, DISK_IMG),
            source_path: source.to_owned(),
            guest_stats_path: String::new(),
            disk_created: false,
            metadata_created: false,
            device_id: None,
        };
        assert(disk.deep_view().guest_stats_path =~= seq![]);
        let reply = self.ask(VolumeCommand::IsVolumeMounted(source.to_owned()))?;
        if read_flag(reply) {
            return Ok(Ok(disk));
        }
        if let Err(error) = self.check_metadata(source, metadata_root)? {
            return Ok(Err(error));
        }
        self.make_disk(disk, encrypted, discard_unmap, dir_gid)
    }
}

/// Only what was made for this sandbox is ever removed: a cleanup asks for the removal of nothing
/// but the disk and the description that the record says were made.
pub proof fn law_cleanup_removes_only_owned(rs: Seq<VolumeReply>, disk: DiskModel)
    ensures
        match artifacts_cleaned(rs, disk).1 {
            Err(VolumeModel::RemoveFile(path)) => disk.disk_created && path == disk.disk_path,
            Err(VolumeModel::RemoveVolumePath(source)) => disk.metadata_created && source
                == disk.source_path,
            Err(_) => false,
            Ok(_) => true,
        },
        !disk.disk_created && !disk.metadata_created ==> artifacts_cleaned(rs, disk) == (
            rs,
            Ok::<Result<(), ErrorModel>, VolumeModel>(Ok(())),
        ),
{
}

/// The artifacts stay as long as the device may be there: nothing is removed unless the device was
/// detached.
pub proof fn law_artifacts_outlive_device(
    rs: Seq<VolumeReply>,
    disk: DiskModel,
    removal: Result<DeviceRemoval, ErrorModel>,
)
    requires
        removal != Ok::<DeviceRemoval, ErrorModel>(DeviceRemoval::Detached),
    ensures
        cleaned_after_removal(rs, disk, removal) == (
            rs,
            Ok::<Result<bool, ErrorModel>, VolumeModel>(Ok(false)),
        ),
{
}

} // verus!
