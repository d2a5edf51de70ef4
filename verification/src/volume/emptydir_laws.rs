//! What is made of the settings of `emptyDir` volumes, on the host and in the guest.
use crate::block_device::BlockDeviceAio;
use crate::error::{
    in_context, lemma_first_layer, pending_disk_in, DiskModel, ErrorModel, LayerModel,
};
use crate::path::path_within;
use crate::text::dec;
use crate::volume::artifacts::{
    artifacts_cleaned, artifacts_prepared, cleaned_after, disk_filled, disk_made, fresh_disk,
    metadata_checked, metadata_of, mount_options_of, source_locked,
};
use crate::volume::emptydir::{
    artifacts_abandoned, artifacts_tracked, base64_text, constructor_reconciled, disk_attached,
    disk_owned, emptydir_made, group_known, has_root_ports, is_block_mode, registration_rejected,
    storage_configured, takes_root_port, volume_of, EmptyDirModel, EmptyDirSettings,
};
use crate::volume::wire::{
    FSGroup, HostInfo, MountInfoModel, RootPorts, StorageModel, VolumeModel, VolumeReply,
};
use vstd::prelude::*;
use vstd::utf8::encode_utf8;

verus! {

/// Whether a description of a mount has that key.
pub open spec fn has_key(metadata: Seq<(Seq<char>, Seq<char>)>, key: Seq<char>) -> bool {
    exists|i: int| 0 <= i < metadata.len() && (#[trigger] metadata[i]).0 == key
}

/// Whether the description of a mount says what the settings and the directory say: the agent makes
/// an `ext4` file system on the disk, which is encrypted exactly in the mode `block-encrypted`; the
/// mount belongs to the group of the directory, unless that is the group of root; free space is
/// handed back exactly in the mode `block-plain` where the hypervisor can do so.
pub open spec fn describes(
    settings: EmptyDirSettings,
    source: Seq<char>,
    gid: u32,
    info: MountInfoModel,
) -> bool {
    let mode = settings.emptydir_mode@;
    &&& info.volume_type == "blk"@
    &&& info.fs_type == "ext4"@
    &&& info.device == path_within(source, "disk.img"@)
    &&& info.metadata.contains(("createFilesystem"@, "true"@))
    &&& mode == "block-encrypted"@ ==> info.metadata.contains(("encryptionKey"@, "ephemeral"@))
    &&& mode != "block-encrypted"@ ==> !has_key(info.metadata, "encryptionKey"@)
    &&& gid != 0 ==> info.metadata.contains(("fsGroup"@, dec(gid as int)))
    &&& gid == 0 ==> !has_key(info.metadata, "fsGroup"@)
    &&& mode == "block-plain"@ && settings.discard_supported ==> info.options == seq!["discard"@]
    &&& mode != "block-plain"@ || !settings.discard_supported ==> info.options.len() == 0
}

/// Whether a command that the setup of a volume asks for is about that volume and its settings.
pub open spec fn sets_up(
    settings: EmptyDirSettings,
    source: Seq<char>,
    gid: u32,
    command: VolumeModel,
) -> bool {
    let mode = settings.emptydir_mode@;
    let image = path_within(source, "disk.img"@);
    match command {
        VolumeModel::OpenLock(path) => path == path_within(source, ".kata-block-emptydir.lock"@),
        VolumeModel::LockFile(path) => path == path_within(source, ".kata-block-emptydir.lock"@),
        VolumeModel::IsVolumeMounted(path) => path == source,
        VolumeModel::CreateDirs(path) => path == settings.metadata_root@,
        VolumeModel::JoinPath { root, path } => root == settings.metadata_root@ && path == source,
        VolumeModel::CreateDisk(path) => path == image,
        VolumeModel::Statfs(path) => path == source,
        VolumeModel::SetLen { path, .. } => path == image,
        VolumeModel::AddMountInfo { source: described, info } => described == source && describes(
            settings,
            source,
            gid,
            info,
        ),
        VolumeModel::Attach { config, .. } => {
            &&& config.path_on_host == image
            &&& !config.is_readonly
            &&& config.discard_unmap <==> mode == "block-plain"@ && settings.discard_supported
            &&& config.retain_on_unclassified_attach_error
            &&& !config.no_drop
            &&& config.vmdk is None
            &&& config.is_direct is None
        },
        VolumeModel::BuildVolume { sid, read_only, fs_type, .. } => {
            &&& sid == settings.sid@
            &&& !read_only
            &&& fs_type == "ext4"@
        },
        VolumeModel::FindDevice(path) => path == image,
        VolumeModel::AddVolumes(_) => false,
        VolumeModel::Construct { .. } => false,
        VolumeModel::LockTransaction(path) => path == source,
        VolumeModel::Stat(path) => path == source,
        _ => true,
    }
}

proof fn lemma_described(settings: EmptyDirSettings, source: Seq<char>, gid: u32, disk: DiskModel)
    requires
        disk.disk_path == path_within(source, "disk.img"@),
    ensures
        describes(
            settings,
            source,
            gid,
            crate::volume::artifacts::mount_info_of(
                disk,
                settings.is_encrypted(),
                settings.discards(),
                gid,
            ),
        ),
{
    let encrypted = settings.emptydir_mode@ == "block-encrypted"@;
    let metadata = metadata_of(settings.is_encrypted(), gid);
    reveal_strlit("createFilesystem");
    reveal_strlit("encryptionKey");
    reveal_strlit("fsGroup");
    assert("createFilesystem"@.len() == 16);
    assert("encryptionKey"@.len() == 13);
    assert("fsGroup"@.len() == 7);
    assert(metadata[0] == ("createFilesystem"@, "true"@));
    if encrypted {
        assert(metadata[1] == ("encryptionKey"@, "ephemeral"@));
        if gid != 0 {
            assert(metadata[2] == ("fsGroup"@, dec(gid as int)));
        }
    } else if gid != 0 {
        assert(metadata[1] == ("fsGroup"@, dec(gid as int)));
    }
}

proof fn lemma_prepared_sets_up(
    rs: Seq<VolumeReply>,
    source: Seq<char>,
    settings: EmptyDirSettings,
    gid: u32,
    tracking_id: u64,
)
    ensures
        ({
            let step = artifacts_prepared(
                rs,
                source,
                settings.metadata_root@,
                settings.is_encrypted(),
                settings.discards(),
                gid,
                tracking_id,
            );
            &&& step.1 matches Err(command) ==> sets_up(settings, source, gid, command)
            &&& step.1 matches Ok(Ok(disk)) ==> {
                &&& disk.disk_path == path_within(source, "disk.img"@)
                &&& disk.source_path == source
                &&& disk.tracking_id == tracking_id
                &&& disk.disk_created == disk.metadata_created
                &&& disk.device_id is None
                &&& disk.guest_stats_path.len() == 0
            }
        }),
{
    let disk = fresh_disk(source, tracking_id);
    let made = DiskModel { disk_created: true, ..disk };
    lemma_described(settings, source, gid, made);
    if let (rs1, Ok(Ok(()))) = source_locked(rs, source) {
        if rs1.len() > 0 {
            if let (rs2, Ok(Ok(()))) = metadata_checked(
                rs1.drop_first(),
                source,
                settings.metadata_root@,
            ) {
                if rs2.len() > 0 {
                    let filled = disk_filled(
                        rs2.drop_first(),
                        made,
                        settings.is_encrypted(),
                        settings.discards(),
                        gid,
                    );
                    assert(filled.1 matches Err(command) ==> sets_up(
                        settings,
                        source,
                        gid,
                        command,
                    ));
                }
            }
        }
    }
}

proof fn lemma_owned_sets_up(
    rs: Seq<VolumeReply>,
    source: Seq<char>,
    settings: EmptyDirSettings,
    gid: u32,
)
    ensures
        ({
            let step = disk_owned(rs, source, settings, gid);
            &&& step.1 matches Err(command) ==> sets_up(settings, source, gid, command)
            &&& step.1 matches Ok(Ok(disk)) ==> {
                &&& disk.disk_path == path_within(source, "disk.img"@)
                &&& disk.source_path == source
                &&& disk.device_id is None
                &&& disk.disk_created == disk.metadata_created
                &&& rs.len() > 0 && rs[0] == VolumeReply::Number(disk.tracking_id)
            }
        }),
{
    if rs.len() > 0 {
        if let VolumeReply::Number(tracking_id) = rs[0] {
            lemma_prepared_sets_up(rs.drop_first(), source, settings, gid, tracking_id);
        }
    }
    let made = artifacts_tracked(rs, source, settings, gid);
    assert(made.1 matches Err(command) ==> sets_up(settings, source, gid, command));
}

/// Every command that the setup of a volume asks for says what the settings say, by the text of the
/// mode itself, whatever has come back before. `gid` is the group that the directory was found to
/// have.
pub proof fn law_volume_setup_follows_the_settings(
    rs: Seq<VolumeReply>,
    source: Seq<char>,
    settings: EmptyDirSettings,
    gid: u32,
)
    requires
        rs.len() > 1 ==> rs[1] == VolumeReply::Number(gid as u64),
    ensures
        emptydir_made(rs, Some(source), settings).1 matches Err(command) ==> sets_up(
            settings,
            source,
            gid,
            command,
        ),
{
    if let (rs1, Ok(Ok(dir_gid))) = group_known(rs, source) {
        assert(dir_gid == gid);
        lemma_owned_sets_up(rs1, source, settings, gid);
        if let (rs2, Ok(Ok(disk))) = disk_owned(rs1, source, settings, gid) {
            let attached = disk_attached(rs2, settings, gid, disk);
        }
    }
}

/// Whether some replies are the last ones of others.
spec fn ends(rs: Seq<VolumeReply>, rest: Seq<VolumeReply>) -> bool {
    rest.len() <= rs.len() && rest =~= rs.skip(rs.len() - rest.len())
}

proof fn lemma_ends_transitive(
    rs: Seq<VolumeReply>,
    middle: Seq<VolumeReply>,
    rest: Seq<VolumeReply>,
)
    requires
        ends(rs, middle),
        ends(middle, rest),
    ensures
        ends(rs, rest),
{
    assert(rest =~= rs.skip(rs.len() - rest.len()));
}

proof fn lemma_prepared_ends(
    rs: Seq<VolumeReply>,
    source: Seq<char>,
    root: Seq<char>,
    encrypted: bool,
    discard_unmap: bool,
    gid: u32,
    tracking_id: u64,
)
    ensures
        ({
            let step = artifacts_prepared(
                rs,
                source,
                root,
                encrypted,
                discard_unmap,
                gid,
                tracking_id,
            );
            step.1 matches Ok(Ok(_)) ==> ends(rs, step.0)
        }),
{
    let disk = fresh_disk(source, tracking_id);
    if let (rs1, Ok(Ok(()))) = source_locked(rs, source) {
        assert(ends(rs, rs1));
        if rs1.len() > 0 {
            assert(ends(rs1, rs1.drop_first()));
            lemma_ends_transitive(rs, rs1, rs1.drop_first());
            if let (rs2, Ok(Ok(()))) = metadata_checked(rs1.drop_first(), source, root) {
                assert(ends(rs1.drop_first(), rs2));
                lemma_ends_transitive(rs, rs1.drop_first(), rs2);
                if let (rs3, Ok(Ok(_))) = disk_made(rs2, disk, encrypted, discard_unmap, gid) {
                    let rest = rs2.drop_first();
                    if rs2[0] is Done {
                        assert(rs3 == rest.skip(3));
                        assert(rest.skip(3) =~= rs2.skip(4));
                    } else {
                        assert(rs3 == rest.drop_first());
                        assert(rest.drop_first() =~= rs2.skip(2));
                    }
                    assert(ends(rs2, rs3));
                    lemma_ends_transitive(rs, rs2, rs3);
                }
            }
        }
    }
}

proof fn lemma_owned_ends(
    rs: Seq<VolumeReply>,
    source: Seq<char>,
    settings: EmptyDirSettings,
    gid: u32,
)
    ensures
        disk_owned(rs, source, settings, gid).1 matches Ok(Ok(_)) ==> ends(
            rs,
            disk_owned(rs, source, settings, gid).0,
        ),
{
    if rs.len() > 0 {
        if let VolumeReply::Number(tracking_id) = rs[0] {
            let rest = rs.drop_first();
            assert(ends(rs, rest));
            lemma_prepared_ends(
                rest,
                source,
                settings.metadata_root@,
                settings.is_encrypted(),
                settings.discards(),
                gid,
                tracking_id,
            );
            if let (rs1, Ok(Ok(_))) = artifacts_tracked(rs, source, settings, gid) {
                lemma_ends_transitive(rs, rest, rs1);
                if rs1.len() > 0 {
                    assert(ends(rs1, rs1.drop_first()));
                    lemma_ends_transitive(rs, rs1, rs1.drop_first());
                }
            }
        }
    }
}

/// Whether a volume is what the settings make of a device: a storage that the agent keeps, mounts in
/// a place of its own and makes a file system for, encrypted with a key that nobody keeps exactly in
/// the mode `block-encrypted`, with free space handed back exactly in the mode `block-plain` where
/// the hypervisor can do so, and owned by the group of the directory unless that is the group of
/// root; and a bind mount of that place.
pub open spec fn made_over(
    settings: EmptyDirSettings,
    gid: u32,
    built: crate::volume::wire::BuiltVolume,
    volume: EmptyDirModel,
) -> bool {
    let mode = settings.emptydir_mode@;
    let place = "/run/kata-containers/sandbox/storage/"@ + base64_text(
        encode_utf8(built.storage.source@),
    );
    let options = built.storage.deep_view().driver_options;
    &&& volume.storage.source == built.storage.source@
    &&& volume.storage.mount_point == place
    &&& volume.storage.shared
    &&& volume.storage.driver_options == if mode == "block-encrypted"@ {
        options.push("encryption_key=ephemeral"@).push(settings.create_fs@)
    } else {
        options.push(settings.create_fs@)
    }
    &&& volume.storage.options == if mode == "block-plain"@ && settings.discard_supported {
        built.storage.deep_view().options.push("discard"@)
    } else {
        built.storage.deep_view().options
    }
    &&& volume.storage.fs_group == if gid != 0 {
        Some(FSGroup { group_id: gid, change_always: true })
    } else {
        built.storage.fs_group
    }
    &&& volume.mount_source == place
    &&& volume.mount_typ == "bind"@
    &&& volume.device_id == built.device_id@
    &&& volume.disk.guest_stats_path == place
}

proof fn lemma_made_over(
    settings: EmptyDirSettings,
    gid: u32,
    built: crate::volume::wire::BuiltVolume,
    disk: DiskModel,
)
    ensures
        made_over(settings, gid, built, volume_of(built, settings, gid, disk)),
{
    reveal_strlit("/run/kata-containers/sandbox/storage/");
    reveal_strlit("/run/kata-containers/sandbox");
    reveal_strlit("/storage/");
    assert("/run/kata-containers/sandbox"@ + "/storage/"@
        =~= "/run/kata-containers/sandbox/storage/"@);
    reveal_strlit("encryption_key=ephemeral");
    reveal_strlit("encryption_key=");
    reveal_strlit("ephemeral");
    assert("encryption_key="@ + "ephemeral"@ =~= "encryption_key=ephemeral"@);
}

/// Every volume that is made is what the settings make of the device that was built for it, by the
/// text of the mode itself. Its disk is that of the source, and stands for the device.
pub proof fn law_volume_carries_the_settings(
    rs: Seq<VolumeReply>,
    source: Seq<char>,
    settings: EmptyDirSettings,
    gid: u32,
)
    requires
        rs.len() > 1 ==> rs[1] == VolumeReply::Number(gid as u64),
    ensures
        emptydir_made(rs, Some(source), settings).1 matches Ok(Ok(volume)) ==> {
            &&& volume.disk.disk_path == path_within(source, "disk.img"@)
            &&& volume.disk.source_path == source
            &&& volume.disk.device_id is Some
            &&& rs[2] == VolumeReply::Number(volume.disk.tracking_id)
            &&& exists|i: int|
                0 <= i < rs.len() && (#[trigger] rs[i] matches VolumeReply::Built(built)
                    && made_over(settings, gid, built, volume))
        },
{
    if let (rs1, Ok(Ok(dir_gid))) = group_known(rs, source) {
        assert(ends(rs, rs1));
        lemma_owned_sets_up(rs1, source, settings, gid);
        lemma_owned_ends(rs1, source, settings, gid);
        if let (rs2, Ok(Ok(disk))) = disk_owned(rs1, source, settings, gid) {
            lemma_ends_transitive(rs, rs1, rs2);
            if let (_, Ok(Ok(volume))) = disk_attached(rs2, settings, gid, disk) {
                let rest = rs2.skip(2);
                let at = rs.len() - rs2.len() + 2;
                if let VolumeReply::Built(built) = rest[0] {
                    assert(rs[at] == rest[0]);
                    assert(rs2[1] is Attached);
                    lemma_made_over(
                        settings,
                        gid,
                        built,
                        DiskModel { device_id: Some(rs2[1]->Attached_0@), ..disk },
                    );
                }
            }
        }
    }
}

/// The storage of a volume has the option that encrypts it if and only if the mode is
/// `block-encrypted`, unless the device or the settings bring the same option themselves.
pub proof fn law_storage_is_encrypted_in_its_mode_alone(
    rs: Seq<VolumeReply>,
    source: Seq<char>,
    settings: EmptyDirSettings,
    gid: u32,
)
    requires
        rs.len() > 1 ==> rs[1] == VolumeReply::Number(gid as u64),
        settings.create_fs@ != "encryption_key=ephemeral"@,
        forall|i: int|
            0 <= i < rs.len() ==> (#[trigger] rs[i] matches VolumeReply::Built(built)
                ==> !built.storage.deep_view().driver_options.contains(
                "encryption_key=ephemeral"@,
            )),
    ensures
        emptydir_made(rs, Some(source), settings).1 matches Ok(Ok(volume)) ==> (
        volume.storage.driver_options.contains("encryption_key=ephemeral"@)
            <==> settings.emptydir_mode@ == "block-encrypted"@),
{
    law_volume_carries_the_settings(rs, source, settings, gid);
    if let Ok(Ok(volume)) = emptydir_made(rs, Some(source), settings).1 {
        let i = choose|i: int|
            0 <= i < rs.len() && (#[trigger] rs[i] matches VolumeReply::Built(built) && made_over(
                settings,
                gid,
                built,
                volume,
            ));
        let options = rs[i]->Built_0.storage.deep_view().driver_options;
        let carried = volume.storage.driver_options;
        if settings.emptydir_mode@ == "block-encrypted"@ {
            assert(carried[options.len() as int] == "encryption_key=ephemeral"@);
        } else if carried.contains("encryption_key=ephemeral"@) {
            let at = carried.index_of("encryption_key=ephemeral"@);
            if at < options.len() {
                assert(options[at] == "encryption_key=ephemeral"@);
            }
        }
    }
}

/// What an operation on a volume asks for.
pub open spec fn asks<T>(came: Result<T, VolumeModel>, command: VolumeModel) -> bool {
    came == Err::<T, VolumeModel>(command)
}

/// The artifacts of a volume that has none are made step by step, under a lock: nothing is made
/// before it is clear that the volume is not mounted and nobody has described it; then the disk is
/// created, gets the size of the file system that it is on, and its mount is described. A volume that
/// is mounted has its artifacts, and they are not this sandbox's.
pub proof fn law_artifacts_are_made_step_by_step(
    source: Seq<char>,
    root: Seq<char>,
    encrypted: bool,
    discard_unmap: bool,
    gid: u32,
    tracking_id: u64,
    described: String,
    blocks: u64,
    block_size: u64,
)
    requires
        0 < blocks * block_size <= u64::MAX,
    ensures
        ({
            let run = |rs: Seq<VolumeReply>|
                artifacts_prepared(
                    rs,
                    source,
                    root,
                    encrypted,
                    discard_unmap,
                    gid,
                    tracking_id,
                ).1;
            let ok = VolumeReply::Done;
            let yes = VolumeReply::Flag(true);
            let no = VolumeReply::Flag(false);
            let at = VolumeReply::Path(described);
            let size = VolumeReply::Filesystem { blocks, block_size };
            let lock = path_within(source, ".kata-block-emptydir.lock"@);
            let image = path_within(source, "disk.img"@);
            let there = VolumeReply::AlreadyExists;
            &&& asks(run(seq![]), VolumeModel::OpenLock(lock))
            &&& asks(run(seq![ok]), VolumeModel::LockFile(lock))
            &&& asks(run(seq![ok, ok]), VolumeModel::IsVolumeMounted(source))
            &&& run(seq![ok, ok, yes]) matches Ok(Ok(disk)) && !disk.disk_created
                && !disk.metadata_created
            &&& asks(run(seq![ok, ok, no]), VolumeModel::CreateDirs(root))
            &&& asks(run(seq![ok, ok, no, ok]), VolumeModel::JoinPath { root, path: source })
            &&& asks(run(seq![ok, ok, no, ok, at]), VolumeModel::Exists(described@))
            &&& run(seq![ok, ok, no, ok, at, yes]) matches Ok(Err(_))
            &&& asks(run(seq![ok, ok, no, ok, at, no]), VolumeModel::CreateDisk(image))
            &&& asks(run(seq![ok, ok, no, ok, at, no, there]), VolumeModel::IsVolumeMounted(source))
            &&& run(seq![ok, ok, no, ok, at, no, there, no]) matches Ok(Err(_))
            &&& run(seq![ok, ok, no, ok, at, no, there, yes]) matches Ok(Ok(disk))
                && !disk.disk_created && !disk.metadata_created
            &&& asks(run(seq![ok, ok, no, ok, at, no, ok]), VolumeModel::Statfs(source))
            &&& asks(
                run(seq![ok, ok, no, ok, at, no, ok, size]),
                VolumeModel::SetLen { path: image, length: (blocks * block_size) as u64 },
            )
            &&& run(seq![ok, ok, no, ok, at, no, ok, size, ok]) matches Err(
                VolumeModel::AddMountInfo { .. },
            )
            &&& run(seq![ok, ok, no, ok, at, no, ok, size, ok, ok]) matches Ok(Ok(disk))
                && disk.disk_created && disk.metadata_created && disk.tracking_id == tracking_id
        }),
{
    let ok = VolumeReply::Done;
    let yes = VolumeReply::Flag(true);
    let no = VolumeReply::Flag(false);
    let at = VolumeReply::Path(described);
    let size = VolumeReply::Filesystem { blocks, block_size };
    let there = VolumeReply::AlreadyExists;
    assert(seq![ok, ok].skip(2) =~= seq![]);
    assert(seq![ok, ok, yes].skip(2) =~= seq![yes]);
    assert(seq![ok, ok, no].skip(2) =~= seq![no]);
    assert(seq![no].drop_first() =~= seq![]);
    assert(seq![ok, ok, no, ok].skip(2) =~= seq![no, ok]);
    assert(seq![no, ok].drop_first() =~= seq![ok]);
    assert(seq![ok, ok, no, ok, at].skip(2) =~= seq![no, ok, at]);
    assert(seq![no, ok, at].drop_first() =~= seq![ok, at]);
    assert(seq![ok, ok, no, ok, at, yes].skip(2) =~= seq![no, ok, at, yes]);
    assert(seq![no, ok, at, yes].drop_first() =~= seq![ok, at, yes]);
    assert(seq![ok, ok, no, ok, at, no].skip(2) =~= seq![no, ok, at, no]);
    assert(seq![no, ok, at, no].drop_first() =~= seq![ok, at, no]);
    assert(seq![ok, at, no].skip(3) =~= seq![]);
    assert(seq![ok, ok, no, ok, at, no, there].skip(2) =~= seq![no, ok, at, no, there]);
    assert(seq![no, ok, at, no, there].drop_first() =~= seq![ok, at, no, there]);
    assert(seq![ok, at, no, there].skip(3) =~= seq![there]);
    assert(seq![there].drop_first() =~= seq![]);
    assert(seq![ok, ok, no, ok, at, no, there, no].skip(2) =~= seq![no, ok, at, no, there, no]);
    assert(seq![no, ok, at, no, there, no].drop_first() =~= seq![ok, at, no, there, no]);
    assert(seq![ok, at, no, there, no].skip(3) =~= seq![there, no]);
    assert(seq![there, no].drop_first() =~= seq![no]);
    assert(seq![ok, ok, no, ok, at, no, there, yes].skip(2) =~= seq![no, ok, at, no, there, yes]);
    assert(seq![no, ok, at, no, there, yes].drop_first() =~= seq![ok, at, no, there, yes]);
    assert(seq![ok, at, no, there, yes].skip(3) =~= seq![there, yes]);
    assert(seq![there, yes].drop_first() =~= seq![yes]);
    assert(seq![ok, ok, no, ok, at, no, ok].skip(2) =~= seq![no, ok, at, no, ok]);
    assert(seq![no, ok, at, no, ok].drop_first() =~= seq![ok, at, no, ok]);
    assert(seq![ok, at, no, ok].skip(3) =~= seq![ok]);
    assert(seq![ok].drop_first() =~= seq![]);
    assert(seq![ok, ok, no, ok, at, no, ok, size].skip(2) =~= seq![no, ok, at, no, ok, size]);
    assert(seq![no, ok, at, no, ok, size].drop_first() =~= seq![ok, at, no, ok, size]);
    assert(seq![ok, at, no, ok, size].skip(3) =~= seq![ok, size]);
    assert(seq![ok, size].drop_first() =~= seq![size]);
    assert(seq![ok, ok, no, ok, at, no, ok, size, ok].skip(2)
        =~= seq![no, ok, at, no, ok, size, ok]);
    assert(seq![no, ok, at, no, ok, size, ok].drop_first() =~= seq![ok, at, no, ok, size, ok]);
    assert(seq![ok, at, no, ok, size, ok].skip(3) =~= seq![ok, size, ok]);
    assert(seq![ok, size, ok].drop_first() =~= seq![size, ok]);
    assert(seq![ok, ok, no, ok, at, no, ok, size, ok, ok].skip(2)
        =~= seq![no, ok, at, no, ok, size, ok, ok]);
    assert(seq![no, ok, at, no, ok, size, ok, ok].drop_first()
        =~= seq![ok, at, no, ok, size, ok, ok]);
    assert(seq![ok, at, no, ok, size, ok, ok].skip(3) =~= seq![ok, size, ok, ok]);
    assert(seq![ok, size, ok, ok].drop_first() =~= seq![size, ok, ok]);
}

/// The group of the directory is read before anything else, under a lock of its own, and the disk is
/// tracked under a number that is given out for it.
pub proof fn law_volume_begins_with_lock_and_group(
    source: Seq<char>,
    settings: EmptyDirSettings,
    gid: u32,
    tracking_id: u64,
    failed: VolumeReply,
)
    requires
        failed is Failed,
    ensures
        ({
            let run = |rs: Seq<VolumeReply>| emptydir_made(rs, Some(source), settings).1;
            let ok = VolumeReply::Done;
            let group = VolumeReply::Number(gid as u64);
            let number = VolumeReply::Number(tracking_id);
            &&& asks(run(seq![]), VolumeModel::LockTransaction(source))
            &&& run(seq![failed]) matches Ok(Err(_))
            &&& asks(run(seq![ok]), VolumeModel::Stat(source))
            &&& run(seq![ok, failed]) matches Ok(Err(_))
            &&& asks(run(seq![ok, group]), VolumeModel::AllocateTrackingId)
            &&& pending_disk_in(failed->Failed_0.deep_view()) is None ==> (run(
                seq![ok, group, failed],
            ) matches Ok(Err(_)))
            &&& asks(
                run(seq![ok, group, number]),
                VolumeModel::OpenLock(path_within(source, ".kata-block-emptydir.lock"@)),
            )
        }),
        emptydir_made(seq![], None, settings).1 matches Ok(Err(_)),
{
    let ok = VolumeReply::Done;
    let group = VolumeReply::Number(gid as u64);
    let number = VolumeReply::Number(tracking_id);
    assert(seq![ok, group].skip(2) =~= seq![]);
    assert(seq![ok, group, failed].skip(2) =~= seq![failed]);
    assert(seq![ok, group, number].skip(2) =~= seq![number]);
    assert(seq![number].drop_first() =~= seq![]);
}

/// A disk that the store owns is attached as the host is configured, and the volume is built over the
/// device that came of it; the store notes where the guest has it before the volume is handed out.
pub proof fn law_owned_disk_is_attached_step_by_step(
    settings: EmptyDirSettings,
    gid: u32,
    disk: DiskModel,
    host: HostInfo,
    device: String,
    built: crate::volume::wire::BuiltVolume,
    failed: VolumeReply,
    any: VolumeReply,
)
    requires
        failed is Failed,
    ensures
        ({
            let run = |rs: Seq<VolumeReply>| disk_attached(rs, settings, gid, disk).1;
            let given = VolumeReply::Host(host);
            let attached = VolumeReply::Attached(device);
            let made = VolumeReply::Built(built);
            let place = "/run/kata-containers/sandbox/storage/"@ + base64_text(
                encode_utf8(built.storage.source@),
            );
            &&& asks(run(seq![]), VolumeModel::HostInfo)
            &&& run(seq![given]) matches Err(VolumeModel::Attach { tracking_id, config }) && {
                &&& tracking_id == disk.tracking_id
                &&& config.path_on_host == disk.disk_path
                &&& config.driver_option == host.block_device_driver@
                &&& config.num_queues == host.num_queues
                &&& config.queue_size == host.queue_size
                &&& config.logical_sector_size == host.logical_sector_size
                &&& config.physical_sector_size == host.physical_sector_size
                &&& config.blkdev_aio == BlockDeviceAio::Native <==> host.block_device_aio@
                    == "native"@
                &&& config.blkdev_aio == BlockDeviceAio::Threads <==> host.block_device_aio@
                    == "threads"@
                &&& config.use_pcie_root_port <==> host.block_device_driver@ == "virtio-blk-pci"@
                    && (host.machine_type@ == "q35"@ || host.machine_type@ == "virt"@) && (
                host.topology matches Some(topology) && topology.hypervisor_name@ == "qemu"@
                    && topology.pcie_root_ports > 0)
                &&& config.attach_count == 0
                &&& config.serial_override.len() == 0
                &&& config.pcie_root_port is None
                &&& config.cleanup_state is None
            }
            &&& asks(
                run(seq![given, attached]),
                VolumeModel::BuildVolume {
                    device_id: device@,
                    sid: settings.sid@,
                    read_only: false,
                    fs_type: "ext4"@,
                },
            )
            &&& asks(
                run(seq![given, attached, made]),
                VolumeModel::UpdateGuestStatsPath { tracking_id: disk.tracking_id, path: place },
            )
            &&& run(seq![given, attached, made, any]) matches Ok(Ok(volume))
                && volume.disk.device_id == Some(device@)
            &&& asks(run(seq![given, failed]), VolumeModel::FindDevice(disk.disk_path))
            &&& asks(run(seq![given, attached, failed]), VolumeModel::RemoveDevice(device@))
        }),
{
    let given = VolumeReply::Host(host);
    let attached = VolumeReply::Attached(device);
    let made = VolumeReply::Built(built);
    assert(seq![given, attached].skip(2) =~= seq![]);
    assert(seq![given, attached, made].skip(2) =~= seq![made]);
    assert(seq![given, attached, made, any].skip(2) =~= seq![made, any]);
    assert(seq![given, failed].skip(2) =~= seq![]);
    assert(seq![given, attached, failed].skip(2) =~= seq![failed]);
    assert(seq![failed].drop_first() =~= seq![]);
    reveal_strlit("native");
    reveal_strlit("threads");
    assert("native"@.len() != "threads"@.len());
    lemma_made_over(settings, gid, built, disk);
}

/// A disk takes a root port exactly where its driver is on the PCI bus and QEMU has a root port left on
/// a machine that has them.
pub proof fn law_root_port_is_for_pci_disks_of_qemu(
    driver: Seq<char>,
    machine_type: Seq<char>,
    topology: RootPorts,
)
    ensures
        takes_root_port(driver, machine_type, Some(topology)) <==> driver == "virtio-blk-pci"@ && (
        machine_type == "q35"@ || machine_type == "virt"@) && topology.hypervisor_name@ == "qemu"@
            && topology.pcie_root_ports >= 1,
        !takes_root_port(driver, machine_type, None),
        has_root_ports(machine_type) <==> machine_type == "q35"@ || machine_type == "virt"@,
        is_block_mode(machine_type) <==> machine_type == "block-encrypted"@ || machine_type
            == "block-plain"@,
{
}

/// The guest is always told to make a file system, of the key exactly where the disk is encrypted, and
/// of the group exactly where there is one.
pub proof fn law_metadata_tells_key_and_group(encrypted: bool, gid: u32)
    ensures
        ({
            let told = metadata_of(encrypted, gid);
            &&& told.contains(("createFilesystem"@, "true"@))
            &&& encrypted <==> told.contains(("encryptionKey"@, "ephemeral"@))
            &&& gid != 0 <==> told.contains(("fsGroup"@, dec(gid as int)))
            &&& told.len() == 1 + (if encrypted {
                1int
            } else {
                0
            }) + (if gid != 0 {
                1int
            } else {
                0
            })
        }),
        mount_options_of(true) == seq!["discard"@],
        mount_options_of(false).len() == 0,
{
    reveal_strlit("createFilesystem");
    reveal_strlit("encryptionKey");
    reveal_strlit("fsGroup");
    assert("createFilesystem"@.len() != "encryptionKey"@.len());
    assert("createFilesystem"@.len() != "fsGroup"@.len());
    assert("encryptionKey"@.len() != "fsGroup"@.len());
    let told = metadata_of(encrypted, gid);
    assert(told[0] == ("createFilesystem"@, "true"@));
    if encrypted {
        assert(told[1] == ("encryptionKey"@, "ephemeral"@));
    }
    if gid != 0 {
        assert(told[told.len() - 1] == ("fsGroup"@, dec(gid as int)));
    }
}

/// The storage of a disk keeps the options it has. The key comes behind them exactly where the disk is
/// encrypted, the way to make a file system comes last, and free space is given back exactly where that
/// is asked for.
pub proof fn law_storage_is_told_key_and_file_system(
    storage: StorageModel,
    encrypted: bool,
    discard: bool,
    create_fs: Seq<char>,
)
    ensures
        ({
            let r = storage_configured(storage, encrypted, discard, create_fs);
            &&& r.shared
            &&& r.source == storage.source
            &&& r.mount_point == storage.mount_point
            &&& r.fs_group == storage.fs_group
            &&& r.driver_options.last() == create_fs
            &&& r.driver_options.take(storage.driver_options.len() as int)
                == storage.driver_options
            &&& r.driver_options.len() == storage.driver_options.len() + (if encrypted {
                2int
            } else {
                1
            })
            &&& encrypted ==> r.driver_options[storage.driver_options.len() as int]
                == "encryption_key=ephemeral"@
            &&& discard ==> r.options == storage.options.push("discard"@)
            &&& !discard ==> r.options == storage.options
        }),
{
    reveal_strlit("encryption_key=");
    reveal_strlit("ephemeral");
    reveal_strlit("encryption_key=ephemeral");
    assert("encryption_key="@ + "ephemeral"@ =~= "encryption_key=ephemeral"@);
    let r = storage_configured(storage, encrypted, discard, create_fs);
    assert(r.driver_options.take(storage.driver_options.len() as int) =~= storage.driver_options);
}

/// A failure comes out as it is where the artifacts of the disk went, and with the disk that remains
/// where they did not. Where its owner has refused the disk, or it is given up, one that remains is
/// handed to the owner first.
pub proof fn law_failure_keeps_the_disk_that_remains(
    rs: Seq<VolumeReply>,
    error: ErrorModel,
    disk: DiskModel,
)
    ensures
        match artifacts_cleaned(rs, disk) {
            (_, Err(command)) => {
                &&& cleaned_after(rs, error, disk).1 == Err::<ErrorModel, VolumeModel>(command)
                &&& registration_rejected(rs, error, disk).1 == Err::<ErrorModel, VolumeModel>(
                    command,
                )
                &&& artifacts_abandoned(rs, disk).1 == Err::<(), VolumeModel>(command)
            },
            (rest, Ok(Ok(_))) => {
                &&& cleaned_after(rs, error, disk) == (rest, Ok::<ErrorModel, VolumeModel>(error))
                &&& registration_rejected(rs, error, disk).0 == rest
                &&& (registration_rejected(rs, error, disk).1 matches Ok(refusal) && refusal.len()
                    == error.len() + 1 && refusal.skip(1) == error)
                &&& artifacts_abandoned(rs, disk) == (rest, Ok::<(), VolumeModel>(()))
            },
            (rest, Ok(Err(_))) => {
                &&& (cleaned_after(rs, error, disk).1 matches Ok(pending) && pending_disk_in(pending)
                    == Some(disk))
                &&& rest.len() == 0 ==> {
                    &&& registration_rejected(rs, error, disk).1 == Err::<ErrorModel, VolumeModel>(
                        VolumeModel::Preserve(disk),
                    )
                    &&& artifacts_abandoned(rs, disk).1 == Err::<(), VolumeModel>(
                        VolumeModel::Preserve(disk),
                    )
                }
                &&& rest.len() > 0 ==> {
                    &&& (registration_rejected(rs, error, disk).1 matches Ok(pending)
                        && pending_disk_in(pending) == Some(disk))
                    &&& artifacts_abandoned(rs, disk) == (
                        rest.drop_first(),
                        Ok::<(), VolumeModel>(()),
                    )
                }
            },
        },
{
    assert forall|layer: LayerModel| layer is PendingDisk implies #[trigger] pending_disk_in(
        seq![layer],
    ) == Some(layer->disk) by {
        lemma_first_layer(seq![layer], |l: LayerModel| l is PendingDisk);
        assert((|l: LayerModel| l is PendingDisk)(seq![layer][0]));
    }
    assert(in_context(error, seq![]).skip(1) =~= error);
    if let Ok(refusal) = registration_rejected(rs, error, disk).1 {
        if artifacts_cleaned(rs, disk).1 matches Ok(Ok(_)) {
            assert(refusal.skip(1) =~= error);
        }
    }
}

/// A volume that could not be made is forgotten, unless its disk remains.
pub proof fn law_failed_volume_is_forgotten(rs: Seq<VolumeReply>, id: u64, error: ErrorModel)
    ensures
        ({
            let (rest, came) = constructor_reconciled(rs, id, error);
            if pending_disk_in(error) is Some {
                rest == rs && came == Ok::<ErrorModel, VolumeModel>(error)
            } else if rs.len() == 0 {
                came == Err::<ErrorModel, VolumeModel>(VolumeModel::Remove(id))
            } else {
                rest.len() == rs.len() - 1 && came == Ok::<ErrorModel, VolumeModel>(error)
            }
        }),
{
}

} // verus!
