//! The store of the disks behind `emptyDir` volumes that a sandbox owns.
use crate::error::{message, DiskModel, EphemeralDiskInfo, Error, ErrorModel};
use crate::qmp::session::outcome;
use crate::table::push_item;
use crate::text::same;
use crate::volume::reconcile::{
    occurrences, reconcile_snapshot_occurrences, retained, successes,
};
use vstd::prelude::*;

verus! {

/// The disks that a sandbox owns. Each has a tracking number of its own.
#[derive(Debug)]
pub struct EphemeralDiskStore {
    pub disks: Vec<EphemeralDiskInfo>,
    /// Whether the sandbox is being finalized: no disk is added any more.
    pub sealed: bool,
    /// How many containers are being set up that may add disks.
    pub active_setups: usize,
    pub next_tracking_id: u64,
    pub tracking_ids_exhausted: bool,
}

/// The model of an [`EphemeralDiskStore`].
pub struct StoreModel {
    pub disks: Seq<DiskModel>,
    pub sealed: bool,
    pub active_setups: usize,
    pub next_tracking_id: u64,
    pub exhausted: bool,
}

impl View for EphemeralDiskStore {
    type V = StoreModel;

    open spec fn view(&self) -> StoreModel {
        StoreModel {
            disks: self.disks.deep_view(),
            sealed: self.sealed,
            active_setups: self.active_setups,
            next_tracking_id: self.next_tracking_id,
            exhausted: self.tracking_ids_exhausted,
        }
    }
}

/// Where the first disk with that tracking number stands, or the length where there is none.
pub open spec fn tracked_at(disks: Seq<DiskModel>, tracking_id: u64) -> int
    decreases disks.len(),
{
    if disks.len() == 0 {
        0
    } else if disks[0].tracking_id == tracking_id {
        0
    } else {
        1 + tracked_at(disks.drop_first(), tracking_id)
    }
}

/// Whether some disk has that tracking number.
pub open spec fn is_owned(disks: Seq<DiskModel>, tracking_id: u64) -> bool {
    tracked_at(disks, tracking_id) < disks.len()
}

/// Whether no two disks share a tracking number.
pub open spec fn tracked_once(disks: Seq<DiskModel>) -> bool {
    forall|i: int, j: int|
        0 <= i < j < disks.len() ==> (#[trigger] disks[i]).tracking_id != (
        #[trigger] disks[j]).tracking_id
}

/// The disks with this one: in place of the one with its tracking number, or behind the others.
pub open spec fn upserted(disks: Seq<DiskModel>, disk: DiskModel) -> Seq<DiskModel> {
    let at = tracked_at(disks, disk.tracking_id);
    if at < disks.len() {
        disks.update(at, disk)
    } else {
        disks.push(disk)
    }
}

/// The disks without those with that tracking number.
pub open spec fn untracked(disks: Seq<DiskModel>, tracking_id: u64) -> Seq<DiskModel>
    decreases disks.len(),
{
    if disks.len() == 0 {
        seq![]
    } else if disks.last().tracking_id == tracking_id {
        untracked(disks.drop_last(), tracking_id)
    } else {
        untracked(disks.drop_last(), tracking_id).push(disks.last())
    }
}

/// The tracking numbers of disks.
pub open spec fn tracking_ids(disks: Seq<DiskModel>) -> Seq<u64> {
    disks.map_values(|disk: DiskModel| disk.tracking_id)
}

pub proof fn lemma_tracked_at(disks: Seq<DiskModel>, tracking_id: u64)
    ensures
        0 <= tracked_at(disks, tracking_id) <= disks.len(),
        is_owned(disks, tracking_id) ==> disks[tracked_at(disks, tracking_id)].tracking_id
            == tracking_id,
        forall|i: int|
            0 <= i < tracked_at(disks, tracking_id) ==> (#[trigger] disks[i]).tracking_id
                != tracking_id,
    decreases disks.len(),
{
    if disks.len() > 0 && disks[0].tracking_id != tracking_id {
        lemma_tracked_at(disks.drop_first(), tracking_id);
        assert forall|i: int| 0 <= i < tracked_at(disks, tracking_id) implies (
        #[trigger] disks[i]).tracking_id != tracking_id by {
            if i > 0 {
                assert(disks[i] == disks.drop_first()[i - 1]);
            }
        }
    }
}

proof fn lemma_tracked_at_is(disks: Seq<DiskModel>, tracking_id: u64, at: int)
    requires
        0 <= at <= disks.len(),
        at < disks.len() ==> disks[at].tracking_id == tracking_id,
        forall|i: int| 0 <= i < at ==> (#[trigger] disks[i]).tracking_id != tracking_id,
    ensures
        tracked_at(disks, tracking_id) == at,
{
    lemma_tracked_at(disks, tracking_id);
    let found = tracked_at(disks, tracking_id);
    if found < at {
        assert(disks[found].tracking_id != tracking_id);
    }
    if at < found {
        assert(disks[at].tracking_id != tracking_id);
    }
}

impl EphemeralDiskInfo {
    /// Whether the disk or its metadata were made for this sandbox.
    pub fn owns_artifacts(&self) -> (r: bool)
        ensures
            r == (self.disk_created || self.metadata_created),
    {
        self.disk_created || self.metadata_created
    }
}

fn find_tracked(disks: &Vec<EphemeralDiskInfo>, tracking_id: u64) -> (r: usize)
    ensures
        r == tracked_at(disks.deep_view(), tracking_id),
        r <= disks@.len(),
{
    let mut i: usize = 0;
    while i < disks.len()
        invariant
            0 <= i <= disks@.len(),
            forall|j: int|
                0 <= j < i ==> (#[trigger] disks.deep_view()[j]).tracking_id != tracking_id,
        decreases disks@.len() - i,
    {
        assert(disks.deep_view()[i as int] == disks@[i as int].deep_view());
        if disks[i].tracking_id == tracking_id {
            proof {
                lemma_tracked_at_is(disks.deep_view(), tracking_id, i as int);
            }
            return i;
        }
        i = i + 1;
    }
    proof {
        lemma_tracked_at_is(disks.deep_view(), tracking_id, i as int);
    }
    i
}

/// Puts a disk in place of the one with its tracking number, or behind the others.
pub fn upsert_ephemeral_disk(disks: &mut Vec<EphemeralDiskInfo>, disk: EphemeralDiskInfo)
    ensures
        final(disks).deep_view() == upserted(old(disks).deep_view(), disk.deep_view()),
{
    let at: usize = find_tracked(disks, disk.tracking_id);
    if at < disks.len() {
        let ghost before = disks.deep_view();
        disks.set(at, disk);
        assert(disks.deep_view() =~= before.update(at as int, disk.deep_view()));
    } else {
        push_item(disks, disk);
    }
}

/// Copies of disks.
pub fn dup_disks(disks: &Vec<EphemeralDiskInfo>) -> (r: Vec<EphemeralDiskInfo>)
    ensures
        r.deep_view() == disks.deep_view(),
{
    let mut r: Vec<EphemeralDiskInfo> = Vec::new();
    let mut i: usize = 0;
    assert(r.deep_view() =~= disks.deep_view().take(0));
    while i < disks.len()
        invariant
            0 <= i <= disks@.len(),
            r.deep_view() == disks.deep_view().take(i as int),
        decreases disks@.len() - i,
    {
        push_item(&mut r, disks[i].dup());
        assert(disks.deep_view().take(i + 1) =~= disks.deep_view().take(i as int).push(
            disks@[i as int].deep_view(),
        ));
        i = i + 1;
    }
    assert(disks.deep_view().take(i as int) =~= disks.deep_view());
    r
}

/// The tracking numbers of disks.
pub fn ids_of(disks: &Vec<EphemeralDiskInfo>) -> (r: Vec<u64>)
    ensures
        r@ == tracking_ids(disks.deep_view()),
        r@.len() == disks@.len(),
{
    let mut r: Vec<u64> = Vec::new();
    let mut i: usize = 0;
    while i < disks.len()
        invariant
            0 <= i <= disks@.len(),
            r@.len() == i,
            forall|j: int| 0 <= j < i ==> #[trigger] r@[j] == disks@[j].tracking_id,
        decreases disks@.len() - i,
    {
        r.push(disks[i].tracking_id);
        i = i + 1;
    }
    assert(r@ =~= tracking_ids(disks.deep_view()));
    r
}

/// A store with other disks.
pub open spec fn with_disks(s: StoreModel, disks: Seq<DiskModel>) -> StoreModel {
    StoreModel { disks, ..s }
}

/// The store lets go of the disks whose cleanup was attempted and succeeded.
pub open spec fn reconciled(
    s: StoreModel,
    attempted: Seq<DiskModel>,
    remaining: Seq<DiskModel>,
) -> StoreModel {
    with_disks(
        s,
        retained(
            s.disks,
            tracking_ids(s.disks),
            tracking_ids(attempted),
            tracking_ids(remaining),
        ),
    )
}

/// The sandbox is being finalized from now on.
pub open spec fn sealed(s: StoreModel) -> StoreModel {
    StoreModel { sealed: true, ..s }
}

/// A container is being set up. That is refused once the sandbox is being finalized.
pub open spec fn setup_begun(s: StoreModel) -> (StoreModel, Result<(), ErrorModel>) {
    if s.sealed {
        (
            s,
            Err(
                message("block EmptyDir ownership store is sealed for post-stop finalization"@),
            ),
        )
    } else {
        (StoreModel { active_setups: (s.active_setups + 1) as usize, ..s }, Ok(()))
    }
}

/// A tracking number is given out, none of them twice.
pub open spec fn id_allocated(s: StoreModel) -> (StoreModel, Result<u64, ErrorModel>) {
    if s.exhausted {
        (s, Err(message("block EmptyDir ownership tracking IDs exhausted"@)))
    } else if s.next_tracking_id == u64::MAX {
        (StoreModel { exhausted: true, ..s }, Ok(s.next_tracking_id))
    } else {
        (
            StoreModel { next_tracking_id: (s.next_tracking_id + 1) as u64, ..s },
            Ok(s.next_tracking_id),
        )
    }
}

/// A disk is added. That is refused once the sandbox is being finalized.
pub open spec fn disk_registered(s: StoreModel, disk: DiskModel) -> (
    StoreModel,
    Result<(), ErrorModel>,
) {
    if s.sealed {
        (s, Err(message("block EmptyDir ownership store was sealed before registration"@)))
    } else {
        (with_disks(s, upserted(s.disks, disk)), Ok(()))
    }
}

impl Default for EphemeralDiskStore {
    fn default() -> (r: EphemeralDiskStore)
        ensures
            r@ == (StoreModel {
                disks: seq![],
                sealed: false,
                active_setups: 0,
                next_tracking_id: 0,
                exhausted: false,
            }),
    {
        let r = EphemeralDiskStore {
            disks: Vec::new(),
            sealed: false,
            active_setups: 0,
            next_tracking_id: 0,
            tracking_ids_exhausted: false,
        };
        assert(r@.disks =~= seq![]);
        r
    }
}

impl EphemeralDiskStore {
    /// Begins to set a container up, whose disks the store will own.
    pub fn begin_setup(&mut self) -> (r: Result<(), Error>)
        requires
            old(self).active_setups < usize::MAX,
        ensures
            (final(self)@, outcome(r)) == setup_begun(old(self)@),
    {
        if self.sealed {
            return Err(
                Error::msg_str(
                    "block EmptyDir ownership store is sealed for post-stop finalization",
                ),
            );
        }
        self.active_setups = self.active_setups + 1;
        Ok(())
    }

    /// Ends what [`Self::begin_setup`] began, and tells whether that was the last one.
    pub fn end_setup(&mut self) -> (r: bool)
        requires
            old(self).active_setups > 0,
        ensures
            final(self)@ == (StoreModel {
                active_setups: (old(self)@.active_setups - 1) as usize,
                ..old(self)@
            }),
            r == (final(self)@.active_setups == 0),
    {
        self.active_setups = self.active_setups - 1;
        self.active_setups == 0
    }

    /// Seals the store, and tells whether nobody is being set up any more.
    pub fn seal(&mut self) -> (r: bool)
        ensures
            final(self)@ == sealed(old(self)@),
            r == (old(self)@.active_setups == 0),
    {
        self.sealed = true;
        self.active_setups == 0
    }

    /// Copies of the disks.
    pub fn snapshot(&self) -> (r: Vec<EphemeralDiskInfo>)
        ensures
            r.deep_view() == self@.disks,
    {
        dup_disks(&self.disks)
    }

    /// Gives a tracking number out.
    pub fn allocate_tracking_id(&mut self) -> (r: Result<u64, Error>)
        ensures
            (final(self)@, outcome(r)) == id_allocated(old(self)@),
    {
        if self.tracking_ids_exhausted {
            return Err(Error::msg_str("block EmptyDir ownership tracking IDs exhausted"));
        }
        let tracking_id: u64 = self.next_tracking_id;
        if tracking_id == u64::MAX {
            self.tracking_ids_exhausted = true;
        } else {
            self.next_tracking_id = tracking_id + 1;
        }
        Ok(tracking_id)
    }

    /// Adds a disk, or puts it in place of the one with its tracking number.
    pub fn register(&mut self, disk: EphemeralDiskInfo) -> (r: Result<(), Error>)
        ensures
            (final(self)@, outcome(r)) == disk_registered(old(self)@, disk.deep_view()),
    {
        if self.sealed {
            return Err(
                Error::msg_str("block EmptyDir ownership store was sealed before registration"),
            );
        }
        upsert_ephemeral_disk(&mut self.disks, disk);
        Ok(())
    }

    /// Adds a disk whose cleanup failed, even to a store that is sealed.
    pub fn preserve_for_cleanup(&mut self, disk: EphemeralDiskInfo)
        ensures
            final(self)@ == with_disks(
                old(self)@,
                upserted(old(self)@.disks, disk.deep_view()),
            ),
    {
        upsert_ephemeral_disk(&mut self.disks, disk);
    }

    fn set_device_id(&mut self, at: usize, device_id: String)
        requires
            at < old(self).disks@.len(),
        ensures
            final(self)@ == with_disks(
                old(self)@,
                old(self)@.disks.update(
                    at as int,
                    DiskModel { device_id: Some(device_id@), ..old(self)@.disks[at as int] },
                ),
            ),
    {
        let ghost before = self@.disks;
        assert(before[at as int] == self.disks@[at as int].deep_view());
        let mut disk = self.disks[at].dup();
        disk.device_id = Some(device_id);
        self.disks.set(at, disk);
        assert(self@.disks =~= before.update(at as int, disk.deep_view()));
    }

    /// Notes the device of a disk, where the store still owns the disk.
    pub fn update_discovered_device_id(&mut self, tracking_id: u64, device_id: String)
        ensures
            final(self)@ == if is_owned(old(self)@.disks, tracking_id) {
                let at = tracked_at(old(self)@.disks, tracking_id);
                with_disks(
                    old(self)@,
                    old(self)@.disks.update(
                        at,
                        DiskModel { device_id: Some(device_id@), ..old(self)@.disks[at] },
                    ),
                )
            } else {
                old(self)@
            },
    {
        let at: usize = find_tracked(&self.disks, tracking_id);
        if at < self.disks.len() {
            self.set_device_id(at, device_id);
        }
    }

    /// Notes the device of a disk that is being set up.
    pub fn update_device_id(&mut self, tracking_id: u64, device_id: String)
        requires
            is_owned(old(self)@.disks, tracking_id),
        ensures
            ({
                let at = tracked_at(old(self)@.disks, tracking_id);
                final(self)@ == with_disks(
                    old(self)@,
                    old(self)@.disks.update(
                        at,
                        DiskModel { device_id: Some(device_id@), ..old(self)@.disks[at] },
                    ),
                )
            }),
    {
        let at: usize = find_tracked(&self.disks, tracking_id);
        self.set_device_id(at, device_id);
    }

    /// Notes where the guest has a disk that is being set up.
    pub fn update_guest_stats_path(&mut self, tracking_id: u64, guest_stats_path: String)
        requires
            is_owned(old(self)@.disks, tracking_id),
        ensures
            ({
                let at = tracked_at(old(self)@.disks, tracking_id);
                final(self)@ == with_disks(
                    old(self)@,
                    old(self)@.disks.update(
                        at,
                        DiskModel {
                            guest_stats_path: guest_stats_path@,
                            ..old(self)@.disks[at]
                        },
                    ),
                )
            }),
    {
        let at: usize = find_tracked(&self.disks, tracking_id);
        let ghost before = self@.disks;
        assert(before[at as int] == self.disks@[at as int].deep_view());
        let mut disk = self.disks[at].dup();
        disk.guest_stats_path = guest_stats_path;
        self.disks.set(at, disk);
        assert(self@.disks =~= before.update(at as int, disk.deep_view()));
    }

    /// Puts what is known now of a disk in place of what was known before.
    pub fn refresh(&mut self, disk: EphemeralDiskInfo)
        requires
            is_owned(old(self)@.disks, disk.tracking_id),
        ensures
            final(self)@ == with_disks(
                old(self)@,
                old(self)@.disks.update(
                    tracked_at(old(self)@.disks, disk.tracking_id),
                    disk.deep_view(),
                ),
            ),
    {
        let at: usize = find_tracked(&self.disks, disk.tracking_id);
        let ghost before = self@.disks;
        self.disks.set(at, disk);
        assert(self@.disks =~= before.update(at as int, disk.deep_view()));
    }

    /// Whether the store owns a disk with that tracking number.
    pub fn owns(&self, tracking_id: u64) -> (r: bool)
        ensures
            r == is_owned(self@.disks, tracking_id),
    {
        find_tracked(&self.disks, tracking_id) < self.disks.len()
    }

    /// Lets go of the disks with that tracking number.
    pub fn remove(&mut self, tracking_id: u64)
        ensures
            final(self)@ == with_disks(old(self)@, untracked(old(self)@.disks, tracking_id)),
    {
        let ghost all = self@.disks;
        let mut rest: Vec<EphemeralDiskInfo> = Vec::new();
        let mut kept: Vec<EphemeralDiskInfo> = Vec::new();
        std::mem::swap(&mut rest, &mut self.disks);
        assert(rest.deep_view() =~= all.skip(0));
        assert(kept.deep_view() =~= untracked(all.take(0), tracking_id));
        let ghost mut at: int = 0;
        while rest.len() > 0
            invariant
                0 <= at <= all.len(),
                rest.deep_view() == all.skip(at),
                kept.deep_view() == untracked(all.take(at), tracking_id),
                self@ == with_disks(old(self)@, self@.disks),
            decreases rest@.len(),
        {
            let ghost left = rest.deep_view();
            let disk = rest.remove(0);
            proof {
                assert(rest.deep_view() =~= left.drop_first());
                assert(left[0] == disk.deep_view());
                assert(left[0] == all[at]);
                assert(rest.deep_view() =~= all.skip(at + 1));
                assert(all.take(at + 1).drop_last() =~= all.take(at));
                at = at + 1;
            }
            if disk.tracking_id != tracking_id {
                push_item(&mut kept, disk);
            }
        }
        assert(rest.deep_view().len() == 0);
        assert(all.take(at) =~= all);
        self.disks = kept;
    }

    /// Lets go of the disks whose cleanup was attempted and succeeded.
    pub fn reconcile(&mut self, attempted: &Vec<EphemeralDiskInfo>, remaining: &Vec<EphemeralDiskInfo>)
        ensures
            final(self)@ == reconciled(old(self)@, attempted.deep_view(), remaining.deep_view()),
    {
        let keys = ids_of(&self.disks);
        let ghost before = self.disks@;
        let attempted_ids = ids_of(attempted);
        let remaining_ids = ids_of(remaining);
        reconcile_snapshot_occurrences(
            &mut self.disks,
            &keys,
            &attempted_ids,
            &remaining_ids,
        );
        proof {
            lemma_retained_view(before, keys@, attempted_ids@, remaining_ids@);
            let view = |d: EphemeralDiskInfo| d.deep_view();
            assert(self@.disks =~= self.disks@.map_values(view));
            assert(old(self)@.disks =~= before.map_values(view));
        }
    }

    /// Where the guest has the volume at that path on the host: the newest disk counts of which
    /// the guest has one.
    pub fn guest_volume_stats_path(&self, host_volume_path: &str) -> (r: Option<String>)
        ensures
            r.deep_view() == stats_path(self@.disks, host_volume_path@),
    {
        let mut i: usize = self.disks.len();
        assert(self@.disks.take(i as int) =~= self@.disks);
        while i > 0
            invariant
                0 <= i <= self.disks@.len(),
                stats_path(self@.disks, host_volume_path@) == stats_path(
                    self@.disks.take(i as int),
                    host_volume_path@,
                ),
            decreases i,
        {
            i = i - 1;
            let disk = &self.disks[i];
            proof {
                let head = self@.disks.take(i + 1);
                assert(head.drop_last() =~= self@.disks.take(i as int));
                assert(head.last() == disk.deep_view());
            }
            if (same(host_volume_path, disk.source_path.as_str()) || same(
                host_volume_path,
                disk.disk_path.as_str(),
            )) && disk.guest_stats_path.as_str().unicode_len() != 0 {
                return Some(disk.guest_stats_path.clone());
            }
        }
        None
    }
}

/// Where the guest has the volume at that path on the host: the newest disk counts of which the
/// guest has one.
pub open spec fn stats_path(disks: Seq<DiskModel>, host_path: Seq<char>) -> Option<Seq<char>>
    decreases disks.len(),
{
    if disks.len() == 0 {
        None
    } else {
        let disk = disks.last();
        if (host_path == disk.source_path || host_path == disk.disk_path)
            && disk.guest_stats_path.len() != 0 {
            Some(disk.guest_stats_path)
        } else {
            stats_path(disks.drop_last(), host_path)
        }
    }
}

proof fn lemma_retained_view(
    disks: Seq<EphemeralDiskInfo>,
    keys: Seq<u64>,
    attempted: Seq<u64>,
    remaining: Seq<u64>,
)
    requires
        keys.len() <= disks.len(),
    ensures
        retained(disks, keys, attempted, remaining).map_values(
            |d: EphemeralDiskInfo| d.deep_view(),
        ) == retained(
            disks.map_values(|d: EphemeralDiskInfo| d.deep_view()),
            keys,
            attempted,
            remaining,
        ),
    decreases keys.len(),
{
    let view = |d: EphemeralDiskInfo| d.deep_view();
    if keys.len() > 0 {
        lemma_retained_view(disks, keys.drop_last(), attempted, remaining);
        let before = retained(disks, keys.drop_last(), attempted, remaining);
        assert(before.push(disks[keys.len() - 1]).map_values(view) =~= before.map_values(view).push(
            disks[keys.len() - 1].deep_view(),
        ));
    } else {
        assert(retained(disks, keys, attempted, remaining).map_values(view) =~= seq![]);
    }
}

/// The store keeps one record of each tracking number: adding a disk never makes a second one, and
/// the record that is there afterwards is the one that was added.
pub proof fn law_one_record_per_disk(disks: Seq<DiskModel>, disk: DiskModel)
    requires
        tracked_once(disks),
    ensures
        tracked_once(upserted(disks, disk)),
        is_owned(upserted(disks, disk), disk.tracking_id),
        upserted(disks, disk)[tracked_at(upserted(disks, disk), disk.tracking_id)] == disk,
{
    lemma_tracked_at(disks, disk.tracking_id);
    let at = tracked_at(disks, disk.tracking_id);
    let after = upserted(disks, disk);
    lemma_tracked_at_is(after, disk.tracking_id, at);
    assert forall|i: int, j: int| 0 <= i < j < after.len() implies (
    #[trigger] after[i]).tracking_id != (#[trigger] after[j]).tracking_id by {
        if at < disks.len() {
            if i == at {
                assert(disks[at].tracking_id != disks[j].tracking_id);
            } else if j == at {
                assert(disks[i].tracking_id != disks[at].tracking_id);
            } else {
                assert(disks[i].tracking_id != disks[j].tracking_id);
            }
        } else if j < disks.len() {
            assert(disks[i].tracking_id != disks[j].tracking_id);
        }
    }
}

/// The store after so many tracking numbers were given out.
pub open spec fn after_allocations(s: StoreModel, count: nat) -> StoreModel
    decreases count,
{
    if count == 0 {
        s
    } else {
        id_allocated(after_allocations(s, (count - 1) as nat)).0
    }
}

/// A tracking number is never given out again: the number that one request gets is below every
/// number that a later one gets, however many come between them, and once the numbers are exhausted
/// they stay so.
pub proof fn law_tracking_ids_never_repeat(s: StoreModel, between: nat)
    ensures
        ({
            let (after, first) = id_allocated(s);
            let later = after_allocations(after, between);
            let second = id_allocated(later).1;
            &&& first is Ok && second is Ok ==> first->Ok_0 < second->Ok_0
            &&& after.exhausted ==> second is Err
        }),
{
    lemma_allocations_go_up(id_allocated(s).0, between);
}

proof fn lemma_allocations_go_up(s: StoreModel, count: nat)
    ensures
        after_allocations(s, count).next_tracking_id >= s.next_tracking_id,
        s.exhausted ==> after_allocations(s, count).exhausted,
    decreases count,
{
    if count > 0 {
        lemma_allocations_go_up(s, (count - 1) as nat);
    }
}

/// A sealed store takes no setup and no disk, and is not changed by them.
pub proof fn law_sealed_store_refuses(s: StoreModel, disk: DiskModel)
    requires
        s.sealed,
    ensures
        setup_begun(s).0 == s,
        setup_begun(s).1 is Err,
        disk_registered(s, disk).0 == s,
        disk_registered(s, disk).1 is Err,
{
}

proof fn lemma_untracked(disks: Seq<DiskModel>, tracking_id: u64)
    requires
        tracked_once(disks),
    ensures
        tracked_once(untracked(disks, tracking_id)),
        forall|i: int|
            0 <= i < untracked(disks, tracking_id).len() ==> disks.contains(
                #[trigger] untracked(disks, tracking_id)[i],
            ) && untracked(disks, tracking_id)[i].tracking_id != tracking_id,
    decreases disks.len(),
{
    if disks.len() > 0 {
        let front = disks.drop_last();
        lemma_untracked(front, tracking_id);
        let kept = untracked(front, tracking_id);
        let after = untracked(disks, tracking_id);
        assert forall|i: int| 0 <= i < after.len() implies disks.contains(#[trigger] after[i])
            && after[i].tracking_id != tracking_id by {
            if i < kept.len() {
                assert(front.contains(kept[i]));
                let j = choose|j: int| 0 <= j < front.len() && front[j] == kept[i];
                assert(disks[j] == kept[i]);
            } else {
                assert(disks[disks.len() - 1] == after[i]);
            }
        }
        assert forall|i: int, j: int| 0 <= i < j < after.len() implies (
        #[trigger] after[i]).tracking_id != (#[trigger] after[j]).tracking_id by {
            if j == kept.len() {
                assert(front.contains(kept[i]));
                let k = choose|k: int| 0 <= k < front.len() && front[k] == kept[i];
                assert(disks[k].tracking_id != disks[disks.len() - 1].tracking_id);
            }
        }
    }
}

/// A disk that the store let go of is gone, and the others still have one record each.
pub proof fn law_removed_disk_is_gone(disks: Seq<DiskModel>, tracking_id: u64)
    requires
        tracked_once(disks),
    ensures
        tracked_once(untracked(disks, tracking_id)),
        !is_owned(untracked(disks, tracking_id), tracking_id),
{
    lemma_untracked(disks, tracking_id);
    lemma_tracked_at(untracked(disks, tracking_id), tracking_id);
}

proof fn lemma_no_occurrence(keys: Seq<u64>, key: u64)
    requires
        forall|i: int| 0 <= i < keys.len() ==> #[trigger] keys[i] != key,
    ensures
        occurrences(keys, key) == 0,
    decreases keys.len(),
{
    if keys.len() > 0 {
        lemma_no_occurrence(keys.drop_last(), key);
    }
}

proof fn lemma_retained_records(
    disks: Seq<DiskModel>,
    attempted: Seq<u64>,
    remaining: Seq<u64>,
    upto: int,
)
    requires
        tracked_once(disks),
        0 <= upto <= disks.len(),
    ensures
        ({
            let kept = retained(disks, tracking_ids(disks).take(upto), attempted, remaining);
            &&& forall|i: int|
                0 <= i < kept.len() ==> exists|j: int|
                    0 <= j < upto && disks[j] == (#[trigger] kept[i]) && successes(
                        attempted,
                        remaining,
                        kept[i].tracking_id,
                    ) == 0
            &&& forall|j: int|
                0 <= j < upto && successes(attempted, remaining, (#[trigger] disks[j]).tracking_id)
                    == 0 ==> kept.contains(disks[j])
            &&& tracked_once(kept)
        }),
    decreases upto,
{
    let keys = tracking_ids(disks).take(upto);
    if upto > 0 {
        let front = tracking_ids(disks).take(upto - 1);
        assert(keys.drop_last() =~= front);
        lemma_retained_records(disks, attempted, remaining, upto - 1);
        let before = retained(disks, front, attempted, remaining);
        let kept = retained(disks, keys, attempted, remaining);
        let last = disks[upto - 1];
        assert(keys.last() == last.tracking_id);
        assert forall|i: int| 0 <= i < front.len() implies #[trigger] front[i]
            != last.tracking_id by {
            assert(disks[i].tracking_id != disks[upto - 1].tracking_id);
        }
        lemma_no_occurrence(front, last.tracking_id);
        if successes(attempted, remaining, last.tracking_id) == 0 {
            assert(kept == before.push(last));
            assert forall|i: int| 0 <= i < kept.len() implies exists|j: int|
                0 <= j < upto && disks[j] == (#[trigger] kept[i]) && successes(
                    attempted,
                    remaining,
                    kept[i].tracking_id,
                ) == 0 by {
                if i < before.len() {
                    let j = choose|j: int|
                        0 <= j < upto - 1 && disks[j] == before[i] && successes(
                            attempted,
                            remaining,
                            before[i].tracking_id,
                        ) == 0;
                    assert(disks[j] == kept[i]);
                } else {
                    assert(disks[upto - 1] == kept[i]);
                }
            }
            assert forall|j: int|
                0 <= j < upto && successes(attempted, remaining, (#[trigger] disks[j]).tracking_id)
                    == 0 implies kept.contains(disks[j]) by {
                if j < upto - 1 {
                    assert(before.contains(disks[j]));
                    let i = choose|i: int| 0 <= i < before.len() && before[i] == disks[j];
                    assert(kept[i] == disks[j]);
                } else {
                    assert(kept[before.len() as int] == disks[j]);
                }
            }
            assert forall|i: int, j: int| 0 <= i < j < kept.len() implies (
            #[trigger] kept[i]).tracking_id != (#[trigger] kept[j]).tracking_id by {
                let k = choose|k: int| 0 <= k < upto - 1 && disks[k] == before[i];
                if j == before.len() {
                    assert(disks[k].tracking_id != disks[upto - 1].tracking_id);
                }
            }
        } else {
            assert(kept == before);
            assert forall|j: int|
                0 <= j < upto && successes(attempted, remaining, (#[trigger] disks[j]).tracking_id)
                    == 0 implies kept.contains(disks[j]) by {
                assert(j < upto - 1);
            }
        }
    }
}

/// After a cleanup the store keeps exactly the disks on which no attempt succeeded, those among them
/// that were added meanwhile, and still has one record of each.
pub proof fn law_reconcile_keeps_records(
    disks: Seq<DiskModel>,
    attempted: Seq<DiskModel>,
    remaining: Seq<DiskModel>,
)
    requires
        tracked_once(disks),
    ensures
        ({
            let kept = retained(
                disks,
                tracking_ids(disks),
                tracking_ids(attempted),
                tracking_ids(remaining),
            );
            &&& tracked_once(kept)
            &&& forall|disk: DiskModel| #[trigger]
                kept.contains(disk) <==> disks.contains(disk) && successes(
                    tracking_ids(attempted),
                    tracking_ids(remaining),
                    disk.tracking_id,
                ) == 0
        }),
{
    let tried = tracking_ids(attempted);
    let left = tracking_ids(remaining);
    let kept = retained(disks, tracking_ids(disks), tried, left);
    assert(tracking_ids(disks).take(disks.len() as int) =~= tracking_ids(disks));
    lemma_retained_records(disks, tried, left, disks.len() as int);
    assert forall|disk: DiskModel| #[trigger] kept.contains(disk) <==> disks.contains(disk)
        && successes(tried, left, disk.tracking_id) == 0 by {
        if kept.contains(disk) {
            let i = choose|i: int| 0 <= i < kept.len() && kept[i] == disk;
            assert(disks.contains(kept[i]));
        }
        if disks.contains(disk) && successes(tried, left, disk.tracking_id) == 0 {
            let j = choose|j: int| 0 <= j < disks.len() && disks[j] == disk;
            assert(kept.contains(disks[j]));
        }
    }
}

} // verus!
