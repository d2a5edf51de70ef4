//! Fdsets of QEMU, and the tags that tell which block device a descriptor belongs to.
use crate::error::{message, Error, ErrorModel};
use crate::qmp::session::{outcome, Qmp};
use crate::qmp::wire::{FdsetFd, FdsetInfo};
use crate::table::{entries_map, Entry, Table};
use crate::text::{after_prefix, cat4, chars_of, strip_prefix, text_of};
use vstd::prelude::*;

verus! {

/// The tag of a descriptor: the block device that it belongs to, and what it is for.
pub open spec fn opaque_tag(node_name: Seq<char>, label: Seq<char>) -> Seq<char> {
    "kata-block:"@ + node_name + ":"@ + label
}

/// The index of the first `c` in `s`, or the length where there is none.
pub open spec fn index_of_char(s: Seq<char>, c: char) -> int
    decreases s.len(),
{
    if s.len() == 0 {
        0
    } else if s[0] == c {
        0
    } else {
        1 + index_of_char(s.drop_first(), c)
    }
}

/// The block device that a tag names: what stands between the prefix and the next colon.
pub open spec fn tagged_node(opaque: Seq<char>) -> Option<Seq<char>> {
    match after_prefix(opaque, "kata-block:"@) {
        Some(rest) => {
            let at = index_of_char(rest, ':');
            if at < rest.len() {
                Some(rest.take(at))
            } else {
                None
            }
        },
        None => None,
    }
}

/// Where the first `c` is.
pub proof fn lemma_index_of_char(s: Seq<char>, c: char)
    ensures
        0 <= index_of_char(s, c) <= s.len(),
        index_of_char(s, c) < s.len() ==> s[index_of_char(s, c)] == c,
        forall|i: int| 0 <= i < index_of_char(s, c) ==> s[i] != c,
    decreases s.len(),
{
    if s.len() > 0 && s[0] != c {
        lemma_index_of_char(s.drop_first(), c);
        assert forall|i: int| 0 <= i < index_of_char(s, c) implies s[i] != c by {
            if i > 0 {
                assert(s[i] == s.drop_first()[i - 1]);
            }
        }
    }
}

/// The first `c` is the one before which there is none.
pub proof fn lemma_index_of_char_is(s: Seq<char>, c: char, at: int)
    requires
        0 <= at <= s.len(),
        at < s.len() ==> s[at] == c,
        forall|i: int| 0 <= i < at ==> s[i] != c,
    ensures
        index_of_char(s, c) == at,
{
    lemma_index_of_char(s, c);
    let found = index_of_char(s, c);
    if found < at {
        assert(s[found] != c);
    }
}

/// A tag names the block device that it was made for, where the name holds no colon.
pub proof fn law_tag_names_its_device(node_name: Seq<char>, label: Seq<char>)
    requires
        !node_name.contains(':'),
    ensures
        tagged_node(opaque_tag(node_name, label)) == Some(node_name),
{
    reveal_strlit("kata-block:");
    reveal_strlit(":");
    let tag = opaque_tag(node_name, label);
    assert(tag.subrange(0, 11) =~= "kata-block:"@);
    let rest = tag.subrange(11, tag.len() as int);
    assert(rest =~= node_name + ":"@ + label);
    assert forall|i: int| 0 <= i < node_name.len() implies rest[i] != ':' by {
        assert(rest[i] == node_name[i]);
    }
    lemma_index_of_char_is(rest, ':', node_name.len() as int);
    assert(rest.take(node_name.len() as int) =~= node_name);
}

/// The tag of a descriptor.
pub fn block_fd_opaque(node_name: &str, label: &str) -> (r: String)
    ensures
        r@ == opaque_tag(node_name@, label@),
{
    cat4("kata-block:", node_name, ":", label)
}

/// The block device that a tag names.
pub fn block_fd_node_name(opaque: &str) -> (r: Option<String>)
    ensures
        r.deep_view() == tagged_node(opaque@),
{
    match strip_prefix(opaque, "kata-block:") {
        Some(rest) => {
            let chars = chars_of(rest.as_str());
            let mut i: usize = 0;
            while i < chars.len()
                invariant
                    chars@ == rest@,
                    0 <= i <= chars@.len(),
                    forall|j: int| 0 <= j < i ==> chars@[j] != ':',
                    after_prefix(opaque@, "kata-block:"@) == Some(rest@),
                decreases chars@.len() - i,
            {
                if chars[i] == ':' {
                    proof {
                        lemma_index_of_char_is(rest@, ':', i as int);
                        assert(rest@.take(i as int) =~= rest@.subrange(0, i as int));
                    }
                    return Some(text_of(&chars, 0, i));
                }
                i = i + 1;
            }
            proof {
                lemma_index_of_char_is(rest@, ':', i as int);
            }
            None
        },
        None => None,
    }
}

/// The fdsets with the id of `fdset_id` added to those of `node_name`, unless it is there.
pub open spec fn noted(
    known: Map<Seq<char>, Seq<i64>>,
    node_name: Seq<char>,
    fdset_id: i64,
) -> Map<Seq<char>, Seq<i64>> {
    let ids = if known.contains_key(node_name) {
        known[node_name]
    } else {
        seq![]
    };
    known.insert(
        node_name,
        if ids.contains(fdset_id) {
            ids
        } else {
            ids.push(fdset_id)
        },
    )
}

/// The block device that a descriptor belongs to.
pub open spec fn fd_node(fd: FdsetFd) -> Option<Seq<char>> {
    match fd.opaque {
        Some(opaque) => tagged_node(opaque@),
        None => None,
    }
}

/// The fdsets with those of the descriptors `fds` of the fdset `fdset_id` added.
pub open spec fn noted_fds(
    known: Map<Seq<char>, Seq<i64>>,
    fdset_id: i64,
    fds: Seq<FdsetFd>,
) -> Map<Seq<char>, Seq<i64>>
    decreases fds.len(),
{
    if fds.len() == 0 {
        known
    } else {
        let before = noted_fds(known, fdset_id, fds.drop_last());
        match fd_node(fds.last()) {
            Some(node_name) => noted(before, node_name, fdset_id),
            None => before,
        }
    }
}

/// The fdsets of each block device, in the order in which QEMU lists them, each once.
pub open spec fn collected(fdsets: Seq<FdsetInfo>) -> Map<Seq<char>, Seq<i64>>
    decreases fdsets.len(),
{
    if fdsets.len() == 0 {
        Map::empty()
    } else {
        noted_fds(
            collected(fdsets.drop_last()),
            fdsets.last().fdset_id,
            fdsets.last().fds@,
        )
    }
}

/// Whether an id is in a list.
pub fn contains_id(ids: &Vec<i64>, id: i64) -> (r: bool)
    ensures
        r == ids@.contains(id),
{
    let mut i: usize = 0;
    while i < ids.len()
        invariant
            0 <= i <= ids@.len(),
            forall|j: int| 0 <= j < i ==> ids@[j] != id,
        decreases ids@.len() - i,
    {
        if ids[i] == id {
            return true;
        }
        i = i + 1;
    }
    false
}

/// A copy of a list of ids.
pub fn dup_ids(ids: &Vec<i64>) -> (r: Vec<i64>)
    ensures
        r@ == ids@,
{
    let mut r: Vec<i64> = Vec::new();
    let mut i: usize = 0;
    while i < ids.len()
        invariant
            0 <= i <= ids@.len(),
            r@ =~= ids@.take(i as int),
        decreases ids@.len() - i,
    {
        r.push(ids[i]);
        i = i + 1;
    }
    r
}

/// The ids of an optional list; none where there is no list.
pub fn ids_or_none(known: &Table<Vec<i64>>, node_name: &str) -> (r: Vec<i64>)
    ensures
        r@ == (if known.deep_view().contains_key(node_name@) {
            known.deep_view()[node_name@]
        } else {
            seq![]
        }),
{
    match known.get(node_name) {
        Some(ids) => {
            let r = dup_ids(ids);
            assert(ids.deep_view() =~= ids@);
            r
        },
        None => Vec::new(),
    }
}

fn note(known: &mut Table<Vec<i64>>, node_name: String, fdset_id: i64)
    ensures
        final(known).deep_view() == noted(old(known).deep_view(), node_name@, fdset_id),
{
    let mut ids = ids_or_none(known, node_name.as_str());
    if !contains_id(&ids, fdset_id) {
        ids.push(fdset_id);
    }
    assert(ids.deep_view() =~= ids@);
    known.insert(node_name, ids);
}

/// The fdsets of each block device.
pub fn collect_block_fdsets(fdsets: &Vec<FdsetInfo>) -> (r: Table<Vec<i64>>)
    ensures
        r.deep_view() == collected(fdsets@),
{
    let mut known: Table<Vec<i64>> = Table::new();
    let mut i: usize = 0;
    while i < fdsets.len()
        invariant
            0 <= i <= fdsets@.len(),
            known.deep_view() == collected(fdsets@.take(i as int)),
        decreases fdsets@.len() - i,
    {
        let fdset = &fdsets[i];
        let ghost before = known.deep_view();
        let mut k: usize = 0;
        assert(fdset.fds@.take(0) =~= seq![]);
        while k < fdset.fds.len()
            invariant
                0 <= k <= fdset.fds@.len(),
                known.deep_view() == noted_fds(before, fdset.fdset_id, fdset.fds@.take(k as int)),
            decreases fdset.fds@.len() - k,
        {
            proof {
                let now = fdset.fds@.take(k as int);
                let next = fdset.fds@.take(k + 1);
                assert(next.drop_last() =~= now);
                assert(next.last() == fdset.fds@[k as int]);
            }
            let node: Option<String> = match &fdset.fds[k].opaque {
                Some(opaque) => block_fd_node_name(opaque.as_str()),
                None => None,
            };
            if let Some(node_name) = node {
                note(&mut known, node_name, fdset.fdset_id);
            }
            k = k + 1;
        }
        proof {
            assert(fdset.fds@.take(k as int) =~= fdset.fds@);
            let next = fdsets@.take(i + 1);
            assert(next.drop_last() =~= fdsets@.take(i as int));
            assert(next.last() == fdsets@[i as int]);
        }
        i = i + 1;
    }
    assert(fdsets@.take(i as int) =~= fdsets@);
    known
}

/// How often `id` is in `ids`.
spec fn occurrences(ids: Seq<i64>, id: i64) -> nat {
    ids.to_multiset().count(id)
}

fn count_id(ids: &Vec<i64>, id: i64) -> (r: usize)
    ensures
        r == occurrences(ids@, id),
{
    broadcast use vstd::seq_lib::group_to_multiset_ensures;

    let mut count: usize = 0;
    let mut i: usize = 0;
    while i < ids.len()
        invariant
            0 <= i <= ids@.len(),
            count <= i,
            count == occurrences(ids@.take(i as int), id),
        decreases ids@.len() - i,
    {
        broadcast use vstd::seq_lib::group_to_multiset_ensures;

        assert(ids@.take(i + 1) =~= ids@.take(i as int).push(ids@[i as int]));
        if ids[i] == id {
            count = count + 1;
        }
        i = i + 1;
    }
    assert(ids@.take(i as int) =~= ids@);
    count
}

fn all_counted(ids: &Vec<i64>, other: &Vec<i64>) -> (r: bool)
    ensures
        r == forall|k: int|
            0 <= k < ids@.len() ==> occurrences(ids@, #[trigger] ids@[k]) == occurrences(
                other@,
                ids@[k],
            ),
{
    let mut i: usize = 0;
    while i < ids.len()
        invariant
            0 <= i <= ids@.len(),
            forall|k: int|
                0 <= k < i ==> occurrences(ids@, #[trigger] ids@[k]) == occurrences(
                    other@,
                    ids@[k],
                ),
        decreases ids@.len() - i,
    {
        if count_id(ids, ids[i]) != count_id(other, ids[i]) {
            return false;
        }
        i = i + 1;
    }
    true
}

/// Whether two lists hold the same ids, each as often, in whatever order.
pub fn same_ids(a: &Vec<i64>, b: &Vec<i64>) -> (r: bool)
    ensures
        r == (a@.to_multiset() == b@.to_multiset()),
{
    broadcast use vstd::seq_lib::group_to_multiset_ensures;

    let r: bool = all_counted(a, b) && all_counted(b, a);
    proof {
        if r {
            assert forall|x: i64| a@.to_multiset().count(x) == b@.to_multiset().count(x) by {
                if a@.contains(x) {
                    let k = choose|k: int| 0 <= k < a@.len() && a@[k] == x;
                    assert(occurrences(a@, a@[k]) == occurrences(b@, a@[k]));
                }
                if b@.contains(x) {
                    let k = choose|k: int| 0 <= k < b@.len() && b@[k] == x;
                    assert(occurrences(b@, b@[k]) == occurrences(a@, b@[k]));
                }
            }
            assert(a@.to_multiset() =~= b@.to_multiset());
        }
    }
    r
}

/// Whether two tables of fdsets have the same block devices, each with the same fdsets.
pub open spec fn tables_agree(a: Map<Seq<char>, Seq<i64>>, b: Map<Seq<char>, Seq<i64>>) -> bool {
    &&& a.dom() == b.dom()
    &&& forall|node: Seq<char>| #[trigger]
        a.contains_key(node) ==> a[node].to_multiset() == b[node].to_multiset()
}

/// Every key of a map stands in an entry.
proof fn lemma_key_has_entry<V: DeepView>(entries: Seq<Entry<V>>, key: Seq<char>)
    requires
        entries_map(entries).contains_key(key),
    ensures
        exists|i: int| 0 <= i < entries.len() && (#[trigger] entries[i]).key@ == key,
    decreases entries.len(),
{
    if entries.last().key@ != key {
        lemma_key_has_entry(entries.drop_last(), key);
        let i = choose|i: int|
            0 <= i < entries.drop_last().len() && (#[trigger] entries.drop_last()[i]).key@ == key;
        assert(entries[i].key@ == key);
    } else {
        assert(entries[entries.len() - 1].key@ == key);
    }
}

/// The key of an entry is in the map.
proof fn lemma_entry_has_key<V: DeepView>(entries: Seq<Entry<V>>, i: int)
    requires
        0 <= i < entries.len(),
    ensures
        entries_map(entries).contains_key(entries[i].key@),
    decreases entries.len(),
{
    if i < entries.len() - 1 {
        lemma_entry_has_key(entries.drop_last(), i);
    }
}

/// Whether every block device of `a` is in `b`, with the same fdsets.
fn covered_by(a: &Table<Vec<i64>>, b: &Table<Vec<i64>>) -> (r: bool)
    ensures
        r == forall|node: Seq<char>| #[trigger]
            a.deep_view().contains_key(node) ==> b.deep_view().contains_key(node)
                && a.deep_view()[node].to_multiset() == b.deep_view()[node].to_multiset(),
{
    let mut i: usize = 0;
    while i < a.entries.len()
        invariant
            0 <= i <= a.entries@.len(),
            forall|j: int|
                0 <= j < i ==> b.deep_view().contains_key((#[trigger] a.entries@[j]).key@)
                    && a.deep_view()[a.entries@[j].key@].to_multiset()
                    == b.deep_view()[a.entries@[j].key@].to_multiset(),
        decreases a.entries@.len() - i,
    {
        proof {
            lemma_entry_has_key(a.entries@, i as int);
        }
        let node = &a.entries[i].key;
        match (a.get(node.as_str()), b.get(node.as_str())) {
            (Some(x), Some(y)) => {
                assert(x.deep_view() =~= x@);
                assert(y.deep_view() =~= y@);
                if !same_ids(x, y) {
                    return false;
                }
            },
            _ => {
                return false;
            },
        }
        i = i + 1;
    }
    assert forall|node: Seq<char>| #[trigger]
        a.deep_view().contains_key(node) implies b.deep_view().contains_key(node)
        && a.deep_view()[node].to_multiset() == b.deep_view()[node].to_multiset() by {
        lemma_key_has_entry(a.entries@, node);
    }
    true
}

impl Qmp {
    /// Checks that the fdsets that QEMU has are those that are expected, in whatever order.
    pub fn verify_block_fdsets(&self, expected: &Table<Vec<i64>>) -> (r: Result<(), Error>)
        ensures
            outcome(r) == (if tables_agree(self@.block_fdsets, expected.deep_view()) {
                Ok::<(), ErrorModel>(())
            } else {
                Err::<(), ErrorModel>(
                    message(
                        "QEMU startup block fdsets do not match the descriptors passed by the shim"@,
                    ),
                )
            }),
    {
        let agree: bool = covered_by(&self.block_fdsets, expected) && covered_by(
            expected,
            &self.block_fdsets,
        );
        proof {
            if agree {
                assert(self@.block_fdsets.dom() =~= expected.deep_view().dom());
            } else if tables_agree(self@.block_fdsets, expected.deep_view()) {
                assert forall|node: Seq<char>| #[trigger]
                    expected.deep_view().contains_key(
                        node,
                    ) implies self@.block_fdsets.contains_key(node) by {
                    assert(expected.deep_view().dom().contains(node));
                    assert(self@.block_fdsets.dom().contains(node));
                }
                assert forall|node: Seq<char>| #[trigger]
                    self@.block_fdsets.contains_key(
                        node,
                    ) implies expected.deep_view().contains_key(node) by {
                    assert(self@.block_fdsets.dom().contains(node));
                    assert(expected.deep_view().dom().contains(node));
                }
            }
        }
        if agree {
            Ok(())
        } else {
            Err(
                Error::msg_str(
                    "QEMU startup block fdsets do not match the descriptors passed by the shim",
                ),
            )
        }
    }
}

} // verus!
