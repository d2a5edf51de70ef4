//! A map from text to values, kept as a list of entries.
use crate::text::same;
use vstd::prelude::*;

verus! {

/// Puts an item behind the others.
pub fn push_item<T: DeepView>(items: &mut Vec<T>, item: T)
    ensures
        final(items).deep_view() == old(items).deep_view().push(item.deep_view()),
{
    let ghost before = items@;
    items.push(item);
    assert(items.deep_view() =~= before.map_values(|t: T| t.deep_view()).push(item.deep_view()));
}

/// An entry of a [`Table`].
#[derive(Clone, Debug)]
pub struct Entry<V> {
    pub key: String,
    pub value: V,
}

/// A map from text to values.
#[derive(Clone, Debug)]
pub struct Table<V> {
    pub entries: Vec<Entry<V>>,
}

/// The map that a list of entries stands for: of two entries with one key, the later counts.
pub open spec fn entries_map<V: DeepView>(entries: Seq<Entry<V>>) -> Map<Seq<char>, V::V>
    decreases entries.len(),
{
    if entries.len() == 0 {
        Map::empty()
    } else {
        entries_map(entries.drop_last()).insert(
            entries.last().key@,
            entries.last().value.deep_view(),
        )
    }
}

impl<V: DeepView> DeepView for Table<V> {
    type V = Map<Seq<char>, V::V>;

    open spec fn deep_view(&self) -> Map<Seq<char>, V::V> {
        entries_map(self.entries@)
    }
}

/// A key that no entry has is not in the map.
proof fn lemma_absent<V: DeepView>(entries: Seq<Entry<V>>, key: Seq<char>)
    requires
        forall|i: int| 0 <= i < entries.len() ==> (#[trigger] entries[i]).key@ != key,
    ensures
        !entries_map(entries).contains_key(key),
    decreases entries.len(),
{
    if entries.len() > 0 {
        lemma_absent(entries.drop_last(), key);
    }
}

/// A key whose last entry stands at `at` is mapped to the value there.
proof fn lemma_present<V: DeepView>(entries: Seq<Entry<V>>, key: Seq<char>, at: int)
    requires
        0 <= at < entries.len(),
        entries[at].key@ == key,
        forall|i: int| at < i < entries.len() ==> (#[trigger] entries[i]).key@ != key,
    ensures
        entries_map(entries).contains_key(key),
        entries_map(entries)[key] == entries[at].value.deep_view(),
    decreases entries.len(),
{
    if at < entries.len() - 1 {
        lemma_present(entries.drop_last(), key, at);
    }
}

/// Taking out every entry of a key takes the key out of the map.
proof fn lemma_push_other<V: DeepView>(kept: Seq<Entry<V>>, entries: Seq<Entry<V>>, key: Seq<char>)
    requires
        entries.len() > 0,
        entries_map(kept) == entries_map(entries.drop_last()).remove(key),
    ensures
        entries.last().key@ != key ==> entries_map(kept.push(entries.last())) == entries_map(
            entries,
        ).remove(key),
        entries.last().key@ == key ==> entries_map(kept) == entries_map(entries).remove(key),
{
    if entries.last().key@ != key {
        assert(kept.push(entries.last()).drop_last() =~= kept);
        assert(entries_map(kept.push(entries.last())) =~= entries_map(entries).remove(key));
    } else {
        assert(entries_map(kept) =~= entries_map(entries).remove(key));
    }
}

proof fn lemma_held<V: DeepView>(entries: Seq<Entry<V>>, i: int)
    requires
        0 <= i < entries.len(),
    ensures
        entries_map(entries).contains_key(entries[i].key@),
    decreases entries.len(),
{
    if i < entries.len() - 1 {
        lemma_held(entries.drop_last(), i);
    }
}

impl<V: DeepView> Table<V> {
    /// The empty map.
    pub fn new() -> (r: Table<V>)
        ensures
            r.deep_view() == Map::<Seq<char>, V::V>::empty(),
    {
        Table { entries: Vec::new() }
    }

    /// Whether the map holds `key`.
    pub fn contains_key(&self, key: &str) -> (r: bool)
        ensures
            r == self.deep_view().contains_key(key@),
    {
        self.get(key).is_some()
    }

    /// The value of `key`, where the map holds it.
    pub fn get(&self, key: &str) -> (r: Option<&V>)
        ensures
            match r {
                Some(value) => self.deep_view().contains_key(key@) && self.deep_view()[key@]
                    == value.deep_view(),
                None => !self.deep_view().contains_key(key@),
            },
    {
        let mut i: usize = self.entries.len();
        while i > 0
            invariant
                0 <= i <= self.entries@.len(),
                forall|j: int|
                    i <= j < self.entries@.len() ==> (#[trigger] self.entries@[j]).key@ != key@,
            decreases i,
        {
            i = i - 1;
            if same(self.entries[i].key.as_str(), key) {
                proof {
                    lemma_present(self.entries@, key@, i as int);
                }
                return Some(&self.entries[i].value);
            }
        }
        proof {
            lemma_absent(self.entries@, key@);
        }
        None
    }

    /// Takes `key` out and gives its value back, where the map held it.
    pub fn remove(&mut self, key: &str) -> (r: Option<V>)
        ensures
            final(self).deep_view() == old(self).deep_view().remove(key@),
            match r {
                Some(value) => old(self).deep_view().contains_key(key@) && old(self).deep_view()[key@]
                    == value.deep_view(),
                None => !old(self).deep_view().contains_key(key@),
            },
    {
        let ghost all = self.entries@;
        let mut rest: Vec<Entry<V>> = Vec::new();
        let mut kept: Vec<Entry<V>> = Vec::new();
        let mut found: Option<V> = None;
        std::mem::swap(&mut rest, &mut self.entries);
        let ghost mut last: int = -1;
        assert(entries_map(kept@) =~= entries_map(all.take(0)).remove(key@));
        while rest.len() > 0
            invariant
                rest@.len() <= all.len(),
                rest@ == all.skip(all.len() - rest@.len()),
                entries_map(kept@) == entries_map(all.take(all.len() - rest@.len())).remove(key@),
                -1 <= last < all.len() - rest@.len(),
                found is None <==> last == -1,
                found is Some ==> all[last].key@ == key@ && all[last].value.deep_view()
                    == found->0.deep_view(),
                forall|j: int|
                    last < j < all.len() - rest@.len() ==> (#[trigger] all[j]).key@ != key@,
            decreases rest@.len(),
        {
            let ghost at = all.len() - rest@.len();
            let entry = rest.remove(0);
            proof {
                assert(entry == all[at]);
                assert(all.take(at + 1).drop_last() =~= all.take(at));
                assert(all.take(at + 1).last() == entry);
                lemma_push_other(kept@, all.take(at + 1), key@);
                assert(rest@ =~= all.skip(at + 1));
            }
            if same(entry.key.as_str(), key) {
                found = Some(entry.value);
                proof {
                    last = at;
                }
            } else {
                kept.push(entry);
            }
        }
        assert(all.take(all.len() as int) =~= all);
        self.entries = kept;
        proof {
            if last == -1 {
                lemma_absent(all, key@);
            } else {
                lemma_present(all, key@, last);
            }
        }
        found
    }

    /// Maps `key` to `value`.
    pub fn insert(&mut self, key: String, value: V)
        ensures
            final(self).deep_view() == old(self).deep_view().insert(key@, value.deep_view()),
    {
        let _ = self.remove(key.as_str());
        let ghost kept = self.entries@;
        let entry = Entry { key, value };
        self.entries.push(entry);
        proof {
            assert(self.entries@.drop_last() =~= kept);
            assert(self.deep_view() =~= old(self).deep_view().insert(key@, value.deep_view()));
        }
    }

    /// The keys that the map holds, in no particular order.
    pub fn keys(&self) -> (r: Vec<String>)
        ensures
            forall|key: Seq<char>|
                #[trigger] r.deep_view().contains(key) <==> self.deep_view().contains_key(key),
    {
        let mut r: Vec<String> = Vec::new();
        let mut i: usize = 0;
        while i < self.entries.len()
            invariant
                0 <= i <= self.entries@.len(),
                r@.len() == i,
                forall|j: int| 0 <= j < i ==> (#[trigger] r@[j])@ == self.entries@[j].key@,
            decreases self.entries@.len() - i,
        {
            r.push(self.entries[i].key.clone());
            i = i + 1;
        }
        assert forall|key: Seq<char>| #[trigger] r.deep_view().contains(
            key,
        ) <==> self.deep_view().contains_key(key) by {
            if r.deep_view().contains(key) {
                let j = choose|j: int| 0 <= j < r.deep_view().len() && r.deep_view()[j] == key;
                lemma_held(self.entries@, j);
            }
            if self.deep_view().contains_key(key) && !r.deep_view().contains(key) {
                assert forall|j: int| 0 <= j < self.entries@.len() implies (
                #[trigger] self.entries@[j]).key@ != key by {
                    assert(r.deep_view()[j] == r@[j]@);
                }
                lemma_absent(self.entries@, key);
            }
        }
        r
    }

    /// Takes every key out.
    pub fn clear(&mut self)
        ensures
            final(self).deep_view() == Map::<Seq<char>, V::V>::empty(),
    {
        self.entries.clear();
    }
}

} // verus!
