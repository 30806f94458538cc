use vstd::prelude::*;

use crate::clock::{now, Timestamp};

verus! {

/// A sequence of keyed entries, as the specifications see a collection.
pub type Entries<T> = Seq<(Seq<char>, T)>;

/// Whether some entry has key `k`.
pub open spec fn has_key<T>(es: Entries<T>, k: Seq<char>) -> bool {
    exists|i: int| 0 <= i < es.len() && #[trigger] es[i].0 == k
}

/// The position of the entry with key `k` (meaningful when there is one).
pub open spec fn key_index<T>(es: Entries<T>, k: Seq<char>) -> int {
    choose|i: int| 0 <= i < es.len() && #[trigger] es[i].0 == k
}

/// The value stored under `k`, if any.
pub open spec fn lookup<T>(es: Entries<T>, k: Seq<char>) -> Option<T> {
    if has_key(es, k) {
        Some(es[key_index(es, k)].1)
    } else {
        None
    }
}

/// No key occurs twice.
pub open spec fn distinct_keys<T>(es: Entries<T>) -> bool {
    forall|i: int, j: int| 0 <= i < j < es.len() ==> es[i].0 != es[j].0
}

/// Insert-or-replace: an existing entry with key `k` is overwritten in place,
/// otherwise the new entry goes to the end.
pub open spec fn upsert<T>(es: Entries<T>, k: Seq<char>, v: T) -> Entries<T> {
    if has_key(es, k) {
        es.update(key_index(es, k), (k, v))
    } else {
        es.push((k, v))
    }
}

/// The entries with the one keyed `k` taken out, the others in their order.
pub open spec fn without<T>(es: Entries<T>, k: Seq<char>) -> Entries<T> {
    if has_key(es, k) {
        es.remove(key_index(es, k))
    } else {
        es
    }
}

/// The result of upserting each of `more`, in order, into `es`.
pub open spec fn upsert_all<T>(es: Entries<T>, more: Entries<T>) -> Entries<T>
    decreases more.len(),
{
    if more.len() == 0 {
        es
    } else {
        let prev = upsert_all(es, more.drop_last());
        upsert(prev, more.last().0, more.last().1)
    }
}

/// Keyed pairs as the specifications see them.
pub open spec fn entries_of<T>(items: Seq<(String, T)>) -> Entries<T> {
    items.map_values(|e: (String, T)| (e.0@, e.1))
}

/// The values of the entries, in order.
pub open spec fn values_of<T>(es: Entries<T>) -> Seq<T> {
    es.map_values(|e: (Seq<char>, T)| e.1)
}

/// What a sequence of references points to.
pub open spec fn deref_all<T>(s: Seq<&T>) -> Seq<T> {
    s.map_values(|r: &T| *r)
}

/// What an optional reference points to.
pub open spec fn deref_opt<T>(o: Option<&T>) -> Option<T> {
    match o {
        Some(r) => Some(*r),
        None => None,
    }
}

proof fn lemma_key_index_unique<T>(es: Entries<T>, i: int)
    requires
        distinct_keys(es),
        0 <= i < es.len(),
    ensures
        has_key(es, es[i].0),
        key_index(es, es[i].0) == i,
{
    let k = es[i].0;
    assert(es[i].0 == k);
    let j = key_index(es, k);
    if j < i {
        assert(es[j].0 != es[i].0);
    } else if i < j {
        assert(es[i].0 != es[j].0);
    }
}

/// Upserting keeps keys unique.
pub proof fn lemma_upsert_distinct<T>(es: Entries<T>, k: Seq<char>, v: T)
    requires
        distinct_keys(es),
    ensures
        distinct_keys(upsert(es, k, v)),
        has_key(upsert(es, k, v), k),
        key_index(upsert(es, k, v), k) == (if has_key(es, k) {
            key_index(es, k)
        } else {
            es.len() as int
        }),
        lookup(upsert(es, k, v), k) == Some(v),
{
    let r = upsert(es, k, v);
    let p = if has_key(es, k) {
        key_index(es, k)
    } else {
        es.len() as int
    };
    if has_key(es, k) {
        assert(es[p].0 == k);
    } else {
        assert forall|a: int, b: int| 0 <= a < b < r.len() implies r[a].0 != r[b].0 by {
            if b == es.len() {
                assert(es[a].0 != k);
            }
        };
    }
    assert(r[p].0 == k);
    lemma_key_index_unique(r, p);
}

/// A mapping from string keys to values, kept in insertion order with at most
/// one entry per key, together with the time of its last change.
pub struct DataCollection<T> {
    items: Vec<(String, T)>,
    last_updated: Timestamp,
}

impl<T> DataCollection<T> {
    /// The collection's entries, keys as character sequences.
    pub closed spec fn entries(&self) -> Entries<T> {
        entries_of(self.items@)
    }

    /// The time of the collection's last change.
    pub closed spec fn last_change(&self) -> Timestamp {
        self.last_updated
    }

    /// Keys are unique.
    pub open spec fn wf(&self) -> bool {
        distinct_keys(self.entries())
    }

    /// An empty collection stamped with the current time.
    pub fn new() -> (r: Self)
        ensures
            r.wf(),
            r.entries() == Seq::<(Seq<char>, T)>::empty(),
    {
        let r = DataCollection { items: Vec::new(), last_updated: now() };
        assert(r.entries() =~= Seq::<(Seq<char>, T)>::empty());
        r
    }

    /// The position of the entry keyed `key`, if there is one.
    fn position(&self, key: &String) -> (r: Option<usize>)
        requires
            self.wf(),
        ensures
            r.is_some() == has_key(self.entries(), key@),
            r.is_some() ==> r.unwrap() < self.entries().len() && r.unwrap() == key_index(
                self.entries(),
                key@,
            ),
    {
        let ghost es = self.entries();
        let mut i: usize = 0;
        while i < self.items.len()
            invariant
                es == self.entries(),
                distinct_keys(es),
                i <= self.items.len(),
                forall|j: int| 0 <= j < i ==> es[j].0 != key@,
            decreases self.items.len() - i,
        {
            if self.items[i].0 == *key {
                proof {
                    lemma_key_index_unique(es, i as int);
                }
                return Some(i);
            }
            i = i + 1;
        }
        proof {
            if has_key(es, key@) {
                let j = key_index(es, key@);
                assert(es[j].0 == key@);
            }
        }
        None
    }

    /// Inserts `value` under `key`, replacing in place an entry with the same key,
    /// and stamps the collection with the current time.
    pub fn insert(&mut self, key: String, value: T)
        requires
            old(self).wf(),
        ensures
            final(self).wf(),
            final(self).entries() == upsert(old(self).entries(), key@, value),
    {
        let ghost es = self.entries();
        let ghost k = key@;
        match self.position(&key) {
            Some(i) => {
                self.items.set(i, (key, value));
                assert(self.entries() =~= es.update(i as int, (k, value)));
            },
            None => {
                self.items.push((key, value));
                assert(self.entries() =~= es.push((k, value)));
                assert forall|a: int, b: int| 0 <= a < b < es.len() + 1 implies self.entries()[a].0
                    != self.entries()[b].0 by {
                    if b == es.len() {
                        assert(es[a].0 != k);
                    }
                };
            },
        }
        self.last_updated = now();
    }

    /// The value stored under `key`, if any.
    pub fn get(&self, key: &str) -> (r: Option<&T>)
        requires
            self.wf(),
        ensures
            deref_opt(r) == lookup(self.entries(), key@),
    {
        let k = key.to_owned();
        match self.position(&k) {
            Some(i) => Some(&self.items[i].1),
            None => None,
        }
    }

    /// Removes the entry keyed `key` and returns its value; the time of the last
    /// change moves only when something was removed.
    pub fn remove(&mut self, key: &str) -> (r: Option<T>)
        requires
            old(self).wf(),
        ensures
            final(self).wf(),
            final(self).entries() == without(old(self).entries(), key@),
            r == lookup(old(self).entries(), key@),
            r.is_none() ==> final(self).last_change() == old(self).last_change(),
    {
        let ghost es = self.entries();
        let k = key.to_owned();
        match self.position(&k) {
            Some(i) => {
                let (_, v) = self.items.remove(i);
                assert(self.entries() =~= es.remove(i as int));
                self.last_updated = now();
                Some(v)
            },
            None => None,
        }
    }

    /// The number of entries.
    pub fn len(&self) -> (r: usize)
        ensures
            r == self.entries().len(),
    {
        self.items.len()
    }

    /// Whether there are no entries.
    pub fn is_empty(&self) -> (r: bool)
        ensures
            r == (self.entries().len() == 0),
    {
        self.items.len() == 0
    }

    /// The values, in collection order.
    pub fn values(&self) -> (r: Vec<&T>)
        ensures
            deref_all(r@) == values_of(self.entries()),
    {
        let mut r: Vec<&T> = Vec::new();
        let mut i: usize = 0;
        while i < self.items.len()
            invariant
                i <= self.items.len(),
                r@.len() == i,
                deref_all(r@) == values_of(self.entries()).subrange(0, i as int),
            decreases self.items.len() - i,
        {
            let ghost prev = r@;
            r.push(&self.items[i].1);
            assert(self.entries()[i as int].1 == self.items@[i as int].1);
            assert forall|j: int| 0 <= j < i + 1 implies deref_all(r@)[j] == values_of(
                self.entries(),
            )[j] by {
                if j < i {
                    assert(r@[j] == prev[j]);
                    assert(deref_all(prev)[j] == values_of(self.entries()).subrange(0, i as int)[j]);
                }
            };
            assert(deref_all(r@) =~= values_of(self.entries()).subrange(0, i + 1));
            i = i + 1;
        }
        assert(values_of(self.entries()) =~= values_of(self.entries()).subrange(
            0,
            self.items.len() as int,
        ));
        r
    }

    /// The time of the collection's last change.
    pub fn last_updated(&self) -> (r: Timestamp)
        ensures
            r == self.last_change(),
    {
        self.last_updated
    }

    /// The entries themselves, keys beside values, in collection order.
    pub fn items(&self) -> (r: &Vec<(String, T)>)
        ensures
            entries_of(r@) == self.entries(),
    {
        &self.items
    }

    /// A collection built by upserting `items` in order into an empty one, with
    /// the given time of last change; a later entry wins over an earlier one with
    /// the same key.
    pub fn from_items(items: Vec<(String, T)>, last_updated: Timestamp) -> (r: Self)
        ensures
            r.wf(),
            r.last_change() == last_updated,
            r.entries() == upsert_all(
                Seq::<(Seq<char>, T)>::empty(),
                entries_of(items@),
            ),
    {
        let ghost src = entries_of(items@);
        let mut r = DataCollection { items: Vec::new(), last_updated };
        assert(r.entries() =~= Seq::<(Seq<char>, T)>::empty());
        let mut rest = items;
        let ghost n = src.len();
        while rest.len() > 0
            invariant
                r.wf(),
                r.last_updated == last_updated,
                n == src.len(),
                rest.len() <= n,
                forall|j: int|
                    0 <= j < rest.len() ==> (#[trigger] rest@[j].0@, rest@[j].1) == src[n - rest.len() + j],
                r.entries() == upsert_all(
                    Seq::<(Seq<char>, T)>::empty(),
                    src.subrange(0, n - rest.len()),
                ),
            decreases rest.len(),
        {
            let ghost before = rest@;
            let ghost m = rest.len();
            let (k, v) = rest.remove(0);
            assert(src.subrange(0, n - m + 1).drop_last() =~= src.subrange(0, n - m));
            assert((before[0].0@, before[0].1) == src[n - m]);
            let stamp = r.last_updated;
            r.insert(k, v);
            r.last_updated = stamp;
            assert forall|j: int| 0 <= j < rest.len() implies (#[trigger] rest@[j].0@, rest@[j].1)
                == src[n - rest.len() + j] by {
                assert(rest@[j] == before[j + 1]);
            };
        }
        assert(src.subrange(0, n as int) =~= src);
        r
    }
}

} // verus!
