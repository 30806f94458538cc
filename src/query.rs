use vstd::prelude::*;
use vstd::seq_lib::group_to_multiset_ensures;

use crate::clock::Timestamp;
use crate::collection::deref_all;
use crate::ids::EntityId;

verus! {

/// A record that carries the time by which queries order it.
pub trait Dated {
    /// The ordering time.
    spec fn date_spec(&self) -> Timestamp;

    /// The ordering time.
    fn date_of(&self) -> (r: Timestamp)
        ensures
            r == self.date_spec(),
    ;
}

/// A record that belongs to a team member.
pub trait OfMember {
    /// The owning member's identifier.
    spec fn member_spec(&self) -> EntityId;

    /// The owning member's identifier.
    fn member_of(&self) -> (r: EntityId)
        ensures
            r == self.member_spec(),
    ;
}

/// Each record is at least as recent as every one after it.
pub open spec fn newest_first<T: Dated>(s: Seq<T>) -> bool {
    forall|i: int, j: int| 0 <= i < j < s.len() ==> s[i].date_spec() >= s[j].date_spec()
}

/// `s` holds the records of `vals`, each as often, most recent first.
pub open spec fn is_newest_first_of<T: Dated>(s: Seq<T>, vals: Seq<T>) -> bool {
    &&& s.to_multiset() == vals.to_multiset()
    &&& newest_first(s)
}

/// `r` is the first `limit` records of some newest-first arrangement of `vals`
/// (all of them when there are fewer).
pub open spec fn most_recent<T: Dated>(vals: Seq<T>, limit: nat, r: Seq<T>) -> bool {
    exists|s: Seq<T>|
        is_newest_first_of(s, vals) && r == s.take(
            if limit < vals.len() {
                limit as int
            } else {
                vals.len() as int
            },
        )
}

/// The records of `vals` that belong to member `m`, in order.
pub open spec fn of_member<T: OfMember>(vals: Seq<T>, m: EntityId) -> Seq<T> {
    vals.filter(belongs_to(m))
}

/// The test that a record belongs to member `m`.
pub open spec fn belongs_to<T: OfMember>(m: EntityId) -> spec_fn(T) -> bool {
    |x: T| x.member_spec() == m
}

/// The position of the record chosen as latest: the first one whose time is the
/// greatest.
pub open spec fn is_latest_at<T: Dated>(vals: Seq<T>, i: int) -> bool {
    &&& 0 <= i < vals.len()
    &&& forall|j: int| 0 <= j < vals.len() ==> vals[j].date_spec() <= vals[i].date_spec()
    &&& forall|j: int| 0 <= j < i ==> vals[j].date_spec() < vals[i].date_spec()
}

/// `v` arranged most recent first.
pub fn sort_newest_first<'a, T: Dated>(v: Vec<&'a T>) -> (r: Vec<&'a T>)
    ensures
        is_newest_first_of(deref_all(r@), deref_all(v@)),
{
    broadcast use group_to_multiset_ensures;

    let mut r: Vec<&'a T> = Vec::new();
    let mut i: usize = 0;
    let ghost src = deref_all(v@);
    while i < v.len()
        invariant
            i <= v.len(),
            src == deref_all(v@),
            deref_all(r@).to_multiset() == src.subrange(0, i as int).to_multiset(),
            newest_first(deref_all(r@)),
        decreases v.len() - i,
    {
        let x = v[i];
        let d = x.date_of();
        let mut k: usize = 0;
        while k < r.len() && r[k].date_of() >= d
            invariant
                k <= r.len(),
                forall|j: int| 0 <= j < k ==> (#[trigger] r@[j]).date_spec() >= d,
            decreases r.len() - k,
        {
            k = k + 1;
        }
        let ghost before = deref_all(r@);
        r.insert(k, x);
        assert(deref_all(r@) =~= before.insert(k as int, *x));
        assert(src.subrange(0, i + 1) =~= src.subrange(0, i as int).push(*x));
        proof {
            vstd::seq_lib::to_multiset_insert(before, k as int, *x);
            src.subrange(0, i as int).to_multiset_ensures();
        }
        assert forall|a: int, b: int| 0 <= a < b < deref_all(r@).len() implies deref_all(
            r@,
        )[a].date_spec() >= deref_all(r@)[b].date_spec() by {
            if b < k {
                assert(before[a] == deref_all(r@)[a]);
            } else if a > k {
                assert(before[a - 1] == deref_all(r@)[a]);
                assert(before[b - 1] == deref_all(r@)[b]);
            } else if a == k {
                assert(before[k as int].date_spec() < d);
                assert(before[b - 1] == deref_all(r@)[b]);
            } else {
                assert(before[a] == deref_all(r@)[a]);
                assert(r@[a].date_spec() >= d);
                if b > k {
                    assert(before[b - 1] == deref_all(r@)[b]);
                    assert(before[k as int].date_spec() < d);
                }
            }
        };
        i = i + 1;
    }
    assert(src.subrange(0, v.len() as int) =~= src);
    r
}

/// The first `limit` of `vals` in newest-first order.
pub fn most_recent_of<'a, T: Dated>(vals: Vec<&'a T>, limit: usize) -> (r: Vec<&'a T>)
    ensures
        most_recent(deref_all(vals@), limit as nat, deref_all(r@)),
{
    let mut s = sort_newest_first(vals);
    let ghost full = deref_all(s@);
    let ghost n = full.len();
    s.truncate(limit);
    let ghost m: int = if (limit as nat) < n {
        limit as int
    } else {
        n as int
    };
    assert(deref_all(s@) =~= full.take(m));
    assert(deref_all(vals@).len() == n) by {
        broadcast use group_to_multiset_ensures;

        assert(full.to_multiset().len() == deref_all(vals@).to_multiset().len());
    };
    s
}

/// The record with the greatest time, the first such one on ties; `None` when
/// there are none.
pub fn latest_of<'a, T: Dated>(vals: &Vec<&'a T>) -> (r: Option<&'a T>)
    ensures
        r is None <==> vals@.len() == 0,
        r is Some ==> exists|i: int|
            is_latest_at(deref_all(vals@), i) && deref_all(vals@)[i] == *r->0,
{
    if vals.len() == 0 {
        return None;
    }
    let ghost s = deref_all(vals@);
    let mut best: usize = 0;
    let mut best_date = vals[0].date_of();
    let mut i: usize = 1;
    while i < vals.len()
        invariant
            s == deref_all(vals@),
            0 < i <= vals.len(),
            best < i,
            best_date == s[best as int].date_spec(),
            forall|j: int| 0 <= j < i ==> s[j].date_spec() <= best_date,
            forall|j: int| 0 <= j < best ==> s[j].date_spec() < best_date,
        decreases vals.len() - i,
    {
        let d = vals[i].date_of();
        if d > best_date {
            best = i;
            best_date = d;
        }
        i = i + 1;
    }
    assert(is_latest_at(s, best as int));
    Some(vals[best])
}

/// The records of `vals` that belong to member `m`, in order.
pub fn select_member<'a, T: OfMember>(vals: Vec<&'a T>, m: EntityId) -> (r: Vec<&'a T>)
    ensures
        deref_all(r@) == of_member(deref_all(vals@), m),
{
    let ghost src = deref_all(vals@);
    let mut r: Vec<&'a T> = Vec::new();
    let mut i: usize = 0;
    while i < vals.len()
        invariant
            i <= vals.len(),
            src == deref_all(vals@),
            deref_all(r@) == of_member(src.subrange(0, i as int), m),
        decreases vals.len() - i,
    {
        let x = vals[i];
        assert(src.subrange(0, i + 1) =~= src.subrange(0, i as int).push(*x));
        proof {
            src.subrange(0, i as int).lemma_filter_push(*x, belongs_to(m));
        }
        if x.member_of() == m {
            r.push(x);
        }
        assert(deref_all(r@) =~= of_member(src.subrange(0, i + 1), m));
        i = i + 1;
    }
    assert(src.subrange(0, vals.len() as int) =~= src);
    r
}

} // verus!
