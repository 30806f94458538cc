use vstd::prelude::*;
use vstd::multiset::Multiset;
use vstd::seq_lib::group_to_multiset_ensures;

use crate::backup::{
    ascending, backup_name_of, excess, fields_le, fits_name, is_ascending_of, lemma_name_order, name_le,
};
use crate::clock::Timestamp;
use crate::collection::{
    has_key, key_index, lemma_upsert_distinct, lookup, upsert, without, Entries,
};
use crate::ids::{uuid_text, EntityId};
use crate::models::{Entity, TeamMetrics};
use crate::query::{most_recent, newest_first, is_newest_first_of, Dated};
use crate::repository::{in_range, lemma_upsert_keyed, lemma_without_keyed, sound};

verus! {

/// Round trip: after a record is saved, reading by its identifier gives back
/// exactly that record.
pub proof fn lemma_save_then_get<T: Entity>(es: Entries<T>, e: T)
    requires
        sound(es),
    ensures
        lookup(upsert(es, uuid_text(e.id_spec()), e), uuid_text(e.id_spec())) == Some(e),
{
    lemma_upsert_distinct(es, uuid_text(e.id_spec()), e);
}

/// Upsert uniqueness: saving two records with the same identifier leaves one
/// entry for that identifier, holding the second record.
pub proof fn lemma_save_twice<T: Entity>(es: Entries<T>, first: T, second: T)
    requires
        sound(es),
        first.id_spec() == second.id_spec(),
    ensures
        sound(
            upsert(
                upsert(es, uuid_text(first.id_spec()), first),
                uuid_text(second.id_spec()),
                second,
            ),
        ),
        ({
            let after = upsert(
                upsert(es, uuid_text(first.id_spec()), first),
                uuid_text(second.id_spec()),
                second,
            );
            exists|i: int|
                0 <= i < after.len() && after[i].1 == second && forall|j: int|
                    0 <= j < after.len() && (#[trigger] after[j].1).id_spec() == second.id_spec()
                        ==> j == i
        }),
{
    let k = uuid_text(first.id_spec());
    let mid = upsert(es, k, first);
    lemma_upsert_distinct(es, k, first);
    lemma_upsert_keyed(es, first);
    let after = upsert(mid, k, second);
    lemma_upsert_distinct(mid, k, second);
    lemma_upsert_keyed(mid, second);
    let i = key_index(after, k);
    assert(after[i] == (k, second));
    assert forall|j: int|
        0 <= j < after.len() && (#[trigger] after[j].1).id_spec() == second.id_spec() implies j
        == i by {
        assert(after[j].0 == k);
        if j != i {
            if j < i {
                assert(after[j].0 != after[i].0);
            } else {
                assert(after[i].0 != after[j].0);
            }
        }
    };
}

/// Removal: once the record with identifier `id` is removed, no remaining record
/// has that identifier; removing an identifier under which nothing is stored
/// returns nothing and changes nothing.
pub proof fn lemma_remove_excludes<T: Entity>(es: Entries<T>, id: EntityId)
    requires
        sound(es),
    ensures
        sound(without(es, uuid_text(id))),
        forall|i: int|
            0 <= i < without(es, uuid_text(id)).len() ==> (#[trigger] without(
                es,
                uuid_text(id),
            )[i]).1.id_spec() != id,
        lookup(es, uuid_text(id)) is None ==> without(es, uuid_text(id)) == es,
{
    let k = uuid_text(id);
    let r = without(es, k);
    lemma_without_keyed(es, k);
    if has_key(es, k) {
        let p = key_index(es, k);
        assert forall|a: int, b: int| 0 <= a < b < r.len() implies r[a].0 != r[b].0 by {
            let a2 = if a < p {
                a
            } else {
                a + 1
            };
            let b2 = if b < p {
                b
            } else {
                b + 1
            };
            assert(r[a] == es[a2] && r[b] == es[b2]);
        };
        assert forall|i: int| 0 <= i < r.len() implies (#[trigger] r[i]).1.id_spec() != id by {
            let i2 = if i < p {
                i
            } else {
                i + 1
            };
            assert(r[i] == es[i2]);
            assert(es[i2].0 != es[p].0);
        };
    } else {
        assert forall|i: int| 0 <= i < r.len() implies (#[trigger] r[i]).1.id_spec() != id by {
            assert(es[i].0 == uuid_text(es[i].1.id_spec()));
        };
    }
}

/// Range filter: a metrics record is returned for `start..=end` exactly when it
/// is stored and dated within both bounds.
pub proof fn lemma_range_filter(vals: Seq<TeamMetrics>, start: Timestamp, end: Timestamp)
    ensures
        forall|m: TeamMetrics|
            #[trigger] vals.filter(in_range(start, end)).contains(m) <==> (vals.contains(m)
                && start <= m.date && m.date <= end),
{
    assert forall|m: TeamMetrics|
        #[trigger] vals.filter(in_range(start, end)).contains(m) <==> (vals.contains(m) && start
            <= m.date && m.date <= end) by {
        let f = vals.filter(in_range(start, end));
        if f.contains(m) {
            vals.lemma_filter_contains_rev(in_range(start, end), m);
            let i = choose|i: int| 0 <= i < f.len() && f[i] == m;
            vals.lemma_filter_pred(in_range(start, end), i);
        }
        if vals.contains(m) && start <= m.date && m.date <= end {
            let i = choose|i: int| 0 <= i < vals.len() && vals[i] == m;
            vals.lemma_filter_contains(in_range(start, end), i);
        }
    };
}

/// Recency ordering: of three records with times `a < b < c`, the two most
/// recent are `c` then `b`.
pub proof fn lemma_two_most_recent_of_three<T: Dated>(vals: Seq<T>, a: T, b: T, c: T, r: Seq<T>)
    requires
        vals.to_multiset() == seq![a, b, c].to_multiset(),
        a.date_spec() < b.date_spec() < c.date_spec(),
        most_recent(vals, 2, r),
    ensures
        r == seq![c, b],
{
    broadcast use group_to_multiset_ensures;

    let abc = seq![a, b, c];
    let s = choose|s: Seq<T>|
        is_newest_first_of(s, vals) && r == s.take(
            if 2 < vals.len() {
                2
            } else {
                vals.len() as int
            },
        );
    assert(abc.len() == 3);
    assert(abc.to_multiset().len() == 3);
    assert(vals.len() == 3);
    assert(s.len() == 3);
    assert(abc =~= seq![a, b].push(c));
    assert(seq![a, b] =~= seq![a].push(b));
    assert(seq![a] =~= Seq::<T>::empty().push(a));
    let m = abc.to_multiset();
    assert(m =~= Multiset::empty().insert(a).insert(b).insert(c));
    assert(s =~= seq![s[0], s[1]].push(s[2]));
    assert(seq![s[0], s[1]] =~= seq![s[0]].push(s[1]));
    assert(seq![s[0]] =~= Seq::<T>::empty().push(s[0]));
    assert(m =~= Multiset::empty().insert(s[0]).insert(s[1]).insert(s[2]));
    assert(a != b && b != c && a != c);
    assert(m.count(c) == 1);
    assert(m.count(b) == 1);
    assert(s[0] == a || s[0] == b || s[0] == c) by {
        assert(m.count(s[0]) > 0);
    };
    assert(s[1] == a || s[1] == b || s[1] == c) by {
        assert(m.count(s[1]) > 0);
    };
    assert(s[2] == a || s[2] == b || s[2] == c) by {
        assert(m.count(s[2]) > 0);
    };
    assert(newest_first(s));
    assert(s[0].date_spec() >= s[1].date_spec() && s[1].date_spec() >= s[2].date_spec());
    assert(s[0] == c);
    assert(s[1] == b);
    assert(r =~= seq![c, b]);
}

/// Retention: when more than `max` snapshots exist, pruning takes away exactly
/// the oldest ones, leaves the `max` newest, and every one taken away sorts
/// before every one left.
pub proof fn lemma_retention(names: Seq<String>, max: nat, s: Seq<String>)
    requires
        is_ascending_of(s, names),
        names.len() > max,
    ensures
        s.skip(excess(names.len(), max) as int).len() == max,
        s.take(excess(names.len(), max) as int).len() == names.len() - max,
        s.take(excess(names.len(), max) as int) + s.skip(excess(names.len(), max) as int) == s,
        forall|i: int, j: int|
            0 <= i < names.len() - max && 0 <= j < max ==> name_le(
                #[trigger] s.take(excess(names.len(), max) as int)[i],
                #[trigger] s.skip(excess(names.len(), max) as int)[j],
            ),
{
    broadcast use group_to_multiset_ensures;

    assert(s.to_multiset().len() == names.to_multiset().len());
    let e = excess(names.len(), max) as int;
    assert(s.take(e) + s.skip(e) =~= s);
    assert forall|i: int, j: int| 0 <= i < names.len() - max && 0 <= j < max implies name_le(
        #[trigger] s.take(e)[i],
        #[trigger] s.skip(e)[j],
    ) by {
        assert(s.take(e)[i] == s[i] && s.skip(e)[j] == s[e + j]);
        assert(ascending(s));
    };
}

/// Retention by time: when the snapshot names were written for calendar times
/// that fit the name format, every snapshot that pruning takes away was taken
/// no later than every snapshot it leaves.
pub proof fn lemma_retention_by_time(
    names: Seq<String>,
    max: nat,
    s: Seq<String>,
    times: Seq<(i32, u32, u32, u32, u32, u32)>,
)
    requires
        is_ascending_of(s, names),
        names.len() > max,
        times.len() == s.len(),
        forall|i: int| 0 <= i < s.len() ==> fits_name(#[trigger] times[i]) && s[i]@ == backup_name_of(times[i]),
    ensures
        forall|i: int, j: int|
            0 <= i < excess(names.len(), max) <= j < names.len() ==> fields_le(
                #[trigger] times[i],
                #[trigger] times[j],
            ),
{
    broadcast use group_to_multiset_ensures;

    assert(s.to_multiset().len() == names.to_multiset().len());
    assert forall|i: int, j: int|
        0 <= i < excess(names.len(), max) <= j < names.len() implies fields_le(
        #[trigger] times[i],
        #[trigger] times[j],
    ) by {
        assert(ascending(s));
        assert(name_le(s[i], s[j]));
        lemma_name_order(times[i], times[j]);
    };
}

} // verus!
