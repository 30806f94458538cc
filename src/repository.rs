use vstd::prelude::*;

use crate::clock::Timestamp;
use crate::collection::{
    deref_all, deref_opt, distinct_keys, entries_of, has_key, key_index, lookup, upsert, upsert_all,
    values_of, without, DataCollection, Entries,
};
use crate::ids::{id_text, uuid_text, EntityId};
use crate::models::{AIDecision, Conversation, Entity, Project, StatusUpdate, TeamMember, TeamMetrics};
use crate::query::{latest_of, most_recent, most_recent_of, of_member, select_member, is_latest_at};
use crate::store::JsonStore;

verus! {

/// Document key of the team-member collection.
pub const TEAM_MEMBERS_KEY: &'static str = "team_members";

/// Document key of the project collection.
pub const PROJECTS_KEY: &'static str = "projects";

/// Document key of the status-update collection.
pub const STATUS_UPDATES_KEY: &'static str = "status_updates";

/// Document key of the conversation collection.
pub const CONVERSATIONS_KEY: &'static str = "conversations";

/// Document key of the decision collection.
pub const AI_DECISIONS_KEY: &'static str = "ai_decisions";

/// Document key of the metrics collection.
pub const TEAM_METRICS_KEY: &'static str = "team_metrics";

/// Every entry is stored under the text of its value's identifier.
pub open spec fn keyed_by_id<T: Entity>(es: Entries<T>) -> bool {
    forall|i: int| 0 <= i < es.len() ==> #[trigger] es[i].0 == uuid_text(es[i].1.id_spec())
}

/// A collection as the repository keeps it: unique keys, each the text of its
/// value's identifier.
pub open spec fn sound<T: Entity>(es: Entries<T>) -> bool {
    distinct_keys(es) && keyed_by_id(es)
}

/// Each value keyed by the text of its identifier.
pub open spec fn keyed<T: Entity>(vals: Seq<T>) -> Entries<T> {
    vals.map_values(|v: T| (uuid_text(v.id_spec()), v))
}

/// Metrics dated within `start..=end`.
pub open spec fn in_range(start: Timestamp, end: Timestamp) -> spec_fn(TeamMetrics) -> bool {
    |m: TeamMetrics| start <= m.date && m.date <= end
}

pub proof fn lemma_upsert_keyed<T: Entity>(es: Entries<T>, v: T)
    requires
        keyed_by_id(es),
    ensures
        keyed_by_id(upsert(es, uuid_text(v.id_spec()), v)),
{
    let k = uuid_text(v.id_spec());
    let r = upsert(es, k, v);
    assert forall|i: int| 0 <= i < r.len() implies #[trigger] r[i].0 == uuid_text(
        r[i].1.id_spec(),
    ) by {
        if i < es.len() && !(has_key(es, k) && i == key_index(es, k)) {
            assert(r[i] == es[i]);
        }
    };
}

pub proof fn lemma_without_keyed<T: Entity>(es: Entries<T>, k: Seq<char>)
    requires
        keyed_by_id(es),
    ensures
        keyed_by_id(without(es, k)),
{
    let r = without(es, k);
    if has_key(es, k) {
        let j = key_index(es, k);
        assert forall|i: int| 0 <= i < r.len() implies #[trigger] r[i].0 == uuid_text(
            r[i].1.id_spec(),
        ) by {
            if i < j {
                assert(r[i] == es[i]);
            } else {
                assert(r[i] == es[i + 1]);
            }
        };
    }
}

proof fn lemma_upsert_all_keyed<T: Entity>(vals: Seq<T>)
    ensures
        keyed_by_id(upsert_all(Seq::<(Seq<char>, T)>::empty(), keyed(vals))),
    decreases vals.len(),
{
    let es = Seq::<(Seq<char>, T)>::empty();
    if vals.len() > 0 {
        let init = vals.drop_last();
        lemma_upsert_all_keyed(init);
        assert(keyed(vals).drop_last() =~= keyed(init));
        lemma_upsert_keyed(upsert_all(es, keyed(init)), vals.last());
    }
}

/// Stores `e` under the text of its identifier, replacing a stored value with
/// the same identifier.
fn save_entity<T: Entity>(c: &mut DataCollection<T>, e: T)
    requires
        sound(old(c).entries()),
    ensures
        sound(final(c).entries()),
        final(c).entries() == upsert(old(c).entries(), uuid_text(e.id_spec()), e),
{
    proof {
        lemma_upsert_keyed(c.entries(), e);
    }
    let key = id_text(e.entity_id());
    c.insert(key, e);
}

/// Removes the value stored under the text of `id`.
fn remove_entity<T: Entity>(c: &mut DataCollection<T>, id: EntityId) -> (r: Option<T>)
    requires
        sound(old(c).entries()),
    ensures
        sound(final(c).entries()),
        final(c).entries() == without(old(c).entries(), uuid_text(id)),
        r == lookup(old(c).entries(), uuid_text(id)),
        r is None ==> final(c).last_change() == old(c).last_change(),
{
    proof {
        lemma_without_keyed(c.entries(), uuid_text(id));
    }
    let key = id_text(id);
    c.remove(key.as_str())
}

/// A collection holding `values`, each under the text of its identifier, a later
/// value winning over an earlier one with the same identifier.
pub fn collect_entities<T: Entity>(values: Vec<T>, last_updated: Timestamp) -> (r: DataCollection<T>)
    ensures
        sound(r.entries()),
        r.entries() == upsert_all(Seq::<(Seq<char>, T)>::empty(), keyed(values@)),
        r.last_change() == last_updated,
{
    let ghost vals = values@;
    let mut items: Vec<(String, T)> = Vec::new();
    let mut rest = values;
    while rest.len() > 0
        invariant
            rest.len() <= vals.len(),
            rest@ == vals.subrange(vals.len() - rest.len(), vals.len() as int),
            items@.len() == vals.len() - rest.len(),
            entries_of(items@) == keyed(
                vals.subrange(0, vals.len() - rest.len()),
            ),
        decreases rest.len(),
    {
        let ghost n = vals.len() - rest.len();
        let ghost prev = items@;
        let v = rest.remove(0);
        assert(v == vals[n]);
        let key = id_text(v.entity_id());
        items.push((key, v));
        assert forall|j: int| 0 <= j <= n implies #[trigger] entries_of(items@)[j] == keyed(vals.subrange(0, n + 1))[j] by {
            if j < n {
                assert(items@[j] == prev[j]);
                assert(keyed(vals.subrange(0, n))[j] == keyed(vals.subrange(0, n + 1))[j]);
            }
        };
        assert(entries_of(items@) =~= keyed(
            vals.subrange(0, n + 1),
        ));
        assert(rest@ =~= vals.subrange(n + 1, vals.len() as int));
    }
    assert(vals.subrange(0, vals.len() as int) =~= vals);
    proof {
        lemma_upsert_all_keyed(vals);
    }
    DataCollection::from_items(items, last_updated)
}

/// The six collections a repository holds, and the directory it is kept in.
pub struct RepositoryView {
    pub dir: Seq<char>,
    pub team_members: Entries<TeamMember>,
    pub projects: Entries<Project>,
    pub status_updates: Entries<StatusUpdate>,
    pub conversations: Entries<Conversation>,
    pub ai_decisions: Entries<AIDecision>,
    pub team_metrics: Entries<TeamMetrics>,
}

/// Typed create, read, update and delete operations over one collection per
/// entity type, with the domain queries. The collections are persisted by the
/// caller, one document each, under the keys above.
///
/// Each operation changes one collection as a whole; callers that share the
/// underlying documents between writers must serialise those writes themselves,
/// or the last writer's collection wins.
pub struct TeamRepository {
    store: JsonStore,
    team_members: DataCollection<TeamMember>,
    projects: DataCollection<Project>,
    status_updates: DataCollection<StatusUpdate>,
    conversations: DataCollection<Conversation>,
    ai_decisions: DataCollection<AIDecision>,
    team_metrics: DataCollection<TeamMetrics>,
}

impl View for TeamRepository {
    type V = RepositoryView;

    closed spec fn view(&self) -> RepositoryView {
        RepositoryView {
            dir: self.store.dir(),
            team_members: self.team_members.entries(),
            projects: self.projects.entries(),
            status_updates: self.status_updates.entries(),
            conversations: self.conversations.entries(),
            ai_decisions: self.ai_decisions.entries(),
            team_metrics: self.team_metrics.entries(),
        }
    }
}

impl TeamRepository {
    /// Every collection is sound.
    pub open spec fn wf(&self) -> bool {
        &&& sound(self@.team_members)
        &&& sound(self@.projects)
        &&& sound(self@.status_updates)
        &&& sound(self@.conversations)
        &&& sound(self@.ai_decisions)
        &&& sound(self@.team_metrics)
    }

    /// A repository over `data_dir` with every collection empty.
    pub fn new(data_dir: &str) -> (r: Self)
        ensures
            r.wf(),
            r@.dir == data_dir@,
            r@.team_members.len() == 0,
            r@.projects.len() == 0,
            r@.status_updates.len() == 0,
            r@.conversations.len() == 0,
            r@.ai_decisions.len() == 0,
            r@.team_metrics.len() == 0,
    {
        TeamRepository {
            store: JsonStore::new(data_dir),
            team_members: DataCollection::new(),
            projects: DataCollection::new(),
            status_updates: DataCollection::new(),
            conversations: DataCollection::new(),
            ai_decisions: DataCollection::new(),
            team_metrics: DataCollection::new(),
        }
    }

    /// The document store the collections belong to.
    pub fn store(&self) -> (r: &JsonStore)
        ensures
            r.dir() == self@.dir,
    {
        &self.store
    }

    // Team members
    /// Saves `member`, replacing a stored member with the same identifier.
    pub fn save_team_member(&mut self, member: TeamMember)
        requires
            old(self).wf(),
        ensures
            final(self).wf(),
            final(self)@ == (RepositoryView {
                team_members: upsert(old(self)@.team_members, uuid_text(member.id), member),
                ..old(self)@
            }),
    {
        save_entity(&mut self.team_members, member);
    }

    /// The member with identifier `id`, if stored.
    pub fn get_team_member(&self, id: EntityId) -> (r: Option<&TeamMember>)
        requires
            self.wf(),
        ensures
            deref_opt(r) == lookup(self@.team_members, uuid_text(id)),
    {
        let key = id_text(id);
        self.team_members.get(key.as_str())
    }

    /// All stored members, in collection order.
    pub fn list_team_members(&self) -> (r: Vec<&TeamMember>)
        ensures
            deref_all(r@) == values_of(self@.team_members),
    {
        self.team_members.values()
    }

    /// Removes the member with identifier `id` and returns it; nothing changes
    /// when there is none.
    pub fn remove_team_member(&mut self, id: EntityId) -> (r: Option<TeamMember>)
        requires
            old(self).wf(),
        ensures
            final(self).wf(),
            final(self)@ == (RepositoryView {
                team_members: without(old(self)@.team_members, uuid_text(id)),
                ..old(self)@
            }),
            r == lookup(old(self)@.team_members, uuid_text(id)),
    {
        remove_entity(&mut self.team_members, id)
    }

    /// The member collection, for persisting.
    pub fn team_members(&self) -> (r: &DataCollection<TeamMember>)
        ensures
            r.entries() == self@.team_members,
    {
        &self.team_members
    }

    /// Replaces the member collection with one holding `values` (see
    /// `collect_entities`).
    pub fn load_team_members(&mut self, values: Vec<TeamMember>, last_updated: Timestamp)
        requires
            old(self).wf(),
        ensures
            final(self).wf(),
            final(self)@ == (RepositoryView {
                team_members: upsert_all(Seq::<(Seq<char>, TeamMember)>::empty(), keyed(values@)),
                ..old(self)@
            }),
    {
        self.team_members = collect_entities(values, last_updated);
    }

    // Projects
    /// Saves `project`, replacing a stored project with the same identifier.
    pub fn save_project(&mut self, project: Project)
        requires
            old(self).wf(),
        ensures
            final(self).wf(),
            final(self)@ == (RepositoryView {
                projects: upsert(old(self)@.projects, uuid_text(project.id), project),
                ..old(self)@
            }),
    {
        save_entity(&mut self.projects, project);
    }

    /// The project with identifier `id`, if stored.
    pub fn get_project(&self, id: EntityId) -> (r: Option<&Project>)
        requires
            self.wf(),
        ensures
            deref_opt(r) == lookup(self@.projects, uuid_text(id)),
    {
        let key = id_text(id);
        self.projects.get(key.as_str())
    }

    /// All stored projects, in collection order.
    pub fn list_projects(&self) -> (r: Vec<&Project>)
        ensures
            deref_all(r@) == values_of(self@.projects),
    {
        self.projects.values()
    }

    /// The project collection, for persisting.
    pub fn projects(&self) -> (r: &DataCollection<Project>)
        ensures
            r.entries() == self@.projects,
    {
        &self.projects
    }

    /// Replaces the project collection with one holding `values`.
    pub fn load_projects(&mut self, values: Vec<Project>, last_updated: Timestamp)
        requires
            old(self).wf(),
        ensures
            final(self).wf(),
            final(self)@ == (RepositoryView {
                projects: upsert_all(Seq::<(Seq<char>, Project)>::empty(), keyed(values@)),
                ..old(self)@
            }),
    {
        self.projects = collect_entities(values, last_updated);
    }

    // Status updates
    /// Saves `update`, replacing a stored update with the same identifier.
    pub fn save_status_update(&mut self, update: StatusUpdate)
        requires
            old(self).wf(),
        ensures
            final(self).wf(),
            final(self)@ == (RepositoryView {
                status_updates: upsert(old(self)@.status_updates, uuid_text(update.id), update),
                ..old(self)@
            }),
    {
        save_entity(&mut self.status_updates, update);
    }

    /// The updates by member `member_id`, in collection order.
    pub fn get_status_updates_for_member(&self, member_id: EntityId) -> (r: Vec<&StatusUpdate>)
        ensures
            deref_all(r@) == of_member(values_of(self@.status_updates), member_id),
    {
        select_member(self.status_updates.values(), member_id)
    }

    /// The `limit` most recent updates, most recent first.
    pub fn get_recent_status_updates(&self, limit: usize) -> (r: Vec<&StatusUpdate>)
        ensures
            most_recent(values_of(self@.status_updates), limit as nat, deref_all(r@)),
    {
        most_recent_of(self.status_updates.values(), limit)
    }

    /// The update collection, for persisting.
    pub fn status_updates(&self) -> (r: &DataCollection<StatusUpdate>)
        ensures
            r.entries() == self@.status_updates,
    {
        &self.status_updates
    }

    /// Replaces the update collection with one holding `values`.
    pub fn load_status_updates(&mut self, values: Vec<StatusUpdate>, last_updated: Timestamp)
        requires
            old(self).wf(),
        ensures
            final(self).wf(),
            final(self)@ == (RepositoryView {
                status_updates: upsert_all(
                    Seq::<(Seq<char>, StatusUpdate)>::empty(),
                    keyed(values@),
                ),
                ..old(self)@
            }),
    {
        self.status_updates = collect_entities(values, last_updated);
    }

    // Conversations
    /// Saves `conversation`, replacing a stored one with the same identifier.
    pub fn save_conversation(&mut self, conversation: Conversation)
        requires
            old(self).wf(),
        ensures
            final(self).wf(),
            final(self)@ == (RepositoryView {
                conversations: upsert(
                    old(self)@.conversations,
                    uuid_text(conversation.id),
                    conversation,
                ),
                ..old(self)@
            }),
    {
        save_entity(&mut self.conversations, conversation);
    }

    /// The conversation with identifier `id`, if stored.
    pub fn get_conversation(&self, id: EntityId) -> (r: Option<&Conversation>)
        requires
            self.wf(),
        ensures
            deref_opt(r) == lookup(self@.conversations, uuid_text(id)),
    {
        let key = id_text(id);
        self.conversations.get(key.as_str())
    }

    /// The conversations with member `member_id`, in collection order.
    pub fn get_conversations_for_member(&self, member_id: EntityId) -> (r: Vec<&Conversation>)
        ensures
            deref_all(r@) == of_member(values_of(self@.conversations), member_id),
    {
        select_member(self.conversations.values(), member_id)
    }

    /// The conversation collection, for persisting.
    pub fn conversations(&self) -> (r: &DataCollection<Conversation>)
        ensures
            r.entries() == self@.conversations,
    {
        &self.conversations
    }

    /// Replaces the conversation collection with one holding `values`.
    pub fn load_conversations(&mut self, values: Vec<Conversation>, last_updated: Timestamp)
        requires
            old(self).wf(),
        ensures
            final(self).wf(),
            final(self)@ == (RepositoryView {
                conversations: upsert_all(
                    Seq::<(Seq<char>, Conversation)>::empty(),
                    keyed(values@),
                ),
                ..old(self)@
            }),
    {
        self.conversations = collect_entities(values, last_updated);
    }

    // Decisions
    /// Saves `decision`, replacing a stored one with the same identifier.
    pub fn save_ai_decision(&mut self, decision: AIDecision)
        requires
            old(self).wf(),
        ensures
            final(self).wf(),
            final(self)@ == (RepositoryView {
                ai_decisions: upsert(old(self)@.ai_decisions, uuid_text(decision.id), decision),
                ..old(self)@
            }),
    {
        save_entity(&mut self.ai_decisions, decision);
    }

    /// The `limit` most recently created decisions, most recent first.
    pub fn get_recent_ai_decisions(&self, limit: usize) -> (r: Vec<&AIDecision>)
        ensures
            most_recent(values_of(self@.ai_decisions), limit as nat, deref_all(r@)),
    {
        most_recent_of(self.ai_decisions.values(), limit)
    }

    /// The decision collection, for persisting.
    pub fn ai_decisions(&self) -> (r: &DataCollection<AIDecision>)
        ensures
            r.entries() == self@.ai_decisions,
    {
        &self.ai_decisions
    }

    /// Replaces the decision collection with one holding `values`.
    pub fn load_ai_decisions(&mut self, values: Vec<AIDecision>, last_updated: Timestamp)
        requires
            old(self).wf(),
        ensures
            final(self).wf(),
            final(self)@ == (RepositoryView {
                ai_decisions: upsert_all(Seq::<(Seq<char>, AIDecision)>::empty(), keyed(values@)),
                ..old(self)@
            }),
    {
        self.ai_decisions = collect_entities(values, last_updated);
    }

    // Metrics
    /// Saves `metrics`, replacing stored metrics with the same identifier.
    pub fn save_team_metrics(&mut self, metrics: TeamMetrics)
        requires
            old(self).wf(),
        ensures
            final(self).wf(),
            final(self)@ == (RepositoryView {
                team_metrics: upsert(old(self)@.team_metrics, uuid_text(metrics.id), metrics),
                ..old(self)@
            }),
    {
        save_entity(&mut self.team_metrics, metrics);
    }

    /// The metrics with the latest date, the earliest stored on ties; `None` when
    /// there are none.
    pub fn get_latest_team_metrics(&self) -> (r: Option<&TeamMetrics>)
        ensures
            r is None <==> self@.team_metrics.len() == 0,
            r is Some ==> exists|i: int|
                is_latest_at(values_of(self@.team_metrics), i) && values_of(
                    self@.team_metrics,
                )[i] == *r->0,
    {
        let all = self.team_metrics.values();
        assert(deref_all(all@).len() == all@.len());
        latest_of(&all)
    }

    /// The metrics dated from `start_date` to `end_date`, both included, in
    /// collection order.
    pub fn get_team_metrics_range(&self, start_date: Timestamp, end_date: Timestamp) -> (r: Vec<
        &TeamMetrics,
    >)
        ensures
            deref_all(r@) == values_of(self@.team_metrics).filter(in_range(start_date, end_date)),
    {
        let all = self.team_metrics.values();
        let ghost src = deref_all(all@);
        let mut r: Vec<&TeamMetrics> = Vec::new();
        let mut i: usize = 0;
        while i < all.len()
            invariant
                i <= all.len(),
                src == deref_all(all@),
                deref_all(r@) == src.subrange(0, i as int).filter(in_range(start_date, end_date)),
            decreases all.len() - i,
        {
            let m = all[i];
            assert(src.subrange(0, i + 1) =~= src.subrange(0, i as int).push(*m));
            proof {
                src.subrange(0, i as int).lemma_filter_push(*m, in_range(start_date, end_date));
            }
            if start_date <= m.date && m.date <= end_date {
                r.push(m);
            }
            assert(deref_all(r@) =~= src.subrange(0, i + 1).filter(in_range(start_date, end_date)));
            i = i + 1;
        }
        assert(src.subrange(0, all.len() as int) =~= src);
        r
    }

    /// The metrics collection, for persisting.
    pub fn team_metrics(&self) -> (r: &DataCollection<TeamMetrics>)
        ensures
            r.entries() == self@.team_metrics,
    {
        &self.team_metrics
    }

    /// Replaces the metrics collection with one holding `values`.
    pub fn load_team_metrics(&mut self, values: Vec<TeamMetrics>, last_updated: Timestamp)
        requires
            old(self).wf(),
        ensures
            final(self).wf(),
            final(self)@ == (RepositoryView {
                team_metrics: upsert_all(Seq::<(Seq<char>, TeamMetrics)>::empty(), keyed(values@)),
                ..old(self)@
            }),
    {
        self.team_metrics = collect_entities(values, last_updated);
    }
}

} // verus!
