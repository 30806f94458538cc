use vstd::prelude::*;

use crate::clock::{now, Timestamp};
use crate::ids::{new_id, EntityId};
use crate::query::{Dated, OfMember};

verus! {

/// A record kept in the repository under its own identifier.
pub trait Entity {
    /// The record's identifier.
    spec fn id_spec(&self) -> EntityId;

    /// The record's identifier.
    fn entity_id(&self) -> (r: EntityId)
        ensures
            r == self.id_spec(),
    ;
}

#[derive(Debug, Clone, PartialEq)]
pub struct TeamMember {
    pub id: EntityId,
    pub name: String,
    pub email: String,
    pub slack_id: Option<String>,
    pub role: String,
    pub created_at: Timestamp,
    pub updated_at: Timestamp,
}

impl TeamMember {
    /// A new member with a fresh identifier, created and updated now, without a
    /// messaging handle.
    pub fn new(name: String, email: String, role: String) -> (r: Self)
        ensures
            r.name == name,
            r.email == email,
            r.role == role,
            r.slack_id is None,
            r.updated_at == r.created_at,
    {
        let t = now();
        TeamMember { id: new_id(), name, email, slack_id: None, role, created_at: t, updated_at: t }
    }

    /// The same member with a messaging handle, marked updated.
    pub fn with_slack_id(self, slack_id: String) -> (r: Self)
        ensures
            r == (TeamMember { slack_id: Some(slack_id), updated_at: r.updated_at, ..self }),
    {
        let mut m = self;
        m.slack_id = Some(slack_id);
        m.updated_at = now();
        m
    }

    /// Marks the member updated.
    pub fn update(&mut self)
        ensures
            *final(self) == (TeamMember { updated_at: final(self).updated_at, ..*old(self) }),
    {
        self.updated_at = now();
    }
}

impl Entity for TeamMember {
    open spec fn id_spec(&self) -> EntityId {
        self.id
    }

    fn entity_id(&self) -> (r: EntityId) {
        self.id
    }
}

#[derive(Debug, Clone, Copy, PartialEq, Eq, Structural)]
pub enum ProjectStatus {
    Active,
    Completed,
    OnHold,
    Cancelled,
}

#[derive(Debug, Clone, PartialEq)]
pub struct Project {
    pub id: EntityId,
    pub name: String,
    pub description: String,
    pub status: ProjectStatus,
    pub created_at: Timestamp,
    pub updated_at: Timestamp,
}

impl Project {
    /// A new active project with a fresh identifier, created and updated now.
    pub fn new(name: String, description: String) -> (r: Self)
        ensures
            r.name == name,
            r.description == description,
            r.status == ProjectStatus::Active,
            r.updated_at == r.created_at,
    {
        let t = now();
        Project {
            id: new_id(),
            name,
            description,
            status: ProjectStatus::Active,
            created_at: t,
            updated_at: t,
        }
    }

    /// Moves the project to `status` and marks it updated.
    pub fn set_status(&mut self, status: ProjectStatus)
        ensures
            *final(self) == (Project {
                status,
                updated_at: final(self).updated_at,
                ..*old(self)
            }),
    {
        self.status = status;
        self.updated_at = now();
    }

    /// Whether the project is active.
    pub fn is_active(&self) -> (r: bool)
        ensures
            r == (self.status == ProjectStatus::Active),
    {
        matches!(self.status, ProjectStatus::Active)
    }
}

impl Entity for Project {
    open spec fn id_spec(&self) -> EntityId {
        self.id
    }

    fn entity_id(&self) -> (r: EntityId) {
        self.id
    }
}

#[derive(Debug, Clone, PartialEq)]
pub struct StatusUpdate {
    pub id: EntityId,
    pub member_id: EntityId,
    pub content: String,
    pub timestamp: Timestamp,
    pub mood: Option<String>,
    pub blockers: Vec<String>,
    pub achievements: Vec<String>,
}

impl StatusUpdate {
    /// A new update by `member_id`, stamped now, with no mood, blockers or
    /// achievements.
    pub fn new(member_id: EntityId, content: String) -> (r: Self)
        ensures
            r.member_id == member_id,
            r.content == content,
            r.mood is None,
            r.blockers@.len() == 0,
            r.achievements@.len() == 0,
    {
        StatusUpdate {
            id: new_id(),
            member_id,
            content,
            timestamp: now(),
            mood: None,
            blockers: Vec::new(),
            achievements: Vec::new(),
        }
    }

    /// The same update with a mood.
    pub fn with_mood(self, mood: String) -> (r: Self)
        ensures
            r == (StatusUpdate { mood: Some(mood), ..self }),
    {
        let mut u = self;
        u.mood = Some(mood);
        u
    }

    /// Appends a blocker.
    pub fn add_blocker(&mut self, blocker: String)
        ensures
            final(self).blockers@ == old(self).blockers@.push(blocker),
            final(self).id == old(self).id,
            final(self).member_id == old(self).member_id,
            final(self).content == old(self).content,
            final(self).timestamp == old(self).timestamp,
            final(self).mood == old(self).mood,
            final(self).achievements == old(self).achievements,
    {
        self.blockers.push(blocker);
    }

    /// Appends an achievement.
    pub fn add_achievement(&mut self, achievement: String)
        ensures
            final(self).achievements@ == old(self).achievements@.push(achievement),
            final(self).id == old(self).id,
            final(self).member_id == old(self).member_id,
            final(self).content == old(self).content,
            final(self).timestamp == old(self).timestamp,
            final(self).mood == old(self).mood,
            final(self).blockers == old(self).blockers,
    {
        self.achievements.push(achievement);
    }

    /// Whether any blocker was reported.
    pub fn has_blockers(&self) -> (r: bool)
        ensures
            r == (self.blockers@.len() > 0),
    {
        self.blockers.len() > 0
    }
}

impl Entity for StatusUpdate {
    open spec fn id_spec(&self) -> EntityId {
        self.id
    }

    fn entity_id(&self) -> (r: EntityId) {
        self.id
    }
}

impl Dated for StatusUpdate {
    open spec fn date_spec(&self) -> Timestamp {
        self.timestamp
    }

    fn date_of(&self) -> (r: Timestamp) {
        self.timestamp
    }
}

impl OfMember for StatusUpdate {
    open spec fn member_spec(&self) -> EntityId {
        self.member_id
    }

    fn member_of(&self) -> (r: EntityId) {
        self.member_id
    }
}

#[derive(Debug, Clone, Copy, PartialEq, Eq, Structural)]
pub enum MessageRole {
    User,
    Assistant,
    System,
}

#[derive(Debug, Clone, PartialEq)]
pub struct Message {
    pub id: EntityId,
    pub role: MessageRole,
    pub content: String,
    pub timestamp: Timestamp,
}

#[derive(Debug, Clone, PartialEq)]
pub struct Conversation {
    pub id: EntityId,
    pub member_id: EntityId,
    pub messages: Vec<Message>,
    pub created_at: Timestamp,
    pub updated_at: Timestamp,
}

impl Entity for Conversation {
    open spec fn id_spec(&self) -> EntityId {
        self.id
    }

    fn entity_id(&self) -> (r: EntityId) {
        self.id
    }
}

impl OfMember for Conversation {
    open spec fn member_spec(&self) -> EntityId {
        self.member_id
    }

    fn member_of(&self) -> (r: EntityId) {
        self.member_id
    }
}

/// A recommendation with its confidence, kept as the bit pattern of a
/// single-precision float in `0.0..=1.0`.
#[derive(Debug, Clone, PartialEq)]
pub struct AIDecision {
    pub id: EntityId,
    pub decision_type: String,
    pub context: String,
    pub recommendation: String,
    pub confidence_bits: u32,
    pub created_at: Timestamp,
    pub outcome: Option<String>,
}

impl AIDecision {
    /// A new decision with a fresh identifier, created now, without an outcome.
    pub fn new(
        decision_type: String,
        context: String,
        recommendation: String,
        confidence_bits: u32,
    ) -> (r: Self)
        ensures
            r.decision_type == decision_type,
            r.context == context,
            r.recommendation == recommendation,
            r.confidence_bits == confidence_bits,
            r.outcome is None,
    {
        AIDecision {
            id: new_id(),
            decision_type,
            context,
            recommendation,
            confidence_bits,
            created_at: now(),
            outcome: None,
        }
    }

    /// Records the outcome, after the fact.
    pub fn set_outcome(&mut self, outcome: String)
        ensures
            *final(self) == (AIDecision { outcome: Some(outcome), ..*old(self) }),
    {
        self.outcome = Some(outcome);
    }
}

impl Entity for AIDecision {
    open spec fn id_spec(&self) -> EntityId {
        self.id
    }

    fn entity_id(&self) -> (r: EntityId) {
        self.id
    }
}

impl Dated for AIDecision {
    open spec fn date_spec(&self) -> Timestamp {
        self.created_at
    }

    fn date_of(&self) -> (r: Timestamp) {
        self.created_at
    }
}

/// A dated snapshot of team figures. Satisfaction (0 to 10) and velocity are kept
/// as bit patterns of single-precision floats.
#[derive(Debug, Clone, PartialEq)]
pub struct TeamMetrics {
    pub id: EntityId,
    pub date: Timestamp,
    pub active_members: u32,
    pub completed_tasks: u32,
    pub blockers_count: u32,
    pub average_satisfaction_bits: u32,
    pub velocity_bits: u32,
}

impl TeamMetrics {
    /// Metrics for `date` with a fresh identifier, every figure zero.
    pub fn new(date: Timestamp) -> (r: Self)
        ensures
            r.date == date,
            r.active_members == 0,
            r.completed_tasks == 0,
            r.blockers_count == 0,
            r.average_satisfaction_bits == 0,
            r.velocity_bits == 0,
    {
        TeamMetrics {
            id: new_id(),
            date,
            active_members: 0,
            completed_tasks: 0,
            blockers_count: 0,
            average_satisfaction_bits: 0,
            velocity_bits: 0,
        }
    }
}

impl Entity for TeamMetrics {
    open spec fn id_spec(&self) -> EntityId {
        self.id
    }

    fn entity_id(&self) -> (r: EntityId) {
        self.id
    }
}

impl Dated for TeamMetrics {
    open spec fn date_spec(&self) -> Timestamp {
        self.date
    }

    fn date_of(&self) -> (r: Timestamp) {
        self.date
    }
}

} // verus!
