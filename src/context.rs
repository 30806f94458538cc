use vstd::prelude::*;

use crate::clock::{now, Timestamp};
use crate::collection::deref_all;
use crate::ids::{new_id, EntityId};
use crate::models::{Message, MessageRole};

verus! {

#[derive(Debug, Clone, Copy, PartialEq, Eq, Structural)]
pub enum CommunicationStyle {
    Formal,
    Casual,
    Brief,
    Detailed,
}

#[derive(Debug, Clone, Copy, PartialEq, Eq, Structural)]
pub enum NotificationFrequency {
    Minimal,
    Normal,
    Frequent,
}

#[derive(Debug, Clone)]
pub struct UserPreferences {
    pub communication_style: CommunicationStyle,
    pub notification_frequency: NotificationFrequency,
    pub preferred_channels: Vec<String>,
}

impl Default for UserPreferences {
    /// Casual style, normal frequency, reached on `slack`.
    fn default() -> (r: Self)
        ensures
            r.communication_style == CommunicationStyle::Casual,
            r.notification_frequency == NotificationFrequency::Normal,
            r.preferred_channels@.len() == 1,
            r.preferred_channels@[0]@ == "slack"@,
    {
        let r = UserPreferences {
            communication_style: CommunicationStyle::Casual,
            notification_frequency: NotificationFrequency::Normal,
            preferred_channels: vec!["slack".to_owned()],
        };
        r
    }
}

#[derive(Debug, Clone)]
pub struct ContextData {
    pub team_name: String,
    pub current_project: Option<String>,
    pub recent_activities: Vec<String>,
    pub preferences: UserPreferences,
}

impl Default for ContextData {
    /// A team called `Default Team` with no project, no activity and the default
    /// preferences.
    fn default() -> (r: Self)
        ensures
            r.team_name@ == "Default Team"@,
            r.current_project is None,
            r.recent_activities@.len() == 0,
            r.preferences.communication_style == CommunicationStyle::Casual,
            r.preferences.notification_frequency == NotificationFrequency::Normal,
    {
        ContextData {
            team_name: "Default Team".to_owned(),
            current_project: None,
            recent_activities: Vec::new(),
            preferences: UserPreferences::default(),
        }
    }
}

/// The running exchange with the assistant, optionally about one member.
#[derive(Debug, Clone)]
pub struct ConversationContext {
    pub id: EntityId,
    pub member_id: Option<EntityId>,
    pub messages: Vec<Message>,
    pub created_at: Timestamp,
    pub updated_at: Timestamp,
    pub context_data: ContextData,
}

/// The last `count` of `msgs` (all of them when there are fewer), newest first.
pub open spec fn newest_messages(msgs: Seq<Message>, count: nat) -> Seq<Message> {
    let k = if count < msgs.len() {
        count as int
    } else {
        msgs.len() as int
    };
    Seq::new(k as nat, |i: int| msgs[msgs.len() - 1 - i])
}

impl ConversationContext {
    /// An empty conversation with a fresh identifier and the default context.
    pub fn new(member_id: Option<EntityId>) -> (r: Self)
        ensures
            r.member_id == member_id,
            r.messages@.len() == 0,
            r.context_data.team_name@ == "Default Team"@,
    {
        let created_at = now();
        ConversationContext {
            id: new_id(),
            member_id,
            messages: Vec::new(),
            created_at,
            updated_at: now(),
            context_data: ContextData::default(),
        }
    }

    /// Appends a message with a fresh identifier, stamped now.
    pub fn add_message(&mut self, role: MessageRole, content: String)
        ensures
            final(self).messages@.len() == old(self).messages@.len() + 1,
            final(self).messages@.drop_last() == old(self).messages@,
            final(self).messages@.last().role == role,
            final(self).messages@.last().content == content,
            final(self).id == old(self).id,
            final(self).member_id == old(self).member_id,
            final(self).created_at == old(self).created_at,
    {
        let message = Message { id: new_id(), role, content, timestamp: now() };
        self.messages.push(message);
        assert(self.messages@.drop_last() =~= old(self).messages@);
        self.updated_at = now();
    }

    /// The last `count` messages, newest first.
    pub fn get_recent_messages(&self, count: usize) -> (r: Vec<&Message>)
        ensures
            deref_all(r@) == newest_messages(self.messages@, count as nat),
    {
        let ghost msgs = self.messages@;
        let n = self.messages.len();
        let mut r: Vec<&Message> = Vec::new();
        let mut i: usize = 0;
        while i < count && i < n
            invariant
                n == msgs.len(),
                msgs == self.messages@,
                i <= n,
                i <= count,
                r@.len() == i,
                forall|j: int| 0 <= j < i ==> *(#[trigger] r@[j]) == msgs[n - 1 - j],
            decreases n - i,
        {
            r.push(&self.messages[n - 1 - i]);
            i = i + 1;
        }
        assert(deref_all(r@) =~= newest_messages(msgs, count as nat));
        r
    }

    /// Drops all but the last `keep_last` messages; the conversation is marked
    /// updated only when some were dropped.
    pub fn clear_old_messages(&mut self, keep_last: usize)
        ensures
            old(self).messages@.len() > keep_last ==> final(self).messages@ == old(
                self,
            ).messages@.subrange(
                old(self).messages@.len() - keep_last,
                old(self).messages@.len() as int,
            ),
            old(self).messages@.len() <= keep_last ==> *final(self) == *old(self),
    {
        if self.messages.len() > keep_last {
            let start_index = self.messages.len() - keep_last;
            let kept = self.messages.split_off(start_index);
            self.messages = kept;
            self.updated_at = now();
        }
    }
}

} // verus!
