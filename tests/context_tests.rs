use timeless::config::{Config, DEFAULT_TEMPERATURE_BITS};
use timeless::context::{CommunicationStyle, ContextData, ConversationContext, NotificationFrequency, UserPreferences};
use timeless::models::MessageRole;
use timeless::prompts::PromptTemplate;

#[test]
fn prompt_render_replaces_placeholders() {
    let mut t = PromptTemplate::new("Hello {name}, you work on {tasks}. {name}!");
    t.set_variable("name", "Ann");
    t.set_variable("tasks", "billing");
    assert_eq!(t.render(), "Hello Ann, you work on billing. Ann!");
}

#[test]
fn prompt_variable_set_twice_uses_last_value() {
    let mut t = PromptTemplate::new("{x}-{y}");
    t.set_variable("x", "1");
    t.set_variable("x", "2");
    assert_eq!(t.render(), "2-{y}");
}

#[test]
fn prompt_without_variables_is_unchanged() {
    let t = PromptTemplate::new("plain {text}");
    assert_eq!(t.render(), "plain {text}");
}

#[test]
fn default_preferences_and_context() {
    let p = UserPreferences::default();
    assert_eq!(p.communication_style, CommunicationStyle::Casual);
    assert_eq!(p.notification_frequency, NotificationFrequency::Normal);
    assert_eq!(p.preferred_channels, vec!["slack".to_string()]);
    let d = ContextData::default();
    assert_eq!(d.team_name, "Default Team");
    assert!(d.current_project.is_none());
    assert!(d.recent_activities.is_empty());
}

#[test]
fn conversation_recent_messages_newest_first() {
    let mut c = ConversationContext::new(None);
    c.add_message(MessageRole::User, "one".to_string());
    c.add_message(MessageRole::Assistant, "two".to_string());
    c.add_message(MessageRole::User, "three".to_string());
    let recent: Vec<&str> = c.get_recent_messages(2).iter().map(|m| m.content.as_str()).collect();
    assert_eq!(recent, vec!["three", "two"]);
    assert_eq!(c.get_recent_messages(10).len(), 3);
}

#[test]
fn conversation_clear_keeps_last() {
    let mut c = ConversationContext::new(Some(7));
    for s in ["a", "b", "c", "d"] {
        c.add_message(MessageRole::System, s.to_string());
    }
    c.clear_old_messages(2);
    let left: Vec<&str> = c.messages.iter().map(|m| m.content.as_str()).collect();
    assert_eq!(left, vec!["c", "d"]);
    c.clear_old_messages(5);
    assert_eq!(c.messages.len(), 2);
    assert_eq!(c.member_id, Some(7));
}

#[test]
fn default_config_values() {
    let c = Config::default();
    assert_eq!(c.app.data_dir, "./data");
    assert_eq!(c.storage.max_backups, 7);
    assert_eq!(f32::from_bits(DEFAULT_TEMPERATURE_BITS), 0.7f32);
    assert_eq!(c.mcp.servers.len(), 2);
    assert_eq!(c.mcp.servers["slack"].args, vec!["@modelcontextprotocol/server-slack".to_string()]);
    assert_eq!(c.team.working_days.len(), 5);
}
