use serverlist_bot::reminders::{
    disable_request, disabled_message, enabled_text, not_a_number_message, plan_reminder, reminder_channel,
    reminder_choices, reminder_text, should_remind, DisableRequest, ReminderRow,
};
use serverlist_bot::toggle::{
    accepted_press, subscribe_action, subscribe_reply, toggle_target, ReminderLookup, SubscribeAction,
};
use serverlist_bot::vote::toggle_id;

#[test]
fn reminder_phrases() {
    assert_eq!(reminder_text(5, &vec![1]), "Hey <@5>, you can vote for the server  (1) or did you forget?");
    assert_eq!(
        reminder_text(5, &vec![1, 2, 3]),
        "Hey <@5>, you can vote for the server ,  (1)the server ,  (2)the server  and  (3) or did you forget?"
    );
    assert_eq!(reminder_text(-1, &vec![]), "Hey <@18446744073709551615>, you can vote for  or did you forget?");
}

#[test]
fn reminder_decisions() {
    assert_eq!(reminder_channel(9, None), 9);
    assert_eq!(reminder_channel(9, Some(4)), 4);
    assert_eq!(reminder_channel(9, Some(-4)), 9);
    assert!(!should_remind(None));
    assert!(should_remind(Some(None)));
    assert!(should_remind(Some(Some(0))));
    assert!(!should_remind(Some(Some(2))));
    let row = ReminderRow { user_id: 7, vote_reminders_servers: vec![10, 20], vote_reminder_channel: Some(3) };
    let r = plan_reminder(1, &row, Some(Some(0))).unwrap();
    assert_eq!(r.channel, 3);
    assert_eq!(r.content, "Hey <@7>, you can vote for the server ,  (10)the server  and  (20) or did you forget?");
    assert!(plan_reminder(1, &row, Some(Some(1))).is_none());
}

#[test]
fn disabling() {
    assert_eq!(disable_request(None), DisableRequest::ListEnabled);
    assert_eq!(disable_request(Some("12".to_string())), DisableRequest::Disable(12));
    assert_eq!(disable_request(Some("x".to_string())), DisableRequest::NotANumber);
    assert_eq!(not_a_number_message(), "Server id must be a i64");
    assert_eq!(disabled_message(-3), "Vote reminders disabled for -3");
    assert_eq!(enabled_text(&vec![]), "Vote reminders enabled: ");
    assert_eq!(enabled_text(&vec![1, -2]), "Vote reminders enabled: 1, -2, ");
}

#[test]
fn choices_disable_their_server() {
    let servers = vec![1i64, -5, i64::MAX, i64::MIN];
    let choices = reminder_choices(&servers);
    assert_eq!(choices, vec!["1", "-5", "9223372036854775807", "-9223372036854775808"]);
    for (c, s) in choices.iter().zip(servers.iter()) {
        assert_eq!(disable_request(Some(c.clone())), DisableRequest::Disable(*s));
    }
}

#[test]
fn button_ids() {
    assert_eq!(toggle_target("vrtoggle-12-34"), Some((12, 34)));
    assert_eq!(toggle_target("vrtoggle-12-34-5"), None);
    assert_eq!(toggle_target("vrtoggle-12"), None);
    assert_eq!(toggle_target("vrtoggle-a-34"), None);
    assert_eq!(toggle_target("other-12-34"), None);
    assert_eq!(toggle_target("vrtoggle--12"), None);
    assert_eq!(toggle_target("vrtoggle-+12-34"), Some((12, 34)));
    assert_eq!(accepted_press("vrtoggle-12-34", 12), Some((12, 34)));
    assert_eq!(accepted_press("vrtoggle-12-34", 13), None);
    assert_eq!(accepted_press("vrtoggle--1-34", u64::MAX), None);
}

#[test]
fn vote_button_round_trip() {
    let id = toggle_id(811073947382579200, 862735209452060672);
    assert_eq!(accepted_press(&id, 811073947382579200), Some((811073947382579200, 862735209452060672)));
}

#[test]
fn subscribing() {
    let found = ReminderLookup::Found(vec![1, 2]);
    assert_eq!(subscribe_action(&found, 2), SubscribeAction::AlreadySubscribed);
    assert_eq!(subscribe_action(&found, 3), SubscribeAction::AppendServer);
    assert_eq!(subscribe_action(&ReminderLookup::NotFound, 3), SubscribeAction::InsertRow);
    let failed = ReminderLookup::Failed("db down".to_string());
    assert_eq!(subscribe_action(&failed, 3), SubscribeAction::ReportError);
    assert_eq!(subscribe_reply(&failed, &SubscribeAction::ReportError), "**Error:** db down");
    assert_eq!(subscribe_reply(&found, &SubscribeAction::AppendServer), "You have successfully subscribed to vote reminders!");
    assert_eq!(subscribe_reply(&found, &SubscribeAction::AlreadySubscribed), "You have already subscribed to vote reminders for this server!");
    // A second press after subscribing changes nothing.
    let after = ReminderLookup::Found(vec![1, 2, 3]);
    assert_eq!(subscribe_action(&after, 3), SubscribeAction::AlreadySubscribed);
}
