use imessage_rs::db::{Chat, Message};
use imessage_rs::json::Json;
use imessage_rs::watcher::PollerState;

fn msg(rowid: i64, guid: &str, date: i64) -> Message {
    Message { rowid, guid: guid.to_string(), text: Some("hi".into()), date: Some(date), ..Default::default() }
}

fn chat(guid: &str, ts: Option<i64>) -> Chat {
    Chat { guid: guid.to_string(), last_read_message_timestamp: ts, ..Default::default() }
}

#[test]
fn first_poll_reports_new_messages() {
    let mut st = PollerState::new();
    let msgs = vec![msg(1, "a", 1000), msg(2, "b", 500)];
    let ev = st.poll_messages_at(&msgs, 900, 10);
    assert_eq!(ev.len(), 1);
    assert_eq!(ev[0].event_type, "new-message");
    assert_eq!(ev[0].message_index, 0);
    assert!(ev[0].with_chats);
    assert_eq!(st.seen_guids.len(), 1);
    assert_eq!(st.message_states.len(), 1);
}

#[test]
fn second_poll_reports_only_changes() {
    let mut st = PollerState::new();
    let msgs = vec![msg(1, "a", 1000)];
    assert_eq!(st.poll_messages_at(&msgs, 900, 10).len(), 1);
    // Unchanged: nothing.
    assert!(st.poll_messages_at(&msgs, 900, 20).is_empty());
    // Read later: updated, without chats.
    let mut read = msg(1, "a", 1000);
    read.date_read = Some(2000);
    let ev = st.poll_messages_at(&vec![read], 900, 30);
    assert_eq!(ev.len(), 1);
    assert_eq!(ev[0].event_type, "updated-message");
    assert!(!ev[0].with_chats);
}

#[test]
fn group_changes_come_first_and_once() {
    let mut st = PollerState::new();
    let mut rename = msg(7, "g", 1000);
    rename.item_type = 2;
    rename.text = None;
    let msgs = vec![msg(1, "a", 1000), rename];
    let ev = st.poll_messages_at(&msgs, 900, 10);
    assert_eq!(ev.len(), 2);
    assert_eq!(ev[0].event_type, "group-name-change");
    assert_eq!(ev[0].message_index, 1);
    assert_eq!(ev[1].event_type, "new-message");
    assert_eq!(ev[1].message_index, 0);
    assert!(st.seen_guids.iter().any(|(k, _)| k == "group-change-7"));
}

#[test]
fn chat_reads_report_later_timestamps() {
    let mut st = PollerState::new();
    let chats = vec![chat("c1", Some(100)), chat("c2", None)];
    let ev = st.poll_chat_reads_at(&chats, 5);
    assert_eq!(ev.len(), 2);
    assert_eq!(ev[0].event_type, "chat-read-status-changed");
    match &ev[0].data {
        Json::Object(f) => {
            assert_eq!(f[0], ("chatGuid".to_string(), Json::Str("c1".into())));
            assert_eq!(f[1], ("read".to_string(), Json::Bool(true)));
        }
        _ => panic!("not an object"),
    }
    // Same timestamps again: nothing; a later one: reported.
    assert!(st.poll_chat_reads_at(&chats, 6).is_empty());
    let ev = st.poll_chat_reads_at(&vec![chat("c1", Some(200))], 7);
    assert_eq!(ev.len(), 1);
}
