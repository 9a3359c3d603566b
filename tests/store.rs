use chat_exchange::store::{
    apply_conversation_update, new_conversation, ConversationData, ConversationUpdateData,
    MessageData, Timestamp,
};

fn message(index: Option<i32>, name: Option<&str>) -> MessageData {
    MessageData {
        conversation_id: "c1".to_string(),
        role: "user".to_string(),
        content: "hi".to_string(),
        name: name.map(|n| n.to_string()),
        index,
    }
}

#[test]
fn first_message_takes_index_zero() {
    assert_eq!(message(None, None).assigned_index(None), Some(0));
}

#[test]
fn next_message_follows_the_largest_index() {
    assert_eq!(message(None, None).assigned_index(Some(4)), Some(5));
    assert_eq!(message(None, None).assigned_index(Some(-1)), Some(0));
}

#[test]
fn pinned_index_is_kept() {
    assert_eq!(message(Some(0), None).assigned_index(Some(9)), Some(0));
    assert_eq!(message(Some(7), None).assigned_index(None), Some(7));
}

#[test]
fn index_past_the_largest_i32_is_refused() {
    assert_eq!(message(None, None).assigned_index(Some(i32::MAX)), None);
    assert!(message(None, None).to_record(Some(i32::MAX), Timestamp { unix_millis: 0 }).is_none());
}

#[test]
fn unpinned_inserts_count_up_from_zero() {
    let mut current: Option<i32> = None;
    let mut seen = Vec::new();
    for _ in 0..5 {
        let i = message(None, None).assigned_index(current).unwrap();
        seen.push(i);
        current = Some(i);
    }
    assert_eq!(seen, vec![0, 1, 2, 3, 4]);
}

#[test]
fn record_carries_the_message() {
    let now = Timestamp { unix_millis: 1_700_000_000_000 };
    let r = message(None, Some("alice")).to_record(Some(2), now).unwrap();
    assert_eq!(r.conversation_id, "c1");
    assert_eq!(r.role, "user");
    assert_eq!(r.content, "hi");
    assert_eq!(r.name, "alice");
    assert_eq!(r.index, 3);
    assert_eq!(r.created_at, now);
    let unnamed = message(None, None).to_record(None, now).unwrap();
    assert_eq!(unnamed.name, "");
    assert_eq!(unnamed.index, 0);
}

#[test]
fn new_conversation_defaults_title() {
    let now = Timestamp { unix_millis: 10 };
    let data = ConversationData { id: None, title: None, student_name: "Hoshino".to_string() };
    let c = new_conversation(data, "id-1".to_string(), now);
    assert_eq!(c.id, "id-1");
    assert_eq!(c.title, "");
    assert_eq!(c.student_name, "Hoshino");
    assert_eq!(c.created_at, now);
    assert_eq!(c.updated_at, now);
    let titled = ConversationData { id: Some("ignored".to_string()), title: Some("t".to_string()), student_name: "S".to_string() };
    let c2 = new_conversation(titled, "id-2".to_string(), now);
    assert_eq!(c2.id, "id-2");
    assert_eq!(c2.title, "t");
}

#[test]
fn update_changes_title_and_time() {
    let made = Timestamp { unix_millis: 10 };
    let data = ConversationData { id: None, title: Some("old".to_string()), student_name: "S".to_string() };
    let c = new_conversation(data, "id".to_string(), made);
    let later = Timestamp { unix_millis: 20 };
    let kept = apply_conversation_update(c.clone(), ConversationUpdateData { title: None }, later);
    assert_eq!(kept.title, "old");
    assert_eq!(kept.updated_at, later);
    assert_eq!(kept.created_at, made);
    let changed = apply_conversation_update(c, ConversationUpdateData { title: Some("new".to_string()) }, later);
    assert_eq!(changed.title, "new");
}
