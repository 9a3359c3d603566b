use chat_exchange::completion::CompletionError;
use chat_exchange::exchange::{Exchange, ExchangeAction, ExchangeError, ExchangeEvent, Phase};
use chat_exchange::model::{Message, MessageData};
use chat_exchange::store::{StoredMessage, Timestamp};

struct Log {
    messages: Vec<StoredMessage>,
    persona: Option<String>,
    sent: Vec<Vec<MessageData>>,
}

fn drive(
    log: &mut Log,
    incoming: MessageData,
    reply: Result<Message, CompletionError>,
) -> Result<MessageData, ExchangeError> {
    let (mut ex, mut action) = Exchange::start("c1".to_string(), incoming);
    loop {
        let event = match action {
            ExchangeAction::ListMessages(id) => {
                assert_eq!(id, "c1");
                let mut ms = log.messages.clone();
                ms.sort_by_key(|m| m.index);
                ExchangeEvent::Messages(ms)
            }
            ExchangeAction::FindPersona(_) => ExchangeEvent::Persona(log.persona.clone()),
            ExchangeAction::Save(m) => {
                let max = log.messages.iter().map(|r| r.index).max();
                let record = m.to_record(max, Timestamp { unix_millis: 0 }).unwrap();
                log.messages.push(record);
                ExchangeEvent::Saved
            }
            ExchangeAction::Complete(turns) => {
                log.sent.push(turns);
                match reply.clone() {
                    Ok(m) => ExchangeEvent::Replied(m),
                    Err(e) => ExchangeEvent::CompletionFailed(e),
                }
            }
            ExchangeAction::Reply(m) => return Ok(m),
            ExchangeAction::Fail(e) => return Err(e),
        };
        assert!(ex.accepts(&event));
        let (next, a) = ex.step(event);
        ex = next;
        action = a;
    }
}

fn user(content: &str) -> MessageData {
    MessageData::new("user".to_string(), content.to_string())
}

fn answer(content: &str) -> Result<Message, CompletionError> {
    Ok(Message { role: "assistant".to_string(), content: content.to_string(), reasoning_content: String::new() })
}

fn stored(role: &str, content: &str, index: i32) -> StoredMessage {
    StoredMessage {
        id: index,
        conversation_id: "c1".to_string(),
        role: role.to_string(),
        content: content.to_string(),
        name: String::new(),
        created_at: Timestamp { unix_millis: 0 },
        index,
    }
}

fn fresh(persona: Option<&str>) -> Log {
    Log { messages: Vec::new(), persona: persona.map(|p| p.to_string()), sent: Vec::new() }
}

#[test]
fn system_prompt_is_stored_once_over_two_exchanges() {
    let mut log = fresh(Some("be kind"));
    let r1 = drive(&mut log, user("hello"), answer("hi there")).unwrap();
    assert_eq!(r1.content, "hi there");
    let r2 = drive(&mut log, user("again"), answer("yes")).unwrap();
    assert_eq!(r2.role, "assistant");
    let systems: Vec<_> = log.messages.iter().filter(|m| m.role == "system").collect();
    assert_eq!(systems.len(), 1);
    assert_eq!(systems[0].content, "be kind");
    assert_eq!(systems[0].index, 0);
    assert_eq!(log.messages[0].role, "system");
    let roles: Vec<_> = log.messages.iter().map(|m| m.role.as_str()).collect();
    assert_eq!(roles, vec!["system", "user", "assistant", "user", "assistant"]);
    let indices: Vec<_> = log.messages.iter().map(|m| m.index).collect();
    assert_eq!(indices, vec![0, 1, 2, 3, 4]);
    assert_eq!(log.sent[0].len(), 2);
    assert_eq!(log.sent[0][0].content, "be kind");
    assert_eq!(log.sent[1].len(), 4);
}

#[test]
fn failed_completion_keeps_the_user_turn() {
    let mut log = fresh(Some("p"));
    let r = drive(&mut log, user("question"), Err(CompletionError::Transport("timeout".to_string())));
    assert!(matches!(r, Err(ExchangeError::Completion(CompletionError::Transport(_)))));
    assert_eq!(log.messages.len(), 2);
    assert_eq!(log.messages[1].role, "user");
    assert_eq!(log.messages[1].content, "question");
    assert!(log.messages.iter().all(|m| m.role != "assistant"));
}

#[test]
fn retry_after_failure_sends_the_unanswered_turn_merged() {
    let mut log = fresh(Some("p"));
    let _ = drive(&mut log, user("first"), Err(CompletionError::NoChoices));
    let r = drive(&mut log, user("second"), answer("ok")).unwrap();
    assert_eq!(r.content, "ok");
    let last_sent = log.sent.last().unwrap();
    assert_eq!(last_sent.len(), 2);
    assert_eq!(last_sent[1].content, "first\nsecond");
    let contents: Vec<_> = log.messages.iter().map(|m| m.content.as_str()).collect();
    assert_eq!(contents, vec!["p", "first", "second", "ok"]);
}

#[test]
fn missing_conversation_is_not_found() {
    let mut log = fresh(None);
    let r = drive(&mut log, user("hi"), answer("x"));
    assert!(matches!(r, Err(ExchangeError::NotFound)));
    assert!(log.messages.is_empty());
}

#[test]
fn stored_system_turn_is_not_repeated() {
    let mut log = fresh(None);
    log.messages = vec![stored("system", "s", 0), stored("user", "a", 1), stored("user", "b", 2)];
    let r = drive(&mut log, user("c"), answer("d")).unwrap();
    assert_eq!(r.content, "d");
    assert_eq!(log.sent[0].len(), 2);
    assert_eq!(log.sent[0][1].content, "a\nb\nc");
    assert_eq!(log.messages.len(), 5);
    assert_eq!(log.messages[3].content, "c");
    assert_eq!(log.messages[3].index, 3);
    assert_eq!(log.messages[4].index, 4);
}

#[test]
fn storage_failure_ends_the_exchange() {
    let (ex, _) = Exchange::start("c1".to_string(), user("hi"));
    let (ex, action) = ex.step(ExchangeEvent::StorageFailed("disk full".to_string()));
    assert_eq!(ex.phase(), Phase::Finished);
    match action {
        ExchangeAction::Fail(e) => assert_eq!(e.describe(), "disk full"),
        _ => panic!("expected a failure"),
    }
}

#[test]
fn events_out_of_turn_are_refused() {
    let (ex, _) = Exchange::start("c1".to_string(), user("hi"));
    assert!(!ex.accepts(&ExchangeEvent::Saved));
    assert!(!ex.accepts(&ExchangeEvent::Persona(None)));
    assert!(ex.accepts(&ExchangeEvent::Messages(Vec::new())));
}
