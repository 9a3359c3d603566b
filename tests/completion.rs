use chat_exchange::completion::{authorization, check_status, first_choice, CompletionError};
use chat_exchange::model::{ChatCompletion, ChatCompletionRequest, Choice, Message, MessageData};

#[test]
fn request_names_the_model_and_does_not_stream() {
    let msgs = vec![MessageData::new("user".to_string(), "hi".to_string())];
    let r = ChatCompletionRequest::for_messages(msgs.clone());
    assert_eq!(r.model, "deepseek-reasoner");
    assert!(!r.stream);
    assert_eq!(r.messages, msgs);
}

#[test]
fn authorization_is_a_bearer_header() {
    assert_eq!(authorization(Some("k123".to_string())).unwrap(), "Bearer k123");
}

#[test]
fn missing_or_empty_key_is_an_auth_failure() {
    assert!(matches!(authorization(None), Err(CompletionError::Auth(_))));
    assert!(matches!(authorization(Some(String::new())), Err(CompletionError::Auth(_))));
}

#[test]
fn status_classification() {
    assert_eq!(check_status(200, "body".to_string()).unwrap(), "body");
    assert_eq!(check_status(299, "b".to_string()).unwrap(), "b");
    match check_status(401, "denied".to_string()) {
        Err(CompletionError::Auth(d)) => assert_eq!(d, "denied"),
        other => panic!("unexpected {:?}", other),
    }
    assert!(matches!(check_status(403, String::new()), Err(CompletionError::Auth(_))));
    match check_status(500, "oops".to_string()) {
        Err(CompletionError::Status { code, body }) => {
            assert_eq!(code, 500);
            assert_eq!(body, "oops");
        }
        other => panic!("unexpected {:?}", other),
    }
}

#[test]
fn empty_choices_is_an_error() {
    assert!(matches!(first_choice(ChatCompletion::default()), Err(CompletionError::NoChoices)));
}

#[test]
fn first_choice_is_the_reply() {
    let mut c = ChatCompletion::default();
    let mut a = Choice::default();
    a.message = Message { role: "assistant".to_string(), content: "one".to_string(), reasoning_content: String::new() };
    let mut b = Choice::default();
    b.message = Message { role: "assistant".to_string(), content: "two".to_string(), reasoning_content: String::new() };
    c.choices = vec![a, b];
    let m = first_choice(c).unwrap();
    assert_eq!(m.content, "one");
}

#[test]
fn error_texts_name_the_failure() {
    let e = CompletionError::Response { detail: "bad json".to_string(), raw: "{".to_string() };
    let t = e.describe();
    assert!(t.contains("bad json"));
    assert!(t.contains("{"));
    assert!(!CompletionError::NoChoices.describe().is_empty());
}
