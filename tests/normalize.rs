use chat_exchange::model::MessageData;
use chat_exchange::normalize::{fold_incoming_turn, merge_same_role_neighbors, normalize_transcript};

fn turn(role: &str, content: &str) -> MessageData {
    MessageData::new(role.to_string(), content.to_string())
}

fn pairs(v: &[MessageData]) -> Vec<(String, String)> {
    v.iter().map(|m| (m.role.clone(), m.content.clone())).collect()
}

#[test]
fn trailing_user_turns_fold_into_incoming() {
    let history = vec![
        turn("system", "persona"),
        turn("user", "Hi"),
        turn("assistant", "Hello"),
        turn("user", "How are"),
        turn("user", "you?"),
    ];
    let out = normalize_transcript(&history, &turn("user", "today?"));
    assert_eq!(
        pairs(&out),
        vec![
            ("system".to_string(), "persona".to_string()),
            ("user".to_string(), "Hi".to_string()),
            ("assistant".to_string(), "Hello".to_string()),
            ("user".to_string(), "How are\nyou?\ntoday?".to_string()),
        ]
    );
}

#[test]
fn whole_history_of_user_turns_folds() {
    let history = vec![turn("user", "a"), turn("user", "b")];
    let out = normalize_transcript(&history, &turn("user", "c"));
    assert_eq!(pairs(&out), vec![("user".to_string(), "a\nb\nc".to_string())]);
}

#[test]
fn empty_history_gives_incoming_alone() {
    let out = normalize_transcript(&Vec::new(), &turn("user", "hello"));
    assert_eq!(pairs(&out), vec![("user".to_string(), "hello".to_string())]);
}

#[test]
fn non_user_incoming_folds_nothing() {
    let history = vec![turn("system", "s"), turn("user", "q")];
    let raw = fold_incoming_turn(&history, &turn("assistant", "a"));
    assert_eq!(
        pairs(&raw),
        vec![
            ("system".to_string(), "s".to_string()),
            ("user".to_string(), "q".to_string()),
            ("assistant".to_string(), "a".to_string()),
        ]
    );
}

#[test]
fn same_role_neighbours_merge_with_blank_line() {
    let turns = vec![
        turn("system", "s"),
        turn("assistant", "A"),
        turn("assistant", "B"),
        turn("user", "u"),
        turn("assistant", "C"),
        turn("assistant", "D"),
        turn("assistant", "E"),
    ];
    let out = merge_same_role_neighbors(&turns);
    assert_eq!(
        pairs(&out),
        vec![
            ("system".to_string(), "s".to_string()),
            ("assistant".to_string(), "A\n\nB".to_string()),
            ("user".to_string(), "u".to_string()),
            ("assistant".to_string(), "C\n\nD\n\nE".to_string()),
        ]
    );
}

#[test]
fn incoming_assistant_merges_with_stored_assistant() {
    let history = vec![turn("system", "s"), turn("assistant", "first")];
    let out = normalize_transcript(&history, &turn("assistant", "second"));
    assert_eq!(
        pairs(&out),
        vec![
            ("system".to_string(), "s".to_string()),
            ("assistant".to_string(), "first\n\nsecond".to_string()),
        ]
    );
}

#[test]
fn output_roles_alternate() {
    let history = vec![
        turn("system", "s1"),
        turn("system", "s2"),
        turn("assistant", "a1"),
        turn("assistant", "a2"),
        turn("user", "u1"),
        turn("assistant", "a3"),
        turn("user", "u2"),
    ];
    let out = normalize_transcript(&history, &turn("user", "u3"));
    for w in out.windows(2) {
        assert_ne!(w[0].role, w[1].role);
    }
    assert_eq!(out.len(), 5);
}

#[test]
fn no_content_is_dropped() {
    let history = vec![
        turn("system", "s"),
        turn("assistant", "x"),
        turn("assistant", "y"),
        turn("user", "p"),
        turn("user", "q"),
    ];
    let incoming = turn("user", "r");
    let out = normalize_transcript(&history, &incoming);
    let strip = |s: String| s.replace('\n', "");
    let input: String = history.iter().map(|m| m.content.clone()).collect::<String>() + &incoming.content;
    let output: String = out.iter().map(|m| m.content.clone()).collect();
    assert_eq!(strip(input), strip(output));
    assert_eq!(out.last().unwrap().content, "p\nq\nr");
}
