use chat_exchange::seed::{avatar_url, default_prompt, first_avatars, merge_avatars};

#[test]
fn prompt_names_the_student_twice() {
    let p = default_prompt("星野");
    assert!(p.starts_with("你是来自蔚蓝档案的学生星野，"));
    assert!(p.contains("在对话中要展现出星野的性格特点"));
    assert!(p.ends_with("要有亲切感。"));
    assert_eq!(p.lines().count(), 4);
}

#[test]
fn avatar_address() {
    assert_eq!(
        avatar_url("10000"),
        "https://aronacdn.hanasaki.tech/images/student/icon/10000.webp"
    );
}

#[test]
fn new_student_gets_a_json_list() {
    assert_eq!(first_avatars("u1".to_string()), "[\"u1\"]");
}

#[test]
fn avatar_added_to_json_list() {
    assert_eq!(merge_avatars(&"[\"a\"]".to_string(), "b".to_string()), "[\"a\",\"b\"]");
}

#[test]
fn avatar_already_listed_is_not_repeated() {
    assert_eq!(merge_avatars(&"[\"a\",\"b\"]".to_string(), "a".to_string()), "[\"a\",\"b\"]");
}

#[test]
fn plain_text_avatar_becomes_first_entry() {
    assert_eq!(merge_avatars(&"old.png".to_string(), "new.png".to_string()), "[\"old.png\",\"new.png\"]");
}

#[test]
fn empty_avatar_text_starts_a_list() {
    assert_eq!(merge_avatars(&String::new(), "x".to_string()), "[\"x\"]");
}
