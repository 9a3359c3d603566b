//! What seeding the store computes for each imported student: its persona
//! prompt, its avatar address and its list of avatars.
use vstd::prelude::*;

verus! {

/// What `serde_json::from_str::<Vec<String>>` reads from a text: `None` when
/// the text is not a JSON array of strings.
pub uninterp spec fn json_string_list(s: Seq<char>) -> Option<Seq<Seq<char>>>;

/// What `serde_json::to_string` writes for a list of strings.
pub uninterp spec fn string_list_json(v: Seq<Seq<char>>) -> Seq<char>;

/// The views of a list of strings.
pub open spec fn strings_of(v: Seq<String>) -> Seq<Seq<char>> {
    v.map_values(|s: String| s@)
}

/// Relies on `serde_json::from_str::<Vec<String>>`: reads a JSON array of
/// strings, or fails.
#[verifier::external_body]
fn parse_string_list(s: &str) -> (r: Option<Vec<String>>)
    ensures
        match r {
            Some(v) => json_string_list(s@) == Some(strings_of(v@)),
            None => json_string_list(s@) is None,
        },
{
    serde_json::from_str::<Vec<String>>(s).ok()
}

/// Relies on `serde_json::to_string`: writes a list of strings as a JSON
/// array, when it does not fail.
#[verifier::external_body]
fn write_string_list(v: &Vec<String>) -> (r: Option<String>)
    ensures
        r matches Some(j) ==> j@ == string_list_json(strings_of(v@)),
{
    serde_json::to_string(v).ok()
}

/// The opening of a persona prompt, before the student's name.
pub open spec fn prompt_opening() -> Seq<char> {
    "你是来自蔚蓝档案的学生"@
}

/// The middle of a persona prompt, between the two uses of the name.
pub open spec fn prompt_middle() -> Seq<char> {
    "，你应该表现得符合角色特性。\n你需要保持角色的一致性，友好地与用户交流。\n在对话中要展现出"@
}

/// The end of a persona prompt, after the second use of the name.
pub open spec fn prompt_closing() -> Seq<char> {
    "的性格特点和说话方式。\n请记住，你是在与用户私聊，要有亲切感。"@
}

/// The persona prompt of a student named `name`.
pub fn default_prompt(name: &str) -> (r: String)
    ensures
        r@ == prompt_opening() + name@ + prompt_middle() + name@ + prompt_closing(),
{
    let mut text = String::from_str("你是来自蔚蓝档案的学生");
    text.append(name);
    text.append("，你应该表现得符合角色特性。\n你需要保持角色的一致性，友好地与用户交流。\n在对话中要展现出");
    text.append(name);
    text.append("的性格特点和说话方式。\n请记住，你是在与用户私聊，要有亲切感。");
    text
}

/// Where avatar images live, before the student id.
pub open spec fn avatar_prefix() -> Seq<char> {
    "https://aronacdn.hanasaki.tech/images/student/icon/"@
}

/// The file suffix of an avatar image.
pub open spec fn avatar_suffix() -> Seq<char> {
    ".webp"@
}

/// The avatar address of the student with id `student_id`.
pub fn avatar_url(student_id: &str) -> (r: String)
    ensures
        r@ == avatar_prefix() + student_id@ + avatar_suffix(),
{
    let mut url = String::from_str("https://aronacdn.hanasaki.tech/images/student/icon/");
    url.append(student_id);
    url.append(".webp");
    url
}

/// The avatar list before a new address is added: the parsed list when the
/// stored text was a JSON list, else the stored text alone, or nothing when
/// it is empty.
pub open spec fn avatars_before(parsed: Option<Seq<Seq<char>>>, stored: Seq<char>) -> Seq<
    Seq<char>,
> {
    match parsed {
        Some(v) => v,
        None => if stored.len() == 0 {
            Seq::empty()
        } else {
            seq![stored]
        },
    }
}

/// `list` with `url` added at the end unless it is there already.
pub open spec fn with_avatar(list: Seq<Seq<char>>, url: Seq<char>) -> Seq<Seq<char>> {
    if list.contains(url) {
        list
    } else {
        list.push(url)
    }
}

/// The avatar list of a student whose stored avatar text is `stored` and
/// reads as `parsed`, once `url` is added.
pub fn merged_avatar_list(parsed: Option<Vec<String>>, stored: &String, url: String) -> (r: Vec<
    String,
>)
    ensures
        strings_of(r@) == with_avatar(
            avatars_before(
                match parsed {
                    Some(v) => Some(strings_of(v@)),
                    None => None,
                },
                stored@,
            ),
            url@,
        ),
{
    let ghost parsed_view = match &parsed {
        Some(v) => Some(strings_of(v@)),
        None => None,
    };
    let mut list = match parsed {
        Some(v) => v,
        None => {
            let mut v: Vec<String> = Vec::new();
            if !stored.as_str().is_empty() {
                v.push(stored.clone());
            }
            v
        },
    };
    assert(strings_of(list@) =~= avatars_before(parsed_view, stored@));
    let ghost before = strings_of(list@);
    let mut found = false;
    let mut i: usize = 0;
    while i < list.len()
        invariant
            i <= list@.len(),
            before == strings_of(list@),
            found <==> exists|j: int| 0 <= j < i && #[trigger] before[j] == url@,
        decreases list@.len() - i,
    {
        assert(before[i as int] == list@[i as int]@);
        if list[i] == url {
            found = true;
        }
        i = i + 1;
    }
    proof {
        if found {
            let j = choose|j: int| 0 <= j < i && #[trigger] before[j] == url@;
            assert(before.contains(url@));
        } else {
            if before.contains(url@) {
                let j = choose|j: int| 0 <= j < before.len() && before[j] == url@;
                assert(before[j] == url@);
            }
        }
    }
    if !found {
        list.push(url);
        assert(strings_of(list@) =~= before.push(url@));
    }
    list
}

/// The stored avatar text of a student whose stored text is `stored`, once
/// `url` is added: the merged list written as JSON, or an empty text when
/// writing fails.
pub fn merge_avatars(stored: &String, url: String) -> (r: String)
    ensures
        r@.len() == 0 || r@ == string_list_json(
            with_avatar(avatars_before(json_string_list(stored@), stored@), url@),
        ),
{
    let parsed = parse_string_list(stored.as_str());
    let list = merged_avatar_list(parsed, stored, url);
    match write_string_list(&list) {
        Some(j) => j,
        None => String::new(),
    }
}

/// The stored avatar text of a new student: a JSON list of `url` alone, or
/// an empty text when writing fails.
pub fn first_avatars(url: String) -> (r: String)
    ensures
        r@.len() == 0 || r@ == string_list_json(seq![url@]),
{
    let mut list: Vec<String> = Vec::new();
    list.push(url);
    assert(strings_of(list@) =~= seq![list@[0]@]);
    match write_string_list(&list) {
        Some(j) => j,
        None => String::new(),
    }
}

} // verus!
