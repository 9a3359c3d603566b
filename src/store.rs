//! Stored records of students, conversations and messages, the order index
//! that the store assigns, and a model of one conversation's stored log.
use crate::model::Turn;
use vstd::prelude::*;

verus! {

/// A point in time, as milliseconds since the Unix epoch, UTC.
#[derive(Clone, Copy, Debug, PartialEq, Eq, Structural)]
pub struct Timestamp {
    pub unix_millis: i64,
}

/// A persona that conversations are held with.
#[derive(Clone, Debug)]
pub struct Student {
    pub id: i32,
    pub name: String,
    pub avatars: String,
    pub prompt: String,
}

/// A stored conversation with one student.
#[derive(Clone, Debug)]
pub struct Conversation {
    pub id: String,
    pub created_at: Timestamp,
    pub updated_at: Timestamp,
    pub title: String,
    pub student_name: String,
}

/// A stored message of a conversation.
#[derive(Clone, Debug)]
pub struct StoredMessage {
    pub id: i32,
    pub conversation_id: String,
    pub role: String,
    pub content: String,
    pub name: String,
    pub created_at: Timestamp,
    pub index: i32,
}

/// What a caller gives to open a conversation.
#[derive(Debug)]
pub struct ConversationData {
    pub id: Option<String>,
    pub title: Option<String>,
    pub student_name: String,
}

/// What a caller may change of a conversation.
#[derive(Debug)]
pub struct ConversationUpdateData {
    pub title: Option<String>,
}

/// A student with its conversation, if it has one.
#[derive(Debug)]
pub struct StudentWithConversation {
    pub student: Student,
    pub conversation: Option<Conversation>,
}

/// A conversation with its student.
#[derive(Debug)]
pub struct ConversationWithStudent {
    pub conversation: Conversation,
    pub student: Student,
}

/// A message to store; without `index` the store puts it after the last one.
#[derive(Debug)]
pub struct MessageData {
    pub conversation_id: String,
    pub role: String,
    pub content: String,
    pub name: Option<String>,
    pub index: Option<i32>,
}

/// The mathematical form of a message to store.
pub struct SaveRequest {
    pub conversation_id: Seq<char>,
    pub role: Seq<char>,
    pub content: Seq<char>,
    pub name: Option<Seq<char>>,
    pub index: Option<int>,
}

impl View for MessageData {
    type V = SaveRequest;

    open spec fn view(&self) -> SaveRequest {
        SaveRequest {
            conversation_id: self.conversation_id@,
            role: self.role@,
            content: self.content@,
            name: match self.name {
                Some(n) => Some(n@),
                None => None,
            },
            index: match self.index {
                Some(i) => Some(i as int),
                None => None,
            },
        }
    }
}

/// The mathematical form of a stored message: what the pipeline reads of it.
pub struct StoredTurn {
    pub role: Seq<char>,
    pub content: Seq<char>,
    pub index: int,
}

impl View for StoredMessage {
    type V = StoredTurn;

    open spec fn view(&self) -> StoredTurn {
        StoredTurn { role: self.role@, content: self.content@, index: self.index as int }
    }
}

/// The role and content of a stored message.
pub open spec fn turn_of(r: StoredTurn) -> Turn {
    Turn { role: r.role, content: r.content }
}

/// The roles and contents of a stored log, in order.
pub open spec fn log_turns(log: Seq<StoredTurn>) -> Seq<Turn> {
    log.map_values(|r: StoredTurn| turn_of(r))
}

/// The largest index of a log, or -1 for an empty one.
pub open spec fn max_index(log: Seq<StoredTurn>) -> int
    decreases log.len(),
{
    if log.len() == 0 {
        -1
    } else {
        let m = max_index(log.drop_last());
        if log.last().index > m {
            log.last().index
        } else {
            m
        }
    }
}

/// The index a new message takes in `log`: the pinned one, else one past
/// the largest.
pub open spec fn index_for(pinned: Option<int>, log: Seq<StoredTurn>) -> int {
    match pinned {
        Some(i) => i,
        None => max_index(log) + 1,
    }
}

/// `log` after storing `r`.
pub open spec fn log_after_save(log: Seq<StoredTurn>, r: SaveRequest) -> Seq<StoredTurn> {
    log.push(StoredTurn { role: r.role, content: r.content, index: index_for(r.index, log) })
}

/// `log` after storing each of `turns` in order, none with a pinned index.
pub open spec fn log_after_unpinned(log: Seq<StoredTurn>, turns: Seq<Turn>) -> Seq<StoredTurn>
    decreases turns.len(),
{
    if turns.len() == 0 {
        log
    } else {
        let before = log_after_unpinned(log, turns.drop_last());
        before.push(
            StoredTurn {
                role: turns.last().role,
                content: turns.last().content,
                index: max_index(before) + 1,
            },
        )
    }
}

/// Messages stored without a pinned index take the indices that follow the
/// largest one, in the order they were stored, with no gap; on an empty log
/// they count up from zero.
pub proof fn lemma_unpinned_indices_count_up(log: Seq<StoredTurn>, turns: Seq<Turn>)
    ensures
        log_after_unpinned(log, turns).len() == log.len() + turns.len(),
        log_after_unpinned(log, turns).subrange(0, log.len() as int) == log,
        max_index(log_after_unpinned(log, turns)) == max_index(log) + turns.len(),
        forall|i: int|
            0 <= i < turns.len() ==> (#[trigger] log_after_unpinned(log, turns)[log.len() + i]).index
                == max_index(log) + 1 + i,
        forall|i: int|
            0 <= i < turns.len() ==> turn_of(#[trigger] log_after_unpinned(log, turns)[log.len() + i])
                == turns[i],
        log.len() == 0 ==> forall|i: int|
            0 <= i < turns.len() ==> (#[trigger] log_after_unpinned(log, turns)[i]).index == i,
    decreases turns.len(),
{
    let r = log_after_unpinned(log, turns);
    if turns.len() == 0 {
        assert(r.subrange(0, log.len() as int) =~= log);
    } else {
        lemma_unpinned_indices_count_up(log, turns.drop_last());
        let before = log_after_unpinned(log, turns.drop_last());
        assert(r.drop_last() =~= before);
        assert(r.subrange(0, log.len() as int) =~= before.subrange(0, log.len() as int));
        assert forall|i: int| 0 <= i < turns.len() implies (#[trigger] r[log.len() + i]).index
            == max_index(log) + 1 + i && turn_of(r[log.len() + i]) == turns[i] by {
            if i < turns.len() - 1 {
                assert(r[log.len() + i] == before[log.len() + i]);
            }
        }
        if log.len() == 0 {
            assert forall|i: int| 0 <= i < turns.len() implies (#[trigger] r[i]).index == i by {
                assert(r[0 + i] == r[i]);
            }
        }
    }
}

/// The index a message pinned at `pinned` takes when the largest stored
/// index is `current_max`; `None` when it does not fit in an `i32`.
pub open spec fn next_index(pinned: Option<i32>, current_max: Option<i32>) -> Option<i32> {
    match pinned {
        Some(i) => Some(i),
        None => match current_max {
            None => Some(0i32),
            Some(m) => if m < i32::MAX {
                Some((m + 1) as i32)
            } else {
                None
            },
        },
    }
}

impl MessageData {
    /// The index the store gives this message when the largest index stored
    /// for its conversation is `current_max` (`None`: no message yet): the
    /// pinned index, else one past `current_max`, else zero. `None` when one
    /// past `current_max` does not fit in an `i32`.
    pub fn assigned_index(&self, current_max: Option<i32>) -> (r: Option<i32>)
        ensures
            r == next_index(self.index, current_max),
    {
        match self.index {
            Some(i) => Some(i),
            None => match current_max {
                None => Some(0),
                Some(m) => if m < i32::MAX {
                    Some(m + 1)
                } else {
                    None
                },
            },
        }
    }

    /// The record to insert for this message: its conversation, role and
    /// content, its name or an empty one, the time `now` and the index that
    /// `assigned_index` gives. The store sets `id`; it is zero here.
    pub fn to_record(&self, current_max: Option<i32>, now: Timestamp) -> (r: Option<
        StoredMessage,
    >)
        ensures
            r is None <==> next_index(self.index, current_max) is None,
            r matches Some(m) ==> {
                &&& m.conversation_id@ == self.conversation_id@
                &&& m.role@ == self.role@
                &&& m.content@ == self.content@
                &&& m.name@ == match self.name {
                    Some(n) => n@,
                    None => Seq::<char>::empty(),
                }
                &&& m.created_at == now
                &&& Some(m.index) == next_index(self.index, current_max)
                &&& m.id == 0
            },
    {
        match self.assigned_index(current_max) {
            None => None,
            Some(index) => {
                let name = match &self.name {
                    Some(n) => n.clone(),
                    None => String::new(),
                };
                Some(
                    StoredMessage {
                        id: 0,
                        conversation_id: self.conversation_id.clone(),
                        role: self.role.clone(),
                        content: self.content.clone(),
                        name,
                        created_at: now,
                        index,
                    },
                )
            },
        }
    }
}

/// A new conversation with id `id`, made at `now`, titled as `data` asks or
/// with an empty title.
pub fn new_conversation(data: ConversationData, id: String, now: Timestamp) -> (r: Conversation)
    ensures
        r.id@ == id@,
        r.created_at == now,
        r.updated_at == now,
        r.title@ == match data.title {
            Some(t) => t@,
            None => Seq::<char>::empty(),
        },
        r.student_name@ == data.student_name@,
{
    let title = match data.title {
        Some(t) => t,
        None => String::new(),
    };
    Conversation { id, created_at: now, updated_at: now, title, student_name: data.student_name }
}

/// `conversation` with the title that `data` gives, if any, updated at `now`.
pub fn apply_conversation_update(
    conversation: Conversation,
    data: ConversationUpdateData,
    now: Timestamp,
) -> (r: Conversation)
    ensures
        r.id@ == conversation.id@,
        r.created_at == conversation.created_at,
        r.updated_at == now,
        r.title@ == match data.title {
            Some(t) => t@,
            None => conversation.title@,
        },
        r.student_name@ == conversation.student_name@,
{
    let title = match data.title {
        Some(t) => t,
        None => conversation.title,
    };
    Conversation {
        id: conversation.id,
        created_at: conversation.created_at,
        updated_at: now,
        title,
        student_name: conversation.student_name,
    }
}

} // verus!
