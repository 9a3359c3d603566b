//! The exchange orchestrator: one chat exchange as a state machine. Each
//! step takes what the store or the completion endpoint answered and says
//! what to do next; the caller performs that action and reports back.
use crate::completion::{failure_text, CompletionError};
use crate::model::{lemma_turns_of_push, turns_of, Message, MessageData, Turn};
use crate::normalize::{normalize_transcript, normalized, system_role};
use crate::store::{log_after_save, log_turns, SaveRequest, StoredMessage, StoredTurn};
use crate::store::MessageData as NewMessage;
use vstd::prelude::*;

verus! {

/// Whether some turn of `h` has the system role.
pub open spec fn has_system(h: Seq<Turn>) -> bool {
    exists|i: int| 0 <= i < h.len() && (#[trigger] h[i]).role == system_role()
}

/// Where an exchange stands.
#[derive(Clone, Copy, Debug, PartialEq, Eq, Structural)]
pub enum Phase {
    LoadingHistory,
    FindingPersona,
    SavingSystem,
    SavingUser,
    AwaitingReply,
    SavingReply,
    Finished,
}

/// Why an exchange ended without a reply.
#[derive(Clone, Debug)]
pub enum ExchangeError {
    /// The conversation does not exist.
    NotFound,
    /// The store failed to read or write.
    Storage(String),
    /// The completion endpoint gave no reply.
    Completion(CompletionError),
}

impl ExchangeError {
    /// A text for the caller.
    pub fn describe(&self) -> (r: String)
        ensures
            r@ == match *self {
                ExchangeError::NotFound => "conversation not found"@,
                ExchangeError::Storage(m) => m@,
                ExchangeError::Completion(e) => failure_text(e),
            },
    {
        match self {
            ExchangeError::NotFound => String::from_str("conversation not found"),
            ExchangeError::Storage(m) => m.clone(),
            ExchangeError::Completion(e) => e.describe(),
        }
    }
}

/// What the store or the completion endpoint answered.
pub enum ExchangeEvent {
    /// The conversation's messages, ascending by index.
    Messages(Vec<StoredMessage>),
    /// The persona prompt of the conversation; `None` when it does not exist.
    Persona(Option<String>),
    /// The message asked for was stored.
    Saved,
    /// The completion endpoint replied.
    Replied(Message),
    /// The completion endpoint gave no reply.
    CompletionFailed(CompletionError),
    /// The store failed.
    StorageFailed(String),
}

/// What the caller is to do next.
pub enum ExchangeAction {
    /// Read the messages of this conversation, ascending by index.
    ListMessages(String),
    /// Look up this conversation's persona prompt.
    FindPersona(String),
    /// Store this message.
    Save(NewMessage),
    /// Ask the completion endpoint to reply to these turns.
    Complete(Vec<MessageData>),
    /// The exchange is over; this is the reply.
    Reply(MessageData),
    /// The exchange is over without a reply.
    Fail(ExchangeError),
}

/// The mathematical form of an event.
pub enum EventView {
    Messages(Seq<Turn>),
    Persona(Option<Seq<char>>),
    Saved,
    Replied(Turn),
    CompletionFailed(CompletionError),
    StorageFailed(String),
}

/// The mathematical form of an action.
pub enum ActionView {
    ListMessages(Seq<char>),
    FindPersona(Seq<char>),
    Save(SaveRequest),
    Complete(Seq<Turn>),
    Reply(Turn),
    Fail(ExchangeError),
}

impl View for ExchangeEvent {
    type V = EventView;

    open spec fn view(&self) -> EventView {
        match self {
            ExchangeEvent::Messages(ms) => EventView::Messages(
                log_turns(ms@.map_values(|m: StoredMessage| m@)),
            ),
            ExchangeEvent::Persona(p) => EventView::Persona(
                match p {
                    Some(s) => Some(s@),
                    None => None,
                },
            ),
            ExchangeEvent::Saved => EventView::Saved,
            ExchangeEvent::Replied(m) => EventView::Replied(
                Turn { role: m.role@, content: m.content@ },
            ),
            ExchangeEvent::CompletionFailed(e) => EventView::CompletionFailed(*e),
            ExchangeEvent::StorageFailed(m) => EventView::StorageFailed(*m),
        }
    }
}

impl View for ExchangeAction {
    type V = ActionView;

    open spec fn view(&self) -> ActionView {
        match self {
            ExchangeAction::ListMessages(c) => ActionView::ListMessages(c@),
            ExchangeAction::FindPersona(c) => ActionView::FindPersona(c@),
            ExchangeAction::Save(m) => ActionView::Save(m@),
            ExchangeAction::Complete(ts) => ActionView::Complete(turns_of(ts@)),
            ExchangeAction::Reply(t) => ActionView::Reply(t@),
            ExchangeAction::Fail(e) => ActionView::Fail(*e),
        }
    }
}

/// One exchange in progress.
pub struct Exchange {
    conversation_id: String,
    incoming: MessageData,
    history: Vec<MessageData>,
    transmit: Vec<MessageData>,
    reply: MessageData,
    phase: Phase,
}

/// The mathematical form of an exchange in progress.
pub struct ExchangeView {
    pub conversation_id: Seq<char>,
    pub incoming: Turn,
    pub history: Seq<Turn>,
    pub transmit: Seq<Turn>,
    pub reply: Turn,
    pub phase: Phase,
}

impl View for Exchange {
    type V = ExchangeView;

    closed spec fn view(&self) -> ExchangeView {
        ExchangeView {
            conversation_id: self.conversation_id@,
            incoming: self.incoming@,
            history: turns_of(self.history@),
            transmit: turns_of(self.transmit@),
            reply: self.reply@,
            phase: self.phase,
        }
    }
}

/// An exchange of `incoming` on conversation `conversation_id` that has
/// not started.
pub open spec fn start_view(conversation_id: Seq<char>, incoming: Turn) -> ExchangeView {
    ExchangeView {
        conversation_id,
        incoming,
        history: Seq::empty(),
        transmit: Seq::empty(),
        reply: Turn { role: Seq::empty(), content: Seq::empty() },
        phase: Phase::LoadingHistory,
    }
}

/// Whether an exchange in `phase` can take `e`.
pub open spec fn accepts(phase: Phase, e: EventView) -> bool {
    match e {
        EventView::Messages(_) => phase == Phase::LoadingHistory,
        EventView::Persona(_) => phase == Phase::FindingPersona,
        EventView::Saved => phase == Phase::SavingSystem || phase == Phase::SavingUser || phase
            == Phase::SavingReply,
        EventView::Replied(_) | EventView::CompletionFailed(_) => phase == Phase::AwaitingReply,
        EventView::StorageFailed(_) => phase != Phase::AwaitingReply && phase != Phase::Finished,
    }
}

/// The request to store the incoming turn as it was given.
pub open spec fn user_save(s: ExchangeView) -> SaveRequest {
    SaveRequest {
        conversation_id: s.conversation_id,
        role: s.incoming.role,
        content: s.incoming.content,
        name: None,
        index: None,
    }
}

/// `s` with its phase set to `phase`.
pub open spec fn with_phase(s: ExchangeView, phase: Phase) -> ExchangeView {
    ExchangeView { phase, ..s }
}

/// One step of an exchange in state `s` that takes event `e`: the next state
/// and the action to perform.
pub open spec fn step_spec(s: ExchangeView, e: EventView) -> (ExchangeView, ActionView) {
    match e {
        EventView::Messages(h) => if has_system(h) {
            (
                ExchangeView {
                    history: h,
                    transmit: normalized(h, s.incoming),
                    phase: Phase::SavingUser,
                    ..s
                },
                ActionView::Save(user_save(s)),
            )
        } else {
            (
                ExchangeView { history: h, phase: Phase::FindingPersona, ..s },
                ActionView::FindPersona(s.conversation_id),
            )
        },
        EventView::Persona(None) => (
            with_phase(s, Phase::Finished),
            ActionView::Fail(ExchangeError::NotFound),
        ),
        EventView::Persona(Some(p)) => (
            ExchangeView {
                history: seq![Turn { role: system_role(), content: p }] + s.history,
                phase: Phase::SavingSystem,
                ..s
            },
            ActionView::Save(
                SaveRequest {
                    conversation_id: s.conversation_id,
                    role: system_role(),
                    content: p,
                    name: None,
                    index: Some(0),
                },
            ),
        ),
        EventView::Saved => if s.phase == Phase::SavingSystem {
            (
                ExchangeView {
                    transmit: normalized(s.history, s.incoming),
                    phase: Phase::SavingUser,
                    ..s
                },
                ActionView::Save(user_save(s)),
            )
        } else if s.phase == Phase::SavingUser {
            (with_phase(s, Phase::AwaitingReply), ActionView::Complete(s.transmit))
        } else {
            (with_phase(s, Phase::Finished), ActionView::Reply(s.reply))
        },
        EventView::Replied(t) => (
            ExchangeView { reply: t, phase: Phase::SavingReply, ..s },
            ActionView::Save(
                SaveRequest {
                    conversation_id: s.conversation_id,
                    role: t.role,
                    content: t.content,
                    name: None,
                    index: None,
                },
            ),
        ),
        EventView::CompletionFailed(err) => (
            with_phase(s, Phase::Finished),
            ActionView::Fail(ExchangeError::Completion(err)),
        ),
        EventView::StorageFailed(m) => (
            with_phase(s, Phase::Finished),
            ActionView::Fail(ExchangeError::Storage(m)),
        ),
    }
}

proof fn lemma_turns_of_prepend(v: Seq<MessageData>, m: MessageData)
    ensures
        turns_of(v.insert(0, m)) == seq![m@] + turns_of(v),
{
    assert(turns_of(v.insert(0, m)) =~= seq![m@] + turns_of(v));
}

/// The stored messages as role/content turns.
fn history_turns(ms: &Vec<StoredMessage>) -> (r: Vec<MessageData>)
    ensures
        turns_of(r@) == log_turns(ms@.map_values(|m: StoredMessage| m@)),
{
    let ghost target = log_turns(ms@.map_values(|m: StoredMessage| m@));
    let mut out: Vec<MessageData> = Vec::new();
    let mut i: usize = 0;
    while i < ms.len()
        invariant
            i <= ms@.len(),
            target == log_turns(ms@.map_values(|m: StoredMessage| m@)),
            turns_of(out@) =~= target.subrange(0, i as int),
        decreases ms@.len() - i,
    {
        let item = MessageData { role: ms[i].role.clone(), content: ms[i].content.clone() };
        assert(item@ == target[i as int]);
        proof {
            lemma_turns_of_push(out@, item);
        }
        out.push(item);
        assert(turns_of(out@) =~= target.subrange(0, i + 1));
        i = i + 1;
    }
    assert(target.subrange(0, ms@.len() as int) =~= target);
    out
}

/// Whether some turn has the system role.
fn contains_system(h: &Vec<MessageData>) -> (r: bool)
    ensures
        r == has_system(turns_of(h@)),
{
    let system = String::from_str("system");
    proof {
        reveal_strlit("system");
        assert(system@ =~= system_role());
    }
    let mut i: usize = 0;
    while i < h.len()
        invariant
            i <= h@.len(),
            system@ == system_role(),
            forall|j: int| 0 <= j < i ==> (#[trigger] turns_of(h@)[j]).role != system_role(),
        decreases h@.len() - i,
    {
        if h[i].role == system {
            assert(turns_of(h@)[i as int].role == system_role());
            return true;
        }
        i = i + 1;
    }
    false
}

impl Exchange {
    /// Starts an exchange of `incoming` on conversation `conversation_id`;
    /// the first action reads the conversation's messages.
    pub fn start(conversation_id: String, incoming: MessageData) -> (r: (Exchange, ExchangeAction))
        ensures
            r.0@ == start_view(conversation_id@, incoming@),
            r.1@ == ActionView::ListMessages(conversation_id@),
    {
        let action = ExchangeAction::ListMessages(conversation_id.clone());
        let exchange = Exchange {
            conversation_id,
            incoming,
            history: Vec::new(),
            transmit: Vec::new(),
            reply: MessageData { role: String::new(), content: String::new() },
            phase: Phase::LoadingHistory,
        };
        assert(exchange@.history =~= Seq::<Turn>::empty());
        assert(exchange@.transmit =~= Seq::<Turn>::empty());
        (exchange, action)
    }

    /// Where the exchange stands.
    pub fn phase(&self) -> (r: Phase)
        ensures
            r == self@.phase,
    {
        self.phase
    }

    /// Whether the exchange, where it stands, can take `event`.
    pub fn accepts(&self, event: &ExchangeEvent) -> (r: bool)
        ensures
            r == accepts(self@.phase, event@),
    {
        match event {
            ExchangeEvent::Messages(_) => self.phase == Phase::LoadingHistory,
            ExchangeEvent::Persona(_) => self.phase == Phase::FindingPersona,
            ExchangeEvent::Saved => self.phase == Phase::SavingSystem || self.phase
                == Phase::SavingUser || self.phase == Phase::SavingReply,
            ExchangeEvent::Replied(_) => self.phase == Phase::AwaitingReply,
            ExchangeEvent::CompletionFailed(_) => self.phase == Phase::AwaitingReply,
            ExchangeEvent::StorageFailed(_) => self.phase != Phase::AwaitingReply && self.phase
                != Phase::Finished,
        }
    }

    /// The request to store the incoming turn as it was given.
    fn user_message(&self) -> (r: NewMessage)
        ensures
            r@ == user_save(self@),
    {
        NewMessage {
            conversation_id: self.conversation_id.clone(),
            role: self.incoming.role.clone(),
            content: self.incoming.content.clone(),
            name: None,
            index: None,
        }
    }

    /// Takes what the last action produced and gives the next state and
    /// action. The history read first decides whether a system turn with the
    /// persona prompt is stored, at index zero, and put in front; the
    /// normalized transcript is computed, then the incoming turn is stored as
    /// given, then the completion endpoint is asked, then its reply is stored
    /// and returned. A failure of the store or of the endpoint ends the
    /// exchange; what was stored stays stored.
    pub fn step(self, event: ExchangeEvent) -> (r: (Exchange, ExchangeAction))
        requires
            accepts(self@.phase, event@),
        ensures
            r.0@ == step_spec(self@, event@).0,
            r.1@ == step_spec(self@, event@).1,
    {
        let ghost s = self@;
        match event {
            ExchangeEvent::Messages(ms) => {
                let history = history_turns(&ms);
                if contains_system(&history) {
                    let transmit = normalize_transcript(&history, &self.incoming);
                    let action = ExchangeAction::Save(self.user_message());
                    let next = Exchange { history, transmit, phase: Phase::SavingUser, ..self };
                    (next, action)
                } else {
                    let action = ExchangeAction::FindPersona(self.conversation_id.clone());
                    let next = Exchange { history, phase: Phase::FindingPersona, ..self };
                    (next, action)
                }
            },
            ExchangeEvent::Persona(None) => {
                let next = Exchange { phase: Phase::Finished, ..self };
                (next, ExchangeAction::Fail(ExchangeError::NotFound))
            },
            ExchangeEvent::Persona(Some(prompt)) => {
                let system = String::from_str("system");
                proof {
                    reveal_strlit("system");
                    assert(system@ =~= system_role());
                }
                let save = NewMessage {
                    conversation_id: self.conversation_id.clone(),
                    role: system.clone(),
                    content: prompt.clone(),
                    name: None,
                    index: Some(0),
                };
                let mut history = self.history;
                let first = MessageData { role: system, content: prompt };
                proof {
                    lemma_turns_of_prepend(history@, first);
                }
                history.insert(0, first);
                let next = Exchange {
                    conversation_id: self.conversation_id,
                    incoming: self.incoming,
                    history,
                    transmit: self.transmit,
                    reply: self.reply,
                    phase: Phase::SavingSystem,
                };
                (next, ExchangeAction::Save(save))
            },
            ExchangeEvent::Saved => {
                if self.phase == Phase::SavingSystem {
                    let transmit = normalize_transcript(&self.history, &self.incoming);
                    let action = ExchangeAction::Save(self.user_message());
                    let next = Exchange { transmit, phase: Phase::SavingUser, ..self };
                    (next, action)
                } else if self.phase == Phase::SavingUser {
                    let mut transmit: Vec<MessageData> = Vec::new();
                    let mut i: usize = 0;
                    while i < self.transmit.len()
                        invariant
                            i <= self.transmit@.len(),
                            turns_of(transmit@) =~= turns_of(self.transmit@).subrange(0, i as int),
                        decreases self.transmit@.len() - i,
                    {
                        let item = MessageData {
                            role: self.transmit[i].role.clone(),
                            content: self.transmit[i].content.clone(),
                        };
                        proof {
                            lemma_turns_of_push(transmit@, item);
                        }
                        transmit.push(item);
                        assert(turns_of(transmit@) =~= turns_of(self.transmit@).subrange(0, i + 1));
                        i = i + 1;
                    }
                    assert(turns_of(self.transmit@).subrange(0, self.transmit@.len() as int) =~= turns_of(self.transmit@));
                    let next = Exchange { phase: Phase::AwaitingReply, ..self };
                    (next, ExchangeAction::Complete(transmit))
                } else {
                    let reply = MessageData {
                        role: self.reply.role.clone(),
                        content: self.reply.content.clone(),
                    };
                    let next = Exchange { phase: Phase::Finished, ..self };
                    (next, ExchangeAction::Reply(reply))
                }
            },
            ExchangeEvent::Replied(m) => {
                let save = NewMessage {
                    conversation_id: self.conversation_id.clone(),
                    role: m.role.clone(),
                    content: m.content.clone(),
                    name: None,
                    index: None,
                };
                let reply = MessageData { role: m.role, content: m.content };
                let next = Exchange { reply, phase: Phase::SavingReply, ..self };
                (next, ExchangeAction::Save(save))
            },
            ExchangeEvent::CompletionFailed(e) => {
                let next = Exchange { phase: Phase::Finished, ..self };
                (next, ExchangeAction::Fail(ExchangeError::Completion(e)))
            },
            ExchangeEvent::StorageFailed(m) => {
                let next = Exchange { phase: Phase::Finished, ..self };
                (next, ExchangeAction::Fail(ExchangeError::Storage(m)))
            },
        }
    }
}

/// Drives an exchange in state `s` with pending action `a` against one
/// conversation's stored log: reads see `log`, stores append to it with the
/// index the store assigns, the persona lookup answers `persona` and the
/// completion endpoint answers `outcome`. The final log and the final action.
pub open spec fn run_on_log(
    s: ExchangeView,
    a: ActionView,
    log: Seq<StoredTurn>,
    persona: Option<Seq<char>>,
    outcome: Result<Turn, CompletionError>,
    fuel: nat,
) -> (Seq<StoredTurn>, ActionView)
    decreases fuel,
{
    if fuel == 0 {
        (log, a)
    } else {
        match a {
            ActionView::ListMessages(_) => {
                let n = step_spec(s, EventView::Messages(log_turns(log)));
                run_on_log(n.0, n.1, log, persona, outcome, (fuel - 1) as nat)
            },
            ActionView::FindPersona(_) => {
                let n = step_spec(s, EventView::Persona(persona));
                run_on_log(n.0, n.1, log, persona, outcome, (fuel - 1) as nat)
            },
            ActionView::Save(r) => {
                let n = step_spec(s, EventView::Saved);
                run_on_log(n.0, n.1, log_after_save(log, r), persona, outcome, (fuel - 1) as nat)
            },
            ActionView::Complete(_) => {
                let e = match outcome {
                    Ok(t) => EventView::Replied(t),
                    Err(err) => EventView::CompletionFailed(err),
                };
                let n = step_spec(s, e);
                run_on_log(n.0, n.1, log, persona, outcome, (fuel - 1) as nat)
            },
            _ => (log, a),
        }
    }
}

/// A whole exchange of `incoming` on a conversation whose stored log is
/// `log`: the final log and the final action.
pub open spec fn exchange_on_log(
    log: Seq<StoredTurn>,
    conversation_id: Seq<char>,
    incoming: Turn,
    persona: Option<Seq<char>>,
    outcome: Result<Turn, CompletionError>,
) -> (Seq<StoredTurn>, ActionView) {
    run_on_log(
        start_view(conversation_id, incoming),
        ActionView::ListMessages(conversation_id),
        log,
        persona,
        outcome,
        7,
    )
}

/// The request that stores a turn unpinned.
pub open spec fn turn_save(conversation_id: Seq<char>, t: Turn) -> SaveRequest {
    SaveRequest { conversation_id, role: t.role, content: t.content, name: None, index: None }
}

/// The request that stores the persona prompt as the system turn.
pub open spec fn system_save(conversation_id: Seq<char>, prompt: Seq<char>) -> SaveRequest {
    SaveRequest {
        conversation_id,
        role: system_role(),
        content: prompt,
        name: None,
        index: Some(0),
    }
}

/// What one exchange stores: the system turn if the log had none, then the
/// incoming turn as given, then the reply if the endpoint gave one. It ends
/// with the reply, or with the endpoint's failure.
pub proof fn lemma_exchange_effect(
    log: Seq<StoredTurn>,
    conversation_id: Seq<char>,
    incoming: Turn,
    persona: Option<Seq<char>>,
    outcome: Result<Turn, CompletionError>,
)
    requires
        has_system(log_turns(log)) || persona is Some,
    ensures
        ({
            let boot = !has_system(log_turns(log));
            let with_system = if boot {
                log_after_save(log, system_save(conversation_id, persona->Some_0))
            } else {
                log
            };
            let with_user = log_after_save(with_system, turn_save(conversation_id, incoming));
            let r = exchange_on_log(log, conversation_id, incoming, persona, outcome);
            match outcome {
                Ok(t) => r.0 == log_after_save(with_user, turn_save(conversation_id, t)) && r.1
                    == ActionView::Reply(t),
                Err(e) => r.0 == with_user && r.1 == ActionView::Fail(ExchangeError::Completion(e)),
            }
        }),
{
    reveal_with_fuel(run_on_log, 8);
}

proof fn lemma_no_system_roles(log: Seq<StoredTurn>)
    requires
        !has_system(log_turns(log)),
    ensures
        forall|i: int| 0 <= i < log.len() ==> (#[trigger] log[i]).role != system_role(),
{
    assert forall|i: int| 0 <= i < log.len() implies (#[trigger] log[i]).role != system_role() by {
        assert(log_turns(log)[i].role == log[i].role);
    }
}

/// Two exchanges on a conversation with no system turn store exactly one,
/// with the persona prompt at index zero, and it is the first thing the first
/// exchange stores. This holds where neither incoming turn nor reply has the
/// system role itself.
pub proof fn lemma_system_turn_stored_once(
    log: Seq<StoredTurn>,
    conversation_id: Seq<char>,
    first: Turn,
    second: Turn,
    prompt: Seq<char>,
    first_outcome: Result<Turn, CompletionError>,
    second_outcome: Result<Turn, CompletionError>,
)
    requires
        !has_system(log_turns(log)),
        first.role != system_role(),
        second.role != system_role(),
        first_outcome is Ok ==> first_outcome->Ok_0.role != system_role(),
        second_outcome is Ok ==> second_outcome->Ok_0.role != system_role(),
    ensures
        ({
            let log1 = exchange_on_log(log, conversation_id, first, Some(prompt), first_outcome).0;
            let log2 =
                exchange_on_log(log1, conversation_id, second, Some(prompt), second_outcome).0;
            &&& log1.len() > log.len()
            &&& log1.subrange(0, log.len() as int) == log
            &&& log1[log.len() as int] == StoredTurn { role: system_role(), content: prompt, index: 0 }
            &&& log2.subrange(0, log1.len() as int) == log1
            &&& forall|i: int|
                0 <= i < log2.len() ==> ((#[trigger] log2[i]).role == system_role() <==> i
                    == log.len())
        }),
{
    lemma_no_system_roles(log);
    lemma_exchange_effect(log, conversation_id, first, Some(prompt), first_outcome);
    let log1 = exchange_on_log(log, conversation_id, first, Some(prompt), first_outcome).0;
    assert(log_turns(log1)[log.len() as int].role == system_role());
    assert(has_system(log_turns(log1)));
    lemma_exchange_effect(log1, conversation_id, second, Some(prompt), second_outcome);
    let log2 = exchange_on_log(log1, conversation_id, second, Some(prompt), second_outcome).0;
    assert(log1.subrange(0, log.len() as int) =~= log);
    assert(log2.subrange(0, log1.len() as int) =~= log1);
    assert forall|i: int| 0 <= i < log2.len() implies ((#[trigger] log2[i]).role == system_role()
        <==> i == log.len()) by {
        if i < log.len() {
            assert(log2[i] == log[i]);
        } else if i < log1.len() {
            assert(log2[i] == log1[i]);
        }
    }
}

/// When the completion endpoint fails, the incoming turn is stored as given
/// and last, after the system turn if one had to be stored, and no reply is
/// stored; the exchange ends with that failure.
pub proof fn lemma_failed_completion_keeps_user_turn(
    log: Seq<StoredTurn>,
    conversation_id: Seq<char>,
    incoming: Turn,
    persona: Option<Seq<char>>,
    err: CompletionError,
)
    requires
        has_system(log_turns(log)) || persona is Some,
    ensures
        ({
            let r = exchange_on_log(log, conversation_id, incoming, persona, Err(err));
            &&& r.1 == ActionView::Fail(ExchangeError::Completion(err))
            &&& r.0.len() == log.len() + if has_system(log_turns(log)) {
                1int
            } else {
                2int
            }
            &&& r.0.subrange(0, log.len() as int) == log
            &&& r.0.last().role == incoming.role
            &&& r.0.last().content == incoming.content
        }),
{
    lemma_exchange_effect(log, conversation_id, incoming, persona, Err(err));
    let r = exchange_on_log(log, conversation_id, incoming, persona, Err(err));
    assert(r.0.subrange(0, log.len() as int) =~= log);
}

} // verus!
