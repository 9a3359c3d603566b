//! The transcript normalizer: stored history plus one incoming turn become the
//! role-alternating list that is sent to the completion endpoint.
use crate::model::{lemma_turns_of_push, lemma_turns_of_update, turns_of, MessageData, Turn};
use vstd::prelude::*;

verus! {

/// The role of turns written by the person chatting.
pub open spec fn user_role() -> Seq<char> {
    seq!['u', 's', 'e', 'r']
}

/// The role of the instruction turn that opens a transcript.
pub open spec fn system_role() -> Seq<char> {
    seq!['s', 'y', 's', 't', 'e', 'm']
}

/// The separator between turns folded into the incoming one.
pub open spec fn line_break() -> Seq<char> {
    seq!['\n']
}

/// The separator between neighbouring turns of one role.
pub open spec fn blank_line() -> Seq<char> {
    seq!['\n', '\n']
}

/// How many turns at the end of `h` have the user role.
pub open spec fn trailing_user_count(h: Seq<Turn>) -> nat
    decreases h.len(),
{
    if h.len() == 0 {
        0
    } else if h.last().role == user_role() {
        1 + trailing_user_count(h.drop_last())
    } else {
        0
    }
}

/// The contents of `cs`, each followed by a line break, then `x`.
pub open spec fn prepend_lines(cs: Seq<Turn>, x: Seq<char>) -> Seq<char>
    decreases cs.len(),
{
    if cs.len() == 0 {
        x
    } else {
        prepend_lines(cs.drop_last(), cs.last().content + line_break() + x)
    }
}

/// How many stored turns are folded into the incoming turn.
pub open spec fn folded_count(h: Seq<Turn>, incoming: Turn) -> nat {
    if incoming.role == user_role() {
        trailing_user_count(h)
    } else {
        0
    }
}

/// The history without its folded tail, followed by the incoming turn with
/// the folded contents put in front of its own.
pub open spec fn fold_incoming(h: Seq<Turn>, incoming: Turn) -> Seq<Turn> {
    let k = folded_count(h, incoming);
    h.subrange(0, h.len() - k).push(
        Turn {
            role: incoming.role,
            content: prepend_lines(h.subrange(h.len() - k, h.len() as int), incoming.content),
        },
    )
}

/// Left to right, each turn whose role equals that of the last kept turn is
/// appended to it after a blank line.
pub open spec fn merge_adjacent(s: Seq<Turn>) -> Seq<Turn>
    decreases s.len(),
{
    if s.len() == 0 {
        s
    } else {
        let p = merge_adjacent(s.drop_last());
        let t = s.last();
        if p.len() > 0 && p.last().role == t.role {
            p.update(
                p.len() - 1,
                Turn { role: t.role, content: p.last().content + blank_line() + t.content },
            )
        } else {
            p.push(t)
        }
    }
}

/// The list sent to the completion endpoint for history `h` and `incoming`.
pub open spec fn normalized(h: Seq<Turn>, incoming: Turn) -> Seq<Turn> {
    merge_adjacent(fold_incoming(h, incoming))
}

/// No two neighbouring turns share a role.
pub open spec fn roles_alternate(s: Seq<Turn>) -> bool {
    forall|i: int| 0 <= i < s.len() - 1 ==> #[trigger] s[i].role != s[i + 1].role
}

/// All contents of `s`, one after the other.
pub open spec fn text_of(s: Seq<Turn>) -> Seq<char>
    decreases s.len(),
{
    if s.len() == 0 {
        Seq::empty()
    } else {
        text_of(s.drop_last()) + s.last().content
    }
}

/// `x` with every line break taken out.
pub open spec fn without_breaks(x: Seq<char>) -> Seq<char> {
    x.filter(|c: char| c != '\n')
}

proof fn lemma_trailing_count_bound(h: Seq<Turn>)
    ensures
        trailing_user_count(h) <= h.len(),
    decreases h.len(),
{
    if h.len() > 0 {
        lemma_trailing_count_bound(h.drop_last());
    }
}

proof fn lemma_trailing_step(h: Seq<Turn>, start: int)
    requires
        0 < start <= h.len(),
        h[start - 1].role == user_role(),
    ensures
        trailing_user_count(h.subrange(0, start)) == 1 + trailing_user_count(
            h.subrange(0, start - 1),
        ),
{
    assert(h.subrange(0, start).drop_last() =~= h.subrange(0, start - 1));
}

proof fn lemma_prepend_step(cs: Seq<Turn>, lo: int, i: int, x: Seq<char>)
    requires
        0 <= lo < i <= cs.len(),
    ensures
        prepend_lines(cs.subrange(lo, i), x) == prepend_lines(
            cs.subrange(lo, i - 1),
            cs[i - 1].content + line_break() + x,
        ),
{
    assert(cs.subrange(lo, i).drop_last() =~= cs.subrange(lo, i - 1));
}

proof fn lemma_merge_adjacent_shape(s: Seq<Turn>)
    ensures
        roles_alternate(merge_adjacent(s)),
        s.len() > 0 ==> merge_adjacent(s).len() > 0 && merge_adjacent(s).last().role
            == s.last().role,
        merge_adjacent(s).len() <= s.len(),
    decreases s.len(),
{
    if s.len() > 0 {
        lemma_merge_adjacent_shape(s.drop_last());
        let p = merge_adjacent(s.drop_last());
        let r = merge_adjacent(s);
        assert forall|i: int| 0 <= i < r.len() - 1 implies #[trigger] r[i].role != r[i + 1].role by {
            if i < p.len() - 1 {
                assert(p[i].role != p[i + 1].role);
            }
        }
    }
}

proof fn lemma_without_breaks_add(a: Seq<char>, b: Seq<char>)
    ensures
        without_breaks(a + b) == without_breaks(a) + without_breaks(b),
{
    Seq::filter_distributes_over_add(a, b, |c: char| c != '\n');
}

proof fn lemma_separators_vanish()
    ensures
        without_breaks(line_break()) == Seq::<char>::empty(),
        without_breaks(blank_line()) == Seq::<char>::empty(),
{
    reveal_with_fuel(Seq::filter, 3);
    assert(line_break().drop_last() =~= Seq::<char>::empty());
    assert(blank_line().drop_last() =~= line_break());
    assert(without_breaks(line_break()) =~= Seq::<char>::empty());
    assert(without_breaks(blank_line()) =~= Seq::<char>::empty());
}

proof fn lemma_text_of_add(a: Seq<Turn>, b: Seq<Turn>)
    ensures
        text_of(a + b) == text_of(a) + text_of(b),
    decreases b.len(),
{
    if b.len() == 0 {
        assert(a + b =~= a);
        assert(text_of(a) + text_of(b) =~= text_of(a));
    } else {
        lemma_text_of_add(a, b.drop_last());
        assert((a + b).drop_last() =~= a + b.drop_last());
        assert(text_of(a + b) =~= text_of(a) + text_of(b));
    }
}

proof fn lemma_merge_adjacent_text(s: Seq<Turn>)
    ensures
        without_breaks(text_of(merge_adjacent(s))) == without_breaks(text_of(s)),
    decreases s.len(),
{
    if s.len() > 0 {
        lemma_merge_adjacent_text(s.drop_last());
        lemma_merge_adjacent_shape(s.drop_last());
        let p = merge_adjacent(s.drop_last());
        let t = s.last();
        lemma_separators_vanish();
        if p.len() > 0 && p.last().role == t.role {
            let q = p.update(p.len() - 1, Turn { role: t.role, content: p.last().content + blank_line() + t.content });
            assert(q.drop_last() =~= p.drop_last());
            lemma_without_breaks_add(text_of(p.drop_last()), p.last().content + blank_line() + t.content);
            lemma_without_breaks_add(p.last().content + blank_line(), t.content);
            lemma_without_breaks_add(p.last().content, blank_line());
            lemma_without_breaks_add(text_of(p.drop_last()), p.last().content);
            lemma_without_breaks_add(text_of(p), t.content);
            lemma_without_breaks_add(text_of(s.drop_last()), t.content);
            assert(without_breaks(text_of(q)) =~= without_breaks(text_of(s)));
        } else {
            assert(p.push(t).drop_last() =~= p);
            lemma_without_breaks_add(text_of(p), t.content);
            lemma_without_breaks_add(text_of(s.drop_last()), t.content);
        }
    }
}

proof fn lemma_prepend_lines_text(cs: Seq<Turn>, x: Seq<char>)
    ensures
        without_breaks(prepend_lines(cs, x)) == without_breaks(text_of(cs) + x),
    decreases cs.len(),
{
    if cs.len() > 0 {
        let y = cs.last().content + line_break() + x;
        lemma_prepend_lines_text(cs.drop_last(), y);
        lemma_separators_vanish();
        lemma_without_breaks_add(text_of(cs.drop_last()), y);
        lemma_without_breaks_add(cs.last().content + line_break(), x);
        lemma_without_breaks_add(cs.last().content, line_break());
        lemma_without_breaks_add(text_of(cs), x);
        lemma_without_breaks_add(text_of(cs.drop_last()), cs.last().content);
        assert(without_breaks(line_break()) + without_breaks(x) =~= without_breaks(x));
        assert(without_breaks(cs.last().content) + Seq::<char>::empty() =~= without_breaks(cs.last().content));
        assert(without_breaks(prepend_lines(cs, x)) =~= without_breaks(text_of(cs) + x));
    }
}

/// Normalized output never holds two neighbouring turns of one role.
pub proof fn lemma_normalized_roles_alternate(h: Seq<Turn>, incoming: Turn)
    ensures
        roles_alternate(normalized(h, incoming)),
{
    lemma_merge_adjacent_shape(fold_incoming(h, incoming));
}

/// Normalization drops no content: with line breaks taken out, the contents
/// of the output, in order, are those of the history followed by the
/// incoming turn's.
pub proof fn lemma_normalization_keeps_content(h: Seq<Turn>, incoming: Turn)
    ensures
        without_breaks(text_of(normalized(h, incoming))) == without_breaks(
            text_of(h) + incoming.content,
        ),
{
    let k = folded_count(h, incoming);
    lemma_trailing_count_bound(h);
    let n = h.len() as int;
    let pre = h.subrange(0, n - k);
    let tail = h.subrange(n - k, n);
    let folded = fold_incoming(h, incoming);
    lemma_merge_adjacent_text(folded);
    assert(folded.drop_last() =~= pre);
    assert(pre + tail =~= h);
    lemma_text_of_add(pre, tail);
    lemma_prepend_lines_text(tail, incoming.content);
    lemma_without_breaks_add(text_of(pre), prepend_lines(tail, incoming.content));
    lemma_without_breaks_add(text_of(pre), text_of(tail) + incoming.content);
    assert(text_of(pre) + (text_of(tail) + incoming.content) =~= text_of(h) + incoming.content);
}

/// When the incoming turn and exactly the last `k` stored turns have the
/// user role, those `k` turns and the incoming one leave as one user turn at
/// the end: their contents, each followed by a line break, then the incoming
/// content. The turns before them are merged on their own, and the output
/// ends in exactly one user turn.
pub proof fn lemma_trailing_user_turns_fold(h: Seq<Turn>, incoming: Turn, k: int)
    requires
        incoming.role == user_role(),
        0 <= k <= h.len(),
        forall|j: int| h.len() - k <= j < h.len() ==> #[trigger] h[j].role == user_role(),
        k < h.len() ==> h[h.len() - k - 1].role != user_role(),
    ensures
        normalized(h, incoming) == merge_adjacent(h.subrange(0, h.len() - k)).push(
            Turn {
                role: user_role(),
                content: prepend_lines(h.subrange(h.len() - k, h.len() as int), incoming.content),
            },
        ),
        trailing_user_count(normalized(h, incoming)) == 1,
{
    let n = h.len() as int;
    lemma_trailing_count_run(h, k, 0);
    lemma_trailing_count_run(h, k, k);
    assert(h.subrange(0, n) =~= h);
    let pre = h.subrange(0, n - k);
    let folded = fold_incoming(h, incoming);
    assert(folded.drop_last() =~= pre);
    lemma_merge_adjacent_shape(pre);
    let out = normalized(h, incoming);
    assert(out.drop_last() =~= merge_adjacent(pre));
    if pre.len() > 0 {
        assert(pre.last() == h[n - k - 1]);
    }
    assert(trailing_user_count(merge_adjacent(pre)) == 0);
    assert(out.last().role == user_role());
}

proof fn lemma_trailing_count_run(h: Seq<Turn>, k: int, j: int)
    requires
        0 <= j <= k <= h.len(),
        forall|i: int| h.len() - k <= i < h.len() ==> #[trigger] h[i].role == user_role(),
        k < h.len() ==> h[h.len() - k - 1].role != user_role(),
    ensures
        trailing_user_count(h.subrange(0, h.len() - j)) == k - j,
    decreases k - j,
{
    let n = h.len() as int;
    if j == k {
        if n - k > 0 {
            assert(h.subrange(0, n - k).last() == h[n - k - 1]);
        }
    } else {
        lemma_trailing_count_run(h, k, j + 1);
        assert(h.subrange(0, n - j).drop_last() =~= h.subrange(0, n - j - 1));
        assert(h.subrange(0, n - j).last() == h[n - j - 1]);
    }
}

proof fn lemma_merge_adjacent_head(s: Seq<Turn>)
    requires
        s.len() >= 2,
        s[0].role != s[1].role,
    ensures
        merge_adjacent(s).len() >= 2,
        merge_adjacent(s)[0] == s[0],
    decreases s.len(),
{
    let d = s.drop_last();
    if s.len() == 2 {
        assert(d.drop_last().len() == 0);
        assert(merge_adjacent(d.drop_last()).len() == 0);
        assert(d.last() == s[0]);
        assert(merge_adjacent(d) =~= merge_adjacent(d.drop_last()).push(d.last()));
        assert(merge_adjacent(d) =~= seq![s[0]]);
    } else {
        lemma_merge_adjacent_head(d);
    }
}

proof fn lemma_trailing_count_below_head(h: Seq<Turn>)
    requires
        h.len() > 0,
        h[0].role != user_role(),
    ensures
        trailing_user_count(h) < h.len(),
    decreases h.len(),
{
    if h.len() > 1 && h.last().role == user_role() {
        lemma_trailing_count_below_head(h.drop_last());
    }
}

/// A transcript whose first turn is a system turn with prompt `p`, and no
/// other system turn, still starts with exactly that turn once normalized.
/// This holds unless the history is that turn alone and the incoming turn
/// has the system role too.
pub proof fn lemma_system_turn_leads(h: Seq<Turn>, p: Seq<char>, incoming: Turn)
    requires
        forall|i: int| 0 <= i < h.len() ==> (#[trigger] h[i]).role != system_role(),
        h.len() > 0 || incoming.role != system_role(),
    ensures
        normalized(seq![(Turn { role: system_role(), content: p })] + h, incoming)[0]
            == (Turn { role: system_role(), content: p }),
{
    let first = Turn { role: system_role(), content: p };
    let full = seq![first] + h;
    assert(full[0] == first);
    assert(system_role() != user_role()) by {
        assert(system_role()[0] != user_role()[0]);
    }
    lemma_trailing_count_below_head(full);
    let k = folded_count(full, incoming);
    let n = full.len() as int;
    let folded = fold_incoming(full, incoming);
    assert(folded[0] == first);
    if n - k >= 2 {
        assert(folded[1] == full[1]);
        assert(full[1] == h[0]);
    } else {
        assert(folded[1].role == incoming.role);
        if h.len() > 0 {
            assert(k == h.len());
            assert(incoming.role == user_role());
        }
    }
    lemma_merge_adjacent_head(folded);
}

/// Index of the first stored turn that is folded into the incoming turn.
fn folded_start(history: &Vec<MessageData>, incoming: &MessageData) -> (r: usize)
    ensures
        r == history@.len() - folded_count(turns_of(history@), incoming@),
{
    let ghost h = turns_of(history@);
    let user = String::from_str("user");
    proof {
        reveal_strlit("user");
        assert(user@ =~= user_role());
    }
    let mut start: usize = history.len();
    if incoming.role == user {
        assert(h.subrange(0, h.len() as int) =~= h);
        while start > 0 && history[start - 1].role == user
            invariant
                start <= history@.len(),
                h == turns_of(history@),
                user@ == user_role(),
                trailing_user_count(h) == trailing_user_count(h.subrange(0, start as int)) + (
                history@.len() - start),
            decreases start,
        {
            proof {
                lemma_trailing_step(h, start as int);
            }
            start = start - 1;
        }
        assert(trailing_user_count(h.subrange(0, start as int)) == 0) by {
            if start > 0 {
                assert(h.subrange(0, start as int).last() == h[start - 1]);
            }
        }
    }
    start
}

/// Steps one and two of normalization: the trailing user turns of `history`
/// are folded, each followed by a line break, in front of an incoming user
/// turn; the other stored turns come first, unchanged.
pub fn fold_incoming_turn(history: &Vec<MessageData>, incoming: &MessageData) -> (r: Vec<
    MessageData,
>)
    ensures
        turns_of(r@) == fold_incoming(turns_of(history@), incoming@),
{
    let ghost h = turns_of(history@);
    let start = folded_start(history, incoming);
    let mut merged = incoming.content.clone();
    let mut i: usize = history.len();
    proof {
        reveal_strlit("\n");
        assert("\n"@ =~= line_break());
    }
    while i > start
        invariant
            start <= i <= history@.len(),
            h == turns_of(history@),
            "\n"@ == line_break(),
            prepend_lines(h.subrange(start as int, history@.len() as int), incoming@.content)
                == prepend_lines(h.subrange(start as int, i as int), merged@),
        decreases i,
    {
        proof {
            lemma_prepend_step(h, start as int, i as int, merged@);
        }
        let mut next = history[i - 1].content.clone();
        next.append("\n");
        next.append(merged.as_str());
        assert(h[i - 1].content == history@[i - 1].content@);
        merged = next;
        i = i - 1;
    }
    assert(h.subrange(start as int, start as int) =~= Seq::<Turn>::empty());
    let mut out: Vec<MessageData> = Vec::new();
    let mut j: usize = 0;
    while j < start
        invariant
            j <= start <= history@.len(),
            h == turns_of(history@),
            turns_of(out@) =~= h.subrange(0, j as int),
        decreases start - j,
    {
        let item = MessageData { role: history[j].role.clone(), content: history[j].content.clone() };
        assert(item@ == h[j as int]);
        proof {
            lemma_turns_of_push(out@, item);
        }
        out.push(item);
        assert(turns_of(out@) =~= h.subrange(0, j + 1));
        j = j + 1;
    }
    let last = MessageData { role: incoming.role.clone(), content: merged };
    proof {
        lemma_turns_of_push(out@, last);
    }
    out.push(last);
    assert(turns_of(out@) =~= fold_incoming(h, incoming@));
    out
}

/// Step three of normalization: each turn whose role equals that of the last
/// kept turn is appended to it after a blank line.
pub fn merge_same_role_neighbors(turns: &Vec<MessageData>) -> (r: Vec<MessageData>)
    ensures
        turns_of(r@) == merge_adjacent(turns_of(turns@)),
{
    let ghost s = turns_of(turns@);
    let mut out: Vec<MessageData> = Vec::new();
    let mut i: usize = 0;
    proof {
        reveal_strlit("\n\n");
        assert("\n\n"@ =~= blank_line());
        assert(s.subrange(0, 0).len() == 0);
    }
    while i < turns.len()
        invariant
            i <= turns@.len(),
            s == turns_of(turns@),
            "\n\n"@ == blank_line(),
            turns_of(out@) == merge_adjacent(s.subrange(0, i as int)),
        decreases turns@.len() - i,
    {
        assert(s.subrange(0, i + 1).drop_last() =~= s.subrange(0, i as int));
        let m = &turns[i];
        assert(m@ == s[i as int]);
        if out.len() > 0 && out[out.len() - 1].role == m.role {
            let last = out.len() - 1;
            let mut content = out[last].content.clone();
            content.append("\n\n");
            content.append(m.content.as_str());
            let item = MessageData { role: m.role.clone(), content };
            proof {
                lemma_turns_of_update(out@, last as int, item);
            }
            out.set(last, item);
        } else {
            let item = MessageData { role: m.role.clone(), content: m.content.clone() };
            proof {
                lemma_turns_of_push(out@, item);
            }
            out.push(item);
        }
        assert(turns_of(out@) =~= merge_adjacent(s.subrange(0, i + 1)));
        i = i + 1;
    }
    assert(s.subrange(0, turns@.len() as int) =~= s);
    out
}

/// Turns stored history and one incoming turn into the list sent to the
/// completion endpoint: trailing user turns are folded into an incoming user
/// turn, then neighbouring turns of one role are merged.
pub fn normalize_transcript(history: &Vec<MessageData>, incoming: &MessageData) -> (r: Vec<
    MessageData,
>)
    ensures
        turns_of(r@) == normalized(turns_of(history@), incoming@),
{
    let raw = fold_incoming_turn(history, incoming);
    merge_same_role_neighbors(&raw)
}

} // verus!
