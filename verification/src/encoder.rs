//! The message turn encoder: from a conversation to the turns sent on the
//! wire.
//!
//! Adjacent `ToolCall` and `Status` messages form a merge group. The encoder
//! walks the conversation from the left. It gathers the merge group that
//! stands at its position, which may be empty, and always sends it as two
//! turns: an assistant turn with the group's assistant texts joined, then a
//! tool turn with its tool texts joined. The plain message that ended the
//! group follows as a turn of its own, and the walk goes on behind it. So a
//! pair of turns stands before every plain message and at the very end, with
//! empty texts where no merge group stood.

use vstd::prelude::*;
use crate::message::{conversation_view, turns_view, Message, MessageView, Role, TurnView, WireTurn};

verus! {

/// How many messages at the head of `messages` belong to a merge group.
pub open spec fn run_length(messages: Seq<MessageView>) -> nat
    decreases messages.len(),
{
    if messages.len() > 0 && messages[0].merges() {
        1 + run_length(messages.skip(1))
    } else {
        0
    }
}

/// The assistant texts of `messages`, joined in order.
pub open spec fn assistant_texts(messages: Seq<MessageView>) -> Seq<char>
    decreases messages.len(),
{
    if messages.len() == 0 {
        Seq::empty()
    } else {
        assistant_texts(messages.drop_last()) + messages.last().assistant_text()
    }
}

/// The tool texts of `messages`, joined in order.
pub open spec fn tool_texts(messages: Seq<MessageView>) -> Seq<char>
    decreases messages.len(),
{
    if messages.len() == 0 {
        Seq::empty()
    } else {
        tool_texts(messages.drop_last()) + messages.last().tool_text()
    }
}

/// The two turns a merge group is sent as.
pub open spec fn merged_pair(group: Seq<MessageView>) -> Seq<TurnView> {
    seq![
        TurnView { role: Role::Assistant, content: assistant_texts(group) },
        TurnView { role: Role::Tool, content: tool_texts(group) },
    ]
}

/// The turns a conversation is sent as.
pub open spec fn encoded(messages: Seq<MessageView>) -> Seq<TurnView>
    decreases messages.len(),
{
    let n: int = run_length(messages) as int;
    if n >= messages.len() {
        merged_pair(messages)
    } else {
        merged_pair(messages.take(n)) + seq![messages[n].plain_turn()] + encoded(
            messages.skip(n + 1),
        )
    }
}

/// How many messages of `messages` are plain, that is, outside any merge
/// group.
pub open spec fn plain_count(messages: Seq<MessageView>) -> nat
    decreases messages.len(),
{
    if messages.len() == 0 {
        0
    } else {
        plain_count(messages.drop_last()) + if messages.last().merges() {
            0nat
        } else {
            1nat
        }
    }
}

/// A stretch of merge messages that ends at the conversation's end or at a
/// plain message is the whole merge group at the head.
pub proof fn lemma_run_length(messages: Seq<MessageView>, n: int)
    requires
        0 <= n <= messages.len(),
        forall|k: int| 0 <= k < n ==> (#[trigger] messages[k]).merges(),
        n < messages.len() ==> !messages[n].merges(),
    ensures
        run_length(messages) == n,
    decreases n,
{
    if n > 0 {
        let rest = messages.skip(1);
        assert forall|k: int| 0 <= k < n - 1 implies (#[trigger] rest[k]).merges() by {
            assert(rest[k] == messages[k + 1]);
        }
        lemma_run_length(rest, n - 1);
    }
}

/// The merge group at the head holds merge messages only and ends at the
/// conversation's end or at a plain message.
pub proof fn lemma_run_length_bounds(messages: Seq<MessageView>)
    ensures
        run_length(messages) <= messages.len(),
        forall|k: int| 0 <= k < run_length(messages) ==> (#[trigger] messages[k]).merges(),
        run_length(messages) < messages.len() ==> !messages[run_length(messages) as int].merges(),
    decreases messages.len(),
{
    if messages.len() > 0 && messages[0].merges() {
        let rest = messages.skip(1);
        lemma_run_length_bounds(rest);
        assert forall|k: int| 0 <= k < run_length(messages) implies (
        #[trigger] messages[k]).merges() by {
            if k > 0 {
                assert(messages[k] == rest[k - 1]);
            }
        }
        if run_length(messages) < messages.len() {
            assert(messages[run_length(messages) as int] == rest[run_length(rest) as int]);
        }
    }
}

/// Counting plain messages goes piece by piece.
pub proof fn lemma_plain_count_concat(first: Seq<MessageView>, second: Seq<MessageView>)
    ensures
        plain_count(first + second) == plain_count(first) + plain_count(second),
    decreases second.len(),
{
    if second.len() == 0 {
        assert(first + second =~= first);
    } else {
        assert((first + second).drop_last() =~= first + second.drop_last());
        lemma_plain_count_concat(first, second.drop_last());
    }
}

/// A stretch of merge messages holds no plain message.
pub proof fn lemma_plain_count_of_group(group: Seq<MessageView>)
    requires
        forall|k: int| 0 <= k < group.len() ==> (#[trigger] group[k]).merges(),
    ensures
        plain_count(group) == 0,
    decreases group.len(),
{
    if group.len() > 0 {
        lemma_plain_count_of_group(group.drop_last());
    }
}

/// A conversation is sent as three turns for each of its plain messages and
/// two more at the end.
pub proof fn lemma_turn_count(messages: Seq<MessageView>)
    ensures
        encoded(messages).len() == 3 * plain_count(messages) + 2,
    decreases messages.len(),
{
    let n: int = run_length(messages) as int;
    lemma_run_length_bounds(messages);
    if n >= messages.len() {
        lemma_plain_count_of_group(messages);
    } else {
        let head = messages.take(n);
        let one = seq![messages[n]];
        let rest = messages.skip(n + 1);
        lemma_turn_count(rest);
        assert(messages =~= head + one + rest);
        lemma_plain_count_concat(head + one, rest);
        lemma_plain_count_concat(head, one);
        lemma_plain_count_of_group(head);
        assert(one.drop_last() =~= Seq::<MessageView>::empty());
        assert(plain_count(one.drop_last()) == 0);
        assert(one.last() == messages[n]);
    }
}

/// The turns of a conversation without any `ToolCall` or `Status` message.
///
/// Turn `t` is an assistant turn with an empty text where `t` is a multiple
/// of three, a tool turn with an empty text one place later, and the turn of
/// plain message `t / 3` one place later still.
pub open spec fn plain_encoding(messages: Seq<MessageView>) -> Seq<TurnView> {
    Seq::new(
        3 * messages.len() + 2,
        |t: int|
            if t % 3 == 0 {
                TurnView { role: Role::Assistant, content: Seq::empty() }
            } else if t % 3 == 1 {
                TurnView { role: Role::Tool, content: Seq::empty() }
            } else {
                messages[t / 3].plain_turn()
            },
    )
}

/// A conversation that holds no `ToolCall` and no `Status` message is sent
/// with an empty assistant turn and an empty tool turn, in that order,
/// right before the turn of every message and once more at the end, and
/// with nothing else.
pub proof fn lemma_plain_conversation(messages: Seq<MessageView>)
    requires
        forall|k: int| 0 <= k < messages.len() ==> !(#[trigger] messages[k]).merges(),
    ensures
        encoded(messages) == plain_encoding(messages),
    decreases messages.len(),
{
    assert(merged_pair(Seq::<MessageView>::empty()) =~= seq![
        TurnView { role: Role::Assistant, content: Seq::empty() },
        TurnView { role: Role::Tool, content: Seq::empty() },
    ]);
    if messages.len() == 0 {
        assert(messages =~= Seq::<MessageView>::empty());
        assert(encoded(messages) =~= plain_encoding(messages));
    } else {
        let rest = messages.skip(1);
        assert(!messages[0].merges());
        assert(messages.take(0) =~= Seq::<MessageView>::empty());
        assert forall|k: int| 0 <= k < rest.len() implies !(#[trigger] rest[k]).merges() by {
            assert(rest[k] == messages[k + 1]);
        }
        lemma_plain_conversation(rest);
        let turns = encoded(messages);
        let expected = plain_encoding(messages);
        assert forall|t: int| 0 <= t < turns.len() implies turns[t] == expected[t] by {
            if t >= 3 {
                assert(turns[t] == plain_encoding(rest)[t - 3]);
                assert((t - 3) % 3 == t % 3);
                assert((t - 3) / 3 == t / 3 - 1);
                if t % 3 == 2 {
                    assert(rest[(t - 3) / 3] == messages[t / 3]);
                }
            }
        }
    }
}

/// A merge group is sent as exactly one assistant turn and one tool turn.
///
/// Let messages `i` up to, not including, `j` be a whole merge group: all of
/// them `ToolCall` or `Status`, with a plain message or the conversation's
/// edge on either side. Three turns are sent for every plain message before
/// the group. Then comes the assistant turn with the group's assistant texts
/// joined in order, and directly after it the tool turn with its tool texts
/// joined in order. The turn before the two is that of the plain message
/// before the group, and the turn after them that of the plain message
/// behind it; where the conversation ends with the group, so do the turns.
pub proof fn lemma_merge_group(messages: Seq<MessageView>, i: int, j: int)
    requires
        0 <= i <= j <= messages.len(),
        forall|k: int| i <= k < j ==> (#[trigger] messages[k]).merges(),
        i > 0 ==> !messages[i - 1].merges(),
        j < messages.len() ==> !messages[j].merges(),
    ensures
        ({
            let at: int = 3 * (plain_count(messages.take(i)) as int);
            let turns = encoded(messages);
            let group = messages.subrange(i, j);
            &&& at + 2 <= turns.len()
            &&& turns[at] == TurnView { role: Role::Assistant, content: assistant_texts(group) }
            &&& turns[at + 1] == TurnView { role: Role::Tool, content: tool_texts(group) }
            &&& i > 0 ==> at >= 3 && turns[at - 1] == messages[i - 1].plain_turn()
            &&& j < messages.len() ==> at + 2 < turns.len() && turns[at + 2]
                == messages[j].plain_turn()
            &&& j == messages.len() ==> turns.len() == at + 2
        }),
    decreases messages.len(),
{
    let n: int = run_length(messages) as int;
    lemma_run_length_bounds(messages);
    let turns = encoded(messages);
    let group = messages.subrange(i, j);
    if i == 0 {
        lemma_run_length(messages, j);
        assert(messages.take(0) =~= Seq::<MessageView>::empty());
        if j == messages.len() {
            assert(group =~= messages);
        } else {
            assert(group =~= messages.take(n));
        }
    } else {
        assert(n <= i - 1) by {
            if n > i - 1 {
                assert(messages[i - 1].merges());
            }
        }
        let rest = messages.skip(n + 1);
        let ri: int = i - n - 1;
        let rj: int = j - n - 1;
        assert forall|k: int| ri <= k < rj implies (#[trigger] rest[k]).merges() by {
            assert(rest[k] == messages[k + n + 1]);
        }
        if ri > 0 {
            assert(rest[ri - 1] == messages[i - 1]);
        }
        if rj < rest.len() {
            assert(rest[rj] == messages[j]);
        }
        lemma_merge_group(rest, ri, rj);
        let at: int = 3 * (plain_count(messages.take(i)) as int);
        let rest_at: int = 3 * (plain_count(rest.take(ri)) as int);
        let head = messages.take(n);
        let one = seq![messages[n]];
        assert(at == rest_at + 3) by {
            assert(messages.take(i) =~= head + one + rest.take(ri));
            lemma_plain_count_concat(head + one, rest.take(ri));
            lemma_plain_count_concat(head, one);
            lemma_plain_count_of_group(head);
            assert(one.drop_last() =~= Seq::<MessageView>::empty());
            assert(plain_count(one.drop_last()) == 0);
            assert(one.last() == messages[n]);
        }
        assert(rest.subrange(ri, rj) =~= group);
        let tail = encoded(rest);
        assert(turns == merged_pair(head) + seq![messages[n].plain_turn()] + tail);
        assert(turns.len() == 3 + tail.len());
        assert(turns[2] == messages[n].plain_turn());
        assert(turns[at] == tail[rest_at]);
        assert(turns[at + 1] == tail[rest_at + 1]);
        if ri > 0 {
            assert(turns[at - 1] == tail[rest_at - 1]);
        }
        if j < messages.len() {
            assert(turns[at + 2] == tail[rest_at + 2]);
        }
    }
}

/// The turns of one message of a merge group, if `message` is one: its
/// assistant text and its tool text.
fn merge_texts(message: &Message) -> (texts: Option<(&String, &String)>)
    ensures
        texts is Some <==> message@.merges(),
        texts matches Some((assistant, tool)) ==> assistant@ == message@.assistant_text() && tool@
            == message@.tool_text(),
{
    match message {
        Message::ToolCall(assistant, tool) => Some((assistant, tool)),
        Message::Status(assistant, tool) => Some((assistant, tool)),
        _ => None,
    }
}

/// The turn of a plain message; `None` for a message of a merge group.
fn plain_turn(message: &Message) -> (turn: Option<WireTurn>)
    ensures
        turn is Some <==> !message@.merges(),
        turn matches Some(t) ==> t@ == message@.plain_turn(),
{
    match message {
        Message::System(text) => Some(WireTurn { role: Role::System, content: text.clone() }),
        Message::User(text) => Some(WireTurn { role: Role::User, content: text.clone() }),
        Message::Assistant(text) => Some(
            WireTurn { role: Role::Assistant, content: text.clone() },
        ),
        _ => None,
    }
}

/// Encodes a conversation as the turns to send, in order.
pub fn serialize_messages(messages: &Vec<Message>) -> (turns: Vec<WireTurn>)
    ensures
        turns_view(turns@) == encoded(conversation_view(messages@)),
{
    let ghost conversation = conversation_view(messages@);
    let mut turns: Vec<WireTurn> = Vec::new();
    let mut i: usize = 0;
    assert(conversation.skip(0) =~= conversation);
    loop
        invariant_except_break
            i <= messages.len(),
            turns_view(turns@) + encoded(conversation.skip(i as int)) == encoded(conversation),
        invariant
            conversation == conversation_view(messages@),
            conversation.len() == messages.len(),
        ensures
            turns_view(turns@) == encoded(conversation),
        decreases messages.len() - i,
    {
        let ghost start = i as int;
        let ghost sent = turns_view(turns@);
        let mut assistant = String::new();
        let mut tool = String::new();
        while i < messages.len()
            invariant
                0 <= start <= i <= messages.len(),
                conversation == conversation_view(messages@),
                conversation.len() == messages.len(),
                forall|k: int| start <= k < i ==> (#[trigger] conversation[k]).merges(),
                assistant@ == assistant_texts(conversation.subrange(start, i as int)),
                tool@ == tool_texts(conversation.subrange(start, i as int)),
            ensures
                i < messages.len() ==> !conversation[i as int].merges(),
            decreases messages.len() - i,
        {
            assert(messages[i as int]@ == conversation[i as int]);
            match merge_texts(&messages[i]) {
                Some((a, t)) => {
                    assert(conversation.subrange(start, i + 1).drop_last()
                        =~= conversation.subrange(start, i as int));
                    assistant.append(a.as_str());
                    tool.append(t.as_str());
                    i += 1;
                },
                None => {
                    break ;
                },
            }
        }
        proof {
            let rest = conversation.skip(start);
            assert forall|k: int| 0 <= k < i - start implies (#[trigger] rest[k]).merges() by {
                assert(rest[k] == conversation[start + k]);
            }
            lemma_run_length(rest, i - start);
            assert(rest.take(i - start) =~= conversation.subrange(start, i as int));
            if i < messages.len() {
                assert(rest.skip(i - start + 1) =~= conversation.skip(i + 1));
            } else {
                assert(rest =~= conversation.subrange(start, i as int));
            }
        }
        let ghost group = conversation.subrange(start, i as int);
        turns.push(WireTurn { role: Role::Assistant, content: assistant });
        turns.push(WireTurn { role: Role::Tool, content: tool });
        if i >= messages.len() {
            assert(turns_view(turns@) =~= sent + merged_pair(group));
            break ;
        }
        assert(messages[i as int]@ == conversation[i as int]);
        // The message that ended the group is plain, so it has a turn.
        if let Some(turn) = plain_turn(&messages[i]) {
            turns.push(turn);
        }
        assert(turns_view(turns@) =~= sent + (merged_pair(group) + seq![
            conversation[i as int].plain_turn(),
        ]));
        i += 1;
    }
    turns
}

} // verus!
