//! Properties that span the library's functions: what the text layout always
//! looks like, what the tree measures, and what every step of the interface
//! keeps.
use vstd::prelude::*;

use crate::app::{
    AppModel, CommandModel, EventModel, FOLLOW_BOTTOM, Key, conversation_selection, ends_with_reply,
    event_step, extend_last, find_conversation_from, initial_model, key_step, selections_in_range,
    submit_step, tree_selection,
};
use crate::tree::{
    branch_glyph, count_children, find_id, find_id_from, fork_depth,
};
use crate::app::{chat_lines_of, message_lines, messages_rows, rows_of_lines, wrapped_rows};
use crate::types::{ConfigModel, DEFAULT_CONVERSATION, Focus, MessageModel, NodeModel, Role};
use crate::text::{
    is_space, trim, trim_end, trim_start, chunks_of, collapse_blank_runs, drop_blank_tail, is_blank, lemma_chunks_reassemble,
    normalize_lines, stream_chunks,
};

verus! {

/// The lines shown for a message have the shape the chat view promises.
pub open spec fn well_spaced(r: Seq<Seq<char>>) -> bool {
    &&& forall|i: int| 0 <= i < r.len() && is_blank(#[trigger] r[i]) ==> r[i].len() == 0
    &&& forall|i: int|
        0 <= i < r.len() - 1 ==> !(is_blank(#[trigger] r[i]) && is_blank(r[i + 1]))
}

proof fn lemma_collapse_shape(ls: Seq<Seq<char>>, prev_blank: bool)
    ensures
        well_spaced(collapse_blank_runs(ls, prev_blank)),
        prev_blank && collapse_blank_runs(ls, prev_blank).len() > 0 ==> !is_blank(
            collapse_blank_runs(ls, prev_blank)[0],
        ),
    decreases ls.len(),
{
    if ls.len() > 0 {
        let rest = ls.drop_first();
        let r = collapse_blank_runs(ls, prev_blank);
        if is_blank(ls[0]) {
            lemma_collapse_shape(rest, true);
            let tail = collapse_blank_runs(rest, true);
            if prev_blank {
                assert(r =~= tail);
            } else {
                let empty = Seq::<char>::empty();
                assert(r =~= seq![empty] + tail);
                assert forall|i: int| 0 <= i < r.len() - 1 implies !(is_blank(#[trigger] r[i])
                    && is_blank(r[i + 1])) by {
                    if i > 0 {
                        assert(r[i] == tail[i - 1]);
                        assert(r[i + 1] == tail[i]);
                    } else {
                        assert(r[1] == tail[0]);
                    }
                }
                assert forall|i: int| 0 <= i < r.len() && is_blank(#[trigger] r[i]) implies r[i].len()
                    == 0 by {
                    if i > 0 {
                        assert(r[i] == tail[i - 1]);
                    }
                }
            }
        } else {
            lemma_collapse_shape(rest, false);
            let tail = collapse_blank_runs(rest, false);
            assert(r =~= seq![ls[0]] + tail);
            assert forall|i: int| 0 <= i < r.len() - 1 implies !(is_blank(#[trigger] r[i])
                && is_blank(r[i + 1])) by {
                if i > 0 {
                    assert(r[i] == tail[i - 1]);
                    assert(r[i + 1] == tail[i]);
                }
            }
            assert forall|i: int| 0 <= i < r.len() && is_blank(#[trigger] r[i]) implies r[i].len()
                == 0 by {
                if i > 0 {
                    assert(r[i] == tail[i - 1]);
                }
            }
        }
    }
}

proof fn lemma_drop_blank_tail_prefix(r: Seq<Seq<char>>)
    ensures
        drop_blank_tail(r).len() <= r.len(),
        drop_blank_tail(r) == r.take(drop_blank_tail(r).len() as int),
        drop_blank_tail(r).len() > 0 ==> !is_blank(drop_blank_tail(r).last()),
    decreases r.len(),
{
    if r.len() > 0 && is_blank(r.last()) {
        lemma_drop_blank_tail_prefix(r.drop_last());
        let d = drop_blank_tail(r.drop_last());
        assert(r.drop_last().take(d.len() as int) =~= r.take(d.len() as int));
    } else {
        assert(r.take(r.len() as int) =~= r);
    }
}

/// The lines the chat view shows for a text: a blank line is always empty,
/// no two blank lines follow each other, and the last line is not blank.
pub proof fn lemma_normalized_lines_shape(text: Seq<char>)
    ensures
        well_spaced(normalize_lines(text)),
        normalize_lines(text).len() > 0 ==> !is_blank(normalize_lines(text).last()),
{
    let c = collapse_blank_runs(crate::text::lines(text), false);
    lemma_collapse_shape(crate::text::lines(text), false);
    lemma_drop_blank_tail_prefix(c);
    let r = normalize_lines(text);
    assert forall|i: int| 0 <= i < r.len() - 1 implies !(is_blank(#[trigger] r[i]) && is_blank(
        r[i + 1],
    )) by {
        assert(r[i] == c[i]);
        assert(r[i + 1] == c[i + 1]);
    }
    assert forall|i: int| 0 <= i < r.len() && is_blank(#[trigger] r[i]) implies r[i].len() == 0 by {
        assert(r[i] == c[i]);
    }
}

/// Replaying a reply piece by piece gives back the reply, and every piece
/// holds between one and `chunk_size` characters (one when `chunk_size` is
/// zero), all but the last exactly that many.
pub proof fn lemma_stream_chunks_reassemble(text: Seq<char>, chunk_size: nat)
    ensures
        stream_chunks(text, chunk_size).flatten() == text,
        forall|i: int|
            0 <= i < stream_chunks(text, chunk_size).len() ==> 0 < #[trigger] stream_chunks(
                text,
                chunk_size,
            )[i].len() <= (if chunk_size == 0 {
                1
            } else {
                chunk_size
            }),
        forall|i: int|
            0 <= i < stream_chunks(text, chunk_size).len() - 1 ==> #[trigger] stream_chunks(
                text,
                chunk_size,
            )[i].len() == (if chunk_size == 0 {
                1
            } else {
                chunk_size
            }),
{
    let size: nat = if chunk_size == 0 {
        1
    } else {
        chunk_size
    };
    lemma_chunks_reassemble(text, size);
    assert(stream_chunks(text, chunk_size) == chunks_of(text, size));
}


/// No node has more children than there are nodes.
pub proof fn lemma_child_count_bounded(nodes: Seq<NodeModel>, parent: Seq<char>)
    ensures
        count_children(nodes, parent) <= nodes.len(),
    decreases nodes.len(),
{
    if nodes.len() > 0 {
        lemma_child_count_bounded(nodes.drop_last(), parent);
    }
}

proof fn lemma_find_id_from_range(nodes: Seq<NodeModel>, id: Seq<char>, from: int)
    requires
        0 <= from,
    ensures
        from <= find_id_from(nodes, id, from) <= nodes.len() || find_id_from(nodes, id, from)
            == nodes.len(),
        find_id_from(nodes, id, from) < nodes.len() ==> nodes[find_id_from(nodes, id, from)].id
            == id,
    decreases nodes.len() - from,
{
    if from < nodes.len() && nodes[from].id != id {
        lemma_find_id_from_range(nodes, id, from + 1);
    }
}

proof fn lemma_fork_depth_bounded(nodes: Seq<NodeModel>, parent: Option<Seq<char>>, traversed: nat)
    requires
        traversed < nodes.len(),
    ensures
        fork_depth(nodes, parent, traversed) <= nodes.len() - traversed,
    decreases nodes.len() - traversed,
{
    if let Some(id) = parent {
        let k = find_id(nodes, id);
        if k < nodes.len() && traversed + 1 < nodes.len() {
            lemma_fork_depth_bounded(nodes, nodes[k].parent_id, traversed + 1);
        }
    }
}

/// However the parent links are tangled, even in a cycle, the depth of a
/// node is at most the number of nodes.
pub proof fn lemma_branch_depth_bounded(nodes: Seq<NodeModel>, node: NodeModel)
    ensures
        fork_depth(nodes, node.parent_id, 0) <= nodes.len(),
{
    if nodes.len() > 0 {
        lemma_fork_depth_bounded(nodes, node.parent_id, 0);
    } else {
        if let Some(id) = node.parent_id {
            assert(find_id(nodes, id) == 0);
        }
    }
}

/// No message has two replies.
pub open spec fn is_linear(nodes: Seq<NodeModel>) -> bool {
    forall|p: Seq<char>| #[trigger] count_children(nodes, p) <= 1
}

proof fn lemma_linear_depth_zero(nodes: Seq<NodeModel>, parent: Option<Seq<char>>, traversed: nat)
    requires
        is_linear(nodes),
    ensures
        fork_depth(nodes, parent, traversed) == 0,
    decreases nodes.len() - traversed,
{
    if let Some(id) = parent {
        let k = find_id(nodes, id);
        if k < nodes.len() {
            assert(count_children(nodes, nodes[k].id) <= 1);
            if traversed + 1 < nodes.len() {
                lemma_linear_depth_zero(nodes, nodes[k].parent_id, traversed + 1);
            }
        }
    }
}

/// A conversation without forks is drawn flat: no node is indented and
/// every branch glyph is blank.
pub proof fn lemma_linear_tree_is_flat(nodes: Seq<NodeModel>, index: int, node: NodeModel)
    requires
        is_linear(nodes),
    ensures
        fork_depth(nodes, node.parent_id, 0) == 0,
        branch_glyph(nodes, index, node) == "  "@,
{
    lemma_linear_depth_zero(nodes, node.parent_id, 0);
    if let Some(p) = node.parent_id {
        assert(count_children(nodes, p) <= 1);
    }
}

/// The interface starts with its selections in range.
pub proof fn lemma_initial_selections(config: ConfigModel)
    ensures
        selections_in_range(initial_model(config)),
{
}

proof fn lemma_conversation_selection_range(cs: Seq<crate::types::ConversationModel>, id: Seq<char>)
    ensures
        conversation_selection(cs, id) < cs.len() || conversation_selection(cs, id) == 0,
{
    lemma_find_conversation_from_range(cs, id, 0);
}

proof fn lemma_find_conversation_from_range(
    cs: Seq<crate::types::ConversationModel>,
    id: Seq<char>,
    from: int,
)
    requires
        0 <= from,
    ensures
        from <= find_conversation_from(cs, id, from) || find_conversation_from(cs, id, from)
            == cs.len(),
    decreases cs.len() - from,
{
    if from < cs.len() && cs[from].id != id {
        lemma_find_conversation_from_range(cs, id, from + 1);
    }
}

proof fn lemma_tree_selection_range(nodes: Seq<NodeModel>, leaf: Option<Seq<char>>)
    ensures
        tree_selection(nodes, leaf) < nodes.len() || tree_selection(nodes, leaf) == 0,
{
    if let Some(id) = leaf {
        lemma_find_id_from_range(nodes, id, 0);
    }
}

/// Every key keeps each selection inside its list.
pub proof fn lemma_key_keeps_selections(s: AppModel, key: Key, max_scroll: u16)
    requires
        selections_in_range(s),
    ensures
        selections_in_range(key_step(s, key, max_scroll).0),
{
}

/// Every server event keeps each selection inside its list.
pub proof fn lemma_event_keeps_selections(s: AppModel, e: EventModel)
    requires
        selections_in_range(s),
    ensures
        selections_in_range(event_step(s, e).0),
{
    match e {
        EventModel::ConversationsLoaded(cs) => {
            lemma_conversation_selection_range(cs, s.conversation_id);
        },
        EventModel::HistoryLoaded { tree, path } => {
            lemma_tree_selection_range(tree.messages, tree.conversation.active_leaf_id);
        },
        _ => {},
    }
}

/// Only `Esc` stops the interface.
pub proof fn lemma_only_escape_quits(s: AppModel, key: Key, max_scroll: u16)
    ensures
        key_step(s, key, max_scroll).1 <==> key != Key::Esc,
{
}

/// While a request is in flight, `Enter` starts nothing and changes nothing.
pub proof fn lemma_busy_enter_is_ignored(s: AppModel, max_scroll: u16)
    requires
        s.status != crate::types::AppStatus::Ready,
        s.status != crate::types::AppStatus::Error,
    ensures
        key_step(s, Key::Enter, max_scroll) == (s, true, None::<CommandModel>),
        submit_step(s) == (s, None::<CommandModel>),
{
}

/// Input that is empty once trimmed sends nothing and changes nothing.
pub proof fn lemma_blank_input_sends_nothing(s: AppModel)
    requires
        crate::text::trim(s.input).len() == 0,
    ensures
        submit_step(s) == (s, None::<CommandModel>),
{
}

/// Replies from the server never touch what is being typed, nor the
/// configuration shown.
pub proof fn lemma_events_keep_input(s: AppModel, e: EventModel)
    ensures
        event_step(s, e).0.input == s.input,
        event_step(s, e).0.config == s.config,
{
}

/// No key ever asks the server to delete the default conversation.
pub proof fn lemma_default_conversation_is_kept(s: AppModel, key: Key, max_scroll: u16)
    ensures
        key_step(s, key, max_scroll).2 != Some(
            CommandModel::DeleteConversation(DEFAULT_CONVERSATION@),
        ),
{
}

/// In the input box, `Backspace` takes back the character just typed.
pub proof fn lemma_backspace_undoes_typing(s: AppModel, c: char, max_scroll: u16)
    requires
        s.focus == Focus::Input,
    ensures
        key_step(key_step(s, Key::Char(c), max_scroll).0, Key::Backspace, max_scroll).0 == s,
{
    assert(s.input.push(c).drop_last() =~= s.input);
    assert(key_step(key_step(s, Key::Char(c), max_scroll).0, Key::Backspace, max_scroll).0 =~= s);
}

/// Scrolling the chat down never goes past the last scroll position.
pub proof fn lemma_scroll_down_bounded(s: AppModel, max_scroll: u16)
    requires
        s.focus == Focus::Chat,
    ensures
        key_step(s, Key::Down, max_scroll).0.chat_scroll <= max_scroll,
        key_step(s, Key::PageDown, max_scroll).0.chat_scroll <= max_scroll,
{
}

/// The state after the pieces of a reply arrive one by one.
pub open spec fn replay_chunks(s: AppModel, pieces: Seq<Seq<char>>) -> AppModel
    decreases pieces.len(),
{
    if pieces.len() == 0 {
        s
    } else {
        replay_chunks(event_step(s, EventModel::AssistantChunk(pieces[0])).0, pieces.drop_first())
    }
}

proof fn lemma_replay_extends(s: AppModel, pieces: Seq<Seq<char>>)
    requires
        ends_with_reply(s.messages),
    ensures
        replay_chunks(s, pieces).messages == extend_last(s.messages, pieces.flatten()),
    decreases pieces.len(),
{
    let ms = s.messages;
    if pieces.len() == 0 {
        assert(ms.last().text + Seq::<char>::empty() =~= ms.last().text);
        assert(extend_last(ms, pieces.flatten()) =~= ms);
    } else {
        let next = event_step(s, EventModel::AssistantChunk(pieces[0])).0;
        assert(next.messages == extend_last(ms, pieces[0]));
        assert(ends_with_reply(next.messages));
        lemma_replay_extends(next, pieces.drop_first());
        assert(ms.last().text + pieces[0] + pieces.drop_first().flatten() =~= ms.last().text
            + pieces.flatten());
        assert(extend_last(next.messages, pieces.drop_first().flatten()) =~= extend_last(
            ms,
            pieces.flatten(),
        ));
    }
}

/// A message sent from the input box is followed, once its reply has been
/// streamed back piece by piece, by exactly that reply.
pub proof fn lemma_sent_message_gets_reply(s: AppModel, reply: Seq<char>, chunk_size: nat)
    requires
        submit_step(s).1 matches Some(CommandModel::ChatStream { .. }),
    ensures
        ({
            let sent = submit_step(s).0;
            let text = crate::text::trim(s.input);
            &&& replay_chunks(sent, stream_chunks(reply, chunk_size)).messages == s.messages.push(
                MessageModel { role: Role::User, text },
            ).push(MessageModel { role: Role::Assistant, text: reply })
            &&& stream_chunks(reply, chunk_size).len() > 0 ==> replay_chunks(
                sent,
                stream_chunks(reply, chunk_size),
            ).chat_scroll == FOLLOW_BOTTOM
        }),
{
    let sent = submit_step(s).0;
    let text = crate::text::trim(s.input);
    let pieces = stream_chunks(reply, chunk_size);
    assert(sent.messages == s.messages.push(MessageModel { role: Role::User, text }).push(
        MessageModel { role: Role::Assistant, text: seq![] },
    ));
    lemma_replay_extends(sent, pieces);
    lemma_stream_chunks_reassemble(reply, chunk_size);
    assert(Seq::<char>::empty() + reply =~= reply);
    assert(extend_last(sent.messages, reply) =~= s.messages.push(
        MessageModel { role: Role::User, text },
    ).push(MessageModel { role: Role::Assistant, text: reply }));
    if pieces.len() > 0 {
        lemma_replay_scroll(sent, pieces);
    }
}

proof fn lemma_replay_scroll(s: AppModel, pieces: Seq<Seq<char>>)
    requires
        pieces.len() > 0,
    ensures
        replay_chunks(s, pieces).chat_scroll == FOLLOW_BOTTOM,
    decreases pieces.len(),
{
    let next = event_step(s, EventModel::AssistantChunk(pieces[0])).0;
    assert(replay_chunks(s, pieces) == replay_chunks(next, pieces.drop_first()));
    if pieces.len() > 1 {
        lemma_replay_scroll(next, pieces.drop_first());
    }
}


/// The branch glyph of a node: blank when it has no parent or is its
/// parent's only child; otherwise a tee exactly when a node at any later
/// position has the same parent, and a corner when none does.
pub proof fn lemma_branch_glyph_marks_later_siblings(
    nodes: Seq<NodeModel>,
    index: int,
    node: NodeModel,
    p: Seq<char>,
)
    ensures
        node.parent_id is None ==> branch_glyph(nodes, index, node) == "  "@,
        node.parent_id == Some(p) && count_children(nodes, p) <= 1 ==> branch_glyph(
            nodes,
            index,
            node,
        ) == "  "@,
        node.parent_id == Some(p) && count_children(nodes, p) > 1 ==> (branch_glyph(
            nodes,
            index,
            node,
        ) == "├─"@ <==> exists|j: int|
            index < j < nodes.len() && #[trigger] nodes[j].parent_id == Some(p)),
        node.parent_id == Some(p) && count_children(nodes, p) > 1 ==> (branch_glyph(
            nodes,
            index,
            node,
        ) == "└─"@ <==> !exists|j: int|
            index < j < nodes.len() && #[trigger] nodes[j].parent_id == Some(p)),
{
    reveal_strlit("├─");
    reveal_strlit("└─");
    reveal_strlit("  ");
    assert("├─"@ != "└─"@) by {
        assert("├─"@[0] != "└─"@[0]);
    }
}

/// The lines of `ls` that are not blank, in order.
pub open spec fn non_blank_lines(ls: Seq<Seq<char>>) -> Seq<Seq<char>>
    decreases ls.len(),
{
    if ls.len() == 0 {
        seq![]
    } else if is_blank(ls[0]) {
        non_blank_lines(ls.drop_first())
    } else {
        seq![ls[0]] + non_blank_lines(ls.drop_first())
    }
}

proof fn lemma_non_blank_concat(a: Seq<Seq<char>>, b: Seq<Seq<char>>)
    ensures
        non_blank_lines(a + b) == non_blank_lines(a) + non_blank_lines(b),
    decreases a.len(),
{
    if a.len() == 0 {
        assert(a + b =~= b);
        assert(non_blank_lines(a) + non_blank_lines(b) =~= non_blank_lines(b));
    } else {
        lemma_non_blank_concat(a.drop_first(), b);
        assert((a + b).drop_first() =~= a.drop_first() + b);
        assert((a + b)[0] == a[0]);
        if !is_blank(a[0]) {
            assert(seq![a[0]] + (non_blank_lines(a.drop_first()) + non_blank_lines(b)) =~= (seq![
                a[0],
            ] + non_blank_lines(a.drop_first())) + non_blank_lines(b));
        }
    }
}

proof fn lemma_collapse_keeps_text_lines(ls: Seq<Seq<char>>, prev_blank: bool)
    ensures
        non_blank_lines(collapse_blank_runs(ls, prev_blank)) == non_blank_lines(ls),
    decreases ls.len(),
{
    if ls.len() > 0 {
        let rest = ls.drop_first();
        if is_blank(ls[0]) {
            lemma_collapse_keeps_text_lines(rest, true);
            let head: Seq<Seq<char>> = if prev_blank {
                seq![]
            } else {
                seq![Seq::<char>::empty()]
            };
            lemma_non_blank_concat(head, collapse_blank_runs(rest, true));
            if !prev_blank {
                assert(is_blank(Seq::<char>::empty()));
                assert(head.drop_first() =~= Seq::<Seq<char>>::empty());
                assert(non_blank_lines(head) == non_blank_lines(head.drop_first()));
            }
            assert(non_blank_lines(head) =~= Seq::<Seq<char>>::empty());
            assert(Seq::<Seq<char>>::empty() + non_blank_lines(collapse_blank_runs(rest, true))
                =~= non_blank_lines(collapse_blank_runs(rest, true)));
        } else {
            lemma_collapse_keeps_text_lines(rest, false);
            let r = collapse_blank_runs(ls, prev_blank);
            assert(r =~= seq![ls[0]] + collapse_blank_runs(rest, false));
            assert(r.drop_first() =~= collapse_blank_runs(rest, false));
            assert(r[0] == ls[0]);
        }
    }
}

proof fn lemma_drop_blank_tail_keeps_text_lines(r: Seq<Seq<char>>)
    ensures
        non_blank_lines(drop_blank_tail(r)) == non_blank_lines(r),
    decreases r.len(),
{
    if r.len() > 0 && is_blank(r.last()) {
        lemma_drop_blank_tail_keeps_text_lines(r.drop_last());
        lemma_non_blank_concat(r.drop_last(), seq![r.last()]);
        assert(r.drop_last() + seq![r.last()] =~= r);
        let one = seq![r.last()];
        assert(one.drop_first() =~= Seq::<Seq<char>>::empty());
        assert(one[0] == r.last());
        assert(non_blank_lines(one.drop_first()) =~= Seq::<Seq<char>>::empty());
        assert(non_blank_lines(one) == non_blank_lines(one.drop_first()));
        assert(non_blank_lines(one) =~= Seq::<Seq<char>>::empty());
        assert(non_blank_lines(r.drop_last()) + Seq::<Seq<char>>::empty() =~= non_blank_lines(
            r.drop_last(),
        ));
    }
}

/// Normalising a text for the chat view removes only blank lines: its
/// non-blank lines, in order and with repeats, are exactly those of the text.
pub proof fn lemma_normalized_lines_keep_text(text: Seq<char>)
    ensures
        non_blank_lines(normalize_lines(text)) == non_blank_lines(crate::text::lines(text)),
{
    let ls = crate::text::lines(text);
    lemma_collapse_keeps_text_lines(ls, false);
    lemma_drop_blank_tail_keeps_text_lines(collapse_blank_runs(ls, false));
}

proof fn lemma_collapse_no_blanks(ls: Seq<Seq<char>>, prev_blank: bool)
    requires
        forall|i: int| 0 <= i < ls.len() ==> !is_blank(#[trigger] ls[i]),
    ensures
        collapse_blank_runs(ls, prev_blank) == ls,
    decreases ls.len(),
{
    if ls.len() > 0 {
        assert(!is_blank(ls[0]));
        let rest = ls.drop_first();
        assert forall|i: int| 0 <= i < rest.len() implies !is_blank(#[trigger] rest[i]) by {
            assert(rest[i] == ls[i + 1]);
        }
        lemma_collapse_no_blanks(rest, false);
        assert(seq![ls[0]] + rest =~= ls);
    }
}

/// A text without blank lines is shown line for line.
pub proof fn lemma_normalized_lines_without_blanks(text: Seq<char>)
    requires
        forall|i: int|
            0 <= i < crate::text::lines(text).len() ==> !is_blank(
                #[trigger] crate::text::lines(text)[i],
            ),
    ensures
        normalize_lines(text) == crate::text::lines(text),
{
    let ls = crate::text::lines(text);
    lemma_collapse_no_blanks(ls, false);
    if ls.len() > 0 {
        assert(!is_blank(ls[ls.len() - 1]));
    }
}

/// A chat message typed in the input box is the trimmed input, and it goes
/// to the conversation that is open; `/clear` clears that same conversation.
pub proof fn lemma_messages_go_to_the_open_conversation(s: AppModel, key: Key, max_scroll: u16)
    ensures
        submit_step(s).1 matches Some(CommandModel::ChatStream { message, conversation_id }) ==> {
            &&& conversation_id == s.conversation_id
            &&& message == crate::text::trim(s.input)
        },
        submit_step(s).1 matches Some(CommandModel::ClearHistory(id)) ==> id == s.conversation_id,
        key_step(s, key, max_scroll).2 matches Some(
            CommandModel::ChatStream { message, conversation_id },
        ) ==> {
            &&& conversation_id == s.conversation_id
            &&& message == crate::text::trim(s.input)
            &&& s.focus == Focus::Input
        },
        key_step(s, key, max_scroll).2 matches Some(CommandModel::ClearHistory(id)) ==> id
            == s.conversation_id,
        key_step(s, key, max_scroll).2 matches Some(
            CommandModel::SwitchBranch { conversation_id, .. },
        ) ==> conversation_id == s.conversation_id,
{
}

/// A sent chat message is recorded as the user's line, followed by an empty
/// line for the reply.
pub proof fn lemma_sent_message_is_recorded(s: AppModel)
    ensures
        submit_step(s).1 matches Some(CommandModel::ChatStream { message, .. }) ==> {
            &&& submit_step(s).0.messages.len() == s.messages.len() + 2
            &&& submit_step(s).0.messages[s.messages.len() as int] == MessageModel {
                role: Role::User,
                text: message,
            }
            &&& submit_step(s).0.messages.last() == MessageModel {
                role: Role::Assistant,
                text: seq![],
            }
            &&& submit_step(s).0.messages.take(s.messages.len() as int) == s.messages
        },
{
    if let Some(CommandModel::ChatStream { message, .. }) = submit_step(s).1 {
        assert(submit_step(s).0.messages.take(s.messages.len() as int) =~= s.messages);
    }
}

/// When a reply is done the client reloads the conversation it is in, and
/// every history load an event asks for names the conversation the view is
/// about to show.
pub proof fn lemma_history_reload_targets(s: AppModel, e: EventModel)
    ensures
        event_step(s, EventModel::AssistantDone).1 == seq![
            CommandModel::LoadHistory(s.conversation_id),
        ],
        event_step(s, EventModel::AssistantDone).0.conversation_id == s.conversation_id,
        forall|i: int|
            0 <= i < event_step(s, e).1.len() && (#[trigger] event_step(s, e).1[i] is LoadHistory)
                ==> event_step(s, e).1[i] == CommandModel::LoadHistory(
                event_step(s, e).0.conversation_id,
            ),
{
}

/// `Enter` in the conversation list opens the highlighted conversation, and
/// does so exactly when the interface is idle and something is highlighted;
/// `Enter` in the tree switches to the highlighted message of the open
/// conversation under the same condition.
pub proof fn lemma_enter_opens_the_highlighted_entry(s: AppModel, max_scroll: u16)
    ensures
        s.focus == Focus::Conversations ==> {
            &&& (key_step(s, Key::Enter, max_scroll).2 is Some <==> (
            crate::types::status_interactive(s.status) && s.selected_conversation_index
                < s.conversations.len()))
            &&& key_step(s, Key::Enter, max_scroll).2 matches Some(c) ==> c
                == CommandModel::LoadHistory(
                s.conversations[s.selected_conversation_index as int].id,
            )
        },
        s.focus == Focus::Tree ==> {
            &&& (key_step(s, Key::Enter, max_scroll).2 is Some <==> (
            crate::types::status_interactive(s.status) && s.selected_tree_index
                < s.tree_nodes.len()))
            &&& key_step(s, Key::Enter, max_scroll).2 matches Some(c) ==> c
                == (CommandModel::SwitchBranch {
                conversation_id: s.conversation_id,
                message_id: s.tree_nodes[s.selected_tree_index as int].id,
            })
        },
{
}


/// Counting children adds up over consecutive runs of nodes, and a single
/// node counts once exactly when its parent is `parent`: together these fix
/// the count as the number of nodes naming `parent`.
pub proof fn lemma_child_count_adds_up(a: Seq<NodeModel>, b: Seq<NodeModel>, parent: Seq<char>)
    ensures
        count_children(a + b, parent) == count_children(a, parent) + count_children(b, parent),
        a.len() == 1 ==> count_children(a, parent) == (if a[0].parent_id == Some(parent) {
            1nat
        } else {
            0nat
        }),
    decreases b.len(),
{
    if a.len() == 1 {
        assert(a.drop_last() =~= Seq::<NodeModel>::empty());
        assert(count_children(a.drop_last(), parent) == 0);
        assert(a.last() == a[0]);
    }
    if b.len() == 0 {
        assert(a + b =~= a);
    } else {
        lemma_child_count_adds_up(a, b.drop_last(), parent);
        assert((a + b).drop_last() =~= a + b.drop_last());
        assert((a + b).last() == b.last());
    }
}

/// A message has a child exactly when some node names it as parent, and
/// several children exactly when two different nodes do.
pub proof fn lemma_child_count_meaning(nodes: Seq<NodeModel>, parent: Seq<char>)
    ensures
        count_children(nodes, parent) > 0 <==> exists|j: int|
            0 <= j < nodes.len() && #[trigger] nodes[j].parent_id == Some(parent),
        count_children(nodes, parent) > 1 <==> exists|i: int, j: int|
            0 <= i < j < nodes.len() && #[trigger] nodes[i].parent_id == Some(parent)
                && #[trigger] nodes[j].parent_id == Some(parent),
    decreases nodes.len(),
{
    if nodes.len() > 0 {
        let init = nodes.drop_last();
        lemma_child_count_meaning(init, parent);
        let last = nodes.len() - 1;
        if count_children(nodes, parent) > 0 {
            if count_children(init, parent) > 0 {
                let j = choose|j: int| 0 <= j < init.len() && #[trigger] init[j].parent_id == Some(parent);
                assert(nodes[j] == init[j]);
            } else {
                assert(nodes[last].parent_id == Some(parent));
            }
        }
        if exists|j: int| 0 <= j < nodes.len() && #[trigger] nodes[j].parent_id == Some(parent) {
            let j = choose|j: int| 0 <= j < nodes.len() && #[trigger] nodes[j].parent_id == Some(parent);
            if j < last {
                assert(init[j] == nodes[j]);
            }
        }
        if count_children(nodes, parent) > 1 {
            if count_children(init, parent) > 1 {
                let (i, j) = choose|i: int, j: int|
                    0 <= i < j < init.len() && #[trigger] init[i].parent_id == Some(parent)
                        && #[trigger] init[j].parent_id == Some(parent);
                assert(nodes[i] == init[i] && nodes[j] == init[j]);
            } else {
                let i = choose|i: int| 0 <= i < init.len() && #[trigger] init[i].parent_id == Some(parent);
                assert(nodes[i] == init[i]);
                assert(nodes[last].parent_id == Some(parent));
            }
        }
        if exists|i: int, j: int|
            0 <= i < j < nodes.len() && #[trigger] nodes[i].parent_id == Some(parent)
                && #[trigger] nodes[j].parent_id == Some(parent) {
            let (i, j) = choose|i: int, j: int|
                0 <= i < j < nodes.len() && #[trigger] nodes[i].parent_id == Some(parent)
                    && #[trigger] nodes[j].parent_id == Some(parent);
            assert(init[i] == nodes[i]);
            if j < last {
                assert(init[j] == nodes[j]);
            }
        }
    }
}

/// Position `k` holds the first node whose id is `id`.
pub open spec fn first_with_id(nodes: Seq<NodeModel>, id: Seq<char>, k: int) -> bool {
    &&& 0 <= k < nodes.len()
    &&& nodes[k].id == id
    &&& forall|j: int| 0 <= j < k ==> #[trigger] nodes[j].id != id
}

/// `ks` lists, nearest first, the positions of the ancestors reached by
/// following parent ids from a node whose parent is `parent` (each id
/// resolved to the first node carrying it), until a node without parent or
/// with a parent id that no node carries.
pub open spec fn is_ancestor_chain(nodes: Seq<NodeModel>, parent: Option<Seq<char>>, ks: Seq<int>) -> bool
    decreases ks.len(),
{
    if ks.len() == 0 {
        match parent {
            None => true,
            Some(id) => forall|j: int| 0 <= j < nodes.len() ==> #[trigger] nodes[j].id != id,
        }
    } else {
        match parent {
            None => false,
            Some(id) => first_with_id(nodes, id, ks[0]) && is_ancestor_chain(
                nodes,
                nodes[ks[0]].parent_id,
                ks.drop_first(),
            ),
        }
    }
}

/// How many of the listed ancestors have more than one child.
pub open spec fn forks_among(nodes: Seq<NodeModel>, ks: Seq<int>) -> nat
    decreases ks.len(),
{
    if ks.len() == 0 {
        0
    } else {
        (if count_children(nodes, nodes[ks[0]].id) > 1 {
            1nat
        } else {
            0nat
        }) + forks_among(nodes, ks.drop_first())
    }
}

proof fn lemma_first_is_found(nodes: Seq<NodeModel>, id: Seq<char>, from: int)
    requires
        0 <= from <= nodes.len(),
    ensures
        from <= find_id_from(nodes, id, from) <= nodes.len(),
        find_id_from(nodes, id, from) < nodes.len() ==> nodes[find_id_from(nodes, id, from)].id
            == id,
        forall|j: int| from <= j < find_id_from(nodes, id, from) ==> #[trigger] nodes[j].id != id,
    decreases nodes.len() - from,
{
    if from < nodes.len() && nodes[from].id != id {
        lemma_first_is_found(nodes, id, from + 1);
    }
}

proof fn lemma_depth_counts_forks_from(
    nodes: Seq<NodeModel>,
    parent: Option<Seq<char>>,
    ks: Seq<int>,
    traversed: nat,
)
    requires
        is_ancestor_chain(nodes, parent, ks),
        traversed + ks.len() <= nodes.len(),
    ensures
        fork_depth(nodes, parent, traversed) == forks_among(nodes, ks),
    decreases ks.len(),
{
    if let Some(id) = parent {
        lemma_first_is_found(nodes, id, 0);
        let k = find_id(nodes, id);
        if ks.len() == 0 {
            if k < nodes.len() {
                assert(nodes[k].id != id);
            }
        } else {
            assert(first_with_id(nodes, id, ks[0]));
            if k < ks[0] {
                assert(nodes[k].id != id);
            }
            if ks[0] < k {
                assert(nodes[ks[0]].id != id);
            }
            assert(k == ks[0]);
            if traversed + 1 < nodes.len() {
                lemma_depth_counts_forks_from(
                    nodes,
                    nodes[k].parent_id,
                    ks.drop_first(),
                    traversed + 1,
                );
            } else {
                assert(ks.drop_first().len() == 0);
                assert(forks_among(nodes, ks.drop_first()) == 0);
            }
            assert(forks_among(nodes, ks) == (if count_children(nodes, nodes[ks[0]].id) > 1 {
                1nat
            } else {
                0nat
            }) + forks_among(nodes, ks.drop_first()));
        }
    }
}

/// The indentation of a node is the number of its ancestors that have more
/// than one child, found by following parent ids up to the root (or to a
/// missing parent), provided the walk is no longer than the list of nodes.
pub proof fn lemma_depth_counts_forked_ancestors(nodes: Seq<NodeModel>, node: NodeModel, ks: Seq<int>)
    requires
        is_ancestor_chain(nodes, node.parent_id, ks),
        ks.len() <= nodes.len(),
    ensures
        fork_depth(nodes, node.parent_id, 0) == forks_among(nodes, ks),
{
    lemma_depth_counts_forks_from(nodes, node.parent_id, ks, 0);
}


/// For each non-blank line, in order, whether a blank line stands between it
/// and the previous non-blank line (or the start, for the first one).
pub open spec fn gap_flags(ls: Seq<Seq<char>>, seen_blank: bool) -> Seq<bool>
    decreases ls.len(),
{
    if ls.len() == 0 {
        seq![]
    } else if is_blank(ls[0]) {
        gap_flags(ls.drop_first(), true)
    } else {
        seq![seen_blank] + gap_flags(ls.drop_first(), false)
    }
}

proof fn lemma_collapse_keeps_gaps(ls: Seq<Seq<char>>, prev_blank: bool)
    ensures
        gap_flags(collapse_blank_runs(ls, prev_blank), prev_blank) == gap_flags(ls, prev_blank),
    decreases ls.len(),
{
    if ls.len() > 0 {
        let rest = ls.drop_first();
        let r = collapse_blank_runs(ls, prev_blank);
        if is_blank(ls[0]) {
            lemma_collapse_keeps_gaps(rest, true);
            let c = collapse_blank_runs(rest, true);
            if prev_blank {
                assert(r =~= c);
            } else {
                let e = Seq::<char>::empty();
                assert(r =~= seq![e] + c);
                assert(is_blank(r[0]));
                assert(r.drop_first() =~= c);
            }
        } else {
            lemma_collapse_keeps_gaps(rest, false);
            let c = collapse_blank_runs(rest, false);
            assert(r =~= seq![ls[0]] + c);
            assert(r[0] == ls[0]);
            assert(r.drop_first() =~= c);
        }
    }
}

proof fn lemma_gaps_ignore_trailing_blank(r: Seq<Seq<char>>, seen_blank: bool)
    requires
        r.len() > 0,
        is_blank(r.last()),
    ensures
        gap_flags(r, seen_blank) == gap_flags(r.drop_last(), seen_blank),
    decreases r.len(),
{
    if r.len() == 1 {
        assert(r.drop_first() =~= Seq::<Seq<char>>::empty());
        assert(r.drop_last() =~= Seq::<Seq<char>>::empty());
        assert(r[0] == r.last());
        assert(gap_flags(r.drop_first(), true) =~= Seq::<bool>::empty());
        assert(gap_flags(r, seen_blank) =~= Seq::<bool>::empty());
        assert(gap_flags(r.drop_last(), seen_blank) =~= Seq::<bool>::empty());
    } else {
        let tail = r.drop_first();
        assert(tail.last() == r.last());
        assert(tail.drop_last() =~= r.drop_last().drop_first());
        assert(r.drop_last()[0] == r[0]);
        if is_blank(r[0]) {
            lemma_gaps_ignore_trailing_blank(tail, true);
            assert(gap_flags(r, seen_blank) == gap_flags(tail, true));
            assert(gap_flags(r.drop_last(), seen_blank) == gap_flags(
                r.drop_last().drop_first(),
                true,
            ));
        } else {
            lemma_gaps_ignore_trailing_blank(tail, false);
            assert(gap_flags(r, seen_blank) == seq![seen_blank] + gap_flags(tail, false));
            assert(gap_flags(r.drop_last(), seen_blank) == seq![seen_blank] + gap_flags(
                r.drop_last().drop_first(),
                false,
            ));
        }
    }
}

proof fn lemma_drop_blank_tail_keeps_gaps(r: Seq<Seq<char>>, seen_blank: bool)
    ensures
        gap_flags(drop_blank_tail(r), seen_blank) == gap_flags(r, seen_blank),
    decreases r.len(),
{
    if r.len() > 0 && is_blank(r.last()) {
        lemma_drop_blank_tail_keeps_gaps(r.drop_last(), seen_blank);
        lemma_gaps_ignore_trailing_blank(r, seen_blank);
    }
}

/// Normalising keeps the paragraph breaks: before each non-blank line there
/// is a blank line in the result exactly when the text has one or more
/// blank lines there.
pub proof fn lemma_normalized_lines_keep_breaks(text: Seq<char>)
    ensures
        gap_flags(normalize_lines(text), false) == gap_flags(crate::text::lines(text), false),
{
    let ls = crate::text::lines(text);
    lemma_collapse_keeps_gaps(ls, false);
    lemma_drop_blank_tail_keeps_gaps(collapse_blank_runs(ls, false), false);
}

/// A line of `len` characters (at least one row even when empty) takes the
/// fewest rows of `width` columns that hold it.
pub proof fn lemma_wrapped_rows_fit(len: nat, width: nat)
    requires
        width >= 1,
    ensures
        ({
            let n: int = if len == 0 {
                1
            } else {
                len as int
            };
            let r = wrapped_rows(len, width) as int;
            &&& r >= 1
            &&& r * width >= n
            &&& (r - 1) * width < n
        }),
{
    let n: int = if len == 0 {
        1
    } else {
        len as int
    };
    let w = width as int;
    let q = n / w;
    let m = n % w;
    vstd::arithmetic::div_mod::lemma_fundamental_div_mod(n, w);
    assert(0 <= m < w) by {
        vstd::arithmetic::div_mod::lemma_mod_bound(n, w);
    }
    assert(q >= 0) by {
        vstd::arithmetic::div_mod::lemma_div_pos_is_pos(n, w);
    }
    let r: int = q + (if m == 0 {
        0int
    } else {
        1int
    });
    assert(r == wrapped_rows(len, width));
    assert(r >= 1 && r * w >= n && (r - 1) * w < n) by (nonlinear_arith)
        requires
            n == w * q + m,
            0 <= m < w,
            q >= 0,
            n >= 1,
            r == q + (if m == 0 {
                0int
            } else {
                1int
            }),
    ;
}

/// The rows of the chat add up message by message, and the rows of one
/// message add up line by line.
pub proof fn lemma_rows_add_up(
    a: Seq<MessageModel>,
    b: Seq<MessageModel>,
    la: Seq<Seq<char>>,
    lb: Seq<Seq<char>>,
    width: usize,
    columns: nat,
)
    ensures
        messages_rows(a + b, width) == messages_rows(a, width) + messages_rows(b, width),
        rows_of_lines(la + lb, columns) == rows_of_lines(la, columns) + rows_of_lines(
            lb,
            columns,
        ),
    decreases b.len() + lb.len(),
{
    if b.len() == 0 {
        assert(a + b =~= a);
    } else {
        lemma_rows_add_up(a, b.drop_last(), la, seq![], width, columns);
        assert((a + b).drop_last() =~= a + b.drop_last());
        assert((a + b).last() == b.last());
    }
    if lb.len() == 0 {
        assert(la + lb =~= la);
    } else {
        lemma_rows_add_up(seq![], seq![], la, lb.drop_last(), width, columns);
        assert((la + lb).drop_last() =~= la + lb.drop_last());
        assert((la + lb).last() == lb.last());
    }
}


proof fn lemma_trim_start_cut(s: Seq<char>)
    ensures
        exists|a: int|
            0 <= a <= s.len() && trim_start(s) == s.skip(a) && (forall|i: int|
                0 <= i < a ==> is_space(#[trigger] s[i])) && (a < s.len() ==> !is_space(s[a])),
    decreases s.len(),
{
    if s.len() > 0 && is_space(s[0]) {
        lemma_trim_start_cut(s.drop_first());
        let t = s.drop_first();
        let a = choose|a: int|
            0 <= a <= t.len() && trim_start(t) == t.skip(a) && (forall|i: int|
                0 <= i < a ==> is_space(#[trigger] t[i])) && (a < t.len() ==> !is_space(t[a]));
        assert(t.skip(a) =~= s.skip(a + 1));
        assert forall|i: int| 0 <= i < a + 1 implies is_space(#[trigger] s[i]) by {
            if i > 0 {
                assert(s[i] == t[i - 1]);
            }
        }
        assert(a + 1 < s.len() ==> s[a + 1] == t[a]);
    } else {
        assert(s.skip(0) =~= s);
    }
}

proof fn lemma_trim_end_cut(s: Seq<char>)
    ensures
        exists|b: int|
            0 <= b <= s.len() && trim_end(s) == s.take(b) && (forall|i: int|
                b <= i < s.len() ==> is_space(#[trigger] s[i])) && (b > 0 ==> !is_space(s[b - 1])),
    decreases s.len(),
{
    if s.len() > 0 && is_space(s.last()) {
        lemma_trim_end_cut(s.drop_last());
        let t = s.drop_last();
        let b = choose|b: int|
            0 <= b <= t.len() && trim_end(t) == t.take(b) && (forall|i: int|
                b <= i < t.len() ==> is_space(#[trigger] t[i])) && (b > 0 ==> !is_space(t[b - 1]));
        assert(t.take(b) =~= s.take(b));
        assert forall|i: int| b <= i < s.len() implies is_space(#[trigger] s[i]) by {
            if i < s.len() - 1 {
                assert(s[i] == t[i]);
            }
        }
        assert(b > 0 ==> s[b - 1] == t[b - 1]);
    } else {
        assert(s.take(s.len() as int) =~= s);
    }
}

/// Trimming keeps one stretch of the text and removes only whitespace
/// around it: what is kept neither starts nor ends with whitespace, and
/// everything cut off is whitespace.
pub proof fn lemma_trim_cuts_whitespace(s: Seq<char>)
    ensures
        exists|a: int, b: int|
            {
                &&& 0 <= a <= b <= s.len()
                &&& trim(s) == s.subrange(a, b)
                &&& forall|i: int| 0 <= i < a ==> is_space(#[trigger] s[i])
                &&& forall|i: int| b <= i < s.len() ==> is_space(#[trigger] s[i])
                &&& a < b ==> !is_space(s[a]) && !is_space(s[b - 1])
            },
{
    lemma_trim_start_cut(s);
    let a = choose|a: int|
        0 <= a <= s.len() && trim_start(s) == s.skip(a) && (forall|i: int|
            0 <= i < a ==> is_space(#[trigger] s[i])) && (a < s.len() ==> !is_space(s[a]));
    let t = s.skip(a);
    lemma_trim_end_cut(t);
    let b = choose|b: int|
        0 <= b <= t.len() && trim_end(t) == t.take(b) && (forall|i: int|
            b <= i < t.len() ==> is_space(#[trigger] t[i])) && (b > 0 ==> !is_space(t[b - 1]));
    assert(t.take(b) =~= s.subrange(a, a + b));
    assert forall|i: int| a + b <= i < s.len() implies is_space(#[trigger] s[i]) by {
        assert(s[i] == t[i - a]);
    }
    if b > 0 {
        assert(s[a] == t[0]);
        assert(s[a + b - 1] == t[b - 1]);
    }
    assert(0 <= a <= a + b <= s.len() && trim(s) == s.subrange(a, a + b));
}


/// The preview of a message is the start of its first line: as much of it
/// as fits in ten characters.
pub proof fn lemma_preview_is_start_of_first_line(content: Seq<char>)
    ensures
        ({
            let ls = crate::text::lines(content);
            let first = if ls.len() > 0 {
                ls[0]
            } else {
                seq![]
            };
            let p = crate::tree::preview_of(content);
            &&& p.len() == (if first.len() <= 10 {
                first.len()
            } else {
                10
            })
            &&& p.is_prefix_of(first)
        }),
{
}

/// In the tree panel exactly the row at the cursor is marked, a row is
/// marked active exactly when its message is the active leaf, the author is
/// the user exactly for role "user", and the indentation is one less than the
/// depth (none at depth zero).
pub proof fn lemma_tree_row_marks(
    nodes: Seq<NodeModel>,
    index: int,
    selected: usize,
    leaf: Option<Seq<char>>,
)
    requires
        0 <= index < nodes.len(),
    ensures
        ({
            let row = crate::tree::tree_row(nodes, index, selected, leaf);
            let depth = fork_depth(nodes, nodes[index].parent_id, 0);
            &&& row.selected <==> index == selected
            &&& row.active <==> leaf == Some(nodes[index].id)
            &&& row.from_user <==> nodes[index].role == "user"@
            &&& row.indent + 1 == depth || (depth == 0 && row.indent == 0)
            &&& row.branch == branch_glyph(nodes, index, nodes[index])
            &&& row.preview == crate::tree::preview_of(nodes[index].content)
        }),
{
}

/// The chat panel lists the messages one after another, and each message as
/// its normalised lines in order, labelled on its first line only.
pub proof fn lemma_chat_lines_follow_messages(a: Seq<MessageModel>, b: Seq<MessageModel>, m: MessageModel)
    ensures
        chat_lines_of(a + b) == chat_lines_of(a) + chat_lines_of(b),
        ({
            let ls = chat_lines_of(seq![m]);
            &&& ls.len() == normalize_lines(m.text).len()
            &&& forall|j: int|
                0 <= j < ls.len() ==> (#[trigger] ls[j]).text == normalize_lines(m.text)[j] && (
                ls[j].first <==> j == 0) && (ls[j].from_user <==> m.role == Role::User)
        }),
    decreases b.len(),
{
    let one = seq![m];
    assert(one.drop_last() =~= Seq::<MessageModel>::empty());
    assert(one.last() == m);
    assert(chat_lines_of(one.drop_last()) =~= Seq::<crate::app::ChatLineModel>::empty());
    assert(chat_lines_of(one) == chat_lines_of(one.drop_last()) + message_lines(m));
    assert(chat_lines_of(one) =~= message_lines(m));
    if b.len() == 0 {
        assert(a + b =~= a);
        assert(chat_lines_of(a) + chat_lines_of(b) =~= chat_lines_of(a));
    } else {
        lemma_chat_lines_follow_messages(a, b.drop_last(), m);
        assert((a + b).drop_last() =~= a + b.drop_last());
        assert((a + b).last() == b.last());
    }
}


proof fn lemma_lines_from_have_no_newline(s: Seq<char>, cur: Seq<char>)
    requires
        !cur.contains('\n'),
    ensures
        forall|i: int|
            0 <= i < crate::text::lines_from(s, cur).len() ==> !(#[trigger] crate::text::lines_from(
                s,
                cur,
            )[i]).contains('\n'),
    decreases s.len(),
{
    let r = crate::text::lines_from(s, cur);
    if s.len() == 0 {
        if cur.len() > 0 {
            assert(r =~= seq![cur]);
            assert forall|i: int| 0 <= i < r.len() implies !(#[trigger] r[i]).contains('\n') by {
                assert(r[i] == cur);
            }
        } else {
            assert(r =~= Seq::<Seq<char>>::empty());
        }
    } else if s[0] == '\n' {
        lemma_lines_from_have_no_newline(s.drop_first(), seq![]);
        let head = crate::text::strip_cr(cur);
        assert(!head.contains('\n')) by {
            if head.contains('\n') {
                let k = choose|k: int| 0 <= k < head.len() && head[k] == '\n';
                assert(cur[k] == head[k]);
            }
        }
        assert(r[0] == head);
        assert forall|i: int| 0 <= i < r.len() implies !(#[trigger] r[i]).contains('\n') by {
            if i > 0 {
                assert(r[i] == crate::text::lines_from(s.drop_first(), seq![])[i - 1]);
            }
        }
    } else {
        let next = cur.push(s[0]);
        assert(!next.contains('\n')) by {
            if next.contains('\n') {
                let k = choose|k: int| 0 <= k < next.len() && next[k] == '\n';
                if k < cur.len() {
                    assert(cur[k] == next[k]);
                }
            }
        }
        lemma_lines_from_have_no_newline(s.drop_first(), next);
        assert(r == crate::text::lines_from(s.drop_first(), next));
    }
}

/// No line of a text holds a line feed.
pub proof fn lemma_lines_hold_no_newline(s: Seq<char>)
    ensures
        forall|i: int|
            0 <= i < crate::text::lines(s).len() ==> !(#[trigger] crate::text::lines(
                s,
            )[i]).contains('\n'),
{
    lemma_lines_from_have_no_newline(s, seq![]);
}

} // verus!
