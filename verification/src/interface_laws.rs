//! Properties of the interface state machine stated over its inputs and
//! results: what each key and each server event may change, and how.
use vstd::prelude::*;

use crate::app::{
    AppModel, CommandModel, EventModel, FOLLOW_BOTTOM, Key, ends_with_reply, event_step,
    find_conversation_from, key_step, submit_step,
};
use crate::tree::find_id_from;
use crate::types::{ConversationModel, MessageModel, NodeModel, PathModel, Role, TreeModel};
use crate::text::trim;
use crate::types::{AppStatus, DEFAULT_CONVERSATION, Focus, status_interactive};

verus! {

/// Only `Enter` in the input box touches the chat, the lists, the open
/// conversation or the configuration; every other key changes the view alone.
pub proof fn lemma_keys_change_only_the_view(s: AppModel, key: Key, max_scroll: u16)
    requires
        !(key == Key::Enter && s.focus == Focus::Input),
    ensures
        ({
            let t = key_step(s, key, max_scroll).0;
            &&& t.messages == s.messages
            &&& t.conversations == s.conversations
            &&& t.tree_nodes == s.tree_nodes
            &&& t.conversation_id == s.conversation_id
            &&& t.conversation_title == s.conversation_title
            &&& t.active_leaf_id == s.active_leaf_id
            &&& t.config == s.config
        }),
{
}

/// Up and Down in the conversation list move the highlight one entry, and
/// stop at either end; nothing else changes.
pub proof fn lemma_conversation_list_moves_by_one(s: AppModel, max_scroll: u16)
    requires
        s.focus == Focus::Conversations,
        s.conversations.len() <= usize::MAX,
    ensures
        ({
            let n = s.conversations.len();
            let i = s.selected_conversation_index;
            let down = key_step(s, Key::Down, max_scroll).0;
            let up = key_step(s, Key::Up, max_scroll).0;
            &&& (i + 1 < n ==> down.selected_conversation_index == i + 1)
            &&& (n > 0 && i + 1 >= n ==> down.selected_conversation_index == n - 1)
            &&& (n == 0 ==> down.selected_conversation_index == i)
            &&& (i > 0 ==> up.selected_conversation_index == i - 1)
            &&& (i == 0 ==> up.selected_conversation_index == 0)
            &&& down == AppModel { selected_conversation_index: down.selected_conversation_index, ..s }
            &&& up == AppModel { selected_conversation_index: up.selected_conversation_index, ..s }
        }),
{
    let down = key_step(s, Key::Down, max_scroll).0;
    let up = key_step(s, Key::Up, max_scroll).0;
    assert(down =~= AppModel { selected_conversation_index: down.selected_conversation_index, ..s });
    assert(up =~= AppModel { selected_conversation_index: up.selected_conversation_index, ..s });
}

/// Up and Down in the tree move the highlight one node, and stop at either
/// end; nothing else changes.
pub proof fn lemma_tree_moves_by_one(s: AppModel, max_scroll: u16)
    requires
        s.focus == Focus::Tree,
        s.tree_nodes.len() <= usize::MAX,
    ensures
        ({
            let n = s.tree_nodes.len();
            let i = s.selected_tree_index;
            let down = key_step(s, Key::Down, max_scroll).0;
            let up = key_step(s, Key::Up, max_scroll).0;
            &&& (i + 1 < n ==> down.selected_tree_index == i + 1)
            &&& (n > 0 && i + 1 >= n ==> down.selected_tree_index == n - 1)
            &&& (n == 0 ==> down.selected_tree_index == i)
            &&& (i > 0 ==> up.selected_tree_index == i - 1)
            &&& (i == 0 ==> up.selected_tree_index == 0)
            &&& down == AppModel { selected_tree_index: down.selected_tree_index, ..s }
            &&& up == AppModel { selected_tree_index: up.selected_tree_index, ..s }
        }),
{
    let down = key_step(s, Key::Down, max_scroll).0;
    let up = key_step(s, Key::Up, max_scroll).0;
    assert(down =~= AppModel { selected_tree_index: down.selected_tree_index, ..s });
    assert(up =~= AppModel { selected_tree_index: up.selected_tree_index, ..s });
}

/// Scrolling the chat: a position that follows the bottom counts as the
/// last one; Up and Down move one row, PageUp and PageDown five, never above
/// the top nor below `max_scroll`; nothing else changes.
pub proof fn lemma_chat_scrolling(s: AppModel, max_scroll: u16)
    requires
        s.focus == Focus::Chat,
    ensures
        ({
            let base: int = if s.chat_scroll == FOLLOW_BOTTOM {
                max_scroll as int
            } else {
                s.chat_scroll as int
            };
            let up = key_step(s, Key::Up, max_scroll).0;
            let down = key_step(s, Key::Down, max_scroll).0;
            let page_up = key_step(s, Key::PageUp, max_scroll).0;
            let page_down = key_step(s, Key::PageDown, max_scroll).0;
            &&& up.chat_scroll == (if base > 0 {
                base - 1
            } else {
                0
            })
            &&& down.chat_scroll == (if base + 1 <= max_scroll {
                base + 1
            } else {
                max_scroll as int
            })
            &&& page_up.chat_scroll == (if s.chat_scroll >= 5 {
                s.chat_scroll - 5
            } else {
                0
            })
            &&& page_down.chat_scroll == (if s.chat_scroll + 5 <= max_scroll {
                s.chat_scroll + 5
            } else {
                max_scroll as int
            })
            &&& up == AppModel { chat_scroll: up.chat_scroll, ..s }
            &&& down == AppModel { chat_scroll: down.chat_scroll, ..s }
            &&& page_up == AppModel { chat_scroll: page_up.chat_scroll, ..s }
            &&& page_down == AppModel { chat_scroll: page_down.chat_scroll, ..s }
        }),
{
}

/// Typing adds the character at the end of the input; Backspace removes
/// the last one, if any; nothing else changes.
pub proof fn lemma_typing_edits_the_end(s: AppModel, c: char, max_scroll: u16)
    requires
        s.focus == Focus::Input,
    ensures
        ({
            let typed = key_step(s, Key::Char(c), max_scroll).0;
            let erased = key_step(s, Key::Backspace, max_scroll).0;
            &&& typed.input.len() == s.input.len() + 1
            &&& typed.input.last() == c
            &&& typed.input.drop_last() == s.input
            &&& (s.input.len() > 0 ==> erased.input.len() == s.input.len() - 1
                && erased.input == s.input.take(s.input.len() - 1))
            &&& (s.input.len() == 0 ==> erased.input == s.input)
            &&& typed == AppModel { input: typed.input, ..s }
            &&& erased == AppModel { input: erased.input, ..s }
        }),
{
    assert(s.input.push(c).drop_last() =~= s.input);
    if s.input.len() > 0 {
        assert(s.input.drop_last() =~= s.input.take(s.input.len() - 1));
    }
}

/// The input box is read only when the interface is idle and the trimmed
/// input is not empty; it is then emptied whatever the text asks for. Every
/// request it starts puts the interface in a busy state, and only a chat
/// message adds lines to the chat.
pub proof fn lemma_submit_reads_and_clears(s: AppModel)
    ensures
        ({
            let (t, c) = submit_step(s);
            &&& (!status_interactive(s.status) || trim(s.input).len() == 0) ==> t == s && c is None
            &&& (status_interactive(s.status) && trim(s.input).len() > 0) ==> t.input.len() == 0
            &&& c is Some ==> !status_interactive(t.status)
            &&& c matches Some(CommandModel::ChatStream { .. }) ==> t.status == AppStatus::Streaming
            &&& (c is Some && !(c matches Some(CommandModel::ChatStream { .. }))) ==> t.status
                == AppStatus::Loading && t.messages == s.messages
            &&& t.conversation_id == s.conversation_id
            &&& t.conversations == s.conversations
            &&& t.tree_nodes == s.tree_nodes
        }),
{
}

/// `/delete` deletes the highlighted conversation, never the default one,
/// and `/use` opens a conversation with a non-empty id.
pub proof fn lemma_submit_targets(s: AppModel)
    ensures
        submit_step(s).1 matches Some(CommandModel::DeleteConversation(id)) ==> {
            &&& s.selected_conversation_index < s.conversations.len()
            &&& id == s.conversations[s.selected_conversation_index as int].id
            &&& id != DEFAULT_CONVERSATION@
        },
        submit_step(s).1 matches Some(CommandModel::LoadHistory(id)) ==> {
            &&& id.len() > 0
            &&& submit_step(s).0.focus == Focus::Input
        },
        submit_step(s).1 matches Some(CommandModel::CreateConversation { workspace_path, .. })
            ==> (workspace_path matches Some(p) ==> p.len() > 0),
{
}


proof fn lemma_find_id_first(nodes: Seq<NodeModel>, id: Seq<char>, from: int)
    requires
        0 <= from <= nodes.len(),
    ensures
        from <= find_id_from(nodes, id, from) <= nodes.len(),
        find_id_from(nodes, id, from) < nodes.len() ==> nodes[find_id_from(nodes, id, from)].id
            == id,
        forall|j: int| from <= j < find_id_from(nodes, id, from) ==> #[trigger] nodes[j].id != id,
    decreases nodes.len() - from,
{
    if from < nodes.len() && nodes[from].id != id {
        lemma_find_id_first(nodes, id, from + 1);
    }
}

proof fn lemma_find_conversation_first(cs: Seq<ConversationModel>, id: Seq<char>, from: int)
    requires
        0 <= from <= cs.len(),
    ensures
        from <= find_conversation_from(cs, id, from) <= cs.len(),
        find_conversation_from(cs, id, from) < cs.len() ==> cs[find_conversation_from(
            cs,
            id,
            from,
        )].id == id,
        forall|j: int| from <= j < find_conversation_from(cs, id, from) ==> #[trigger] cs[j].id != id,
    decreases cs.len() - from,
{
    if from < cs.len() && cs[from].id != id {
        lemma_find_conversation_first(cs, id, from + 1);
    }
}

/// The chat shows a path of messages one line per message, in order: the
/// text is the message's content, and the user wrote it exactly when its role
/// is "user".
pub open spec fn shows_path(ms: Seq<MessageModel>, nodes: Seq<NodeModel>) -> bool {
    &&& ms.len() == nodes.len()
    &&& forall|i: int|
        0 <= i < nodes.len() ==> (#[trigger] ms[i]).text == nodes[i].content && (ms[i].role
            == Role::User <==> nodes[i].role == "user"@)
}

/// A freshly loaded conversation list keeps the open conversation
/// highlighted when it is listed (its first entry), and highlights the first
/// entry otherwise; nothing else changes and nothing is requested.
pub proof fn lemma_loaded_list_keeps_the_open_conversation(s: AppModel, cs: Seq<ConversationModel>)
    requires
        cs.len() <= usize::MAX,
    ensures
        ({
            let (t, c) = event_step(s, EventModel::ConversationsLoaded(cs));
            let k = t.selected_conversation_index;
            &&& t == AppModel { conversations: cs, selected_conversation_index: k, ..s }
            &&& c.len() == 0
            &&& (exists|i: int| 0 <= i < cs.len() && #[trigger] cs[i].id == s.conversation_id) ==> {
                &&& k < cs.len()
                &&& cs[k as int].id == s.conversation_id
                &&& forall|j: int| 0 <= j < k ==> #[trigger] cs[j].id != s.conversation_id
            }
            &&& !(exists|i: int| 0 <= i < cs.len() && #[trigger] cs[i].id == s.conversation_id)
                ==> k == 0
        }),
{
    lemma_find_conversation_first(cs, s.conversation_id, 0);
    let (t, c) = event_step(s, EventModel::ConversationsLoaded(cs));
    assert(t =~= AppModel {
        conversations: cs,
        selected_conversation_index: t.selected_conversation_index,
        ..s
    });
}

/// A loaded history shows the conversation of the path, its tree and its
/// path; the tree highlight is on the active leaf when the tree holds it,
/// else on the last node; the list of conversations is then reloaded.
pub proof fn lemma_loaded_history_shows_the_path(s: AppModel, tree: TreeModel, path: PathModel)
    requires
        tree.messages.len() <= usize::MAX,
    ensures
        ({
            let (t, c) = event_step(s, EventModel::HistoryLoaded { tree, path });
            let n = tree.messages.len();
            let k = t.selected_tree_index;
            &&& t.conversation_id == path.conversation_id
            &&& t.conversation_title == tree.conversation.title
            &&& t.active_leaf_id == path.leaf_id
            &&& t.tree_nodes == tree.messages
            &&& shows_path(t.messages, path.messages)
            &&& t.chat_scroll == FOLLOW_BOTTOM
            &&& t.status == AppStatus::Ready
            &&& t.input == s.input && t.focus == s.focus && t.conversations == s.conversations
            &&& t.selected_conversation_index == s.selected_conversation_index
            &&& c == seq![CommandModel::LoadConversations]
            &&& (tree.conversation.active_leaf_id matches Some(leaf) && exists|i: int|
                0 <= i < n && #[trigger] tree.messages[i].id == leaf) ==> {
                &&& k < n
                &&& Some(tree.messages[k as int].id) == tree.conversation.active_leaf_id
                &&& forall|j: int|
                    0 <= j < k ==> Some(#[trigger] tree.messages[j].id)
                        != tree.conversation.active_leaf_id
            }
            &&& !(tree.conversation.active_leaf_id matches Some(leaf) && exists|i: int|
                0 <= i < n && #[trigger] tree.messages[i].id == leaf) ==> k == (if n == 0 {
                0
            } else {
                n - 1
            })
        }),
{
    if let Some(leaf) = tree.conversation.active_leaf_id {
        lemma_find_id_first(tree.messages, leaf, 0);
    }
}

/// Switching branch shows the new path and the new active leaf in the same
/// conversation, and requests nothing.
pub proof fn lemma_switched_branch_shows_the_path(s: AppModel, r: PathModel)
    ensures
        ({
            let (t, c) = event_step(s, EventModel::BranchSwitched(r));
            &&& t.active_leaf_id == r.leaf_id
            &&& shows_path(t.messages, r.messages)
            &&& t.chat_scroll == FOLLOW_BOTTOM
            &&& t.status == AppStatus::Ready
            &&& t == AppModel {
                active_leaf_id: t.active_leaf_id,
                messages: t.messages,
                chat_scroll: t.chat_scroll,
                status: t.status,
                ..s
            }
            &&& c.len() == 0
        }),
{
    let (t, c) = event_step(s, EventModel::BranchSwitched(r));
    assert(t =~= AppModel {
        active_leaf_id: t.active_leaf_id,
        messages: t.messages,
        chat_scroll: t.chat_scroll,
        status: t.status,
        ..s
    });
}

/// A created conversation is opened empty and then loaded; a deleted one
/// leaves the view on the default conversation, which is loaded; a cleared
/// history empties the view of the same conversation.
pub proof fn lemma_conversation_lifecycle(s: AppModel, info: ConversationModel)
    ensures
        ({
            let (t, c) = event_step(s, EventModel::ConversationCreated(info));
            &&& t.conversation_id == info.id
            &&& t.conversation_title == info.title
            &&& t.messages.len() == 0 && t.tree_nodes.len() == 0
            &&& t.selected_tree_index == 0 && t.active_leaf_id is None && t.chat_scroll == 0
            &&& t.status == AppStatus::Loading && t.focus == Focus::Input
            &&& t.input == s.input && t.conversations == s.conversations
            &&& c == seq![CommandModel::LoadHistory(info.id), CommandModel::LoadConversations]
        }),
        ({
            let (t, c) = event_step(s, EventModel::ConversationDeleted);
            &&& t.conversation_id == DEFAULT_CONVERSATION@
            &&& t.conversation_title == "Default"@
            &&& t.messages.len() == 0 && t.tree_nodes.len() == 0
            &&& t.selected_tree_index == 0 && t.active_leaf_id is None && t.chat_scroll == 0
            &&& t.status == AppStatus::Loading && t.focus == Focus::Conversations
            &&& t.input == s.input && t.conversations == s.conversations
            &&& c == seq![
                CommandModel::LoadConversations,
                CommandModel::LoadHistory(DEFAULT_CONVERSATION@),
            ]
        }),
        ({
            let (t, c) = event_step(s, EventModel::HistoryCleared);
            &&& t.conversation_id == s.conversation_id
            &&& t.conversation_title == s.conversation_title
            &&& t.messages.len() == 0 && t.tree_nodes.len() == 0
            &&& t.selected_tree_index == 0 && t.active_leaf_id is None && t.chat_scroll == 0
            &&& t.status == AppStatus::Ready && t.focus == Focus::Input
            &&& t.input == s.input && t.conversations == s.conversations
            &&& c.len() == 0
        }),
{
}

/// A piece of a reply is appended to the reply being shown, and to nothing
/// else; without a reply line it is dropped. The view follows the bottom.
pub proof fn lemma_chunk_appends_to_the_reply(s: AppModel, piece: Seq<char>)
    ensures
        ({
            let (t, c) = event_step(s, EventModel::AssistantChunk(piece));
            let n = s.messages.len();
            &&& c.len() == 0
            &&& t.chat_scroll == FOLLOW_BOTTOM
            &&& t.status == s.status
            &&& t.messages.len() == n
            &&& forall|i: int| 0 <= i < n - 1 ==> #[trigger] t.messages[i] == s.messages[i]
            &&& ends_with_reply(s.messages) ==> t.messages[n - 1] == MessageModel {
                role: Role::Assistant,
                text: s.messages[n - 1].text + piece,
            }
            &&& !ends_with_reply(s.messages) ==> t.messages == s.messages
        }),
{
}

/// A failure is shown as "Error: " and its text, after the reply being
/// shown or on a new assistant line; the interface is then idle again.
pub proof fn lemma_error_is_shown(s: AppModel, error: Seq<char>)
    ensures
        ({
            let (t, c) = event_step(s, EventModel::AssistantError(error));
            let n = s.messages.len();
            let note = "Error: "@ + error;
            &&& c.len() == 0
            &&& t.status == AppStatus::Error
            &&& status_interactive(t.status)
            &&& ends_with_reply(s.messages) ==> {
                &&& t.messages.len() == n
                &&& forall|i: int| 0 <= i < n - 1 ==> #[trigger] t.messages[i] == s.messages[i]
                &&& t.messages[n - 1] == MessageModel {
                    role: Role::Assistant,
                    text: s.messages[n - 1].text + note,
                }
            }
            &&& !ends_with_reply(s.messages) ==> t.messages == s.messages.push(
                MessageModel { role: Role::Assistant, text: note },
            )
        }),
{
}

/// Approval notices change nothing and request nothing.
pub proof fn lemma_approvals_are_ignored(s: AppModel, text: Seq<char>)
    ensures
        event_step(s, EventModel::ApprovalCompleted(text)) == (s, Seq::<CommandModel>::empty()),
        event_step(s, EventModel::ApprovalDenied(text)) == (s, Seq::<CommandModel>::empty()),
{
}

} // verus!
