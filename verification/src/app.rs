//! The interface state machine: keys and server events change the state and
//! yield the requests that the event loop sends.
use vstd::prelude::*;
use vstd::string::StringExecFns;

use crate::text::{
    normalize_lines, normalized_lines, pop_char, push_char, str_equals, strip_prefix, trim, trimmed,
};
use vstd::string::StrSliceExecFns;
use crate::tree::{find_id, position_of_id};
use crate::types::{
    AppStatus, Config, ConfigModel, ConversationInfo, ConversationModel, DEFAULT_CONVERSATION, Focus,
    Message, MessageModel, MessageNode, NodeModel, Role, focus_after, status_interactive,
    ConversationPathResponse, ConversationTreeResponse, PathModel, SwitchLeafResponse, TreeModel,
};

verus! {

broadcast use vstd::string::group_string_axioms;

/// The keys the interface reacts to.
#[derive(Clone, Copy, Debug, PartialEq, Eq)]
pub enum Key {
    Esc,
    Tab,
    Up,
    Down,
    Enter,
    PageUp,
    PageDown,
    Backspace,
    Char(char),
    Other,
}

/// A request to the conversation server.
#[derive(Clone, Debug, PartialEq, Eq)]
pub enum Command {
    LoadConversations,
    LoadHistory(String),
    SwitchBranch { conversation_id: String, message_id: String },
    ClearHistory(String),
    ChatStream { message: String, conversation_id: String },
    CreateConversation { title: String, workspace_path: Option<String> },
    DeleteConversation(String),
}

/// The mathematical value of a [`Command`].
pub enum CommandModel {
    LoadConversations,
    LoadHistory(Seq<char>),
    SwitchBranch { conversation_id: Seq<char>, message_id: Seq<char> },
    ClearHistory(Seq<char>),
    ChatStream { message: Seq<char>, conversation_id: Seq<char> },
    CreateConversation { title: Seq<char>, workspace_path: Option<Seq<char>> },
    DeleteConversation(Seq<char>),
}

impl DeepView for Command {
    type V = CommandModel;

    open spec fn deep_view(&self) -> CommandModel {
        match self {
            Command::LoadConversations => CommandModel::LoadConversations,
            Command::LoadHistory(id) => CommandModel::LoadHistory(id@),
            Command::SwitchBranch { conversation_id, message_id } => CommandModel::SwitchBranch {
                conversation_id: conversation_id@,
                message_id: message_id@,
            },
            Command::ClearHistory(id) => CommandModel::ClearHistory(id@),
            Command::ChatStream { message, conversation_id } => CommandModel::ChatStream {
                message: message@,
                conversation_id: conversation_id@,
            },
            Command::CreateConversation { title, workspace_path } => CommandModel::CreateConversation {
                title: title@,
                workspace_path: workspace_path.deep_view(),
            },
            Command::DeleteConversation(id) => CommandModel::DeleteConversation(id@),
        }
    }
}

/// The whole interface state.
pub struct App {
    pub input: String,
    pub messages: Vec<Message>,
    pub chat_scroll: u16,
    pub status: AppStatus,
    pub config: Config,
    pub conversation_id: String,
    pub conversation_title: String,
    pub conversations: Vec<ConversationInfo>,
    pub selected_conversation_index: usize,
    pub tree_nodes: Vec<MessageNode>,
    pub selected_tree_index: usize,
    pub active_leaf_id: Option<String>,
    pub focus: Focus,
}

/// The mathematical value of an [`App`].
#[verifier::ext_equal]
pub struct AppModel {
    pub input: Seq<char>,
    pub messages: Seq<MessageModel>,
    pub chat_scroll: u16,
    pub status: AppStatus,
    pub config: ConfigModel,
    pub conversation_id: Seq<char>,
    pub conversation_title: Seq<char>,
    pub conversations: Seq<ConversationModel>,
    pub selected_conversation_index: usize,
    pub tree_nodes: Seq<NodeModel>,
    pub selected_tree_index: usize,
    pub active_leaf_id: Option<Seq<char>>,
    pub focus: Focus,
}

impl View for App {
    type V = AppModel;

    open spec fn view(&self) -> AppModel {
        AppModel {
            input: self.input@,
            messages: self.messages.deep_view(),
            chat_scroll: self.chat_scroll,
            status: self.status,
            config: self.config@,
            conversation_id: self.conversation_id@,
            conversation_title: self.conversation_title@,
            conversations: self.conversations.deep_view(),
            selected_conversation_index: self.selected_conversation_index,
            tree_nodes: self.tree_nodes.deep_view(),
            selected_tree_index: self.selected_tree_index,
            active_leaf_id: self.active_leaf_id.deep_view(),
            focus: self.focus,
        }
    }
}

/// The chat scroll value that means "follow the newest line".
pub const FOLLOW_BOTTOM: u16 = 0xffff;

/// The state before anything has been loaded.
pub open spec fn initial_model(config: ConfigModel) -> AppModel {
    AppModel {
        input: seq![],
        messages: seq![],
        chat_scroll: 0,
        status: AppStatus::Loading,
        config,
        conversation_id: DEFAULT_CONVERSATION@,
        conversation_title: "Default"@,
        conversations: seq![],
        selected_conversation_index: 0,
        tree_nodes: seq![],
        selected_tree_index: 0,
        active_leaf_id: None,
        focus: Focus::Input,
    }
}

/// Every selection points into its list, or is zero when the list is empty.
pub open spec fn selections_in_range(s: AppModel) -> bool {
    &&& (s.selected_conversation_index < s.conversations.len()
        || s.selected_conversation_index == 0)
    &&& (s.selected_tree_index < s.tree_nodes.len() || s.selected_tree_index == 0)
}

impl App {
    pub fn new(config: Config) -> (r: App)
        ensures
            r@ == initial_model(config@),
    {
        App {
            input: String::new(),
            messages: Vec::new(),
            chat_scroll: 0,
            status: AppStatus::Loading,
            config,
            conversation_id: DEFAULT_CONVERSATION.to_owned(),
            conversation_title: "Default".to_owned(),
            conversations: Vec::new(),
            selected_conversation_index: 0,
            tree_nodes: Vec::new(),
            selected_tree_index: 0,
            active_leaf_id: None,
            focus: Focus::Input,
        }
    }
}


/// The final component of a path, as `std::path::Path::file_name` gives it.
pub uninterp spec fn file_name_of(path: Seq<char>) -> Option<Seq<char>>;

/// Calls `std::path::Path::file_name` on `path` and hands back the component
/// as an owned string. Claimed: the result is `file_name_of(path)`, a
/// function of the path's characters alone (under the path syntax of the
/// platform the program is built for); what that component is for a given
/// path is left unsaid.
#[verifier::external_body]
fn path_file_name(path: &str) -> (r: Option<String>)
    ensures
        r.deep_view() == file_name_of(path@),
{
    match std::path::Path::new(path).file_name() {
        Some(name) => match name.to_str() {
            Some(text) => Some(text.to_owned()),
            None => None,
        },
        None => None,
    }
}

/// The title of a conversation opened on a workspace: the path's final
/// component, or "Workspace" when it has none.
pub open spec fn workspace_title_of(name: Option<Seq<char>>) -> Seq<char> {
    match name {
        Some(n) => n,
        None => "Workspace"@,
    }
}

/// The title of a conversation opened on a workspace whose path ends in
/// `file_name`.
pub fn workspace_title(file_name: Option<String>) -> (r: String)
    ensures
        r@ == workspace_title_of(file_name.deep_view()),
{
    match file_name {
        Some(name) => name,
        None => "Workspace".to_owned(),
    }
}

/// The note shown when the default conversation is asked to go.
pub open spec fn cannot_delete_note() -> MessageModel {
    MessageModel { role: Role::Assistant, text: "Default conversation cannot be deleted."@ }
}

/// What `Enter` in the input box does to the state, and the request it sends.
pub open spec fn submit_step(s: AppModel) -> (AppModel, Option<CommandModel>) {
    let text = trim(s.input);
    if !status_interactive(s.status) || text.len() == 0 {
        (s, None)
    } else {
        let cleared = AppModel { input: seq![], ..s };
        let loading = AppModel { input: seq![], status: AppStatus::Loading, ..s };
        if "/workspace "@.is_prefix_of(text) {
            let path = trim(text.skip("/workspace "@.len() as int));
            if path.len() == 0 {
                (cleared, None)
            } else {
                (
                    loading,
                    Some(
                        CommandModel::CreateConversation {
                            title: workspace_title_of(file_name_of(path)),
                            workspace_path: Some(path),
                        },
                    ),
                )
            }
        } else if text == "/new"@ {
            (
                loading,
                Some(
                    CommandModel::CreateConversation {
                        title: "New conversation"@,
                        workspace_path: None,
                    },
                ),
            )
        } else if "/new "@.is_prefix_of(text) {
            let title = trim(text.skip("/new "@.len() as int));
            if title.len() == 0 {
                (cleared, None)
            } else {
                (loading, Some(CommandModel::CreateConversation { title, workspace_path: None }))
            }
        } else if "/use "@.is_prefix_of(text) {
            let id = trim(text.skip("/use "@.len() as int));
            if id.len() == 0 {
                (cleared, None)
            } else {
                (AppModel { focus: Focus::Input, ..loading }, Some(CommandModel::LoadHistory(id)))
            }
        } else if text == "/delete"@ {
            if s.selected_conversation_index >= s.conversations.len() {
                (cleared, None)
            } else {
                let id = s.conversations[s.selected_conversation_index as int].id;
                if id == DEFAULT_CONVERSATION@ {
                    (AppModel { messages: s.messages.push(cannot_delete_note()), ..cleared }, None)
                } else {
                    (loading, Some(CommandModel::DeleteConversation(id)))
                }
            }
        } else if text == "/clear"@ {
            (loading, Some(CommandModel::ClearHistory(s.conversation_id)))
        } else {
            (
                AppModel {
                    messages: s.messages.push(MessageModel { role: Role::User, text }).push(
                        MessageModel { role: Role::Assistant, text: seq![] },
                    ),
                    chat_scroll: FOLLOW_BOTTOM,
                    status: AppStatus::Streaming,
                    ..cleared
                },
                Some(CommandModel::ChatStream { message: text, conversation_id: s.conversation_id }),
            )
        }
    }
}

/// One step up a list, stopping at the top.
pub open spec fn index_up(index: usize) -> usize {
    if index == 0 {
        0
    } else {
        (index - 1) as usize
    }
}

/// One step down a list of `len` entries, stopping at the last one; an empty
/// list leaves the index alone.
pub open spec fn index_down(index: usize, len: nat) -> usize {
    if len == 0 {
        index
    } else if index + 1 <= len - 1 {
        (index + 1) as usize
    } else {
        (len - 1) as usize
    }
}

/// Where the chat view stands: following the bottom reads as the last
/// scroll position.
pub open spec fn scroll_base(scroll: u16, max_scroll: u16) -> u16 {
    if scroll == FOLLOW_BOTTOM {
        max_scroll
    } else {
        scroll
    }
}

/// `scroll` moved down by `by` lines, but not past `max_scroll`.
pub open spec fn scroll_down(scroll: u16, by: u16, max_scroll: u16) -> u16 {
    let moved = scroll.saturating_add(by);
    if moved <= max_scroll {
        moved
    } else {
        max_scroll
    }
}

/// What a key does to the state: the new state, whether the interface keeps
/// running, and the request to send.
pub open spec fn key_step(s: AppModel, key: Key, max_scroll: u16) -> (
    AppModel,
    bool,
    Option<CommandModel>,
) {
    match key {
        Key::Esc => (s, false, None),
        Key::Tab => (AppModel { focus: focus_after(s.focus), ..s }, true, None),
        _ => match s.focus {
            Focus::Conversations => match key {
                Key::Up => (
                    AppModel {
                        selected_conversation_index: index_up(s.selected_conversation_index),
                        ..s
                    },
                    true,
                    None,
                ),
                Key::Down => (
                    AppModel {
                        selected_conversation_index: index_down(
                            s.selected_conversation_index,
                            s.conversations.len(),
                        ),
                        ..s
                    },
                    true,
                    None,
                ),
                Key::Enter => if status_interactive(s.status) && s.selected_conversation_index
                    < s.conversations.len() {
                    (
                        AppModel { status: AppStatus::Loading, ..s },
                        true,
                        Some(
                            CommandModel::LoadHistory(
                                s.conversations[s.selected_conversation_index as int].id,
                            ),
                        ),
                    )
                } else {
                    (s, true, None)
                },
                _ => (s, true, None),
            },
            Focus::Tree => match key {
                Key::Up => (
                    AppModel { selected_tree_index: index_up(s.selected_tree_index), ..s },
                    true,
                    None,
                ),
                Key::Down => (
                    AppModel {
                        selected_tree_index: index_down(s.selected_tree_index, s.tree_nodes.len()),
                        ..s
                    },
                    true,
                    None,
                ),
                Key::Enter => if status_interactive(s.status) && s.selected_tree_index
                    < s.tree_nodes.len() {
                    (
                        AppModel { status: AppStatus::SwitchingBranch, ..s },
                        true,
                        Some(
                            CommandModel::SwitchBranch {
                                conversation_id: s.conversation_id,
                                message_id: s.tree_nodes[s.selected_tree_index as int].id,
                            },
                        ),
                    )
                } else {
                    (s, true, None)
                },
                _ => (s, true, None),
            },
            Focus::Chat => match key {
                Key::Up => (
                    AppModel {
                        chat_scroll: scroll_base(s.chat_scroll, max_scroll).saturating_sub(1),
                        ..s
                    },
                    true,
                    None,
                ),
                Key::Down => (
                    AppModel {
                        chat_scroll: scroll_down(scroll_base(s.chat_scroll, max_scroll), 1, max_scroll),
                        ..s
                    },
                    true,
                    None,
                ),
                Key::PageUp => (
                    AppModel { chat_scroll: s.chat_scroll.saturating_sub(5), ..s },
                    true,
                    None,
                ),
                Key::PageDown => (
                    AppModel { chat_scroll: scroll_down(s.chat_scroll, 5, max_scroll), ..s },
                    true,
                    None,
                ),
                _ => (s, true, None),
            },
            Focus::Input => match key {
                Key::Char(c) => (AppModel { input: s.input.push(c), ..s }, true, None),
                Key::Backspace => (
                    AppModel {
                        input: if s.input.len() > 0 {
                            s.input.drop_last()
                        } else {
                            s.input
                        },
                        ..s
                    },
                    true,
                    None,
                ),
                Key::Enter => {
                    let (next, command) = submit_step(s);
                    (next, true, command)
                },
                _ => (s, true, None),
            },
        },
    }
}


impl App {
    /// Acts on the text of the input box when `Enter` is pressed there.
    fn submit_input(&mut self) -> (r: Option<Command>)
        ensures
            (final(self)@, r.deep_view()) == submit_step(old(self)@),
    {
        let ghost s = self@;
        if !self.status.can_interact() {
            return None;
        }
        let text: String = trimmed(self.input.as_str()).to_owned();
        if text.as_str().is_empty() {
            return None;
        }
        self.input = String::new();
        let t = text.as_str();
        assert(t@ == trim(s.input));
        if let Some(rest) = strip_prefix(t, "/workspace ") {
            let path = trimmed(rest);
            if path.is_empty() {
                assert(self@ =~= AppModel { input: seq![], ..s });
                return None;
            }
            let title = workspace_title(path_file_name(path));
            self.status = AppStatus::Loading;
            assert(self@ =~= AppModel { input: seq![], status: AppStatus::Loading, ..s });
            return Some(
                Command::CreateConversation { title, workspace_path: Some(path.to_owned()) },
            );
        }
        if str_equals(t, "/new") {
            self.status = AppStatus::Loading;
            assert(self@ =~= AppModel { input: seq![], status: AppStatus::Loading, ..s });
            return Some(
                Command::CreateConversation {
                    title: "New conversation".to_owned(),
                    workspace_path: None,
                },
            );
        }
        if let Some(rest) = strip_prefix(t, "/new ") {
            let title = trimmed(rest);
            if title.is_empty() {
                assert(self@ =~= AppModel { input: seq![], ..s });
                return None;
            }
            self.status = AppStatus::Loading;
            assert(self@ =~= AppModel { input: seq![], status: AppStatus::Loading, ..s });
            return Some(
                Command::CreateConversation { title: title.to_owned(), workspace_path: None },
            );
        }
        if let Some(rest) = strip_prefix(t, "/use ") {
            let id = trimmed(rest);
            if id.is_empty() {
                assert(self@ =~= AppModel { input: seq![], ..s });
                return None;
            }
            self.status = AppStatus::Loading;
            self.focus = Focus::Input;
            assert(self@ =~= AppModel {
                input: seq![],
                status: AppStatus::Loading,
                focus: Focus::Input,
                ..s
            });
            return Some(Command::LoadHistory(id.to_owned()));
        }
        if str_equals(t, "/delete") {
            let index = self.selected_conversation_index;
            if index >= self.conversations.len() {
                assert(self@ =~= AppModel { input: seq![], ..s });
                return None;
            }
            let id = self.conversations[index].id.clone();
            assert(id@ == s.conversations[index as int].id);
            if str_equals(id.as_str(), DEFAULT_CONVERSATION) {
                let ghost before = self.messages.deep_view();
                self.messages.push(
                    Message {
                        role: Role::Assistant,
                        message: "Default conversation cannot be deleted.".to_owned(),
                    },
                );
                assert(self.messages.deep_view() =~= before.push(cannot_delete_note()));
                assert(self@ =~= AppModel {
                    input: seq![],
                    messages: s.messages.push(cannot_delete_note()),
                    ..s
                });
                return None;
            }
            self.status = AppStatus::Loading;
            assert(self@ =~= AppModel { input: seq![], status: AppStatus::Loading, ..s });
            return Some(Command::DeleteConversation(id));
        }
        if str_equals(t, "/clear") {
            self.status = AppStatus::Loading;
            assert(self@ =~= AppModel { input: seq![], status: AppStatus::Loading, ..s });
            return Some(Command::ClearHistory(self.conversation_id.clone()));
        }
        let ghost before = self.messages.deep_view();
        self.messages.push(Message { role: Role::User, message: text.clone() });
        self.messages.push(Message { role: Role::Assistant, message: String::new() });
        assert(self.messages.deep_view() =~= before.push(
            MessageModel { role: Role::User, text: t@ },
        ).push(MessageModel { role: Role::Assistant, text: seq![] }));
        self.chat_scroll = FOLLOW_BOTTOM;
        self.status = AppStatus::Streaming;
        Some(Command::ChatStream { message: text, conversation_id: self.conversation_id.clone() })
    }

    /// Acts on one key press: the result says whether the interface keeps
    /// running, and which request, if any, to send.
    pub fn handle_key(&mut self, key: Key, max_scroll: u16) -> (r: (bool, Option<Command>))
        ensures
            (final(self)@, r.0, r.1.deep_view()) == key_step(old(self)@, key, max_scroll),
    {
        let ghost s = self@;
        match key {
            Key::Esc => {
                return (false, None);
            },
            Key::Tab => {
                self.focus = self.focus.next();
                return (true, None);
            },
            _ => {},
        }
        match self.focus {
            Focus::Conversations => match key {
                Key::Up => {
                    self.selected_conversation_index =
                    self.selected_conversation_index.saturating_sub(1);
                },
                Key::Down => {
                    let len = self.conversations.len();
                    if len > 0 {
                        let index = self.selected_conversation_index;
                        self.selected_conversation_index = if index >= len - 1 {
                            len - 1
                        } else {
                            index + 1
                        };
                    }
                },
                Key::Enter => {
                    let index = self.selected_conversation_index;
                    if self.status.can_interact() && index < self.conversations.len() {
                        self.status = AppStatus::Loading;
                        let id = self.conversations[index].id.clone();
                        assert(self@ =~= AppModel { status: AppStatus::Loading, ..s });
                        return (true, Some(Command::LoadHistory(id)));
                    }
                },
                _ => {},
            },
            Focus::Tree => match key {
                Key::Up => {
                    self.selected_tree_index = self.selected_tree_index.saturating_sub(1);
                },
                Key::Down => {
                    let len = self.tree_nodes.len();
                    if len > 0 {
                        let index = self.selected_tree_index;
                        self.selected_tree_index = if index >= len - 1 {
                            len - 1
                        } else {
                            index + 1
                        };
                    }
                },
                Key::Enter => {
                    let index = self.selected_tree_index;
                    if self.status.can_interact() && index < self.tree_nodes.len() {
                        self.status = AppStatus::SwitchingBranch;
                        let message_id = self.tree_nodes[index].id.clone();
                        let conversation_id = self.conversation_id.clone();
                        assert(self@ =~= AppModel { status: AppStatus::SwitchingBranch, ..s });
                        return (true, Some(Command::SwitchBranch { conversation_id, message_id }));
                    }
                },
                _ => {},
            },
            Focus::Chat => match key {
                Key::Up => {
                    if self.chat_scroll == FOLLOW_BOTTOM {
                        self.chat_scroll = max_scroll;
                    }
                    self.chat_scroll = self.chat_scroll.saturating_sub(1);
                },
                Key::Down => {
                    if self.chat_scroll == FOLLOW_BOTTOM {
                        self.chat_scroll = max_scroll;
                    }
                    let moved = self.chat_scroll.saturating_add(1);
                    self.chat_scroll = if moved <= max_scroll {
                        moved
                    } else {
                        max_scroll
                    };
                },
                Key::PageUp => {
                    self.chat_scroll = self.chat_scroll.saturating_sub(5);
                },
                Key::PageDown => {
                    let moved = self.chat_scroll.saturating_add(5);
                    self.chat_scroll = if moved <= max_scroll {
                        moved
                    } else {
                        max_scroll
                    };
                },
                _ => {},
            },
            Focus::Input => match key {
                Key::Char(c) => {
                    push_char(&mut self.input, c);
                },
                Key::Backspace => {
                    pop_char(&mut self.input);
                },
                Key::Enter => {
                    let command = self.submit_input();
                    return (true, command);
                },
                _ => {},
            },
        }
        (true, None)
    }
}


/// A reply from the conversation server, or a piece of one.
#[derive(Clone, Debug, PartialEq, Eq)]
pub enum AppEvent {
    ConversationsLoaded(Vec<ConversationInfo>),
    HistoryLoaded { tree: ConversationTreeResponse, path: ConversationPathResponse },
    BranchSwitched(SwitchLeafResponse),
    ConversationDeleted,
    HistoryCleared,
    AssistantChunk(String),
    AssistantDone,
    AssistantError(String),
    ConversationCreated(ConversationInfo),
    ApprovalCompleted(String),
    ApprovalDenied(String),
}

/// The mathematical value of an [`AppEvent`].
pub enum EventModel {
    ConversationsLoaded(Seq<ConversationModel>),
    HistoryLoaded { tree: TreeModel, path: PathModel },
    BranchSwitched(PathModel),
    ConversationDeleted,
    HistoryCleared,
    AssistantChunk(Seq<char>),
    AssistantDone,
    AssistantError(Seq<char>),
    ConversationCreated(ConversationModel),
    ApprovalCompleted(Seq<char>),
    ApprovalDenied(Seq<char>),
}

impl DeepView for AppEvent {
    type V = EventModel;

    open spec fn deep_view(&self) -> EventModel {
        match self {
            AppEvent::ConversationsLoaded(cs) => EventModel::ConversationsLoaded(cs.deep_view()),
            AppEvent::HistoryLoaded { tree, path } => EventModel::HistoryLoaded {
                tree: tree@,
                path: path@,
            },
            AppEvent::BranchSwitched(r) => EventModel::BranchSwitched(r@),
            AppEvent::ConversationDeleted => EventModel::ConversationDeleted,
            AppEvent::HistoryCleared => EventModel::HistoryCleared,
            AppEvent::AssistantChunk(t) => EventModel::AssistantChunk(t@),
            AppEvent::AssistantDone => EventModel::AssistantDone,
            AppEvent::AssistantError(e) => EventModel::AssistantError(e@),
            AppEvent::ConversationCreated(c) => EventModel::ConversationCreated(c@),
            AppEvent::ApprovalCompleted(t) => EventModel::ApprovalCompleted(t@),
            AppEvent::ApprovalDenied(t) => EventModel::ApprovalDenied(t@),
        }
    }
}

/// The chat line for a message of the tree: its author is the user when its
/// role is "user", the assistant otherwise.
pub open spec fn node_message(node: NodeModel) -> MessageModel {
    MessageModel {
        role: if node.role == "user"@ {
            Role::User
        } else {
            Role::Assistant
        },
        text: node.content,
    }
}

/// The chat lines for a path of messages.
pub open spec fn path_messages(nodes: Seq<NodeModel>) -> Seq<MessageModel> {
    nodes.map_values(|n: NodeModel| node_message(n))
}

pub fn node_to_message(node: MessageNode) -> (r: Message)
    ensures
        r@ == node_message(node@),
{
    let role = if str_equals(node.role.as_str(), "user") {
        Role::User
    } else {
        Role::Assistant
    };
    Message { role, message: node.content }
}

/// The chat lines for a path of messages, in order.
fn messages_from_nodes(nodes: Vec<MessageNode>) -> (r: Vec<Message>)
    ensures
        r.deep_view() == path_messages(nodes.deep_view()),
{
    let ghost all = nodes.deep_view();
    let mut rest = nodes;
    let mut out: Vec<Message> = Vec::new();
    assert(all.skip(0) =~= all);
    while rest.len() > 0
        invariant
            out@.len() + rest@.len() == all.len(),
            rest.deep_view() == all.skip(out@.len() as int),
            out.deep_view() =~= path_messages(all.take(out@.len() as int)),
        decreases rest@.len(),
    {
        let ghost k = out@.len() as int;
        let ghost before = out.deep_view();
        let ghost old_vec = rest@;
        let ghost old_dv = rest.deep_view();
        assert(old_dv[0] == old_vec[0]@);
        assert(old_dv[0] == all[k]);
        let node = rest.remove(0);
        assert(rest@ == old_vec.remove(0));
        assert(rest.deep_view() =~= old_dv.drop_first());
        assert(old_dv.drop_first() =~= all.skip(k + 1));
        out.push(node_to_message(node));
        assert(out.deep_view() =~= before.push(node_message(all[k])));
        assert(path_messages(all.take(k + 1)) =~= path_messages(all.take(k)).push(
            node_message(all[k]),
        ));
    }
    assert(all.take(all.len() as int) =~= all);
    out
}

/// The index of the first conversation at or after `from` whose id is `id`,
/// or the number of conversations when there is none.
pub open spec fn find_conversation_from(cs: Seq<ConversationModel>, id: Seq<char>, from: int) -> int
    decreases cs.len() - from,
{
    if from < 0 || from >= cs.len() {
        cs.len() as int
    } else if cs[from].id == id {
        from
    } else {
        find_conversation_from(cs, id, from + 1)
    }
}

/// The conversation to select in a freshly loaded list: the one with `id`,
/// else the first.
pub open spec fn conversation_selection(cs: Seq<ConversationModel>, id: Seq<char>) -> usize {
    let k = find_conversation_from(cs, id, 0);
    if k < cs.len() {
        k as usize
    } else {
        0
    }
}

/// The node to select in a freshly loaded tree: the active leaf when it is
/// there, else the last node.
pub open spec fn tree_selection(nodes: Seq<NodeModel>, leaf: Option<Seq<char>>) -> usize {
    let fallback: usize = if nodes.len() == 0 {
        0
    } else {
        (nodes.len() - 1) as usize
    };
    match leaf {
        Some(id) => {
            let k = find_id(nodes, id);
            if k < nodes.len() {
                k as usize
            } else {
                fallback
            }
        },
        None => fallback,
    }
}

/// Whether the newest chat line is the assistant's.
pub open spec fn ends_with_reply(ms: Seq<MessageModel>) -> bool {
    ms.len() > 0 && ms.last().role == Role::Assistant
}

/// The chat lines with `extra` appended to the newest one.
pub open spec fn extend_last(ms: Seq<MessageModel>, extra: Seq<char>) -> Seq<MessageModel> {
    ms.update(ms.len() - 1, MessageModel { role: ms.last().role, text: ms.last().text + extra })
}

/// What a server event does to the state, and the requests it sends.
pub open spec fn event_step(s: AppModel, e: EventModel) -> (AppModel, Seq<CommandModel>) {
    match e {
        EventModel::ConversationsLoaded(cs) => (
            AppModel {
                conversations: cs,
                selected_conversation_index: conversation_selection(cs, s.conversation_id),
                ..s
            },
            seq![],
        ),
        EventModel::HistoryLoaded { tree, path } => (
            AppModel {
                conversation_id: path.conversation_id,
                conversation_title: tree.conversation.title,
                active_leaf_id: path.leaf_id,
                tree_nodes: tree.messages,
                selected_tree_index: tree_selection(
                    tree.messages,
                    tree.conversation.active_leaf_id,
                ),
                messages: path_messages(path.messages),
                chat_scroll: FOLLOW_BOTTOM,
                status: AppStatus::Ready,
                ..s
            },
            seq![CommandModel::LoadConversations],
        ),
        EventModel::BranchSwitched(r) => (
            AppModel {
                active_leaf_id: r.leaf_id,
                messages: path_messages(r.messages),
                chat_scroll: FOLLOW_BOTTOM,
                status: AppStatus::Ready,
                ..s
            },
            seq![],
        ),
        EventModel::ConversationCreated(c) => (
            AppModel {
                conversation_id: c.id,
                conversation_title: c.title,
                messages: seq![],
                tree_nodes: seq![],
                selected_tree_index: 0,
                active_leaf_id: None,
                chat_scroll: 0,
                status: AppStatus::Loading,
                focus: Focus::Input,
                ..s
            },
            seq![CommandModel::LoadHistory(c.id), CommandModel::LoadConversations],
        ),
        EventModel::HistoryCleared => (
            AppModel {
                messages: seq![],
                tree_nodes: seq![],
                selected_tree_index: 0,
                active_leaf_id: None,
                chat_scroll: 0,
                status: AppStatus::Ready,
                focus: Focus::Input,
                ..s
            },
            seq![],
        ),
        EventModel::AssistantChunk(t) => (
            AppModel {
                messages: if ends_with_reply(s.messages) {
                    extend_last(s.messages, t)
                } else {
                    s.messages
                },
                chat_scroll: FOLLOW_BOTTOM,
                ..s
            },
            seq![],
        ),
        EventModel::AssistantDone => (
            AppModel { status: AppStatus::Loading, ..s },
            seq![CommandModel::LoadHistory(s.conversation_id)],
        ),
        EventModel::AssistantError(error) => {
            let note = "Error: "@ + error;
            (
                AppModel {
                    status: AppStatus::Error,
                    messages: if ends_with_reply(s.messages) {
                        extend_last(s.messages, note)
                    } else {
                        s.messages.push(MessageModel { role: Role::Assistant, text: note })
                    },
                    ..s
                },
                seq![],
            )
        },
        EventModel::ConversationDeleted => (
            AppModel {
                conversation_id: DEFAULT_CONVERSATION@,
                conversation_title: "Default"@,
                messages: seq![],
                tree_nodes: seq![],
                selected_tree_index: 0,
                active_leaf_id: None,
                chat_scroll: 0,
                status: AppStatus::Loading,
                focus: Focus::Conversations,
                ..s
            },
            seq![
                CommandModel::LoadConversations,
                CommandModel::LoadHistory(DEFAULT_CONVERSATION@),
            ],
        ),
        EventModel::ApprovalCompleted(_) => (s, seq![]),
        EventModel::ApprovalDenied(_) => (s, seq![]),
    }
}

impl App {
    /// Appends `extra` to the newest chat line, which is the assistant's.
    fn extend_reply(&mut self, extra: &str)
        requires
            ends_with_reply(old(self)@.messages),
        ensures
            final(self)@ == (AppModel {
                messages: extend_last(old(self)@.messages, extra@),
                ..old(self)@
            }),
    {
        let ghost s = self@;
        let last = self.messages.pop();
        match last {
            Some(mut message) => {
                message.message.append(extra);
                self.messages.push(message);
                assert(self.messages.deep_view() =~= extend_last(s.messages, extra@));
                assert(self@ =~= AppModel { messages: extend_last(s.messages, extra@), ..s });
            },
            None => {},
        }
    }

    /// Whether the newest chat line is the assistant's.
    fn last_is_reply(&self) -> (r: bool)
        ensures
            r == ends_with_reply(self@.messages),
    {
        let len = self.messages.len();
        len > 0 && self.messages[len - 1].role == Role::Assistant
    }

    /// Empties the chat and the tree.
    fn reset_history(&mut self)
        ensures
            final(self)@ == (AppModel {
                messages: seq![],
                tree_nodes: seq![],
                selected_tree_index: 0,
                active_leaf_id: None,
                chat_scroll: 0,
                ..old(self)@
            }),
    {
        let ghost s = self@;
        self.messages = Vec::new();
        self.tree_nodes = Vec::new();
        self.selected_tree_index = 0;
        self.active_leaf_id = None;
        self.chat_scroll = 0;
        assert(self@ =~= AppModel {
            messages: seq![],
            tree_nodes: seq![],
            selected_tree_index: 0,
            active_leaf_id: None,
            chat_scroll: 0,
            ..s
        });
    }

    /// Acts on one server event and returns the requests to send, in order.
    pub fn handle_event(&mut self, event: AppEvent) -> (r: Vec<Command>)
        ensures
            (final(self)@, r.deep_view()) == event_step(old(self)@, event.deep_view()),
    {
        let ghost s = self@;
        let ghost e = event.deep_view();
        match event {
            AppEvent::ConversationsLoaded(conversations) => {
                let ghost cs = conversations.deep_view();
                let n = conversations.len();
                let mut j: usize = 0;
                while j < n && !(conversations[j].id == self.conversation_id)
                    invariant
                        j <= n,
                        n == conversations@.len(),
                        cs == conversations.deep_view(),
                        self@ == s,
                        find_conversation_from(cs, s.conversation_id, 0)
                            == find_conversation_from(cs, s.conversation_id, j as int),
                    decreases n - j,
                {
                    assert(cs[j as int] == conversations@[j as int]@);
                    j += 1;
                }
                if j < n {
                    assert(cs[j as int] == conversations@[j as int]@);
                }
                self.conversations = conversations;
                self.selected_conversation_index = if j < n {
                    j
                } else {
                    0
                };
                assert(self@ =~= event_step(s, e).0);
                Vec::new()
            },
            AppEvent::HistoryLoaded { tree, path } => {
                let ConversationTreeResponse { conversation, messages: nodes } = tree;
                let ConversationPathResponse { conversation_id, leaf_id, messages: path_nodes } =
                    path;
                let n = nodes.len();
                let fallback = if n == 0 {
                    0
                } else {
                    n - 1
                };
                let selected = match &conversation.active_leaf_id {
                    Some(id) => {
                        let k = position_of_id(nodes.as_slice(), id.as_str());
                        if k < n {
                            k
                        } else {
                            fallback
                        }
                    },
                    None => fallback,
                };
                self.conversation_title = conversation.title;
                self.tree_nodes = nodes;
                self.selected_tree_index = selected;
                self.conversation_id = conversation_id;
                self.active_leaf_id = leaf_id;
                self.messages = messages_from_nodes(path_nodes);
                self.chat_scroll = FOLLOW_BOTTOM;
                self.status = AppStatus::Ready;
                assert(self@ =~= event_step(s, e).0);
                let commands = vec![Command::LoadConversations];
                assert(commands.deep_view() =~= event_step(s, e).1);
                commands
            },
            AppEvent::BranchSwitched(response) => {
                let SwitchLeafResponse { conversation_id: _, active_leaf_id, messages } = response;
                self.active_leaf_id = active_leaf_id;
                self.messages = messages_from_nodes(messages);
                self.chat_scroll = FOLLOW_BOTTOM;
                self.status = AppStatus::Ready;
                assert(self@ =~= event_step(s, e).0);
                Vec::new()
            },
            AppEvent::ConversationCreated(conversation) => {
                let id = conversation.id;
                self.reset_history();
                self.conversation_id = id.clone();
                self.conversation_title = conversation.title;
                self.status = AppStatus::Loading;
                self.focus = Focus::Input;
                assert(self@ =~= event_step(s, e).0);
                let commands = vec![Command::LoadHistory(id), Command::LoadConversations];
                assert(commands.deep_view() =~= event_step(s, e).1);
                commands
            },
            AppEvent::HistoryCleared => {
                self.reset_history();
                self.status = AppStatus::Ready;
                self.focus = Focus::Input;
                assert(self@ =~= event_step(s, e).0);
                Vec::new()
            },
            AppEvent::AssistantChunk(text) => {
                if self.last_is_reply() {
                    self.extend_reply(text.as_str());
                }
                self.chat_scroll = FOLLOW_BOTTOM;
                assert(self@ =~= event_step(s, e).0);
                Vec::new()
            },
            AppEvent::AssistantDone => {
                self.status = AppStatus::Loading;
                assert(self@ =~= event_step(s, e).0);
                let commands = vec![Command::LoadHistory(self.conversation_id.clone())];
                assert(commands.deep_view() =~= event_step(s, e).1);
                commands
            },
            AppEvent::AssistantError(error) => {
                self.status = AppStatus::Error;
                let mut note = "Error: ".to_owned();
                note.append(error.as_str());
                if self.last_is_reply() {
                    self.extend_reply(note.as_str());
                } else {
                    let ghost before = self.messages.deep_view();
                    self.messages.push(Message { role: Role::Assistant, message: note });
                    assert(self.messages.deep_view() =~= before.push(
                        MessageModel { role: Role::Assistant, text: "Error: "@ + error@ },
                    ));
                }
                assert(self@ =~= event_step(s, e).0);
                Vec::new()
            },
            AppEvent::ConversationDeleted => {
                self.reset_history();
                self.conversation_id = DEFAULT_CONVERSATION.to_owned();
                self.conversation_title = "Default".to_owned();
                self.status = AppStatus::Loading;
                self.focus = Focus::Conversations;
                assert(self@ =~= event_step(s, e).0);
                let commands = vec![
                    Command::LoadConversations,
                    Command::LoadHistory(self.conversation_id.clone()),
                ];
                assert(commands.deep_view() =~= event_step(s, e).1);
                commands
            },
            AppEvent::ApprovalCompleted(_) => Vec::new(),
            AppEvent::ApprovalDenied(_) => Vec::new(),
        }
    }
}


/// The screen rows that a line of `len` characters takes when wrapped at
/// `width` columns; an empty line still takes one row.
pub open spec fn wrapped_rows(len: nat, width: nat) -> nat {
    let n: nat = if len == 0 {
        1
    } else {
        len
    };
    n / width + (if n % width == 0 {
        0nat
    } else {
        1nat
    })
}

/// The rows that a sequence of lines takes at `width` columns.
pub open spec fn rows_of_lines(ls: Seq<Seq<char>>, width: nat) -> nat
    decreases ls.len(),
{
    if ls.len() == 0 {
        0
    } else {
        rows_of_lines(ls.drop_last(), width) + wrapped_rows(ls.last().len(), width)
    }
}

/// The width of the "You: " or "AI: " label before a message.
pub open spec fn label_width(role: Role) -> nat {
    match role {
        Role::User => 5,
        Role::Assistant => 4,
    }
}

/// The columns left for a message's text in a view `width` columns wide; at
/// least one.
pub open spec fn text_width(width: usize, role: Role) -> nat {
    let w = width - label_width(role);
    if w >= 1 {
        w as nat
    } else {
        1
    }
}

/// The rows a message takes in a view `width` columns wide.
pub open spec fn message_rows(m: MessageModel, width: usize) -> nat {
    rows_of_lines(normalize_lines(m.text), text_width(width, m.role))
}

/// The rows all the messages take.
pub open spec fn messages_rows(ms: Seq<MessageModel>, width: usize) -> nat
    decreases ms.len(),
{
    if ms.len() == 0 {
        0
    } else {
        messages_rows(ms.drop_last(), width) + message_rows(ms.last(), width)
    }
}

/// The rows of the chat view: one for the greeting when there is no message.
pub open spec fn chat_rows(ms: Seq<MessageModel>, width: usize) -> nat {
    if ms.len() == 0 {
        1
    } else {
        messages_rows(ms, width)
    }
}

/// `n`, or the largest `usize` when `n` is larger.
pub open spec fn capped(n: nat) -> nat {
    if n > usize::MAX {
        usize::MAX as nat
    } else {
        n
    }
}

/// The furthest the chat view can scroll: the rows beyond what a view
/// `height` rows high shows, kept to the low 16 bits.
pub open spec fn scroll_limit(ms: Seq<MessageModel>, width: usize, height: usize) -> u16 {
    let rows = capped(chat_rows(ms, width));
    let beyond: int = if rows >= height {
        rows - height
    } else {
        0
    };
    beyond as u16
}

/// The rows a line of `len` characters takes at `width` columns.
fn line_rows(len: usize, width: usize) -> (r: usize)
    requires
        width >= 1,
    ensures
        r == wrapped_rows(len as nat, width as nat),
{
    let n = if len < 1 {
        1
    } else {
        len
    };
    if n % width == 0 {
        n / width
    } else {
        assert(n / width < usize::MAX) by (nonlinear_arith)
            requires
                n % width != 0,
                width >= 1,
                n <= usize::MAX,
        {
            assert(width >= 2);
            assert(n / width <= n / 2);
        }
        n / width + 1
    }
}

impl App {
    /// The rows the message at `index` takes in a view `width` columns wide,
    /// or the largest `usize` when there are more.
    fn message_rows_at(&self, index: usize, width: usize) -> (r: usize)
        requires
            index < self.messages@.len(),
        ensures
            r == capped(message_rows(self@.messages[index as int], width)),
    {
        let message = &self.messages[index];
        assert(self@.messages[index as int] == message@);
        let prefix: usize = match message.role {
            Role::User => 5,
            Role::Assistant => 4,
        };
        let reduced = width.saturating_sub(prefix);
        let w = if reduced < 1 {
            1
        } else {
            reduced
        };
        assert(w == text_width(width, message.role));
        let lines = normalized_lines(message.message.as_str());
        let ghost ls = lines.deep_view();
        let n = lines.len();
        let mut rows: usize = 0;
        let mut j: usize = 0;
        assert(ls.take(0) =~= Seq::<Seq<char>>::empty());
        while j < n
            invariant
                j <= n,
                n == lines@.len(),
                ls == lines.deep_view(),
                w >= 1,
                rows == capped(rows_of_lines(ls.take(j as int), w as nat)),
            decreases n - j,
        {
            assert(ls.take(j + 1).drop_last() =~= ls.take(j as int));
            assert(ls[j as int] == lines@[j as int]@);
            let count = lines[j].unicode_len();
            rows = rows.saturating_add(line_rows(count, w));
            j += 1;
        }
        assert(ls.take(n as int) =~= ls);
        rows
    }

    /// How far the chat view can scroll when it is `width` columns wide and
    /// `height` rows high.
    pub fn max_chat_scroll(&self, width: usize, height: usize) -> (r: u16)
        ensures
            r == scroll_limit(self@.messages, width, height),
    {
        let ghost ms = self@.messages;
        let n = self.messages.len();
        let line_count: usize = if n == 0 {
            1
        } else {
            let mut total: usize = 0;
            let mut i: usize = 0;
            assert(ms.take(0) =~= Seq::<MessageModel>::empty());
            while i < n
                invariant
                    i <= n,
                    n == self.messages@.len(),
                    ms == self@.messages,
                    total == capped(messages_rows(ms.take(i as int), width)),
                decreases n - i,
            {
                assert(ms.take(i + 1).drop_last() =~= ms.take(i as int));
                let rows = self.message_rows_at(i, width);
                total = total.saturating_add(rows);
                i += 1;
            }
            assert(ms.take(n as int) =~= ms);
            total
        };
        let beyond = line_count.saturating_sub(height);
        beyond as u16
    }
}


/// One line of the chat panel: who wrote it, whether it opens its message
/// (and so carries the label), and its text.
#[derive(Clone, Copy, Debug, PartialEq, Eq)]
pub struct ChatLine<'a> {
    pub from_user: bool,
    pub first: bool,
    pub text: &'a str,
}

/// The mathematical value of a [`ChatLine`].
pub struct ChatLineModel {
    pub from_user: bool,
    pub first: bool,
    pub text: Seq<char>,
}

impl<'a> DeepView for ChatLine<'a> {
    type V = ChatLineModel;

    open spec fn deep_view(&self) -> ChatLineModel {
        ChatLineModel { from_user: self.from_user, first: self.first, text: self.text@ }
    }
}

/// The chat lines of one message: its normalised lines, the first labelled.
pub open spec fn message_lines(m: MessageModel) -> Seq<ChatLineModel> {
    let ls = normalize_lines(m.text);
    Seq::new(
        ls.len(),
        |j: int| ChatLineModel { from_user: m.role == Role::User, first: j == 0, text: ls[j] },
    )
}

/// The chat lines of all messages, in order.
pub open spec fn chat_lines_of(ms: Seq<MessageModel>) -> Seq<ChatLineModel>
    decreases ms.len(),
{
    if ms.len() == 0 {
        seq![]
    } else {
        chat_lines_of(ms.drop_last()) + message_lines(ms.last())
    }
}

impl App {
    /// The lines of the chat panel, in order.
    pub fn chat_lines(&self) -> (r: Vec<ChatLine<'_>>)
        ensures
            r.deep_view() == chat_lines_of(self@.messages),
    {
        let ghost ms = self@.messages;
        let n = self.messages.len();
        let mut out: Vec<ChatLine<'_>> = Vec::new();
        let mut i: usize = 0;
        assert(ms.take(0) =~= Seq::<MessageModel>::empty());
        while i < n
            invariant
                i <= n,
                n == self.messages@.len(),
                ms == self@.messages,
                out.deep_view() == chat_lines_of(ms.take(i as int)),
            decreases n - i,
        {
            let message = &self.messages[i];
            assert(ms[i as int] == message@);
            let from_user = message.role == Role::User;
            let lines = normalized_lines(message.message.as_str());
            let ghost mine = message_lines(message@);
            let ghost start = out.deep_view();
            let m = lines.len();
            let mut j: usize = 0;
            assert(mine.take(0) =~= Seq::<ChatLineModel>::empty());
            assert(start + mine.take(0) =~= start);
            while j < m
                invariant
                    j <= m,
                    m == lines@.len(),
                    lines.deep_view() == normalize_lines(message@.text),
                    mine == message_lines(message@),
                    from_user == (message@.role == Role::User),
                    out.deep_view() == start + mine.take(j as int),
                decreases m - j,
            {
                let ghost before = out.deep_view();
                out.push(ChatLine { from_user, first: j == 0, text: lines[j] });
                assert(mine.take(j + 1) =~= mine.take(j as int).push(mine[j as int]));
                assert(out.deep_view() =~= before.push(mine[j as int]));
                j += 1;
            }
            assert(mine.take(m as int) =~= mine);
            assert(ms.take(i + 1).drop_last() =~= ms.take(i as int));
            i += 1;
        }
        assert(ms.take(n as int) =~= ms);
        out
    }
}

/// The scroll position the chat panel shows: the stored one, but no further
/// than the view allows.
pub open spec fn shown_scroll(s: AppModel, width: u16, height: u16) -> u16 {
    let limit = scroll_limit(
        s.messages,
        width.saturating_sub(2) as usize,
        height.saturating_sub(2) as usize,
    );
    if s.chat_scroll <= limit {
        s.chat_scroll
    } else {
        limit
    }
}

impl App {
    /// The scroll position of a chat panel `width` by `height` cells,
    /// border included.
    pub fn chat_view_scroll(&self, width: u16, height: u16) -> (r: u16)
        ensures
            r == shown_scroll(self@, width, height),
    {
        let limit = self.max_chat_scroll(
            width.saturating_sub(2) as usize,
            height.saturating_sub(2) as usize,
        );
        if self.chat_scroll <= limit {
            self.chat_scroll
        } else {
            limit
        }
    }
}

/// The columns and rows inside the chat panel's border on a terminal of
/// `width` by `height` cells: the conversation panel takes 32 columns, the
/// input box 5 rows, and each border 2 of each.
pub fn chat_view_size(width: u16, height: u16) -> (r: (usize, usize))
    ensures
        r.0 == width.saturating_sub(32).saturating_sub(2),
        r.1 == height.saturating_sub(5).saturating_sub(2),
{
    let w = width.saturating_sub(32).saturating_sub(2);
    let h = height.saturating_sub(5).saturating_sub(2);
    (w as usize, h as usize)
}

/// The configuration shown when the server reported `model`, `base_url` and
/// whether an API key is set; a missing value shows as "unknown".
pub open spec fn status_config(api_key_exist: bool, model: Option<Seq<char>>, base_url: Option<
    Seq<char>,
>) -> ConfigModel {
    ConfigModel {
        model_name: match model {
            Some(m) => m,
            None => "unknown"@,
        },
        base_url: match base_url {
            Some(b) => b,
            None => "unknown"@,
        },
        api_key_exist,
    }
}

/// The configuration shown when the server could not be asked.
pub open spec fn offline_config() -> ConfigModel {
    ConfigModel { model_name: "unknown"@, base_url: "offline"@, api_key_exist: false }
}

impl Config {
    pub fn from_status(api_key_exist: bool, model: Option<String>, base_url: Option<String>) -> (r:
        Config)
        ensures
            r@ == status_config(api_key_exist, model.deep_view(), base_url.deep_view()),
    {
        let model_name = match model {
            Some(m) => m,
            None => "unknown".to_owned(),
        };
        let base_url = match base_url {
            Some(b) => b,
            None => "unknown".to_owned(),
        };
        Config { model_name, base_url, api_key_exist }
    }

    pub fn offline() -> (r: Config)
        ensures
            r@ == offline_config(),
    {
        Config {
            model_name: "unknown".to_owned(),
            base_url: "offline".to_owned(),
            api_key_exist: false,
        }
    }
}

} // verus!
