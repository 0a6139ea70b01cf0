//! Plain data types shared by the state machine, the conversation tree and
//! the chat layout.
use vstd::prelude::*;

verus! {

/// Identifier of the conversation that always exists on the server.
pub const DEFAULT_CONVERSATION: &'static str = "default";

/// What the interface is currently doing.
#[derive(Clone, Copy, Debug, PartialEq, Eq, Structural)]
pub enum AppStatus {
    Ready,
    Loading,
    Thinking,
    Streaming,
    SwitchingBranch,
    Error,
}

/// The status label shown in the configuration panel.
pub open spec fn status_label(status: AppStatus) -> Seq<char> {
    match status {
        AppStatus::Ready => "ready"@,
        AppStatus::Loading => "loading"@,
        AppStatus::Thinking => "thinking"@,
        AppStatus::Streaming => "streaming"@,
        AppStatus::SwitchingBranch => "switching"@,
        AppStatus::Error => "error"@,
    }
}

/// A new request may start only when nothing is in flight.
pub open spec fn status_interactive(status: AppStatus) -> bool {
    status == AppStatus::Ready || status == AppStatus::Error
}

impl AppStatus {
    pub fn label(self) -> (r: &'static str)
        ensures
            r@ == status_label(self),
    {
        match self {
            AppStatus::Ready => "ready",
            AppStatus::Loading => "loading",
            AppStatus::Thinking => "thinking",
            AppStatus::Streaming => "streaming",
            AppStatus::SwitchingBranch => "switching",
            AppStatus::Error => "error",
        }
    }

    pub fn can_interact(self) -> (r: bool)
        ensures
            r == status_interactive(self),
    {
        match self {
            AppStatus::Ready | AppStatus::Error => true,
            _ => false,
        }
    }
}

/// The panel that receives keyboard input.
#[derive(Clone, Copy, Debug, PartialEq, Eq, Structural)]
pub enum Focus {
    Conversations,
    Tree,
    Chat,
    Input,
}

/// The panel that `Tab` moves to.
pub open spec fn focus_after(focus: Focus) -> Focus {
    match focus {
        Focus::Conversations => Focus::Tree,
        Focus::Tree => Focus::Chat,
        Focus::Chat => Focus::Input,
        Focus::Input => Focus::Conversations,
    }
}

impl Focus {
    pub fn next(self) -> (r: Focus)
        ensures
            r == focus_after(self),
    {
        match self {
            Focus::Conversations => Focus::Tree,
            Focus::Tree => Focus::Chat,
            Focus::Chat => Focus::Input,
            Focus::Input => Focus::Conversations,
        }
    }
}

/// Four presses of `Tab` bring the focus back where it was, and no fewer do.
pub proof fn lemma_focus_cycle(focus: Focus)
    ensures
        focus_after(focus_after(focus_after(focus_after(focus)))) == focus,
        focus_after(focus) != focus,
        focus_after(focus_after(focus)) != focus,
        focus_after(focus_after(focus_after(focus))) != focus,
{
}

/// Who wrote a chat message.
#[derive(Clone, Copy, Debug, PartialEq, Eq, Structural)]
pub enum Role {
    User,
    Assistant,
}


/// A chat line in the view: who wrote it and what it says.
#[derive(Clone, Debug, PartialEq, Eq)]
pub struct Message {
    pub role: Role,
    pub message: String,
}

/// The mathematical value of a [`Message`].
pub struct MessageModel {
    pub role: Role,
    pub text: Seq<char>,
}

impl View for Message {
    type V = MessageModel;

    open spec fn view(&self) -> MessageModel {
        MessageModel { role: self.role, text: self.message@ }
    }
}

impl DeepView for Message {
    type V = MessageModel;

    open spec fn deep_view(&self) -> MessageModel {
        self@
    }
}

/// One message of a conversation tree, as the server reports it.
#[derive(Clone, Debug, PartialEq, Eq)]
pub struct MessageNode {
    pub id: String,
    pub parent_id: Option<String>,
    pub role: String,
    pub content: String,
    pub created_at: Option<String>,
}

/// The mathematical value of a [`MessageNode`].
pub struct NodeModel {
    pub id: Seq<char>,
    pub parent_id: Option<Seq<char>>,
    pub role: Seq<char>,
    pub content: Seq<char>,
    pub created_at: Option<Seq<char>>,
}

impl View for MessageNode {
    type V = NodeModel;

    open spec fn view(&self) -> NodeModel {
        NodeModel {
            id: self.id@,
            parent_id: self.parent_id.deep_view(),
            role: self.role@,
            content: self.content@,
            created_at: self.created_at.deep_view(),
        }
    }
}

impl DeepView for MessageNode {
    type V = NodeModel;

    open spec fn deep_view(&self) -> NodeModel {
        self@
    }
}

/// A conversation as the server lists it.
#[derive(Clone, Debug, PartialEq, Eq)]
pub struct ConversationInfo {
    pub id: String,
    pub title: String,
    pub mode: String,
    pub workspace_path: Option<String>,
    pub active_leaf_id: Option<String>,
}

/// The mathematical value of a [`ConversationInfo`].
pub struct ConversationModel {
    pub id: Seq<char>,
    pub title: Seq<char>,
    pub mode: Seq<char>,
    pub workspace_path: Option<Seq<char>>,
    pub active_leaf_id: Option<Seq<char>>,
}

impl View for ConversationInfo {
    type V = ConversationModel;

    open spec fn view(&self) -> ConversationModel {
        ConversationModel {
            id: self.id@,
            title: self.title@,
            mode: self.mode@,
            workspace_path: self.workspace_path.deep_view(),
            active_leaf_id: self.active_leaf_id.deep_view(),
        }
    }
}

impl DeepView for ConversationInfo {
    type V = ConversationModel;

    open spec fn deep_view(&self) -> ConversationModel {
        self@
    }
}

/// What the server reported of its model settings.
#[derive(Clone, Debug, PartialEq, Eq)]
pub struct Config {
    pub model_name: String,
    pub base_url: String,
    pub api_key_exist: bool,
}

/// The mathematical value of a [`Config`].
pub struct ConfigModel {
    pub model_name: Seq<char>,
    pub base_url: Seq<char>,
    pub api_key_exist: bool,
}

impl View for Config {
    type V = ConfigModel;

    open spec fn view(&self) -> ConfigModel {
        ConfigModel {
            model_name: self.model_name@,
            base_url: self.base_url@,
            api_key_exist: self.api_key_exist,
        }
    }
}


/// A conversation with every message of its tree.
#[derive(Clone, Debug, PartialEq, Eq)]
pub struct ConversationTreeResponse {
    pub conversation: ConversationInfo,
    pub messages: Vec<MessageNode>,
}

/// The mathematical value of a [`ConversationTreeResponse`].
pub struct TreeModel {
    pub conversation: ConversationModel,
    pub messages: Seq<NodeModel>,
}

impl View for ConversationTreeResponse {
    type V = TreeModel;

    open spec fn view(&self) -> TreeModel {
        TreeModel { conversation: self.conversation@, messages: self.messages.deep_view() }
    }
}

/// The messages from the root of a conversation down to one leaf.
#[derive(Clone, Debug, PartialEq, Eq)]
pub struct ConversationPathResponse {
    pub conversation_id: String,
    pub leaf_id: Option<String>,
    pub messages: Vec<MessageNode>,
}

/// The mathematical value of a [`ConversationPathResponse`] or of a
/// [`SwitchLeafResponse`]: a conversation, a leaf and the path to it.
pub struct PathModel {
    pub conversation_id: Seq<char>,
    pub leaf_id: Option<Seq<char>>,
    pub messages: Seq<NodeModel>,
}

impl View for ConversationPathResponse {
    type V = PathModel;

    open spec fn view(&self) -> PathModel {
        PathModel {
            conversation_id: self.conversation_id@,
            leaf_id: self.leaf_id.deep_view(),
            messages: self.messages.deep_view(),
        }
    }
}

/// The server's answer to a change of the active leaf.
#[derive(Clone, Debug, PartialEq, Eq)]
pub struct SwitchLeafResponse {
    pub conversation_id: String,
    pub active_leaf_id: Option<String>,
    pub messages: Vec<MessageNode>,
}

impl View for SwitchLeafResponse {
    type V = PathModel;

    open spec fn view(&self) -> PathModel {
        PathModel {
            conversation_id: self.conversation_id@,
            leaf_id: self.active_leaf_id.deep_view(),
            messages: self.messages.deep_view(),
        }
    }
}

} // verus!
