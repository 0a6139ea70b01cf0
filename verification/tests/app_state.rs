use tui::app::{chat_view_size, workspace_title, App, AppEvent, ChatLine, Command, Key, node_to_message};
use tui::types::{
    AppStatus, Config, ConversationInfo, ConversationPathResponse, ConversationTreeResponse, Focus,
    Message, MessageNode, Role, SwitchLeafResponse,
};

fn config() -> Config {
    Config { model_name: "m".to_string(), base_url: "http://x".to_string(), api_key_exist: true }
}

fn conversation(id: &str, title: &str) -> ConversationInfo {
    ConversationInfo {
        id: id.to_string(),
        title: title.to_string(),
        mode: "general".to_string(),
        workspace_path: None,
        active_leaf_id: None,
    }
}

fn node(id: &str, parent: Option<&str>, role: &str, content: &str) -> MessageNode {
    MessageNode {
        id: id.to_string(),
        parent_id: parent.map(|p| p.to_string()),
        role: role.to_string(),
        content: content.to_string(),
        created_at: None,
    }
}

fn msg(role: Role, text: &str) -> Message {
    Message { role, message: text.to_string() }
}

fn ready_app() -> App {
    let mut app = App::new(config());
    app.status = AppStatus::Ready;
    app
}

fn type_text(app: &mut App, text: &str) {
    for c in text.chars() {
        app.handle_key(Key::Char(c), 0);
    }
}

fn submit(app: &mut App, text: &str) -> Option<Command> {
    app.focus = Focus::Input;
    app.input = text.to_string();
    let (running, command) = app.handle_key(Key::Enter, 0);
    assert!(running);
    command
}

#[test]
fn new_app_starts_loading_the_default_conversation() {
    let app = App::new(config());
    assert_eq!(app.input, "");
    assert!(app.messages.is_empty());
    assert_eq!(app.chat_scroll, 0);
    assert_eq!(app.status, AppStatus::Loading);
    assert_eq!(app.config, config());
    assert_eq!(app.conversation_id, "default");
    assert_eq!(app.conversation_title, "Default");
    assert!(app.conversations.is_empty());
    assert_eq!(app.selected_conversation_index, 0);
    assert!(app.tree_nodes.is_empty());
    assert_eq!(app.selected_tree_index, 0);
    assert_eq!(app.active_leaf_id, None);
    assert_eq!(app.focus, Focus::Input);
}

#[test]
fn status_labels_and_interaction() {
    assert_eq!(AppStatus::Ready.label(), "ready");
    assert_eq!(AppStatus::Loading.label(), "loading");
    assert_eq!(AppStatus::Thinking.label(), "thinking");
    assert_eq!(AppStatus::Streaming.label(), "streaming");
    assert_eq!(AppStatus::SwitchingBranch.label(), "switching");
    assert_eq!(AppStatus::Error.label(), "error");
    assert!(AppStatus::Ready.can_interact());
    assert!(AppStatus::Error.can_interact());
    assert!(!AppStatus::Loading.can_interact());
    assert!(!AppStatus::Thinking.can_interact());
    assert!(!AppStatus::Streaming.can_interact());
    assert!(!AppStatus::SwitchingBranch.can_interact());
}

#[test]
fn focus_cycles_through_four_panels() {
    assert_eq!(Focus::Conversations.next(), Focus::Tree);
    assert_eq!(Focus::Tree.next(), Focus::Chat);
    assert_eq!(Focus::Chat.next(), Focus::Input);
    assert_eq!(Focus::Input.next(), Focus::Conversations);
    let mut f = Focus::Chat;
    for _ in 0..4 {
        f = f.next();
    }
    assert_eq!(f, Focus::Chat);
}

#[test]
fn escape_quits_and_tab_moves_focus() {
    let mut app = ready_app();
    assert_eq!(app.handle_key(Key::Tab, 0), (true, None));
    assert_eq!(app.focus, Focus::Conversations);
    assert_eq!(app.handle_key(Key::Esc, 0), (false, None));
    assert_eq!(app.focus, Focus::Conversations);
}

#[test]
fn conversation_list_navigation_stays_in_range() {
    let mut app = ready_app();
    app.focus = Focus::Conversations;
    app.handle_key(Key::Down, 0);
    assert_eq!(app.selected_conversation_index, 0);
    app.conversations = vec![conversation("a", "A"), conversation("b", "B"), conversation("c", "C")];
    app.handle_key(Key::Down, 0);
    assert_eq!(app.selected_conversation_index, 1);
    app.handle_key(Key::Down, 0);
    app.handle_key(Key::Down, 0);
    assert_eq!(app.selected_conversation_index, 2);
    app.handle_key(Key::Up, 0);
    assert_eq!(app.selected_conversation_index, 1);
    app.handle_key(Key::Up, 0);
    app.handle_key(Key::Up, 0);
    assert_eq!(app.selected_conversation_index, 0);
}

#[test]
fn enter_on_a_conversation_loads_it_when_idle() {
    let mut app = App::new(config());
    app.focus = Focus::Conversations;
    app.conversations = vec![conversation("a", "A"), conversation("b", "B")];
    app.selected_conversation_index = 1;
    assert_eq!(app.handle_key(Key::Enter, 0), (true, None));
    assert_eq!(app.status, AppStatus::Loading);
    app.status = AppStatus::Error;
    assert_eq!(
        app.handle_key(Key::Enter, 0),
        (true, Some(Command::LoadHistory("b".to_string())))
    );
    assert_eq!(app.status, AppStatus::Loading);
}

#[test]
fn enter_on_a_tree_node_switches_branch() {
    let mut app = ready_app();
    app.focus = Focus::Tree;
    app.tree_nodes = vec![node("n1", None, "user", "q"), node("n2", Some("n1"), "assistant", "a")];
    app.handle_key(Key::Down, 0);
    app.handle_key(Key::Down, 0);
    assert_eq!(app.selected_tree_index, 1);
    assert_eq!(
        app.handle_key(Key::Enter, 0),
        (
            true,
            Some(Command::SwitchBranch {
                conversation_id: "default".to_string(),
                message_id: "n2".to_string()
            })
        )
    );
    assert_eq!(app.status, AppStatus::SwitchingBranch);
    assert_eq!(app.handle_key(Key::Enter, 0), (true, None));
    app.handle_key(Key::Up, 0);
    assert_eq!(app.selected_tree_index, 0);
}

#[test]
fn chat_scrolling_is_bounded() {
    let mut app = ready_app();
    app.focus = Focus::Chat;
    app.chat_scroll = u16::MAX;
    app.handle_key(Key::Up, 10);
    assert_eq!(app.chat_scroll, 9);
    app.chat_scroll = u16::MAX;
    app.handle_key(Key::Down, 10);
    assert_eq!(app.chat_scroll, 10);
    app.chat_scroll = 3;
    app.handle_key(Key::PageUp, 10);
    assert_eq!(app.chat_scroll, 0);
    app.handle_key(Key::Up, 10);
    assert_eq!(app.chat_scroll, 0);
    app.chat_scroll = 8;
    app.handle_key(Key::PageDown, 10);
    assert_eq!(app.chat_scroll, 10);
    app.chat_scroll = 2;
    app.handle_key(Key::PageDown, 10);
    assert_eq!(app.chat_scroll, 7);
    app.chat_scroll = u16::MAX;
    app.handle_key(Key::PageDown, 10);
    assert_eq!(app.chat_scroll, 10);
}

#[test]
fn typing_and_backspace_edit_the_input() {
    let mut app = ready_app();
    type_text(&mut app, "hé");
    assert_eq!(app.input, "hé");
    app.handle_key(Key::Backspace, 0);
    assert_eq!(app.input, "h");
    app.handle_key(Key::Backspace, 0);
    app.handle_key(Key::Backspace, 0);
    assert_eq!(app.input, "");
    app.focus = Focus::Chat;
    app.handle_key(Key::Char('x'), 0);
    assert_eq!(app.input, "");
}

#[test]
fn other_keys_change_nothing() {
    let mut app = ready_app();
    app.input = "abc".to_string();
    assert_eq!(app.handle_key(Key::Other, 0), (true, None));
    app.focus = Focus::Tree;
    assert_eq!(app.handle_key(Key::PageUp, 0), (true, None));
    assert_eq!(app.input, "abc");
}

#[test]
fn sending_a_message_starts_a_stream() {
    let mut app = ready_app();
    let command = submit(&mut app, "  hello  ");
    assert_eq!(
        command,
        Some(Command::ChatStream {
            message: "hello".to_string(),
            conversation_id: "default".to_string()
        })
    );
    assert_eq!(app.messages, vec![msg(Role::User, "hello"), msg(Role::Assistant, "")]);
    assert_eq!(app.chat_scroll, u16::MAX);
    assert_eq!(app.status, AppStatus::Streaming);
    assert_eq!(app.input, "");
}

#[test]
fn busy_or_blank_input_sends_nothing() {
    let mut app = App::new(config());
    assert_eq!(submit(&mut app, "hello"), None);
    assert_eq!(app.input, "hello");
    assert!(app.messages.is_empty());
    app.status = AppStatus::Ready;
    assert_eq!(submit(&mut app, "  \t "), None);
    assert_eq!(app.input, "  \t ");
}

#[test]
fn new_conversation_commands() {
    let mut app = ready_app();
    assert_eq!(
        submit(&mut app, "/new"),
        Some(Command::CreateConversation { title: "New conversation".to_string(), workspace_path: None })
    );
    assert_eq!(app.status, AppStatus::Loading);
    app.status = AppStatus::Ready;
    assert_eq!(
        submit(&mut app, "/new   "),
        Some(Command::CreateConversation { title: "New conversation".to_string(), workspace_path: None })
    );
    app.status = AppStatus::Ready;
    assert_eq!(
        submit(&mut app, "/new  Project X "),
        Some(Command::CreateConversation { title: "Project X".to_string(), workspace_path: None })
    );
    app.status = AppStatus::Ready;
    assert_eq!(submit(&mut app, "/newer"), Some(Command::ChatStream {
        message: "/newer".to_string(),
        conversation_id: "default".to_string()
    }));
}

#[test]
fn workspace_command_titles_by_final_component() {
    let mut app = ready_app();
    assert_eq!(
        submit(&mut app, "/workspace  /home/u/proj "),
        Some(Command::CreateConversation {
            title: "proj".to_string(),
            workspace_path: Some("/home/u/proj".to_string())
        })
    );
    assert_eq!(app.status, AppStatus::Loading);
    assert_eq!(app.input, "");
    app.status = AppStatus::Ready;
    assert_eq!(
        submit(&mut app, "/workspace dir/"),
        Some(Command::CreateConversation { title: "dir".to_string(), workspace_path: Some("dir/".to_string()) })
    );
    app.status = AppStatus::Ready;
    assert_eq!(
        submit(&mut app, "/workspace /"),
        Some(Command::CreateConversation { title: "Workspace".to_string(), workspace_path: Some("/".to_string()) })
    );
    app.status = AppStatus::Ready;
    assert_eq!(
        submit(&mut app, "/workspace a/.."),
        Some(Command::CreateConversation { title: "Workspace".to_string(), workspace_path: Some("a/..".to_string()) })
    );
}

#[test]
fn workspace_title_defaults() {
    assert_eq!(workspace_title(None), "Workspace");
    assert_eq!(workspace_title(Some("src".to_string())), "src");
}

#[test]
fn use_command_loads_a_conversation() {
    let mut app = ready_app();
    app.focus = Focus::Input;
    app.input = "/use  abc ".to_string();
    assert_eq!(app.handle_key(Key::Enter, 0), (true, Some(Command::LoadHistory("abc".to_string()))));
    assert_eq!(app.status, AppStatus::Loading);
    assert_eq!(app.focus, Focus::Input);
}

#[test]
fn delete_command_protects_the_default_conversation() {
    let mut app = ready_app();
    assert_eq!(submit(&mut app, "/delete"), None);
    assert_eq!(app.input, "");
    assert!(app.messages.is_empty());
    app.conversations = vec![conversation("default", "Default"), conversation("other", "Other")];
    assert_eq!(submit(&mut app, "/delete"), None);
    assert_eq!(app.messages, vec![msg(Role::Assistant, "Default conversation cannot be deleted.")]);
    assert_eq!(app.status, AppStatus::Ready);
    app.selected_conversation_index = 1;
    assert_eq!(submit(&mut app, "/delete"), Some(Command::DeleteConversation("other".to_string())));
    assert_eq!(app.status, AppStatus::Loading);
}

#[test]
fn clear_command_clears_the_current_conversation() {
    let mut app = ready_app();
    app.conversation_id = "c7".to_string();
    assert_eq!(submit(&mut app, "/clear"), Some(Command::ClearHistory("c7".to_string())));
    assert_eq!(app.status, AppStatus::Loading);
}

#[test]
fn loaded_conversation_list_selects_the_current_one() {
    let mut app = ready_app();
    let events = app.handle_event(AppEvent::ConversationsLoaded(vec![
        conversation("a", "A"),
        conversation("default", "Default"),
        conversation("b", "B"),
    ]));
    assert!(events.is_empty());
    assert_eq!(app.selected_conversation_index, 1);
    assert_eq!(app.conversations.len(), 3);
    app.conversation_id = "zzz".to_string();
    app.handle_event(AppEvent::ConversationsLoaded(vec![conversation("a", "A"), conversation("b", "B")]));
    assert_eq!(app.selected_conversation_index, 0);
}

fn tree_response(active: Option<&str>) -> ConversationTreeResponse {
    let mut info = conversation("c1", "Trip plans");
    info.active_leaf_id = active.map(|a| a.to_string());
    ConversationTreeResponse {
        conversation: info,
        messages: vec![
            node("n1", None, "user", "where to?"),
            node("n2", Some("n1"), "assistant", "Lisbon"),
            node("n3", Some("n1"), "assistant", "Porto"),
        ],
    }
}

fn path_response() -> ConversationPathResponse {
    ConversationPathResponse {
        conversation_id: "c1".to_string(),
        leaf_id: Some("n3".to_string()),
        messages: vec![node("n1", None, "user", "where to?"), node("n3", Some("n1"), "assistant", "Porto")],
    }
}

#[test]
fn loaded_history_replaces_the_view() {
    let mut app = App::new(config());
    let commands = app.handle_event(AppEvent::HistoryLoaded { tree: tree_response(Some("n2")), path: path_response() });
    assert_eq!(commands, vec![Command::LoadConversations]);
    assert_eq!(app.conversation_id, "c1");
    assert_eq!(app.conversation_title, "Trip plans");
    assert_eq!(app.active_leaf_id, Some("n3".to_string()));
    assert_eq!(app.tree_nodes.len(), 3);
    assert_eq!(app.selected_tree_index, 1);
    assert_eq!(app.messages, vec![msg(Role::User, "where to?"), msg(Role::Assistant, "Porto")]);
    assert_eq!(app.chat_scroll, u16::MAX);
    assert_eq!(app.status, AppStatus::Ready);
}

#[test]
fn loaded_history_selects_the_last_node_without_a_known_leaf() {
    let mut app = App::new(config());
    app.handle_event(AppEvent::HistoryLoaded { tree: tree_response(Some("gone")), path: path_response() });
    assert_eq!(app.selected_tree_index, 2);
    app.handle_event(AppEvent::HistoryLoaded { tree: tree_response(None), path: path_response() });
    assert_eq!(app.selected_tree_index, 2);
    let empty = ConversationTreeResponse { conversation: conversation("c1", "T"), messages: vec![] };
    app.handle_event(AppEvent::HistoryLoaded { tree: empty, path: path_response() });
    assert_eq!(app.selected_tree_index, 0);
}

#[test]
fn switched_branch_shows_its_path() {
    let mut app = ready_app();
    app.status = AppStatus::SwitchingBranch;
    let commands = app.handle_event(AppEvent::BranchSwitched(SwitchLeafResponse {
        conversation_id: "c1".to_string(),
        active_leaf_id: Some("n2".to_string()),
        messages: vec![node("n1", None, "user", "q"), node("n2", Some("n1"), "bot", "a")],
    }));
    assert!(commands.is_empty());
    assert_eq!(app.active_leaf_id, Some("n2".to_string()));
    assert_eq!(app.messages, vec![msg(Role::User, "q"), msg(Role::Assistant, "a")]);
    assert_eq!(app.status, AppStatus::Ready);
    assert_eq!(app.chat_scroll, u16::MAX);
}

#[test]
fn created_conversation_is_opened() {
    let mut app = ready_app();
    app.messages = vec![msg(Role::User, "old")];
    app.tree_nodes = vec![node("x", None, "user", "old")];
    app.selected_tree_index = 0;
    app.focus = Focus::Chat;
    app.chat_scroll = 4;
    let commands = app.handle_event(AppEvent::ConversationCreated(conversation("new", "Fresh")));
    assert_eq!(commands, vec![Command::LoadHistory("new".to_string()), Command::LoadConversations]);
    assert_eq!(app.conversation_id, "new");
    assert_eq!(app.conversation_title, "Fresh");
    assert!(app.messages.is_empty());
    assert!(app.tree_nodes.is_empty());
    assert_eq!(app.active_leaf_id, None);
    assert_eq!(app.chat_scroll, 0);
    assert_eq!(app.status, AppStatus::Loading);
    assert_eq!(app.focus, Focus::Input);
}

#[test]
fn cleared_history_empties_the_view() {
    let mut app = ready_app();
    app.status = AppStatus::Loading;
    app.messages = vec![msg(Role::User, "old")];
    app.active_leaf_id = Some("x".to_string());
    app.focus = Focus::Tree;
    assert!(app.handle_event(AppEvent::HistoryCleared).is_empty());
    assert!(app.messages.is_empty());
    assert_eq!(app.active_leaf_id, None);
    assert_eq!(app.status, AppStatus::Ready);
    assert_eq!(app.focus, Focus::Input);
}

#[test]
fn streamed_chunks_fill_the_reply() {
    let mut app = ready_app();
    submit(&mut app, "hi");
    app.chat_scroll = 3;
    for chunk in tui::text::split_text_for_fake_stream("Hello, world", 4) {
        assert!(app.handle_event(AppEvent::AssistantChunk(chunk)).is_empty());
    }
    assert_eq!(app.messages, vec![msg(Role::User, "hi"), msg(Role::Assistant, "Hello, world")]);
    assert_eq!(app.chat_scroll, u16::MAX);
    let commands = app.handle_event(AppEvent::AssistantDone);
    assert_eq!(commands, vec![Command::LoadHistory("default".to_string())]);
    assert_eq!(app.status, AppStatus::Loading);
}

#[test]
fn chunk_after_a_user_line_is_dropped() {
    let mut app = ready_app();
    app.messages = vec![msg(Role::User, "q")];
    app.handle_event(AppEvent::AssistantChunk("x".to_string()));
    assert_eq!(app.messages, vec![msg(Role::User, "q")]);
    assert_eq!(app.chat_scroll, u16::MAX);
}

#[test]
fn errors_are_shown_in_the_chat() {
    let mut app = ready_app();
    app.messages = vec![msg(Role::Assistant, "partial ")];
    app.handle_event(AppEvent::AssistantError("boom".to_string()));
    assert_eq!(app.messages, vec![msg(Role::Assistant, "partial Error: boom")]);
    assert_eq!(app.status, AppStatus::Error);
    let mut other = App::new(config());
    other.handle_event(AppEvent::AssistantError("offline".to_string()));
    assert_eq!(other.messages, vec![msg(Role::Assistant, "Error: offline")]);
    assert_eq!(other.status, AppStatus::Error);
}

#[test]
fn deleted_conversation_returns_to_default() {
    let mut app = ready_app();
    app.conversation_id = "other".to_string();
    app.conversation_title = "Other".to_string();
    app.messages = vec![msg(Role::User, "x")];
    let commands = app.handle_event(AppEvent::ConversationDeleted);
    assert_eq!(
        commands,
        vec![Command::LoadConversations, Command::LoadHistory("default".to_string())]
    );
    assert_eq!(app.conversation_id, "default");
    assert_eq!(app.conversation_title, "Default");
    assert!(app.messages.is_empty());
    assert_eq!(app.status, AppStatus::Loading);
    assert_eq!(app.focus, Focus::Conversations);
}

#[test]
fn approval_events_leave_the_state_alone() {
    let mut app = ready_app();
    app.messages = vec![msg(Role::User, "x")];
    assert!(app.handle_event(AppEvent::ApprovalCompleted("done".to_string())).is_empty());
    assert!(app.handle_event(AppEvent::ApprovalDenied("no".to_string())).is_empty());
    assert_eq!(app.messages, vec![msg(Role::User, "x")]);
    assert_eq!(app.status, AppStatus::Ready);
}

#[test]
fn node_roles_map_to_chat_roles() {
    assert_eq!(node_to_message(node("1", None, "user", "q")), msg(Role::User, "q"));
    assert_eq!(node_to_message(node("2", None, "assistant", "a")), msg(Role::Assistant, "a"));
    assert_eq!(node_to_message(node("3", None, "User", "b")), msg(Role::Assistant, "b"));
}

#[test]
fn scroll_limit_counts_wrapped_rows() {
    let mut app = ready_app();
    assert_eq!(app.max_chat_scroll(10, 0), 1);
    assert_eq!(app.max_chat_scroll(10, 5), 0);
    app.messages = vec![msg(Role::User, "hello world"), msg(Role::Assistant, "abc\n\n\ndef")];
    assert_eq!(app.max_chat_scroll(10, 0), 6);
    assert_eq!(app.max_chat_scroll(10, 2), 4);
    assert_eq!(app.max_chat_scroll(10, 100), 0);
    assert_eq!(app.max_chat_scroll(3, 0), 11 + 7);
    app.messages.push(msg(Role::Assistant, ""));
    assert_eq!(app.max_chat_scroll(10, 0), 6);
}

#[test]
fn scroll_limit_keeps_the_low_sixteen_bits() {
    let mut app = ready_app();
    app.messages = vec![msg(Role::User, &"x".repeat(70000))];
    assert_eq!(app.max_chat_scroll(6, 0), 4464);
}

#[test]
fn shown_scroll_is_clamped_to_the_limit() {
    let mut app = ready_app();
    app.messages = vec![msg(Role::User, "hello world"), msg(Role::Assistant, "abc\n\n\ndef")];
    app.chat_scroll = u16::MAX;
    assert_eq!(app.chat_view_scroll(12, 4), 4);
    app.chat_scroll = 1;
    assert_eq!(app.chat_view_scroll(12, 4), 1);
}

#[test]
fn chat_lines_label_the_first_line() {
    let mut app = ready_app();
    app.messages = vec![msg(Role::User, "hi\n\n\nthere"), msg(Role::Assistant, ""), msg(Role::Assistant, "ok")];
    assert_eq!(
        app.chat_lines(),
        vec![
            ChatLine { from_user: true, first: true, text: "hi" },
            ChatLine { from_user: true, first: false, text: "" },
            ChatLine { from_user: true, first: false, text: "there" },
            ChatLine { from_user: false, first: true, text: "ok" },
        ]
    );
}

#[test]
fn chat_view_size_subtracts_panels_and_borders() {
    assert_eq!(chat_view_size(100, 30), (66, 23));
    assert_eq!(chat_view_size(10, 3), (0, 0));
}

#[test]
fn config_from_server_status() {
    let c = Config::from_status(true, Some("gpt".to_string()), None);
    assert_eq!(c, Config { model_name: "gpt".to_string(), base_url: "unknown".to_string(), api_key_exist: true });
    assert_eq!(
        Config::offline(),
        Config { model_name: "unknown".to_string(), base_url: "offline".to_string(), api_key_exist: false }
    );
}

#[test]
fn replies_do_not_touch_the_input_box() {
    let mut app = ready_app();
    app.input = "half-typed".to_string();
    app.handle_event(AppEvent::AssistantError("x".to_string()));
    app.handle_event(AppEvent::ConversationDeleted);
    app.handle_event(AppEvent::HistoryLoaded { tree: tree_response(None), path: path_response() });
    assert_eq!(app.input, "half-typed");
    assert_eq!(app.config, config());
}
