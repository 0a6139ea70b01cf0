use tui::tree::{branch_depth, branch_marker, child_count, preview, tree_rows, tree_scroll, TreeRow};
use tui::types::MessageNode;

fn node(id: &str, parent: Option<&str>, role: &str, content: &str) -> MessageNode {
    MessageNode {
        id: id.to_string(),
        parent_id: parent.map(|p| p.to_string()),
        role: role.to_string(),
        content: content.to_string(),
        created_at: None,
    }
}

fn forked() -> Vec<MessageNode> {
    vec![
        node("r", None, "user", "Hello there, friend\nsecond"),
        node("a", Some("r"), "assistant", "Hi"),
        node("b", Some("a"), "user", "first branch"),
        node("c", Some("a"), "user", "second branch"),
        node("d", Some("c"), "assistant", ""),
    ]
}

#[test]
fn children_are_counted_by_parent_id() {
    let nodes = forked();
    assert_eq!(child_count(&nodes, "a"), 2);
    assert_eq!(child_count(&nodes, "r"), 1);
    assert_eq!(child_count(&nodes, "d"), 0);
    assert_eq!(child_count(&nodes, "missing"), 0);
}

#[test]
fn depth_grows_only_at_forks() {
    let nodes = forked();
    assert_eq!(branch_depth(&nodes, &nodes[0]), 0);
    assert_eq!(branch_depth(&nodes, &nodes[1]), 0);
    assert_eq!(branch_depth(&nodes, &nodes[2]), 1);
    assert_eq!(branch_depth(&nodes, &nodes[3]), 1);
    assert_eq!(branch_depth(&nodes, &nodes[4]), 1);
}

#[test]
fn linear_conversation_stays_flat() {
    let nodes = vec![
        node("1", None, "user", "q"),
        node("2", Some("1"), "assistant", "a"),
        node("3", Some("2"), "user", "q2"),
    ];
    for (i, n) in nodes.iter().enumerate() {
        assert_eq!(branch_depth(&nodes, n), 0);
        assert_eq!(branch_marker(&nodes, i, n), "  ");
    }
}

#[test]
fn cyclic_parents_stop_after_one_lap() {
    let nodes = vec![
        node("x", Some("y"), "user", ""),
        node("y", Some("x"), "user", ""),
        node("z", Some("y"), "user", ""),
    ];
    assert_eq!(branch_depth(&nodes, &nodes[0]), 2);
    assert!(branch_depth(&nodes, &nodes[2]) <= nodes.len());
}

#[test]
fn missing_parent_ends_the_walk() {
    let nodes = vec![node("x", Some("gone"), "user", "")];
    assert_eq!(branch_depth(&nodes, &nodes[0]), 0);
    assert_eq!(branch_depth(&[], &nodes[0]), 0);
}

#[test]
fn branch_glyphs_mark_siblings() {
    let nodes = forked();
    assert_eq!(branch_marker(&nodes, 0, &nodes[0]), "  ");
    assert_eq!(branch_marker(&nodes, 1, &nodes[1]), "  ");
    assert_eq!(branch_marker(&nodes, 2, &nodes[2]), "├─");
    assert_eq!(branch_marker(&nodes, 3, &nodes[3]), "└─");
    assert_eq!(branch_marker(&nodes, 4, &nodes[4]), "  ");
}

#[test]
fn preview_takes_ten_characters_of_the_first_line() {
    assert_eq!(preview("Hello there, friend\nsecond"), "Hello ther");
    assert_eq!(preview("short\nlonger second line"), "short");
    assert_eq!(preview(""), "");
    assert_eq!(preview("ünïcödé chars here"), "ünïcödé ch");
}

#[test]
fn rows_describe_every_node() {
    let nodes = forked();
    let rows = tree_rows(&nodes, 2, &Some("d".to_string()));
    let expected = vec![
        TreeRow { selected: false, active: false, indent: 0, branch: "  ", from_user: true, preview: "Hello ther".to_string() },
        TreeRow { selected: false, active: false, indent: 0, branch: "  ", from_user: false, preview: "Hi".to_string() },
        TreeRow { selected: true, active: false, indent: 0, branch: "├─", from_user: true, preview: "first bran".to_string() },
        TreeRow { selected: false, active: false, indent: 0, branch: "└─", from_user: true, preview: "second bra".to_string() },
        TreeRow { selected: false, active: true, indent: 0, branch: "  ", from_user: false, preview: String::new() },
    ];
    assert_eq!(rows, expected);
}

#[test]
fn nested_forks_indent() {
    let nodes = vec![
        node("r", None, "user", "root"),
        node("a", Some("r"), "assistant", "a"),
        node("b", Some("r"), "assistant", "b"),
        node("c", Some("a"), "user", "c"),
        node("d", Some("a"), "user", "d"),
    ];
    let rows = tree_rows(&nodes, 0, &None);
    assert_eq!(branch_depth(&nodes, &nodes[3]), 2);
    assert_eq!(rows[3].indent, 1);
    assert_eq!(rows[1].indent, 0);
    assert_eq!(rows[1].branch, "├─");
    assert_eq!(rows[2].branch, "└─");
}

#[test]
fn tree_scroll_keeps_the_cursor_visible() {
    assert_eq!(tree_scroll(7, 5), 3);
    assert_eq!(tree_scroll(4, 5), 0);
    assert_eq!(tree_scroll(5, 5), 1);
    assert_eq!(tree_scroll(3, 0), 0);
}
