use mailkeep::folder_tree::{split_path, FolderTree, RemoteFolderDto};

fn f(path: &str, su: Option<&str>, no_select: bool) -> RemoteFolderDto {
    RemoteFolderDto {
        path: path.into(),
        special_use: su.map(str::to_string),
        has_children: false,
        no_select,
        delimiter: Some("/".into()),
    }
}

fn gmail_tree() -> FolderTree {
    FolderTree::build(vec![
        f("INBOX", Some("inbox"), false),
        f("[Gmail]", None, true), // \Noselect container
        f("[Gmail]/All Mail", Some("all"), false),
        f("[Gmail]/Sent Mail", Some("sent"), false),
    ])
}

#[test]
fn builds_parent_child_links() {
    let t = gmail_tree();
    let gmail = t.nodes.iter().position(|n| n.path == "[Gmail]").unwrap();
    assert_eq!(t.nodes[gmail].children.len(), 2);
    let all = t.nodes.iter().find(|n| n.path == "[Gmail]/All Mail").unwrap();
    assert_eq!(all.name, "All Mail");
    assert_eq!(all.depth, 1);
}

#[test]
fn cascade_check_and_uncheck() {
    let mut t = gmail_tree();
    let gmail = t.nodes.iter().position(|n| n.path == "[Gmail]").unwrap();
    t.set_subtree(gmail, true);
    assert!(t.nodes.iter().filter(|n| n.path.starts_with("[Gmail]")).all(|n| n.selected));
    t.set_subtree(gmail, false);
    assert!(t.nodes.iter().filter(|n| n.path.starts_with("[Gmail]")).all(|n| !n.selected));
}

#[test]
fn indeterminate_when_partial() {
    let mut t = gmail_tree();
    let all = t.nodes.iter().position(|n| n.path == "[Gmail]/All Mail").unwrap();
    let gmail = t.nodes.iter().position(|n| n.path == "[Gmail]").unwrap();
    t.nodes[all].selected = true;
    assert!(t.is_indeterminate(gmail));
    let sent = t.nodes.iter().position(|n| n.path == "[Gmail]/Sent Mail").unwrap();
    t.nodes[sent].selected = true;
    assert!(!t.is_indeterminate(gmail));
}

#[test]
fn default_inbox_by_special_use() {
    let mut t = gmail_tree();
    t.default_select_inbox();
    assert!(t.nodes.iter().find(|n| n.path == "INBOX").unwrap().selected);
}

#[test]
fn default_inbox_by_name_fallback() {
    let mut t = FolderTree::build(vec![f("INBOX", None, false), f("Archive", None, false)]);
    t.default_select_inbox();
    assert!(t.nodes.iter().find(|n| n.path == "INBOX").unwrap().selected);
}

#[test]
fn noselect_excluded_from_payload_but_cascades() {
    let mut t = gmail_tree();
    let gmail = t.nodes.iter().position(|n| n.path == "[Gmail]").unwrap();
    t.set_subtree(gmail, true);
    let payload = t.selected_new_folders();
    assert!(payload.iter().all(|p| !p.no_select));
    assert!(!payload.iter().any(|p| p.path == "[Gmail]"));
    assert!(payload.iter().any(|p| p.path == "[Gmail]/All Mail"));
    assert_eq!(t.selected_count(), 2);
}

#[test]
fn select_all_then_none() {
    let mut t = gmail_tree();
    t.select_all(true);
    assert_eq!(t.selected_count(), 3);
    t.select_all(false);
    assert_eq!(t.selected_count(), 0);
}

#[test]
fn build_orders_parents_first_and_keeps_every_folder() {
    let t = FolderTree::build(vec![
        f("a/b/c", None, false),
        f("a", None, false),
        f("x/y", None, false),
        f("a/b", None, false),
    ]);
    let paths: Vec<&str> = t.nodes.iter().map(|n| n.path.as_str()).collect();
    assert_eq!(paths, vec!["a", "x/y", "a/b", "a/b/c"]);
    assert_eq!(t.nodes[1].parent, None); // "x" is not listed: a root
    assert_eq!(t.nodes[2].parent, Some(0));
    assert_eq!(t.nodes[3].parent, Some(2));
    assert_eq!(t.nodes[0].children, vec![2]);
    assert_eq!(t.nodes[3].depth, 2);
    assert_eq!(t.nodes[3].name, "c");
}

#[test]
fn build_uses_each_entry_delimiter_with_slash_fallback() {
    let mut dotted = f("Lists.Rust", None, false);
    dotted.delimiter = Some(".".into());
    let mut parent = f("Lists", None, false);
    parent.delimiter = None;
    let t = FolderTree::build(vec![dotted, parent]);
    assert_eq!(t.nodes[0].path, "Lists");
    assert_eq!(t.nodes[1].parent, Some(0));
    assert_eq!(t.nodes[1].name, "Rust");
}

#[test]
fn descendants_lists_depth_first() {
    let t = FolderTree::build(vec![f("a", None, false), f("a/b", None, false), f("a/c", None, false), f("a/b/d", None, false)]);
    let mut out = Vec::new();
    t.descendants(0, &mut out);
    assert_eq!(out, vec![1, 3, 2]);
}

#[test]
fn split_path_handles_empty_delimiter() {
    assert_eq!(split_path("a/b", ""), vec!["a/b".to_string()]);
    assert_eq!(split_path("a/b", "/"), vec!["a".to_string(), "b".to_string()]);
    assert_eq!(split_path("", "/"), vec!["".to_string()]);
}

#[test]
fn default_tree_is_empty() {
    let t = FolderTree::default();
    assert_eq!(t.selected_count(), 0);
    assert!(t.selected_new_folders().is_empty());
}
