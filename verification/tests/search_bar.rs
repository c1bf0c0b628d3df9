use mailkeep::search_bar::{SearchBarState, SearchEvent};

fn typed(s: &str) -> SearchBarState {
    let mut b = SearchBarState::new();
    b.step(SearchEvent::Focus);
    b.step(SearchEvent::Input(s.into()));
    b
}

#[test]
fn typing_shows_completion_and_remembers_hint() {
    let mut b = SearchBarState::new();
    b.step(SearchEvent::Focus);
    assert!(b.show_hint());
    let fx = b.step(SearchEvent::Input("fol".into()));
    assert!(fx.persist_hint_seen);
    assert_eq!(b.completion, "der:");
    assert!(!b.show_hint());
    let fx = b.step(SearchEvent::Input("fold".into()));
    assert!(!fx.persist_hint_seen, "the hint is remembered only once");
}

#[test]
fn tab_accepts_then_cycles() {
    let mut b = typed("a");
    assert_eq!(b.completion, "ccount:");
    let fx = b.step(SearchEvent::TabKey);
    assert!(fx.prevent_default);
    assert_eq!(b.query, "account:");
    assert_eq!(b.cycle_prefix, "a");
    assert_eq!(b.cycle_idx, 1);
    b.step(SearchEvent::TabKey);
    assert_eq!(b.query, "after:");
    b.step(SearchEvent::TabKey);
    assert_eq!(b.query, "attachments:");
    b.step(SearchEvent::TabKey);
    assert_eq!(b.query, "account:");
}

#[test]
fn tab_without_completion_moves_focus() {
    let mut b = typed("from:x ");
    assert_eq!(b.completion, "");
    let fx = b.step(SearchEvent::TabKey);
    assert!(!fx.prevent_default);
    assert_eq!(b.query, "from:x ");
}

#[test]
fn enter_submits_trimmed_or_clears() {
    let mut b = typed("  from:amazon  ");
    let fx = b.step(SearchEvent::EnterKey);
    assert!(fx.close_message);
    assert_eq!(b.active_search.as_deref(), Some("from:amazon"));
    b.step(SearchEvent::Input("   ".into()));
    b.step(SearchEvent::EnterKey);
    assert_eq!(b.active_search, None);
}

#[test]
fn escape_first_drops_completion_then_clears() {
    let mut b = typed("fol");
    b.step(SearchEvent::EnterKey);
    b.step(SearchEvent::Input("fol".into()));
    b.step(SearchEvent::EscapeKey);
    assert_eq!(b.completion, "");
    assert_eq!(b.query, "fol");
    assert!(b.active_search.is_some());
    b.step(SearchEvent::EscapeKey);
    assert_eq!(b.query, "");
    assert_eq!(b.active_search, None);
}

#[test]
fn other_keys_drop_the_cycle() {
    let mut b = typed("a");
    b.step(SearchEvent::TabKey);
    b.step(SearchEvent::OtherKey);
    assert_eq!(b.cycle_prefix, "");
    assert_eq!(b.cycle_idx, 0);
}

#[test]
fn placeholder_rotates_while_focused_and_empty() {
    let mut b = SearchBarState::new();
    assert_eq!(b.placeholder(), "Search mail…");
    b.step(SearchEvent::Focus);
    assert_eq!(b.placeholder(), "Try: from:amazon");
    b.step(SearchEvent::TipTimer);
    assert_eq!(b.placeholder(), "Try: subject:\"order confirmation\"");
    for _ in 0..5 {
        b.step(SearchEvent::TipTimer);
    }
    assert_eq!(b.placeholder(), "Try: from:amazon");
    b.step(SearchEvent::Blur);
    b.step(SearchEvent::TipTimer);
    assert_eq!(b.tip_index, 0);
}

#[test]
fn help_and_clear_and_home() {
    let mut b = SearchBarState::new();
    b.step(SearchEvent::HintSeenStored);
    b.step(SearchEvent::Focus);
    assert!(!b.show_hint());
    b.step(SearchEvent::ToggleHelp);
    assert!(b.show_hint());
    b.step(SearchEvent::Input("x".into()));
    b.step(SearchEvent::EnterKey);
    b.step(SearchEvent::Clear);
    assert_eq!(b.query, "");
    assert_eq!(b.active_search, None);
    b.step(SearchEvent::Input("y".into()));
    b.step(SearchEvent::EnterKey);
    b.go_home();
    assert_eq!(b.query, "");
    assert_eq!(b.active_search, None);
}
