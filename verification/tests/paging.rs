use mailkeep::paging::{Pager, PagerPanel, PAGE_SIZE, SEARCH_PAGE_SIZE};

#[test]
fn account_list_pages_append() {
    let mut p: Pager<u32> = Pager::new(PAGE_SIZE);
    assert_eq!(p.panel(), PagerPanel::Loading);
    let first: Vec<u32> = (0..50).collect();
    p.finish(Ok((first, 50)), false);
    assert_eq!(p.panel(), PagerPanel::Rows { load_more: true });
    assert_eq!(p.load_more(), Some(50));
    assert_eq!(p.load_more(), None, "no second request while loading");
    let second: Vec<u32> = (50..60).collect();
    p.finish(Ok((second, 10)), true);
    assert_eq!(p.rows.len(), 60);
    assert_eq!(p.rows[55], 55);
    assert!(p.reached_end);
    assert_eq!(p.panel(), PagerPanel::Rows { load_more: false });
    assert_eq!(p.cursor as usize, p.rows.len());
}

#[test]
fn refresh_replaces_and_errors_keep_rows() {
    let mut p: Pager<u32> = Pager::new(PAGE_SIZE);
    p.finish(Ok((vec![1, 2, 3], 3)), false);
    assert_eq!(p.refresh(), Some(0));
    p.finish(Err("boom".into()), false);
    assert_eq!(p.rows, vec![1, 2, 3]);
    assert_eq!(p.error.as_deref(), Some("boom"));
    assert_eq!(p.refresh(), Some(0));
    assert_eq!(p.error, None);
    p.finish(Ok((vec![9], 1)), false);
    assert_eq!(p.rows, vec![9]);
}

#[test]
fn empty_and_failed_panels() {
    let mut p: Pager<u32> = Pager::new(PAGE_SIZE);
    p.finish(Ok((vec![], 0)), false);
    assert_eq!(p.panel(), PagerPanel::Empty);
    let mut q: Pager<u32> = Pager::new(PAGE_SIZE);
    q.finish(Err("x".into()), false);
    assert_eq!(q.panel(), PagerPanel::Nothing);
}

#[test]
fn search_cursor_counts_hits_not_rows() {
    let mut p: Pager<u32> = Pager::new(SEARCH_PAGE_SIZE);
    // 25 hits of which 2 messages are gone
    p.finish(Ok(((0..23).collect(), 25)), false);
    assert!(!p.reached_end);
    assert_eq!(p.load_more(), Some(25));
    p.finish(Ok((vec![100], 1)), true);
    assert_eq!(p.cursor, 26);
    assert!(p.reached_end);
    assert_eq!(p.rows.len(), 24);
}
