use cargo_hold::pagination::{
    clamp_limit, key_window, page_flags, CursorKind, InvalidCursorError, KeyWindow, ListFilesQuery,
    PageAction, PaginationResponse, Paginator, RangeQuery, SortOrder, DEFAULT_LIMIT, MAX_LIMIT,
    MIN_LIMIT,
};

fn request(
    order: Option<&str>,
    limit: Option<i64>,
    after: Option<&str>,
    before: Option<&str>,
) -> ListFilesQuery {
    ListFilesQuery {
        tenant_id: None,
        limit,
        order: order.map(|s| s.to_string()),
        before: before.map(|s| s.to_string()),
        after: after.map(|s| s.to_string()),
    }
}

#[test]
fn limit_defaults_to_10_and_is_clamped_to_1_and_100() {
    assert_eq!(clamp_limit(None), 10);
    assert_eq!(clamp_limit(None), DEFAULT_LIMIT);
    assert_eq!(clamp_limit(Some(1)), 1);
    assert_eq!(clamp_limit(Some(3)), 3);
    assert_eq!(clamp_limit(Some(100)), 100);
    assert_eq!(clamp_limit(Some(101)), 100);
    assert_eq!(clamp_limit(Some(0)), 1);
    assert_eq!(clamp_limit(Some(-5)), 1);
    assert_eq!(clamp_limit(Some(i64::MIN)), MIN_LIMIT);
    assert_eq!(clamp_limit(Some(i64::MAX)), MAX_LIMIT);
}

#[test]
fn order_is_ascending_only_for_asc() {
    assert_eq!(SortOrder::from_param(Some("asc")), SortOrder::Ascending);
    assert_eq!(SortOrder::from_param(Some("desc")), SortOrder::Descending);
    assert_eq!(SortOrder::from_param(None), SortOrder::Descending);
    assert_eq!(SortOrder::from_param(Some("")), SortOrder::Descending);
    assert_eq!(SortOrder::from_param(Some("ASC")), SortOrder::Descending);
    assert_eq!(SortOrder::from_param(Some("asc ")), SortOrder::Descending);
    assert_eq!(SortOrder::from_param(Some("as")), SortOrder::Descending);
    assert_eq!(SortOrder::from_param(Some("äsc")), SortOrder::Descending);
    assert_eq!(SortOrder::from_param(Some("ascending")), SortOrder::Descending);
}

#[test]
fn flags_for_all_four_inputs() {
    assert_eq!(
        page_flags(SortOrder::Descending, true),
        PaginationResponse { has_more_before: false, has_more_after: true }
    );
    assert_eq!(
        page_flags(SortOrder::Descending, false),
        PaginationResponse { has_more_before: false, has_more_after: false }
    );
    assert_eq!(
        page_flags(SortOrder::Ascending, true),
        PaginationResponse { has_more_before: true, has_more_after: false }
    );
    assert_eq!(
        page_flags(SortOrder::Ascending, false),
        PaginationResponse { has_more_before: false, has_more_after: false }
    );
}

#[test]
fn window_follows_the_direction() {
    assert_eq!(
        key_window(SortOrder::Ascending, Some(10), None),
        KeyWindow { above: Some(10), below: None }
    );
    assert_eq!(
        key_window(SortOrder::Descending, Some(10), None),
        KeyWindow { above: None, below: Some(10) }
    );
    assert_eq!(
        key_window(SortOrder::Ascending, None, Some(10)),
        KeyWindow { above: None, below: Some(10) }
    );
    assert_eq!(
        key_window(SortOrder::Descending, None, Some(10)),
        KeyWindow { above: Some(10), below: None }
    );
    assert_eq!(
        key_window(SortOrder::Ascending, Some(3), Some(9)),
        KeyWindow { above: Some(3), below: Some(9) }
    );
    assert_eq!(
        key_window(SortOrder::Descending, Some(9), Some(3)),
        KeyWindow { above: Some(3), below: Some(9) }
    );
    assert_eq!(key_window(SortOrder::Descending, None, None), KeyWindow { above: None, below: None });
}

#[test]
fn window_bounds_are_exclusive() {
    let window = KeyWindow { above: Some(3), below: Some(9) };
    assert!(!window.contains(3));
    assert!(window.contains(4));
    assert!(window.contains(8));
    assert!(!window.contains(9));
    assert!(!window.contains(i64::MIN));
    let open = KeyWindow { above: None, below: None };
    assert!(open.contains(i64::MIN));
    assert!(open.contains(i64::MAX));
    let empty = KeyWindow { above: Some(9), below: Some(3) };
    assert!(!empty.contains(5));
}

#[test]
fn request_without_cursors_goes_straight_to_the_fetch() {
    let paginator = Paginator::new(request(None, None, None, None), None);
    match paginator.next_action() {
        PageAction::Fetch(query) => assert_eq!(
            query,
            RangeQuery {
                scope: None,
                window: KeyWindow { above: None, below: None },
                order: SortOrder::Descending,
                limit: 11,
            }
        ),
        other => panic!("unexpected action {:?}", other),
    }
}

#[test]
fn fetch_asks_for_one_row_more_than_the_page() {
    for (asked, fetched) in [(Some(3), 4), (Some(100), 101), (Some(1000), 101), (Some(0), 2)] {
        let paginator = Paginator::new(request(Some("asc"), asked, None, None), Some(77));
        match paginator.next_action() {
            PageAction::Fetch(query) => {
                assert_eq!(query.limit, fetched);
                assert_eq!(query.scope, Some(77));
                assert_eq!(query.order, SortOrder::Ascending);
            },
            other => panic!("unexpected action {:?}", other),
        }
    }
}

#[test]
fn after_is_resolved_first_then_before_then_the_fetch() {
    let mut paginator =
        Paginator::new(request(Some("asc"), Some(5), Some("file_a"), Some("file_b")), None);
    match paginator.next_action() {
        PageAction::Resolve { cursor, id } => {
            assert_eq!(cursor, CursorKind::After);
            assert_eq!(id, "file_a");
        },
        other => panic!("unexpected action {:?}", other),
    }
    assert_eq!(paginator.resolve(Some(10)), Ok(()));
    match paginator.next_action() {
        PageAction::Resolve { cursor, id } => {
            assert_eq!(cursor, CursorKind::Before);
            assert_eq!(id, "file_b");
        },
        other => panic!("unexpected action {:?}", other),
    }
    assert_eq!(paginator.resolve(Some(20)), Ok(()));
    match paginator.next_action() {
        PageAction::Fetch(query) => assert_eq!(
            query,
            RangeQuery {
                scope: None,
                window: KeyWindow { above: Some(10), below: Some(20) },
                order: SortOrder::Ascending,
                limit: 6,
            }
        ),
        other => panic!("unexpected action {:?}", other),
    }
    assert_eq!(paginator.resolve(Some(99)), Ok(()));
    match paginator.next_action() {
        PageAction::Fetch(query) => {
            assert_eq!(query.window, KeyWindow { above: Some(10), below: Some(20) })
        },
        other => panic!("unexpected action {:?}", other),
    }
}

#[test]
fn descending_request_turns_the_window_round() {
    let mut paginator =
        Paginator::new(request(Some("desc"), None, Some("file_a"), Some("file_b")), None);
    assert_eq!(paginator.resolve(Some(20)), Ok(()));
    assert_eq!(paginator.resolve(Some(10)), Ok(()));
    match paginator.next_action() {
        PageAction::Fetch(query) => {
            assert_eq!(query.window, KeyWindow { above: Some(10), below: Some(20) });
            assert_eq!(query.order, SortOrder::Descending);
        },
        other => panic!("unexpected action {:?}", other),
    }
}

#[test]
fn unknown_cursor_ends_the_request() {
    let mut paginator = Paginator::new(request(None, None, Some("file_x"), Some("file_y")), None);
    assert_eq!(paginator.resolve(None), Err(InvalidCursorError::After));
    match paginator.next_action() {
        PageAction::Resolve { cursor, .. } => assert_eq!(cursor, CursorKind::After),
        other => panic!("unexpected action {:?}", other),
    }
    assert_eq!(paginator.resolve(Some(1)), Ok(()));
    assert_eq!(paginator.resolve(None), Err(InvalidCursorError::Before));

    let mut paginator = Paginator::new(request(None, None, None, Some("file_y")), None);
    assert_eq!(paginator.resolve(None), Err(InvalidCursorError::Before));
}

#[test]
fn invalid_cursor_messages() {
    assert_eq!(InvalidCursorError::After.message(), "Invalid after id");
    assert_eq!(InvalidCursorError::Before.message(), "Invalid before id");
}

#[test]
fn finish_cuts_the_page_and_sets_the_probed_flag() {
    let paginator = Paginator::new(request(None, Some(3), None, None), None);
    let page = paginator.finish(vec![5, 4, 3, 2]);
    assert_eq!(page.items, vec![5, 4, 3]);
    assert_eq!(page.pagination, PaginationResponse { has_more_before: false, has_more_after: true });

    let page = paginator.finish(vec![5, 4, 3]);
    assert_eq!(page.items, vec![5, 4, 3]);
    assert_eq!(page.pagination, PaginationResponse { has_more_before: false, has_more_after: false });

    let page = paginator.finish(Vec::<i64>::new());
    assert!(page.items.is_empty());
    assert_eq!(page.pagination, PaginationResponse { has_more_before: false, has_more_after: false });

    let paginator = Paginator::new(request(Some("asc"), Some(2), None, None), None);
    let page = paginator.finish(vec!["a", "b", "c"]);
    assert_eq!(page.items, vec!["a", "b"]);
    assert_eq!(page.pagination, PaginationResponse { has_more_before: true, has_more_after: false });

    let page = paginator.finish(vec!["a"]);
    assert_eq!(page.items, vec!["a"]);
    assert_eq!(page.pagination, PaginationResponse { has_more_before: false, has_more_after: false });
}
