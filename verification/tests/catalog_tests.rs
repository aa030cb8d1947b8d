use cargo_hold::catalog::{Catalog, Row};
use cargo_hold::pagination::{
    InvalidCursorError, KeyWindow, ListFilesQuery, PaginationResponse, RangeQuery, SortOrder,
};
use cargo_hold::snowflake::{generate_prefixed_id, SnowflakeGenerator};

const TENANT: i64 = 7;

fn row(key: i64) -> Row {
    Row { key, id: format!("file_{}", key), scope: TENANT }
}

fn five_items() -> Catalog {
    let mut catalog = Catalog::new();
    for key in [100, 200, 300, 400, 500] {
        assert!(catalog.insert(row(key)));
    }
    catalog
}

fn request(
    order: Option<&str>,
    limit: Option<i64>,
    after: Option<&str>,
    before: Option<&str>,
) -> ListFilesQuery {
    ListFilesQuery {
        tenant_id: None,
        limit,
        order: order.map(|s| s.to_string()),
        before: before.map(|s| s.to_string()),
        after: after.map(|s| s.to_string()),
    }
}

fn keys(rows: &[Row]) -> Vec<i64> {
    rows.iter().map(|r| r.key).collect()
}

const NO_MORE: PaginationResponse = PaginationResponse { has_more_before: false, has_more_after: false };

#[test]
fn descending_page_of_three_out_of_five() {
    let catalog = five_items();
    let page = catalog.paginate(request(Some("desc"), Some(3), None, None), Some(TENANT)).unwrap();
    assert_eq!(keys(&page.items), vec![500, 400, 300]);
    assert!(page.pagination.has_more_after);
    assert!(!page.pagination.has_more_before);
}

#[test]
fn default_order_is_descending() {
    let catalog = five_items();
    let page = catalog.paginate(request(None, Some(3), None, None), Some(TENANT)).unwrap();
    assert_eq!(keys(&page.items), vec![500, 400, 300]);
    assert_eq!(page.pagination, PaginationResponse { has_more_before: false, has_more_after: true });
}

#[test]
fn ascending_page_after_the_second_item() {
    let catalog = five_items();
    let page =
        catalog.paginate(request(Some("asc"), Some(3), Some("file_200"), None), None).unwrap();
    assert_eq!(keys(&page.items), vec![300, 400, 500]);
    assert!(!page.pagination.has_more_after);
    assert!(!page.pagination.has_more_before);
}

#[test]
fn ascending_page_with_more_behind_it_reports_more_before() {
    let catalog = five_items();
    let page =
        catalog.paginate(request(Some("asc"), Some(2), Some("file_200"), None), None).unwrap();
    assert_eq!(keys(&page.items), vec![300, 400]);
    assert_eq!(page.pagination, PaginationResponse { has_more_before: true, has_more_after: false });
}

#[test]
fn unknown_cursor_is_an_error() {
    let catalog = five_items();
    let outcome = catalog.paginate(request(None, None, Some("file_nonexistent"), None), None);
    assert_eq!(outcome.err(), Some(InvalidCursorError::After));
    let outcome = catalog.paginate(request(None, None, None, Some("file_nonexistent")), None);
    assert_eq!(outcome.err(), Some(InvalidCursorError::Before));
    let outcome =
        catalog.paginate(request(None, None, Some("file_nonexistent"), Some("file_also")), None);
    assert_eq!(outcome.err(), Some(InvalidCursorError::After));
    let outcome =
        catalog.paginate(request(None, None, Some("file_100"), Some("file_nonexistent")), None);
    assert_eq!(outcome.err(), Some(InvalidCursorError::Before));
}

#[test]
fn lookup_gives_the_same_key_every_time() {
    let catalog = five_items();
    let id = "file_300".to_string();
    let first = catalog.find_by_external_id(&id);
    let second = catalog.find_by_external_id(&id);
    assert_eq!(first, Some(300));
    assert_eq!(second, first);
    assert_eq!(catalog.len(), 5);
    assert_eq!(catalog.find_by_external_id(&"file_301".to_string()), None);
    assert_eq!(catalog.find_by_external_id(&"file_301".to_string()), None);
}

#[test]
fn lookup_takes_the_first_of_two_rows_with_one_id() {
    let mut catalog = Catalog::new();
    assert!(catalog.insert(Row { key: 9, id: "twin".to_string(), scope: 1 }));
    assert!(catalog.insert(Row { key: 4, id: "twin".to_string(), scope: 1 }));
    assert!(catalog.insert(Row { key: 6, id: "other".to_string(), scope: 1 }));
    assert_eq!(catalog.find_by_external_id(&"twin".to_string()), Some(4));
}

#[test]
fn empty_collection_gives_an_empty_page() {
    let catalog = Catalog::new();
    for order in [None, Some("asc"), Some("desc")] {
        let page = catalog.paginate(request(order, None, None, None), None).unwrap();
        assert!(page.items.is_empty());
        assert_eq!(page.pagination, NO_MORE);
    }
}

#[test]
fn limit_equal_to_what_is_left_reports_no_more() {
    let catalog = five_items();
    let page = catalog.paginate(request(Some("desc"), Some(5), None, None), None).unwrap();
    assert_eq!(keys(&page.items), vec![500, 400, 300, 200, 100]);
    assert_eq!(page.pagination, NO_MORE);
    let page = catalog.paginate(request(Some("asc"), Some(5), None, None), None).unwrap();
    assert_eq!(keys(&page.items), vec![100, 200, 300, 400, 500]);
    assert_eq!(page.pagination, NO_MORE);
    let page =
        catalog.paginate(request(Some("desc"), Some(2), Some("file_300"), None), None).unwrap();
    assert_eq!(keys(&page.items), vec![200, 100]);
    assert_eq!(page.pagination, NO_MORE);
}

#[test]
fn cursor_at_the_end_gives_an_empty_page() {
    let catalog = five_items();
    let page =
        catalog.paginate(request(Some("asc"), Some(3), Some("file_500"), None), None).unwrap();
    assert!(page.items.is_empty());
    assert_eq!(page.pagination, NO_MORE);
    let page =
        catalog.paginate(request(Some("desc"), Some(3), Some("file_100"), None), None).unwrap();
    assert!(page.items.is_empty());
    assert_eq!(page.pagination, NO_MORE);
    let page =
        catalog.paginate(request(Some("asc"), Some(3), None, Some("file_100")), None).unwrap();
    assert!(page.items.is_empty());
    assert_eq!(page.pagination, NO_MORE);
    let page =
        catalog.paginate(request(Some("desc"), Some(3), None, Some("file_500")), None).unwrap();
    assert!(page.items.is_empty());
    assert_eq!(page.pagination, NO_MORE);
}

#[test]
fn before_cursor_bounds_the_other_side() {
    let catalog = five_items();
    let page =
        catalog.paginate(request(Some("asc"), Some(2), None, Some("file_400")), None).unwrap();
    assert_eq!(keys(&page.items), vec![100, 200]);
    assert_eq!(page.pagination, PaginationResponse { has_more_before: true, has_more_after: false });
    let page =
        catalog.paginate(request(Some("desc"), Some(2), None, Some("file_200")), None).unwrap();
    assert_eq!(keys(&page.items), vec![500, 400]);
    assert_eq!(page.pagination, PaginationResponse { has_more_before: false, has_more_after: true });
}

#[test]
fn both_cursors_are_applied_together() {
    let catalog = five_items();
    let page = catalog
        .paginate(request(Some("asc"), None, Some("file_100"), Some("file_500")), None)
        .unwrap();
    assert_eq!(keys(&page.items), vec![200, 300, 400]);
    assert_eq!(page.pagination, NO_MORE);
    let page = catalog
        .paginate(request(Some("desc"), None, Some("file_500"), Some("file_100")), None)
        .unwrap();
    assert_eq!(keys(&page.items), vec![400, 300, 200]);
    let page = catalog
        .paginate(request(Some("asc"), None, Some("file_400"), Some("file_200")), None)
        .unwrap();
    assert!(page.items.is_empty());
}

#[test]
fn scope_filter_leaves_out_other_scopes() {
    let mut catalog = Catalog::new();
    for key in 1..=10 {
        assert!(catalog.insert(Row { key, id: format!("file_{}", key), scope: key % 2 }));
    }
    let page = catalog.paginate(request(Some("asc"), Some(3), None, None), Some(0)).unwrap();
    assert_eq!(keys(&page.items), vec![2, 4, 6]);
    assert_eq!(page.pagination, PaginationResponse { has_more_before: true, has_more_after: false });
    let page = catalog.paginate(request(Some("desc"), Some(3), None, None), Some(1)).unwrap();
    assert_eq!(keys(&page.items), vec![9, 7, 5]);
    let page = catalog.paginate(request(None, None, None, None), Some(5)).unwrap();
    assert!(page.items.is_empty());
    let page = catalog.paginate(request(Some("asc"), Some(100), None, None), None).unwrap();
    assert_eq!(keys(&page.items), (1..=10).collect::<Vec<i64>>());
}

#[test]
fn limit_is_clamped_inside_a_request() {
    let mut catalog = Catalog::new();
    for key in 1..=150 {
        assert!(catalog.insert(row(key)));
    }
    let page = catalog.paginate(request(Some("asc"), Some(1000), None, None), None).unwrap();
    assert_eq!(page.items.len(), 100);
    assert!(page.pagination.has_more_before);
    let page = catalog.paginate(request(Some("asc"), Some(0), None, None), None).unwrap();
    assert_eq!(keys(&page.items), vec![1]);
    let page = catalog.paginate(request(Some("asc"), Some(-3), None, None), None).unwrap();
    assert_eq!(keys(&page.items), vec![1]);
    let page = catalog.paginate(request(None, None, None, None), None).unwrap();
    assert_eq!(keys(&page.items), (141..=150).rev().collect::<Vec<i64>>());
    assert!(page.pagination.has_more_after);
}

#[test]
fn insert_keeps_key_order_and_refuses_a_key_twice() {
    let mut catalog = Catalog::new();
    for key in [30, 10, 50, 20, 40] {
        assert!(catalog.insert(row(key)));
    }
    assert!(!catalog.insert(row(30)));
    assert!(!catalog.insert(Row { key: 10, id: "another".to_string(), scope: 0 }));
    assert_eq!(catalog.len(), 5);
    let all = catalog.query(&RangeQuery {
        scope: None,
        window: KeyWindow { above: None, below: None },
        order: SortOrder::Ascending,
        limit: 100,
    });
    assert_eq!(keys(&all), vec![10, 20, 30, 40, 50]);
    assert_eq!(catalog.find_by_external_id(&"another".to_string()), None);
}

#[test]
fn query_takes_the_first_rows_of_the_window() {
    let catalog = five_items();
    let query = |order, above, below, limit| RangeQuery {
        scope: None,
        window: KeyWindow { above, below },
        order,
        limit,
    };
    assert_eq!(
        keys(&catalog.query(&query(SortOrder::Ascending, Some(100), Some(500), 2))),
        vec![200, 300]
    );
    assert_eq!(
        keys(&catalog.query(&query(SortOrder::Descending, Some(100), Some(500), 2))),
        vec![400, 300]
    );
    assert_eq!(keys(&catalog.query(&query(SortOrder::Descending, None, None, 0))), Vec::<i64>::new());
    assert_eq!(keys(&catalog.query(&query(SortOrder::Ascending, None, None, -1))), Vec::<i64>::new());
    assert_eq!(
        keys(&catalog.query(&query(SortOrder::Ascending, None, None, i64::MAX))),
        vec![100, 200, 300, 400, 500]
    );
}

#[test]
fn pages_follow_each_other_without_gap_or_overlap() {
    let mut generator = SnowflakeGenerator::new(1, 1).unwrap();
    let mut catalog = Catalog::new();
    let mut expected = Vec::new();
    for _ in 0..23 {
        let key = generator.generate().unwrap();
        let id = generate_prefixed_id("file", key);
        assert!(catalog.insert(Row { key, id, scope: TENANT }));
        expected.push(key);
    }
    for order in ["asc", "desc"] {
        let mut listed = Vec::new();
        let mut cursor: Option<String> = None;
        loop {
            let page = catalog
                .paginate(request(Some(order), Some(5), cursor.as_deref(), None), Some(TENANT))
                .unwrap();
            let more = page.pagination.has_more_after || page.pagination.has_more_before;
            listed.extend(keys(&page.items));
            if !more {
                break;
            }
            cursor = Some(page.items.last().unwrap().id.clone());
        }
        let mut wanted = expected.clone();
        if order == "desc" {
            wanted.reverse();
        }
        assert_eq!(listed, wanted);
    }
}
