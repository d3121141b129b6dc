//! Behavioural tests of the project store: the two end-to-end scenarios,
//! the pagination laws on concrete data, and the edge cases.

use project_repo::pagination::{limit_offset, resolve_page, resolve_page_size};
use project_repo::store::ProjectStore;

#[test]
fn test_create_and_get_projects() {
    let mut store = ProjectStore::new();

    let project = store.create_project("Test Project", "Description");
    assert_eq!(project.name, "Test Project");

    let projects = store.get_projects(Some(1), Some(10)).unwrap();
    assert_eq!(projects.len(), 1);
    assert_eq!(projects[0].name, "Test Project");
}

#[test]
fn test_pagination() {
    let mut store = ProjectStore::new();

    for i in (1..=15).rev() {
        store.create_project(&format!("Project {}", i), "Description");
    }

    assert_eq!(store.len(), 15, "Expected 15 total projects");

    let first_page = store.get_projects(Some(1), Some(10)).unwrap();
    assert_eq!(first_page.len(), 10);
    assert_eq!(first_page[0].name, "Project 1");
    assert_eq!(first_page[9].name, "Project 10");

    let second_page = store.get_projects(Some(2), Some(10)).unwrap();
    assert_eq!(second_page[0].name, "Project 11");
    assert_eq!(second_page[4].name, "Project 15");
    assert_eq!(second_page.len(), 5);

    let empty_page = store.get_projects(Some(3), Some(10)).unwrap();
    assert_eq!(empty_page.len(), 0);
}

#[test]
fn created_record_is_round_trip_of_inputs() {
    let mut store = ProjectStore::new();
    let a = store.create_project("first", "one");
    let b = store.create_project("second", "two");
    assert_eq!(a.id, 1);
    assert_eq!(b.id, 2);
    assert_eq!(a.description, "one");
    assert_eq!(b.description, "two");
    assert!(a.created_at < b.created_at);
}

#[test]
fn new_record_heads_first_page_with_max_stamp() {
    let mut store = ProjectStore::new();
    store.create_project("older", "d");
    store.create_project("elder", "d");
    let newest = store.create_project("newest", "d");
    let page = store.get_projects(Some(1), Some(2)).unwrap();
    assert_eq!(page.len(), 2);
    assert_eq!(page[0].name, "newest");
    assert_eq!(page[0].created_at, newest.created_at);
    let all = store.get_projects(Some(1), Some(3)).unwrap();
    for p in &all {
        assert!(p.created_at <= newest.created_at);
    }
}

#[test]
fn list_is_a_pure_read() {
    let mut store = ProjectStore::new();
    for i in 1..=7 {
        store.create_project(&format!("p{}", i), "d");
    }
    let once = store.get_projects(Some(2), Some(3)).unwrap();
    let twice = store.get_projects(Some(2), Some(3)).unwrap();
    assert_eq!(once.len(), twice.len());
    for (x, y) in once.iter().zip(twice.iter()) {
        assert_eq!(x.id, y.id);
        assert_eq!(x.name, y.name);
        assert_eq!(x.description, y.description);
        assert_eq!(x.created_at, y.created_at);
    }
    assert_eq!(store.len(), 7);
}

#[test]
fn pages_partition_the_full_listing() {
    let mut store = ProjectStore::new();
    for i in 1..=7 {
        store.create_project(&format!("p{}", i), "d");
    }
    let full = store.get_projects(Some(1), Some(7)).unwrap();
    assert_eq!(full.len(), 7);

    let mut stitched: Vec<i64> = Vec::new();
    for page in 1..=3 {
        let part = store.get_projects(Some(page), Some(3)).unwrap();
        for p in &part {
            stitched.push(p.id);
        }
    }
    let full_ids: Vec<i64> = full.iter().map(|p| p.id).collect();
    assert_eq!(stitched, full_ids);

    let mut deduped = stitched.clone();
    deduped.sort();
    deduped.dedup();
    assert_eq!(deduped.len(), 7);
}

#[test]
fn listing_is_newest_first() {
    let mut store = ProjectStore::new();
    for i in 1..=6 {
        store.create_project(&format!("p{}", i), "d");
    }
    let all = store.get_projects(Some(1), Some(6)).unwrap();
    for w in all.windows(2) {
        assert!(w[0].created_at >= w[1].created_at);
    }
    assert_eq!(all[0].name, "p6");
    assert_eq!(all[5].name, "p1");
}

#[test]
fn offset_past_end_is_empty_not_error() {
    let mut store = ProjectStore::new();
    for i in 1..=4 {
        store.create_project(&format!("p{}", i), "d");
    }
    assert_eq!(store.get_projects(Some(2), Some(4)).unwrap().len(), 0);
    assert_eq!(store.get_projects(Some(100), Some(10)).unwrap().len(), 0);
    let empty = ProjectStore::new();
    assert_eq!(empty.get_projects(Some(1), Some(10)).unwrap().len(), 0);
}

#[test]
fn defaults_are_page_one_size_ten() {
    let mut store = ProjectStore::new();
    for i in 1..=12 {
        store.create_project(&format!("p{}", i), "d");
    }
    let page = store.get_projects(None, None).unwrap();
    assert_eq!(page.len(), 10);
    assert_eq!(page[0].name, "p12");
    assert_eq!(page[9].name, "p3");
    assert_eq!(resolve_page(None), 1);
    assert_eq!(resolve_page_size(None), 10);
    assert_eq!(resolve_page(Some(4)), 4);
    assert_eq!(resolve_page_size(Some(25)), 25);
}

#[test]
fn negative_window_is_a_persistence_error() {
    let mut store = ProjectStore::new();
    store.create_project("p", "d");
    // page 0 makes the offset negative; the backing engine rejects it
    assert!(store.get_projects(Some(0), Some(10)).is_err());
    // a negative page size is a negative limit
    assert!(store.get_projects(Some(1), Some(-5)).is_err());
    // negative page and negative size: the offset comes out non-negative,
    // but the limit is still negative
    assert!(store.get_projects(Some(-1), Some(-5)).is_err());
    // page size zero is allowed and selects nothing
    assert_eq!(store.get_projects(Some(1), Some(0)).unwrap().len(), 0);
}

#[test]
fn limit_offset_matches_the_documented_formula() {
    assert_eq!(limit_offset(Some(1), Some(10)), (10, 0));
    assert_eq!(limit_offset(Some(3), Some(7)), (7, 14));
    assert_eq!(limit_offset(None, None), (10, 0));
    assert_eq!(limit_offset(Some(2), None), (10, 10));
    assert_eq!(limit_offset(Some(0), Some(10)), (10, -10));
    assert_eq!(limit_offset(Some(-2), Some(5)), (5, -15));
    // the product is widened to 64 bits, so extreme pages cannot wrap
    assert_eq!(
        limit_offset(Some(i32::MAX), Some(i32::MAX)),
        (i32::MAX as i64, (i32::MAX as i64 - 1) * i32::MAX as i64)
    );
    assert_eq!(
        limit_offset(Some(i32::MIN), Some(i32::MAX)),
        (i32::MAX as i64, (i32::MIN as i64 - 1) * i32::MAX as i64)
    );
}
