use oxibrowser_core::page_table::{PageEntry, PageTable, MAX_PAGES};

fn filled(n: usize) -> PageTable<usize> {
    let mut table = PageTable::new();
    for i in 0..n {
        assert!(table.park_page(&format!("p{i:02}"), i).is_empty());
    }
    table
}

fn names(table: &PageTable<usize>) -> Vec<String> {
    table.list_pages(|_: &usize| None).into_iter().map(|e| e.page).collect()
}

#[test]
fn table_holds_sixteen_pages() {
    assert_eq!(MAX_PAGES, 16);
}

#[test]
fn ticks_count_up() {
    let mut table: PageTable<u8> = PageTable::new();
    assert_eq!(table.last_tick(), 0);
    assert_eq!(table.tick(), 1);
    assert_eq!(table.tick(), 2);
    assert_eq!(table.last_tick(), 2);
}

#[test]
fn parked_page_is_given_back() {
    let mut table = PageTable::new();
    table.park_page("a", 1);
    table.park_page("b", 2);
    assert_eq!(table.len(), 2);
    assert_eq!(table.take_page("a"), Some(1));
    assert_eq!(table.take_page("a"), None);
    assert_eq!(table.len(), 1);
    assert_eq!(table.take_page("b"), Some(2));
}

#[test]
fn parking_again_replaces() {
    let mut table = PageTable::new();
    table.park_page("a", 1);
    table.park_page("a", 2);
    assert_eq!(table.len(), 1);
    assert_eq!(table.take_page("a"), Some(2));
}

#[test]
fn no_page_is_closed_while_there_is_room() {
    let table = filled(MAX_PAGES);
    assert_eq!(table.len(), MAX_PAGES);
}

#[test]
fn least_recently_used_page_is_closed() {
    let mut table = filled(MAX_PAGES);
    let session = table.take_page("p00").unwrap();
    assert!(table.park_page("p00", session).is_empty());
    assert_eq!(table.park_page("new", 99), vec!["p01".to_string()]);
    assert_eq!(table.len(), MAX_PAGES);
    assert_eq!(table.take_page("p01"), None);
    assert_eq!(table.take_page("p00"), Some(0));
    assert_eq!(table.take_page("new"), Some(99));
}

#[test]
fn table_within_capacity_evicts_none() {
    let mut table = filled(3);
    assert!(table.evict_least_recently_used_beyond_capacity("p00").is_empty());
    assert_eq!(table.len(), 3);
}

#[test]
fn using_an_open_page_closes_none() {
    let mut table = filled(MAX_PAGES);
    for i in 0..MAX_PAGES {
        let page = format!("p{i:02}");
        let session = table.take_page(&page).unwrap();
        assert!(table.park_page(&page, session).is_empty());
    }
    assert_eq!(table.len(), MAX_PAGES);
}

#[test]
fn eviction_goes_oldest_first() {
    let mut table = filled(MAX_PAGES);
    let mut closed = Vec::new();
    for i in 0..MAX_PAGES {
        closed.extend(table.park_page(&format!("q{i:02}"), i));
    }
    let expected: Vec<String> = (0..MAX_PAGES).map(|i| format!("p{i:02}")).collect();
    assert_eq!(closed, expected);
}

#[test]
fn last_used_page_is_listed_first() {
    let mut table = filled(3);
    assert_eq!(names(&table), ["p02", "p01", "p00"]);
    let session = table.take_page("p00").unwrap();
    table.park_page("p00", session);
    assert_eq!(names(&table), ["p00", "p02", "p01"]);
}

#[test]
fn listing_tells_page_url_and_tick() {
    let mut table = PageTable::new();
    table.park_page("a", "https://a/");
    table.tick();
    table.park_page("b", "");
    let entries = table.list_pages(|session: &&str| {
        if session.is_empty() { None } else { Some(session.to_string()) }
    });
    assert_eq!(
        entries,
        vec![
            PageEntry { page: "b".to_string(), url: None, last_used: 3 },
            PageEntry {
                page: "a".to_string(),
                url: Some("https://a/".to_string()),
                last_used: 1,
            },
        ]
    );
}

#[test]
fn empty_table_lists_nothing() {
    let table: PageTable<usize> = PageTable::new();
    assert!(names(&table).is_empty());
}
