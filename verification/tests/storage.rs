use scraper::room_listing::RoomListingItem;
use scraper::storage::{SearchConfig, Storage};

fn item(id: u32, price: &str) -> RoomListingItem {
    let mut it = RoomListingItem::new();
    it.url = format!("https://www.airbnb.com/rooms/{}?adults=2", id);
    it.content.price = Some(price.to_string());
    it
}

#[test]
fn process_output_keeps_non_empty_lines() {
    let out = b"gs://airnotify-dev/a.json\ngs://airnotify-dev/b.json\n".to_vec();
    assert_eq!(
        Storage::process_output(out),
        vec!["gs://airnotify-dev/a.json".to_string(), "gs://airnotify-dev/b.json".to_string()]
    );
}

#[test]
fn process_output_drops_blank_lines() {
    let out = b"\n\na\n\nb\n\n".to_vec();
    assert_eq!(Storage::process_output(out), vec!["a".to_string(), "b".to_string()]);
    assert_eq!(Storage::process_output(Vec::new()), Vec::<String>::new());
    assert_eq!(Storage::process_output(b"\n".to_vec()), Vec::<String>::new());
}

#[test]
fn process_output_decodes_utf8() {
    let out = "caf\u{e9}\n\u{1f600}".as_bytes().to_vec();
    assert_eq!(Storage::process_output(out), vec!["caf\u{e9}".to_string(), "\u{1f600}".to_string()]);
}

#[test]
fn new_search_has_nothing_reported() {
    let c = SearchConfig::new(7, "https://u".to_string(), "a@b".to_string());
    assert_eq!(c.id, 7);
    assert_eq!(c.url, "https://u");
    assert_eq!(c.email, "a@b");
    assert!(c.result.is_none());
}

#[test]
fn first_search_reports_everything() {
    let c = SearchConfig::new(1, "u".to_string(), "e".to_string());
    let scraped = vec![item(1, "$1"), item(2, "$2")];
    let new = c.new_listings(scraped).unwrap();
    assert_eq!(new.len(), 2);
    assert_eq!(new[0].url, "https://www.airbnb.com/rooms/1?adults=2");
}

#[test]
fn second_search_reports_only_changes() {
    let mut c = SearchConfig::new(1, "u".to_string(), "e".to_string());
    c.record_new_listings(vec![item(1, "$1"), item(2, "$2")]);
    let new = c.new_listings(vec![item(1, "$1"), item(2, "$3"), item(3, "$1")]).unwrap();
    assert_eq!(new.len(), 2);
    assert_eq!(new[0].content.price, Some("$3".to_string()));
    assert_eq!(new[1].url, "https://www.airbnb.com/rooms/3?adults=2");
}

#[test]
fn record_puts_new_listings_first() {
    let mut c = SearchConfig::new(1, "u".to_string(), "e".to_string());
    c.record_new_listings(vec![item(1, "$1")]);
    c.record_new_listings(vec![item(2, "$2")]);
    let r = c.result.as_ref().unwrap();
    assert_eq!(r.len(), 2);
    assert_eq!(r[0].url, "https://www.airbnb.com/rooms/2?adults=2");
    assert_eq!(r[1].url, "https://www.airbnb.com/rooms/1?adults=2");
}

#[test]
fn record_of_nothing_changes_nothing() {
    let mut c = SearchConfig::new(1, "u".to_string(), "e".to_string());
    c.record_new_listings(Vec::new());
    assert!(c.result.is_none());
    c.record_new_listings(vec![item(1, "$1")]);
    c.record_new_listings(Vec::new());
    assert_eq!(c.result.as_ref().unwrap().len(), 1);
}

#[test]
fn repeated_search_reports_nothing() {
    let mut c = SearchConfig::new(1, "u".to_string(), "e".to_string());
    c.record_new_listings(vec![item(9, "$9")]);
    let scraped = vec![item(1, "$1"), item(9, "$9"), item(2, "$2")];
    let new = c.new_listings(scraped.clone()).unwrap();
    assert_eq!(new.len(), 2);
    c.record_new_listings(new);
    assert_eq!(c.new_listings(scraped).unwrap().len(), 0);
}
