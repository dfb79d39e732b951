use scraper::room_listing::{
    extract_new_listing, extract_room_id, room_id_of_match, RoomListing, RoomListingContent,
    RoomListingItem,
};

/// Twenty listings of distinct rooms, each with a price, shaped like a scrape of a
/// search page.
fn sample_listing() -> Vec<RoomListingItem> {
    let mut v = Vec::new();
    for i in 0..20u32 {
        let mut item = RoomListingItem::new();
        item.url = format!(
            "https://www.airbnb.com/rooms/{}?adults=2&check_in=2020-05-17&check_out=2020-06-17",
            41000000 + i
        );
        item.image_url = format!("https://a0.muscache.com/im/pictures/{}.jpg", i);
        item.content.title = Some(format!("Room {}", i));
        item.content.price = Some(format!("${}", 30 + i));
        v.push(item);
    }
    v
}

#[test]
fn test_extract_new_listing_when_source_is_empty() {
    let room_listing = sample_listing();
    let src_room_listing = vec![];
    let res = extract_new_listing(src_room_listing, &room_listing);
    assert_eq!(res.len(), 0)
}

#[test]
fn test_extract_new_listing_when_existing_listing_is_empty() {
    let src_room_listing = sample_listing();
    let room_listing = vec![];
    let res = extract_new_listing(src_room_listing, &room_listing);
    assert_eq!(res.len(), 20)
}

#[test]
fn test_extract_new_listing_when_there_is_no_diff() {
    let src_room_listing = sample_listing();
    let room_listing = sample_listing();
    let res = extract_new_listing(src_room_listing, &room_listing);
    assert_eq!(res.len(), 0)
}

#[test]
fn test_extract_new_listing_when_there_is_one_difference_in_url() {
    let mut src_room_listing = sample_listing();
    let room_listing = sample_listing();
    src_room_listing[0].url = "123".to_string();
    let res = extract_new_listing(src_room_listing, &room_listing);
    assert_eq!(res.len(), 1)
}

#[test]
fn test_extract_new_listing_when_there_is_one_difference_in_price() {
    let mut src_room_listing = sample_listing();
    let room_listing = sample_listing();
    src_room_listing[0].content.price = Some("123".to_string());
    let res = extract_new_listing(src_room_listing, &room_listing);
    assert_eq!(res.len(), 1)
}

#[test]
fn new_listings_keep_their_order_and_values() {
    let scraped = sample_listing();
    let known: Vec<RoomListingItem> = sample_listing().into_iter().skip(5).collect();
    let res = extract_new_listing(scraped, &known);
    assert_eq!(res.len(), 5);
    for (i, item) in res.iter().enumerate() {
        assert_eq!(item.content.title, Some(format!("Room {}", i)));
        assert_eq!(item.image_url, format!("https://a0.muscache.com/im/pictures/{}.jpg", i));
    }
}

#[test]
fn listing_with_other_query_string_is_the_same_room() {
    let mut scraped = sample_listing();
    scraped.truncate(1);
    scraped[0].url = "https://www.airbnb.com/rooms/41000000?adults=3".to_string();
    let known = sample_listing();
    assert_eq!(extract_new_listing(scraped, &known).len(), 0);
}

#[test]
fn urls_without_room_id_are_one_room() {
    let mut a = RoomListingItem::new();
    a.url = "https://example.com/a".to_string();
    let mut b = RoomListingItem::new();
    b.url = "https://example.com/b".to_string();
    assert_eq!(extract_new_listing(vec![a], &vec![b]).len(), 0);
}

#[test]
fn room_id_is_text_between_rooms_and_question_mark() {
    let url = "https://www.airbnb.com/rooms/41000000?adults=2".to_string();
    assert_eq!(extract_room_id(&url), "41000000");
}

#[test]
fn room_id_runs_to_the_last_question_mark() {
    let url = "https://x.com/rooms/7?a=1?b=2".to_string();
    assert_eq!(extract_room_id(&url), "7a=1");
}

#[test]
fn room_id_of_url_without_rooms_is_empty() {
    assert_eq!(extract_room_id(&"https://x.com/homes?a=1".to_string()), "");
    assert_eq!(extract_room_id(&"https://x.com/rooms/7".to_string()), "");
}

#[test]
fn room_id_of_match_strips_every_marker() {
    assert_eq!(room_id_of_match(Some("/rooms/12?".to_string())), "12");
    assert_eq!(room_id_of_match(Some("/rooms/1/rooms/2??".to_string())), "12");
    assert_eq!(room_id_of_match(None), "");
}

#[test]
fn update_room_listing_files_each_key() {
    let keys = [
        "host_type",
        "title",
        "rating",
        "review_number",
        "room_strucure",
        "amenities",
        "price",
    ];
    for (i, key) in keys.iter().enumerate() {
        let mut c = RoomListingContent::default();
        RoomListingContent::update_room_listing(&mut c, key, "v");
        let fields = [
            &c.host_type,
            &c.title,
            &c.rating,
            &c.review_number,
            &c.room_strucure,
            &c.amenities,
            &c.price,
        ];
        for (j, f) in fields.iter().enumerate() {
            if i == j {
                assert_eq!(**f, Some("v".to_string()));
            } else {
                assert_eq!(**f, None);
            }
        }
    }
}

#[test]
fn update_room_listing_ignores_unknown_key() {
    let mut c = RoomListingContent::default();
    c.title = Some("t".to_string());
    RoomListingContent::update_room_listing(&mut c, "size", "big");
    RoomListingContent::update_room_listing(&mut c, "Title", "big");
    assert_eq!(c.title, Some("t".to_string()));
    assert_eq!(c.host_type, None);
    assert_eq!(c.price, None);
}

#[test]
fn later_value_wins_and_keys_commute() {
    let mut a = RoomListingContent::default();
    RoomListingContent::update_room_listing(&mut a, "price", "$1");
    RoomListingContent::update_room_listing(&mut a, "price", "$2");
    RoomListingContent::update_room_listing(&mut a, "title", "x");
    let mut b = RoomListingContent::default();
    RoomListingContent::update_room_listing(&mut b, "title", "x");
    RoomListingContent::update_room_listing(&mut b, "price", "$2");
    assert_eq!(a.price, Some("$2".to_string()));
    assert_eq!(format!("{:?}", a), format!("{:?}", b));
}

#[test]
fn new_item_is_empty() {
    let item = RoomListingItem::new();
    assert_eq!(item.url, "");
    assert_eq!(item.image_url, "");
    assert_eq!(item.content.title, None);
    assert_eq!(item.content.price, None);
}

#[test]
fn room_listing_push_appends() {
    let mut l = RoomListing::new();
    assert_eq!(l.listing.len(), 0);
    let mut a = RoomListingItem::new();
    a.url = "a".to_string();
    let mut b = RoomListingItem::new();
    b.url = "b".to_string();
    l.push(a);
    l.push(b);
    assert_eq!(l.listing.len(), 2);
    assert_eq!(l.listing[0].url, "a");
    assert_eq!(l.listing[1].url, "b");
}
