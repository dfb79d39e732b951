//! Room listings: what is scraped of one room, how a scraped value is filed under
//! its key, and which listings of a scrape are new against those already known.
use vstd::prelude::*;

use crate::pattern::{opt_text, regex_compiles, regex_first_match, Pattern};
use crate::text::{chars_of, law_removed_char_is_gone, replace_all, replaced, same_text, string_of};

verus! {

/// The pattern whose first match in a listing's url holds the room id:
/// the text from `/rooms/` to the last `?` after it.
pub const ROOM_ID_PATTERN: &'static str = "/rooms/.*\\?";

/// The details scraped of one room, each one absent until scraped.
#[derive(Debug, Clone)]
pub struct RoomListingContent {
    pub host_type: Option<String>,
    pub title: Option<String>,
    pub rating: Option<String>,
    pub review_number: Option<String>,
    pub room_strucure: Option<String>,
    pub amenities: Option<String>,
    pub price: Option<String>,
}

/// The details of a room as character sequences.
pub struct ContentView {
    pub host_type: Option<Seq<char>>,
    pub title: Option<Seq<char>>,
    pub rating: Option<Seq<char>>,
    pub review_number: Option<Seq<char>>,
    pub room_strucure: Option<Seq<char>>,
    pub amenities: Option<Seq<char>>,
    pub price: Option<Seq<char>>,
}

impl View for RoomListingContent {
    type V = ContentView;

    open spec fn view(&self) -> ContentView {
        ContentView {
            host_type: opt_text(self.host_type),
            title: opt_text(self.title),
            rating: opt_text(self.rating),
            review_number: opt_text(self.review_number),
            room_strucure: opt_text(self.room_strucure),
            amenities: opt_text(self.amenities),
            price: opt_text(self.price),
        }
    }
}

/// Details of which none has been scraped.
pub open spec fn no_content() -> ContentView {
    ContentView {
        host_type: None,
        title: None,
        rating: None,
        review_number: None,
        room_strucure: None,
        amenities: None,
        price: None,
    }
}

/// Whether `key` names one of the details of a room.
pub open spec fn is_content_key(key: Seq<char>) -> bool {
    ||| key == "host_type"@
    ||| key == "title"@
    ||| key == "rating"@
    ||| key == "review_number"@
    ||| key == "room_strucure"@
    ||| key == "amenities"@
    ||| key == "price"@
}

/// `c` with the detail named `key` set to `value`; `c` itself when `key` names none.
pub open spec fn content_updated(c: ContentView, key: Seq<char>, value: Seq<char>) -> ContentView {
    if key == "host_type"@ {
        ContentView { host_type: Some(value), ..c }
    } else if key == "title"@ {
        ContentView { title: Some(value), ..c }
    } else if key == "rating"@ {
        ContentView { rating: Some(value), ..c }
    } else if key == "review_number"@ {
        ContentView { review_number: Some(value), ..c }
    } else if key == "room_strucure"@ {
        ContentView { room_strucure: Some(value), ..c }
    } else if key == "amenities"@ {
        ContentView { amenities: Some(value), ..c }
    } else if key == "price"@ {
        ContentView { price: Some(value), ..c }
    } else {
        c
    }
}

impl Default for RoomListingContent {
    fn default() -> (r: Self)
        ensures
            r@ == no_content(),
    {
        RoomListingContent {
            host_type: None,
            title: None,
            rating: None,
            review_number: None,
            room_strucure: None,
            amenities: None,
            price: None,
        }
    }
}

impl RoomListingContent {
    /// Files `value` under the detail named `key`; a key that names no detail
    /// changes nothing.
    pub fn update_room_listing(listing: &mut RoomListingContent, key: &str, value: &str)
        ensures
            final(listing)@ == content_updated(old(listing)@, key@, value@),
    {
        if same_text(key, "host_type") {
            listing.host_type = Some(value.to_string());
        } else if same_text(key, "title") {
            listing.title = Some(value.to_string());
        } else if same_text(key, "rating") {
            listing.rating = Some(value.to_string());
        } else if same_text(key, "review_number") {
            listing.review_number = Some(value.to_string());
        } else if same_text(key, "room_strucure") {
            listing.room_strucure = Some(value.to_string());
        } else if same_text(key, "amenities") {
            listing.amenities = Some(value.to_string());
        } else if same_text(key, "price") {
            listing.price = Some(value.to_string());
        }
    }
}

/// A key that names no detail leaves the details as they were.
pub proof fn law_unknown_key_changes_nothing(c: ContentView, key: Seq<char>, value: Seq<char>)
    requires
        !is_content_key(key),
    ensures
        content_updated(c, key, value) == c,
{
}

/// The value filed is the value given, under the detail its key names, and every
/// other detail stays as it was.
pub proof fn law_value_is_filed_under_its_key(c: ContentView, v: Seq<char>)
    ensures
        content_updated(c, "host_type"@, v) == (ContentView { host_type: Some(v), ..c }),
        content_updated(c, "title"@, v) == (ContentView { title: Some(v), ..c }),
        content_updated(c, "rating"@, v) == (ContentView { rating: Some(v), ..c }),
        content_updated(c, "review_number"@, v) == (ContentView { review_number: Some(v), ..c }),
        content_updated(c, "room_strucure"@, v) == (ContentView { room_strucure: Some(v), ..c }),
        content_updated(c, "amenities"@, v) == (ContentView { amenities: Some(v), ..c }),
        content_updated(c, "price"@, v) == (ContentView { price: Some(v), ..c }),
{
    reveal_strlit("host_type");
    reveal_strlit("title");
    reveal_strlit("rating");
    reveal_strlit("review_number");
    reveal_strlit("room_strucure");
    reveal_strlit("amenities");
    reveal_strlit("price");
    assert("host_type"@.len() == 9 && "title"@.len() == 5 && "rating"@.len() == 6);
    assert("review_number"@.len() == 13 && "room_strucure"@.len() == 13);
    assert("amenities"@.len() == 9 && "price"@.len() == 5);
    assert("host_type"@[0] == 'h' && "amenities"@[0] == 'a');
    assert("title"@[0] == 't' && "price"@[0] == 'p');
    assert("review_number"@[1] == 'e' && "room_strucure"@[1] == 'o');
}

/// Of two values filed under the same key, the later one stands.
pub proof fn law_later_value_wins(c: ContentView, key: Seq<char>, v1: Seq<char>, v2: Seq<char>)
    ensures
        content_updated(content_updated(c, key, v1), key, v2) == content_updated(c, key, v2),
{
}

/// Values filed under two different keys do not depend on the order of filing.
pub proof fn law_distinct_keys_commute(
    c: ContentView,
    k1: Seq<char>,
    v1: Seq<char>,
    k2: Seq<char>,
    v2: Seq<char>,
)
    requires
        k1 != k2,
    ensures
        content_updated(content_updated(c, k1, v1), k2, v2) == content_updated(
            content_updated(c, k2, v2),
            k1,
            v1,
        ),
{
}

/// One scraped room: its url, the url of its picture, and its details.
#[derive(Debug, Clone)]
pub struct RoomListingItem {
    pub url: String,
    pub image_url: String,
    pub content: RoomListingContent,
}

/// A scraped room as character sequences.
pub struct ItemView {
    pub url: Seq<char>,
    pub image_url: Seq<char>,
    pub content: ContentView,
}

impl View for RoomListingItem {
    type V = ItemView;

    open spec fn view(&self) -> ItemView {
        ItemView { url: self.url@, image_url: self.image_url@, content: self.content@ }
    }
}

/// The views of a sequence of rooms.
pub open spec fn items_view(v: Seq<RoomListingItem>) -> Seq<ItemView> {
    v.map_values(|x: RoomListingItem| x@)
}

impl RoomListingItem {
    /// A room with empty urls and no details.
    pub fn new() -> (res: RoomListingItem)
        ensures
            res@.url == Seq::<char>::empty(),
            res@.image_url == Seq::<char>::empty(),
            res@.content == no_content(),
    {
        RoomListingItem {
            url: String::new(),
            image_url: String::new(),
            content: RoomListingContent::default(),
        }
    }
}

/// The room id held by a match of `ROOM_ID_PATTERN`: the match without its
/// `/rooms/` and `?` parts; empty when there is no match.
pub open spec fn room_id_from_match(m: Option<Seq<char>>) -> Seq<char> {
    match m {
        Some(t) => replaced(replaced(t, "/rooms/"@, Seq::empty()), "?"@, Seq::empty()),
        None => Seq::empty(),
    }
}

/// The room id of a listing's url.
pub open spec fn room_id(url: Seq<char>) -> Seq<char> {
    room_id_from_match(regex_first_match(ROOM_ID_PATTERN@, url))
}

/// The room id held by the first match of `ROOM_ID_PATTERN` in a url, given that match.
pub fn room_id_of_match(m: Option<String>) -> (res: String)
    ensures
        res@ == room_id_from_match(opt_text(m)),
{
    match m {
        Some(t) => {
            proof {
                reveal_strlit("/rooms/");
                reveal_strlit("?");
            }
            let none: Vec<char> = Vec::new();
            let cs = chars_of(t.as_str());
            let rooms = chars_of("/rooms/");
            let question = chars_of("?");
            let a = replace_all(&cs, &rooms, &none);
            let b = replace_all(&a, &question, &none);
            proof {
                assert(none@ =~= Seq::<char>::empty());
            }
            string_of(&b)
        },
        None => String::new(),
    }
}

/// A room id holds no `?`: the marker that ends the match is stripped everywhere.
pub proof fn law_room_id_has_no_question_mark(url: Seq<char>)
    ensures
        !room_id(url).contains('?'),
{
    reveal_strlit("?");
    assert("?"@ =~= seq!['?']);
    match regex_first_match(ROOM_ID_PATTERN@, url) {
        Some(t) => {
            law_removed_char_is_gone(replaced(t, "/rooms/"@, Seq::empty()), '?');
        },
        None => {},
    }
}

/// The room id of a listing's url (empty when the url holds none).
pub fn extract_room_id(url: &String) -> (res: String)
    requires
        regex_compiles(ROOM_ID_PATTERN@),
    ensures
        res@ == room_id(url@),
{
    match Pattern::compile(ROOM_ID_PATTERN) {
        Ok(pattern) => room_id_of_match(pattern.first_match(url.as_str())),
        Err(_) => {
            assert(false);
            String::new()
        },
    }
}

/// Two listings are the same when they are of the same room at the same price.
pub open spec fn same_listing(a: ItemView, b: ItemView) -> bool {
    room_id(a.url) == room_id(b.url) && a.content.price == b.content.price
}

/// Whether some listing of `existing` is the same as `item`.
pub open spec fn listed_in(item: ItemView, existing: Seq<ItemView>) -> bool {
    exists|j: int| 0 <= j < existing.len() && same_listing(#[trigger] existing[j], item)
}

/// The listings of `new`, in order, that are not the same as any of `existing`.
pub open spec fn fresh_listings(new: Seq<ItemView>, existing: Seq<ItemView>) -> Seq<ItemView> {
    new.filter(|x: ItemView| !listed_in(x, existing))
}

/// Listings of the same room (same room id of the url) at the same price are the
/// same listing, whatever their other details.
pub proof fn law_same_room_same_price_is_same_listing(a: ItemView, b: ItemView)
    requires
        room_id(a.url) == room_id(b.url),
        a.content.price == b.content.price,
    ensures
        same_listing(a, b),
{
}

/// A listing added to a scrape is new exactly when no known listing has the same
/// room id of its url and the same price; its other details do not matter, and the
/// new listings before it are kept as they were.
pub proof fn law_new_unless_same_room_and_price(
    new: Seq<ItemView>,
    x: ItemView,
    existing: Seq<ItemView>,
)
    ensures
        (exists|j: int|
            0 <= j < existing.len() && room_id(#[trigger] existing[j].url) == room_id(x.url)
                && existing[j].content.price == x.content.price) ==> fresh_listings(
            new.push(x),
            existing,
        ) == fresh_listings(new, existing),
        !(exists|j: int|
            0 <= j < existing.len() && room_id(#[trigger] existing[j].url) == room_id(x.url)
                && existing[j].content.price == x.content.price) ==> fresh_listings(
            new.push(x),
            existing,
        ) == fresh_listings(new, existing).push(x),
{
    lemma_fresh_push(new, x, existing);
    if exists|j: int|
        0 <= j < existing.len() && room_id(#[trigger] existing[j].url) == room_id(x.url)
            && existing[j].content.price == x.content.price {
        let j = choose|j: int|
            0 <= j < existing.len() && room_id(#[trigger] existing[j].url) == room_id(x.url)
                && existing[j].content.price == x.content.price;
        assert(same_listing(existing[j], x));
    }
}

/// The room id is read with the pattern `/rooms/.*\?`.
pub proof fn law_room_id_pattern(url: Seq<char>)
    ensures
        room_id(url) == room_id_from_match(regex_first_match("/rooms/.*\\?"@, url)),
{
}

/// Adding one listing to a scrape adds it to the fresh ones unless it is listed.
proof fn lemma_fresh_push(new: Seq<ItemView>, x: ItemView, existing: Seq<ItemView>)
    ensures
        fresh_listings(new.push(x), existing) == if listed_in(x, existing) {
            fresh_listings(new, existing)
        } else {
            fresh_listings(new, existing).push(x)
        },
{
    reveal(Seq::filter);
    assert(new.push(x).drop_last() =~= new);
}

/// Whether the two optional prices are the same.
fn same_price(a: &Option<String>, b: &Option<String>) -> (res: bool)
    ensures
        res == (opt_text(*a) == opt_text(*b)),
{
    match (a, b) {
        (Some(x), Some(y)) => *x == *y,
        (None, None) => true,
        _ => false,
    }
}

/// The listings of `new_listing`, in order, that are not the same (same room id,
/// same price) as any listing of `existing_listing`.
pub fn extract_new_listing(
    new_listing: Vec<RoomListingItem>,
    existing_listing: &Vec<RoomListingItem>,
) -> (res: Vec<RoomListingItem>)
    requires
        regex_compiles(ROOM_ID_PATTERN@),
    ensures
        items_view(res@) == fresh_listings(items_view(new_listing@), items_view(existing_listing@)),
{
    let ghost ex = items_view(existing_listing@);
    let n_ex = existing_listing.len();
    let mut ids: Vec<String> = Vec::new();
    for k in 0..n_ex
        invariant
            n_ex == existing_listing@.len(),
            regex_compiles(ROOM_ID_PATTERN@),
            ids@.len() == k,
            forall|j: int| 0 <= j < k ==> #[trigger] ids@[j]@ == room_id(existing_listing@[j].url@),
    {
        let id = extract_room_id(&existing_listing[k].url);
        ids.push(id);
    }
    let ghost new_seq = new_listing@;
    let mut out: Vec<RoomListingItem> = Vec::new();
    proof {
        assert(items_view(new_seq.take(0)) =~= Seq::<ItemView>::empty());
        reveal(Seq::filter);
        assert(items_view(out@) =~= fresh_listings(Seq::<ItemView>::empty(), ex));
    }
    for item in it: new_listing.into_iter()
        invariant
            it.seq() == new_seq,
            n_ex == existing_listing@.len(),
            ex == items_view(existing_listing@),
            regex_compiles(ROOM_ID_PATTERN@),
            ids@.len() == n_ex,
            forall|j: int| 0 <= j < n_ex ==> #[trigger] ids@[j]@ == room_id(existing_listing@[j].url@),
            items_view(out@) == fresh_listings(items_view(new_seq.take(it.index() as int)), ex),
    {
        let ghost i = it.index();
        let id = extract_room_id(&item.url);
        let mut known = false;
        let mut j: usize = 0;
        while j < n_ex
            invariant
                j <= n_ex,
                n_ex == existing_listing@.len(),
                ex == items_view(existing_listing@),
                ids@.len() == n_ex,
                forall|m: int| 0 <= m < n_ex ==> #[trigger] ids@[m]@ == room_id(existing_listing@[m].url@),
                id@ == room_id(item@.url),
                known == (exists|m: int| 0 <= m < j && same_listing(#[trigger] ex[m], item@)),
            decreases n_ex - j,
        {
            if !known && ids[j] == id && same_price(&existing_listing[j].content.price, &item.content.price) {
                known = true;
                assert(same_listing(ex[j as int], item@));
            } else if !known {
                assert(!same_listing(ex[j as int], item@));
            }
            j = j + 1;
        }
        proof {
            assert(known == listed_in(item@, ex));
            assert(items_view(new_seq.take(i + 1)) =~= items_view(new_seq.take(i as int)).push(item@));
            lemma_fresh_push(items_view(new_seq.take(i as int)), item@, ex);
        }
        let ghost before = out@;
        if !known {
            out.push(item);
            assert(items_view(out@) =~= items_view(before).push(item@));
        }
    }
    proof {
        assert(new_seq.take(new_seq.len() as int) =~= new_seq);
    }
    out
}

/// Filtering against an empty history keeps every listing, in order.
pub proof fn law_all_new_against_empty_history(new: Seq<ItemView>)
    ensures
        fresh_listings(new, Seq::empty()) == new,
    decreases new.len(),
{
    if new.len() > 0 {
        law_all_new_against_empty_history(new.drop_last());
        lemma_fresh_push(new.drop_last(), new.last(), Seq::empty());
        assert(new.drop_last().push(new.last()) =~= new);
    } else {
        reveal(Seq::filter);
    }
}

/// An empty scrape has no new listings.
pub proof fn law_empty_scrape_has_nothing_new(existing: Seq<ItemView>)
    ensures
        fresh_listings(Seq::empty(), existing) == Seq::<ItemView>::empty(),
{
    reveal(Seq::filter);
}

/// When every listing of `new` is listed in `existing`, none is new.
proof fn lemma_all_listed_none_fresh(new: Seq<ItemView>, existing: Seq<ItemView>)
    requires
        forall|i: int| 0 <= i < new.len() ==> listed_in(#[trigger] new[i], existing),
    ensures
        fresh_listings(new, existing) == Seq::<ItemView>::empty(),
    decreases new.len(),
{
    if new.len() > 0 {
        let init = new.drop_last();
        assert forall|i: int| 0 <= i < init.len() implies listed_in(#[trigger] init[i], existing) by {
            assert(init[i] == new[i]);
        }
        lemma_all_listed_none_fresh(init, existing);
        assert(listed_in(new[new.len() - 1], existing));
        lemma_fresh_push(init, new.last(), existing);
        assert(init.push(new.last()) =~= new);
    } else {
        reveal(Seq::filter);
    }
}

/// A listing is the same as itself.
proof fn lemma_same_listing_reflexive(x: ItemView)
    ensures
        same_listing(x, x),
{
}

/// A scrape filtered against itself has no new listings.
pub proof fn law_nothing_new_against_itself(s: Seq<ItemView>)
    ensures
        fresh_listings(s, s) == Seq::<ItemView>::empty(),
{
    assert forall|i: int| 0 <= i < s.len() implies listed_in(#[trigger] s[i], s) by {
        lemma_same_listing_reflexive(s[i]);
    }
    lemma_all_listed_none_fresh(s, s);
}

/// Every listing of `new` that is not listed in `existing` is among the fresh ones.
proof fn lemma_unlisted_is_fresh(new: Seq<ItemView>, existing: Seq<ItemView>, i: int)
    requires
        0 <= i < new.len(),
        !listed_in(new[i], existing),
    ensures
        fresh_listings(new, existing).contains(new[i]),
{
    let pred = |x: ItemView| !listed_in(x, existing);
    assert(pred(new[i]));
    new.lemma_filter_contains(pred, i);
}

/// Once the new listings of a scrape are recorded in front of the history, the
/// same scrape has no new listings any more.
pub proof fn law_recorded_listings_are_not_new(scraped: Seq<ItemView>, history: Seq<ItemView>)
    ensures
        fresh_listings(scraped, fresh_listings(scraped, history) + history) == Seq::<
            ItemView,
        >::empty(),
{
    let fresh = fresh_listings(scraped, history);
    let all = fresh + history;
    assert forall|i: int| 0 <= i < scraped.len() implies listed_in(#[trigger] scraped[i], all) by {
        if listed_in(scraped[i], history) {
            let j = choose|j: int| 0 <= j < history.len() && same_listing(#[trigger] history[j], scraped[i]);
            assert(all[fresh.len() + j] == history[j]);
        } else {
            lemma_unlisted_is_fresh(scraped, history, i);
            let j = choose|j: int| 0 <= j < fresh.len() && fresh[j] == scraped[i];
            assert(all[j] == fresh[j]);
            lemma_same_listing_reflexive(scraped[i]);
        }
    }
    lemma_all_listed_none_fresh(scraped, all);
}

/// A list of scraped rooms.
#[derive(Debug, Clone)]
pub struct RoomListing {
    pub listing: Vec<RoomListingItem>,
}

impl RoomListing {
    /// An empty list.
    pub fn new() -> (res: RoomListing)
        ensures
            res.listing@.len() == 0,
    {
        RoomListing { listing: Vec::new() }
    }

    /// Appends `item` at the end.
    pub fn push(&mut self, item: RoomListingItem)
        ensures
            final(self).listing@ == old(self).listing@.push(item),
    {
        self.listing.push(item);
    }
}

} // verus!
