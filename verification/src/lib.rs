//! Finds new room listings on a search page and reports them by mail.
//!
//! The library holds what a scrape decides: which details are read where
//! (`XpathConfig`), how what was read is filed into a listing (`Scraper`), which
//! listings are new against those already reported (`room_listing`,
//! `storage`), and the mail that reports them (`email`).
pub mod email;
pub mod pattern;
pub mod room_listing;
pub mod storage;
pub mod text;

use vstd::prelude::*;

use crate::pattern::{regex_compiles, regex_first_match, Pattern};
use crate::room_listing::{
    content_updated, is_content_key, ItemView, RoomListingContent, RoomListingItem,
};
use crate::text::strings_view;

verus! {

/// The pattern whose first match in an image element's style is the image url.
pub const IMAGE_URL_PATTERN: &'static str = "https.*jpg";

/// The scraping of a search page.
pub struct Scraper;

/// Where one detail of a room is read: the element paths tried, in order, and
/// the key the text read there is filed under.
pub struct XpathConfig {
    pub xpath: Vec<String>,
    pub item_type: String,
}

impl View for XpathConfig {
    type V = (Seq<Seq<char>>, Seq<char>);

    open spec fn view(&self) -> (Seq<Seq<char>>, Seq<char>) {
        (strings_view(self.xpath@), self.item_type@)
    }
}

/// The details read of each room: the paths tried and the key filed under.
pub open spec fn xpath_table() -> Seq<(Seq<Seq<char>>, Seq<char>)> {
    seq![
        (seq!["./div[2]/div[1]/div/div[1]/div"@], "host_type"@),
        (seq!["./div[2]/div[1]/div/div[2]"@], "title"@),
        (seq!["./div[2]/div[1]/span/span/span[2]"@], "rating"@),
        (seq!["./div[2]/div[1]/span/span/span[3]"@], "review_number"@),
        (seq!["./div[2]/div[3]"@], "room_strucure"@),
        (seq!["./div[2]/div[4]"@], "amenities"@),
        (
            seq![
                "./div[2]/div[5]/div[last()]/div/div/span/span"@,
                "./div[2]/div[5]/div[last()]/div/span/span"@,
            ],
            "price"@,
        ),
    ]
}

/// The views of a sequence of configurations.
pub open spec fn configs_view(v: Seq<XpathConfig>) -> Seq<(Seq<Seq<char>>, Seq<char>)> {
    v.map_values(|c: XpathConfig| c@)
}

impl XpathConfig {
    /// A configuration of one path.
    fn single(xpath: &str, item_type: &str) -> (res: XpathConfig)
        ensures
            res@ == (seq![xpath@], item_type@),
    {
        let mut paths: Vec<String> = Vec::new();
        paths.push(xpath.to_string());
        let res = XpathConfig { xpath: paths, item_type: item_type.to_string() };
        assert(res@.0 =~= seq![xpath@]);
        res
    }

    /// The paths at which each detail of a room is read, in filing order.
    pub fn initialize() -> (res: Vec<XpathConfig>)
        ensures
            configs_view(res@) == xpath_table(),
    {
        let mut content_xpaths: Vec<XpathConfig> = Vec::new();
        content_xpaths.push(XpathConfig::single("./div[2]/div[1]/div/div[1]/div", "host_type"));
        content_xpaths.push(XpathConfig::single("./div[2]/div[1]/div/div[2]", "title"));
        content_xpaths.push(XpathConfig::single("./div[2]/div[1]/span/span/span[2]", "rating"));
        content_xpaths.push(
            XpathConfig::single("./div[2]/div[1]/span/span/span[3]", "review_number"),
        );
        content_xpaths.push(XpathConfig::single("./div[2]/div[3]", "room_strucure"));
        content_xpaths.push(XpathConfig::single("./div[2]/div[4]", "amenities"));
        let mut price_xpath: Vec<String> = Vec::new();
        price_xpath.push("./div[2]/div[5]/div[last()]/div/div/span/span".to_string());
        price_xpath.push("./div[2]/div[5]/div[last()]/div/span/span".to_string());
        let price = XpathConfig { xpath: price_xpath, item_type: "price".to_string() };
        assert(price@.0 =~= seq![
            "./div[2]/div[5]/div[last()]/div/div/span/span"@,
            "./div[2]/div[5]/div[last()]/div/span/span"@,
        ]);
        content_xpaths.push(price);
        assert(configs_view(content_xpaths@) =~= xpath_table());
        content_xpaths
    }
}

/// Every configured key names a detail of a room, and no two configurations file
/// under the same key: every text read is filed, none overwrites another.
pub proof fn law_configured_keys_are_distinct_details()
    ensures
        forall|i: int| 0 <= i < xpath_table().len() ==> is_content_key(#[trigger] xpath_table()[i].1),
        forall|i: int, j: int|
            0 <= i < j < xpath_table().len() ==> #[trigger] xpath_table()[i].1
                != #[trigger] xpath_table()[j].1,
{
    reveal_strlit("host_type");
    reveal_strlit("title");
    reveal_strlit("rating");
    reveal_strlit("review_number");
    reveal_strlit("room_strucure");
    reveal_strlit("amenities");
    reveal_strlit("price");
    let t = xpath_table();
    assert(t[0].1 == "host_type"@);
    assert(t[1].1 == "title"@);
    assert(t[2].1 == "rating"@);
    assert(t[3].1 == "review_number"@);
    assert(t[4].1 == "room_strucure"@);
    assert(t[5].1 == "amenities"@);
    assert(t[6].1 == "price"@);
    assert("host_type"@[0] == 'h' && "amenities"@[0] == 'a');
    assert("title"@[0] == 't' && "price"@[0] == 'p');
    assert("review_number"@[1] == 'e' && "room_strucure"@[1] == 'o');
    assert forall|i: int, j: int| 0 <= i < j < t.len() implies #[trigger] t[i].1 != #[trigger] t[j].1 by {
        assert(0 <= i <= 5 && 1 <= j <= 6);
    }
}

/// The image url in a style: the first match of `IMAGE_URL_PATTERN` in it, if the
/// pattern compiles and matches.
pub open spec fn image_url_in(style: Seq<char>) -> Option<Seq<char>> {
    if regex_compiles(IMAGE_URL_PATTERN@) {
        regex_first_match(IMAGE_URL_PATTERN@, style)
    } else {
        None
    }
}

/// The views of optional texts.
pub open spec fn opt_texts_view(v: Seq<Option<String>>) -> Seq<Option<Seq<char>>> {
    v.map_values(|o: Option<String>| crate::pattern::opt_text(o))
}

/// The texts that were found, joined in order.
pub open spec fn found_text(texts: Seq<Option<Seq<char>>>) -> Seq<char>
    decreases texts.len(),
{
    if texts.len() == 0 {
        Seq::empty()
    } else {
        found_text(texts.drop_last()) + match texts.last() {
            Some(t) => t,
            None => Seq::empty(),
        }
    }
}

/// The texts found are joined in order: nothing found gives nothing, a found text
/// is appended, a path where nothing was found adds nothing.
pub proof fn law_found_texts_are_joined(texts: Seq<Option<Seq<char>>>, t: Seq<char>)
    ensures
        found_text(Seq::empty()) == Seq::<char>::empty(),
        found_text(texts.push(Some(t))) == found_text(texts) + t,
        found_text(texts.push(None)) == found_text(texts),
        found_text(seq![None, Some(t)]) == t,
        found_text(seq![Some(t), None]) == t,
{
    assert(texts.push(Some(t)).drop_last() =~= texts);
    assert(texts.push(None).drop_last() =~= texts);
    let e = Seq::<Option<Seq<char>>>::empty();
    assert(seq![None, Some(t)] =~= e.push(None).push(Some(t)));
    assert(seq![Some(t), None] =~= e.push(Some(t)).push(None));
    assert(e.push(None).drop_last() =~= e);
    assert(e.push(Some(t)).drop_last() =~= e);
    assert(e.push(None).push(Some(t)).drop_last() =~= e.push(None));
    assert(e.push(Some(t)).push(None).drop_last() =~= e.push(Some(t)));
    assert(found_text(e) == Seq::<char>::empty());
    assert(found_text(e.push(None)) == found_text(e) + Seq::<char>::empty());
    assert(found_text(e.push(None)) =~= Seq::<char>::empty());
    assert(found_text(e.push(None).push(Some(t))) == found_text(e.push(None)) + t);
    assert(found_text(e.push(None).push(Some(t))) =~= t);
    assert(found_text(e.push(Some(t))) == found_text(e) + t);
    assert(found_text(e.push(Some(t))) =~= t);
    assert(found_text(e.push(Some(t)).push(None)) == found_text(e.push(Some(t)))
        + Seq::<char>::empty());
    assert(found_text(e.push(Some(t)).push(None)) =~= t);
}

/// The image url is the first match of `https.*jpg` in the style, when that
/// pattern compiles.
pub proof fn law_image_url_pattern(style: Seq<char>)
    ensures
        regex_compiles("https.*jpg"@) ==> image_url_in(style) == regex_first_match(
            "https.*jpg"@,
            style,
        ),
{
}

impl Scraper {
    /// Takes the room's url from the link found, if one was found.
    pub fn extract_url(room: &mut RoomListingItem, url_href: Option<String>)
        ensures
            final(room)@ == match url_href {
                Some(h) => ItemView { url: h@, ..old(room)@ },
                None => old(room)@,
            },
    {
        if let Some(href) = url_href {
            room.url = href;
        }
    }

    /// Takes the room's image url from the style found, if one was found: the
    /// first match of `IMAGE_URL_PATTERN` in it, which must exist.
    pub fn extract_img_url(room: &mut RoomListingItem, img_style: Option<String>)
        requires
            img_style matches Some(s) ==> image_url_in(s@) is Some,
        ensures
            final(room)@ == match img_style {
                Some(s) => ItemView { image_url: image_url_in(s@)->0, ..old(room)@ },
                None => old(room)@,
            },
    {
        if let Some(style) = img_style {
            match Pattern::compile(IMAGE_URL_PATTERN) {
                Ok(pattern) => {
                    match pattern.first_match(style.as_str()) {
                        Some(url) => {
                            room.image_url = url;
                        },
                        None => {
                            assert(false);
                        },
                    }
                },
                Err(_) => {
                    assert(false);
                },
            }
        }
    }

    /// Takes the room's image url from the style found, as `extract_img_url` does,
    /// when the style holds one; returns whether it did, and leaves the room as it
    /// was when it did not.
    pub fn try_extract_img_url(room: &mut RoomListingItem, img_style: Option<String>) -> (done:
        bool)
        ensures
            done == (img_style matches Some(s) ==> image_url_in(s@) is Some),
            done ==> final(room)@ == match img_style {
                Some(s) => ItemView { image_url: image_url_in(s@)->0, ..old(room)@ },
                None => old(room)@,
            },
            !done ==> final(room)@ == old(room)@,
    {
        match img_style {
            Some(style) => {
                let found = match Pattern::compile(IMAGE_URL_PATTERN) {
                    Ok(pattern) => pattern.first_match(style.as_str()).is_some(),
                    Err(_) => false,
                };
                if found {
                    Scraper::extract_img_url(room, Some(style));
                }
                found
            },
            None => {
                Scraper::extract_img_url(room, None);
                true
            },
        }
    }

    /// Files the texts read at a detail's paths: joined in order, they are filed
    /// under `item_type` unless no text was read.
    pub fn apply_scraped_texts(
        content: &mut RoomListingContent,
        item_type: &str,
        texts: Vec<Option<String>>,
    )
        ensures
            final(content)@ == if found_text(opt_texts_view(texts@)).len() > 0 {
                content_updated(old(content)@, item_type@, found_text(opt_texts_view(texts@)))
            } else {
                old(content)@
            },
    {
        let mut result = String::new();
        let ghost all = opt_texts_view(texts@);
        let n = texts.len();
        let mut i: usize = 0;
        proof {
            assert(all.take(0) =~= Seq::<Option<Seq<char>>>::empty());
        }
        while i < n
            invariant
                n == texts@.len(),
                i <= n,
                all == opt_texts_view(texts@),
                result@ == found_text(all.take(i as int)),
            decreases n - i,
        {
            if let Some(text) = &texts[i] {
                result.append(text.as_str());
            }
            proof {
                assert(all.take(i + 1).drop_last() =~= all.take(i as int));
            }
            i = i + 1;
        }
        proof {
            assert(all.take(n as int) =~= all);
        }
        if !result.as_str().is_empty() {
            RoomListingContent::update_room_listing(content, item_type, result.as_str());
        }
    }
}

} // verus!
