//! Saved searches: which search files a bucket listing names, and how the
//! listings found by a search are told apart from those it already reported.
use vstd::prelude::*;

use crate::pattern::{regex_compiles, Pattern};
use crate::room_listing::{
    extract_new_listing, fresh_listings, items_view, law_all_new_against_empty_history,
    ItemView, RoomListingItem, ROOM_ID_PATTERN, law_recorded_listings_are_not_new,
};
use crate::text::{nonempty_pieces, split_nonempty, strings_view};
use vstd::utf8::{decode_utf8, valid_utf8};

verus! {

#[verifier::external_type_specification]
#[verifier::external_body]
pub struct ExUtf8Error(core::str::Utf8Error);

/// `std::str::from_utf8`: succeeds exactly on valid UTF-8, and the string then
/// holds the characters those bytes encode.
pub assume_specification<'a>[ core::str::from_utf8 ](v: &'a [u8]) -> (res: Result<
    &'a str,
    core::str::Utf8Error,
>)
    ensures
        res is Ok <==> valid_utf8(v@),
        res matches Ok(s) ==> s@ == decode_utf8(v@),
;

/// The place where saved searches are kept.
pub struct Storage;

impl Storage {
    /// The names in a bucket listing: the non-empty lines of `result`, in order.
    pub fn process_output(result: Vec<u8>) -> (res: Vec<String>)
        requires
            valid_utf8(result@),
        ensures
            strings_view(res@) == nonempty_pieces(decode_utf8(result@), '\n'),
    {
        match core::str::from_utf8(result.as_slice()) {
            Ok(text) => split_nonempty(text, '\n'),
            Err(_) => {
                assert(false);
                Vec::new()
            },
        }
    }
}

/// A saved search: its id, the url searched, the listings already reported
/// (none before the first report) and the address they are reported to.
#[derive(Debug, Clone)]
pub struct SearchConfig {
    pub id: u128,
    pub url: String,
    pub result: Option<Vec<RoomListingItem>>,
    pub email: String,
}

/// The listings a search has already reported.
pub open spec fn stored(result: Option<Vec<RoomListingItem>>) -> Seq<RoomListingItem> {
    match result {
        Some(r) => r@,
        None => Seq::empty(),
    }
}

/// The views of the listings a search has already reported.
pub open spec fn reported(result: Option<Vec<RoomListingItem>>) -> Seq<ItemView> {
    items_view(stored(result))
}

impl SearchConfig {
    /// A new search, with nothing reported yet.
    pub fn new(id: u128, url: String, email: String) -> (res: SearchConfig)
        ensures
            res.id == id,
            res.url == url,
            res.email == email,
            res.result is None,
    {
        SearchConfig { id, url, result: None, email }
    }

    /// The listings of `scraped`, in order, that are not the same as a listing
    /// already reported. `None` only when there are reported listings and the room
    /// id pattern does not compile.
    pub fn new_listings(&self, scraped: Vec<RoomListingItem>) -> (res: Option<
        Vec<RoomListingItem>,
    >)
        ensures
            res is None <==> (self.result is Some && !regex_compiles(ROOM_ID_PATTERN@)),
            self.result is None ==> res == Some(scraped),
            res matches Some(v) ==> items_view(v@) == fresh_listings(
                items_view(scraped@),
                reported(self.result),
            ),
    {
        match &self.result {
            Some(r) => {
                if Pattern::compile(ROOM_ID_PATTERN).is_ok() {
                    Some(extract_new_listing(scraped, r))
                } else {
                    None
                }
            },
            None => {
                proof {
                    law_all_new_against_empty_history(items_view(scraped@));
                    assert(reported(self.result) =~= Seq::<ItemView>::empty());
                }
                Some(scraped)
            },
        }
    }

    /// Records newly reported listings in front of those already reported; an
    /// empty list records nothing.
    pub fn record_new_listings(&mut self, new: Vec<RoomListingItem>)
        ensures
            final(self).id == old(self).id,
            final(self).url == old(self).url,
            final(self).email == old(self).email,
            new@.len() == 0 ==> final(self).result == old(self).result,
            new@.len() > 0 ==> (final(self).result is Some && final(self).result->0@ == new@
                + stored(old(self).result)),
    {
        if new.len() > 0 {
            let mut merged = new;
            let old_result = self.result.take();
            match old_result {
                Some(mut o) => {
                    merged.append(&mut o);
                },
                None => {
                    assert(merged@ =~= merged@ + Seq::<RoomListingItem>::empty());
                },
            }
            self.result = Some(merged);
        }
    }
}

/// A search that records the new listings it found finds none when it runs again
/// on the same scrape: `new` is what `new_listings` gave for `scraped` and
/// `merged` what `record_new_listings` of `new` left as the reported listings.
pub proof fn law_second_search_reports_nothing(
    result: Option<Vec<RoomListingItem>>,
    new: Seq<RoomListingItem>,
    merged: Option<Vec<RoomListingItem>>,
    scraped: Seq<ItemView>,
)
    requires
        items_view(new) == fresh_listings(scraped, reported(result)),
        new.len() == 0 ==> merged == result,
        new.len() > 0 ==> (merged is Some && merged->0@ == new + stored(result)),
    ensures
        fresh_listings(scraped, reported(merged)) == Seq::<ItemView>::empty(),
{
    if new.len() > 0 {
        let r = merged->0;
        let rest = stored(result);
        assert(reported(result) =~= items_view(rest));
        assert(items_view(r@) =~= items_view(new) + items_view(rest));
        law_recorded_listings_are_not_new(scraped, reported(result));
    } else {
        assert(items_view(new) =~= Seq::<ItemView>::empty());
    }
}

} // verus!
