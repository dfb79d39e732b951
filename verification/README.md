# scraper

Watches room-rental search pages and mails the listings that are new since the
last run.

- `src/` is the verified library (Verus):
  - `room_listing.rs`: the listing types, filing a scraped detail under its key,
    room ids, and which listings of a scrape are new against those already known;
  - `storage.rs`: saved searches, the names in a bucket listing, and recording
    reported listings;
  - `email.rs`: the notification message (service url and form fields);
  - `lib.rs`: where each detail is read on the page and how what was read is
    filed into a listing;
  - `text.rs`: replacing and splitting text, stated over character sequences;
  - `pattern.rs`: regular expressions through the `regex` crate.
- `app/` is the program around it: the browser session (fantoccini), the
  template rendering (tera), the mail request (reqwest), the bucket (gsutil),
  the database (diesel) and the JSON files (serde).
- `tests/` runs the library on concrete values.
