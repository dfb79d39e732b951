use scraper::email::Email;

#[test]
fn no_content_no_message() {
    assert!(Email::message(&"a@b.c".to_string(), None).is_none());
}

#[test]
fn message_posts_to_mailgun_with_four_fields() {
    let m = Email::message(&"a@b.c".to_string(), Some("<p>hi</p>".to_string())).unwrap();
    assert_eq!(
        m.url,
        "https://api:<Place your api key>@api.mailgun.net/v3/email.airnotify.info/messages"
    );
    assert_eq!(
        m.form,
        vec![
            ("from".to_string(), "email@airnotify.info".to_string()),
            ("to".to_string(), "a@b.c".to_string()),
            ("subject".to_string(), "New Listings".to_string()),
            ("html".to_string(), "<p>hi</p>".to_string()),
        ]
    );
}
