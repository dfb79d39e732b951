//! The notification mail: where it is posted and which form fields it carries.
use vstd::prelude::*;

verus! {

/// The key of the mail service account.
pub const MAILGUN_API_KEY: &'static str = "<Place your api key>";

/// The domain the notifications are sent from.
pub const MAIL_DOMAIN: &'static str = "email.airnotify.info";

/// The sender of the notifications.
pub const MAIL_SENDER: &'static str = "email@airnotify.info";

/// The subject of the notifications.
pub const MAIL_SUBJECT: &'static str = "New Listings";

/// The sending of notifications.
pub struct Email;

/// A mail to post: the url of the service and the form fields, in order.
#[derive(Debug, Clone)]
pub struct MailMessage {
    pub url: String,
    pub form: Vec<(String, String)>,
}

/// The url messages are posted to.
pub open spec fn message_url() -> Seq<char> {
    "https://api:"@ + MAILGUN_API_KEY@ + "@api.mailgun.net/v3"@ + "/"@ + MAIL_DOMAIN@
        + "/messages"@
}

/// The form fields of a message to `to` with the html body `html`.
pub open spec fn message_form(to: Seq<char>, html: Seq<char>) -> Seq<(Seq<char>, Seq<char>)> {
    seq![("from"@, MAIL_SENDER@), ("to"@, to), ("subject"@, MAIL_SUBJECT@), ("html"@, html)]
}

/// The views of form fields.
pub open spec fn form_view(form: Seq<(String, String)>) -> Seq<(Seq<char>, Seq<char>)> {
    form.map_values(|p: (String, String)| (p.0@, p.1@))
}

/// The message carries four fields, in order: the sender, the address given, the
/// subject, and the html body given, unchanged.
pub proof fn law_form_carries_address_and_body(to: Seq<char>, html: Seq<char>)
    ensures
        message_form(to, html).len() == 4,
        message_form(to, html)[0] == ("from"@, "email@airnotify.info"@),
        message_form(to, html)[1] == ("to"@, to),
        message_form(to, html)[2] == ("subject"@, "New Listings"@),
        message_form(to, html)[3] == ("html"@, html),
{
}

impl Email {
    /// The message that reports `content` to `email`; none when there is no
    /// content to report.
    pub fn message(email: &String, content: Option<String>) -> (res: Option<MailMessage>)
        ensures
            res is Some <==> content is Some,
            res matches Some(m) ==> m.url@ == message_url() && form_view(m.form@)
                == message_form(email@, content->0@),
    {
        match content {
            Some(html) => {
                let mut url = "https://api:".to_string();
                url.append(MAILGUN_API_KEY);
                url.append("@api.mailgun.net/v3");
                url.append("/");
                url.append(MAIL_DOMAIN);
                url.append("/messages");
                let mut form: Vec<(String, String)> = Vec::new();
                form.push(("from".to_string(), MAIL_SENDER.to_string()));
                form.push(("to".to_string(), email.clone()));
                form.push(("subject".to_string(), MAIL_SUBJECT.to_string()));
                form.push(("html".to_string(), html));
                let m = MailMessage { url, form };
                proof {
                    assert(form_view(m.form@) =~= message_form(email@, html@));
                }
                Some(m)
            },
            None => None,
        }
    }
}

} // verus!
