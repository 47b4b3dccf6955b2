use vstd::prelude::*;
use vstd::string::*;

verus! {

/// Start of the messaging API's send call, up to the bot token.
pub const API_PREFIX: &'static str = "https://api.telegram.org/bot";

/// Path of the send call and the name of its chat parameter.
pub const SEND_PATH: &'static str = "/sendMessage?chat_id=";

/// Name of the text parameter.
pub const TEXT_PARAM: &'static str = "&text=";

/// Delivery hints: silent, and no link preview.
pub const DELIVERY_HINTS: &'static str = "&disable_notification=true&disable_web_page_preview=true";

/// What `urlencoding::encode` makes of a text.
pub uninterp spec fn url_encoded(s: Seq<char>) -> Seq<char>;

/// Relies on urlencoding::encode: percent-encodes the UTF-8 bytes of the text
/// (all but ASCII letters, digits and `-`, `_`, `.`, `~`), so the result depends
/// on the text alone, and an empty text stays empty.
#[verifier::external_body]
fn url_encode(s: &str) -> (r: String)
    ensures
        r@ == url_encoded(s@),
        s@.len() == 0 ==> r@.len() == 0,
{
    urlencoding::encode(s).into_owned()
}

/// The address of the call that sends `text` (already URL-encoded) to chat
/// `chat_id` through the bot `token`.
pub open spec fn send_request_url(token: Seq<char>, chat_id: Seq<char>, text: Seq<char>) -> Seq<char> {
    API_PREFIX@ + token + SEND_PATH@ + chat_id + TEXT_PARAM@ + text + DELIVERY_HINTS@
}

/// Builds the send call's address from text that is already URL-encoded.
pub fn request_url(token: &str, chat_id: &str, encoded_text: &str) -> (r: String)
    ensures
        r@ == send_request_url(token@, chat_id@, encoded_text@),
{
    let mut url = String::from_str(API_PREFIX);
    url.append(token);
    url.append(SEND_PATH);
    url.append(chat_id);
    url.append(TEXT_PARAM);
    url.append(encoded_text);
    url.append(DELIVERY_HINTS);
    url
}

/// Builds the send call's address for a plain-text message, URL-encoding it.
pub fn send_message_url(token: &str, chat_id: &str, message: &str) -> (r: String)
    ensures
        r@ == send_request_url(token@, chat_id@, url_encoded(message@)),
{
    let encoded = url_encode(message);
    request_url(token, chat_id, encoded.as_str())
}

} // verus!
