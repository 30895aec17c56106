use vstd::prelude::*;
use vstd::string::StringExecFns;

verus! {

/// The answer to a request to enter the chat.
pub enum ChatEntry {
    /// The name is taken: an error status and a body to send.
    Refused { status: u16, body: String },
    /// The name is free: the chat page is to be shown for this user.
    Page { username: String },
}

/// The status with which a taken name is refused.
pub const REFUSED_STATUS: u16 = 400;

/// Decides the answer to a request to enter the chat under `username`,
/// given whether the feed reports the name as taken.
pub fn enter_chat_reply(username: String, taken: bool) -> (reply: ChatEntry)
    ensures
        taken ==> (reply matches ChatEntry::Refused { status, body } && status == 400 && body@
            == "Invalid username"@),
        !taken ==> reply == (ChatEntry::Page { username }),
{
    if taken {
        ChatEntry::Refused { status: REFUSED_STATUS, body: String::from_str("Invalid username") }
    } else {
        ChatEntry::Page { username }
    }
}

/// Where the stylesheet of the given name lies.
pub fn css_path(name: &str) -> (path: String)
    ensures
        path@ == "./public/css/"@ + name@ + ".css"@,
{
    let mut path = String::from_str("./public/css/");
    path.append(name);
    path.append(".css");
    path
}

/// Where the script of the given name lies.
pub fn js_path(name: &str) -> (path: String)
    ensures
        path@ == "./public/script/"@ + name@ + ".js"@,
{
    let mut path = String::from_str("./public/script/");
    path.append(name);
    path.append(".js");
    path
}

/// What a fresh `handlebars` registry renders from a template source and
/// data made of one string field (`None` when the template does not parse
/// or does not render).
pub uninterp spec fn rendered_with(template: Seq<char>, key: Seq<char>, value: Seq<char>) -> Option<
    Seq<char>,
>;

/// Calls `handlebars::Handlebars::render_template` on a fresh registry, with
/// data that has the one field `key` set to `value`.  The contract claims
/// only that the outcome is a function of the template source, the key and
/// the value; what the template language makes of them is left unsaid.
#[verifier::external_body]
fn render_one(template: &str, key: &str, value: &str) -> (page: Option<String>)
    ensures
        match page {
            Some(p) => rendered_with(template@, key@, value@) == Some(p@),
            None => rendered_with(template@, key@, value@) is None,
        },
{
    let mut data = std::collections::BTreeMap::new();
    data.insert(key, value);
    handlebars::Handlebars::new().render_template(template, &data).ok()
}

/// The greeting page: the template rendered with the visitor's name as
/// `name`.
pub fn greeting_page(template: &str, name: &str) -> (page: Option<String>)
    ensures
        match page {
            Some(p) => rendered_with(template@, "name"@, name@) == Some(p@),
            None => rendered_with(template@, "name"@, name@) is None,
        },
{
    render_one(template, "name", name)
}

/// The chat page: the template rendered with the user's name as
/// `username`.
pub fn chat_page(template: &str, username: &str) -> (page: Option<String>)
    ensures
        match page {
            Some(p) => rendered_with(template@, "username"@, username@) == Some(p@),
            None => rendered_with(template@, "username"@, username@) is None,
        },
{
    render_one(template, "username", username)
}

/// The page that shows an RFC code: the template rendered with the code as
/// `rfc`.
pub fn rfc_page(template: &str, rfc: &str) -> (page: Option<String>)
    ensures
        match page {
            Some(p) => rendered_with(template@, "rfc"@, rfc@) == Some(p@),
            None => rendered_with(template@, "rfc"@, rfc@) is None,
        },
{
    render_one(template, "rfc", rfc)
}

} // verus!
