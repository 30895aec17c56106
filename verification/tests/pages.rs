use chatroom::{
    chat_page, css_path, enter_chat_reply, greeting_page, js_path, rfc_page, ChatEntry, Contador,
    REFUSED_STATUS,
};

#[test]
fn taken_name_is_refused() {
    match enter_chat_reply("ana".to_string(), true) {
        ChatEntry::Refused { status, body } => {
            assert_eq!(status, 400);
            assert_eq!(status, REFUSED_STATUS);
            assert_eq!(body, "Invalid username");
        }
        _ => panic!("expected a refusal"),
    }
}

#[test]
fn free_name_gets_chat_page() {
    match enter_chat_reply("ana".to_string(), false) {
        ChatEntry::Page { username } => assert_eq!(username, "ana"),
        _ => panic!("expected the chat page"),
    }
}

#[test]
fn css_and_js_paths() {
    assert_eq!(css_path("main"), "./public/css/main.css");
    assert_eq!(js_path("chat"), "./public/script/chat.js");
    assert_eq!(css_path(""), "./public/css/.css");
}

#[test]
fn counter_starts_at_zero_and_counts() {
    let mut c = Contador::new();
    assert_eq!(c.cont, 0);
    c.increment();
    c.increment();
    assert_eq!(c.cont, 2);
}

#[test]
fn greeting_page_fills_in_name() {
    assert_eq!(greeting_page("Hola {{name}}!", "Ana"), Some("Hola Ana!".to_string()));
    assert_eq!(greeting_page("<p>{{name}}</p>", "<b>"), Some("<p>&lt;b&gt;</p>".to_string()));
    assert_eq!(greeting_page("{{username}}", "Ana"), Some("".to_string()));
    assert_eq!(greeting_page("{{#if name}}", "Ana"), None);
}

#[test]
fn chat_and_rfc_pages_fill_in_their_field() {
    assert_eq!(chat_page("user: {{username}}", "bob"), Some("user: bob".to_string()));
    assert_eq!(chat_page("user: {{name}}", "bob"), Some("user: ".to_string()));
    assert_eq!(rfc_page("RFC {{rfc}}", "GALJ170590XB3"), Some("RFC GALJ170590XB3".to_string()));
}
