use aiva::chat::{ChatManager, Message};
use aiva::json::quote;
use aiva::text::{contains, trim};

#[test]
fn chat_manager_starts_empty() {
    let c = ChatManager::new(3);
    assert_eq!(c.len(), 0);
    assert!(c.get_messages().is_empty());
}

#[test]
fn chat_manager_appends_in_order() {
    let mut c = ChatManager::new(3);
    c.add_message("user".to_string(), "hi".to_string());
    c.add_message("assistant".to_string(), "hello".to_string());
    let m = c.get_messages();
    assert_eq!(m.len(), 2);
    assert_eq!(m[0].role, "user");
    assert_eq!(m[0].content, "hi");
    assert_eq!(m[1].role, "assistant");
    assert_eq!(m[1].content, "hello");
}

#[test]
fn chat_manager_drops_oldest_when_full() {
    let mut c = ChatManager::new(2);
    c.add_message("user".to_string(), "a".to_string());
    c.add_message("user".to_string(), "b".to_string());
    c.add_message("user".to_string(), "c".to_string());
    let m = c.get_messages();
    assert_eq!(m.len(), 2);
    assert_eq!(m[0].content, "b");
    assert_eq!(m[1].content, "c");
}

#[test]
fn chat_manager_with_no_room_keeps_nothing() {
    let mut c = ChatManager::new(0);
    c.add_message("user".to_string(), "a".to_string());
    assert_eq!(c.len(), 0);
}

#[test]
fn chat_manager_never_exceeds_capacity() {
    let mut c = ChatManager::new(5);
    for i in 0..50 {
        c.add_message("user".to_string(), format!("{}", i));
        assert!(c.len() <= 5);
    }
    assert_eq!(c.get_messages()[4].content, "49");
    assert_eq!(c.get_messages()[0].content, "45");
}

#[test]
fn chat_manager_clear_empties() {
    let mut c = ChatManager::new(4);
    c.add_message("user".to_string(), "a".to_string());
    c.clear();
    assert_eq!(c.len(), 0);
    c.add_message("assistant".to_string(), "b".to_string());
    assert_eq!(c.len(), 1);
}

#[test]
fn message_knows_its_author() {
    assert!(Message::new("user".to_string(), "x".to_string()).is_from_user());
    assert!(!Message::new("assistant".to_string(), "x".to_string()).is_from_user());
    let m = Message::new("user".to_string(), "y".to_string()).duplicate();
    assert_eq!(m.content, "y");
}

#[test]
fn trim_matches_std() {
    for s in ["", "  ", " a ", "\t\nab c\r\n", "\u{3000}x\u{a0}", "x", "  é  ", "\u{200b}x"] {
        assert_eq!(trim(s), s.trim(), "input {:?}", s);
    }
}

#[test]
fn contains_finds_runs() {
    assert!(contains("AIVA Engine ready!", "AIVA Engine ready"));
    assert!(contains("abc", ""));
    assert!(!contains("ab", "abc"));
    assert!(contains("model loaded successfully", "loaded successfully"));
    assert!(!contains("loaded successfull", "loaded successfully"));
}

#[test]
fn quote_matches_serde_json() {
    for s in ["", "plain", "say \"hi\"", "back\\slash", "line\nfeed", "tab\t", "\u{1}\u{1f}\u{7f}", "héllo 😀", "\u{8}\u{c}\r"] {
        assert_eq!(quote(s), serde_json::to_string(s).unwrap());
    }
    assert_eq!(quote("a\u{1}b"), "\"a\\u0001b\"");
    assert_eq!(quote("\n"), "\"\\n\"");
}
