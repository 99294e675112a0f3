use rchat::shell::{
    file_length_line, file_saved_line, Chat, ConnEvent, KeyCode, KeyPress, Notice, Reaction,
};

fn key(code: KeyCode) -> KeyPress {
    KeyPress { code, control: false }
}

fn type_text(chat: &mut Chat, text: &str) {
    for c in text.chars() {
        let out = chat.handle_key(key(KeyCode::Char(c)), "me");
        assert_eq!(out.reaction, Reaction::Idle);
    }
}

#[test]
fn typing_and_backspace() {
    let mut chat = Chat::new();
    type_text(&mut chat, "hey");
    assert_eq!(chat.user_msg, "hey");
    chat.handle_key(key(KeyCode::Backspace), "me");
    assert_eq!(chat.user_msg, "he");
    chat.handle_key(key(KeyCode::Backspace), "me");
    chat.handle_key(key(KeyCode::Backspace), "me");
    chat.handle_key(key(KeyCode::Backspace), "me");
    assert_eq!(chat.user_msg, "");
}

#[test]
fn enter_sends_message() {
    let mut chat = Chat::new();
    type_text(&mut chat, "hello bob");
    let out = chat.handle_key(key(KeyCode::Enter), "alice");
    assert_eq!(out.reaction, Reaction::Send);
    assert_eq!(out.text, "hello bob");
    assert_eq!(chat.messages, vec!["alice> hello bob".to_string()]);
    assert_eq!(chat.user_msg, "");
}

#[test]
fn blank_entries_are_discarded() {
    let mut chat = Chat::new();
    let out = chat.handle_key(key(KeyCode::Enter), "me");
    assert_eq!(out.reaction, Reaction::Idle);
    type_text(&mut chat, "   ");
    let out = chat.handle_key(key(KeyCode::Enter), "me");
    assert_eq!(out.reaction, Reaction::Idle);
    assert!(chat.messages.is_empty());
    assert_eq!(chat.user_msg, "");
    // a line that starts with a space but has text is sent
    type_text(&mut chat, "  hi");
    let out = chat.handle_key(key(KeyCode::Enter), "me");
    assert_eq!(out.reaction, Reaction::Send);
    assert_eq!(out.text, "  hi");
}

#[test]
fn commands() {
    let mut chat = Chat::new();
    type_text(&mut chat, "a");
    chat.handle_key(key(KeyCode::Enter), "me");
    chat.scroll = 3;
    type_text(&mut chat, "!clear");
    let out = chat.handle_key(key(KeyCode::Enter), "me");
    assert_eq!(out.reaction, Reaction::Idle);
    assert!(chat.messages.is_empty());
    assert_eq!(chat.scroll, 0);
    type_text(&mut chat, "!nope");
    chat.handle_key(key(KeyCode::Enter), "me");
    assert_eq!(chat.messages, vec!["!COMMAND '!nope' NOT FOUND!".to_string()]);
    type_text(&mut chat, "!sendfile");
    let out = chat.handle_key(key(KeyCode::Enter), "me");
    assert_eq!(out.reaction, Reaction::Idle);
    assert_eq!(chat.event, ConnEvent::SendFile);
    type_text(&mut chat, "!cl");
    let out = chat.handle_key(key(KeyCode::Enter), "me");
    assert_eq!(out.reaction, Reaction::Idle);
    assert_eq!(chat.event, ConnEvent::Idle);
}

#[test]
fn sending_a_file() {
    let mut chat = Chat::new();
    type_text(&mut chat, "!sendfile");
    chat.handle_key(key(KeyCode::Enter), "me");
    type_text(&mut chat, "notes.txt");
    let out = chat.handle_key(key(KeyCode::Enter), "me");
    assert_eq!(out.reaction, Reaction::LocateFile);
    assert_eq!(out.text, "notes.txt");
    chat.file_located("notes.txt", false);
    assert_eq!(chat.messages.last().unwrap(), "!FILE 'notes.txt' NOT FOUND!");
    assert_eq!(chat.event, ConnEvent::SendFile);
    chat.file_located("notes.txt", true);
    assert_eq!(chat.messages.last().unwrap(), "AWAITING FOR THE USER RESPONSE!");
    assert_eq!(chat.event, ConnEvent::Idle);
    assert_eq!(chat.take_file_reply("notes.txt"), None);
    assert!(chat.receive_message("bob", "y") == false);
    assert_eq!(chat.take_file_reply("notes.txt"), Some(true));
    assert_eq!(chat.messages.last().unwrap(), "THE USER ACCEPTED THE FILE!");
    assert!(chat.last_line_is("THE USER ACCEPTED THE FILE!"));
    chat.receive_message("bob", "n");
    assert_eq!(chat.take_file_reply("notes.txt"), Some(false));
    assert_eq!(chat.messages.last().unwrap(), "!THE USER REJECT THE FILE notes.txt!");
}

#[test]
fn receiving_a_file_offer() {
    let mut chat = Chat::new();
    assert!(chat.receive_message("bob", "!sendfile"));
    assert_eq!(chat.event, ConnEvent::ReceiveFile);
    assert!(chat.messages.is_empty());
    chat.handle_key(key(KeyCode::Down), "me");
    assert_eq!(chat.scroll, 1);
    chat.handle_key(key(KeyCode::Up), "me");
    assert_eq!(chat.scroll, 0);
    let out = chat.handle_key(key(KeyCode::Enter), "me");
    assert_eq!(out.reaction, Reaction::Send);
    assert_eq!(out.text, "y");
    assert!(chat.last_line_is("YOU ACCEPTED THE FILE!"));
    assert_eq!(chat.event, ConnEvent::Idle);
    chat.end_file_receipt();
    assert_eq!(chat.event, ConnEvent::Idle);
}

#[test]
fn refusing_a_file_offer() {
    let mut chat = Chat::new();
    chat.receive_message("bob", "!sendfile");
    chat.handle_key(key(KeyCode::Down), "me");
    let out = chat.handle_key(key(KeyCode::Enter), "me");
    assert_eq!(out.text, "n");
    assert_eq!(chat.messages, vec!["!YOU HAVEN'T ACCEPTED THE FILE!".to_string()]);
}

#[test]
fn scrolling_stays_in_log() {
    let mut chat = Chat::new();
    chat.view_height = 6;
    for i in 0..4 {
        chat.receive_message("bob", &format!("m{}", i));
    }
    assert_eq!(chat.messages[0], "bob> m0");
    chat.handle_key(key(KeyCode::Up), "me");
    assert_eq!(chat.scroll, 0);
    chat.handle_key(key(KeyCode::Down), "me");
    chat.handle_key(key(KeyCode::Down), "me");
    chat.handle_key(key(KeyCode::Down), "me");
    chat.handle_key(key(KeyCode::Down), "me");
    assert_eq!(chat.scroll, 2);
    chat.handle_key(key(KeyCode::Up), "me");
    assert_eq!(chat.scroll, 1);
}

#[test]
fn control_c_quits() {
    let mut chat = Chat::new();
    let out = chat.handle_key(KeyPress { code: KeyCode::Char('c'), control: true }, "me");
    assert_eq!(out.reaction, Reaction::Quit);
    let out = chat.handle_key(KeyPress { code: KeyCode::Char('x'), control: true }, "me");
    assert_eq!(out.reaction, Reaction::Idle);
    let out = chat.handle_key(key(KeyCode::Other), "me");
    assert_eq!(out.reaction, Reaction::Idle);
}

#[test]
fn log_lines() {
    assert_eq!(file_length_line(1024), "the file length is: 1024 bytes");
    assert_eq!(file_saved_line(" a.zip "), "FILE SAVED AS 'received/a.zip'");
    assert_eq!(Notice::Sent.text(), "FILE SENDED SUCCESFULLY!");
    assert_eq!(Notice::Extracted.text(), "FINISHED EXTRACTING");
    let chat = Chat::new();
    assert!(chat.last_line_is("None"));
}
