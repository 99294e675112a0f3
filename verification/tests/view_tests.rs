use rchat::view::{
    chat_title, choice_lines, choice_padding, choice_selection, command_help, line_style,
    offer_title, LineStyle,
};

#[test]
fn line_styles() {
    assert_eq!(line_style("me> hi", "bob"), LineStyle::Own);
    assert_eq!(line_style("!FILE 'x' NOT FOUND!", "bob"), LineStyle::Error);
    assert_eq!(line_style("bob> hi", "bob"), LineStyle::Peer);
    assert_eq!(line_style("YOU ACCEPTED THE FILE!", "bob"), LineStyle::Own);
}

#[test]
fn titles() {
    assert_eq!(chat_title("bob"), " Chat with: bob ");
    assert_eq!(offer_title("bob"), " bob want to send you a file, accept? ");
}

#[test]
fn choice_box() {
    for w in 0..=u16::MAX {
        let expected = (w.saturating_sub(2)) / 2 - w / 18;
        assert_eq!(choice_padding(w), expected);
    }
    assert_eq!(choice_padding(80), 35);
    let lines = choice_lines(20);
    assert_eq!(lines, vec![format!("{}yes", " ".repeat(8)), format!("{}no", " ".repeat(8))]);
    assert_eq!(choice_selection(0), Some(0));
    assert_eq!(choice_selection(1), Some(1));
    assert_eq!(choice_selection(2), None);
}

#[test]
fn command_list() {
    assert_eq!(
        command_help(),
        vec!["!clear", "- clear the msg", "!sendfile", "- send file", "!cancel/!cl", "- cancel action"]
    );
}
