//! What the screen shows: the colour of each chat line, the titles, the
//! yes/no choice of a file offer and the list of commands.  The layout
//! itself is drawn by the program.

use vstd::prelude::*;

use crate::text::{has_prefix, join3, owned, starts_with, string_push};

verus! {

broadcast use vstd::string::group_string_axioms;

/// How a chat line is coloured.
#[derive(Clone, Copy, PartialEq, Eq, Structural, Debug)]
pub enum LineStyle {
    /// The user's own lines (light yellow).
    Own,
    /// Errors, the lines that start with `!` (red).
    Error,
    /// The peer's lines (the default colour).
    Peer,
}

/// The style of a line: a line that starts neither with the peer's name
/// nor with `!` is the user's own; one that starts with `!` is an error;
/// the rest are the peer's.
pub open spec fn line_style_spec(line: Seq<char>, conname: Seq<char>) -> LineStyle {
    if !has_prefix(line, conname) && !has_prefix(line, "!"@) {
        LineStyle::Own
    } else if has_prefix(line, "!"@) {
        LineStyle::Error
    } else {
        LineStyle::Peer
    }
}

/// A line that begins with `!` is an error; otherwise a line that begins
/// with the peer's name is the peer's, and any other line is the user's own,
/// whatever follows its first characters.
pub proof fn lemma_line_style(line: Seq<char>, conname: Seq<char>)
    ensures
        (line.len() > 0 && line[0] == '!') ==> line_style_spec(line, conname) == LineStyle::Error,
        !(line.len() > 0 && line[0] == '!') && (conname.len() <= line.len() && line.subrange(
            0,
            conname.len() as int,
        ) == conname) ==> line_style_spec(line, conname) == LineStyle::Peer,
        !(line.len() > 0 && line[0] == '!') && !(conname.len() <= line.len() && line.subrange(
            0,
            conname.len() as int,
        ) == conname) ==> line_style_spec(line, conname) == LineStyle::Own,
{
    reveal_strlit("!");
    if line.len() > 0 && line[0] == '!' {
        assert(line.subrange(0, 1) =~= "!"@);
    }
    if has_prefix(line, "!"@) {
        assert(line.subrange(0, 1)[0] == line[0]);
    }
}

/// The style of a chat line.
pub fn line_style(line: &str, conname: &str) -> (res: LineStyle)
    ensures
        res == line_style_spec(line@, conname@),
        (line@.len() > 0 && line@[0] == '!') ==> res == LineStyle::Error,
        !(line@.len() > 0 && line@[0] == '!') && (conname@.len() <= line@.len()
            && line@.subrange(0, conname@.len() as int) == conname@) ==> res == LineStyle::Peer,
        !(line@.len() > 0 && line@[0] == '!') && !(conname@.len() <= line@.len()
            && line@.subrange(0, conname@.len() as int) == conname@) ==> res == LineStyle::Own,
{
    proof {
        lemma_line_style(line@, conname@);
    }
    let from_peer = starts_with(line, conname);
    let error = starts_with(line, "!");
    if !from_peer && !error {
        LineStyle::Own
    } else if error {
        LineStyle::Error
    } else {
        LineStyle::Peer
    }
}

/// The title of the chat log.
pub fn chat_title(conname: &str) -> (res: String)
    ensures
        res@ == " Chat with: "@ + conname@ + " "@,
{
    join3(" Chat with: ", conname, " ")
}

/// The title of the box that asks whether to accept a file.
pub fn offer_title(conname: &str) -> (res: String)
    ensures
        res@ == " "@ + conname@ + " want to send you a file, accept? "@,
{
    join3(" ", conname, " want to send you a file, accept? ")
}

/// The indentation of the yes/no choice in a box `width` cells wide:
/// half of the inner width, less a eighteenth of the width.
pub open spec fn choice_padding_spec(width: u16) -> int {
    (if width >= 2 {
        width - 2
    } else {
        0
    }) / 2 - width / 18
}

/// The indentation of the yes/no choice; it is never negative.
pub fn choice_padding(width: u16) -> (res: u16)
    ensures
        res == choice_padding_spec(width),
{
    let inner = width.saturating_sub(2);
    assert(inner / 2 >= width / 18) by (nonlinear_arith)
        requires
            inner == (if width >= 2 {
                width - 2
            } else {
                0
            }),
    ;
    inner / 2 - width / 18
}

/// `n` spaces.
pub open spec fn spaces(n: nat) -> Seq<char> {
    Seq::new(n, |i: int| ' ')
}

/// The two lines of the choice, `yes` and `no`, indented for a box
/// `width` cells wide.
pub fn choice_lines(width: u16) -> (res: Vec<String>)
    ensures
        res@.len() == 2,
        res@[0]@ == spaces(choice_padding_spec(width) as nat) + "yes"@,
        res@[1]@ == spaces(choice_padding_spec(width) as nat) + "no"@,
{
    let pad = choice_padding(width);
    let mut indent = String::new();
    let mut i: u16 = 0;
    while i < pad
        invariant
            i <= pad,
            indent@ == spaces(i as nat),
        decreases pad - i,
    {
        string_push(&mut indent, ' ');
        i = i + 1;
        assert(indent@ =~= spaces(i as nat));
    }
    let yes = owned(indent.as_str()).concat("yes");
    let no = indent.concat("no");
    let mut res: Vec<String> = Vec::new();
    res.push(yes);
    res.push(no);
    res
}

/// The choice highlighted during a file offer: the first (yes) for scroll
/// position 0, the second (no) for 1, none otherwise.
pub fn choice_selection(scroll: u16) -> (res: Option<usize>)
    ensures
        res == (if scroll == 0 {
            Some(0usize)
        } else if scroll == 1 {
            Some(1usize)
        } else {
            None
        }),
{
    if scroll == 0 {
        Some(0)
    } else if scroll == 1 {
        Some(1)
    } else {
        None
    }
}

/// The command list shown beside the chat: each command and what it does.
pub fn command_help() -> (res: Vec<String>)
    ensures
        res@.len() == 6,
        res@[0]@ == "!clear"@,
        res@[1]@ == "- clear the msg"@,
        res@[2]@ == "!sendfile"@,
        res@[3]@ == "- send file"@,
        res@[4]@ == "!cancel/!cl"@,
        res@[5]@ == "- cancel action"@,
{
    let mut res: Vec<String> = Vec::new();
    res.push(owned("!clear"));
    res.push(owned("- clear the msg"));
    res.push(owned("!sendfile"));
    res.push(owned("- send file"));
    res.push(owned("!cancel/!cl"));
    res.push(owned("- cancel action"));
    res
}

} // verus!
