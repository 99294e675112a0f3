//! The chat shell: the log of the conversation, the line being typed,
//! the scroll position and the pending file action, and how each key,
//! each received message and each step of a file transfer changes them.

use vstd::prelude::*;

use crate::protocol::{peer_reply, reply_meaning};
use crate::text::{
    decimal, decimal_string, has_prefix, join3, owned, starts_with, string_push, text_eq,
    trim, trimmed, views, TrimKind,
};

verus! {

broadcast use vstd::string::group_string_axioms;

/// The file action in progress.
#[derive(Clone, Copy, PartialEq, Eq, Structural, Debug)]
pub enum ConnEvent {
    /// The peer offered a file; the user chooses to accept it or not.
    ReceiveFile,
    /// The user is entering the path of a file to send.
    SendFile,
    /// No file action.
    Idle,
}

/// The keys the shell reacts to.
#[derive(Clone, Copy, PartialEq, Eq, Structural, Debug)]
pub enum KeyCode {
    /// A character typed.
    Char(char),
    /// Backspace.
    Backspace,
    /// Enter.
    Enter,
    /// Arrow up.
    Up,
    /// Arrow down.
    Down,
    /// Any other key.
    Other,
}

/// A key press, with whether Control was held.
#[derive(Clone, Copy, PartialEq, Eq, Structural, Debug)]
pub struct KeyPress {
    /// The key.
    pub code: KeyCode,
    /// Control was held.
    pub control: bool,
}

/// What the program does after a key.
#[derive(Clone, Copy, PartialEq, Eq, Structural, Debug)]
pub enum Reaction {
    /// Nothing.
    Idle,
    /// Send the text of the outcome to the peer.
    Send,
    /// Look for the file at the path in the text of the outcome, and offer
    /// it if it is there.
    LocateFile,
    /// Restore the terminal and leave.
    Quit,
}

/// The reaction to a key, with the text it concerns (the message to
/// send or the path of the file; empty otherwise).
pub struct KeyOutcome {
    /// What to do.
    pub reaction: Reaction,
    /// The text to send, or the path of the file.
    pub text: String,
}

/// The state of the shell, as values.
pub struct ChatModel {
    /// The lines of the chat log.
    pub messages: Seq<Seq<char>>,
    /// The line being typed.
    pub user_msg: Seq<char>,
    /// Scroll position of the log; during a file offer, the choice.
    pub scroll: u16,
    /// Height of the log's area on screen.
    pub view_height: u16,
    /// The file action in progress.
    pub event: ConnEvent,
}

/// The state of the shell, shared by the key loop, the receiving loop
/// and the screen.
pub struct Chat {
    /// The lines of the chat log.
    pub messages: Vec<String>,
    /// The line being typed.
    pub user_msg: String,
    /// Scroll position of the log; during a file offer, the choice.
    pub scroll: u16,
    /// Height of the log's area on screen, set when the screen is drawn.
    pub view_height: u16,
    /// The file action in progress.
    pub event: ConnEvent,
}

impl View for Chat {
    type V = ChatModel;

    open spec fn view(&self) -> ChatModel {
        ChatModel {
            messages: views(self.messages@),
            user_msg: self.user_msg@,
            scroll: self.scroll,
            view_height: self.view_height,
            event: self.event,
        }
    }
}

// ---------------------------------------------------------------------
// the lines of the log
// ---------------------------------------------------------------------

/// A chat line: the sender's name, `> ` and the message.
pub open spec fn chat_line_spec(name: Seq<char>, msg: Seq<char>) -> Seq<char> {
    name + "> "@ + msg
}

/// A chat line is the whole name, then `>` and a space, then the whole
/// message.
pub proof fn lemma_chat_line(name: Seq<char>, msg: Seq<char>)
    ensures
        chat_line_spec(name, msg).len() == name.len() + 2 + msg.len(),
        chat_line_spec(name, msg).subrange(0, name.len() as int) == name,
        chat_line_spec(name, msg)[name.len() as int] == '>',
        chat_line_spec(name, msg)[name.len() as int + 1] == ' ',
        chat_line_spec(name, msg).skip(name.len() as int + 2) == msg,
{
    reveal_strlit("> ");
    let l = chat_line_spec(name, msg);
    assert(l.subrange(0, name.len() as int) =~= name);
    assert(l.skip(name.len() as int + 2) =~= msg);
}

/// A chat line: the sender's name, `> ` and the message.
pub fn chat_line(name: &str, msg: &str) -> (res: String)
    ensures
        res@ == chat_line_spec(name@, msg@),
        res@.len() == name@.len() + 2 + msg@.len(),
        res@.subrange(0, name@.len() as int) == name@,
        res@.skip(name@.len() as int + 2) == msg@,
{
    proof {
        lemma_chat_line(name@, msg@);
    }
    join3(name, "> ", msg)
}

/// The line for a command that does not exist.
pub open spec fn unknown_command_spec(cmd: Seq<char>) -> Seq<char> {
    "!COMMAND '"@ + cmd + "' NOT FOUND!"@
}

/// The line for a file that is not there.
pub open spec fn file_not_found_spec(path: Seq<char>) -> Seq<char> {
    "!FILE '"@ + path + "' NOT FOUND!"@
}

/// The line for a file the peer refused.
pub open spec fn file_rejected_spec(path: Seq<char>) -> Seq<char> {
    "!THE USER REJECT THE FILE "@ + path + "!"@
}

/// The line that gives the length of a file being transferred.
pub open spec fn file_length_spec(length: nat) -> Seq<char> {
    "the file length is: "@ + decimal(length) + " bytes"@
}

/// The line that gives where a received file was saved.
pub open spec fn file_saved_spec(name: Seq<char>) -> Seq<char> {
    "FILE SAVED AS 'received/"@ + trimmed(name, TrimKind::Whitespace) + "'"@
}

/// The line that gives the length of a file being transferred.
pub fn file_length_line(length: usize) -> (res: String)
    ensures
        res@ == file_length_spec(length as nat),
{
    let n = decimal_string(length);
    join3("the file length is: ", n.as_str(), " bytes")
}

/// The line that gives where a received file was saved.
pub fn file_saved_line(name: &str) -> (res: String)
    ensures
        res@ == file_saved_spec(name@),
{
    let t = trim(name, TrimKind::Whitespace);
    join3("FILE SAVED AS 'received/", t.as_str(), "'")
}

/// The fixed lines of the log.
#[derive(Clone, Copy, PartialEq, Eq, Structural, Debug)]
pub enum Notice {
    /// The user accepted the offered file.
    Accepted,
    /// The user refused the offered file.
    Refused,
    /// The offer is sent and awaits the peer's answer.
    Awaiting,
    /// The peer accepted the file.
    PeerAccepted,
    /// The file was sent.
    Sent,
    /// The received archive was unpacked.
    Extracted,
}

impl Notice {
    /// The text of the line.
    pub open spec fn text_spec(self) -> Seq<char> {
        match self {
            Notice::Accepted => "YOU ACCEPTED THE FILE!"@,
            Notice::Refused => "!YOU HAVEN'T ACCEPTED THE FILE!"@,
            Notice::Awaiting => "AWAITING FOR THE USER RESPONSE!"@,
            Notice::PeerAccepted => "THE USER ACCEPTED THE FILE!"@,
            Notice::Sent => "FILE SENDED SUCCESFULLY!"@,
            Notice::Extracted => "FINISHED EXTRACTING"@,
        }
    }

    /// The text of the line.
    pub fn text(&self) -> (res: String)
        ensures
            res@ == self.text_spec(),
    {
        match self {
            Notice::Accepted => owned("YOU ACCEPTED THE FILE!"),
            Notice::Refused => owned("!YOU HAVEN'T ACCEPTED THE FILE!"),
            Notice::Awaiting => owned("AWAITING FOR THE USER RESPONSE!"),
            Notice::PeerAccepted => owned("THE USER ACCEPTED THE FILE!"),
            Notice::Sent => owned("FILE SENDED SUCCESFULLY!"),
            Notice::Extracted => owned("FINISHED EXTRACTING"),
        }
    }
}

// ---------------------------------------------------------------------
// keys
// ---------------------------------------------------------------------

/// The characters that make an entry more than blank: the visible ASCII
/// characters `!` to `~`.
pub open spec fn is_typable(c: char) -> bool {
    33 <= (c as u32) && (c as u32) <= 126
}

/// An entry that Enter discards: an empty line when no file action is in
/// progress, or a line that starts with a space and has no visible
/// character.
pub open spec fn is_blank_entry(event: ConnEvent, msg: Seq<char>) -> bool {
    (event == ConnEvent::Idle && msg.len() == 0) || (has_prefix(msg, " "@) && !(exists|i: int|
        0 <= i < msg.len() && is_typable(#[trigger] msg[i])))
}

/// What a command entry does to the shell before the entry is handled,
/// and whether handling stops there (for `!sendfile`).
pub open spec fn command_step(m: ChatModel, u: Seq<char>) -> (ChatModel, bool) {
    if !has_prefix(u, "!"@) {
        (m, false)
    } else if u == "!clear"@ {
        (ChatModel { messages: Seq::empty(), scroll: 0, ..m }, false)
    } else if u == "!sendfile"@ {
        (ChatModel { event: ConnEvent::SendFile, user_msg: Seq::empty(), ..m }, true)
    } else if u == "!cancel"@ || u == "!cl"@ {
        (ChatModel { event: ConnEvent::Idle, ..m }, false)
    } else {
        (ChatModel { messages: m.messages.push(unknown_command_spec(u)), ..m }, false)
    }
}

/// How an entry is handled in the current file action: a plain message is
/// logged and sent; during an offer, the choice is sent and logged; while
/// sending, the entry is the path of the file.
pub open spec fn entry_step(m: ChatModel, u: Seq<char>, username: Seq<char>) -> (
    ChatModel,
    Reaction,
    Seq<char>,
) {
    match m.event {
        ConnEvent::Idle => if !has_prefix(u, "!"@) {
            (
                ChatModel { messages: m.messages.push(chat_line_spec(username, u)), ..m },
                Reaction::Send,
                u,
            )
        } else {
            (m, Reaction::Idle, Seq::empty())
        },
        ConnEvent::ReceiveFile => if m.scroll == 0 {
            (
                ChatModel {
                    messages: m.messages.push(Notice::Accepted.text_spec()),
                    event: ConnEvent::Idle,
                    ..m
                },
                Reaction::Send,
                "y"@,
            )
        } else if m.scroll == 1 {
            (
                ChatModel {
                    messages: m.messages.push(Notice::Refused.text_spec()),
                    event: ConnEvent::Idle,
                    ..m
                },
                Reaction::Send,
                "n"@,
            )
        } else {
            (ChatModel { event: ConnEvent::Idle, ..m }, Reaction::Idle, Seq::empty())
        },
        ConnEvent::SendFile => (m, Reaction::LocateFile, u),
    }
}

/// What Enter does: a blank entry is discarded; otherwise a command takes
/// effect and the entry is handled; the line is cleared in every case.
pub open spec fn enter_step(m: ChatModel, username: Seq<char>) -> (ChatModel, Reaction, Seq<char>) {
    let u = m.user_msg;
    if is_blank_entry(m.event, u) {
        (ChatModel { user_msg: Seq::empty(), ..m }, Reaction::Idle, Seq::empty())
    } else {
        let (m1, stop) = command_step(m, u);
        if stop {
            (m1, Reaction::Idle, Seq::empty())
        } else {
            let (m2, r, t) = entry_step(m1, u, username);
            (ChatModel { user_msg: Seq::empty(), ..m2 }, r, t)
        }
    }
}

/// What a key does to the shell, what the program does next, and the
/// text that concerns.  Up and Down scroll the log (within its length),
/// or choose yes and no during a file offer; Control-C quits.
pub open spec fn key_step(m: ChatModel, key: KeyPress, username: Seq<char>) -> (
    ChatModel,
    Reaction,
    Seq<char>,
) {
    match key.code {
        KeyCode::Char(c) => (
            ChatModel { user_msg: m.user_msg.push(c), ..m },
            if key.control && c == 'c' {
                Reaction::Quit
            } else {
                Reaction::Idle
            },
            Seq::empty(),
        ),
        KeyCode::Backspace => (
            ChatModel {
                user_msg: if m.user_msg.len() > 0 {
                    m.user_msg.drop_last()
                } else {
                    m.user_msg
                },
                ..m
            },
            Reaction::Idle,
            Seq::empty(),
        ),
        KeyCode::Enter => enter_step(m, username),
        KeyCode::Up => (
            ChatModel {
                scroll: if m.event == ConnEvent::ReceiveFile {
                    0
                } else if m.scroll > 0 {
                    (m.scroll - 1) as u16
                } else {
                    m.scroll
                },
                ..m
            },
            Reaction::Idle,
            Seq::empty(),
        ),
        KeyCode::Down => (
            ChatModel {
                scroll: if m.event == ConnEvent::ReceiveFile {
                    1
                } else if m.scroll + m.view_height / 3 < (m.messages.len() as u16) {
                    (m.scroll + 1) as u16
                } else {
                    m.scroll
                },
                ..m
            },
            Reaction::Idle,
            Seq::empty(),
        ),
        KeyCode::Other => (m, Reaction::Idle, Seq::empty()),
    }
}

/// The keys the shell handles without an arithmetic overflow: Down, out
/// of a file offer, adds the scroll position and a third of the view's
/// height as 16-bit numbers.
pub open spec fn key_in_range(m: ChatModel, key: KeyPress) -> bool {
    key.code == KeyCode::Down && m.event != ConnEvent::ReceiveFile ==> m.scroll + m.view_height / 3
        <= u16::MAX
}

/// Whether an entry is blank (see `is_blank_entry`).
fn blank_entry(event: ConnEvent, msg: &str) -> (res: bool)
    ensures
        res == is_blank_entry(event, msg@),
{
    let n = msg.unicode_len();
    if event == ConnEvent::Idle && n == 0 {
        return true;
    }
    if !starts_with(msg, " ") {
        return false;
    }
    let mut i: usize = 0;
    while i < n
        invariant
            n == msg@.len(),
            i <= n,
            forall|k: int| 0 <= k < i ==> !is_typable(#[trigger] msg@[k]),
        decreases n - i,
    {
        let u = msg.get_char(i) as u32;
        if 33 <= u && u <= 126 {
            assert(is_typable(msg@[i as int]));
            return false;
        }
        i = i + 1;
    }
    true
}

impl Chat {
    /// An empty shell.
    pub fn new() -> (res: Chat)
        ensures
            res@ == (ChatModel {
                messages: Seq::empty(),
                user_msg: Seq::empty(),
                scroll: 0,
                view_height: 0,
                event: ConnEvent::Idle,
            }),
    {
        let res = Chat {
            messages: Vec::new(),
            user_msg: String::new(),
            scroll: 0,
            view_height: 0,
            event: ConnEvent::Idle,
        };
        assert(res@.messages =~= Seq::<Seq<char>>::empty());
        res
    }

    /// Adds a line to the log.
    pub fn push_line(&mut self, line: String)
        ensures
            final(self)@ == (ChatModel { messages: old(self)@.messages.push(line@), ..old(self)@ }),
    {
        self.messages.push(line);
        assert(final(self)@.messages =~= old(self)@.messages.push(line@));
    }

    /// Handles a key, as `key_step` says.
    pub fn handle_key(&mut self, key: KeyPress, username: &str) -> (out: KeyOutcome)
        requires
            key_in_range(old(self)@, key),
        ensures
            (final(self)@, out.reaction, out.text@) == key_step(old(self)@, key, username@),
    {
        match key.code {
            KeyCode::Char(c) => {
                string_push(&mut self.user_msg, c);
                let reaction = if key.control && c == 'c' {
                    Reaction::Quit
                } else {
                    Reaction::Idle
                };
                KeyOutcome { reaction, text: String::new() }
            },
            KeyCode::Backspace => {
                let n = self.user_msg.unicode_len();
                if n > 0 {
                    let shorter = owned(self.user_msg.as_str().substring_char(0, n - 1));
                    self.user_msg = shorter;
                    assert(self.user_msg@ =~= old(self)@.user_msg.drop_last());
                }
                KeyOutcome { reaction: Reaction::Idle, text: String::new() }
            },
            KeyCode::Enter => self.handle_enter(username),
            KeyCode::Up => {
                if self.event == ConnEvent::ReceiveFile {
                    self.scroll = 0;
                } else if self.scroll > 0 {
                    self.scroll = self.scroll - 1;
                }
                KeyOutcome { reaction: Reaction::Idle, text: String::new() }
            },
            KeyCode::Down => {
                if self.event == ConnEvent::ReceiveFile {
                    self.scroll = 1;
                } else if self.scroll + self.view_height / 3 < (self.messages.len() as u16) {
                    self.scroll = self.scroll + 1;
                }
                KeyOutcome { reaction: Reaction::Idle, text: String::new() }
            },
            KeyCode::Other => KeyOutcome { reaction: Reaction::Idle, text: String::new() },
        }
    }

    /// Handles Enter, as `enter_step` says.
    fn handle_enter(&mut self, username: &str) -> (out: KeyOutcome)
        ensures
            (final(self)@, out.reaction, out.text@) == enter_step(old(self)@, username@),
    {
        let u = owned(self.user_msg.as_str());
        if blank_entry(self.event, u.as_str()) {
            self.user_msg = String::new();
            return KeyOutcome { reaction: Reaction::Idle, text: String::new() };
        }
        // commands

        let ghost m0 = self@;
        if starts_with(u.as_str(), "!") {
            if text_eq(u.as_str(), "!clear") {
                self.messages.clear();
                self.scroll = 0;
                assert(self@.messages =~= Seq::<Seq<char>>::empty());
            } else if text_eq(u.as_str(), "!sendfile") {
                self.event = ConnEvent::SendFile;
                self.user_msg = String::new();
                return KeyOutcome { reaction: Reaction::Idle, text: String::new() };
            } else if text_eq(u.as_str(), "!cancel") || text_eq(u.as_str(), "!cl") {
                self.event = ConnEvent::Idle;
            } else {
                let line = join3("!COMMAND '", u.as_str(), "' NOT FOUND!");
                self.push_line(line);
            }
        }
        assert(self@ == command_step(m0, u@).0);
        // the entry
        let ghost m1 = self@;
        let out = match self.event {
            ConnEvent::Idle => {
                if !starts_with(u.as_str(), "!") {
                    let line = chat_line(username, u.as_str());
                    self.push_line(line);
                    KeyOutcome { reaction: Reaction::Send, text: u }
                } else {
                    KeyOutcome { reaction: Reaction::Idle, text: String::new() }
                }
            },
            ConnEvent::ReceiveFile => {
                if self.scroll == 0 {
                    self.push_line(Notice::Accepted.text());
                    self.event = ConnEvent::Idle;
                    KeyOutcome { reaction: Reaction::Send, text: owned("y") }
                } else if self.scroll == 1 {
                    self.push_line(Notice::Refused.text());
                    self.event = ConnEvent::Idle;
                    KeyOutcome { reaction: Reaction::Send, text: owned("n") }
                } else {
                    self.event = ConnEvent::Idle;
                    KeyOutcome { reaction: Reaction::Idle, text: String::new() }
                }
            },
            ConnEvent::SendFile => KeyOutcome { reaction: Reaction::LocateFile, text: u },
        };
        assert((self@, out.reaction, out.text@) == entry_step(m1, m0.user_msg, username@));
        self.user_msg = String::new();
        out
    }

    /// After Enter asked to locate a file: a missing file is reported (the
    /// shell stays in the file action); a file that is there is offered,
    /// and the shell awaits the peer's answer.
    pub fn file_located(&mut self, path: &str, exists: bool)
        ensures
            final(self)@ == (if exists {
                ChatModel {
                    messages: old(self)@.messages.push(Notice::Awaiting.text_spec()),
                    user_msg: Seq::empty(),
                    event: ConnEvent::Idle,
                    ..old(self)@
                }
            } else {
                ChatModel {
                    messages: old(self)@.messages.push(file_not_found_spec(path@)),
                    ..old(self)@
                }
            }),
    {
        if exists {
            self.push_line(Notice::Awaiting.text());
            self.user_msg = String::new();
            self.event = ConnEvent::Idle;
        } else {
            self.push_line(join3("!FILE '", path, "' NOT FOUND!"));
        }
    }

    /// Looks for the peer's answer to the file offered from `path` in the
    /// last line of the log.  An answer replaces that line: acceptance
    /// with `THE USER ACCEPTED THE FILE!`, refusal with a line that names
    /// the file.  No answer yet leaves the shell as it is.
    pub fn take_file_reply(&mut self, path: &str) -> (res: Option<bool>)
        requires
            old(self)@.messages.len() > 0,
        ensures
            res == reply_meaning(old(self)@.messages.last()),
            final(self)@ == match res {
                Some(true) => ChatModel {
                    messages: old(self)@.messages.drop_last().push(
                        Notice::PeerAccepted.text_spec(),
                    ),
                    ..old(self)@
                },
                Some(false) => ChatModel {
                    messages: old(self)@.messages.drop_last().push(file_rejected_spec(path@)),
                    ..old(self)@
                },
                None => old(self)@,
            },
    {
        let last = self.messages.len() - 1;
        assert(views(self.messages@)[last as int] == self.messages@[last as int]@);
        let answer = peer_reply(self.messages[last].as_str());
        match answer {
            Some(accepted) => {
                self.messages.pop();
                assert(views(self.messages@) =~= old(self)@.messages.drop_last());
                if accepted {
                    self.push_line(Notice::PeerAccepted.text());
                } else {
                    self.push_line(join3("!THE USER REJECT THE FILE ", path, "!"));
                }
            },
            None => {},
        }
        answer
    }

    /// Whether the last line of the log is `line` (with no line, the text
    /// `None` stands in for it).
    pub fn last_line_is(&self, line: &str) -> (res: bool)
        ensures
            res == (if self@.messages.len() > 0 {
                self@.messages.last() == line@
            } else {
                "None"@ == line@
            }),
    {
        let n = self.messages.len();
        if n > 0 {
            assert(views(self.messages@)[n - 1] == self.messages@[n - 1]@);
            text_eq(self.messages[n - 1].as_str(), line)
        } else {
            text_eq("None", line)
        }
    }

    /// A message from the peer: the file offer `!sendfile` starts a file
    /// receipt (and is not logged); any other text is logged under the
    /// peer's name.  Returns whether a file is offered.
    pub fn receive_message(&mut self, conname: &str, text: &str) -> (offer: bool)
        ensures
            offer == (text@ == crate::protocol::file_offer_spec()),
            final(self)@ == (if offer {
                ChatModel { event: ConnEvent::ReceiveFile, ..old(self)@ }
            } else {
                ChatModel {
                    messages: old(self)@.messages.push(chat_line_spec(conname@, text@)),
                    ..old(self)@
                }
            }),
    {
        if text_eq(text, "!sendfile") {
            self.event = ConnEvent::ReceiveFile;
            true
        } else {
            self.push_line(chat_line(conname, text));
            false
        }
    }

    /// The file receipt is over: no file action is in progress.
    pub fn end_file_receipt(&mut self)
        ensures
            final(self)@ == (ChatModel { event: ConnEvent::Idle, ..old(self)@ }),
    {
        self.event = ConnEvent::Idle;
    }
}

// ---------------------------------------------------------------------
// laws
// ---------------------------------------------------------------------

/// Backspace undoes a typed character: typing `c` (without Control-C)
/// and then Backspace leaves the shell as it was.
pub proof fn lemma_backspace_undoes_typing(m: ChatModel, c: char, control: bool, username: Seq<
    char,
>)
    ensures
        ({
            let (m1, _, _) = key_step(m, KeyPress { code: KeyCode::Char(c), control }, username);
            let (m2, r2, _) = key_step(m1, KeyPress { code: KeyCode::Backspace, control }, username);
            m2 == m && r2 == Reaction::Idle
        }),
{
    let (m1, _, _) = key_step(m, KeyPress { code: KeyCode::Char(c), control }, username);
    assert(m1.user_msg.drop_last() =~= m.user_msg);
}

/// Enter always leaves an empty line, and a message is sent only as a
/// plain message (logged under the user's name) or as the answer to a
/// file offer.
pub proof fn lemma_enter_clears_and_sends(m: ChatModel, username: Seq<char>)
    ensures
        ({
            let (m1, r, t) = key_step(m, KeyPress { code: KeyCode::Enter, control: false }, username);
            &&& m1.user_msg.len() == 0
            &&& r != Reaction::Quit
            &&& r == Reaction::Send ==> (t == m.user_msg && m.event == ConnEvent::Idle
                && !has_prefix(t, "!"@) && m1.messages == m.messages.push(chat_line_spec(username, t)))
                || (m.event == ConnEvent::ReceiveFile && (t == "y"@ || t == "n"@)
                && m1.event == ConnEvent::Idle)
        }),
{
    let u = m.user_msg;
    if !is_blank_entry(m.event, u) {
        let (m0, stop) = command_step(m, u);
        if !stop && m.event == ConnEvent::Idle && !has_prefix(u, "!"@) {
            assert(m0 == m);
        }
        if has_prefix(u, "!"@) {
            assert(m0.event == m.event || m0.event == ConnEvent::Idle || m0.event
                == ConnEvent::SendFile);
        }
    }
}

/// `!cancel` and `!cl` cancel the file action: whatever the shell's state,
/// Enter on either line leaves no file action in progress, adds no line to
/// the log, keeps the scroll position, clears the line and sends nothing.
pub proof fn lemma_cancel_command(m: ChatModel, control: bool, username: Seq<char>)
    requires
        m.user_msg == "!cancel"@ || m.user_msg == "!cl"@,
    ensures
        ({
            let (m1, r, t) = key_step(m, KeyPress { code: KeyCode::Enter, control }, username);
            &&& m1.event == ConnEvent::Idle
            &&& m1.messages == m.messages
            &&& m1.scroll == m.scroll
            &&& m1.view_height == m.view_height
            &&& m1.user_msg.len() == 0
            &&& r == Reaction::Idle
            &&& t.len() == 0
        }),
{
    reveal_strlit("!cancel");
    reveal_strlit("!cl");
    reveal_strlit("!clear");
    reveal_strlit("!sendfile");
    reveal_strlit("!");
    reveal_strlit(" ");
    let u = m.user_msg;
    assert(u[0] == '!');
    assert(!has_prefix(u, " "@)) by {
        if has_prefix(u, " "@) {
            assert(u.subrange(0, 1)[0] == u[0]);
            assert(" "@[0] == ' ');
        }
    }
    assert(!is_blank_entry(m.event, u));
    assert(has_prefix(u, "!"@)) by {
        assert(u.subrange(0, 1) =~= "!"@);
    }
    assert(u != "!clear"@) by {
        assert(u.len() != "!clear"@.len());
    }
    assert(u != "!sendfile"@) by {
        assert(u.len() != "!sendfile"@.len());
    }
    let (m0, stop) = command_step(m, u);
    assert(!stop && m0.event == ConnEvent::Idle && m0.messages == m.messages);
}

/// Enter on `!cancel` does the same as Enter on `!cl`, in every state.
pub proof fn lemma_cancel_aliases(m: ChatModel, control: bool, username: Seq<char>)
    ensures
        key_step(
            ChatModel { user_msg: "!cancel"@, ..m },
            KeyPress { code: KeyCode::Enter, control },
            username,
        ) == key_step(
            ChatModel { user_msg: "!cl"@, ..m },
            KeyPress { code: KeyCode::Enter, control },
            username,
        ),
{
    let a = ChatModel { user_msg: "!cancel"@, ..m };
    let b = ChatModel { user_msg: "!cl"@, ..m };
    lemma_cancel_command(a, control, username);
    lemma_cancel_command(b, control, username);
    let (ma, ra, ta) = key_step(a, KeyPress { code: KeyCode::Enter, control }, username);
    let (mb, rb, tb) = key_step(b, KeyPress { code: KeyCode::Enter, control }, username);
    assert(ma.user_msg =~= mb.user_msg);
    assert(ta =~= tb);
}

/// Scrolling down keeps the scroll position within the log: after Down
/// (out of a file offer) that moved, the position plus a third of the view
/// is at most the number of lines.
pub proof fn lemma_down_stays_in_log(m: ChatModel, username: Seq<char>)
    requires
        m.event != ConnEvent::ReceiveFile,
        key_in_range(m, KeyPress { code: KeyCode::Down, control: false }),
    ensures
        ({
            let (m1, _, _) = key_step(m, KeyPress { code: KeyCode::Down, control: false }, username);
            m1.scroll == m.scroll || m1.scroll + m.view_height / 3 <= (m.messages.len() as u16)
        }),
{
}

/// During a file offer, Up chooses yes and Down chooses no, and Enter
/// sends that choice and ends the offer.
pub proof fn lemma_offer_choice(m: ChatModel, username: Seq<char>)
    requires
        m.event == ConnEvent::ReceiveFile,
        m.user_msg.len() == 0,
    ensures
        ({
            let (up, _, _) = key_step(m, KeyPress { code: KeyCode::Up, control: false }, username);
            let (after_up, r1, t1) = key_step(
                up,
                KeyPress { code: KeyCode::Enter, control: false },
                username,
            );
            let (down, _, _) = key_step(m, KeyPress { code: KeyCode::Down, control: false }, username);
            let (after_down, r2, t2) = key_step(
                down,
                KeyPress { code: KeyCode::Enter, control: false },
                username,
            );
            &&& r1 == Reaction::Send && t1 == "y"@ && after_up.event == ConnEvent::Idle
            &&& after_up.messages == m.messages.push(Notice::Accepted.text_spec())
            &&& r2 == Reaction::Send && t2 == "n"@ && after_down.event == ConnEvent::Idle
            &&& after_down.messages == m.messages.push(Notice::Refused.text_spec())
        }),
{
    assert(!has_prefix(Seq::<char>::empty(), " "@)) by {
        reveal_strlit(" ");
    }
    assert(!has_prefix(Seq::<char>::empty(), "!"@)) by {
        reveal_strlit("!");
    }
    assert(m.user_msg =~= Seq::<char>::empty());
    let (up, _, _) = key_step(m, KeyPress { code: KeyCode::Up, control: false }, username);
    assert(up.scroll == 0);
    assert(!is_blank_entry(up.event, up.user_msg));
    assert(command_step(up, up.user_msg) == (up, false));
    let (down, _, _) = key_step(m, KeyPress { code: KeyCode::Down, control: false }, username);
    assert(down.scroll == 1);
    assert(!is_blank_entry(down.event, down.user_msg));
    assert(command_step(down, down.user_msg) == (down, false));
}

} // verus!
