//! The password handshake that opens a chat.  The host may protect the
//! chat with a password; the peer that connects must then send it before
//! the chat opens.  Each side is a state machine: the program hands it
//! what arrived and performs the action it returns.

use vstd::prelude::*;

use crate::text::{text_eq, trim, trimmed, TrimKind};

verus! {

broadcast use vstd::string::group_string_axioms;

/// The host's challenge: the chat is protected.
pub open spec fn auth_check_spec() -> Seq<char> {
    "!authcheck"@
}

/// Acceptance: sent by the host for the right password, and by the peer
/// to confirm.
pub open spec fn auth_pass_spec() -> Seq<char> {
    "!authpass"@
}

/// Refusal of a wrong password.
pub open spec fn auth_fail_spec() -> Seq<char> {
    "!authfail"@
}

/// The messages of the handshake.
#[derive(PartialEq, Eq, Structural, Clone, Copy, Debug)]
pub enum AuthMessage {
    /// `!authcheck`
    Check,
    /// `!authpass`
    Pass,
    /// `!authfail`
    Fail,
}

impl AuthMessage {
    /// The text of the message.
    pub open spec fn text_spec(self) -> Seq<char> {
        match self {
            AuthMessage::Check => auth_check_spec(),
            AuthMessage::Pass => auth_pass_spec(),
            AuthMessage::Fail => auth_fail_spec(),
        }
    }

    /// The text of the message.
    pub fn text(&self) -> (res: String)
        ensures
            res@ == self.text_spec(),
    {
        match self {
            AuthMessage::Check => String::from_str("!authcheck"),
            AuthMessage::Pass => String::from_str("!authpass"),
            AuthMessage::Fail => String::from_str("!authfail"),
        }
    }
}

// ---------------------------------------------------------------------
// host
// ---------------------------------------------------------------------

/// Where the host is in the handshake.
#[derive(PartialEq, Eq, Structural, Clone, Copy, Debug)]
pub enum HostAuth {
    /// Waiting for the peer's password.
    AwaitPassword,
    /// The password was accepted; waiting for the peer's confirmation.
    AwaitConfirmation,
    /// The chat is open.
    Open,
}

/// How the host starts: with a password it challenges the peer, without
/// one it accepts at once.
pub open spec fn host_start_spec(protected: bool) -> (HostAuth, AuthMessage) {
    if protected {
        (HostAuth::AwaitPassword, AuthMessage::Check)
    } else {
        (HostAuth::Open, AuthMessage::Pass)
    }
}

/// How the host starts the handshake, and what it sends first.
pub fn host_start(protected: bool) -> (res: (HostAuth, AuthMessage))
    ensures
        res == host_start_spec(protected),
{
    if protected {
        (HostAuth::AwaitPassword, AuthMessage::Check)
    } else {
        (HostAuth::Open, AuthMessage::Pass)
    }
}

/// The host's step on a message from the peer, trimmed of white space:
/// the password is answered with acceptance and anything else, while a
/// password is awaited, with refusal; once accepted, the host waits for
/// the peer's confirmation.
pub open spec fn host_step_spec(state: HostAuth, password: Seq<char>, received: Seq<char>) -> (
    HostAuth,
    Option<AuthMessage>,
) {
    let t = trimmed(received, TrimKind::Whitespace);
    match state {
        HostAuth::AwaitPassword => if t == password {
            (HostAuth::AwaitConfirmation, Some(AuthMessage::Pass))
        } else {
            (HostAuth::AwaitPassword, Some(AuthMessage::Fail))
        },
        HostAuth::AwaitConfirmation => if t == auth_pass_spec() {
            (HostAuth::Open, None)
        } else {
            (HostAuth::AwaitConfirmation, None)
        },
        HostAuth::Open => (HostAuth::Open, None),
    }
}

/// The host's step on a message from the peer, and what it answers.
pub fn host_step(state: HostAuth, password: &str, received: &str) -> (res: (
    HostAuth,
    Option<AuthMessage>,
))
    ensures
        res == host_step_spec(state, password@, received@),
{
    let t = trim(received, TrimKind::Whitespace);
    match state {
        HostAuth::AwaitPassword => {
            if text_eq(t.as_str(), password) {
                (HostAuth::AwaitConfirmation, Some(AuthMessage::Pass))
            } else {
                (HostAuth::AwaitPassword, Some(AuthMessage::Fail))
            }
        },
        HostAuth::AwaitConfirmation => {
            if text_eq(t.as_str(), "!authpass") {
                (HostAuth::Open, None)
            } else {
                (HostAuth::AwaitConfirmation, None)
            }
        },
        HostAuth::Open => (HostAuth::Open, None),
    }
}

/// The host's state after it started and then received `msgs` in order.
pub open spec fn host_run(protected: bool, password: Seq<char>, msgs: Seq<Seq<char>>) -> HostAuth
    decreases msgs.len(),
{
    if msgs.len() == 0 {
        host_start_spec(protected).0
    } else {
        host_step_spec(host_run(protected, password, msgs.drop_last()), password, msgs.last()).0
    }
}

/// A protected chat opens only after the peer sent the password: if the
/// host's handshake is open or awaits the confirmation, some message it
/// received was the password.
pub proof fn lemma_host_opens_only_after_password(password: Seq<char>, msgs: Seq<Seq<char>>)
    requires
        host_run(true, password, msgs) != HostAuth::AwaitPassword,
    ensures
        exists|i: int|
            0 <= i < msgs.len() && trimmed(#[trigger] msgs[i], TrimKind::Whitespace) == password,
    decreases msgs.len(),
{
    let prev = host_run(true, password, msgs.drop_last());
    if prev == HostAuth::AwaitPassword {
        assert(msgs.len() > 0);
        let i = msgs.len() - 1;
        assert(msgs[i] == msgs.last());
    } else {
        lemma_host_opens_only_after_password(password, msgs.drop_last());
        let i = choose|i: int|
            0 <= i < msgs.drop_last().len() && trimmed(
                #[trigger] msgs.drop_last()[i],
                TrimKind::Whitespace,
            ) == password;
        assert(msgs[i] == msgs.drop_last()[i]);
    }
}

/// An unprotected chat is open from the start, whatever arrives.
pub proof fn lemma_host_unprotected_open(password: Seq<char>, msgs: Seq<Seq<char>>)
    ensures
        host_run(false, password, msgs) == HostAuth::Open,
    decreases msgs.len(),
{
    if msgs.len() > 0 {
        lemma_host_unprotected_open(password, msgs.drop_last());
    }
}

/// Every message that is not the password, while the host awaits it, is
/// answered with a refusal and leaves the host waiting.
pub proof fn lemma_host_refuses_wrong_password(password: Seq<char>, received: Seq<char>)
    requires
        trimmed(received, TrimKind::Whitespace) != password,
    ensures
        host_step_spec(HostAuth::AwaitPassword, password, received) == (
            HostAuth::AwaitPassword,
            Some(AuthMessage::Fail),
        ),
{
}

// ---------------------------------------------------------------------
// the peer that connects
// ---------------------------------------------------------------------

/// Where the connecting peer is in the handshake.
#[derive(PartialEq, Eq, Structural, Clone, Copy, Debug)]
pub enum ClientAuth {
    /// Waiting for the host's first message.
    AwaitChallenge,
    /// The user is asked for the password.
    EnterPassword,
    /// The password was sent; waiting for the host's verdict.
    AwaitVerdict,
    /// The chat is open.
    Open,
}

/// What happens in the handshake of the connecting peer.
#[derive(PartialEq, Eq, Structural, Clone, Copy, Debug)]
pub enum ClientEvent {
    /// A message from the host (its text).
    Message,
    /// The user entered a password.
    Password,
}

/// What the connecting peer does next.
#[derive(PartialEq, Eq, Structural, Clone, Copy, Debug)]
pub enum ClientAction {
    /// Nothing.
    Nothing,
    /// Ask the user for the password.
    AskPassword,
    /// Send the password the user entered.
    SendPassword,
    /// Confirm with `!authpass`.
    Confirm,
    /// Tell the user the password was refused, and ask again.
    Retry,
    /// Tell the user that the host's first message was empty.
    ReportEmpty,
}

/// The connecting peer's step.  A message is taken trimmed of white
/// space: a challenge makes it ask for the password, an empty first
/// message is reported and anything else opens the chat; after sending
/// the password, acceptance is confirmed and anything else is a refusal.
pub open spec fn client_step_spec(state: ClientAuth, event: ClientEvent, text: Seq<char>) -> (
    ClientAuth,
    ClientAction,
) {
    let t = trimmed(text, TrimKind::Whitespace);
    match (state, event) {
        (ClientAuth::AwaitChallenge, ClientEvent::Message) => if t == auth_check_spec() {
            (ClientAuth::EnterPassword, ClientAction::AskPassword)
        } else if t.len() == 0 {
            (ClientAuth::Open, ClientAction::ReportEmpty)
        } else {
            (ClientAuth::Open, ClientAction::Nothing)
        },
        (ClientAuth::EnterPassword, ClientEvent::Password) => (
            ClientAuth::AwaitVerdict,
            ClientAction::SendPassword,
        ),
        (ClientAuth::AwaitVerdict, ClientEvent::Message) => if t == auth_pass_spec() {
            (ClientAuth::Open, ClientAction::Confirm)
        } else {
            (ClientAuth::EnterPassword, ClientAction::Retry)
        },
        _ => (state, ClientAction::Nothing),
    }
}

/// The connecting peer's step on a message from the host or a password
/// the user entered (`text` is the one or the other).
pub fn client_step(state: ClientAuth, event: ClientEvent, text: &str) -> (res: (
    ClientAuth,
    ClientAction,
))
    ensures
        res == client_step_spec(state, event, text@),
{
    let t = trim(text, TrimKind::Whitespace);
    match (state, event) {
        (ClientAuth::AwaitChallenge, ClientEvent::Message) => {
            if text_eq(t.as_str(), "!authcheck") {
                (ClientAuth::EnterPassword, ClientAction::AskPassword)
            } else if t.unicode_len() == 0 {
                (ClientAuth::Open, ClientAction::ReportEmpty)
            } else {
                (ClientAuth::Open, ClientAction::Nothing)
            }
        },
        (ClientAuth::EnterPassword, ClientEvent::Password) => (
            ClientAuth::AwaitVerdict,
            ClientAction::SendPassword,
        ),
        (ClientAuth::AwaitVerdict, ClientEvent::Message) => {
            if text_eq(t.as_str(), "!authpass") {
                (ClientAuth::Open, ClientAction::Confirm)
            } else {
                (ClientAuth::EnterPassword, ClientAction::Retry)
            }
        },
        _ => (state, ClientAction::Nothing),
    }
}

/// With the right password the handshake opens on both sides: the peer
/// answers the challenge by asking for the password and sends it; the
/// host, receiving the password (trimmed, it is the host's password),
/// accepts; the peer confirms; the host, receiving the confirmation,
/// opens the chat.
pub proof fn lemma_handshake_opens(password: Seq<char>, entered: Seq<char>)
    requires
        trimmed(entered, TrimKind::Whitespace) == password,
    ensures
        ({
            let (h0, m0) = host_start_spec(true);
            let (c1, a1) = client_step_spec(ClientAuth::AwaitChallenge, ClientEvent::Message, m0.text_spec());
            let (c2, a2) = client_step_spec(c1, ClientEvent::Password, entered);
            let (h3, m3) = host_step_spec(h0, password, entered);
            let (c4, a4) = client_step_spec(c2, ClientEvent::Message, m3.unwrap().text_spec());
            let (h5, m5) = host_step_spec(h3, password, auth_pass_spec());
            &&& a1 == ClientAction::AskPassword
            &&& a2 == ClientAction::SendPassword
            &&& m3 == Some(AuthMessage::Pass)
            &&& a4 == ClientAction::Confirm
            &&& c4 == ClientAuth::Open
            &&& h5 == HostAuth::Open
        }),
{
    reveal_strlit("!authcheck");
    reveal_strlit("!authpass");
    let check = auth_check_spec();
    let pass = auth_pass_spec();
    assert(check[0] == '!');
    assert(check.last() == 'k');
    assert(crate::text::trim_start(check, TrimKind::Whitespace) == check);
    assert(crate::text::trim_end(check, TrimKind::Whitespace) == check);
    assert(pass[0] == '!');
    assert(pass.last() == 's');
    assert(crate::text::trim_start(pass, TrimKind::Whitespace) == pass);
    assert(crate::text::trim_end(pass, TrimKind::Whitespace) == pass);
}

} // verus!
