use rchat::auth::{
    client_step, host_start, host_step, AuthMessage, ClientAction, ClientAuth, ClientEvent, HostAuth,
};

#[test]
fn host_without_password_opens() {
    assert_eq!(host_start(false), (HostAuth::Open, AuthMessage::Pass));
    assert_eq!(AuthMessage::Pass.text(), "!authpass");
}

#[test]
fn host_with_password() {
    let (s, m) = host_start(true);
    assert_eq!((s, m), (HostAuth::AwaitPassword, AuthMessage::Check));
    assert_eq!(m.text(), "!authcheck");
    assert_eq!(host_step(s, "pw", "wrong"), (HostAuth::AwaitPassword, Some(AuthMessage::Fail)));
    assert_eq!(AuthMessage::Fail.text(), "!authfail");
    let (s, m) = host_step(s, "pw", " pw\n");
    assert_eq!((s, m), (HostAuth::AwaitConfirmation, Some(AuthMessage::Pass)));
    assert_eq!(host_step(s, "pw", "chatter"), (HostAuth::AwaitConfirmation, None));
    assert_eq!(host_step(s, "pw", "!authpass"), (HostAuth::Open, None));
}

#[test]
fn host_password_with_spaces_never_matches() {
    let (s, _) = host_start(true);
    assert_eq!(host_step(s, " pw ", " pw "), (HostAuth::AwaitPassword, Some(AuthMessage::Fail)));
}

#[test]
fn client_challenge_and_retry() {
    let (s, a) = client_step(ClientAuth::AwaitChallenge, ClientEvent::Message, "!authcheck");
    assert_eq!((s, a), (ClientAuth::EnterPassword, ClientAction::AskPassword));
    let (s, a) = client_step(s, ClientEvent::Password, "guess");
    assert_eq!((s, a), (ClientAuth::AwaitVerdict, ClientAction::SendPassword));
    let (s, a) = client_step(s, ClientEvent::Message, "!authfail");
    assert_eq!((s, a), (ClientAuth::EnterPassword, ClientAction::Retry));
    let (s, a) = client_step(s, ClientEvent::Password, "pw");
    assert_eq!((s, a), (ClientAuth::AwaitVerdict, ClientAction::SendPassword));
    let (s, a) = client_step(s, ClientEvent::Message, "!authpass");
    assert_eq!((s, a), (ClientAuth::Open, ClientAction::Confirm));
}

#[test]
fn client_open_host() {
    assert_eq!(
        client_step(ClientAuth::AwaitChallenge, ClientEvent::Message, "!authpass"),
        (ClientAuth::Open, ClientAction::Nothing)
    );
    assert_eq!(
        client_step(ClientAuth::AwaitChallenge, ClientEvent::Message, "  "),
        (ClientAuth::Open, ClientAction::ReportEmpty)
    );
}

#[test]
fn handshake_with_right_password() {
    let (mut host, first) = host_start(true);
    let (client, action) = client_step(ClientAuth::AwaitChallenge, ClientEvent::Message, &first.text());
    assert_eq!(action, ClientAction::AskPassword);
    let (client, action) = client_step(client, ClientEvent::Password, "secret");
    assert_eq!(action, ClientAction::SendPassword);
    let (h, reply) = host_step(host, "secret", "secret");
    host = h;
    let (client, action) = client_step(client, ClientEvent::Message, &reply.unwrap().text());
    assert_eq!((client, action), (ClientAuth::Open, ClientAction::Confirm));
    let (h, _) = host_step(host, "secret", "!authpass");
    assert_eq!(h, HostAuth::Open);
}
