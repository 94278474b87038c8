use imap_session::{
    fetch_result, plan_fetch_one, plan_search, plan_set_flags, sequence_set, uids_from_search, Command,
    ConnectionConfig, Credentials, FetchData, Flag, ImapError, MailboxAccess, ParseMessageError, Query,
    SessionError, Uid, FETCH_QUERY,
};

#[test]
fn set_flags_selects_and_stores() {
    let op = plan_set_flags(
        "INBOX",
        &[Uid::from(1), Uid::from(22), Uid::from(333)],
        &[Flag::Seen, Flag::custom("my label")],
    );
    assert_eq!(op.access, MailboxAccess::ReadWrite);
    assert_eq!(op.mailbox, "INBOX");
    match op.command {
        Command::UidStore { sequence_set, query } => {
            assert_eq!(sequence_set, "1,22,333");
            assert_eq!(query, "+FLAGS (\\Seen my label)");
        }
        other => panic!("unexpected command {other:?}"),
    }
}

#[test]
fn set_flags_with_nothing_to_set() {
    let op = plan_set_flags("Archive", &[], &[]);
    match op.command {
        Command::UidStore { sequence_set, query } => {
            assert_eq!(sequence_set, "");
            assert_eq!(query, "+FLAGS ()");
        }
        other => panic!("unexpected command {other:?}"),
    }
}

#[test]
fn sequence_set_of_one_uid() {
    assert_eq!(sequence_set(&[Uid::from(5)]), "5");
}

#[test]
fn fetch_one_examines_and_fetches() {
    let op = plan_fetch_one("INBOX", Uid::from(7));
    assert_eq!(op.access, MailboxAccess::ReadOnly);
    assert_eq!(op.mailbox, "INBOX");
    match op.command {
        Command::UidFetch { sequence_set, query } => {
            assert_eq!(sequence_set, "7");
            assert_eq!(query, "(RFC822 FLAGS INTERNALDATE ENVELOPE)");
            assert_eq!(query, FETCH_QUERY);
        }
        other => panic!("unexpected command {other:?}"),
    }
}

#[test]
fn search_examines_and_searches() {
    let op = plan_search("Sent", &!Query::flag(Flag::Seen));
    assert_eq!(op.access, MailboxAccess::ReadOnly);
    assert_eq!(op.mailbox, "Sent");
    match op.command {
        Command::UidSearch { query } => assert_eq!(query, "NOT (SEEN)"),
        other => panic!("unexpected command {other:?}"),
    }
}

#[test]
fn missing_fetch_answer_is_message_not_found() {
    let res = fetch_result(Uid::from(12), None);
    let err = res.unwrap_err();
    assert!(err.is_message_not_found());
    assert!(matches!(err, SessionError::MessageNotFound(u) if u == Uid::from(12)));
    assert_eq!(
        err.to_string(),
        "Message with Uid '12' not found. The UIDVALIDITY of the mailbox was probably changed."
    );
}

#[test]
fn failed_fetch_answer_is_other() {
    let res = fetch_result(Uid::from(12), Some(Err(String::from("bad response: nope"))));
    let err = res.unwrap_err();
    assert!(!err.is_message_not_found());
    assert!(matches!(&err, SessionError::Other(t) if t == "bad response: nope"));
    assert_eq!(err.to_string(), "bad response: nope");
}

#[test]
fn fetch_answer_is_parsed() {
    let data = FetchData { body: Some(b"hi".to_vec()), flags: vec![], internal_date: None, envelope: None };
    let message = fetch_result(Uid::from(4), Some(Ok(data))).unwrap();
    assert_eq!(message.uid, Uid::from(4));
    assert_eq!(message.body, b"hi".to_vec());

    let data = FetchData { body: None, flags: vec![], internal_date: None, envelope: None };
    let err = fetch_result(Uid::from(4), Some(Ok(data))).unwrap_err();
    assert!(matches!(err, SessionError::ParseMessageError(ParseMessageError::MissingBody(u)) if u == Uid::from(4)));
    assert_eq!(err.to_string(), "Error parsing message with uid '4'. Missing body.");
}

#[test]
fn search_answer_becomes_uids() {
    let uids = uids_from_search(vec![3, 1, 4294967295]);
    assert_eq!(uids, vec![Uid::from(3), Uid::from(1), Uid::from(4294967295)]);
    assert!(uids_from_search(vec![]).is_empty());
}

#[test]
fn client_errors_become_session_errors() {
    let e = SessionError::from(ImapError::Io(String::from("broken pipe")));
    assert!(matches!(&e, SessionError::BrokenStream(t) if t == "broken pipe"));
    assert_eq!(e.to_string(), "Error reading from inner stream, connection might be lost: 'broken pipe'");

    let e = SessionError::from(ImapError::ConnectionLost);
    assert!(matches!(e, SessionError::ConnectionLost));
    assert_eq!(e.to_string(), "Connection to the IMAP server was lost");

    let e = SessionError::from(ImapError::Parse(String::from("garbage")));
    assert!(matches!(&e, SessionError::ParseServerResponseError(t) if t == "garbage"));
    assert_eq!(e.to_string(), "Could not parse server response: 'garbage'");

    let e = SessionError::from(ImapError::Other(String::from("no response: denied")));
    assert!(matches!(&e, SessionError::Other(t) if t == "no response: denied"));
    assert!(!e.is_message_not_found());
}

#[test]
fn connection_error_texts() {
    let e = SessionError::TlsConnectError(String::from("handshake failed"));
    assert_eq!(e.to_string(), "Could not connect to an address using a TlsConnector: 'handshake failed'");
    let e = SessionError::TcpConnectError(String::from("refused"));
    assert_eq!(e.to_string(), "Could not connect to an address using a TcpStream: 'refused'");
    let e = SessionError::from(ParseMessageError::MissingUid);
    assert_eq!(e.to_string(), "Error parsing message. Missing UID.");
}

#[test]
fn connection_config_holds_its_parts() {
    let config = ConnectionConfig {
        domain: String::from("imap.example.org"),
        port: 993,
        credentials: Credentials { user: String::from("test"), password: String::from("secret") },
    };
    assert_eq!(config.port, 993);
    assert_eq!(config.credentials.user, "test");
}

#[test]
fn different_uid_lists_give_different_sequence_sets() {
    let a = sequence_set(&[Uid::from(1), Uid::from(23)]);
    let b = sequence_set(&[Uid::from(12), Uid::from(3)]);
    let c = sequence_set(&[Uid::from(123)]);
    assert_ne!(a, b);
    assert_ne!(a, c);
    assert_ne!(b, c);
    assert_eq!(a, "1,23");
    assert_eq!(b, "12,3");
}

#[test]
fn every_client_error_is_distinct_from_not_found() {
    let errors = vec![
        ImapError::Io(String::from("x")),
        ImapError::ConnectionLost,
        ImapError::Parse(String::from("y")),
        ImapError::Other(String::from("z")),
    ];
    for e in errors {
        assert!(!SessionError::from(e).is_message_not_found());
    }
}
