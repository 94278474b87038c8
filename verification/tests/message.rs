use imap_session::{
    address_from_parts, join_present_texts, parse_address, parse_message, Address, DateTime, Envelope,
    FetchData, Flag, ParseMessageError, Uid,
};

fn addr(name: Option<&[u8]>, mailbox: Option<&[u8]>, host: Option<&[u8]>) -> Address {
    Address {
        name: name.map(|v| v.to_vec()),
        adl: None,
        mailbox: mailbox.map(|v| v.to_vec()),
        host: host.map(|v| v.to_vec()),
    }
}

#[test]
fn parse_address_parses_address_containing_only_name() {
    let address = addr(Some(b"Benito camela"), None, None);
    let parsed = parse_address(&[address]);
    assert!(matches!(parsed, Some(value) if value == "Benito camela"));
}

#[test]
fn parse_address_parses_address_containing_name_and_mailbox() {
    let address = addr(Some(b"Benito camela"), Some(b"Whatever"), None);
    let parsed = parse_address(&[address]);
    assert!(matches!(parsed, Some(value) if value == "Benito camela"));
}

#[test]
fn parse_address_parses_address_containing_name_and_host() {
    let address = addr(Some(b"Benito camela"), None, Some(b"pepe.de"));
    let parsed = parse_address(&[address]);
    assert!(matches!(parsed, Some(value) if value == "Benito camela <pepe.de>"));
}

#[test]
fn parse_address_parses_address_containing_only_host() {
    let address = addr(None, None, Some(b"pepe.de"));
    let parsed = parse_address(&[address]);
    assert!(matches!(parsed, Some(value) if value == "<pepe.de>"));
}

#[test]
fn parse_address_parses_address_containing_host_and_mailbox() {
    let address = addr(None, Some(b"mario"), Some(b"pepe.de"));
    let parsed = parse_address(&[address]);
    assert!(matches!(parsed, Some(value) if value == "<mario@pepe.de>"));
}

#[test]
fn parse_address_parses_address_containing_name_and_host_and_mailbox() {
    let address = addr(Some(b"Mario bros"), Some(b"mario"), Some(b"pepe.de"));
    let parsed = parse_address(&[address]);
    assert!(matches!(parsed, Some(value) if value == "Mario bros <mario@pepe.de>"));
}

#[test]
fn parse_address_parses_address_containing_nothing() {
    let address = addr(None, None, None);
    let parsed = parse_address(&[address]);
    assert_eq!(parsed, None);
}

#[test]
fn parse_address_parses_address_containing_only_mailbox() {
    let address = addr(None, Some(b"whatever"), None);
    let parsed = parse_address(&[address]);
    assert_eq!(parsed, None);
}

#[test]
fn parse_address_joins_addresses_with_commas() {
    let list = [
        addr(Some(b"Ann"), Some(b"ann"), Some(b"a.org")),
        addr(None, Some(b"ghost"), None),
        addr(None, Some(b"bob"), Some(b"b.org")),
        addr(Some(b"Cy"), None, None),
    ];
    assert_eq!(parse_address(&list).as_deref(), Some("Ann <ann@a.org>, <bob@b.org>, Cy"));
}

#[test]
fn parse_address_of_no_addresses_is_none() {
    assert_eq!(parse_address(&[]), None);
    assert_eq!(parse_address(&[addr(None, None, None), addr(None, Some(b"x"), None)]), None);
}

#[test]
fn parse_address_replaces_invalid_utf8() {
    let address = addr(Some(&[b'A', 0xff, b'B']), None, None);
    assert_eq!(parse_address(&[address]).as_deref(), Some("A\u{FFFD}B"));
    let address = addr(Some("José".as_bytes()), None, None);
    assert_eq!(parse_address(&[address]).as_deref(), Some("José"));
}

fn fetch_with(body: Option<&[u8]>, envelope: Option<Envelope>) -> FetchData {
    FetchData {
        body: body.map(|b| b.to_vec()),
        flags: vec![Flag::Seen, Flag::custom("label")],
        internal_date: Some(DateTime {
            year: 2024,
            month: 1,
            day: 2,
            hour: 3,
            minute: 4,
            second: 5,
            nanosecond: 0,
        }),
        envelope,
    }
}

#[test]
fn message_without_body_is_refused() {
    let uid = Uid::from(17);
    let res = parse_message(uid, fetch_with(None, None));
    assert!(matches!(res, Err(ParseMessageError::MissingBody(u)) if u == uid));
}

#[test]
fn message_without_envelope_keeps_body_and_flags() {
    let uid = Uid::from(3);
    let message = parse_message(uid, fetch_with(Some(b"Hello World"), None)).unwrap();
    assert_eq!(message.uid, uid);
    assert_eq!(message.body, b"Hello World".to_vec());
    assert_eq!(message.flags.len(), 2);
    assert_eq!(message.flags[1].to_string(), "label");
    assert_eq!(message.received_date.map(|d| d.year), Some(2024));
    assert!(message.subject.is_none());
    assert!(message.from.is_none());
    assert!(message.to.is_none());
    assert!(message.cc.is_none());
    assert!(message.send_date.is_none());
}

#[test]
fn message_reads_the_envelope() {
    let envelope = Envelope {
        subject: Some(b"Greetings".to_vec()),
        date: Some(b"Wed, 6 Jul 2022 16:36:48 +0200".to_vec()),
        from: Some(vec![addr(None, Some(b"me"), Some(b"localhost"))]),
        to: Some(vec![addr(Some(b"You"), Some(b"you"), Some(b"localhost"))]),
        cc: None,
    };
    let uid = Uid::from(9);
    let message = parse_message(uid, fetch_with(Some(b"body"), Some(envelope))).unwrap();
    assert_eq!(message.uid, uid);
    assert_eq!(message.subject.as_deref(), Some("Greetings"));
    assert_eq!(message.from.as_deref(), Some("<me@localhost>"));
    assert_eq!(message.to.as_deref(), Some("You <you@localhost>"));
    assert!(message.cc.is_none());
    assert_eq!(
        message.send_date,
        Some(DateTime { year: 2022, month: 7, day: 6, hour: 14, minute: 36, second: 48, nanosecond: 0 })
    );
}

#[test]
fn unreadable_send_date_is_none() {
    let envelope = Envelope { subject: None, date: Some(b"yesterday".to_vec()), from: None, to: None, cc: None };
    let message = parse_message(Uid::from(1), fetch_with(Some(b""), Some(envelope))).unwrap();
    assert!(message.send_date.is_none());
    assert!(message.subject.is_none());
}

#[test]
fn parse_message_error_texts() {
    assert_eq!(ParseMessageError::MissingUid.to_string(), "Error parsing message. Missing UID.");
    assert_eq!(
        ParseMessageError::MissingBody(Uid::from(42)).to_string(),
        "Error parsing message with uid '42'. Missing body."
    );
}

#[test]
fn uid_is_written_in_decimal() {
    assert_eq!(Uid::from(0).to_string(), "0");
    assert_eq!(Uid::from(7).to_string(), "7");
    assert_eq!(Uid::from(10).to_string(), "10");
    assert_eq!(Uid::from(4294967295).to_string(), "4294967295");
    assert_eq!(Uid::from(1203).value(), 1203);
}

#[test]
fn address_from_parts_patterns() {
    let s = |v: &str| Some(String::from(v));
    assert_eq!(address_from_parts(s("N"), s("m"), s("h")).as_deref(), Some("N <m@h>"));
    assert_eq!(address_from_parts(None, s("m"), s("h")).as_deref(), Some("<m@h>"));
    assert_eq!(address_from_parts(s("N"), None, s("h")).as_deref(), Some("N <h>"));
    assert_eq!(address_from_parts(s("N"), s("m"), None).as_deref(), Some("N"));
    assert_eq!(address_from_parts(None, None, s("h")).as_deref(), Some("<h>"));
    assert_eq!(address_from_parts(None, s("m"), None), None);
    assert_eq!(address_from_parts(None, None, None), None);
}

#[test]
fn join_present_texts_skips_missing() {
    let texts = vec![None, Some(String::from("a")), None, Some(String::from("b")), Some(String::from("c"))];
    assert_eq!(join_present_texts(&texts).as_deref(), Some("a, b, c"));
    assert_eq!(join_present_texts(&[None, None]), None);
    assert_eq!(join_present_texts(&[]), None);
}

#[test]
fn uid_is_read_from_decimal_text() {
    assert_eq!(Uid::parse("42").unwrap(), Uid::from(42));
    assert_eq!(Uid::parse("+7").unwrap(), Uid::from(7));
    assert_eq!(Uid::parse("007").unwrap(), Uid::from(7));
    assert_eq!(Uid::parse("4294967295").unwrap(), Uid::from(4294967295));
    assert!(Uid::parse("").is_err());
    assert!(Uid::parse("+").is_err());
    assert!(Uid::parse("-1").is_err());
    assert!(Uid::parse(" 1").is_err());
    assert!(Uid::parse("4294967296").is_err());
    assert_eq!("123".parse::<Uid>().unwrap(), Uid::from(123));
    for n in [0u32, 9, 10, 99, 100, 65535, 4294967295] {
        let u = Uid::from(n);
        assert_eq!(Uid::parse(&u.to_string()).unwrap(), u);
    }
}
