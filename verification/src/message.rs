use vstd::prelude::*;
use crate::date::{DateTime, datetime_reading, parse_datetime};
use crate::flag::Flag;
use crate::text::{decode_lossy, utf8_lossy};
use crate::uid::Uid;

verus! {

/// A mail address of a message envelope (RFC 3501, section 7.4.2), each part as raw bytes.
#[derive(Debug, Clone)]
pub struct Address {
    pub name: Option<Vec<u8>>,
    pub adl: Option<Vec<u8>>,
    pub mailbox: Option<Vec<u8>>,
    pub host: Option<Vec<u8>>,
}

/// The parts of a message envelope that messages are built from.
#[derive(Debug, Clone)]
pub struct Envelope {
    pub subject: Option<Vec<u8>>,
    pub date: Option<Vec<u8>>,
    pub from: Option<Vec<Address>>,
    pub to: Option<Vec<Address>>,
    pub cc: Option<Vec<Address>>,
}

/// What a `UID FETCH (RFC822 FLAGS INTERNALDATE ENVELOPE)` answer holds for one message.
#[derive(Debug)]
pub struct FetchData {
    pub body: Option<Vec<u8>>,
    pub flags: Vec<Flag>,
    /// The internal date, in UTC.
    pub internal_date: Option<DateTime>,
    pub envelope: Option<Envelope>,
}

/// A message stored in the IMAP server with an opinionated structure.
#[derive(Debug)]
pub struct Message {
    pub uid: Uid,
    pub body: Vec<u8>,
    pub flags: Vec<Flag>,
    pub subject: Option<String>,
    pub from: Option<String>,
    pub to: Option<String>,
    pub cc: Option<String>,
    pub send_date: Option<DateTime>,
    pub received_date: Option<DateTime>,
}

/// Why a fetched message could not be turned into a `Message`.
#[derive(Debug, Clone, Copy, PartialEq, Eq, Structural)]
pub enum ParseMessageError {
    MissingUid,
    MissingBody(Uid),
}

/// The text of an optional string.
pub open spec fn text_of(o: Option<String>) -> Option<Seq<char>> {
    match o {
        Some(s) => Some(s@),
        None => None,
    }
}

/// An optional byte field read as lossy UTF-8.
pub open spec fn lossy_field(f: Option<Vec<u8>>) -> Option<Seq<char>> {
    match f {
        Some(b) => Some(utf8_lossy(b@)),
        None => None,
    }
}

/// How an address with the given name, mailbox and host texts is written, if it can
/// be: `name <mailbox@host>`, `<mailbox@host>`, `name <host>`, `<host>` or `name`; an
/// address without name and host has no text.
pub open spec fn parts_text(
    name: Option<Seq<char>>,
    mailbox: Option<Seq<char>>,
    host: Option<Seq<char>>,
) -> Option<Seq<char>> {
    match (name, mailbox, host) {
        (None, Some(m), Some(h)) => Some("<"@ + m + "@"@ + h + ">"@),
        (Some(n), Some(m), Some(h)) => Some(n + " <"@ + m + "@"@ + h + ">"@),
        (Some(n), _, None) => Some(n),
        (Some(n), _, Some(h)) => Some(n + " <"@ + h + ">"@),
        (None, None, Some(h)) => Some("<"@ + h + ">"@),
        (None, _, None) => None,
    }
}

/// How one address is written, its parts read as lossy UTF-8.
pub open spec fn address_text(a: Address) -> Option<Seq<char>> {
    parts_text(lossy_field(a.name), lossy_field(a.mailbox), lossy_field(a.host))
}

/// Optional texts joined by `, `, skipping the missing ones; `None` when all are missing.
pub open spec fn join_present(s: Seq<Option<Seq<char>>>) -> Option<Seq<char>>
    decreases s.len(),
{
    if s.len() == 0 {
        None
    } else {
        let acc = join_present(s.drop_last());
        match s.last() {
            None => acc,
            Some(v) => match acc {
                None => Some(v),
                Some(a) => Some(a + ", "@ + v),
            },
        }
    }
}

/// The texts of a list of addresses joined by `, `, skipping those without text;
/// `None` when no address has a text.
pub open spec fn addresses_text(s: Seq<Address>) -> Option<Seq<char>> {
    join_present(s.map_values(|a: Address| address_text(a)))
}

/// The text of an optional address list of an envelope.
pub open spec fn address_field_text(f: Option<Vec<Address>>) -> Option<Seq<char>> {
    match f {
        Some(v) => addresses_text(v@),
        None => None,
    }
}

/// The send date an envelope's date field gives.
pub open spec fn send_date_of(date: Option<Vec<u8>>) -> Option<DateTime> {
    match date {
        Some(b) => datetime_reading(utf8_lossy(b@)),
        None => None,
    }
}

fn lossy_opt(f: &Option<Vec<u8>>) -> (r: Option<String>)
    ensures
        text_of(r) == lossy_field(*f),
{
    match f {
        Some(b) => Some(decode_lossy(b.as_slice())),
        None => None,
    }
}

/// Writes an address from the texts of its name, mailbox and host.
pub fn address_from_parts(name: Option<String>, mailbox: Option<String>, host: Option<String>) -> (r:
    Option<String>)
    ensures
        text_of(r) == parts_text(text_of(name), text_of(mailbox), text_of(host)),
{
    match (name, mailbox, host) {
        (None, Some(m), Some(h)) => {
            let mut s = String::from_str("<");
            s.append(m.as_str());
            s.append("@");
            s.append(h.as_str());
            s.append(">");
            Some(s)
        },
        (Some(n), Some(m), Some(h)) => {
            let mut s = n;
            s.append(" <");
            s.append(m.as_str());
            s.append("@");
            s.append(h.as_str());
            s.append(">");
            Some(s)
        },
        (Some(n), _, None) => Some(n),
        (Some(n), _, Some(h)) => {
            let mut s = n;
            s.append(" <");
            s.append(h.as_str());
            s.append(">");
            Some(s)
        },
        (None, None, Some(h)) => {
            let mut s = String::from_str("<");
            s.append(h.as_str());
            s.append(">");
            Some(s)
        },
        (None, _, None) => None,
    }
}

/// The text of one address, if it has one.
pub fn address_to_text(a: &Address) -> (r: Option<String>)
    ensures
        text_of(r) == address_text(*a),
{
    address_from_parts(lossy_opt(&a.name), lossy_opt(&a.mailbox), lossy_opt(&a.host))
}

/// The texts of optional strings.
pub open spec fn texts_of(s: Seq<Option<String>>) -> Seq<Option<Seq<char>>> {
    s.map_values(|o: Option<String>| text_of(o))
}

/// Joins the present texts with `, `; `None` when all are missing.
pub fn join_present_texts(texts: &[Option<String>]) -> (r: Option<String>)
    ensures
        text_of(r) == join_present(texts_of(texts@)),
{
    let mut acc: Option<String> = None;
    let ghost all = texts_of(texts@);
    let mut i: usize = 0;
    while i < texts.len()
        invariant
            i <= texts@.len(),
            all == texts_of(texts@),
            text_of(acc) == join_present(all.take(i as int)),
        decreases texts@.len() - i,
    {
        proof {
            assert(all.take(i + 1).drop_last() =~= all.take(i as int));
            assert(all.take(i + 1).last() == text_of(texts@[i as int]));
        }
        acc = match &texts[i] {
            None => acc,
            Some(v) => match acc {
                None => Some(v.clone()),
                Some(a) => {
                    let mut s = a;
                    s.append(", ");
                    s.append(v.as_str());
                    Some(s)
                },
            },
        };
        i = i + 1;
    }
    assert(all.take(texts@.len() as int) =~= all);
    acc
}

/// Joins the texts of the addresses with `, `; `None` when none of them has a text.
pub fn parse_address(value: &[Address]) -> (r: Option<String>)
    ensures
        text_of(r) == addresses_text(value@),
{
    let mut texts: Vec<Option<String>> = Vec::new();
    let mut i: usize = 0;
    while i < value.len()
        invariant
            i <= value@.len(),
            texts@.len() == i,
            forall|k: int| 0 <= k < i ==> text_of(#[trigger] texts@[k]) == address_text(value@[k]),
        decreases value@.len() - i,
    {
        texts.push(address_to_text(&value[i]));
        i = i + 1;
    }
    assert(texts_of(texts@) =~= value@.map_values(|a: Address| address_text(a)));
    join_present_texts(texts.as_slice())
}

fn address_field(f: &Option<Vec<Address>>) -> (r: Option<String>)
    ensures
        text_of(r) == address_field_text(*f),
{
    match f {
        Some(v) => parse_address(v.as_slice()),
        None => None,
    }
}

/// Whether `r` is what a fetch answer for the message with the given UID becomes: an
/// answer without body is refused with `MissingBody`; otherwise the message keeps the
/// UID, body, flags and internal date, and reads subject, addresses and send date from
/// the envelope when there is one.
pub open spec fn parses_to(uid: Uid, fetch: FetchData, r: Result<Message, ParseMessageError>) -> bool {
    &&& fetch.body is None <==> r == Err::<Message, ParseMessageError>(
        ParseMessageError::MissingBody(uid),
    )
    &&& fetch.body is Some <==> r is Ok
    &&& r matches Ok(m) ==> {
        &&& m.uid == uid
        &&& m.body@ == fetch.body.unwrap()@
        &&& m.flags@ == fetch.flags@
        &&& m.received_date == fetch.internal_date
        &&& match fetch.envelope {
            None => {
                &&& m.subject is None
                &&& m.from is None
                &&& m.to is None
                &&& m.cc is None
                &&& m.send_date is None
            },
            Some(e) => {
                &&& text_of(m.subject) == lossy_field(e.subject)
                &&& text_of(m.from) == address_field_text(e.from)
                &&& text_of(m.to) == address_field_text(e.to)
                &&& text_of(m.cc) == address_field_text(e.cc)
                &&& m.send_date == send_date_of(e.date)
            },
        }
    }
}

/// Builds the message of a fetch answer for the message with the given UID. A fetch
/// answer without body is refused with `MissingBody`.
pub fn parse_message(uid: Uid, fetch: FetchData) -> (r: Result<Message, ParseMessageError>)
    ensures
        parses_to(uid, fetch, r),
{
    let FetchData { body, flags, internal_date, envelope } = fetch;
    let body = match body {
        Some(b) => b,
        None => {
            return Err(ParseMessageError::MissingBody(uid));
        },
    };
    match envelope {
        None => Ok(
            Message {
                uid,
                body,
                flags,
                subject: None,
                from: None,
                to: None,
                cc: None,
                send_date: None,
                received_date: internal_date,
            },
        ),
        Some(e) => {
            let subject = lossy_opt(&e.subject);
            let send_date = match &e.date {
                Some(d) => {
                    let text = decode_lossy(d.as_slice());
                    parse_datetime(text.as_str())
                },
                None => None,
            };
            let from = address_field(&e.from);
            let to = address_field(&e.to);
            let cc = address_field(&e.cc);
            Ok(
                Message {
                    uid,
                    body,
                    flags,
                    subject,
                    from,
                    to,
                    cc,
                    send_date,
                    received_date: internal_date,
                },
            )
        },
    }
}

/// How the error is told to a reader.
pub open spec fn parse_message_error_text(e: ParseMessageError) -> Seq<char> {
    match e {
        ParseMessageError::MissingUid => "Error parsing message. Missing UID."@,
        ParseMessageError::MissingBody(uid) => "Error parsing message with uid '"@ + uid.text()
            + "'. Missing body."@,
    }
}

impl ParseMessageError {
    /// How the error is told to a reader.
    pub fn to_string(&self) -> (s: String)
        ensures
            s@ == parse_message_error_text(*self),
    {
        match self {
            ParseMessageError::MissingUid => String::from_str("Error parsing message. Missing UID."),
            ParseMessageError::MissingBody(uid) => {
                let mut s = String::from_str("Error parsing message with uid '");
                let u = uid.to_string();
                s.append(u.as_str());
                s.append("'. Missing body.");
                s
            },
        }
    }
}

} // verus!

verus! {

/// An address has a text exactly when it has a name or a host.
pub proof fn lemma_address_text_exists(a: Address)
    ensures
        address_text(a) is Some <==> (a.name is Some || a.host is Some),
{
}

/// Joining optional texts gives a text exactly when one of them is present.
pub proof fn lemma_join_present_exists(t: Seq<Option<Seq<char>>>)
    ensures
        join_present(t) is Some <==> exists|i: int| 0 <= i < t.len() && (#[trigger] t[i]) is Some,
    decreases t.len(),
{
    if t.len() > 0 {
        let u = t.drop_last();
        lemma_join_present_exists(u);
        if join_present(u) is Some {
            let i = choose|i: int| 0 <= i < u.len() && (#[trigger] u[i]) is Some;
            assert(t[i] == u[i]);
        }
        if exists|i: int| 0 <= i < t.len() && (#[trigger] t[i]) is Some {
            let i = choose|i: int| 0 <= i < t.len() && (#[trigger] t[i]) is Some;
            if i < t.len() - 1 {
                assert(u[i] == t[i]);
            }
        }
    }
}

/// A list of addresses has a text exactly when one of its addresses has one, that is
/// when one of them has a name or a host.
pub proof fn lemma_addresses_text_exists(s: Seq<Address>)
    ensures
        addresses_text(s) is Some <==> exists|i: int|
            0 <= i < s.len() && ((#[trigger] s[i]).name is Some || s[i].host is Some),
{
    let t = s.map_values(|a: Address| address_text(a));
    lemma_join_present_exists(t);
    if addresses_text(s) is Some {
        let i = choose|i: int| 0 <= i < t.len() && (#[trigger] t[i]) is Some;
        assert(t[i] == address_text(s[i]));
    }
    if exists|i: int| 0 <= i < s.len() && ((#[trigger] s[i]).name is Some || s[i].host is Some) {
        let i = choose|i: int| 0 <= i < s.len() && ((#[trigger] s[i]).name is Some || s[i].host is Some);
        assert(t[i] == address_text(s[i]));
    }
}

} // verus!

verus! {

/// A parsed message's received date is the answer's internal date, whether or not the
/// answer has an envelope; the message also keeps the answer's UID, body and flags.
pub proof fn lemma_parsed_message_keeps_answer(uid: Uid, fetch: FetchData, m: Message)
    requires
        parses_to(uid, fetch, Ok(m)),
    ensures
        m.received_date == fetch.internal_date,
        m.uid == uid,
        fetch.body is Some && m.body@ == fetch.body.unwrap()@,
        m.flags@ == fetch.flags@,
{
}

/// The texts that are present, in order.
pub open spec fn present_texts(s: Seq<Option<Seq<char>>>) -> Seq<Seq<char>>
    decreases s.len(),
{
    if s.len() == 0 {
        Seq::empty()
    } else {
        match s.last() {
            None => present_texts(s.drop_last()),
            Some(v) => present_texts(s.drop_last()).push(v),
        }
    }
}

/// Joining optional texts keeps every present text, in order, separated by `, `:
/// for present texts `v1 .. vk` (k >= 1) the result is `v1, v2, ..., vk`; with none
/// present there is no result.
pub proof fn lemma_join_present_keeps_every_text(s: Seq<Option<Seq<char>>>)
    ensures
        join_present(s) == if present_texts(s).len() == 0 {
            None
        } else {
            Some(crate::session::join(present_texts(s), ", "@))
        },
    decreases s.len(),
{
    if s.len() > 0 {
        lemma_join_present_keeps_every_text(s.drop_last());
        let p = present_texts(s.drop_last());
        if let Some(v) = s.last() {
            assert(p.push(v).drop_last() =~= p);
            if p.len() == 0 {
                assert(p.push(v)[0] == v);
            }
        }
    }
}

/// Two present texts are joined as `a, b`.
pub proof fn lemma_join_two_present(a: Seq<char>, b: Seq<char>)
    ensures
        join_present(seq![Some(a), Some(b)]) == Some(a + ", "@ + b),
{
    let s = seq![Some(a), Some(b)];
    assert(s.drop_last() =~= seq![Some(a)]);
    assert(seq![Some(a)].drop_last() =~= Seq::<Option<Seq<char>>>::empty());
    assert(join_present(Seq::<Option<Seq<char>>>::empty()) is None);
    assert(seq![Some(a)].last() == Some(a));
    assert(join_present(seq![Some(a)]) == Some(a));
    assert(s.last() == Some(b));
}

} // verus!
