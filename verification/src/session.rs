use vstd::prelude::*;
use crate::error::SessionError;
use crate::flag::{Flag, flag_text};
use crate::message::{FetchData, Message, ParseMessageError, parse_message, parses_to};
use crate::query::Query;
use crate::uid::Uid;

verus! {

/// The user name and password a session logs in with.
#[derive(Debug)]
pub struct Credentials {
    pub user: String,
    pub password: String,
}

/// Where the IMAP server is and how to log in to it.
#[derive(Debug)]
pub struct ConnectionConfig {
    pub credentials: Credentials,
    pub domain: String,
    pub port: u16,
}

/// How an operation opens its mailbox before its main command.
#[derive(Debug, Clone, Copy, PartialEq, Eq, Structural)]
pub enum MailboxAccess {
    /// `EXAMINE`: the mailbox is opened read-only.
    ReadOnly,
    /// `SELECT`: the mailbox is opened read-write.
    ReadWrite,
}

/// The main command of an operation on a mailbox, with its arguments.
#[derive(Debug)]
pub enum Command {
    /// `UID STORE <sequence_set> <query>`.
    UidStore { sequence_set: String, query: String },
    /// `UID FETCH <sequence_set> <query>`.
    UidFetch { sequence_set: String, query: String },
    /// `UID SEARCH <query>`.
    UidSearch { query: String },
}

/// What an operation sends: the mailbox to open, how to open it, then the main command.
#[derive(Debug)]
pub struct MailboxOperation {
    pub access: MailboxAccess,
    pub mailbox: String,
    pub command: Command,
}

/// The data items fetched for a message.
pub const FETCH_QUERY: &'static str = "(RFC822 FLAGS INTERNALDATE ENVELOPE)";

/// The parts joined by `sep`, as `join` on a slice of strings gives it.
pub open spec fn join(parts: Seq<Seq<char>>, sep: Seq<char>) -> Seq<char>
    decreases parts.len(),
{
    if parts.len() == 0 {
        Seq::empty()
    } else if parts.len() == 1 {
        parts[0]
    } else {
        join(parts.drop_last(), sep) + sep + parts.last()
    }
}

/// The texts of the UIDs.
pub open spec fn uid_texts(uids: Seq<Uid>) -> Seq<Seq<char>> {
    uids.map_values(|u: Uid| u.text())
}

/// The texts of the flags as `STORE` writes them.
pub open spec fn flag_texts(flags: Seq<Flag>) -> Seq<Seq<char>> {
    flags.map_values(|f: Flag| flag_text(f))
}

/// The sequence set naming the UIDs: their numbers joined by commas.
pub open spec fn sequence_set_text(uids: Seq<Uid>) -> Seq<char> {
    join(uid_texts(uids), ","@)
}

/// The `STORE` argument that adds the flags: `+FLAGS (<flags joined by spaces>)`.
pub open spec fn add_flags_text(flags: Seq<Flag>) -> Seq<char> {
    "+FLAGS ("@ + join(flag_texts(flags), " "@) + ")"@
}

proof fn lemma_join_step(parts: Seq<Seq<char>>, sep: Seq<char>, i: int)
    requires
        0 <= i < parts.len(),
    ensures
        join(parts.take(i + 1), sep) == if i == 0 {
            parts[0]
        } else {
            join(parts.take(i), sep) + sep + parts[i]
        },
{
    assert(parts.take(i + 1).drop_last() =~= parts.take(i));
}

/// The sequence set naming the UIDs: their numbers joined by commas.
pub fn sequence_set(uids: &[Uid]) -> (s: String)
    ensures
        s@ == sequence_set_text(uids@),
{
    let mut s = String::new();
    let ghost parts = uid_texts(uids@);
    let mut i: usize = 0;
    while i < uids.len()
        invariant
            i <= uids@.len(),
            parts == uid_texts(uids@),
            s@ == join(parts.take(i as int), ","@),
        decreases uids@.len() - i,
    {
        proof {
            lemma_join_step(parts, ","@, i as int);
            assert(parts.take(0) =~= Seq::<Seq<char>>::empty());
        }
        if i > 0 {
            s.append(",");
        }
        let t = uids[i].to_string();
        s.append(t.as_str());
        i = i + 1;
    }
    assert(parts.take(uids@.len() as int) =~= parts);
    s
}

/// The `STORE` argument that adds the flags: `+FLAGS (<flags joined by spaces>)`.
pub fn add_flags_query(flags: &[Flag]) -> (s: String)
    ensures
        s@ == add_flags_text(flags@),
{
    let mut s = String::from_str("+FLAGS (");
    let ghost start = s@;
    let ghost parts = flag_texts(flags@);
    let mut i: usize = 0;
    while i < flags.len()
        invariant
            i <= flags@.len(),
            parts == flag_texts(flags@),
            s@ == start + join(parts.take(i as int), " "@),
        decreases flags@.len() - i,
    {
        proof {
            lemma_join_step(parts, " "@, i as int);
            assert(parts.take(0) =~= Seq::<Seq<char>>::empty());
        }
        if i > 0 {
            s.append(" ");
        }
        let t = flags[i].to_string();
        s.append(t.as_str());
        i = i + 1;
    }
    assert(parts.take(flags@.len() as int) =~= parts);
    s.append(")");
    s
}

/// Setting flags selects the mailbox read-write, then adds the flags to the messages
/// with the UIDs: `UID STORE <uids joined by commas> +FLAGS (<flags>)`.
pub fn plan_set_flags(mailbox: &str, uids: &[Uid], flags: &[Flag]) -> (op: MailboxOperation)
    ensures
        op.access == MailboxAccess::ReadWrite,
        op.mailbox@ == mailbox@,
        op.command matches Command::UidStore { sequence_set, query } && sequence_set@
            == sequence_set_text(uids@) && query@ == add_flags_text(flags@),
{
    MailboxOperation {
        access: MailboxAccess::ReadWrite,
        mailbox: String::from_str(mailbox),
        command: Command::UidStore { sequence_set: sequence_set(uids), query: add_flags_query(flags) },
    }
}

/// Fetching a message examines the mailbox, then fetches body, flags, internal date
/// and envelope of the message with the UID: `UID FETCH <uid> (RFC822 FLAGS INTERNALDATE ENVELOPE)`.
pub fn plan_fetch_one(mailbox: &str, uid: Uid) -> (op: MailboxOperation)
    ensures
        op.access == MailboxAccess::ReadOnly,
        op.mailbox@ == mailbox@,
        op.command matches Command::UidFetch { sequence_set, query } && sequence_set@
            == uid.text() && query@ == FETCH_QUERY@,
{
    MailboxOperation {
        access: MailboxAccess::ReadOnly,
        mailbox: String::from_str(mailbox),
        command: Command::UidFetch { sequence_set: uid.to_string(), query: String::from_str(FETCH_QUERY) },
    }
}

/// Searching examines the mailbox, then searches it with the query: `UID SEARCH <query>`.
pub fn plan_search(mailbox: &str, query: &Query) -> (op: MailboxOperation)
    ensures
        op.access == MailboxAccess::ReadOnly,
        op.mailbox@ == mailbox@,
        op.command matches Command::UidSearch { query: q } && q@ == query.text(),
{
    MailboxOperation {
        access: MailboxAccess::ReadOnly,
        mailbox: String::from_str(mailbox),
        command: Command::UidSearch { query: query.to_string() },
    }
}

/// What the first answer to a `UID FETCH` of one message becomes: no answer means no
/// message has the UID (`MessageNotFound`); a failed answer is `Other` with the error's
/// text; an answer is parsed into the message, a parse failure being `ParseMessageError`.
pub open spec fn fetch_outcome(
    uid: Uid,
    answer: Option<Result<FetchData, String>>,
    r: Result<Message, SessionError>,
) -> bool {
    match answer {
        None => r == Err::<Message, SessionError>(SessionError::MessageNotFound(uid)),
        Some(Err(t)) => r == Err::<Message, SessionError>(SessionError::Other(t)),
        Some(Ok(f)) => exists|p: Result<Message, ParseMessageError>|
            #![trigger parses_to(uid, f, p)]
            parses_to(uid, f, p) && r == match p {
                Ok(m) => Ok::<Message, SessionError>(m),
                Err(e) => Err(SessionError::ParseMessageError(e)),
            },
    }
}

/// The message that the first answer to a `UID FETCH` of one message gives, or the error.
pub fn fetch_result(uid: Uid, answer: Option<Result<FetchData, String>>) -> (r: Result<Message, SessionError>)
    ensures
        fetch_outcome(uid, answer, r),
        answer matches Some(Ok(f)) ==> (r matches Ok(m) ==> parses_to(uid, f, Ok(m))),
{
    match answer {
        None => Err(SessionError::MessageNotFound(uid)),
        Some(Err(t)) => Err(SessionError::Other(t)),
        Some(Ok(f)) => {
            let ghost g = f;
            let p = parse_message(uid, f);
            assert(parses_to(uid, g, p));
            match p {
                Ok(m) => Ok(m),
                Err(e) => Err(SessionError::ParseMessageError(e)),
            }
        },
    }
}

/// The UIDs a `UID SEARCH` answered with, in the order given.
pub fn uids_from_search(found: Vec<u32>) -> (r: Vec<Uid>)
    ensures
        r@.len() == found@.len(),
        forall|i: int| 0 <= i < found@.len() ==> #[trigger] r@[i].spec_value() == found@[i],
{
    let mut r: Vec<Uid> = Vec::new();
    let mut i: usize = 0;
    while i < found.len()
        invariant
            i <= found@.len(),
            r@.len() == i,
            forall|j: int| 0 <= j < i ==> #[trigger] r@[j].spec_value() == found@[j],
        decreases found@.len() - i,
    {
        let u = Uid::from(found[i]);
        proof { Uid::lemma_from_value(found@[i as int]); }
        r.push(u);
        i = i + 1;
    }
    r
}

} // verus!

verus! {

/// A fetch that gets no answer is reported as "message not found" for the UID asked for.
pub proof fn lemma_no_answer_is_not_found(uid: Uid, r: Result<Message, SessionError>)
    requires
        fetch_outcome(uid, None, r),
    ensures
        r matches Err(SessionError::MessageNotFound(u)) && u == uid,
{
}

/// A fetched message carries the UID it was fetched with.
pub proof fn lemma_fetched_message_keeps_uid(
    uid: Uid,
    answer: Option<Result<FetchData, String>>,
    m: Message,
)
    requires
        fetch_outcome(uid, answer, Ok(m)),
    ensures
        m.uid == uid,
{
}

/// The message a fetch gives is the parse of the answer it got: it keeps the answer's
/// UID, body, flags and internal date.
pub proof fn lemma_fetched_message_is_the_parse(uid: Uid, f: FetchData, m: Message)
    requires
        fetch_outcome(uid, Some(Ok(f)), Ok(m)),
    ensures
        parses_to(uid, f, Ok(m)),
        m.uid == uid,
        f.body is Some && m.body@ == f.body.unwrap()@,
        m.flags@ == f.flags@,
        m.received_date == f.internal_date,
{
    let p = choose|p: Result<Message, ParseMessageError>|
        #![trigger parses_to(uid, f, p)]
        parses_to(uid, f, p) && Ok::<Message, SessionError>(m) == match p {
            Ok(m) => Ok::<Message, SessionError>(m),
            Err(e) => Err(SessionError::ParseMessageError(e)),
        };
    crate::message::lemma_parsed_message_keeps_answer(uid, f, m);
}

/// Setting flags only adds them: whatever the flags, the `STORE` argument is
/// `+FLAGS (` (a `+`, never a bare `FLAGS`), then the flags joined by spaces, then `)`.
pub proof fn lemma_add_flags_only_adds(flags: Seq<Flag>)
    ensures
        add_flags_text(flags).len() >= 9,
        add_flags_text(flags)[0] == '+',
        add_flags_text(flags).subrange(0, 8) == seq!['+', 'F', 'L', 'A', 'G', 'S', ' ', '('],
        add_flags_text(flags).subrange(8, add_flags_text(flags).len() - 1) == join(
            flag_texts(flags),
            seq![' '],
        ),
        add_flags_text(flags).last() == ')',
{
    reveal_strlit("+FLAGS (");
    reveal_strlit(" ");
    reveal_strlit(")");
    let t = add_flags_text(flags);
    let j = join(flag_texts(flags), " "@);
    assert(" "@ =~= seq![' ']);
    assert(t =~= "+FLAGS ("@ + j + ")"@);
    assert(t.subrange(0, 8) =~= "+FLAGS ("@);
    assert(t.subrange(8, t.len() - 1) =~= j);
}

/// An error of the IMAP client never turns into "message not found".
pub proof fn lemma_client_error_is_not_not_found(e: crate::error::ImapError)
    ensures
        !(crate::error::session_error_of(e) is MessageNotFound),
{
}

} // verus!

verus! {

/// Whether `s` holds no occurrence of `c`.
pub open spec fn free_of(s: Seq<char>, c: char) -> bool {
    forall|i: int| 0 <= i < s.len() ==> s[i] != c
}

proof fn lemma_split_at_last(x: Seq<char>, y: Seq<char>, x2: Seq<char>, y2: Seq<char>, c: char)
    requires
        x + seq![c] + y == x2 + seq![c] + y2,
        free_of(y, c),
        free_of(y2, c),
    ensures
        x == x2,
        y == y2,
{
    let t = x + seq![c] + y;
    let t2 = x2 + seq![c] + y2;
    assert(t.len() == t2.len());
    if y.len() < y2.len() {
        let k = t.len() - y.len() - 1;
        assert(t[k] == c);
        assert(t2[k] == y2[k - x2.len() - 1]);
    } else if y.len() > y2.len() {
        let k = t2.len() - y2.len() - 1;
        assert(t2[k] == c);
        assert(t[k] == y[k - x.len() - 1]);
    }
    assert(y =~= t.skip(t.len() - y.len()));
    assert(y2 =~= t2.skip(t2.len() - y2.len()));
    assert(x =~= t.take(x.len() as int));
    assert(x2 =~= t2.take(x2.len() as int));
}

proof fn lemma_join_shape(p: Seq<Seq<char>>, c: char)
    requires
        forall|i: int| 0 <= i < p.len() ==> (#[trigger] p[i]).len() > 0 && free_of(p[i], c),
    ensures
        p.len() == 0 <==> join(p, seq![c]).len() == 0,
        p.len() <= 1 <==> free_of(join(p, seq![c]), c),
    decreases p.len(),
{
    if p.len() >= 2 {
        let q = p.drop_last();
        lemma_join_shape(q, c);
        let j = join(q, seq![c]);
        assert(join(p, seq![c])[j.len() as int] == c);
    } else if p.len() == 1 {
        assert(p[0].len() > 0);
    }
}

proof fn lemma_join_injective(p: Seq<Seq<char>>, q: Seq<Seq<char>>, c: char)
    requires
        forall|i: int| 0 <= i < p.len() ==> (#[trigger] p[i]).len() > 0 && free_of(p[i], c),
        forall|i: int| 0 <= i < q.len() ==> (#[trigger] q[i]).len() > 0 && free_of(q[i], c),
        join(p, seq![c]) == join(q, seq![c]),
    ensures
        p == q,
    decreases p.len(),
{
    lemma_join_shape(p, c);
    lemma_join_shape(q, c);
    if p.len() == 0 {
        assert(p =~= q);
    } else if p.len() == 1 {
        assert(p =~= q);
    } else {
        let p1 = p.drop_last();
        let q1 = q.drop_last();
        assert(free_of(p.last(), c));
        assert(free_of(q.last(), c));
        lemma_split_at_last(join(p1, seq![c]), p.last(), join(q1, seq![c]), q.last(), c);
        assert forall|i: int| 0 <= i < p1.len() implies (#[trigger] p1[i]).len() > 0 && free_of(p1[i], c) by {
            assert(p1[i] == p[i]);
        }
        assert forall|i: int| 0 <= i < q1.len() implies (#[trigger] q1[i]).len() > 0 && free_of(q1[i], c) by {
            assert(q1[i] == q[i]);
        }
        lemma_join_injective(p1, q1, c);
        assert(p =~= p1.push(p.last()));
        assert(q =~= q1.push(q.last()));
    }
}

/// A sequence set names exactly the UIDs it was made from: different lists of UIDs
/// never give the same sequence set.
pub proof fn lemma_sequence_set_injective(a: Seq<Uid>, b: Seq<Uid>)
    requires
        sequence_set_text(a) == sequence_set_text(b),
    ensures
        a == b,
{
    reveal_strlit(",");
    assert(","@ =~= seq![',']);
    assert forall|i: int| 0 <= i < uid_texts(a).len() implies (#[trigger] uid_texts(a)[i]).len() > 0
        && free_of(uid_texts(a)[i], ',') by {
        crate::text::lemma_decimal_digits(a[i].spec_value() as nat);
    }
    assert forall|i: int| 0 <= i < uid_texts(b).len() implies (#[trigger] uid_texts(b)[i]).len() > 0
        && free_of(uid_texts(b)[i], ',') by {
        crate::text::lemma_decimal_digits(b[i].spec_value() as nat);
    }
    lemma_join_injective(uid_texts(a), uid_texts(b), ',');
    assert forall|i: int| 0 <= i < a.len() implies a[i] == b[i] by {
        assert(uid_texts(a)[i] == uid_texts(b)[i]);
        crate::text::lemma_decimal_injective(a[i].spec_value() as nat, b[i].spec_value() as nat);
        Uid::lemma_value_injective(a[i], b[i]);
    }
    assert(a.len() == uid_texts(a).len());
    assert(a =~= b);
}

} // verus!
