use vstd::prelude::*;
use vstd::std_specs::convert::FromSpecImpl;
use crate::message::{ParseMessageError, parse_message_error_text};
use crate::uid::Uid;

verus! {

/// An error of the IMAP client, told apart by kind and carrying the texts of the
/// errors it stands for.
#[derive(Debug)]
pub enum ImapError {
    /// A read or write on the network stream failed; the text of the I/O error.
    Io(String),
    /// The connection was terminated unexpectedly.
    ConnectionLost,
    /// A server response could not be parsed; the text of the parse error.
    Parse(String),
    /// Any other error of the client; its whole text.
    Other(String),
}

/// The many different errors that can occur when dealing with an IMAP session.
/// Errors of the network, TLS and IMAP layers are kept as their texts.
#[derive(Debug)]
pub enum SessionError {
    TlsConnectError(String),
    TcpConnectError(String),
    ParseMessageError(ParseMessageError),
    MessageNotFound(Uid),
    BrokenStream(String),
    ConnectionLost,
    ParseServerResponseError(String),
    Other(String),
}

/// How a session error is told to a reader.
pub open spec fn session_error_text(e: SessionError) -> Seq<char> {
    match e {
        SessionError::TlsConnectError(t) => "Could not connect to an address using a TlsConnector: '"@
            + t@ + "'"@,
        SessionError::TcpConnectError(t) => "Could not connect to an address using a TcpStream: '"@
            + t@ + "'"@,
        SessionError::ParseMessageError(p) => parse_message_error_text(p),
        SessionError::MessageNotFound(uid) => "Message with Uid '"@ + uid.text()
            + "' not found. The UIDVALIDITY of the mailbox was probably changed."@,
        SessionError::BrokenStream(t) => "Error reading from inner stream, connection might be lost: '"@
            + t@ + "'"@,
        SessionError::ConnectionLost => "Connection to the IMAP server was lost"@,
        SessionError::ParseServerResponseError(t) => "Could not parse server response: '"@ + t@
            + "'"@,
        SessionError::Other(t) => t@,
    }
}

/// The session error that an error of the IMAP client becomes: I/O errors become
/// `BrokenStream`, a lost connection `ConnectionLost`, parse errors
/// `ParseServerResponseError`, any other error `Other`, each keeping its text.
pub open spec fn session_error_of(e: ImapError) -> SessionError {
    match e {
        ImapError::Io(t) => SessionError::BrokenStream(t),
        ImapError::ConnectionLost => SessionError::ConnectionLost,
        ImapError::Parse(t) => SessionError::ParseServerResponseError(t),
        ImapError::Other(t) => SessionError::Other(t),
    }
}

impl From<ImapError> for SessionError {
    fn from(value: ImapError) -> (e: SessionError) {
        match value {
            ImapError::Io(t) => SessionError::BrokenStream(t),
            ImapError::ConnectionLost => SessionError::ConnectionLost,
            ImapError::Parse(t) => SessionError::ParseServerResponseError(t),
            ImapError::Other(t) => SessionError::Other(t),
        }
    }
}

impl FromSpecImpl<ImapError> for SessionError {
    open spec fn obeys_from_spec() -> bool {
        true
    }

    open spec fn from_spec(v: ImapError) -> SessionError {
        session_error_of(v)
    }
}

impl From<ParseMessageError> for SessionError {
    fn from(value: ParseMessageError) -> (e: SessionError) {
        SessionError::ParseMessageError(value)
    }
}

impl FromSpecImpl<ParseMessageError> for SessionError {
    open spec fn obeys_from_spec() -> bool {
        true
    }

    open spec fn from_spec(v: ParseMessageError) -> SessionError {
        SessionError::ParseMessageError(v)
    }
}

impl SessionError {
    /// Whether the error says that no message has the requested UID.
    pub fn is_message_not_found(&self) -> (b: bool)
        ensures
            b <==> self is MessageNotFound,
    {
        match self {
            SessionError::MessageNotFound(_) => true,
            _ => false,
        }
    }

    /// How the error is told to a reader.
    pub fn to_string(&self) -> (s: String)
        ensures
            s@ == session_error_text(*self),
    {
        let quoted = |prefix: &str, t: &String| -> (s: String)
            ensures
                s@ == prefix@ + t@ + "'"@,
            {
                let mut s = String::from_str(prefix);
                s.append(t.as_str());
                s.append("'");
                s
            };
        match self {
            SessionError::TlsConnectError(t) => quoted(
                "Could not connect to an address using a TlsConnector: '",
                t,
            ),
            SessionError::TcpConnectError(t) => quoted(
                "Could not connect to an address using a TcpStream: '",
                t,
            ),
            SessionError::ParseMessageError(p) => p.to_string(),
            SessionError::MessageNotFound(uid) => {
                let mut s = String::from_str("Message with Uid '");
                let u = uid.to_string();
                s.append(u.as_str());
                s.append("' not found. The UIDVALIDITY of the mailbox was probably changed.");
                s
            },
            SessionError::BrokenStream(t) => quoted(
                "Error reading from inner stream, connection might be lost: '",
                t,
            ),
            SessionError::ConnectionLost => String::from_str("Connection to the IMAP server was lost"),
            SessionError::ParseServerResponseError(t) => quoted(
                "Could not parse server response: '",
                t,
            ),
            SessionError::Other(t) => t.clone(),
        }
    }
}

} // verus!
