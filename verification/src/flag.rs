use vstd::prelude::*;
use vstd::std_specs::convert::IntoSpec;
use crate::text::{
    is_white_space, lemma_spaces_to_dashes, lemma_trim_ends, push_trimmed_dashed, spaces_to_dashes,
    trim,
};

verus! {

/// The flags that can be set on a message (RFC 9051, section 2.3.2).
#[derive(Debug)]
pub enum Flag {
    Seen,
    Answered,
    Flagged,
    Deleted,
    Draft,
    Recent,
    MayCreate,
    Custom(String),
}

/// How a flag is written in a `STORE` command: the system flags with their
/// backslash, `\*` for "may create", a custom flag verbatim.
pub open spec fn flag_text(f: Flag) -> Seq<char> {
    match f {
        Flag::Seen => "\\Seen"@,
        Flag::Answered => "\\Answered"@,
        Flag::Flagged => "\\Flagged"@,
        Flag::Deleted => "\\Deleted"@,
        Flag::Draft => "\\Draft"@,
        Flag::Recent => "\\Recent"@,
        Flag::MayCreate => "\\*"@,
        Flag::Custom(v) => v@,
    }
}

/// The atom under which a custom flag is searched: the value without
/// surrounding white space and with its spaces turned into dashes.
pub open spec fn keyword_atom(v: Seq<char>) -> Seq<char> {
    spaces_to_dashes(trim(v))
}

/// How a flag is written as an IMAP search key.
pub open spec fn flag_search_key(f: Flag) -> Seq<char> {
    match f {
        Flag::Seen => "SEEN"@,
        Flag::Answered => "ANSWERED"@,
        Flag::Flagged => "FLAGGED"@,
        Flag::Deleted => "DELETED"@,
        Flag::Draft => "DRAFT"@,
        Flag::Recent => "RECENT"@,
        Flag::MayCreate => "KEYWORD *"@,
        Flag::Custom(v) => "KEYWORD "@ + keyword_atom(v@),
    }
}

/// Whether two flags are the same flag: the same variant, and for custom flags the
/// same text.
pub open spec fn same_flag(a: Flag, b: Flag) -> bool {
    match (a, b) {
        (Flag::Custom(x), Flag::Custom(y)) => x@ == y@,
        _ => a == b,
    }
}

/// The search atom of a custom flag is one IMAP atom: it holds no space, and it neither
/// starts nor ends with white space.
pub proof fn lemma_keyword_atom(v: Seq<char>)
    ensures
        forall|i: int| 0 <= i < keyword_atom(v).len() ==> #[trigger] keyword_atom(v)[i] != ' ',
        keyword_atom(v).len() > 0 ==> !is_white_space(keyword_atom(v)[0]) && !is_white_space(
            keyword_atom(v).last(),
        ),
{
    lemma_trim_ends(v);
    lemma_spaces_to_dashes(trim(v));
    if keyword_atom(v).len() > 0 {
        let t = trim(v);
        assert(t[0] != ' ');
        assert(keyword_atom(v)[0] == t[0]);
        assert(t[t.len() - 1] != ' ');
        assert(keyword_atom(v)[t.len() - 1] == t[t.len() - 1]);
    }
}

impl Clone for Flag {
    fn clone(&self) -> (f: Flag)
        ensures
            same_flag(f, *self),
    {
        match self {
            Flag::Seen => Flag::Seen,
            Flag::Answered => Flag::Answered,
            Flag::Flagged => Flag::Flagged,
            Flag::Deleted => Flag::Deleted,
            Flag::Draft => Flag::Draft,
            Flag::Recent => Flag::Recent,
            Flag::MayCreate => Flag::MayCreate,
            Flag::Custom(v) => Flag::Custom(v.clone()),
        }
    }
}

impl Flag {
    /// A custom flag holding the given value.
    pub fn custom<T: Into<String>>(value: T) -> (f: Flag)
        ensures
            f is Custom,
            <T as IntoSpec<String>>::obeys_into_spec() ==> f == Flag::Custom(value.into_spec()),
    {
        Flag::Custom(value.into())
    }

    /// The flag as a `STORE` command writes it.
    pub fn to_string(&self) -> (s: String)
        ensures
            s@ == flag_text(*self),
    {
        match self {
            Flag::Seen => String::from_str("\\Seen"),
            Flag::Answered => String::from_str("\\Answered"),
            Flag::Flagged => String::from_str("\\Flagged"),
            Flag::Deleted => String::from_str("\\Deleted"),
            Flag::Draft => String::from_str("\\Draft"),
            Flag::Recent => String::from_str("\\Recent"),
            Flag::MayCreate => String::from_str("\\*"),
            Flag::Custom(v) => v.clone(),
        }
    }

    /// Appends the flag, written as an IMAP search key, to `out`.
    pub fn push_search_key(&self, out: &mut String)
        ensures
            final(out)@ == old(out)@ + flag_search_key(*self),
    {
        match self {
            Flag::Seen => out.append("SEEN"),
            Flag::Answered => out.append("ANSWERED"),
            Flag::Flagged => out.append("FLAGGED"),
            Flag::Deleted => out.append("DELETED"),
            Flag::Draft => out.append("DRAFT"),
            Flag::Recent => out.append("RECENT"),
            Flag::MayCreate => out.append("KEYWORD *"),
            Flag::Custom(v) => {
                out.append("KEYWORD ");
                push_trimmed_dashed(v.as_str(), out);
                assert(final(out)@ =~= old(out)@ + flag_search_key(*self));
            },
        }
    }
}

} // verus!
