use vstd::prelude::*;
use vstd::std_specs::convert::FromSpecImpl;
use crate::text::{decimal, lemma_decimal_reads_back, parse_u32, push_decimal, u32_text_value};

verus! {

/// An IMAP message unique identifier.
#[derive(Clone, Copy, Debug, PartialEq, Eq, Hash, Structural)]
pub struct Uid(u32);

impl Uid {
    /// The number this identifier stands for.
    pub closed spec fn spec_value(self) -> u32 {
        self.0
    }

    /// The number this identifier stands for.
    pub fn value(&self) -> (r: u32)
        ensures
            r == self.spec_value(),
    {
        self.0
    }

    /// The identifier as IMAP writes it: its number in decimal.
    pub open spec fn text(self) -> Seq<char> {
        decimal(self.spec_value() as nat)
    }

    /// The decimal rendering of the identifier.
    pub fn to_string(&self) -> (s: String)
        ensures
            s@ == self.text(),
    {
        let mut s = String::new();
        push_decimal(self.0, &mut s);
        s
    }
}

impl Uid {
    /// Reads a UID from its decimal text, as `u32::from_str` reads numbers.
    pub fn parse(s: &str) -> (r: Result<Uid, core::num::ParseIntError>)
        ensures
            r is Ok <==> u32_text_value(s@) is Some,
            r matches Ok(u) ==> u32_text_value(s@) == Some(u.spec_value()),
    {
        match parse_u32(s) {
            Ok(v) => Ok(Uid(v)),
            Err(e) => Err(e),
        }
    }

    /// Reading back the text of a UID gives the same UID.
    pub proof fn lemma_text_reads_back(u: Uid)
        ensures
            u32_text_value(u.text()) == Some(u.spec_value()),
    {
        lemma_decimal_reads_back(u.spec_value());
    }
}

impl core::str::FromStr for Uid {
    type Err = core::num::ParseIntError;

    fn from_str(s: &str) -> (r: Result<Uid, core::num::ParseIntError>)
        ensures
            r is Ok <==> u32_text_value(s@) is Some,
            r matches Ok(u) ==> u32_text_value(s@) == Some(u.spec_value()),
    {
        Uid::parse(s)
    }
}

impl From<u32> for Uid {
    fn from(value: u32) -> (r: Uid) {
        Uid(value)
    }
}

impl FromSpecImpl<u32> for Uid {
    open spec fn obeys_from_spec() -> bool {
        true
    }

    open spec fn from_spec(v: u32) -> Uid {
        Uid::from_value(v)
    }
}

impl Uid {
    /// The identifier of the given number.
    pub closed spec fn from_value(v: u32) -> Uid {
        Uid(v)
    }

    /// Identifiers with the same number are the same identifier.
    pub proof fn lemma_value_injective(a: Uid, b: Uid)
        requires
            a.spec_value() == b.spec_value(),
        ensures
            a == b,
    {
    }

    /// An identifier holds exactly the number it was made from.
    pub proof fn lemma_from_value(v: u32)
        ensures
            Uid::from_value(v).spec_value() == v,
    {
    }
}

} // verus!
