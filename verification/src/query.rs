use vstd::prelude::*;
use vstd::std_specs::ops::NotSpecImpl;
use crate::date::Date;
use crate::flag::{Flag, flag_search_key};

verus! {

/// One node of a search query.
#[derive(Debug)]
pub enum Component {
    And(Box<Component>, Box<Component>),
    Or(Box<Component>, Box<Component>),
    Not(Box<Component>),
    Flag(Flag),
    Unseen,
    Since(Date),
    Before(Date),
}

/// The IMAP search criteria a component stands for (RFC 3501, section 6.4.4):
/// a conjunction is its two sides one after the other, a disjunction is `OR` with both
/// sides in parentheses, a negation is `NOT` with its operand in parentheses.
pub open spec fn render(c: Component) -> Seq<char>
    decreases c,
{
    match c {
        Component::And(l, r) => render(*l) + " "@ + render(*r),
        Component::Or(l, r) => "OR ("@ + render(*l) + ") ("@ + render(*r) + ")"@,
        Component::Not(v) => "NOT ("@ + render(*v) + ")"@,
        Component::Flag(f) => flag_search_key(f),
        Component::Unseen => "UNSEEN"@,
        Component::Since(d) => "SINCE "@ + d.imap_text(),
        Component::Before(d) => "BEFORE "@ + d.imap_text(),
    }
}

impl Clone for Component {
    fn clone(&self) -> (c: Component)
        ensures
            render(c) == render(*self),
        decreases self,
    {
        match self {
            Component::And(l, r) => Component::And(Box::new((**l).clone()), Box::new((**r).clone())),
            Component::Or(l, r) => Component::Or(Box::new((**l).clone()), Box::new((**r).clone())),
            Component::Not(v) => Component::Not(Box::new((**v).clone())),
            Component::Flag(f) => Component::Flag(f.clone()),
            Component::Unseen => Component::Unseen,
            Component::Since(d) => Component::Since(*d),
            Component::Before(d) => Component::Before(*d),
        }
    }
}

/// Appends the criteria of `c` to `out`.
fn push_component(c: &Component, out: &mut String)
    ensures
        final(out)@ == old(out)@ + render(*c),
    decreases c,
{
    let ghost start = out@;
    match c {
        Component::And(l, r) => {
            push_component(l, out);
            out.append(" ");
            push_component(r, out);
        },
        Component::Or(l, r) => {
            out.append("OR (");
            push_component(l, out);
            out.append(") (");
            push_component(r, out);
            out.append(")");
        },
        Component::Not(v) => {
            out.append("NOT (");
            push_component(v, out);
            out.append(")");
        },
        Component::Flag(f) => {
            f.push_search_key(out);
        },
        Component::Unseen => {
            out.append("UNSEEN");
        },
        Component::Since(d) => {
            out.append("SINCE ");
            let t = d.to_imap_string();
            out.append(t.as_str());
        },
        Component::Before(d) => {
            out.append("BEFORE ");
            let t = d.to_imap_string();
            out.append(t.as_str());
        },
    }
    assert(out@ =~= start + render(*c));
}

/// A typed IMAP search query (RFC 3501, section 6.4.4).
#[derive(Debug, Clone)]
pub struct Query(Component);

impl Query {
    /// The tree of criteria the query holds.
    pub closed spec fn component(self) -> Component {
        self.0
    }

    /// The query as the `SEARCH` command writes it.
    pub open spec fn text(self) -> Seq<char> {
        render(self.component())
    }

    /// The query that matches messages with the flag.
    pub closed spec fn spec_flag(value: Flag) -> Query {
        Query(Component::Flag(value))
    }

    /// The query that matches messages sent on or after the date.
    pub closed spec fn spec_since(value: Date) -> Query {
        Query(Component::Since(value))
    }

    /// The query that matches messages sent before the date.
    pub closed spec fn spec_before(value: Date) -> Query {
        Query(Component::Before(value))
    }

    /// The query that matches messages without the `\Seen` flag.
    pub closed spec fn spec_unseen() -> Query {
        Query(Component::Unseen)
    }

    /// The query that matches what both queries match.
    pub closed spec fn spec_and(left: Query, right: Query) -> Query {
        Query(Component::And(Box::new(left.0), Box::new(right.0)))
    }

    /// The query that matches what either query matches.
    pub closed spec fn spec_or(left: Query, right: Query) -> Query {
        Query(Component::Or(Box::new(left.0), Box::new(right.0)))
    }

    /// The query that matches what the query does not match.
    pub closed spec fn spec_not(value: Query) -> Query {
        Query(Component::Not(Box::new(value.0)))
    }

    /// Matches messages with the flag.
    pub fn flag(value: Flag) -> (q: Query)
        ensures
            q == Query::spec_flag(value),
    {
        Query(Component::Flag(value))
    }

    /// Matches messages sent on or after the date.
    pub fn since(value: Date) -> (q: Query)
        ensures
            q == Query::spec_since(value),
    {
        Query(Component::Since(value))
    }

    /// Matches messages sent before the date.
    pub fn before(value: Date) -> (q: Query)
        ensures
            q == Query::spec_before(value),
    {
        Query(Component::Before(value))
    }

    /// Matches messages without the `\Seen` flag.
    pub fn unseen() -> (q: Query)
        ensures
            q == Query::spec_unseen(),
    {
        Query(Component::Unseen)
    }

    /// Matches what both queries match.
    pub fn and(left: Query, right: Query) -> (q: Query)
        ensures
            q == Query::spec_and(left, right),
    {
        Query(Component::And(Box::new(left.0), Box::new(right.0)))
    }

    /// Matches what either query matches.
    pub fn or(left: Query, right: Query) -> (q: Query)
        ensures
            q == Query::spec_or(left, right),
    {
        Query(Component::Or(Box::new(left.0), Box::new(right.0)))
    }

    /// The query as the `SEARCH` command writes it.
    pub fn to_string(&self) -> (s: String)
        ensures
            s@ == self.text(),
    {
        let mut s = String::new();
        push_component(&self.0, &mut s);
        s
    }
}

impl Query {
    /// A conjunction is written as its two sides separated by a space.
    pub proof fn lemma_and_text(left: Query, right: Query)
        ensures
            Query::spec_and(left, right).text() == left.text() + " "@ + right.text(),
    {
    }

    /// A disjunction is written `OR (<left>) (<right>)`.
    pub proof fn lemma_or_text(left: Query, right: Query)
        ensures
            Query::spec_or(left, right).text() == "OR ("@ + left.text() + ") ("@ + right.text()
                + ")"@,
    {
    }

    /// A negation is written `NOT (<operand>)`.
    pub proof fn lemma_not_text(value: Query)
        ensures
            Query::spec_not(value).text() == "NOT ("@ + value.text() + ")"@,
    {
    }

    /// A flag query is written as the flag's search key.
    pub proof fn lemma_flag_text(value: Flag)
        ensures
            Query::spec_flag(value).text() == flag_search_key(value),
    {
    }

    /// The unseen query is written `UNSEEN`.
    pub proof fn lemma_unseen_text()
        ensures
            Query::spec_unseen().text() == "UNSEEN"@,
    {
    }

    /// Date queries are written `SINCE <date>` and `BEFORE <date>`, the date as
    /// `12-Jan-2024`.
    pub proof fn lemma_date_texts(value: Date)
        ensures
            Query::spec_since(value).text() == "SINCE "@ + value.imap_text(),
            Query::spec_before(value).text() == "BEFORE "@ + value.imap_text(),
    {
    }
}

impl core::ops::Not for Query {
    type Output = Query;

    /// Matches what the query does not match.
    fn not(self) -> (q: Query) {
        Query(Component::Not(Box::new(self.0)))
    }
}

impl NotSpecImpl for Query {
    open spec fn obeys_not_spec() -> bool {
        true
    }

    open spec fn not_req(self) -> bool {
        true
    }

    open spec fn not_spec(self) -> Query {
        Query::spec_not(self)
    }
}

} // verus!
