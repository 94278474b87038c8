use imap_session::{Date, Flag, Query};

fn jan_12_2024() -> Date {
    Date::from_ymd_opt(2024, 1, 12).unwrap()
}

#[test]
fn nested_or_and_query() {
    let query = Query::or(
        Query::flag(Flag::Flagged),
        Query::or(
            Query::flag(Flag::Draft),
            Query::and(Query::flag(Flag::custom("custom flag")), Query::flag(Flag::Seen)),
        ),
    );

    assert_eq!("OR (FLAGGED) (OR (DRAFT) (KEYWORD custom-flag SEEN))", query.to_string());
}

#[test]
fn negated_custom_flag() {
    let query = !Query::flag(Flag::custom("testflag1"));
    assert_eq!("NOT (KEYWORD testflag1)", query.to_string());
}

#[test]
fn negated_conjunction() {
    let query = !Query::and(Query::flag(Flag::custom("testflag1")), Query::flag(Flag::Seen));
    assert_eq!("NOT (KEYWORD testflag1 SEEN)", query.to_string());
}

#[test]
fn since_date() {
    let query = Query::and(!Query::flag(Flag::custom("testflag1")), Query::since(jan_12_2024()));
    assert_eq!("NOT (KEYWORD testflag1) SINCE 12-Jan-2024", query.to_string());
}

#[test]
fn unseen_query() {
    let query = Query::and(!Query::flag(Flag::custom("testflag1")), Query::unseen());
    assert_eq!("NOT (KEYWORD testflag1) UNSEEN", query.to_string());
}

#[test]
fn before_date() {
    let query = Query::and(!Query::flag(Flag::custom("testflag1")), Query::before(jan_12_2024()));
    assert_eq!("NOT (KEYWORD testflag1) BEFORE 12-Jan-2024", query.to_string());
}

#[test]
fn system_flags_as_search_keys() {
    let cases = vec![
        (Flag::Seen, "SEEN"),
        (Flag::Answered, "ANSWERED"),
        (Flag::Flagged, "FLAGGED"),
        (Flag::Deleted, "DELETED"),
        (Flag::Draft, "DRAFT"),
        (Flag::Recent, "RECENT"),
        (Flag::MayCreate, "KEYWORD *"),
    ];
    for (flag, key) in cases {
        assert_eq!(Query::flag(flag).to_string(), key);
    }
}

#[test]
fn custom_flag_key_is_one_atom() {
    let query = Query::flag(Flag::custom("  my  odd flag\t\n"));
    assert_eq!(query.to_string(), "KEYWORD my--odd-flag");

    let query = Query::flag(Flag::custom(" \u{3000}\u{2009}"));
    assert_eq!(query.to_string(), "KEYWORD ");

    let query = Query::flag(Flag::custom("a\tb"));
    assert_eq!(query.to_string(), "KEYWORD a\tb");

    let query = Query::flag(Flag::custom(String::from("über flag")));
    assert_eq!(query.to_string(), "KEYWORD über-flag");
}

#[test]
fn conjunction_joins_with_a_space() {
    let left = Query::or(Query::unseen(), Query::flag(Flag::Draft));
    let right = !Query::flag(Flag::Answered);
    let l = left.to_string();
    let r = right.to_string();
    assert_eq!(Query::and(left, right).to_string(), format!("{l} {r}"));
}

#[test]
fn cloned_query_renders_the_same() {
    let query = Query::and(Query::flag(Flag::custom("x y")), !Query::since(jan_12_2024()));
    let copy = query.clone();
    assert_eq!(copy.to_string(), query.to_string());
    assert_eq!(copy.to_string(), "KEYWORD x-y NOT (SINCE 12-Jan-2024)");
}

#[test]
fn flags_as_store_writes_them() {
    assert_eq!(Flag::Seen.to_string(), "\\Seen");
    assert_eq!(Flag::Answered.to_string(), "\\Answered");
    assert_eq!(Flag::Flagged.to_string(), "\\Flagged");
    assert_eq!(Flag::Deleted.to_string(), "\\Deleted");
    assert_eq!(Flag::Draft.to_string(), "\\Draft");
    assert_eq!(Flag::Recent.to_string(), "\\Recent");
    assert_eq!(Flag::MayCreate.to_string(), "\\*");
    assert_eq!(Flag::custom(" keep as is ").to_string(), " keep as is ");
}
