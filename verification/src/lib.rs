//! Typed building blocks of an IMAP session: search queries, message flags,
//! UIDs, message parsing and the decisions each session operation makes.

mod date;
mod error;
mod flag;
mod message;
mod query;
mod session;
mod text;
mod uid;

pub use date::{
    Date, DateTime, IMAP_DATE_FORMAT, MAX_YEAR, MIN_YEAR, datetime_reading, days_in_month,
    lemma_imap_text_shape, lemma_month_abbreviation, month_of_abbreviation,
    imap_date_text, is_leap_year, month_abbreviation, parse_datetime, rfc2822_utc, rfc3339_utc,
    valid_ymd, year_text, zero_pad,
};
pub use error::{ImapError, SessionError, session_error_of, session_error_text};
pub use flag::{Flag, flag_search_key, flag_text, keyword_atom, lemma_keyword_atom, same_flag};
pub use message::{
    Address, Envelope, FetchData, Message, ParseMessageError, address_field_text,
    address_from_parts, address_text, address_to_text, addresses_text, join_present,
    join_present_texts, lemma_address_text_exists, lemma_addresses_text_exists,
    lemma_join_present_exists, lemma_join_present_keeps_every_text, lemma_join_two_present,
    lemma_parsed_message_keeps_answer, lossy_field, present_texts, parse_address, parse_message,
    parse_message_error_text, parses_to, parts_text, send_date_of, text_of, texts_of,
};
pub use query::{Component, Query, render};
pub use session::{
    Command, ConnectionConfig, Credentials, FETCH_QUERY, MailboxAccess, MailboxOperation,
    add_flags_query, add_flags_text, fetch_outcome, fetch_result, flag_texts, free_of, join,
    lemma_add_flags_only_adds, lemma_client_error_is_not_not_found,
    lemma_fetched_message_is_the_parse,
    lemma_fetched_message_keeps_uid,
    lemma_no_answer_is_not_found, lemma_sequence_set_injective, plan_fetch_one, plan_search,
    plan_set_flags, sequence_set, sequence_set_text, uid_texts, uids_from_search,
};
pub use text::{
    all_digits, decimal, digit_char, digits_value, is_digit, is_white_space, lemma_decimal_digits,
    lemma_decimal_injective, lemma_decimal_reads_back, lemma_decimal_value, u32_text_value,
    lemma_spaces_to_dashes, lemma_trim_ends, push_decimal, spaces_to_dashes, trim, trim_end,
    trim_start, utf8_lossy,
};
pub use uid::Uid;
