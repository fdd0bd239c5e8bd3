use chat_gate::lex::{parse_i64, parse_u64, tokenize};
use chat_gate::roles::Role;
use chat_gate::router::{
    bad_count_text, bytes_eq, command_denied_text, denied_text, fetch_replies, handle_default,
    not_found_text, route, usage_text, Command, DefaultDecision,
};

#[test]
fn tokenize_splits_on_ascii_whitespace() {
    let toks = tokenize(b"  alice \t 5 \n");
    assert_eq!(toks, vec![b"alice".to_vec(), b"5".to_vec()]);
    assert!(tokenize(b"").is_empty());
    assert!(tokenize(b" \t\r\n ").is_empty());
    assert_eq!(tokenize(b"one"), vec![b"one".to_vec()]);
}

#[test]
fn route_matches_on_first_token() {
    assert_eq!(route(b"/status"), Command::Status);
    assert_eq!(route(b"  /status  extra"), Command::Status);
    assert_eq!(route(b"/request_access"), Command::RequestAccess);
    assert_eq!(route(b"/allow 42"), Command::Allow { target: 42 });
    assert_eq!(route(b"/allow -77"), Command::Allow { target: -77 });
    assert_eq!(route(b"/allow"), Command::AllowInvalid);
    assert_eq!(route(b"/allow abc"), Command::AllowInvalid);
    assert_eq!(route(b"/allow 4 5"), Command::AllowInvalid);
    assert_eq!(route(b"/allowx 4"), Command::FreeText);
    assert_eq!(route(b"alice 5"), Command::FreeText);
    assert_eq!(route(b""), Command::FreeText);
}

#[test]
fn default_handler_two_tokens_uses_given_count() {
    match handle_default(Role::Allowed, b"alice 5") {
        DefaultDecision::Fetch { target, count, count_defaulted } => {
            assert_eq!(target, b"alice".to_vec());
            assert_eq!(count, 5);
            assert!(!count_defaulted);
        }
        _ => panic!("expected a fetch"),
    }
}

#[test]
fn default_handler_one_token_uses_default_count() {
    match handle_default(Role::Allowed, b"alice") {
        DefaultDecision::Fetch { target, count, count_defaulted } => {
            assert_eq!(target, b"alice".to_vec());
            assert_eq!(count, 10);
            assert!(!count_defaulted);
        }
        _ => panic!("expected a fetch"),
    }
}

#[test]
fn default_handler_bad_count_warns_and_defaults() {
    match handle_default(Role::Allowed, b"alice five") {
        DefaultDecision::Fetch { target, count, count_defaulted } => {
            assert_eq!(target, b"alice".to_vec());
            assert_eq!(count, 10);
            assert!(count_defaulted);
        }
        _ => panic!("expected a fetch"),
    }
}

#[test]
fn default_handler_three_tokens_is_usage_error() {
    assert!(matches!(
        handle_default(Role::Allowed, b"alice 5 extra"),
        DefaultDecision::UsageError
    ));
    assert!(matches!(handle_default(Role::Admin, b""), DefaultDecision::UsageError));
}

#[test]
fn default_handler_denies_not_allowed_sender() {
    assert!(matches!(handle_default(Role::NotAllowed, b"alice 5"), DefaultDecision::Deny));
    assert!(matches!(handle_default(Role::NotAllowed, b""), DefaultDecision::Deny));
    assert!(matches!(
        handle_default(Role::NotAllowed, b"anything at all here"),
        DefaultDecision::Deny
    ));
}

#[test]
fn admin_passes_default_handler_gate() {
    match handle_default(Role::Admin, b"bob 3") {
        DefaultDecision::Fetch { target, count, count_defaulted } => {
            assert_eq!(target, b"bob".to_vec());
            assert_eq!(count, 3);
            assert!(!count_defaulted);
        }
        _ => panic!("expected a fetch"),
    }
}

#[test]
fn parse_u64_accepts_digits_only() {
    assert_eq!(parse_u64(b"0"), Some(0));
    assert_eq!(parse_u64(b"007"), Some(7));
    assert_eq!(parse_u64(b"18446744073709551615"), Some(u64::MAX));
    assert_eq!(parse_u64(b"18446744073709551616"), None);
    assert_eq!(parse_u64(b""), None);
    assert_eq!(parse_u64(b"12a"), None);
    assert_eq!(parse_u64(b"-1"), None);
}

#[test]
fn parse_i64_accepts_signed_decimals() {
    assert_eq!(parse_i64(b"42"), Some(42));
    assert_eq!(parse_i64(b"-5"), Some(-5));
    assert_eq!(parse_i64(b"9223372036854775807"), Some(i64::MAX));
    assert_eq!(parse_i64(b"-9223372036854775808"), Some(i64::MIN));
    assert_eq!(parse_i64(b"9223372036854775808"), None);
    assert_eq!(parse_i64(b"-9223372036854775809"), None);
    assert_eq!(parse_i64(b"-"), None);
    assert_eq!(parse_i64(b"--1"), None);
    assert_eq!(parse_i64(b""), None);
}

#[test]
fn fetch_replies_not_found_is_single_message() {
    let r = fetch_replies(None);
    assert_eq!(r, vec!["User not found".to_string()]);
}

#[test]
fn fetch_replies_one_per_link_in_order() {
    let links = vec!["https://a".to_string(), "https://b".to_string()];
    let r = fetch_replies(Some(links.clone()));
    assert_eq!(r, links);
}

#[test]
fn fixed_reply_texts() {
    assert_eq!(
        denied_text(),
        "You are not allowed to use this bot. Please /request_access to continue."
    );
    assert_eq!(usage_text(), "invalid number of arguments: usage: [username] ([number_to_scrape]=10)");
    assert_eq!(bad_count_text(), "invalid number_to_scrape, using default (10)");
    assert_eq!(not_found_text(), "User not found");
    assert_eq!(command_denied_text(), "You are not allowed to use this command.");
}

#[test]
fn bytes_eq_compares_contents() {
    assert!(bytes_eq(b"abc", b"abc"));
    assert!(!bytes_eq(b"abc", b"abd"));
    assert!(!bytes_eq(b"abc", b"ab"));
    assert!(bytes_eq(b"", b""));
}
