use rustysignal::handshake::claimed_user;

#[test]
fn user_claim_is_read() {
    assert_eq!(claimed_user("/?user=alice"), Some("alice".to_string()));
    assert_eq!(claimed_user("/signal/?user=bob"), Some("bob".to_string()));
    assert_eq!(claimed_user("?user=carol"), Some("carol".to_string()));
}

#[test]
fn claim_stops_at_the_next_separator() {
    assert_eq!(claimed_user("/?user=alice&room=7"), Some("alice".to_string()));
    assert_eq!(claimed_user("/?user=a=b"), Some("a".to_string()));
    assert_eq!(claimed_user("/?user=a?b"), Some("a".to_string()));
}

#[test]
fn claim_is_taken_as_it_stands() {
    assert_eq!(claimed_user("/?user=Alice%20B"), Some("Alice%20B".to_string()));
    assert_eq!(claimed_user("/?user= x "), Some(" x ".to_string()));
    assert_eq!(claimed_user("/?user=\u{e9}l\u{e8}ve"), Some("\u{e9}l\u{e8}ve".to_string()));
    assert_eq!(claimed_user("/\u{e9}?user=z"), Some("z".to_string()));
}

#[test]
fn empty_name_is_a_claim() {
    assert_eq!(claimed_user("/?user="), Some(String::new()));
    assert_eq!(claimed_user("/?user=&x=1"), Some(String::new()));
}

#[test]
fn user_claim_counts_wherever_it_stands() {
    assert_eq!(claimed_user("/?room=7&user=alice"), Some("alice".to_string()));
    assert_eq!(claimed_user("/?room=1&user=alice"), Some("alice".to_string()));
    assert_eq!(claimed_user("/?a=1&b=2&user=carol&c=3"), Some("carol".to_string()));
    assert_eq!(claimed_user("/?flag&user=alice"), Some("alice".to_string()));
    assert_eq!(claimed_user("/?&user=alice"), Some("alice".to_string()));
    assert_eq!(claimed_user("/?a=&user=alice"), Some("alice".to_string()));
    assert_eq!(claimed_user("/?room=1=2&user=alice"), Some("alice".to_string()));
    assert_eq!(claimed_user("/?room=7&user="), Some(String::new()));
}

#[test]
fn first_user_parameter_counts() {
    assert_eq!(claimed_user("/?user=alice&user=bob"), Some("alice".to_string()));
    assert_eq!(claimed_user("/?x=1&user=alice&user=bob"), Some("alice".to_string()));
    assert_eq!(claimed_user("/?user&user=bob"), Some("bob".to_string()));
    assert_eq!(claimed_user("/?users=alice&user=bob"), Some("bob".to_string()));
    assert_eq!(claimed_user("/?User=alice&user=bob"), Some("bob".to_string()));
    assert_eq!(claimed_user("/?use&user=bob"), Some("bob".to_string()));
}

#[test]
fn no_claim_without_user_parameter() {
    assert_eq!(claimed_user("/"), None);
    assert_eq!(claimed_user(""), None);
    assert_eq!(claimed_user("/?"), None);
    assert_eq!(claimed_user("/?user"), None);
    assert_eq!(claimed_user("/?room=7"), None);
    assert_eq!(claimed_user("/?room=7&user"), None);
    assert_eq!(claimed_user("/?User=alice"), None);
    assert_eq!(claimed_user("/?users=alice"), None);
    assert_eq!(claimed_user("/?xuser=alice"), None);
    assert_eq!(claimed_user("/?room=user=alice"), None);
    assert_eq!(claimed_user("/?a=b?user=alice"), None);
}

#[test]
fn no_claim_without_query() {
    assert_eq!(claimed_user("user=alice"), None);
    assert_eq!(claimed_user("/user=alice"), None);
    assert_eq!(claimed_user("/&user=alice"), None);
    assert_eq!(claimed_user("/=user=alice"), None);
}

#[test]
fn query_starts_at_the_first_question_mark() {
    assert_eq!(claimed_user("/user=bob?user=alice"), Some("alice".to_string()));
    assert_eq!(claimed_user("/a&user=bob?x=1&user=alice"), Some("alice".to_string()));
    assert_eq!(claimed_user("/?x?user=alice"), None);
    assert_eq!(claimed_user("/&user?alice"), None);
}
