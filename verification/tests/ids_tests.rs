use zkp_auth::ids::{auth_id_text, default_hash, identify, parse_auth_id, random_string};

#[test]
fn identify_is_deterministic() {
    assert_eq!(identify("alice"), identify("alice"));
    assert_eq!(identify(""), identify(""));
}

#[test]
fn identify_tells_names_apart() {
    assert_ne!(identify("alice"), identify("bob"));
    assert_ne!(identify("alice"), identify("alice\n"));
    assert_ne!(identify("ab"), identify("ba"));
}

#[test]
fn default_hash_is_the_identifier() {
    for name in ["alice", "bob", "", "a longer name with spaces"] {
        assert_eq!(default_hash(name).to_u64(), Some(identify(name)));
    }
}

#[test]
fn auth_id_text_is_hexadecimal() {
    assert_eq!(auth_id_text(0), "0");
    assert_eq!(auth_id_text(255), "ff");
    assert_eq!(auth_id_text(u64::MAX), "ffffffffffffffff");
    assert_eq!(auth_id_text(identify("alice")), default_hash("alice").to_hex());
}

#[test]
fn parse_auth_id_reads_what_auth_id_text_writes() {
    for id in [0u64, 1, 255, 1 << 40, u64::MAX, identify("alice")] {
        assert_eq!(parse_auth_id(&auth_id_text(id)), Some(id));
    }
}

#[test]
fn parse_auth_id_rejects_other_text() {
    assert_eq!(parse_auth_id(""), None);
    assert_eq!(parse_auth_id("UserNotRegistered"), None);
    assert_eq!(parse_auth_id("xyz"), None);
    // not the text that is written for 255
    assert_eq!(parse_auth_id("FF"), None);
    assert_eq!(parse_auth_id("0ff"), None);
    assert_eq!(parse_auth_id("+ff"), None);
    assert_eq!(parse_auth_id("f_f"), None);
    // out of range
    assert_eq!(parse_auth_id("-1"), None);
    assert_eq!(parse_auth_id("10000000000000000"), None);
}

#[test]
fn random_string_is_seven_letters_or_digits() {
    for _ in 0..100 {
        let token = random_string();
        assert_eq!(token.chars().count(), 7);
        assert!(token.chars().all(|c| c.is_ascii_alphanumeric()));
    }
}

#[test]
fn random_string_varies() {
    let first = random_string();
    assert!((0..20).any(|_| random_string() != first));
}
