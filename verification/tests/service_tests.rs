use zkp_auth::client::{
    answer_challenge, derive_secret, zkp_authentication_challenge, zkp_register,
    zkp_verify_authentication,
};
use zkp_auth::error::AuthError;
use zkp_auth::ids::{auth_id_text, identify};
use zkp_auth::integer::Integer;
use zkp_auth::messages::{
    AuthenticationAnswerRequest, AuthenticationChallengeRequest, RegisterRequest,
};
use zkp_auth::params::PublicParameters;
use zkp_auth::service::AuthService;

fn num(v: u64) -> Integer {
    Integer::from_u64(v)
}

fn toy() -> PublicParameters {
    PublicParameters::new(num(23), num(11), num(4), num(9)).unwrap()
}

fn server_with_alice() -> AuthService {
    let mut server = AuthService::new(toy());
    server.register(&zkp_register(&toy(), "alice", &num(6))).unwrap();
    server
}

fn answer(auth_id: &str, s: &str) -> AuthenticationAnswerRequest {
    AuthenticationAnswerRequest { auth_id: auth_id.to_string(), s: s.to_string() }
}

#[test]
fn a_new_server_is_empty() {
    let server = AuthService::new(toy());
    assert!(!server.is_registered(identify("alice")));
    assert!(!server.has_pending(identify("alice")));
    assert!(server.identity(identify("alice")).is_none());
    assert_eq!(server.params().p().to_u64(), Some(23));
}

#[test]
fn register_stores_the_values() {
    let server = server_with_alice();
    let id = identify("alice");
    assert!(server.is_registered(id));
    let record = server.identity(id).unwrap();
    assert_eq!(record.y1.to_u64(), Some(2));
    assert_eq!(record.y2.to_u64(), Some(3));
    assert!(!server.is_registered(identify("bob")));
}

#[test]
fn register_twice_changes_nothing() {
    let mut server = server_with_alice();
    let id = identify("alice");
    assert!(server.register(&zkp_register(&toy(), "alice", &num(6))).is_ok());
    let record = server.identity(id).unwrap();
    assert_eq!(record.y1.to_u64(), Some(2));
    assert_eq!(record.y2.to_u64(), Some(3));
    // other values under the same name are acknowledged and ignored
    assert!(server.register(&zkp_register(&toy(), "alice", &num(5))).is_ok());
    let record = server.identity(id).unwrap();
    assert_eq!(record.y1.to_u64(), Some(2));
    assert_eq!(record.y2.to_u64(), Some(3));
}

#[test]
fn register_rejects_values_that_are_no_numbers() {
    let mut server = AuthService::new(toy());
    let request =
        RegisterRequest { user: "alice".to_string(), y1: "two".to_string(), y2: "3".to_string() };
    assert!(matches!(server.register(&request), Err(AuthError::MalformedInput)));
    let request =
        RegisterRequest { user: "alice".to_string(), y1: "2".to_string(), y2: "".to_string() };
    assert!(matches!(server.register(&request), Err(AuthError::MalformedInput)));
    assert!(!server.is_registered(identify("alice")));
}

#[test]
fn register_identity_keeps_the_first_values() {
    let mut server = AuthService::new(toy());
    assert_eq!(server.register_identity(7, num(2), num(3)), Ok(true));
    assert_eq!(server.register_identity(7, num(10), num(11)), Ok(false));
    assert_eq!(server.register_identity(8, num(12), num(13)), Ok(true));
    assert_eq!(server.identity(7).unwrap().y1.to_u64(), Some(2));
    assert_eq!(server.identity(7).unwrap().y2.to_u64(), Some(3));
    assert_eq!(server.identity(8).unwrap().y1.to_u64(), Some(12));
}

#[test]
fn challenge_for_a_registered_user() {
    let mut server = server_with_alice();
    let id = identify("alice");
    let challenge = server
        .create_authentication_challenge(&zkp_authentication_challenge(&toy(), "alice", &num(7)))
        .unwrap();
    assert_eq!(challenge.auth_id, auth_id_text(id));
    let c = Integer::from_hex(&challenge.c).unwrap().to_u64().unwrap();
    assert!((2..10).contains(&c));
    assert!(server.has_pending(id));
}

#[test]
fn challenge_for_an_unknown_user_is_refused() {
    let mut server = server_with_alice();
    let request = zkp_authentication_challenge(&toy(), "mallory", &num(7));
    assert!(matches!(
        server.create_authentication_challenge(&request),
        Err(AuthError::UnknownIdentity)
    ));
    let id = identify("mallory");
    assert!(!server.has_pending(id));
    // an answer under the identifier that the name would have finds nothing
    assert!(matches!(
        server.verify_authentication(&answer(&auth_id_text(id), "0")),
        Err(AuthError::NoPendingChallenge)
    ));
    assert_eq!(server.check_answer(id, &num(0)), Err(AuthError::NoPendingChallenge));
}

#[test]
fn challenge_rejects_a_commitment_that_is_no_number() {
    let mut server = server_with_alice();
    let request = AuthenticationChallengeRequest {
        user: "alice".to_string(),
        r1: "8".to_string(),
        r2: "four".to_string(),
    };
    assert!(matches!(
        server.create_authentication_challenge(&request),
        Err(AuthError::MalformedInput)
    ));
    assert!(!server.has_pending(identify("alice")));
}

#[test]
fn an_honest_login_opens_a_session() {
    let params = toy();
    let mut server = AuthService::new(params.clone());
    let x = derive_secret("\u{6}");
    server.register(&zkp_register(&params, "alice", &x)).unwrap();
    for k in 2..9u64 {
        let k = num(k);
        let challenge = server
            .create_authentication_challenge(&zkp_authentication_challenge(&params, "alice", &k))
            .unwrap();
        let reply = answer_challenge(&params, &k, &x, &challenge).unwrap();
        let session = server.verify_authentication(&reply).unwrap();
        assert_eq!(session.session_id.len(), 7);
        assert!(session.session_id.chars().all(|c| c.is_ascii_alphanumeric()));
        assert!(!server.has_pending(identify("alice")));
    }
}

#[test]
fn a_wrong_password_is_rejected() {
    let params = toy();
    let mut server = server_with_alice();
    let k = num(7);
    let challenge = server
        .create_authentication_challenge(&zkp_authentication_challenge(&params, "alice", &k))
        .unwrap();
    let reply = answer_challenge(&params, &k, &num(5), &challenge).unwrap();
    assert!(matches!(server.verify_authentication(&reply), Err(AuthError::ProofMismatch)));
}

#[test]
fn the_toy_scenario_through_the_server() {
    let mut server = AuthService::new(toy());
    let id = 42;
    server.register_identity(id, num(2), num(3)).unwrap();
    assert_eq!(server.issue_challenge(id, num(8), num(4), num(3)), Ok(()));
    assert_eq!(server.check_answer(id, &num(0)), Ok(()));
    // every other response to the same challenge is a mismatch
    for s in 1..11 {
        assert_eq!(server.issue_challenge(id, num(8), num(4), num(3)), Ok(()));
        assert_eq!(server.check_answer(id, &num(s)), Err(AuthError::ProofMismatch));
    }
}

#[test]
fn issue_challenge_for_an_unknown_identifier_is_refused() {
    let mut server = AuthService::new(toy());
    assert_eq!(server.issue_challenge(42, num(8), num(4), num(3)), Err(AuthError::UnknownIdentity));
    assert!(!server.has_pending(42));
}

#[test]
fn a_challenge_is_answered_once_after_success() {
    let mut server = AuthService::new(toy());
    server.register_identity(42, num(2), num(3)).unwrap();
    server.issue_challenge(42, num(8), num(4), num(3)).unwrap();
    assert_eq!(server.check_answer(42, &num(0)), Ok(()));
    assert_eq!(server.check_answer(42, &num(0)), Err(AuthError::NoPendingChallenge));
    assert!(matches!(
        server.verify_authentication(&zkp_verify_authentication(&num(0), &auth_id_text(42))),
        Err(AuthError::NoPendingChallenge)
    ));
}

#[test]
fn a_challenge_is_answered_once_after_failure() {
    let mut server = AuthService::new(toy());
    server.register_identity(42, num(2), num(3)).unwrap();
    server.issue_challenge(42, num(8), num(4), num(3)).unwrap();
    assert_eq!(server.check_answer(42, &num(1)), Err(AuthError::ProofMismatch));
    // the right answer comes too late
    assert_eq!(server.check_answer(42, &num(0)), Err(AuthError::NoPendingChallenge));
}

#[test]
fn a_malformed_answer_consumes_the_challenge() {
    let mut server = AuthService::new(toy());
    server.register_identity(42, num(2), num(3)).unwrap();
    server.issue_challenge(42, num(8), num(4), num(3)).unwrap();
    assert!(matches!(
        server.verify_authentication(&answer(&auth_id_text(42), "zero")),
        Err(AuthError::MalformedInput)
    ));
    assert!(!server.has_pending(42));
    assert!(matches!(
        server.verify_authentication(&answer(&auth_id_text(42), "0")),
        Err(AuthError::NoPendingChallenge)
    ));
}

#[test]
fn a_negative_answer_is_malformed() {
    let mut server = AuthService::new(toy());
    server.register_identity(42, num(2), num(3)).unwrap();
    server.issue_challenge(42, num(8), num(4), num(3)).unwrap();
    assert!(matches!(
        server.verify_authentication(&answer(&auth_id_text(42), "-b")),
        Err(AuthError::MalformedInput)
    ));
    assert!(!server.has_pending(42));
}

#[test]
fn a_garbled_identifier_finds_no_challenge() {
    let mut server = AuthService::new(toy());
    server.register_identity(42, num(2), num(3)).unwrap();
    server.issue_challenge(42, num(8), num(4), num(3)).unwrap();
    for auth_id in ["", "UserNotRegistered", "2A", "02a", "2b", "-2a"] {
        assert!(matches!(
            server.verify_authentication(&answer(auth_id, "0")),
            Err(AuthError::NoPendingChallenge)
        ));
    }
    // none of them consumed the challenge under 42
    assert!(server.has_pending(42));
    assert!(server.verify_authentication(&answer("2a", "0")).is_ok());
}

#[test]
fn a_new_challenge_replaces_the_old_one() {
    let mut server = AuthService::new(toy());
    server.register_identity(42, num(2), num(3)).unwrap();
    // first attempt: k = 7, c = 3, answered by s = 0
    server.issue_challenge(42, num(8), num(4), num(3)).unwrap();
    // second attempt: k = 2, c = 3, answered by s = 6; r1 = 4^2 = 16, r2 = 9^2 = 12
    server.issue_challenge(42, num(16), num(12), num(3)).unwrap();
    assert_eq!(server.check_answer(42, &num(0)), Err(AuthError::ProofMismatch));
    server.issue_challenge(42, num(8), num(4), num(3)).unwrap();
    server.issue_challenge(42, num(16), num(12), num(3)).unwrap();
    assert_eq!(server.check_answer(42, &num(6)), Ok(()));
}

#[test]
fn attempts_of_different_identities_do_not_interfere() {
    let mut server = AuthService::new(toy());
    server.register_identity(1, num(2), num(3)).unwrap();
    // secret 5: y1 = 12, y2 = 8
    server.register_identity(2, num(12), num(8)).unwrap();
    server.issue_challenge(1, num(8), num(4), num(3)).unwrap();
    // k = 7, c = 2, x = 5: s = 7 - 10 = -3 = 8 (mod 11)
    server.issue_challenge(2, num(8), num(4), num(2)).unwrap();
    assert_eq!(server.check_answer(2, &num(8)), Ok(()));
    assert!(server.has_pending(1));
    assert_eq!(server.check_answer(1, &num(0)), Ok(()));
}

#[test]
fn session_tokens_are_fresh() {
    let params = toy();
    let mut server = server_with_alice();
    let mut tokens = Vec::new();
    for _ in 0..10 {
        let k = num(7);
        let challenge = server
            .create_authentication_challenge(&zkp_authentication_challenge(&params, "alice", &k))
            .unwrap();
        let reply = answer_challenge(&params, &k, &num(6), &challenge).unwrap();
        tokens.push(server.verify_authentication(&reply).unwrap().session_id);
    }
    assert!(tokens.iter().any(|t| *t != tokens[0]));
}

fn neg(v: u64) -> Integer {
    num(0).minus(&num(v))
}

#[test]
fn register_identity_rejects_values_out_of_range() {
    let mut server = AuthService::new(toy());
    assert_eq!(server.register_identity(7, neg(1), num(3)), Err(AuthError::MalformedInput));
    assert_eq!(server.register_identity(7, num(2), neg(1)), Err(AuthError::MalformedInput));
    assert_eq!(server.register_identity(7, num(23), num(3)), Err(AuthError::MalformedInput));
    assert_eq!(server.register_identity(7, num(2), num(1000)), Err(AuthError::MalformedInput));
    assert!(!server.is_registered(7));
    // the ends of the range are accepted
    assert_eq!(server.register_identity(7, num(0), num(22)), Ok(true));
    assert_eq!(server.identity(7).unwrap().y2.to_u64(), Some(22));
}

#[test]
fn register_rejects_values_out_of_range() {
    let mut server = AuthService::new(toy());
    let request = |y1: &str, y2: &str| RegisterRequest {
        user: "alice".to_string(),
        y1: y1.to_string(),
        y2: y2.to_string(),
    };
    // 0x17 = 23 = p
    for (y1, y2) in [("-1", "3"), ("2", "-3"), ("17", "3"), ("2", "17"), ("3e8", "3")] {
        assert!(matches!(server.register(&request(y1, y2)), Err(AuthError::MalformedInput)));
        assert!(!server.is_registered(identify("alice")));
    }
    assert!(server.register(&request("0", "16")).is_ok());
    assert!(server.is_registered(identify("alice")));
}

#[test]
fn challenge_rejects_a_commitment_out_of_range() {
    let mut server = server_with_alice();
    let request = |r1: &str, r2: &str| AuthenticationChallengeRequest {
        user: "alice".to_string(),
        r1: r1.to_string(),
        r2: r2.to_string(),
    };
    for (r1, r2) in [("-1", "3e8"), ("-1", "4"), ("8", "-4"), ("17", "4"), ("8", "17")] {
        assert!(matches!(
            server.create_authentication_challenge(&request(r1, r2)),
            Err(AuthError::MalformedInput)
        ));
        assert!(!server.has_pending(identify("alice")));
    }
    // a bad commitment is malformed also where the user is unknown
    let unknown = AuthenticationChallengeRequest {
        user: "mallory".to_string(),
        r1: "-1".to_string(),
        r2: "4".to_string(),
    };
    assert!(matches!(
        server.create_authentication_challenge(&unknown),
        Err(AuthError::MalformedInput)
    ));
    assert!(server.create_authentication_challenge(&request("0", "16")).is_ok());
    assert!(server.has_pending(identify("alice")));
}

#[test]
fn issue_challenge_rejects_values_out_of_range() {
    let mut server = AuthService::new(toy());
    server.register_identity(42, num(2), num(3)).unwrap();
    let bad = Err(AuthError::MalformedInput);
    assert_eq!(server.issue_challenge(42, neg(1), num(4), num(3)), bad);
    assert_eq!(server.issue_challenge(42, num(8), num(23), num(3)), bad);
    // challenges lie in [2, q - 2] = [2, 9]
    assert_eq!(server.issue_challenge(42, num(8), num(4), num(1)), bad);
    assert_eq!(server.issue_challenge(42, num(8), num(4), num(10)), bad);
    assert_eq!(server.issue_challenge(42, num(8), num(4), neg(3)), bad);
    assert!(!server.has_pending(42));
    // malformed comes before unknown
    assert_eq!(server.issue_challenge(43, num(8), num(4), num(1)), bad);
    assert_eq!(server.issue_challenge(42, num(8), num(4), num(2)), Ok(()));
    assert_eq!(server.issue_challenge(42, num(8), num(4), num(9)), Ok(()));
    assert!(server.has_pending(42));
}

#[test]
fn an_answer_out_of_range_is_malformed() {
    let mut server = AuthService::new(toy());
    server.register_identity(42, num(2), num(3)).unwrap();
    // s = 11 is congruent to the right answer 0, and out of range
    for s in [num(11), num(22), neg(11), neg(1)] {
        server.issue_challenge(42, num(8), num(4), num(3)).unwrap();
        assert_eq!(server.check_answer(42, &s), Err(AuthError::MalformedInput));
        assert!(!server.has_pending(42));
    }
    server.issue_challenge(42, num(8), num(4), num(3)).unwrap();
    assert!(matches!(
        server.verify_authentication(&answer(&auth_id_text(42), "b")),
        Err(AuthError::MalformedInput)
    ));
    assert!(!server.has_pending(42));
}

#[test]
fn read_registration_reads_without_registering() {
    let server = AuthService::new(toy());
    let request = zkp_register(&toy(), "alice", &num(6));
    let (id, y1, y2) = server.read_registration(&request).unwrap();
    assert_eq!(id, identify("alice"));
    assert_eq!(y1.to_u64(), Some(2));
    assert_eq!(y2.to_u64(), Some(3));
    assert!(!server.is_registered(id));
    let bad =
        RegisterRequest { user: "alice".to_string(), y1: "17".to_string(), y2: "3".to_string() };
    assert!(matches!(server.read_registration(&bad), Err(AuthError::MalformedInput)));
    let bad =
        RegisterRequest { user: "alice".to_string(), y1: "2".to_string(), y2: "x".to_string() };
    assert!(matches!(server.read_registration(&bad), Err(AuthError::MalformedInput)));
}
