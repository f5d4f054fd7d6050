use bcryptor::engine::{
    BcryptorState, BcryptorStateInput, DigestError, INITIAL_COST, SENTINEL_COST,
};
use bcryptor::hex::hex;
use bcryptor::salt::SaltError;
use bcryptor::{EntropyUnavailable, HashError};

const ENTROPY: [u8; 16] = [
    38, 113, 212, 141, 108, 213, 195, 166, 201, 38, 20, 13, 47, 40, 104, 18,
];
const ENTROPY_HEX: &str = "2671d48d6cd5c3a6c926140d2f286812";
const PASSWORD: &str = "My S3cre7 P@55w0rd!";
const DIGEST_AT_5: &str = "$2b$05$HlFShUxTu4ZHHfOLJwfmCeDj/kuKFKboanXtDJXxCC7aIPTUgxNDe";

fn reference_digest(password: &str, cost: u32, salt: [u8; 16]) -> String {
    bcrypt::hash_with_salt(password, cost, salt).unwrap().to_string()
}

fn engine_at_known_vector() -> BcryptorState {
    let mut engine = BcryptorState::seeded(ENTROPY);
    engine.set_value(String::from(PASSWORD));
    engine.set_cost(5);
    engine.refresh();
    engine
}

#[test]
fn input_from_parts() {
    let input = BcryptorStateInput::from(7, "secret", "0123456789abcdef");
    assert_eq!(input.cost, 7);
    assert_eq!(input.value, "secret");
    assert_eq!(input.salt, "0123456789abcdef");
}

#[test]
fn inputs_compare_by_all_three_fields() {
    let input = BcryptorStateInput::from(7, "secret", "salt");
    assert_eq!(input, BcryptorStateInput::from(7, "secret", "salt"));
    assert_eq!(input, input.clone());
    assert_ne!(input, BcryptorStateInput::from(8, "secret", "salt"));
    assert_ne!(input, BcryptorStateInput::from(7, "Secret", "salt"));
    assert_ne!(input, BcryptorStateInput::from(7, "secret", "Salt"));
}

#[test]
fn hash_with_a_hex_salt() {
    let input = BcryptorStateInput::from(5, PASSWORD, ENTROPY_HEX);
    assert_eq!(input.hash().unwrap(), DIGEST_AT_5);
}

#[test]
fn hash_with_a_literal_salt() {
    let input = BcryptorStateInput::from(4, "hunter2", "0123456789abcdef");
    let digest = input.hash().unwrap();
    assert_eq!(digest, reference_digest("hunter2", 4, *b"0123456789abcdef"));
    assert_eq!(digest.len(), 60);
    assert!(digest.starts_with("$2b$04$"));
}

#[test]
fn hash_is_the_same_for_both_shapes_of_a_salt() {
    let literal = BcryptorStateInput::from(4, "pw", "0123456789abcdef");
    let encoded = BcryptorStateInput::from(4, "pw", "30313233343536373839616263646566");
    assert_eq!(literal.hash().unwrap(), encoded.hash().unwrap());
}

#[test]
fn hash_depends_on_each_field() {
    let base = BcryptorStateInput::from(4, "pw", "0123456789abcdef").hash().unwrap();
    let other_cost = BcryptorStateInput::from(5, "pw", "0123456789abcdef").hash().unwrap();
    let other_password = BcryptorStateInput::from(4, "pW", "0123456789abcdef").hash().unwrap();
    let other_salt = BcryptorStateInput::from(4, "pw", "0123456789abcdeF").hash().unwrap();
    assert_ne!(base, other_cost);
    assert_ne!(base, other_password);
    assert_ne!(base, other_salt);
}

#[test]
fn hash_refuses_a_malformed_salt() {
    let input = BcryptorStateInput::from(4, "pw", "abc");
    assert!(matches!(
        input.hash(),
        Err(DigestError::Salt(SaltError::Invalid))
    ));
    let input = BcryptorStateInput::from(99, "pw", "");
    assert!(matches!(
        input.hash(),
        Err(DigestError::Salt(SaltError::Invalid))
    ));
}

#[test]
fn hash_refuses_a_cost_out_of_range() {
    for cost in [0u32, 3, 32, 1000, SENTINEL_COST] {
        let input = BcryptorStateInput::from(cost, "pw", "0123456789abcdef");
        match input.hash() {
            Err(DigestError::Hash(error)) => assert_eq!(
                error.message,
                format!("Cost needs to be between 4 and 31, got {}", cost)
            ),
            other => panic!("unexpected outcome: {:?}", other),
        }
    }
}

#[test]
fn seeded_engine_shows_the_digest_of_the_empty_password() {
    let engine = BcryptorState::seeded(ENTROPY);
    assert!(engine.currently_valid());
    assert_eq!(engine.current().cost, INITIAL_COST);
    assert_eq!(engine.current().cost, 4);
    assert_eq!(engine.current().value, "");
    assert_eq!(engine.current().salt, ENTROPY_HEX);
    assert_eq!(engine.last_computed(), engine.current());
    assert_eq!(engine.last_result(), reference_digest("", 4, ENTROPY));
}

#[test]
fn first_refresh_is_forced_for_any_entropy() {
    for seed in [[0u8; 16], [0xff; 16], ENTROPY, *b"0123456789abcdef"] {
        let engine = BcryptorState::seeded(seed);
        assert!(engine.currently_valid());
        assert_ne!(engine.last_result(), "");
        assert_eq!(engine.last_result(), reference_digest("", 4, seed));
        assert_ne!(engine.last_computed().cost, SENTINEL_COST);
        assert_eq!(engine.current().salt, hex(&seed));
    }
}

#[test]
fn new_engine_has_a_random_hex_salt() {
    let engine = BcryptorState::new().unwrap();
    let salt = engine.current().salt.clone();
    assert_eq!(salt.len(), 32);
    assert!(salt
        .bytes()
        .all(|b| b.is_ascii_digit() || (b'a'..=b'f').contains(&b)));
    assert!(engine.currently_valid());
    assert_eq!(engine.current().cost, 4);
    assert_eq!(engine.current().value, "");
    assert_eq!(engine.last_computed(), engine.current());
    assert_eq!(engine.last_result().len(), 60);

    let other = BcryptorState::new().unwrap();
    assert_ne!(other.current().salt, salt);
}

#[test]
fn refresh_computes_for_a_changed_input() {
    let engine = engine_at_known_vector();
    assert!(engine.currently_valid());
    assert_eq!(engine.last_result(), DIGEST_AT_5);
    assert_eq!(
        engine.last_computed(),
        &BcryptorStateInput::from(5, PASSWORD, ENTROPY_HEX)
    );
}

#[test]
fn setters_compute_nothing() {
    let mut engine = BcryptorState::seeded(ENTROPY);
    let digest = engine.last_result().to_string();
    let computed = engine.last_computed().clone();
    engine.set_value(String::from("typed"));
    engine.set_salt(String::from("nonsense"));
    engine.set_cost(1);
    assert_eq!(
        engine.current(),
        &BcryptorStateInput::from(1, "typed", "nonsense")
    );
    assert_eq!(engine.last_result(), digest);
    assert_eq!(engine.last_computed(), &computed);
    assert!(engine.currently_valid());
}

#[test]
fn refresh_twice_is_refresh_once() {
    let mut engine = engine_at_known_vector();
    engine.refresh();
    assert!(engine.currently_valid());
    assert_eq!(engine.last_result(), DIGEST_AT_5);

    engine.set_salt(String::from("bad"));
    engine.refresh();
    let digest = engine.last_result().to_string();
    let valid = engine.currently_valid();
    engine.refresh();
    assert_eq!(engine.last_result(), digest);
    assert_eq!(engine.currently_valid(), valid);
    assert!(!valid);
}

#[test]
fn bad_salt_keeps_the_digest() {
    let mut engine = engine_at_known_vector();
    engine.set_salt(String::from("abc"));
    engine.refresh();
    assert!(!engine.currently_valid());
    assert_eq!(engine.last_result(), DIGEST_AT_5);
    assert_eq!(
        engine.last_computed(),
        &BcryptorStateInput::from(5, PASSWORD, ENTROPY_HEX)
    );
    assert_eq!(engine.current().salt, "abc");
}

#[test]
fn bad_hex_digit_keeps_the_digest() {
    let mut engine = engine_at_known_vector();
    engine.set_salt(String::from("2671d48d6cd5c3a6c926140d2f28681g"));
    engine.refresh();
    assert!(!engine.currently_valid());
    assert_eq!(engine.last_result(), DIGEST_AT_5);
}

#[test]
fn good_salt_recovers() {
    let mut engine = engine_at_known_vector();
    engine.set_salt(String::from("abc"));
    engine.refresh();
    assert!(!engine.currently_valid());

    engine.set_salt(String::from("0123456789abcdef"));
    engine.refresh();
    assert!(engine.currently_valid());
    assert_eq!(
        engine.last_result(),
        reference_digest(PASSWORD, 5, *b"0123456789abcdef")
    );
    assert_ne!(engine.last_result(), DIGEST_AT_5);
    assert_eq!(engine.last_computed(), engine.current());
}

#[test]
fn the_salt_computed_last_does_not_recover() {
    let mut engine = engine_at_known_vector();
    engine.set_salt(String::from("abc"));
    engine.refresh();
    assert!(!engine.currently_valid());

    engine.set_salt(String::from(ENTROPY_HEX));
    engine.refresh();
    assert!(!engine.currently_valid());
    assert_eq!(engine.last_result(), DIGEST_AT_5);
}

#[test]
fn bad_cost_keeps_the_digest() {
    let mut engine = engine_at_known_vector();
    engine.set_cost(3);
    engine.refresh();
    assert!(!engine.currently_valid());
    assert_eq!(engine.last_result(), DIGEST_AT_5);
    assert_eq!(engine.last_computed().cost, 5);

    engine.set_cost(4);
    engine.refresh();
    assert!(engine.currently_valid());
    assert_eq!(engine.last_result(), reference_digest(PASSWORD, 4, ENTROPY));
}

#[test]
fn failure_is_tried_again_on_every_refresh() {
    let mut engine = engine_at_known_vector();
    engine.set_salt(String::from("still bad"));
    for _ in 0..3 {
        engine.refresh();
        assert!(!engine.currently_valid());
        assert_eq!(engine.last_result(), DIGEST_AT_5);
        assert_ne!(engine.last_computed(), engine.current());
    }
}

#[test]
fn validity_tells_of_the_latest_attempt_only() {
    let mut engine = engine_at_known_vector();
    engine.set_salt(String::from("bad"));
    engine.refresh();
    engine.set_salt(String::from("worse"));
    engine.refresh();
    assert!(!engine.currently_valid());
    engine.set_salt(String::from("fedcba9876543210"));
    engine.refresh();
    assert!(engine.currently_valid());
}

#[test]
fn record_of_a_digest() {
    let mut engine = BcryptorState::seeded(ENTROPY);
    engine.set_value(String::from("typed"));
    engine.set_salt(String::from("whatever"));
    engine.record(Ok(String::from("made-up digest")));
    assert!(engine.currently_valid());
    assert_eq!(engine.last_result(), "made-up digest");
    assert_eq!(
        engine.last_computed(),
        &BcryptorStateInput::from(4, "typed", "whatever")
    );
    assert_eq!(engine.current(), engine.last_computed());

    engine.refresh();
    assert!(engine.currently_valid());
    assert_eq!(engine.last_result(), "made-up digest");
}

#[test]
fn record_of_a_failure() {
    let mut engine = BcryptorState::seeded(ENTROPY);
    let digest = engine.last_result().to_string();
    let computed = engine.last_computed().clone();
    engine.set_value(String::from("typed"));

    engine.record(Err(DigestError::Salt(SaltError::Invalid)));
    assert!(!engine.currently_valid());
    assert_eq!(engine.last_result(), digest);
    assert_eq!(engine.last_computed(), &computed);
    assert_eq!(engine.current().value, "typed");

    engine.record(Err(DigestError::Hash(HashError {
        message: String::from("refused"),
    })));
    assert!(!engine.currently_valid());
    assert_eq!(engine.last_result(), digest);
    assert_eq!(engine.last_computed(), &computed);
}

#[test]
fn refresh_of_the_sentinel_input_does_nothing() {
    let mut engine = BcryptorState::seeded(ENTROPY);
    let digest = engine.last_result().to_string();
    engine.set_cost(SENTINEL_COST);
    engine.set_salt(String::new());
    engine.refresh();
    assert!(!engine.currently_valid());
    assert_eq!(engine.last_result(), digest);
}

#[test]
fn drawn_entropy_seeds_the_engine() {
    let engine = BcryptorState::from_entropy(Ok(ENTROPY)).unwrap();
    assert!(engine.currently_valid());
    assert_eq!(engine.current().salt, ENTROPY_HEX);
    assert_eq!(engine.current().cost, 4);
    assert_eq!(engine.current().value, "");
    assert_eq!(engine.last_computed(), engine.current());
    assert_eq!(engine.last_result(), reference_digest("", 4, ENTROPY));

    let seeded = BcryptorState::seeded(ENTROPY);
    assert_eq!(engine.current(), seeded.current());
    assert_eq!(engine.last_computed(), seeded.last_computed());
    assert_eq!(engine.last_result(), seeded.last_result());
    assert_eq!(engine.currently_valid(), seeded.currently_valid());
}

#[test]
fn no_entropy_gives_no_engine() {
    for error in [
        getrandom::Error::UNSUPPORTED,
        getrandom::Error::UNEXPECTED,
        getrandom::Error::ERRNO_NOT_POSITIVE,
    ] {
        match BcryptorState::from_entropy(Err(error)) {
            Err(unavailable) => assert_eq!(unavailable, EntropyUnavailable),
            Ok(engine) => panic!("an engine with salt {:?}", engine.current().salt),
        }
    }
}
