use template_rand::seed::{parse_seed, resolve_seed, ConfigError};

#[test]
fn four_words_parse() {
    assert_eq!(parse_seed("1,2,3,4"), Ok([1, 2, 3, 4]));
    assert_eq!(parse_seed("0,0,0,1"), Ok([0, 0, 0, 1]));
    assert_eq!(parse_seed("4294967295,0,007,+9"), Ok([4294967295, 0, 7, 9]));
}

#[test]
fn three_words_are_malformed() {
    assert_eq!(parse_seed("1,2,3"), Err(ConfigError::MalformedSeed));
}

#[test]
fn five_words_are_malformed() {
    assert_eq!(parse_seed("1,2,3,4,5"), Err(ConfigError::MalformedSeed));
}

#[test]
fn bad_components_are_malformed() {
    for text in ["", "a,2,3,4", "1,2,3,", ",1,2,3", "1, 2,3,4", "4294967296,0,0,1", "-1,0,0,1", "+,0,0,1", "1,2,3,4x"] {
        assert_eq!(parse_seed(text), Err(ConfigError::MalformedSeed), "{:?}", text);
    }
}

#[test]
fn all_zero_seed_is_refused() {
    assert!(matches!(resolve_seed(Some("0,0,0,0")), Err(ConfigError::ZeroSeed)));
}

#[test]
fn malformed_seed_is_refused() {
    assert!(matches!(resolve_seed(Some("1,2,3")), Err(ConfigError::MalformedSeed)));
}

#[test]
fn absent_seed_uses_entropy() {
    assert!(resolve_seed(None).is_ok());
}
