use wordle::game::GameConfig;
use wordle::words::{candidate_count, choose_target, load_words, SetupError};

#[test]
fn load_words_trims_uppercases_and_drops_empty_lines() {
    let words = load_words("apple\nBanana\n cherry \n\n  \ndates");
    assert_eq!(
        words,
        vec![
            "APPLE".to_string(),
            "BANANA".to_string(),
            "CHERRY".to_string(),
            "DATES".to_string(),
        ]
    );
}

#[test]
fn load_words_keeps_input_order_and_duplicates() {
    let words = load_words("zebra\napple\nzebra");
    assert_eq!(
        words,
        vec!["ZEBRA".to_string(), "APPLE".to_string(), "ZEBRA".to_string()]
    );
}

#[test]
fn load_words_of_empty_input_is_empty() {
    assert!(load_words("").is_empty());
    assert!(load_words("\n\n   \n").is_empty());
}

#[test]
fn choose_target_fails_fast_when_no_word_fits() {
    let words = vec!["AB".to_string(), "TOOLONGWORD".to_string()];
    let config = GameConfig { rows: 6, word_len: 5 };
    assert_eq!(
        choose_target(&words, &config, 0),
        Err(SetupError::NoWordOfRequiredLength)
    );
    assert_eq!(candidate_count(&words, &config), 0);
}

#[test]
fn choose_target_picks_among_words_of_the_right_length() {
    let words = vec![
        "APPLE".to_string(),
        "AB".to_string(),
        "TIGER".to_string(),
        "ZEBRA".to_string(),
    ];
    let config = GameConfig { rows: 6, word_len: 5 };
    assert_eq!(candidate_count(&words, &config), 3);
    assert_eq!(choose_target(&words, &config, 0), Ok("APPLE".to_string()));
    assert_eq!(choose_target(&words, &config, 1), Ok("TIGER".to_string()));
    assert_eq!(choose_target(&words, &config, 2), Ok("ZEBRA".to_string()));
    // A draw beyond the candidate count wraps around rather than failing.
    assert_eq!(choose_target(&words, &config, 4), Ok("TIGER".to_string()));
}

#[test]
fn chosen_target_always_has_the_configured_length() {
    let words = load_words("ox\ncat\ncrane\nhouse\nd\n");
    let config = GameConfig { rows: 6, word_len: 5 };
    for draw in 0..7 {
        let target = choose_target(&words, &config, draw).unwrap();
        assert_eq!(target.chars().count(), 5);
    }
}
