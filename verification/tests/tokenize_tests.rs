use kokoros::tokenize::{tokenize, wrap_phonemes, BOUNDARY_ID, VOCAB_SIZE};

#[test]
fn boundary_symbol_has_id_zero() {
    assert_eq!(tokenize("$"), vec![0i64]);
    assert_eq!(BOUNDARY_ID, 0);
}

#[test]
fn punctuation_letters_and_case_map_in_vocabulary_order() {
    assert_eq!(tokenize(";:,.!?- '"), vec![1, 2, 3, 4, 5, 6, 7, 8, 9]);
    assert_eq!(tokenize("a"), vec![10]);
    assert_eq!(tokenize("z"), vec![35]);
    assert_eq!(tokenize("A"), vec![36]);
    assert_eq!(tokenize("Z"), vec![61]);
    assert_eq!(VOCAB_SIZE, 62);
}

#[test]
fn unknown_symbol_maps_to_fallback_id() {
    // deterministic fallback: out-of-vocabulary symbols get the boundary id
    assert_eq!(tokenize("~"), vec![0]);
    assert_eq!(tokenize("\u{4F60}"), vec![0]);
}

#[test]
fn tokenize_keeps_one_id_per_symbol() {
    let phonemes = "h@l'oU w'3:ld";
    let ids = tokenize(phonemes);
    assert_eq!(ids.len(), phonemes.chars().count());
    for id in &ids {
        assert!(*id >= 0 && *id < VOCAB_SIZE);
    }
}

#[test]
fn wrap_adds_one_marker_at_each_end() {
    assert_eq!(wrap_phonemes("abc"), "$abc$".to_string());
    assert_eq!(wrap_phonemes(""), "$$".to_string());
}

#[test]
fn wrapped_token_count_is_symbol_count_plus_two() {
    let phonemes = "h@l'oU";
    let wrapped = wrap_phonemes(phonemes);
    let ids = tokenize(&wrapped);
    assert_eq!(ids.len(), phonemes.chars().count() + 2);
    assert_eq!(ids[0], BOUNDARY_ID);
    assert_eq!(ids[ids.len() - 1], BOUNDARY_ID);
}

#[test]
fn empty_phoneme_string_still_gets_two_boundary_tokens() {
    let wrapped = wrap_phonemes("");
    let ids = tokenize(&wrapped);
    assert_eq!(ids, vec![BOUNDARY_ID, BOUNDARY_ID]);
}
