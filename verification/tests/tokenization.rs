use embed_core::{prepare_encoding, tokenize, InferError};

fn word_level_tokenizer() -> tokenizers::Tokenizer {
    let json = r#"{
        "version": "1.0",
        "truncation": null,
        "padding": null,
        "added_tokens": [],
        "normalizer": null,
        "pre_tokenizer": { "type": "Whitespace" },
        "post_processor": null,
        "decoder": null,
        "model": {
            "type": "WordLevel",
            "vocab": { "[UNK]": 0, "hello": 1, "world": 2, "pack": 3 },
            "unk_token": "[UNK]"
        }
    }"#;
    serde_json::from_str(json).expect("a well-formed fast-tokenizer description")
}

#[test]
fn encode_and_validate() {
    let tok = word_level_tokenizer();
    let enc = tokenize(&tok, "hello world", false, 16, 0).unwrap();
    assert_eq!(enc.input_ids, vec![1, 2]);
    assert_eq!(enc.token_type_ids.len(), 2);
    assert_eq!(enc.position_ids, vec![0, 1]);
}

#[test]
fn position_ids_start_at_the_offset() {
    let tok = word_level_tokenizer();
    let enc = tokenize(&tok, "pack hello world", false, 16, 2).unwrap();
    assert_eq!(enc.input_ids, vec![3, 1, 2]);
    assert_eq!(enc.position_ids, vec![2, 3, 4]);
}

#[test]
fn too_long_without_truncation_fails() {
    let tok = word_level_tokenizer();
    let r = tokenize(&tok, "hello world pack", false, 2, 0);
    assert_eq!(r.unwrap_err(), InferError::InputTooLong { length: 3, max_length: 2 });
}

#[test]
fn truncation_keeps_the_leading_tokens() {
    let tok = word_level_tokenizer();
    let enc = tokenize(&tok, "hello world pack", true, 2, 0).unwrap();
    assert_eq!(enc.input_ids, vec![1, 2]);
    assert_eq!(enc.position_ids, vec![0, 1]);
}

#[test]
fn empty_encoding_is_a_tokenization_failure() {
    let r = prepare_encoding(vec![], vec![], true, 8, 0);
    assert_eq!(r.unwrap_err(), InferError::Tokenization);
    let tok = word_level_tokenizer();
    // whitespace alone produces no token
    let r = tokenize(&tok, "   ", false, 8, 0);
    assert_eq!(r.unwrap_err(), InferError::Tokenization);
}

#[test]
fn mismatched_type_ids_are_a_tokenization_failure() {
    let r = prepare_encoding(vec![1, 2, 3], vec![0, 0], true, 8, 0);
    assert_eq!(r.unwrap_err(), InferError::Tokenization);
}

#[test]
fn validation_is_exact_on_the_boundary() {
    let ids: Vec<u32> = (0..5).collect();
    let types = vec![0u32; 5];
    let enc = prepare_encoding(ids.clone(), types.clone(), false, 5, 0).unwrap();
    assert_eq!(enc.input_ids.len(), 5);
    let r = prepare_encoding(ids.clone(), types.clone(), false, 4, 7);
    assert_eq!(r.unwrap_err(), InferError::InputTooLong { length: 5, max_length: 4 });
    let enc = prepare_encoding(ids, types, true, 4, 7).unwrap();
    assert_eq!(enc.input_ids, vec![0, 1, 2, 3]);
    assert_eq!(enc.position_ids, vec![7, 8, 9, 10]);
}
