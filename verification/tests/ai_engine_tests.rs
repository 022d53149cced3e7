use zero_trust_gateway::ai_engine::{embedding_inputs, MAX_SEQ_LEN};

#[test]
fn short_text_is_padded() {
    let r = embedding_inputs("Hi!");
    assert_eq!(r.token_count, 3);
    assert_eq!(r.input_ids.len(), MAX_SEQ_LEN);
    assert_eq!(&r.input_ids[..4], &[72, 105, 33, 0]);
    assert_eq!(&r.attention_mask[..4], &[1, 1, 1, 0]);
    assert!(r.token_type_ids.iter().all(|&t| t == 0));
    assert!(r.input_ids[3..].iter().all(|&t| t == 0));
}

#[test]
fn long_text_is_cut_to_max_len() {
    let text = "a".repeat(200);
    let r = embedding_inputs(&text);
    assert_eq!(r.token_count, 128);
    assert!(r.input_ids.iter().all(|&t| t == 97));
    assert!(r.attention_mask.iter().all(|&t| t == 1));
}

#[test]
fn tokens_are_utf8_bytes() {
    let r = embedding_inputs("é");
    assert_eq!(r.token_count, 2);
    assert_eq!(&r.input_ids[..3], &[0xc3, 0xa9, 0]);
}

#[test]
fn empty_text_has_no_tokens() {
    let r = embedding_inputs("");
    assert_eq!(r.token_count, 0);
    assert!(r.attention_mask.iter().all(|&t| t == 0));
}
