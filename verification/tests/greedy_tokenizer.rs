use klvm_traits::greedy_tokenizer::{
    capture_byte_repr, Config, Error, GTTrainer, GreedyTokenizerBuilder,
};

fn words(items: &[&str]) -> Vec<String> {
    items.iter().map(|item| item.to_string()).collect()
}

#[test]
fn default_settings_fall_back_to_bytes() {
    let config = Config::default();
    assert_eq!(config.vocab, Vec::<String>::new());
    assert_eq!(config.unk_token_id, None);
    assert!(config.byte_fallback);
    assert_eq!(GreedyTokenizerBuilder::default().config, config);
}

#[test]
fn each_setter_changes_its_own_setting_only() {
    let builder = GreedyTokenizerBuilder::default().vocab(words(&["a", "b"]));
    assert_eq!(builder.config.vocab, words(&["a", "b"]));
    assert_eq!(builder.config.unk_token_id, None);
    assert!(builder.config.byte_fallback);

    let builder = builder.unk_token_id(1);
    assert_eq!(builder.config.vocab, words(&["a", "b"]));
    assert_eq!(builder.config.unk_token_id, Some(1));
    assert!(builder.config.byte_fallback);

    let builder = builder.byte_fallback(false);
    assert_eq!(builder.config.vocab, words(&["a", "b"]));
    assert_eq!(builder.config.unk_token_id, Some(1));
    assert!(!builder.config.byte_fallback);

    let builder = builder.vocab(words(&["c"])).unk_token_id(0).byte_fallback(true);
    assert_eq!(
        builder.config,
        Config {
            vocab: words(&["c"]),
            unk_token_id: Some(0),
            byte_fallback: true
        }
    );
}

#[test]
fn build_takes_an_unknown_token_inside_the_vocabulary() {
    let built = GreedyTokenizerBuilder::default()
        .vocab(words(&["a", "b", "<unk>"]))
        .unk_token_id(2)
        .build()
        .unwrap();
    assert_eq!(
        built,
        Config {
            vocab: words(&["a", "b", "<unk>"]),
            unk_token_id: Some(2),
            byte_fallback: true
        }
    );
    let built = GreedyTokenizerBuilder::default().build().unwrap();
    assert_eq!(built, Config::default());
    let built = GreedyTokenizerBuilder::default()
        .vocab(words(&["a"]))
        .byte_fallback(false)
        .build()
        .unwrap();
    assert_eq!(built.unk_token_id, None);
    assert!(!built.byte_fallback);
}

#[test]
fn build_refuses_an_unknown_token_outside_the_vocabulary() {
    let failure = GreedyTokenizerBuilder::default()
        .vocab(words(&["a", "b"]))
        .unk_token_id(2)
        .build()
        .unwrap_err();
    assert!(matches!(failure, Error::UnkTokenIDOutOfVocabulary(2, 2)));
    let failure = GreedyTokenizerBuilder::default()
        .unk_token_id(0)
        .build()
        .unwrap_err();
    assert!(matches!(failure, Error::UnkTokenIDOutOfVocabulary(0, 0)));
    let failure = GreedyTokenizerBuilder::default()
        .vocab(words(&["a"]))
        .unk_token_id(u32::MAX)
        .build()
        .unwrap_err();
    assert!(matches!(
        failure,
        Error::UnkTokenIDOutOfVocabulary(u32::MAX, 1)
    ));
}

#[test]
fn byte_tokens_are_read_in_base_sixteen() {
    assert_eq!(capture_byte_repr("<0x00>"), Some(0));
    assert_eq!(capture_byte_repr("<0x0A>"), Some(10));
    assert_eq!(capture_byte_repr("<0x0a>"), Some(10));
    assert_eq!(capture_byte_repr("<0x7f>"), Some(127));
    assert_eq!(capture_byte_repr("<0xFF>"), Some(255));
    assert_eq!(capture_byte_repr("<0xfF>"), Some(255));
    assert_eq!(capture_byte_repr("<0x+9>"), Some(9));
    assert_eq!(capture_byte_repr("<0x+f>"), Some(15));
}

#[test]
fn other_tokens_stand_for_no_byte() {
    assert_eq!(capture_byte_repr(""), None);
    assert_eq!(capture_byte_repr("<0x0>"), None);
    assert_eq!(capture_byte_repr("<0x000>"), None);
    assert_eq!(capture_byte_repr("<0xg0>"), None);
    assert_eq!(capture_byte_repr("<0x0g>"), None);
    assert_eq!(capture_byte_repr("<0x-1>"), None);
    assert_eq!(capture_byte_repr("<0x1+>"), None);
    assert_eq!(capture_byte_repr("<0x++>"), None);
    assert_eq!(capture_byte_repr("<0x 1>"), None);
    assert_eq!(capture_byte_repr("<0X0a>"), None);
    assert_eq!(capture_byte_repr("[0x0a>"), None);
    assert_eq!(capture_byte_repr("<0x0a]"), None);
    assert_eq!(capture_byte_repr("<1x0a>"), None);
    assert_eq!(capture_byte_repr("<0x\u{e9}>"), None);
    assert_eq!(capture_byte_repr("hello!"), None);
}

#[test]
fn byte_tokens_agree_with_the_standard_parser() {
    for high in 0u8..=255 {
        for low in [b'0', b'9', b'a', b'f', b'A', b'F', b'+', b'-', b'g', b' ', b'/', b':', b'@', b'G', b'`'] {
            let bytes = vec![b'<', b'0', b'x', high, low, b'>'];
            if let Ok(token) = String::from_utf8(bytes) {
                let expected = u8::from_str_radix(&token[3..5], 16).ok();
                assert_eq!(capture_byte_repr(&token), expected);
            }
            let bytes = vec![b'<', b'0', b'x', low, high, b'>'];
            if let Ok(token) = String::from_utf8(bytes) {
                let expected = u8::from_str_radix(&token[3..5], 16).ok();
                assert_eq!(capture_byte_repr(&token), expected);
            }
        }
    }
}

#[test]
fn trainer_has_no_settings() {
    let trainer = GTTrainer;
    assert_eq!(std::mem::size_of_val(&trainer), 0);
    assert_eq!(format!("{:?}", trainer.clone()), "GTTrainer");
}
