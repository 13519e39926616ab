use chat_export::decoder::{decode_conversation, DecodeError};
use chat_export::metadata::{Image, JoinableMode, MagicWord, Metadata};

fn fragment(extra: &str) -> Vec<u8> {
    let mut json = String::from(r#"{"participants": [], "messages": [], "title": "T", "thread_path": "p""#);
    if !extra.is_empty() {
        json.push_str(", ");
        json.push_str(extra);
    }
    json.push('}');
    json.into_bytes()
}

fn metadata_of(extra: &str) -> Result<Metadata, DecodeError> {
    decode_conversation(&fragment(extra)).map(|conversation| conversation.metadata)
}

#[test]
fn absent_keys_are_none() {
    let nothing = Metadata { is_still_participant: None, magic_words: None, image: None, joinable_mode: None };
    assert_eq!(metadata_of(""), Ok(nothing));
    let nothing = Metadata { is_still_participant: None, magic_words: None, image: None, joinable_mode: None };
    assert_eq!(
        metadata_of(r#""is_still_participant": null, "magic_words": null, "image": null, "joinable_mode": null"#),
        Ok(nothing)
    );
}

#[test]
fn present_keys_are_kept_as_they_are() {
    let decoded = metadata_of(
        r#""joinable_mode": {"mode": 1, "link": "https://example.org/j"},
           "image": {"uri": "photos/a.jpg", "creation_timestamp": 1600000000},
           "magic_words": [{"magic_word": "cafÃ©", "creation_timestamp_ms": 5, "animation_emoji": "x"}],
           "is_still_participant": false, "unknown_key": [1, 2, 3]"#,
    );
    assert_eq!(
        decoded,
        Ok(Metadata {
            is_still_participant: Some(false),
            magic_words: Some(vec![MagicWord {
                magic_word: "caf\u{c3}\u{a9}".to_string(),
                creation_timestamp_ms: 5,
                animation_emoji: "x".to_string(),
            }]),
            image: Some(Image { uri: "photos/a.jpg".to_string(), creation_timestamp: 1600000000 }),
            joinable_mode: Some(JoinableMode { mode: 1, link: "https://example.org/j".to_string() }),
        })
    );
    assert_eq!(metadata_of(r#""magic_words": []"#).unwrap().magic_words, Some(vec![]));
}

#[test]
fn malformed_keys_are_errors() {
    let wrong_type = [
        r#""is_still_participant": "yes""#,
        r#""magic_words": {}"#,
        r#""magic_words": [1]"#,
        r#""magic_words": [{"magic_word": 1, "creation_timestamp_ms": 5, "animation_emoji": "x"}]"#,
        r#""image": []"#,
        r#""image": {"uri": "a", "creation_timestamp": -1}"#,
        r#""joinable_mode": 1"#,
        r#""joinable_mode": {"mode": "1", "link": ""}"#,
        r#""joinable_mode": {"mode": 2147483648, "link": ""}"#,
        r#""joinable_mode": {"mode": -1, "link": ""}"#,
    ];
    for extra in wrong_type {
        assert_eq!(metadata_of(extra), Err(DecodeError::UnexpectedType));
    }
    let missing = [
        r#""magic_words": [{"magic_word": "w", "animation_emoji": "x"}]"#,
        r#""magic_words": [{"creation_timestamp_ms": 5, "animation_emoji": "x"}]"#,
        r#""magic_words": [{"magic_word": "w", "creation_timestamp_ms": 5}]"#,
        r#""image": {"uri": "a"}"#,
        r#""image": {"creation_timestamp": 1}"#,
        r#""joinable_mode": {"mode": 1}"#,
        r#""joinable_mode": {"link": ""}"#,
    ];
    for extra in missing {
        assert_eq!(metadata_of(extra), Err(DecodeError::MissingField));
    }
}

#[test]
fn the_largest_mode_is_accepted() {
    assert_eq!(
        metadata_of(r#""joinable_mode": {"mode": 2147483647, "link": ""}"#).unwrap().joinable_mode,
        Some(JoinableMode { mode: i32::MAX, link: String::new() })
    );
    assert_eq!(
        metadata_of(r#""joinable_mode": {"mode": 0, "link": ""}"#).unwrap().joinable_mode,
        Some(JoinableMode { mode: 0, link: String::new() })
    );
}
