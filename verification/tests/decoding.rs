use chat_export::cleaner::{
    distinct_names, message_cleaner, raw_conversation_to_cleaned_conversation,
    raw_messages_to_cleaned_messages, repair_field, RepairFailure, TextField,
};
use chat_export::conversation::{ContentType, Reaction};
use chat_export::decoder::{
    conversation_from_json, decode_conversation, decode_message, DecodeError, RawMessage,
};
use chat_export::json::{find_member, Json, Member};
use chat_export::payload::{
    Audio, BumpedMessageMetaData, Gif, MessageType, Photo, Sticker, Video,
};
use chat_export::repair::EncodingRepairError;

/// The message that a fragment with `json` for its only message decodes to.
fn raw_message(json: &str) -> Result<RawMessage, DecodeError> {
    let fragment = format!(
        r#"{{"participants": [], "messages": [{}], "title": "", "thread_path": ""}}"#,
        json
    );
    let mut conversation = decode_conversation(fragment.as_bytes())?;
    assert_eq!(conversation.messages.len(), 1);
    Ok(conversation.messages.remove(0))
}

fn kind_of(json: &str) -> (ContentType, bool, bool) {
    let raw = raw_message(json).expect("a known shape");
    let message = message_cleaner(&raw).expect("repairable text");
    assert_eq!(message.sender, "Alex");
    assert_eq!(message.timestamp, 1000);
    (message.content_type, message.content.is_some(), message.reactions.is_some())
}

const REACTIONS: &str = r#""reactions": [{"reaction": "ð\u009f\u0091\u008d", "actor": "ZoÃ«"}]"#;

fn shape(key_and_value: &str, with_reactions: bool) -> String {
    let mut json = String::from(r#"{"sender_name": "Alex", "timestamp_ms": 1000"#);
    if !key_and_value.is_empty() {
        json.push_str(", ");
        json.push_str(key_and_value);
    }
    if with_reactions {
        json.push_str(", ");
        json.push_str(REACTIONS);
    }
    json.push('}');
    json
}

#[test]
fn every_shape_gets_its_kind() {
    let shapes = [
        (r#""content": "hello""#, ContentType::Text),
        (r#""photos": [{"uri": "a.jpg", "creation_timestamp": 1}]"#, ContentType::Photo),
        (r#""videos": [{"uri": "a.mp4", "creation_timestamp": 1}]"#, ContentType::Video),
        (r#""audio_files": [{"uri": "a.mp3", "creation_timestamp": 1}]"#, ContentType::Audio),
        (r#""gifs": [{"uri": "a.gif"}]"#, ContentType::Gif),
        (r#""sticker": {"uri": "a.png"}"#, ContentType::Sticker),
        (r#""bumped_message_metadata": {"bumped_message": "x", "is_bumped": true}"#, ContentType::Bumped),
        (r#""is_unsent": true"#, ContentType::Unsent),
        ("", ContentType::Empty),
    ];
    for (key_and_value, kind) in shapes {
        for with_reactions in [false, true] {
            let (content_type, has_text, has_reactions) = kind_of(&shape(key_and_value, with_reactions));
            assert_eq!(content_type, kind);
            assert_eq!(has_text, kind == ContentType::Text);
            assert_eq!(has_reactions, with_reactions);
        }
    }
}

#[test]
fn classification_does_not_depend_on_key_order() {
    let message = raw_message(
        r#"{"reactions": [], "photos": [], "timestamp_ms": 1000, "sender_name": "Alex"}"#,
    )
    .unwrap();
    assert_eq!(message.message_type, Some(MessageType::Photos(vec![])));
    assert_eq!(message.reactions, Some(vec![]));
    assert_eq!(message.sender_name, "Alex");
    assert_eq!(message.timestamp_ms, 1000);
}

#[test]
fn two_content_keys_are_refused() {
    let pairs = [
        r#""content": "x", "photos": []"#,
        r#""photos": [], "videos": []"#,
        r#""sticker": {}, "gifs": []"#,
        r#""is_unsent": true, "content": "x""#,
        r#""bumped_message_metadata": {}, "audio_files": []"#,
        r#""content": "x", "photos": [], "videos": [], "audio_files": [], "gifs": []"#,
    ];
    for pair in pairs {
        for with_reactions in [false, true] {
            assert_eq!(
                raw_message(&shape(pair, with_reactions)).err(),
                Some(DecodeError::AmbiguousVariant)
            );
        }
    }
    // Ambiguity is reported before anything else about the message.
    assert_eq!(
        raw_message(r#"{"content": 5, "photos": []}"#).err(),
        Some(DecodeError::AmbiguousVariant)
    );
}

#[test]
fn message_errors() {
    assert_eq!(raw_message(r#"[1, 2]"#).err(), Some(DecodeError::UnexpectedType));
    assert_eq!(raw_message(r#""text""#).err(), Some(DecodeError::UnexpectedType));
    assert_eq!(raw_message("null").err(), Some(DecodeError::UnexpectedType));
    assert_eq!(raw_message(r#"{"timestamp_ms": 1}"#).err(), Some(DecodeError::MissingField));
    assert_eq!(raw_message(r#"{"sender_name": "A"}"#).err(), Some(DecodeError::MissingField));
    assert_eq!(
        raw_message(r#"{"sender_name": 1, "timestamp_ms": 1}"#).err(),
        Some(DecodeError::UnexpectedType)
    );
    for timestamp in ["-1", "1.5", "\"1\"", "null", "18446744073709551616"] {
        let json = format!(r#"{{"sender_name": "A", "timestamp_ms": {}}}"#, timestamp);
        assert_eq!(raw_message(&json).err(), Some(DecodeError::UnexpectedType));
    }
    assert_eq!(
        raw_message(r#"{"sender_name": "A", "timestamp_ms": 1, "content": 5}"#).err(),
        Some(DecodeError::UnexpectedType)
    );
    assert_eq!(
        raw_message(r#"{"sender_name": "A", "timestamp_ms": 1, "reactions": {}}"#).err(),
        Some(DecodeError::UnexpectedType)
    );
    assert_eq!(
        raw_message(r#"{"sender_name": "A", "timestamp_ms": 1, "reactions": [{"reaction": "x"}]}"#).err(),
        Some(DecodeError::MissingField)
    );
    assert_eq!(
        raw_message(r#"{"sender_name": "A", "timestamp_ms": 1, "reactions": [1]}"#).err(),
        Some(DecodeError::UnexpectedType)
    );
}

#[test]
fn timestamp_limits() {
    let largest = raw_message(r#"{"sender_name": "A", "timestamp_ms": 18446744073709551615}"#).unwrap();
    assert_eq!(largest.timestamp_ms, u64::MAX);
    let zero = raw_message(r#"{"sender_name": "A", "timestamp_ms": 0}"#).unwrap();
    assert_eq!(zero.timestamp_ms, 0);
    assert_eq!(zero.message_type, None);
    assert_eq!(zero.reactions, None);
}

#[test]
fn null_reactions_are_no_reactions() {
    let message = raw_message(r#"{"sender_name": "A", "timestamp_ms": 1, "reactions": null}"#).unwrap();
    assert_eq!(message.reactions, None);
}

const FRAGMENT: &str = r#"{
    "participants": [{"name": "Alex"}],
    "messages": [
        {"sender_name": "Alex", "timestamp_ms": 1000, "content": "hÃ©"}
    ],
    "title": "Study Group",
    "is_still_participant": true,
    "thread_path": "inbox/studygroup_1",
    "magic_words": [],
    "image": {"uri": "x.jpg", "creation_timestamp": 1},
    "joinable_mode": {"mode": 1, "link": ""}
}"#;

#[test]
fn a_fragment_is_decoded_and_normalised() {
    let raw = decode_conversation(FRAGMENT.as_bytes()).unwrap();
    assert_eq!(raw.title, "Study Group");
    assert_eq!(raw.thread_path, "inbox/studygroup_1");
    assert_eq!(raw.metadata.is_still_participant, Some(true));
    assert_eq!(raw.metadata.magic_words, Some(vec![]));
    assert_eq!(raw.participants.len(), 1);
    assert_eq!(raw.participants[0].name, "Alex");
    assert_eq!(raw.messages.len(), 1);
    assert_eq!(raw.messages[0].message_type, Some(MessageType::Content("h\u{c3}\u{a9}".to_string())));
    assert_eq!(raw.get_title(), Ok("Study Group".to_string()));
    assert_eq!(raw.get_participants(), Ok(vec!["Alex".to_string()]));
    assert_eq!(raw.get_messages(), raw.messages);

    let conversation = raw_conversation_to_cleaned_conversation(raw).unwrap();
    assert_eq!(conversation.title, "Study Group");
    assert_eq!(conversation.participants, vec!["Alex".to_string()]);
    assert_eq!(conversation.messages.len(), 1);
    let message = &conversation.messages[0];
    assert_eq!(message.sender, "Alex");
    assert_eq!(message.timestamp, 1000);
    assert_eq!(message.content_type, ContentType::Text);
    assert_eq!(message.content, Some("hé".to_string()));
    assert_eq!(message.reactions, None);
}

#[test]
fn fragment_errors() {
    assert_eq!(decode_conversation(b"{not json").err(), Some(DecodeError::MalformedJson));
    assert_eq!(decode_conversation(b"").err(), Some(DecodeError::MalformedJson));
    assert_eq!(decode_conversation(b"{} trailing").err(), Some(DecodeError::MalformedJson));
    assert_eq!(decode_conversation(b"[]").err(), Some(DecodeError::UnexpectedType));
    assert_eq!(decode_conversation(b"{}").err(), Some(DecodeError::MissingField));
    assert_eq!(
        decode_conversation(br#"{"participants": [], "messages": [], "title": "T"}"#).err(),
        Some(DecodeError::MissingField)
    );
    assert_eq!(
        decode_conversation(br#"{"participants": {}, "messages": [], "title": "T", "thread_path": "p"}"#).err(),
        Some(DecodeError::UnexpectedType)
    );
    assert_eq!(
        decode_conversation(br#"{"participants": [{}], "messages": [], "title": "T", "thread_path": "p"}"#).err(),
        Some(DecodeError::MissingField)
    );
    assert_eq!(
        decode_conversation(
            br#"{"participants": [], "messages": [{"sender_name": "A", "timestamp_ms": 1, "gifs": [], "sticker": {}}], "title": "T", "thread_path": "p"}"#
        )
        .err(),
        Some(DecodeError::AmbiguousVariant)
    );
    let empty = decode_conversation(br#"{"participants": [], "messages": [], "title": "", "thread_path": ""}"#).unwrap();
    assert!(empty.participants.is_empty() && empty.messages.is_empty());
}

#[test]
fn the_first_failing_message_gives_the_error() {
    let json = br#"{"participants": [], "title": "T", "thread_path": "p", "messages": [
        {"sender_name": "A", "timestamp_ms": 1},
        {"sender_name": "A"},
        {"sender_name": "A", "timestamp_ms": 1, "gifs": [], "sticker": {}}
    ]}"#;
    assert_eq!(decode_conversation(json).err(), Some(DecodeError::MissingField));
}

fn text(value: &str) -> Json {
    Json::Text(value.to_string())
}

fn object(members: Vec<(&str, Json)>) -> Json {
    Json::Object(
        members.into_iter().map(|(key, value)| Member { key: key.to_string(), value }).collect(),
    )
}

#[test]
fn members_are_found_by_key() {
    let members = vec![
        Member { key: "a".to_string(), value: Json::Null },
        Member { key: "b".to_string(), value: Json::Bool(true) },
        Member { key: "a".to_string(), value: Json::Number(Some(1)) },
    ];
    assert_eq!(find_member(&members, "a"), Some(&Json::Null));
    assert_eq!(find_member(&members, "b"), Some(&Json::Bool(true)));
    assert_eq!(find_member(&members, "c"), None);
    assert_eq!(find_member(&members, ""), None);
    assert_eq!(find_member(&vec![], "a"), None);
}

#[test]
fn documents_built_by_hand_decode_like_parsed_ones() {
    let message = object(vec![
        ("sender_name", text("Alex")),
        ("timestamp_ms", Json::Number(Some(1000))),
        ("sticker", object(vec![("uri", text("stickers/a.png"))])),
        ("reactions", Json::Array(vec![object(vec![("reaction", text("x")), ("actor", text("Kim"))])])),
    ]);
    let decoded = decode_message(&message).unwrap();
    assert_eq!(
        decoded.message_type,
        Some(MessageType::Sticker(Sticker { uri: "stickers/a.png".to_string() }))
    );
    assert_eq!(decoded.reactions, Some(vec![Reaction::new("x".to_string(), "Kim".to_string())]));
    let fragment = object(vec![
        ("participants", Json::Array(vec![object(vec![("name", text("Alex"))])])),
        ("messages", Json::Array(vec![message])),
        ("title", text("T")),
        ("thread_path", text("p")),
    ]);
    let conversation = conversation_from_json(&fragment).unwrap();
    assert_eq!(conversation.messages, vec![decoded]);
    assert_eq!(conversation_from_json(&Json::Null).err(), Some(DecodeError::UnexpectedType));
    assert_eq!(
        decode_message(&object(vec![("sender_name", text("A")), ("timestamp_ms", Json::Number(None))])).err(),
        Some(DecodeError::UnexpectedType)
    );
}

#[test]
fn reactions_are_repaired() {
    let raw = raw_message(&shape(r#""photos": []"#, true)).unwrap();
    assert_eq!(
        raw.reactions,
        Some(vec![Reaction::new(
            "\u{f0}\u{9f}\u{91}\u{8d}".to_string(),
            "Zo\u{c3}\u{ab}".to_string()
        )])
    );
    let message = message_cleaner(&raw).unwrap();
    assert_eq!(message.reactions, Some(vec![Reaction::new("👍".to_string(), "Zoë".to_string())]));
}

fn failure(field: TextField, cause: EncodingRepairError) -> RepairFailure {
    RepairFailure { field, cause }
}

#[test]
fn text_that_cannot_be_repaired_fails_the_message() {
    let bad_sender = raw_message(r#"{"sender_name": "Zoë", "timestamp_ms": 1}"#).unwrap();
    assert_eq!(
        message_cleaner(&bad_sender).err(),
        Some(failure(TextField::Sender, EncodingRepairError::InvalidUtf8))
    );
    let bad_text = raw_message(r#"{"sender_name": "A", "timestamp_ms": 1, "content": "😂"}"#).unwrap();
    assert_eq!(
        message_cleaner(&bad_text).err(),
        Some(failure(TextField::Content, EncodingRepairError::NotLatin1))
    );
    let bad_actor = raw_message(
        r#"{"sender_name": "A", "timestamp_ms": 1, "reactions": [{"reaction": "ok", "actor": "€"}]}"#,
    )
    .unwrap();
    assert_eq!(
        message_cleaner(&bad_actor).err(),
        Some(failure(TextField::ReactionActor, EncodingRepairError::NotLatin1))
    );
    let bad_reaction = raw_message(
        r#"{"sender_name": "A", "timestamp_ms": 1, "reactions": [{"reaction": "ok", "actor": "B"}, {"reaction": "é", "actor": "€"}]}"#,
    )
    .unwrap();
    assert_eq!(
        message_cleaner(&bad_reaction).err(),
        Some(failure(TextField::Reaction, EncodingRepairError::InvalidUtf8))
    );
    let good = raw_message(r#"{"sender_name": "A", "timestamp_ms": 1}"#).unwrap();
    assert_eq!(
        raw_messages_to_cleaned_messages(vec![good, bad_text, bad_sender]).err(),
        Some(failure(TextField::Content, EncodingRepairError::NotLatin1))
    );
    assert_eq!(raw_messages_to_cleaned_messages(vec![]), Ok(vec![]));
}

#[test]
fn the_sender_is_repaired_before_the_text() {
    let both = raw_message(r#"{"sender_name": "Zoë", "timestamp_ms": 1, "content": "😂"}"#).unwrap();
    assert_eq!(
        message_cleaner(&both).err(),
        Some(failure(TextField::Sender, EncodingRepairError::InvalidUtf8))
    );
}

#[test]
fn a_field_is_repaired_under_its_name() {
    assert_eq!(repair_field("h\u{c3}\u{a9}", TextField::Title), Ok("hé".to_string()));
    assert_eq!(
        repair_field("hé", TextField::Title),
        Err(failure(TextField::Title, EncodingRepairError::InvalidUtf8))
    );
}

#[test]
fn a_fragment_with_bad_text_fails_as_a_whole() {
    let json = r#"{"participants": [{"name": "Zoë"}], "messages": [], "title": "T", "thread_path": "p"}"#;
    let raw = decode_conversation(json.as_bytes()).unwrap();
    assert_eq!(
        raw.get_participants(),
        Err(failure(TextField::ParticipantName, EncodingRepairError::InvalidUtf8))
    );
    assert_eq!(
        raw_conversation_to_cleaned_conversation(raw).err(),
        Some(failure(TextField::ParticipantName, EncodingRepairError::InvalidUtf8))
    );
    let json = r#"{"participants": [{"name": "Zoë"}], "messages": [], "title": "€", "thread_path": "p"}"#;
    let raw = decode_conversation(json.as_bytes()).unwrap();
    assert_eq!(raw.get_title(), Err(failure(TextField::Title, EncodingRepairError::NotLatin1)));
    assert_eq!(
        raw_conversation_to_cleaned_conversation(raw).err(),
        Some(failure(TextField::Title, EncodingRepairError::NotLatin1))
    );
}

#[test]
fn participants_are_kept_once() {
    let json = r#"{"participants": [{"name": "ZoÃ«"}, {"name": "Alex"}, {"name": "ZoÃ«"}, {"name": "Alex"}, {"name": "Kim"}],
        "messages": [], "title": "T", "thread_path": "p"}"#;
    let raw = decode_conversation(json.as_bytes()).unwrap();
    assert_eq!(raw.participants.len(), 5);
    let conversation = raw_conversation_to_cleaned_conversation(raw).unwrap();
    assert_eq!(conversation.participants, vec!["Zoë".to_string(), "Alex".to_string(), "Kim".to_string()]);
    assert_eq!(distinct_names(vec![]), Vec::<String>::new());
    assert_eq!(
        distinct_names(vec!["a".to_string(), "a".to_string(), "a".to_string()]),
        vec!["a".to_string()]
    );
}

#[test]
fn message_type_names() {
    let names = [
        (MessageType::Content("x".to_string()), "text"),
        (MessageType::Photos(vec![]), "photo"),
        (MessageType::Videos(vec![]), "video"),
        (MessageType::AudioFiles(vec![]), "audio"),
        (MessageType::Gifs(vec![Gif { uri: "a.gif".to_string() }]), "gif"),
        (MessageType::Sticker(Sticker { uri: "a.png".to_string() }), "sticker"),
        (MessageType::IsUnsent(true), "unsent"),
        (
            MessageType::BumpedMessageMetadata(BumpedMessageMetaData {
                bumped_message: "x".to_string(),
                is_bumped: true,
            }),
            "bumped",
        ),
    ];
    for (message_type, name) in names {
        assert_eq!(message_type.message_type_matching(), name);
        assert_eq!(message_type.kind().as_text(), name);
        assert_eq!(message_type.clone(), message_type);
    }
    assert_eq!(MessageType::Content("x".to_string()).get_text_if_exists(), Some("x".to_string()));
    assert_eq!(MessageType::Photos(vec![]).get_text_if_exists(), None);
    assert_eq!(ContentType::Empty.as_text(), "");
}

fn payload_of(key_and_value: &str) -> Result<Option<MessageType>, DecodeError> {
    raw_message(&shape(key_and_value, false)).map(|message| message.message_type)
}

#[test]
fn what_a_message_carries_is_kept() {
    assert_eq!(
        payload_of(r#""photos": [{"uri": "a.jpg", "creation_timestamp": 1}, {"uri": "b.jpg", "creation_timestamp": 2, "extra": null}]"#),
        Ok(Some(MessageType::Photos(vec![
            Photo { uri: "a.jpg".to_string(), creation_timestamp: 1 },
            Photo { uri: "b.jpg".to_string(), creation_timestamp: 2 },
        ])))
    );
    assert_eq!(
        payload_of(r#""videos": [{"uri": "a.mp4", "creation_timestamp": 3, "thumbnail": {"uri": "t.jpg"}}]"#),
        Ok(Some(MessageType::Videos(vec![Video { uri: "a.mp4".to_string(), creation_timestamp: 3 }])))
    );
    assert_eq!(
        payload_of(r#""audio_files": [{"uri": "a.mp3", "creation_timestamp": 4}]"#),
        Ok(Some(MessageType::AudioFiles(vec![Audio { uri: "a.mp3".to_string(), creation_timestamp: 4 }])))
    );
    assert_eq!(
        payload_of(r#""gifs": [{"uri": "a.gif"}, {"uri": "b.gif"}]"#),
        Ok(Some(MessageType::Gifs(vec![Gif { uri: "a.gif".to_string() }, Gif { uri: "b.gif".to_string() }])))
    );
    assert_eq!(
        payload_of(r#""sticker": {"uri": "a.png"}"#),
        Ok(Some(MessageType::Sticker(Sticker { uri: "a.png".to_string() })))
    );
    assert_eq!(payload_of(r#""is_unsent": false"#), Ok(Some(MessageType::IsUnsent(false))));
    assert_eq!(
        payload_of(r#""bumped_message_metadata": {"bumped_message": "hÃ©", "is_bumped": true}"#),
        Ok(Some(MessageType::BumpedMessageMetadata(BumpedMessageMetaData {
            bumped_message: "h\u{c3}\u{a9}".to_string(),
            is_bumped: true
        })))
    );
    assert_eq!(payload_of(""), Ok(None));
    assert_eq!(payload_of(r#""photos": []"#), Ok(Some(MessageType::Photos(vec![]))));
}

#[test]
fn what_a_message_carries_must_fit_its_key() {
    let wrong_type = [
        r#""photos": {}"#,
        r#""photos": [1]"#,
        r#""photos": [{"uri": 1, "creation_timestamp": 1}]"#,
        r#""videos": "a.mp4""#,
        r#""videos": [{"uri": "a.mp4", "creation_timestamp": "1"}]"#,
        r#""audio_files": null"#,
        r#""gifs": [["a.gif"]]"#,
        r#""sticker": "a.png""#,
        r#""sticker": null"#,
        r#""is_unsent": 1"#,
        r#""bumped_message_metadata": []"#,
        r#""bumped_message_metadata": {"bumped_message": "x", "is_bumped": "yes"}"#,
        r#""content": null"#,
    ];
    for key_and_value in wrong_type {
        assert_eq!(payload_of(key_and_value), Err(DecodeError::UnexpectedType));
    }
    let missing = [
        r#""photos": [{"uri": "a.jpg"}]"#,
        r#""videos": [{"creation_timestamp": 1}]"#,
        r#""audio_files": [{"uri": "a", "creation_timestamp": 1}, {}]"#,
        r#""gifs": [{}]"#,
        r#""sticker": {}"#,
        r#""bumped_message_metadata": {"bumped_message": "x"}"#,
        r#""bumped_message_metadata": {"is_bumped": true}"#,
    ];
    for key_and_value in missing {
        assert_eq!(payload_of(key_and_value), Err(DecodeError::MissingField));
    }
}
