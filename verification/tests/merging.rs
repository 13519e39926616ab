use chat_export::conversation::{ContentType, Conversation, Message, Reaction};

fn message(sender: &str, timestamp: u64, text: &str) -> Message {
    Message {
        sender: sender.to_string(),
        timestamp,
        content_type: ContentType::Text,
        content: Some(text.to_string()),
        reactions: None,
    }
}

fn conversation(title: &str, participants: &[&str], messages: Vec<Message>) -> Conversation {
    Conversation {
        title: title.to_string(),
        participants: participants.iter().map(|name| name.to_string()).collect(),
        messages,
    }
}

fn timestamps(conversation: &Conversation) -> Vec<u64> {
    conversation.messages.iter().map(|message| message.timestamp).collect()
}

fn texts(conversation: &Conversation) -> Vec<String> {
    conversation.messages.iter().map(|message| message.content.clone().unwrap()).collect()
}

#[test]
fn raw_merge_concatenates() {
    let one = conversation("A", &["Alex"], vec![message("Alex", 3000, "a"), message("Alex", 1000, "b")]);
    let two = conversation("B", &["Sam"], vec![message("Sam", 2000, "c")]);
    let merged = Conversation::merge_conversations(one, two);
    assert_eq!(timestamps(&merged), vec![3000, 1000, 2000]);
    assert_eq!(texts(&merged), vec!["a", "b", "c"]);
}

#[test]
fn sorted_merge_is_chronological() {
    let one = conversation("A", &["Alex"], vec![message("Alex", 3000, "a"), message("Alex", 1000, "b")]);
    let two = conversation("B", &["Sam"], vec![message("Sam", 2000, "c")]);
    let merged = Conversation::merge_sorted(one, two);
    assert_eq!(timestamps(&merged), vec![1000, 2000, 3000]);
    assert_eq!(texts(&merged), vec!["b", "c", "a"]);
}

#[test]
fn merge_takes_title_and_participants_from_the_first() {
    let one = conversation("Study Group", &["Alex", "Kim"], vec![message("Alex", 1, "a")]);
    let two = conversation("Other", &["Sam"], vec![message("Sam", 2, "b")]);
    let merged = Conversation::merge_conversations(one, two);
    assert_eq!(merged.title, "Study Group");
    assert_eq!(merged.participants, vec!["Alex".to_string(), "Kim".to_string()]);
    let one = conversation("Study Group", &["Alex", "Kim"], vec![message("Alex", 1, "a")]);
    let two = conversation("Other", &["Sam"], vec![message("Sam", 2, "b")]);
    let merged = Conversation::merge_sorted(one, two);
    assert_eq!(merged.title, "Study Group");
    assert_eq!(merged.participants, vec!["Alex".to_string(), "Kim".to_string()]);
}

#[test]
fn merging_with_no_messages_changes_nothing() {
    let none = conversation("A", &["Alex"], vec![]);
    let some = conversation("B", &["Sam"], vec![message("Sam", 5, "x"), message("Sam", 4, "y")]);
    let merged = Conversation::merge_conversations(none, some);
    assert_eq!(merged.messages, vec![message("Sam", 5, "x"), message("Sam", 4, "y")]);

    let none = conversation("A", &["Alex"], vec![]);
    let some = conversation("B", &["Sam"], vec![message("Sam", 5, "x"), message("Sam", 4, "y")]);
    let merged = Conversation::merge_conversations(some, none);
    assert_eq!(merged.messages, vec![message("Sam", 5, "x"), message("Sam", 4, "y")]);

    let merged = Conversation::merge_conversations(
        conversation("A", &[], vec![]),
        conversation("B", &[], vec![]),
    );
    assert!(merged.messages.is_empty());
}

#[test]
fn sorting_is_stable() {
    let messages = vec![
        message("a", 2, "first at 2"),
        message("b", 1, "first at 1"),
        message("c", 2, "second at 2"),
        message("d", 1, "second at 1"),
        message("e", 0, "only at 0"),
        message("f", 2, "third at 2"),
    ];
    let sorted = Message::sort_by_timestamp(messages);
    let texts: Vec<&str> = sorted.iter().map(|m| m.content.as_deref().unwrap()).collect();
    assert_eq!(
        texts,
        vec!["only at 0", "first at 1", "second at 1", "first at 2", "second at 2", "third at 2"]
    );
}

#[test]
fn sorting_long_lists() {
    // Newest first, as an export writes them, with every timestamp twice.
    let count: u64 = 5000;
    let newest_first: Vec<Message> = (0..count)
        .rev()
        .flat_map(|t| [message("a", t, &format!("{} first", t)), message("b", t, &format!("{} second", t))])
        .collect();
    let sorted = Message::sort_by_timestamp(newest_first);
    assert_eq!(sorted.len(), 2 * count as usize);
    for (place, found) in sorted.iter().enumerate() {
        let t = place as u64 / 2;
        let which = if place % 2 == 0 { "first" } else { "second" };
        assert_eq!(found.timestamp, t);
        assert_eq!(found.content, Some(format!("{} {}", t, which)));
    }
    // Against the stable sort of std, on timestamps that repeat without pattern.
    let mut seed: u64 = 12345;
    let scattered: Vec<Message> = (0..3001)
        .map(|place| {
            seed = seed.wrapping_mul(6364136223846793005).wrapping_add(1442695040888963407);
            message("c", (seed >> 33) % 97, &place.to_string())
        })
        .collect();
    let mut expected: Vec<(u64, String)> =
        scattered.iter().map(|m| (m.timestamp, m.content.clone().unwrap())).collect();
    expected.sort_by_key(|pair| pair.0);
    let sorted: Vec<(u64, String)> = Message::sort_by_timestamp(scattered)
        .into_iter()
        .map(|m| (m.timestamp, m.content.unwrap()))
        .collect();
    assert_eq!(sorted, expected);
}

#[test]
fn sorting_edge_cases() {
    assert!(Message::sort_by_timestamp(vec![]).is_empty());
    assert_eq!(Message::sort_by_timestamp(vec![message("a", 7, "x")]), vec![message("a", 7, "x")]);
    let sorted = Message::sort_by_timestamp(vec![
        message("a", u64::MAX, "last"),
        message("b", 0, "first"),
    ]);
    assert_eq!(sorted, vec![message("b", 0, "first"), message("a", u64::MAX, "last")]);
}

#[test]
fn sorted_merge_in_steps_does_not_depend_on_the_pairing() {
    let a = || conversation("T", &[], vec![message("a", 5, "a5"), message("a", 1, "a1")]);
    let b = || conversation("T", &[], vec![message("b", 3, "b3"), message("b", 5, "b5")]);
    let c = || conversation("T", &[], vec![message("c", 1, "c1"), message("c", 4, "c4")]);
    let left = Conversation::merge_sorted(Conversation::merge_sorted(a(), b()), c());
    let right = Conversation::merge_sorted(a(), Conversation::merge_sorted(b(), c()));
    assert_eq!(texts(&left), vec!["a1", "c1", "b3", "c4", "a5", "b5"]);
    assert_eq!(left.messages, right.messages);
}

#[test]
fn sorted_merge_holds_the_same_messages_either_way_round() {
    let a = || conversation("T", &[], vec![message("a", 5, "a5"), message("a", 1, "a1")]);
    let b = || conversation("T", &[], vec![message("b", 3, "b3"), message("b", 2, "b2")]);
    let one = Conversation::merge_sorted(a(), b());
    let other = Conversation::merge_sorted(b(), a());
    assert_eq!(texts(&one), vec!["a1", "b2", "b3", "a5"]);
    assert_eq!(one.messages, other.messages);
}

#[test]
fn messages_of_one_timestamp_follow_the_order_of_merging() {
    let a = || conversation("T", &[], vec![message("a", 1, "a1"), message("a", 2, "a2")]);
    let b = || conversation("T", &[], vec![message("b", 1, "b1"), message("b", 2, "b2")]);
    let one = Conversation::merge_sorted(a(), b());
    let other = Conversation::merge_sorted(b(), a());
    assert_eq!(texts(&one), vec!["a1", "b1", "a2", "b2"]);
    assert_eq!(texts(&other), vec!["b1", "a1", "b2", "a2"]);
    let mut left = texts(&one);
    let mut right = texts(&other);
    left.sort();
    right.sort();
    assert_eq!(left, right);
}

#[test]
fn sorted_merge_leaves_an_ordered_list_as_it_is() {
    let ordered = || conversation("T", &[], vec![message("a", 1, "x"), message("b", 1, "y"), message("a", 2, "z")]);
    let none = || conversation("N", &[], vec![]);
    assert_eq!(Conversation::merge_sorted(none(), ordered()).messages, ordered().messages);
    assert_eq!(Conversation::merge_sorted(ordered(), none()).messages, ordered().messages);
}

#[test]
fn getters_copy_the_fields() {
    let reacted = Message {
        sender: "Sam".to_string(),
        timestamp: 9,
        content_type: ContentType::Photo,
        content: None,
        reactions: Some(vec![Reaction::new("👍".to_string(), "Alex".to_string())]),
    };
    let c = conversation("Study Group", &["Alex", "Sam"], vec![message("Alex", 1, "hi"), reacted]);
    assert_eq!(c.get_title(), "Study Group");
    assert_eq!(c.get_participants(), vec!["Alex".to_string(), "Sam".to_string()]);
    assert_eq!(c.get_messages_as_message_type(), c.messages);
    let reaction = Reaction::new("👍".to_string(), "Alex".to_string());
    assert_eq!(reaction.get_reaction(), "👍");
    assert_eq!(reaction.get_actor(), "Alex");
    assert_eq!(reaction.clone(), reaction);
}
