use chat_export::conversation::{ContentType, Message, Reaction};
use chat_export::storage::{
    epoch_date_time, message_batch_preparation, reaction_batch_preparation, DatabaseMessage,
    DatabaseReaction,
};

fn message(sender: &str, timestamp: u64, text: Option<&str>, reactions: Option<Vec<Reaction>>) -> Message {
    Message {
        sender: sender.to_string(),
        timestamp,
        content_type: if text.is_some() { ContentType::Text } else { ContentType::Photo },
        content: text.map(|t| t.to_string()),
        reactions,
    }
}

fn reaction(reaction: &str, actor: &str) -> Reaction {
    Reaction::new(reaction.to_string(), actor.to_string())
}

#[test]
fn dates_are_written_in_utc_on_a_12_hour_clock() {
    assert_eq!(epoch_date_time(0), Some("1970-01-01 12:00 AM".to_string()));
    assert_eq!(epoch_date_time(999), Some("1970-01-01 12:00 AM".to_string()));
    assert_eq!(epoch_date_time(1_431_648_000_000), Some("2015-05-15 12:00 AM".to_string()));
    assert_eq!(epoch_date_time(1_431_648_000_000 + 13 * 3_600_000 + 5 * 60_000 + 59_999), Some("2015-05-15 01:05 PM".to_string()));
    assert_eq!(epoch_date_time(1_700_000_000_123), Some("2023-11-14 10:13 PM".to_string()));
}

#[test]
fn dates_beyond_the_calendar_are_none() {
    assert_eq!(epoch_date_time(u64::MAX), None);
    assert_eq!(DatabaseMessage::new(&message("A", u64::MAX, None, None), 0), None);
    let messages = vec![message("A", 1000, None, None), message("B", u64::MAX, None, None)];
    assert_eq!(message_batch_preparation(&messages), None);
}

#[test]
fn message_rows() {
    let messages = vec![
        message("Alex", 1_431_648_000_000, Some("hé"), None),
        message("Sam", 1_431_648_060_000, None, Some(vec![reaction("👍", "Alex")])),
        Message {
            sender: "Kim".to_string(),
            timestamp: 0,
            content_type: ContentType::Empty,
            content: None,
            reactions: None,
        },
    ];
    let rows = message_batch_preparation(&messages).unwrap();
    assert_eq!(
        rows,
        vec![
            DatabaseMessage {
                message_id: 0,
                sender: "Alex".to_string(),
                date_time: "2015-05-15 12:00 AM".to_string(),
                content_type: "text".to_string(),
                content: "hé".to_string(),
                timestamp: 1_431_648_000_000,
            },
            DatabaseMessage {
                message_id: 1,
                sender: "Sam".to_string(),
                date_time: "2015-05-15 12:01 AM".to_string(),
                content_type: "photo".to_string(),
                content: String::new(),
                timestamp: 1_431_648_060_000,
            },
            DatabaseMessage {
                message_id: 2,
                sender: "Kim".to_string(),
                date_time: "1970-01-01 12:00 AM".to_string(),
                content_type: String::new(),
                content: String::new(),
                timestamp: 0,
            },
        ]
    );
    assert_eq!(message_batch_preparation(&[]), Some(vec![]));
    assert_eq!(
        DatabaseMessage::with_date_time(&messages[0], 7, "then".to_string()),
        DatabaseMessage {
            message_id: 7,
            sender: "Alex".to_string(),
            date_time: "then".to_string(),
            content_type: "text".to_string(),
            content: "hé".to_string(),
            timestamp: 1_431_648_000_000,
        }
    );
}

#[test]
fn reaction_rows_point_at_their_message() {
    let messages = vec![
        message("Alex", 1, Some("a"), None),
        message("Sam", 2, None, Some(vec![reaction("👍", "Alex"), reaction("❤", "Kim")])),
        message("Kim", 3, Some("c"), Some(vec![])),
        message("Alex", 4, Some("d"), Some(vec![reaction("😂", "Sam")])),
    ];
    let rows = reaction_batch_preparation(&messages);
    let row = |reactor: &str, reaction: &str, message_id: usize, owner: &str| DatabaseReaction {
        reactor: reactor.to_string(),
        reaction: reaction.to_string(),
        message_id,
        message_owner: owner.to_string(),
    };
    assert_eq!(
        rows,
        vec![row("Alex", "👍", 1, "Sam"), row("Kim", "❤", 1, "Sam"), row("Sam", "😂", 3, "Alex")]
    );
    let ids: Vec<usize> = message_batch_preparation(&messages).unwrap().iter().map(|m| m.message_id).collect();
    assert!(rows.iter().all(|r| ids.contains(&r.message_id)));
    assert_eq!(reaction_batch_preparation(&[]), vec![]);
    assert_eq!(
        DatabaseReaction::new(&reaction("👍", "Alex"), 5, "Sam".to_string()),
        row("Alex", "👍", 5, "Sam")
    );
}
