//! The rows that a storage backend writes for a conversation: one per
//! message, keyed by the message's place, and one per reaction, pointing at
//! the row of the message it belongs to.

use crate::conversation::{message_views, Message, MessageView, Reaction, ReactionView};
use vstd::prelude::*;

verus! {

/// The row of one message.
#[derive(Debug, PartialEq, Eq)]
pub struct DatabaseMessage {
    pub message_id: usize,
    pub sender: String,
    /// The timestamp as date and time of day in UTC.
    pub date_time: String,
    pub content_type: String,
    /// The text; empty where the message has none.
    pub content: String,
    pub timestamp: u64,
}

/// The row of a message as plain values.
pub struct DatabaseMessageView {
    pub message_id: nat,
    pub sender: Seq<char>,
    pub date_time: Seq<char>,
    pub content_type: Seq<char>,
    pub content: Seq<char>,
    pub timestamp: u64,
}

impl View for DatabaseMessage {
    type V = DatabaseMessageView;

    open spec fn view(&self) -> DatabaseMessageView {
        DatabaseMessageView {
            message_id: self.message_id as nat,
            sender: self.sender@,
            date_time: self.date_time@,
            content_type: self.content_type@,
            content: self.content@,
            timestamp: self.timestamp,
        }
    }
}

/// The row of one reaction.
#[derive(Debug, PartialEq, Eq)]
pub struct DatabaseReaction {
    pub reactor: String,
    pub reaction: String,
    /// The identifier of the row of the message reacted to.
    pub message_id: usize,
    /// The sender of that message.
    pub message_owner: String,
}

/// The row of a reaction as plain values.
pub struct DatabaseReactionView {
    pub reactor: Seq<char>,
    pub reaction: Seq<char>,
    pub message_id: nat,
    pub message_owner: Seq<char>,
}

impl View for DatabaseReaction {
    type V = DatabaseReactionView;

    open spec fn view(&self) -> DatabaseReactionView {
        DatabaseReactionView {
            reactor: self.reactor@,
            reaction: self.reaction@,
            message_id: self.message_id as nat,
            message_owner: self.message_owner@,
        }
    }
}

/// The text that `chrono` writes for the moment `seconds` after the epoch, in
/// UTC and after `pattern`; `None` where the moment is out of its range or it
/// cannot use the pattern.
pub uninterp spec fn formatted_utc(seconds: i64, pattern: Seq<char>) -> Option<Seq<char>>;

/// The pattern of a row's date and time: day, then the time on a 12-hour
/// clock.
pub open spec fn date_time_pattern() -> Seq<char> {
    "%Y-%m-%d %I:%M %p"@
}

/// The date and time of a timestamp in milliseconds: that of its whole
/// seconds.
pub open spec fn date_time_of(timestamp: u64) -> Option<Seq<char>> {
    formatted_utc((timestamp / 1000) as i64, date_time_pattern())
}

/// The row of `message` under the identifier `id`, with `date_time` for its
/// date.
pub open spec fn message_row(
    message: MessageView,
    id: nat,
    date_time: Seq<char>,
) -> DatabaseMessageView {
    DatabaseMessageView {
        message_id: id,
        sender: message.sender,
        date_time,
        content_type: message.content_type.label(),
        content: match message.content {
            Some(text) => text,
            None => Seq::empty(),
        },
        timestamp: message.timestamp,
    }
}

/// The row of `reaction` to the message of `owner` whose row is `id`.
pub open spec fn reaction_row(
    reaction: ReactionView,
    id: nat,
    owner: Seq<char>,
) -> DatabaseReactionView {
    DatabaseReactionView {
        reactor: reaction.actor,
        reaction: reaction.reaction,
        message_id: id,
        message_owner: owner,
    }
}

/// The rows of the reactions to one message, in their order.
pub open spec fn reaction_rows_of(message: MessageView, id: nat) -> Seq<DatabaseReactionView> {
    match message.reactions {
        None => Seq::empty(),
        Some(reactions) => Seq::new(
            reactions.len(),
            |k: int| reaction_row(reactions[k], id, message.sender),
        ),
    }
}

/// The rows of all reactions: message by message, each under the place of
/// its message.
pub open spec fn reaction_rows(messages: Seq<MessageView>) -> Seq<DatabaseReactionView>
    decreases messages.len(),
{
    if messages.len() == 0 {
        Seq::empty()
    } else {
        reaction_rows(messages.drop_last()) + reaction_rows_of(
            messages.last(),
            (messages.len() - 1) as nat,
        )
    }
}

/// The views of a run of reaction rows.
pub open spec fn reaction_row_views(rows: Seq<DatabaseReaction>) -> Seq<DatabaseReactionView> {
    rows.map_values(|row: DatabaseReaction| row@)
}

/// `DateTime::<Utc>::from_timestamp` of `chrono`, then `format` with
/// `pattern`, written out with `DelayedFormat::write_to`. Trusted: the text
/// depends on the seconds and the pattern alone.
#[verifier::external_body]
fn format_utc(seconds: i64, pattern: &str) -> (text: Option<String>)
    ensures
        text is Some <==> formatted_utc(seconds, pattern@) is Some,
        text matches Some(t) ==> formatted_utc(seconds, pattern@) == Some(t@),
{
    let moment = chrono::DateTime::<chrono::Utc>::from_timestamp(seconds, 0)?;
    let mut text = String::new();
    moment.format(pattern).write_to(&mut text).ok()?;
    Some(text)
}

/// The date and time of a timestamp in milliseconds, in UTC; `None` where the
/// calendar does not reach that far.
pub fn epoch_date_time(epoch: u64) -> (text: Option<String>)
    ensures
        text is Some <==> date_time_of(epoch) is Some,
        text matches Some(t) ==> date_time_of(epoch) == Some(t@),
{
    let seconds: u64 = epoch / 1000;
    format_utc(seconds as i64, "%Y-%m-%d %I:%M %p")
}

impl DatabaseMessage {
    /// The row of `message` under `id_num`, given the text of its date.
    pub fn with_date_time(message: &Message, id_num: usize, date_time: String) -> (row: Self)
        ensures
            row@ == message_row(message@, id_num as nat, date_time@),
    {
        let content = match &message.content {
            Some(text) => text.clone(),
            None => String::new(),
        };
        DatabaseMessage {
            message_id: id_num,
            sender: message.sender.clone(),
            date_time,
            content_type: message.content_type.as_text().to_owned(),
            content,
            timestamp: message.timestamp,
        }
    }

    /// The row of `message` under `id_num`; `None` where its timestamp has no
    /// date.
    pub fn new(message: &Message, id_num: usize) -> (row: Option<Self>)
        ensures
            row is Some <==> date_time_of(message.timestamp) is Some,
            row matches Some(r) ==> date_time_of(message.timestamp) matches Some(date_time)
                && r@ == message_row(message@, id_num as nat, date_time),
    {
        match epoch_date_time(message.timestamp) {
            Some(date_time) => Some(DatabaseMessage::with_date_time(message, id_num, date_time)),
            None => None,
        }
    }
}

impl DatabaseReaction {
    /// The row of `reaction` to the message of `owner` whose row is `id`.
    pub fn new(reaction: &Reaction, id: usize, owner: String) -> (row: Self)
        ensures
            row@ == reaction_row(reaction@, id as nat, owner@),
    {
        DatabaseReaction {
            reactor: reaction.actor.clone(),
            reaction: reaction.reaction.clone(),
            message_id: id,
            message_owner: owner,
        }
    }
}

/// The rows of `messages`, each under its place in the list, counted from 0;
/// `None` where a timestamp has no date.
pub fn message_batch_preparation(messages: &[Message]) -> (rows: Option<Vec<DatabaseMessage>>)
    ensures
        rows is Some <==> forall|i: int|
            0 <= i < messages@.len() ==> date_time_of(#[trigger] messages@[i].timestamp) is Some,
        rows matches Some(rows) ==> rows@.len() == messages@.len() && forall|i: int|
            0 <= i < messages@.len() ==> (#[trigger] rows@[i])@ == message_row(
                messages@[i]@,
                i as nat,
                date_time_of(messages@[i].timestamp).unwrap(),
            ),
{
    let mut rows: Vec<DatabaseMessage> = Vec::new();
    let mut i: usize = 0;
    while i < messages.len()
        invariant
            i <= messages@.len(),
            rows@.len() == i,
            forall|k: int|
                0 <= k < i ==> date_time_of(#[trigger] messages@[k].timestamp) is Some,
            forall|k: int|
                0 <= k < i ==> (#[trigger] rows@[k])@ == message_row(
                    messages@[k]@,
                    k as nat,
                    date_time_of(messages@[k].timestamp).unwrap(),
                ),
        decreases messages@.len() - i,
    {
        match DatabaseMessage::new(&messages[i], i) {
            Some(row) => {
                rows.push(row);
            },
            None => {
                assert(date_time_of(messages@[i as int].timestamp) is None);
                return None;
            },
        }
        i += 1;
    }
    Some(rows)
}

/// The rows of all reactions to `messages`: message by message, in the
/// reactions' order, each pointing at the row of its message.
pub fn reaction_batch_preparation(messages: &[Message]) -> (rows: Vec<DatabaseReaction>)
    ensures
        reaction_row_views(rows@) == reaction_rows(message_views(messages@)),
{
    let ghost views = message_views(messages@);
    let mut rows: Vec<DatabaseReaction> = Vec::new();
    let mut i: usize = 0;
    assert(views.take(0) == Seq::<MessageView>::empty());
    while i < messages.len()
        invariant
            i <= messages@.len(),
            views == message_views(messages@),
            reaction_row_views(rows@) == reaction_rows(views.take(i as int)),
        decreases messages@.len() - i,
    {
        let message = &messages[i];
        let ghost before = reaction_row_views(rows@);
        assert(views.take(i + 1).drop_last() == views.take(i as int));
        assert(views.take(i + 1).last() == message@);
        match &message.reactions {
            None => {
                assert(before + Seq::<DatabaseReactionView>::empty() == before);
            },
            Some(reactions) => {
                let mut k: usize = 0;
                while k < reactions.len()
                    invariant
                        k <= reactions@.len(),
                        message.reactions == Some(*reactions),
                        reaction_row_views(rows@) == before + reaction_rows_of(
                            message@,
                            i as nat,
                        ).take(k as int),
                    decreases reactions@.len() - k,
                {
                    let row = DatabaseReaction::new(&reactions[k], i, message.sender.clone());
                    assert(reaction_row_views(rows@.push(row)) == reaction_row_views(rows@).push(
                        row@,
                    ));
                    assert(reaction_rows_of(message@, i as nat).take(k + 1) == reaction_rows_of(
                        message@,
                        i as nat,
                    ).take(k as int).push(row@));
                    rows.push(row);
                    k += 1;
                }
                assert(reaction_rows_of(message@, i as nat).take(reactions@.len() as int)
                    == reaction_rows_of(message@, i as nat));
            },
        }
        i += 1;
    }
    assert(views.take(messages@.len() as int) == views);
    rows
}

} // verus!
