//! The canonical records: reactions, messages and conversations, with the
//! two ways of merging fragments of one thread.

use crate::chronology::{is_chronological_order_of, lemma_order_keeps_well_formed};
use vstd::prelude::*;

verus! {

/// What a message carries. Only `Text` keeps its payload.
#[derive(Debug, Clone, Copy, PartialEq, Eq, Structural)]
pub enum ContentType {
    Text,
    Photo,
    Video,
    Audio,
    Gif,
    Sticker,
    Bumped,
    Unsent,
    Empty,
}

impl ContentType {
    /// The kind's name as storage writes it; a message without content has
    /// none.
    pub open spec fn label(self) -> Seq<char> {
        match self {
            ContentType::Text => "text"@,
            ContentType::Photo => "photo"@,
            ContentType::Video => "video"@,
            ContentType::Audio => "audio"@,
            ContentType::Gif => "gif"@,
            ContentType::Sticker => "sticker"@,
            ContentType::Bumped => "bumped"@,
            ContentType::Unsent => "unsent"@,
            ContentType::Empty => ""@,
        }
    }

    /// The kind's name as storage writes it.
    pub fn as_text(&self) -> (label: &'static str)
        ensures
            label@ == self.label(),
    {
        match self {
            ContentType::Text => "text",
            ContentType::Photo => "photo",
            ContentType::Video => "video",
            ContentType::Audio => "audio",
            ContentType::Gif => "gif",
            ContentType::Sticker => "sticker",
            ContentType::Bumped => "bumped",
            ContentType::Unsent => "unsent",
            ContentType::Empty => "",
        }
    }
}

/// One reaction to a message. In a raw message its texts are as the export
/// holds them; in a canonical message both are repaired.
#[derive(Debug, PartialEq, Eq)]
pub struct Reaction {
    pub reaction: String,
    pub actor: String,
}

/// A reaction as plain text.
pub struct ReactionView {
    pub reaction: Seq<char>,
    pub actor: Seq<char>,
}

impl View for Reaction {
    type V = ReactionView;

    open spec fn view(&self) -> ReactionView {
        ReactionView { reaction: self.reaction@, actor: self.actor@ }
    }
}

impl Clone for Reaction {
    fn clone(&self) -> (copy: Self)
        ensures
            copy == *self,
    {
        Reaction { reaction: self.reaction.clone(), actor: self.actor.clone() }
    }
}

impl Reaction {
    /// The reaction `reaction` of `actor`.
    pub fn new(reaction: String, actor: String) -> (made: Reaction)
        ensures
            made.reaction == reaction,
            made.actor == actor,
    {
        Reaction { reaction, actor }
    }

    /// The emoji or short text of the reaction.
    pub fn get_reaction(&self) -> (text: String)
        ensures
            text == self.reaction,
    {
        self.reaction.clone()
    }

    /// The name of the participant who reacted.
    pub fn get_actor(&self) -> (text: String)
        ensures
            text == self.actor,
    {
        self.actor.clone()
    }
}

/// The views of a run of reactions.
pub open spec fn reaction_views(reactions: Seq<Reaction>) -> Seq<ReactionView> {
    reactions.map_values(|r: Reaction| r@)
}

/// A copy of `reactions`, item for item.
pub fn clone_reactions(reactions: &Vec<Reaction>) -> (copy: Vec<Reaction>)
    ensures
        copy@ == reactions@,
{
    let mut copy: Vec<Reaction> = Vec::new();
    let mut i: usize = 0;
    while i < reactions.len()
        invariant
            i <= reactions.len(),
            copy@ == reactions@.take(i as int),
        decreases reactions.len() - i,
    {
        copy.push(reactions[i].clone());
        assert(reactions@.take(i + 1) == reactions@.take(i as int).push(reactions@[i as int]));
        i += 1;
    }
    assert(reactions@.take(reactions@.len() as int) == reactions@);
    copy
}

/// The canonical message.
#[derive(Debug, PartialEq, Eq)]
pub struct Message {
    pub sender: String,
    /// Milliseconds since the epoch, as the export gave them.
    pub timestamp: u64,
    pub content_type: ContentType,
    pub content: Option<String>,
    pub reactions: Option<Vec<Reaction>>,
}

/// A message as plain values.
pub struct MessageView {
    pub sender: Seq<char>,
    pub timestamp: u64,
    pub content_type: ContentType,
    pub content: Option<Seq<char>>,
    pub reactions: Option<Seq<ReactionView>>,
}

impl View for Message {
    type V = MessageView;

    open spec fn view(&self) -> MessageView {
        MessageView {
            sender: self.sender@,
            timestamp: self.timestamp,
            content_type: self.content_type,
            content: match self.content {
                Some(text) => Some(text@),
                None => None,
            },
            reactions: match self.reactions {
                Some(reactions) => Some(reaction_views(reactions@)),
                None => None,
            },
        }
    }
}

impl Clone for Message {
    fn clone(&self) -> (copy: Self)
        ensures
            copy@ == self@,
    {
        let content = match &self.content {
            Some(text) => Some(text.clone()),
            None => None,
        };
        let reactions = match &self.reactions {
            Some(reactions) => Some(clone_reactions(reactions)),
            None => None,
        };
        Message {
            sender: self.sender.clone(),
            timestamp: self.timestamp,
            content_type: self.content_type,
            content,
            reactions,
        }
    }
}

/// Every message of `messages` carries text exactly when it is a text message.
pub open spec fn all_well_formed(messages: Seq<Message>) -> bool {
    forall|i: int| 0 <= i < messages.len() ==> (#[trigger] messages[i]).well_formed()
}

impl Message {
    /// The invariant of a canonical message: text is there for `Text` and for
    /// nothing else.
    pub open spec fn well_formed(&self) -> bool {
        self.content_type == ContentType::Text <==> self.content is Some
    }

    /// The messages of the first list, then those of the second.
    pub fn merge_messages(messages_one: Vec<Message>, messages_two: Vec<Message>) -> (merged: Vec<
        Message,
    >)
        ensures
            merged@ == messages_one@ + messages_two@,
    {
        let mut merged = messages_one;
        let mut rest = messages_two;
        merged.append(&mut rest);
        merged
    }
}

/// The views of a run of messages.
pub open spec fn message_views(messages: Seq<Message>) -> Seq<MessageView> {
    messages.map_values(|m: Message| m@)
}

/// The names of `participants` as plain text.
pub open spec fn name_views(participants: Seq<String>) -> Seq<Seq<char>> {
    participants.map_values(|name: String| name@)
}

/// What raw merging makes of two message lists: the first, then the second.
pub open spec fn merged_messages(one: Seq<Message>, two: Seq<Message>) -> Seq<Message> {
    one + two
}

/// A copy of `messages`, message for message.
pub fn clone_messages(messages: &Vec<Message>) -> (copy: Vec<Message>)
    ensures
        message_views(copy@) == message_views(messages@),
{
    let mut copy: Vec<Message> = Vec::new();
    let mut i: usize = 0;
    while i < messages.len()
        invariant
            i <= messages.len(),
            copy@.len() == i,
            forall|k: int| 0 <= k < i ==> copy@[k]@ == messages@[k]@,
        decreases messages.len() - i,
    {
        copy.push(messages[i].clone());
        i += 1;
    }
    assert(message_views(copy@) =~= message_views(messages@));
    copy
}

/// One logical conversation: a fragment as decoded, or several merged.
#[derive(Debug, PartialEq, Eq)]
pub struct Conversation {
    pub title: String,
    /// The participants' names, each once.
    pub participants: Vec<String>,
    /// The messages in file order, which need not be the order of time.
    pub messages: Vec<Message>,
}

/// A conversation as plain values.
pub struct ConversationView {
    pub title: Seq<char>,
    pub participants: Seq<Seq<char>>,
    pub messages: Seq<MessageView>,
}

impl View for Conversation {
    type V = ConversationView;

    open spec fn view(&self) -> ConversationView {
        ConversationView {
            title: self.title@,
            participants: name_views(self.participants@),
            messages: message_views(self.messages@),
        }
    }
}

impl Conversation {
    /// No name occurs twice, and every message is well formed.
    pub open spec fn well_formed(&self) -> bool {
        &&& name_views(self.participants@).no_duplicates()
        &&& all_well_formed(self.messages@)
    }

    /// Raw merging: title and participants of the first conversation, and the
    /// messages of the first followed by those of the second. Nothing is
    /// sorted, and the two are not checked to be one thread.
    pub fn merge_conversations(
        conversation_one: Conversation,
        conversation_two: Conversation,
    ) -> (merged: Conversation)
        ensures
            merged.title == conversation_one.title,
            merged.participants == conversation_one.participants,
            merged.messages@ == merged_messages(
                conversation_one.messages@,
                conversation_two.messages@,
            ),
            conversation_one.well_formed() && conversation_two.well_formed()
                ==> merged.well_formed(),
    {
        Conversation {
            participants: conversation_one.participants,
            messages: Message::merge_messages(conversation_one.messages, conversation_two.messages),
            title: conversation_one.title,
        }
    }

    /// Chronological merging: as `merge_conversations`, with the messages then
    /// put in the order of their timestamps; those of one timestamp stay as
    /// raw merging left them.
    pub fn merge_sorted(
        conversation_one: Conversation,
        conversation_two: Conversation,
    ) -> (merged: Conversation)
        ensures
            merged.title == conversation_one.title,
            merged.participants == conversation_one.participants,
            is_chronological_order_of(
                merged.messages@,
                merged_messages(conversation_one.messages@, conversation_two.messages@),
            ),
            conversation_one.well_formed() && conversation_two.well_formed()
                ==> merged.well_formed(),
    {
        let ghost one = conversation_one.messages@;
        let ghost two = conversation_two.messages@;
        let raw = Conversation::merge_conversations(conversation_one, conversation_two);
        let messages = Message::sort_by_timestamp(raw.messages);
        proof {
            if all_well_formed(one) && all_well_formed(two) {
                lemma_order_keeps_well_formed(messages@, raw.messages@);
            }
        }
        Conversation { title: raw.title, participants: raw.participants, messages }
    }

    /// A copy of the title.
    pub fn get_title(&self) -> (title: String)
        ensures
            title == self.title,
    {
        self.title.clone()
    }

    /// A copy of the messages, in their order.
    pub fn get_messages_as_message_type(&self) -> (messages: Vec<Message>)
        ensures
            message_views(messages@) == self@.messages,
    {
        clone_messages(&self.messages)
    }

    /// A copy of the participants' names, in their order.
    pub fn get_participants(&self) -> (participants: Vec<String>)
        ensures
            participants@ == self.participants@,
    {
        let mut participants: Vec<String> = Vec::new();
        let mut i: usize = 0;
        while i < self.participants.len()
            invariant
                i <= self.participants.len(),
                participants@ == self.participants@.take(i as int),
            decreases self.participants.len() - i,
        {
            participants.push(self.participants[i].clone());
            assert(self.participants@.take(i + 1) == self.participants@.take(i as int).push(
                self.participants@[i as int],
            ));
            i += 1;
        }
        assert(self.participants@.take(self.participants@.len() as int) == self.participants@);
        participants
    }
}

/// Raw merging with a conversation without messages, on either side, leaves
/// the other's messages as they are.
pub proof fn lemma_merge_with_no_messages(none: Seq<Message>, messages: Seq<Message>)
    requires
        none.len() == 0,
    ensures
        merged_messages(none, messages) == messages,
        merged_messages(messages, none) == messages,
{
    assert(none + messages =~= messages);
    assert(messages + none =~= messages);
}

/// Raw merging is associative: fragments merged pair by pair give the same
/// messages however the pairs are taken.
pub proof fn lemma_merge_associative(one: Seq<Message>, two: Seq<Message>, three: Seq<Message>)
    ensures
        merged_messages(merged_messages(one, two), three) == merged_messages(
            one,
            merged_messages(two, three),
        ),
{
    assert((one + two) + three =~= one + (two + three));
}

} // verus!
