//! Normalisation: from the raw model to the canonical records, every text
//! repaired on the way.

use crate::conversation::{
    all_well_formed, message_views, name_views, reaction_views, ContentType, Conversation,
    ConversationView, Message, MessageView, Reaction, ReactionView,
};
use crate::decoder::{
    participant_names, raw_message_views, RawConversation, RawConversationView, RawMessage,
};
use crate::payload::MessageType;
use crate::repair::{demojibake, repaired, EncodingRepairError};
use crate::sequence::{
    all_or_first_error, followed_by, lemma_conversion_ends, lemma_conversion_starts,
    lemma_conversion_step,
};
use crate::text::same_text;
use vstd::prelude::*;

verus! {

/// The places of a fragment that hold text.
#[derive(Debug, Clone, Copy, PartialEq, Eq, Structural)]
pub enum TextField {
    Title,
    ParticipantName,
    Sender,
    Content,
    Reaction,
    ReactionActor,
}

/// A text that cannot be repaired: where it stands, and why it cannot.
#[derive(Debug, Clone, Copy, PartialEq, Eq, Structural)]
pub struct RepairFailure {
    pub field: TextField,
    pub cause: EncodingRepairError,
}

/// The text of `field` repaired, or the failure with the field's name on it.
pub open spec fn repaired_field(text: Seq<char>, field: TextField) -> Result<
    Seq<char>,
    RepairFailure,
> {
    match repaired(text) {
        Ok(fixed) => Ok(fixed),
        Err(cause) => Err(RepairFailure { field, cause }),
    }
}

/// Repairs the text of `field`.
pub fn repair_field(text: &str, field: TextField) -> (fixed: Result<String, RepairFailure>)
    ensures
        fixed matches Ok(t) ==> repaired_field(text@, field) == Ok::<Seq<char>, RepairFailure>(
            t@,
        ),
        fixed matches Err(e) ==> repaired_field(text@, field) == Err::<Seq<char>, RepairFailure>(
            e,
        ),
{
    match demojibake(text) {
        Ok(fixed) => Ok(fixed),
        Err(cause) => Err(RepairFailure { field, cause }),
    }
}

/// A reaction with both texts repaired; the reaction's text is tried first.
pub open spec fn repaired_reaction(raw: ReactionView) -> Result<ReactionView, RepairFailure> {
    match repaired_field(raw.reaction, TextField::Reaction) {
        Err(e) => Err(e),
        Ok(reaction) => match repaired_field(raw.actor, TextField::ReactionActor) {
            Err(e) => Err(e),
            Ok(actor) => Ok(ReactionView { reaction, actor }),
        },
    }
}

/// A list of reactions, each repaired.
pub open spec fn repaired_reactions(raw: Seq<ReactionView>) -> Result<
    Seq<ReactionView>,
    RepairFailure,
> {
    all_or_first_error(raw, |reaction: ReactionView| repaired_reaction(reaction))
}

/// The text of a message repaired, where there is one.
pub open spec fn repaired_content(raw: Option<Seq<char>>) -> Result<
    Option<Seq<char>>,
    RepairFailure,
> {
    match raw {
        None => Ok(None),
        Some(text) => match repaired_field(text, TextField::Content) {
            Err(e) => Err(e),
            Ok(text) => Ok(Some(text)),
        },
    }
}

/// The reactions of a message repaired, where there are any.
pub open spec fn repaired_optional_reactions(raw: Option<Seq<ReactionView>>) -> Result<
    Option<Seq<ReactionView>>,
    RepairFailure,
> {
    match raw {
        None => Ok(None),
        Some(reactions) => match repaired_reactions(reactions) {
            Err(e) => Err(e),
            Ok(reactions) => Ok(Some(reactions)),
        },
    }
}

/// The canonical message of a raw one: kind and timestamp as they are, the
/// sender, the text and the reactions repaired, in that order.
pub open spec fn normalized_message(raw: MessageView) -> Result<MessageView, RepairFailure> {
    match repaired_field(raw.sender, TextField::Sender) {
        Err(e) => Err(e),
        Ok(sender) => match repaired_content(raw.content) {
            Err(e) => Err(e),
            Ok(content) => match repaired_optional_reactions(raw.reactions) {
                Err(e) => Err(e),
                Ok(reactions) => Ok(
                    MessageView {
                        sender,
                        timestamp: raw.timestamp,
                        content_type: raw.content_type,
                        content,
                        reactions,
                    },
                ),
            },
        },
    }
}

/// A list of raw messages, each made canonical.
pub open spec fn normalized_messages(raw: Seq<MessageView>) -> Result<
    Seq<MessageView>,
    RepairFailure,
> {
    all_or_first_error(raw, |message: MessageView| normalized_message(message))
}

/// A list of names, each repaired.
pub open spec fn repaired_names(raw: Seq<Seq<char>>) -> Result<
    Seq<Seq<char>>,
    RepairFailure,
> {
    all_or_first_error(raw, |name: Seq<char>| repaired_field(name, TextField::ParticipantName))
}

/// The names of `names` without repetition: each where it first occurs.
pub open spec fn distinct(names: Seq<Seq<char>>) -> Seq<Seq<char>>
    decreases names.len(),
{
    if names.len() == 0 {
        Seq::empty()
    } else {
        let before = distinct(names.drop_last());
        if before.contains(names.last()) {
            before
        } else {
            before.push(names.last())
        }
    }
}

/// The canonical conversation of a raw fragment: the title repaired, the
/// names repaired and each kept once, the messages made canonical. The first
/// text that cannot be repaired, in that order, gives the error.
pub open spec fn normalized_conversation(raw: RawConversationView) -> Result<
    ConversationView,
    RepairFailure,
> {
    match repaired_field(raw.title, TextField::Title) {
        Err(e) => Err(e),
        Ok(title) => match repaired_names(raw.participants) {
            Err(e) => Err(e),
            Ok(names) => match normalized_messages(raw.messages) {
                Err(e) => Err(e),
                Ok(messages) => Ok(
                    ConversationView { title, participants: distinct(names), messages },
                ),
            },
        },
    }
}

/// `distinct` repeats no name and loses none.
pub proof fn lemma_distinct(names: Seq<Seq<char>>)
    ensures
        distinct(names).no_duplicates(),
        forall|name: Seq<char>| distinct(names).contains(name) <==> names.contains(name),
    decreases names.len(),
{
    if names.len() > 0 {
        let front = names.drop_last();
        let last = names.last();
        lemma_distinct(front);
        let kept = distinct(names);
        assert forall|name: Seq<char>| kept.contains(name) <==> names.contains(name) by {
            assert(distinct(front).contains(name) <==> front.contains(name));
            if kept.contains(name) {
                let i = choose|i: int| 0 <= i < kept.len() && kept[i] == name;
                if i < distinct(front).len() {
                    assert(distinct(front)[i] == name);
                    assert(front.contains(name));
                    let k = choose|k: int| 0 <= k < front.len() && front[k] == name;
                    assert(names[k] == name);
                } else {
                    assert(names[names.len() - 1] == name);
                }
            }
            if names.contains(name) {
                let k = choose|k: int| 0 <= k < names.len() && names[k] == name;
                if k < front.len() {
                    assert(front[k] == name);
                    assert(distinct(front).contains(name));
                    let i = choose|i: int|
                        0 <= i < distinct(front).len() && distinct(front)[i] == name;
                    assert(kept[i] == name);
                } else if distinct(front).contains(last) {
                    let i = choose|i: int|
                        0 <= i < distinct(front).len() && distinct(front)[i] == last;
                    assert(kept[i] == name);
                } else {
                    assert(kept[kept.len() - 1] == last);
                }
            }
        }
    }
}

/// Normalisation keeps the kind and the timestamp of every raw shape, and
/// its result carries text exactly when the kind is `Text`.
pub proof fn lemma_normalized_shape(raw: RawMessage)
    ensures
        normalized_message(raw@) matches Ok(message) ==> {
            &&& message.content_type == raw@.content_type
            &&& message.timestamp == raw.timestamp_ms
            &&& (message.content is Some <==> message.content_type == ContentType::Text)
        },
{
}

/// Normalisation succeeds exactly when every text of the message can be
/// repaired: the sender, the text and both texts of every reaction.
pub proof fn lemma_normalized_when_repairable(raw: MessageView)
    ensures
        normalized_message(raw) is Ok <==> {
            &&& repaired(raw.sender) is Ok
            &&& (raw.content matches Some(text) ==> repaired(text) is Ok)
            &&& (raw.reactions matches Some(reactions) ==> forall|i: int|
                0 <= i < reactions.len() ==> repaired((#[trigger] reactions[i]).reaction) is Ok
                    && repaired(reactions[i].actor) is Ok)
        },
{
    match raw.reactions {
        Some(reactions) => {
            let each = |reaction: ReactionView| repaired_reaction(reaction);
            crate::sequence::lemma_conversion_by_item(reactions, each);
            if repaired_reactions(reactions) is Ok {
                assert forall|i: int| 0 <= i < reactions.len() implies repaired(
                    (#[trigger] reactions[i]).reaction,
                ) is Ok && repaired(reactions[i].actor) is Ok by {
                    assert(each(reactions[i]) is Ok);
                }
            } else {
                let i = choose|i: int|
                    0 <= i < reactions.len() && each(#[trigger] reactions[i]) is Err;
                assert(!(repaired(reactions[i].reaction) is Ok && repaired(
                    reactions[i].actor,
                ) is Ok));
            }
        },
        None => {},
    }
}

/// Repairs both texts of a reaction.
pub fn repair_reaction(raw: &Reaction) -> (fixed: Result<Reaction, RepairFailure>)
    ensures
        fixed matches Ok(reaction) ==> repaired_reaction(raw@) == Ok::<
            ReactionView,
            RepairFailure,
        >(reaction@),
        fixed matches Err(e) ==> repaired_reaction(raw@) == Err::<
            ReactionView,
            RepairFailure,
        >(e),
{
    let reaction = match repair_field(raw.reaction.as_str(), TextField::Reaction) {
        Ok(text) => text,
        Err(e) => { return Err(e); },
    };
    let actor = match repair_field(raw.actor.as_str(), TextField::ReactionActor) {
        Ok(text) => text,
        Err(e) => { return Err(e); },
    };
    Ok(Reaction { reaction, actor })
}

/// Repairs a list of reactions, up to the first that cannot be repaired.
pub fn repair_reactions(raw: &Vec<Reaction>) -> (fixed: Result<Vec<Reaction>, RepairFailure>)
    ensures
        fixed matches Ok(reactions) ==> repaired_reactions(reaction_views(raw@)) == Ok::<
            Seq<ReactionView>,
            RepairFailure,
        >(reaction_views(reactions@)),
        fixed matches Err(e) ==> repaired_reactions(reaction_views(raw@)) == Err::<
            Seq<ReactionView>,
            RepairFailure,
        >(e),
{
    let ghost each = |reaction: ReactionView| repaired_reaction(reaction);
    let ghost items = reaction_views(raw@);
    let mut reactions: Vec<Reaction> = Vec::new();
    let mut i: usize = 0;
    proof {
        lemma_conversion_starts(items, each);
    }
    while i < raw.len()
        invariant
            i <= raw.len(),
            items == reaction_views(raw@),
            each == (|reaction: ReactionView| repaired_reaction(reaction)),
            repaired_reactions(items) == followed_by(
                reaction_views(reactions@),
                all_or_first_error(items.skip(i as int), each),
            ),
        decreases raw.len() - i,
    {
        proof {
            lemma_conversion_step(items, each, reaction_views(reactions@), i as int);
        }
        match repair_reaction(&raw[i]) {
            Err(e) => {
                return Err(e);
            },
            Ok(reaction) => {
                assert(reaction_views(reactions@.push(reaction)) == reaction_views(
                    reactions@,
                ).push(reaction@));
                reactions.push(reaction);
            },
        }
        i += 1;
    }
    proof {
        lemma_conversion_ends(items, each, reaction_views(reactions@));
    }
    Ok(reactions)
}

/// Reduces a raw message to the canonical record. The kind follows the
/// content key, only a text message keeps text, and sender, text and
/// reactions are repaired.
pub fn message_cleaner(raw: &RawMessage) -> (cleaned: Result<Message, RepairFailure>)
    ensures
        cleaned matches Ok(message) ==> normalized_message(raw@) == Ok::<
            MessageView,
            RepairFailure,
        >(message@) && message.well_formed(),
        cleaned matches Err(e) ==> normalized_message(raw@) == Err::<
            MessageView,
            RepairFailure,
        >(e),
{
    let sender = match repair_field(raw.sender_name.as_str(), TextField::Sender) {
        Ok(text) => text,
        Err(e) => { return Err(e); },
    };
    let content_type = match &raw.message_type {
        Some(message_type) => message_type.kind(),
        None => ContentType::Empty,
    };
    let content = match &raw.message_type {
        Some(MessageType::Content(text)) => match repair_field(
            text.as_str(),
            TextField::Content,
        ) {
            Ok(text) => Some(text),
            Err(e) => { return Err(e); },
        },
        _ => None,
    };
    let reactions = match &raw.reactions {
        Some(reactions) => match repair_reactions(reactions) {
            Ok(reactions) => Some(reactions),
            Err(e) => { return Err(e); },
        },
        None => None,
    };
    Ok(Message { sender, timestamp: raw.timestamp_ms, content_type, content, reactions })
}

/// Makes every raw message canonical, up to the first that cannot be.
pub fn raw_messages_to_cleaned_messages(raw_messages: Vec<RawMessage>) -> (cleaned: Result<
    Vec<Message>,
    RepairFailure,
>)
    ensures
        cleaned matches Ok(messages) ==> normalized_messages(raw_message_views(raw_messages@))
            == Ok::<Seq<MessageView>, RepairFailure>(message_views(messages@))
            && all_well_formed(messages@),
        cleaned matches Err(e) ==> normalized_messages(raw_message_views(raw_messages@)) == Err::<
            Seq<MessageView>,
            RepairFailure,
        >(e),
{
    let ghost each = |message: MessageView| normalized_message(message);
    let ghost items = raw_message_views(raw_messages@);
    let mut messages: Vec<Message> = Vec::new();
    let mut i: usize = 0;
    proof {
        lemma_conversion_starts(items, each);
    }
    while i < raw_messages.len()
        invariant
            i <= raw_messages.len(),
            items == raw_message_views(raw_messages@),
            each == (|message: MessageView| normalized_message(message)),
            normalized_messages(items) == followed_by(
                message_views(messages@),
                all_or_first_error(items.skip(i as int), each),
            ),
            all_well_formed(messages@),
        decreases raw_messages.len() - i,
    {
        proof {
            lemma_conversion_step(items, each, message_views(messages@), i as int);
        }
        match message_cleaner(&raw_messages[i]) {
            Err(e) => {
                return Err(e);
            },
            Ok(message) => {
                assert(message_views(messages@.push(message)) == message_views(messages@).push(
                    message@,
                ));
                messages.push(message);
            },
        }
        i += 1;
    }
    proof {
        lemma_conversion_ends(items, each, message_views(messages@));
    }
    Ok(messages)
}

/// Whether `name` is among `names`.
fn holds_name(names: &Vec<String>, name: &str) -> (held: bool)
    ensures
        held == name_views(names@).contains(name@),
{
    let mut i: usize = 0;
    while i < names.len()
        invariant
            i <= names.len(),
            forall|k: int| 0 <= k < i ==> name_views(names@)[k] != name@,
        decreases names.len() - i,
    {
        if same_text(names[i].as_str(), name) {
            assert(name_views(names@)[i as int] == name@);
            return true;
        }
        i += 1;
    }
    false
}

/// Keeps each name once, where it first occurs.
pub fn distinct_names(names: Vec<String>) -> (kept: Vec<String>)
    ensures
        name_views(kept@) == distinct(name_views(names@)),
        name_views(kept@).no_duplicates(),
{
    let mut kept: Vec<String> = Vec::new();
    let mut i: usize = 0;
    assert(name_views(names@).take(0) == Seq::<Seq<char>>::empty());
    while i < names.len()
        invariant
            i <= names.len(),
            name_views(kept@) == distinct(name_views(names@).take(i as int)),
        decreases names.len() - i,
    {
        let ghost front = name_views(names@).take(i + 1);
        assert(front.drop_last() == name_views(names@).take(i as int));
        assert(front.last() == names@[i as int]@);
        if !holds_name(&kept, names[i].as_str()) {
            let name = names[i].clone();
            assert(name_views(kept@.push(name)) == name_views(kept@).push(name@));
            kept.push(name);
        }
        i += 1;
    }
    proof {
        assert(name_views(names@).take(names@.len() as int) == name_views(names@));
        lemma_distinct(name_views(names@));
    }
    kept
}

impl RawConversation {
    /// The title, repaired.
    pub fn get_title(&self) -> (title: Result<String, RepairFailure>)
        ensures
            title matches Ok(text) ==> repaired_field(self.title@, TextField::Title) == Ok::<
                Seq<char>,
                RepairFailure,
            >(text@),
            title matches Err(e) ==> repaired_field(self.title@, TextField::Title) == Err::<
                Seq<char>,
                RepairFailure,
            >(e),
    {
        repair_field(self.title.as_str(), TextField::Title)
    }

    /// The participants' names, each repaired, in the export's order.
    pub fn get_participants(&self) -> (names: Result<Vec<String>, RepairFailure>)
        ensures
            names matches Ok(fixed) ==> repaired_names(self@.participants) == Ok::<
                Seq<Seq<char>>,
                RepairFailure,
            >(name_views(fixed@)),
            names matches Err(e) ==> repaired_names(self@.participants) == Err::<
                Seq<Seq<char>>,
                RepairFailure,
            >(e),
    {
        let ghost each = |name: Seq<char>| repaired_field(name, TextField::ParticipantName);
        let ghost items = participant_names(self.participants@);
        let mut names: Vec<String> = Vec::new();
        let mut i: usize = 0;
        proof {
            lemma_conversion_starts(items, each);
        }
        while i < self.participants.len()
            invariant
                i <= self.participants.len(),
                items == participant_names(self.participants@),
                each == (|name: Seq<char>| repaired_field(name, TextField::ParticipantName)),
                repaired_names(items) == followed_by(
                    name_views(names@),
                    all_or_first_error(items.skip(i as int), each),
                ),
            decreases self.participants.len() - i,
        {
            proof {
                lemma_conversion_step(items, each, name_views(names@), i as int);
            }
            match repair_field(self.participants[i].name.as_str(), TextField::ParticipantName) {
                Err(e) => {
                    return Err(e);
                },
                Ok(name) => {
                    assert(name_views(names@.push(name)) == name_views(names@).push(name@));
                    names.push(name);
                },
            }
            i += 1;
        }
        proof {
            lemma_conversion_ends(items, each, name_views(names@));
        }
        Ok(names)
    }

    /// The raw messages, copied as they are: their text is not repaired here.
    pub fn get_messages(&self) -> (messages: Vec<RawMessage>)
        ensures
            raw_message_views(messages@) == self@.messages,
            forall|i: int|
                0 <= i < messages@.len() ==> (#[trigger] messages@[i]).payload()
                    == self.messages@[i].payload(),
    {
        let mut messages: Vec<RawMessage> = Vec::new();
        let mut i: usize = 0;
        while i < self.messages.len()
            invariant
                i <= self.messages.len(),
                messages@.len() == i,
                forall|k: int| 0 <= k < i ==> messages@[k]@ == self.messages@[k]@,
                forall|k: int|
                    0 <= k < i ==> (#[trigger] messages@[k]).payload()
                        == self.messages@[k].payload(),
            decreases self.messages.len() - i,
        {
            messages.push(self.messages[i].clone());
            i += 1;
        }
        assert(raw_message_views(messages@) =~= raw_message_views(self.messages@));
        messages
    }
}

/// Normalises one decoded fragment.
pub fn raw_conversation_to_cleaned_conversation(raw_conversation: RawConversation) -> (cleaned:
    Result<Conversation, RepairFailure>)
    ensures
        cleaned matches Ok(conversation) ==> normalized_conversation(raw_conversation@) == Ok::<
            ConversationView,
            RepairFailure,
        >(conversation@) && conversation.well_formed(),
        cleaned matches Err(e) ==> normalized_conversation(raw_conversation@) == Err::<
            ConversationView,
            RepairFailure,
        >(e),
{
    let title = match raw_conversation.get_title() {
        Ok(title) => title,
        Err(e) => { return Err(e); },
    };
    let names = match raw_conversation.get_participants() {
        Ok(names) => names,
        Err(e) => { return Err(e); },
    };
    let messages = match raw_messages_to_cleaned_messages(raw_conversation.messages) {
        Ok(messages) => messages,
        Err(e) => { return Err(e); },
    };
    Ok(Conversation { title, participants: distinct_names(names), messages })
}

} // verus!
