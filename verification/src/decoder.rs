//! The raw model of one export fragment, and its decoding from JSON.
//!
//! A message object is classified by which of the content keys it holds:
//! none makes it empty, one gives its kind, two or more are refused.

use crate::conversation::{reaction_views, ContentType, MessageView, Reaction, ReactionView};
use crate::json::{
    find_member, keys_distinct, lemma_member_order_independent, member, parse_json, parsed_json,
    Json, Member,
};
use crate::metadata::{decode_metadata, decoded_metadata, Metadata, MetadataView};
use crate::payload::{
    decode_payload, kind_of, payload_of, text_in, MessageType, MessageTypeView,
};
use crate::sequence::{
    all_or_first_error, followed_by, lemma_conversion_ends, lemma_conversion_starts,
    lemma_conversion_step,
};
use vstd::prelude::*;

verus! {

/// Why a fragment cannot be decoded.
#[derive(Debug, Clone, Copy, PartialEq, Eq, Structural)]
pub enum DecodeError {
    /// The bytes are not a JSON document.
    MalformedJson,
    /// A required key is not there.
    MissingField,
    /// A value is not of the type its place asks for.
    UnexpectedType,
    /// A message holds more than one of the content keys.
    AmbiguousVariant,
}

/// A participant as the export names them, before repair.
#[derive(Debug, PartialEq, Eq)]
pub struct Participant {
    pub name: String,
}

/// One message as the export holds it. It lives from decoding to
/// normalisation and no longer.
#[derive(Debug, PartialEq, Eq)]
pub struct RawMessage {
    pub sender_name: String,
    pub timestamp_ms: u64,
    /// The content key; `None` for a message without one.
    pub message_type: Option<MessageType>,
    pub reactions: Option<Vec<Reaction>>,
}

impl RawMessage {
    /// What the message holds under its content key, as plain values.
    pub open spec fn payload(&self) -> Option<MessageTypeView> {
        match self.message_type {
            Some(message_type) => Some(message_type@),
            None => None,
        }
    }
}

impl View for RawMessage {
    type V = MessageView;

    /// The message as plain values without what it holds besides text, its
    /// texts as the export holds them.
    open spec fn view(&self) -> MessageView {
        MessageView {
            sender: self.sender_name@,
            timestamp: self.timestamp_ms,
            content_type: kind_of(self.payload()),
            content: text_in(self.payload()),
            reactions: match self.reactions {
                Some(reactions) => Some(reaction_views(reactions@)),
                None => None,
            },
        }
    }
}

impl Clone for RawMessage {
    fn clone(&self) -> (copy: Self)
        ensures
            copy@ == self@,
            copy.payload() == self.payload(),
    {
        let message_type = match &self.message_type {
            Some(message_type) => Some(message_type.clone()),
            None => None,
        };
        let reactions = match &self.reactions {
            Some(reactions) => Some(crate::conversation::clone_reactions(reactions)),
            None => None,
        };
        RawMessage {
            sender_name: self.sender_name.clone(),
            timestamp_ms: self.timestamp_ms,
            message_type,
            reactions,
        }
    }
}

/// One export fragment as decoded, before repair.
#[derive(Debug, PartialEq, Eq)]
pub struct RawConversation {
    pub participants: Vec<Participant>,
    pub messages: Vec<RawMessage>,
    pub title: String,
    pub thread_path: String,
    /// The optional keys, which normalisation passes over.
    pub metadata: Metadata,
}

/// A raw fragment as plain values.
pub struct RawConversationView {
    pub participants: Seq<Seq<char>>,
    pub messages: Seq<MessageView>,
    pub title: Seq<char>,
    pub thread_path: Seq<char>,
    pub metadata: MetadataView,
}

/// The names of `participants` as plain text.
pub open spec fn participant_names(participants: Seq<Participant>) -> Seq<Seq<char>> {
    participants.map_values(|p: Participant| p.name@)
}

/// The views of a run of raw messages.
pub open spec fn raw_message_views(messages: Seq<RawMessage>) -> Seq<MessageView> {
    messages.map_values(|m: RawMessage| m@)
}

impl View for RawConversation {
    type V = RawConversationView;

    open spec fn view(&self) -> RawConversationView {
        RawConversationView {
            participants: participant_names(self.participants@),
            messages: raw_message_views(self.messages@),
            title: self.title@,
            thread_path: self.thread_path@,
            metadata: self.metadata@,
        }
    }
}

/// The text under `key`, which must be there and be a string.
pub open spec fn text_of(members: Seq<Member>, key: Seq<char>) -> Result<Seq<char>, DecodeError> {
    match member(members, key) {
        None => Err(DecodeError::MissingField),
        Some(Json::Text(text)) => Ok(text@),
        Some(_) => Err(DecodeError::UnexpectedType),
    }
}

/// The number under `key`, which must be there and be a whole number of 64
/// bits without sign.
pub open spec fn number_of(members: Seq<Member>, key: Seq<char>) -> Result<u64, DecodeError> {
    match member(members, key) {
        None => Err(DecodeError::MissingField),
        Some(Json::Number(Some(number))) => Ok(number),
        Some(_) => Err(DecodeError::UnexpectedType),
    }
}

/// The items under `key`, which must be there and be an array.
pub open spec fn items_of(members: Seq<Member>, key: Seq<char>) -> Result<Seq<Json>, DecodeError> {
    match member(members, key) {
        None => Err(DecodeError::MissingField),
        Some(Json::Array(items)) => Ok(items@),
        Some(_) => Err(DecodeError::UnexpectedType),
    }
}

/// 1 where `key` is among `members`, else 0.
pub open spec fn present(members: Seq<Member>, key: Seq<char>) -> nat {
    if member(members, key) is Some {
        1
    } else {
        0
    }
}

/// How many of the eight content keys `members` holds.
pub open spec fn content_key_count(members: Seq<Member>) -> nat {
    present(members, "content"@) + present(members, "photos"@) + present(members, "videos"@)
        + present(members, "audio_files"@) + present(members, "gifs"@) + present(
        members,
        "sticker"@,
    ) + present(members, "is_unsent"@) + present(members, "bumped_message_metadata"@)
}

/// How many content keys a document holds: those of its members where it is
/// an object, none where it is not.
pub open spec fn content_keys(json: Json) -> nat {
    match json {
        Json::Object(members) => content_key_count(members@),
        _ => 0,
    }
}

/// The kind of a message object that holds at most one content key.
pub open spec fn classified(members: Seq<Member>) -> ContentType {
    if member(members, "content"@) is Some {
        ContentType::Text
    } else if member(members, "photos"@) is Some {
        ContentType::Photo
    } else if member(members, "videos"@) is Some {
        ContentType::Video
    } else if member(members, "audio_files"@) is Some {
        ContentType::Audio
    } else if member(members, "gifs"@) is Some {
        ContentType::Gif
    } else if member(members, "sticker"@) is Some {
        ContentType::Sticker
    } else if member(members, "is_unsent"@) is Some {
        ContentType::Unsent
    } else if member(members, "bumped_message_metadata"@) is Some {
        ContentType::Bumped
    } else {
        ContentType::Empty
    }
}

/// What a reaction object decodes to.
pub open spec fn decoded_reaction(json: Json) -> Result<ReactionView, DecodeError> {
    match json {
        Json::Object(members) => match text_of(members@, "reaction"@) {
            Err(e) => Err(e),
            Ok(reaction) => match text_of(members@, "actor"@) {
                Err(e) => Err(e),
                Ok(actor) => Ok(ReactionView { reaction, actor }),
            },
        },
        _ => Err(DecodeError::UnexpectedType),
    }
}

/// What a list of reaction objects decodes to.
pub open spec fn decoded_reactions(items: Seq<Json>) -> Result<Seq<ReactionView>, DecodeError> {
    all_or_first_error(items, |json: Json| decoded_reaction(json))
}

/// The reactions of a message object: none where the key is absent or null.
pub open spec fn reactions_of(members: Seq<Member>) -> Result<
    Option<Seq<ReactionView>>,
    DecodeError,
> {
    match member(members, "reactions"@) {
        None => Ok(None),
        Some(Json::Null) => Ok(None),
        Some(Json::Array(items)) => match decoded_reactions(items@) {
            Err(e) => Err(e),
            Ok(reactions) => Ok(Some(reactions)),
        },
        Some(_) => Err(DecodeError::UnexpectedType),
    }
}

/// What a message object decodes to, without what it holds besides text.
/// Two content keys are refused before anything else is looked at; the
/// sender, the timestamp, what is under the content key and the reactions
/// follow in that order.
pub open spec fn decoded_message(json: Json) -> Result<MessageView, DecodeError> {
    match json {
        Json::Object(members) => if content_key_count(members@) > 1 {
            Err(DecodeError::AmbiguousVariant)
        } else {
            match text_of(members@, "sender_name"@) {
                Err(e) => Err(e),
                Ok(sender) => match number_of(members@, "timestamp_ms"@) {
                    Err(e) => Err(e),
                    Ok(timestamp) => match payload_of(members@) {
                        Err(e) => Err(e),
                        Ok(payload) => match reactions_of(members@) {
                            Err(e) => Err(e),
                            Ok(reactions) => Ok(
                                MessageView {
                                    sender,
                                    timestamp,
                                    content_type: kind_of(payload),
                                    content: text_in(payload),
                                    reactions,
                                },
                            ),
                        },
                    },
                },
            }
        },
        _ => Err(DecodeError::UnexpectedType),
    }
}

/// What a message object holds under its content key.
pub open spec fn decoded_payload(json: Json) -> Result<Option<MessageTypeView>, DecodeError> {
    match json {
        Json::Object(members) => payload_of(members@),
        _ => Err(DecodeError::UnexpectedType),
    }
}

/// What a list of message objects decodes to.
pub open spec fn decoded_messages(items: Seq<Json>) -> Result<Seq<MessageView>, DecodeError> {
    all_or_first_error(items, |json: Json| decoded_message(json))
}

/// What a participant object decodes to: its name.
pub open spec fn decoded_participant(json: Json) -> Result<Seq<char>, DecodeError> {
    match json {
        Json::Object(members) => text_of(members@, "name"@),
        _ => Err(DecodeError::UnexpectedType),
    }
}

/// What a list of participant objects decodes to.
pub open spec fn decoded_participants(items: Seq<Json>) -> Result<Seq<Seq<char>>, DecodeError> {
    all_or_first_error(items, |json: Json| decoded_participant(json))
}

/// What a fragment's document decodes to. The participants, the messages,
/// the title and the thread's path are required and read in that order; the
/// optional keys follow; any other key is passed over.
pub open spec fn decoded_conversation(json: Json) -> Result<RawConversationView, DecodeError> {
    match json {
        Json::Object(members) => match items_of(members@, "participants"@) {
            Err(e) => Err(e),
            Ok(people) => match decoded_participants(people) {
                Err(e) => Err(e),
                Ok(participants) => match items_of(members@, "messages"@) {
                    Err(e) => Err(e),
                    Ok(items) => match decoded_messages(items) {
                        Err(e) => Err(e),
                        Ok(messages) => match text_of(members@, "title"@) {
                            Err(e) => Err(e),
                            Ok(title) => match text_of(members@, "thread_path"@) {
                                Err(e) => Err(e),
                                Ok(thread_path) => match decoded_metadata(members@) {
                                    Err(e) => Err(e),
                                    Ok(metadata) => Ok(
                                        RawConversationView {
                                            participants,
                                            messages,
                                            title,
                                            thread_path,
                                            metadata,
                                        },
                                    ),
                                },
                            },
                        },
                    },
                },
            },
        },
        _ => Err(DecodeError::UnexpectedType),
    }
}

/// A message object with two or more content keys is refused as ambiguous,
/// whatever else it holds: no key is picked over another.
pub proof fn lemma_ambiguous_is_refused(json: Json)
    requires
        content_keys(json) > 1,
    ensures
        decoded_message(json) == Err::<MessageView, DecodeError>(DecodeError::AmbiguousVariant),
{
}

/// A message object that decodes has the kind of its one content key, or is
/// empty without one, and has text exactly when the key is `content`.
pub proof fn lemma_decoded_kind(json: Json)
    ensures
        decoded_message(json) matches Ok(message) ==> {
            &&& json matches Json::Object(members) && content_key_count(members@) <= 1
                && message.content_type == classified(members@)
            &&& (message.content is Some <==> message.content_type == ContentType::Text)
            &&& (message.content_type == ContentType::Empty <==> content_keys(json) == 0)
        },
{
}

/// Decoding a message does not depend on the order of its keys.
pub proof fn lemma_decoding_ignores_key_order(one: Vec<Member>, other: Vec<Member>)
    requires
        keys_distinct(one@),
        keys_distinct(other@),
        forall|m: Member| one@.contains(m) <==> other@.contains(m),
    ensures
        decoded_message(Json::Object(one)) == decoded_message(Json::Object(other)),
        decoded_payload(Json::Object(one)) == decoded_payload(Json::Object(other)),
{
    assert forall|key: Seq<char>| member(one@, key) == member(other@, key) by {
        lemma_member_order_independent(one@, other@, key);
    }
}

/// What the bytes of a fragment decode to.
pub open spec fn decoded_fragment(bytes: Seq<u8>) -> Result<RawConversationView, DecodeError> {
    match parsed_json(bytes) {
        None => Err(DecodeError::MalformedJson),
        Some(json) => decoded_conversation(json),
    }
}

pub(crate) fn text_field(members: &Vec<Member>, key: &str) -> (text: Result<String, DecodeError>)
    ensures
        text matches Ok(t) ==> text_of(members@, key@) == Ok::<Seq<char>, DecodeError>(t@),
        text matches Err(e) ==> text_of(members@, key@) == Err::<Seq<char>, DecodeError>(e),
{
    match find_member(members, key) {
        None => Err(DecodeError::MissingField),
        Some(Json::Text(text)) => Ok(text.clone()),
        Some(_) => Err(DecodeError::UnexpectedType),
    }
}

pub(crate) fn number_field(members: &Vec<Member>, key: &str) -> (number: Result<u64, DecodeError>)
    ensures
        number == number_of(members@, key@),
{
    match find_member(members, key) {
        None => Err(DecodeError::MissingField),
        Some(Json::Number(Some(number))) => Ok(*number),
        Some(_) => Err(DecodeError::UnexpectedType),
    }
}

pub(crate) fn items_field<'a>(members: &'a Vec<Member>, key: &str) -> (items: Result<
    &'a Vec<Json>,
    DecodeError,
>)
    ensures
        items matches Ok(v) ==> items_of(members@, key@) == Ok::<Seq<Json>, DecodeError>(v@),
        items matches Err(e) ==> items_of(members@, key@) == Err::<Seq<Json>, DecodeError>(e),
{
    match find_member(members, key) {
        None => Err(DecodeError::MissingField),
        Some(Json::Array(items)) => Ok(items),
        Some(_) => Err(DecodeError::UnexpectedType),
    }
}

fn has_key(members: &Vec<Member>, key: &str) -> (there: bool)
    ensures
        there == (member(members@, key@) is Some),
{
    find_member(members, key).is_some()
}

/// Counts the content keys among `members`.
fn count_content_keys(members: &Vec<Member>) -> (count: u8)
    ensures
        count == content_key_count(members@),
{
    let mut count: u8 = 0;
    if has_key(members, "content") {
        count += 1;
    }
    if has_key(members, "photos") {
        count += 1;
    }
    if has_key(members, "videos") {
        count += 1;
    }
    if has_key(members, "audio_files") {
        count += 1;
    }
    if has_key(members, "gifs") {
        count += 1;
    }
    if has_key(members, "sticker") {
        count += 1;
    }
    if has_key(members, "is_unsent") {
        count += 1;
    }
    if has_key(members, "bumped_message_metadata") {
        count += 1;
    }
    count
}

/// Decodes one reaction object.
pub fn decode_reaction(json: &Json) -> (decoded: Result<Reaction, DecodeError>)
    ensures
        decoded matches Ok(reaction) ==> decoded_reaction(*json) == Ok::<
            ReactionView,
            DecodeError,
        >(reaction@),
        decoded matches Err(e) ==> decoded_reaction(*json) == Err::<ReactionView, DecodeError>(e),
{
    match json {
        Json::Object(members) => {
            let reaction = match text_field(members, "reaction") {
                Ok(text) => text,
                Err(e) => { return Err(e); },
            };
            let actor = match text_field(members, "actor") {
                Ok(text) => text,
                Err(e) => { return Err(e); },
            };
            Ok(Reaction { reaction, actor })
        },
        _ => Err(DecodeError::UnexpectedType),
    }
}

/// Decodes a list of reaction objects, up to the first that fails.
pub fn decode_reactions(items: &Vec<Json>) -> (decoded: Result<Vec<Reaction>, DecodeError>)
    ensures
        decoded matches Ok(reactions) ==> decoded_reactions(items@) == Ok::<
            Seq<ReactionView>,
            DecodeError,
        >(reaction_views(reactions@)),
        decoded matches Err(e) ==> decoded_reactions(items@) == Err::<
            Seq<ReactionView>,
            DecodeError,
        >(e),
{
    let ghost each = |json: Json| decoded_reaction(json);
    let mut reactions: Vec<Reaction> = Vec::new();
    let mut i: usize = 0;
    proof {
        lemma_conversion_starts(items@, each);
    }
    while i < items.len()
        invariant
            i <= items.len(),
            each == (|json: Json| decoded_reaction(json)),
            decoded_reactions(items@) == followed_by(
                reaction_views(reactions@),
                all_or_first_error(items@.skip(i as int), each),
            ),
        decreases items.len() - i,
    {
        proof {
            lemma_conversion_step(items@, each, reaction_views(reactions@), i as int);
        }
        match decode_reaction(&items[i]) {
            Err(e) => {
                return Err(e);
            },
            Ok(reaction) => {
                assert(reaction_views(reactions@.push(reaction)) == reaction_views(
                    reactions@,
                ).push(reaction@));
                reactions.push(reaction);
            },
        }
        i += 1;
    }
    proof {
        lemma_conversion_ends(items@, each, reaction_views(reactions@));
    }
    Ok(reactions)
}

/// Decodes one message object. Its kind follows from the one content key it
/// holds; without any it is empty, and with two or more it is refused.
pub fn decode_message(json: &Json) -> (decoded: Result<RawMessage, DecodeError>)
    ensures
        decoded matches Ok(message) ==> decoded_message(*json) == Ok::<MessageView, DecodeError>(
            message@,
        ),
        decoded matches Ok(message) ==> decoded_payload(*json) == Ok::<
            Option<MessageTypeView>,
            DecodeError,
        >(message.payload()),
        decoded matches Err(e) ==> decoded_message(*json) == Err::<MessageView, DecodeError>(e),
        content_keys(*json) > 1 ==> decoded == Err::<RawMessage, DecodeError>(
            DecodeError::AmbiguousVariant,
        ),
{
    match json {
        Json::Object(members) => {
            let count = count_content_keys(members);
            if count > 1 {
                return Err(DecodeError::AmbiguousVariant);
            }
            let sender_name = match text_field(members, "sender_name") {
                Ok(text) => text,
                Err(e) => { return Err(e); },
            };
            let timestamp_ms = match number_field(members, "timestamp_ms") {
                Ok(number) => number,
                Err(e) => { return Err(e); },
            };
            let message_type = match decode_payload(members) {
                Ok(payload) => payload,
                Err(e) => { return Err(e); },
            };
            let reactions = match find_member(members, "reactions") {
                None => None,
                Some(Json::Null) => None,
                Some(Json::Array(items)) => match decode_reactions(items) {
                    Ok(reactions) => Some(reactions),
                    Err(e) => { return Err(e); },
                },
                Some(_) => { return Err(DecodeError::UnexpectedType); },
            };
            Ok(RawMessage { sender_name, timestamp_ms, message_type, reactions })
        },
        _ => Err(DecodeError::UnexpectedType),
    }
}

/// Decodes a list of message objects, up to the first that fails.
pub fn decode_messages(items: &Vec<Json>) -> (decoded: Result<Vec<RawMessage>, DecodeError>)
    ensures
        decoded matches Ok(messages) ==> decoded_messages(items@) == Ok::<
            Seq<MessageView>,
            DecodeError,
        >(raw_message_views(messages@)),
        decoded matches Err(e) ==> decoded_messages(items@) == Err::<
            Seq<MessageView>,
            DecodeError,
        >(e),
{
    let ghost each = |json: Json| decoded_message(json);
    let mut messages: Vec<RawMessage> = Vec::new();
    let mut i: usize = 0;
    proof {
        lemma_conversion_starts(items@, each);
    }
    while i < items.len()
        invariant
            i <= items.len(),
            each == (|json: Json| decoded_message(json)),
            decoded_messages(items@) == followed_by(
                raw_message_views(messages@),
                all_or_first_error(items@.skip(i as int), each),
            ),
        decreases items.len() - i,
    {
        proof {
            lemma_conversion_step(items@, each, raw_message_views(messages@), i as int);
        }
        match decode_message(&items[i]) {
            Err(e) => {
                return Err(e);
            },
            Ok(message) => {
                assert(raw_message_views(messages@.push(message)) == raw_message_views(
                    messages@,
                ).push(message@));
                messages.push(message);
            },
        }
        i += 1;
    }
    proof {
        lemma_conversion_ends(items@, each, raw_message_views(messages@));
    }
    Ok(messages)
}

/// Decodes one participant object.
pub fn decode_participant(json: &Json) -> (decoded: Result<Participant, DecodeError>)
    ensures
        decoded matches Ok(participant) ==> decoded_participant(*json) == Ok::<
            Seq<char>,
            DecodeError,
        >(participant.name@),
        decoded matches Err(e) ==> decoded_participant(*json) == Err::<Seq<char>, DecodeError>(e),
{
    match json {
        Json::Object(members) => match text_field(members, "name") {
            Ok(name) => Ok(Participant { name }),
            Err(e) => Err(e),
        },
        _ => Err(DecodeError::UnexpectedType),
    }
}

/// Decodes a list of participant objects, up to the first that fails.
pub fn decode_participants(items: &Vec<Json>) -> (decoded: Result<Vec<Participant>, DecodeError>)
    ensures
        decoded matches Ok(participants) ==> decoded_participants(items@) == Ok::<
            Seq<Seq<char>>,
            DecodeError,
        >(participant_names(participants@)),
        decoded matches Err(e) ==> decoded_participants(items@) == Err::<
            Seq<Seq<char>>,
            DecodeError,
        >(e),
{
    let ghost each = |json: Json| decoded_participant(json);
    let mut participants: Vec<Participant> = Vec::new();
    let mut i: usize = 0;
    proof {
        lemma_conversion_starts(items@, each);
    }
    while i < items.len()
        invariant
            i <= items.len(),
            each == (|json: Json| decoded_participant(json)),
            decoded_participants(items@) == followed_by(
                participant_names(participants@),
                all_or_first_error(items@.skip(i as int), each),
            ),
        decreases items.len() - i,
    {
        proof {
            lemma_conversion_step(items@, each, participant_names(participants@), i as int);
        }
        match decode_participant(&items[i]) {
            Err(e) => {
                return Err(e);
            },
            Ok(participant) => {
                assert(participant_names(participants@.push(participant)) == participant_names(
                    participants@,
                ).push(participant.name@));
                participants.push(participant);
            },
        }
        i += 1;
    }
    proof {
        lemma_conversion_ends(items@, each, participant_names(participants@));
    }
    Ok(participants)
}

/// Decodes the document of one fragment.
pub fn conversation_from_json(json: &Json) -> (decoded: Result<RawConversation, DecodeError>)
    ensures
        decoded matches Ok(conversation) ==> decoded_conversation(*json) == Ok::<
            RawConversationView,
            DecodeError,
        >(conversation@),
        decoded matches Err(e) ==> decoded_conversation(*json) == Err::<
            RawConversationView,
            DecodeError,
        >(e),
{
    match json {
        Json::Object(members) => {
            let people = match items_field(members, "participants") {
                Ok(items) => items,
                Err(e) => { return Err(e); },
            };
            let participants = match decode_participants(people) {
                Ok(participants) => participants,
                Err(e) => { return Err(e); },
            };
            let items = match items_field(members, "messages") {
                Ok(items) => items,
                Err(e) => { return Err(e); },
            };
            let messages = match decode_messages(items) {
                Ok(messages) => messages,
                Err(e) => { return Err(e); },
            };
            let title = match text_field(members, "title") {
                Ok(text) => text,
                Err(e) => { return Err(e); },
            };
            let thread_path = match text_field(members, "thread_path") {
                Ok(text) => text,
                Err(e) => { return Err(e); },
            };
            let metadata = match decode_metadata(members) {
                Ok(metadata) => metadata,
                Err(e) => { return Err(e); },
            };
            Ok(RawConversation { participants, messages, title, thread_path, metadata })
        },
        _ => Err(DecodeError::UnexpectedType),
    }
}

/// Decodes the bytes of one fragment: malformed JSON, a missing key, a value
/// of the wrong type and a message with two content keys each give their own
/// error.
pub fn decode_conversation(bytes: &[u8]) -> (decoded: Result<RawConversation, DecodeError>)
    ensures
        decoded matches Ok(conversation) ==> decoded_fragment(bytes@) == Ok::<
            RawConversationView,
            DecodeError,
        >(conversation@),
        decoded matches Err(e) ==> decoded_fragment(bytes@) == Err::<
            RawConversationView,
            DecodeError,
        >(e),
{
    match parse_json(bytes) {
        None => Err(DecodeError::MalformedJson),
        Some(json) => conversation_from_json(&json),
    }
}

} // verus!
