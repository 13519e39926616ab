//! What a fragment says of its thread besides participants and messages.
//! Normalisation does not use it; it is decoded and kept for whoever does.

use crate::decoder::{number_field, number_of, text_field, text_of, DecodeError};
use crate::json::{find_member, member, Json, Member};
use crate::sequence::{
    all_or_first_error, followed_by, lemma_conversion_ends, lemma_conversion_starts,
    lemma_conversion_step,
};
use vstd::prelude::*;

verus! {

/// A word that sets off an animation in the thread.
#[derive(Debug, PartialEq, Eq)]
pub struct MagicWord {
    pub magic_word: String,
    pub creation_timestamp_ms: u64,
    pub animation_emoji: String,
}

/// A magic word as plain values.
pub struct MagicWordView {
    pub magic_word: Seq<char>,
    pub creation_timestamp_ms: u64,
    pub animation_emoji: Seq<char>,
}

impl View for MagicWord {
    type V = MagicWordView;

    open spec fn view(&self) -> MagicWordView {
        MagicWordView {
            magic_word: self.magic_word@,
            creation_timestamp_ms: self.creation_timestamp_ms,
            animation_emoji: self.animation_emoji@,
        }
    }
}

/// The picture of a group thread.
#[derive(Debug, PartialEq, Eq)]
pub struct Image {
    pub uri: String,
    pub creation_timestamp: u64,
}

/// A thread's picture as plain values.
pub struct ImageView {
    pub uri: Seq<char>,
    pub creation_timestamp: u64,
}

impl View for Image {
    type V = ImageView;

    open spec fn view(&self) -> ImageView {
        ImageView { uri: self.uri@, creation_timestamp: self.creation_timestamp }
    }
}

/// How a group thread can be joined.
#[derive(Debug, PartialEq, Eq)]
pub struct JoinableMode {
    pub mode: i32,
    pub link: String,
}

/// A thread's way of joining as plain values.
pub struct JoinableModeView {
    pub mode: i32,
    pub link: Seq<char>,
}

impl View for JoinableMode {
    type V = JoinableModeView;

    open spec fn view(&self) -> JoinableModeView {
        JoinableModeView { mode: self.mode, link: self.link@ }
    }
}

/// The optional keys of a fragment, each `None` where the export has none.
/// Their texts are kept as the export holds them.
#[derive(Debug, PartialEq, Eq)]
pub struct Metadata {
    pub is_still_participant: Option<bool>,
    pub magic_words: Option<Vec<MagicWord>>,
    pub image: Option<Image>,
    pub joinable_mode: Option<JoinableMode>,
}

/// A fragment's optional keys as plain values.
pub struct MetadataView {
    pub is_still_participant: Option<bool>,
    pub magic_words: Option<Seq<MagicWordView>>,
    pub image: Option<ImageView>,
    pub joinable_mode: Option<JoinableModeView>,
}

/// The views of a run of magic words.
pub open spec fn magic_word_views(words: Seq<MagicWord>) -> Seq<MagicWordView> {
    words.map_values(|word: MagicWord| word@)
}

impl View for Metadata {
    type V = MetadataView;

    open spec fn view(&self) -> MetadataView {
        MetadataView {
            is_still_participant: self.is_still_participant,
            magic_words: match self.magic_words {
                Some(words) => Some(magic_word_views(words@)),
                None => None,
            },
            image: match self.image {
                Some(image) => Some(image@),
                None => None,
            },
            joinable_mode: match self.joinable_mode {
                Some(mode) => Some(mode@),
                None => None,
            },
        }
    }
}

/// What a magic-word object decodes to; its keys are read in the order of
/// the fields.
pub open spec fn decoded_magic_word(json: Json) -> Result<MagicWordView, DecodeError> {
    match json {
        Json::Object(members) => match text_of(members@, "magic_word"@) {
            Err(e) => Err(e),
            Ok(magic_word) => match number_of(members@, "creation_timestamp_ms"@) {
                Err(e) => Err(e),
                Ok(creation_timestamp_ms) => match text_of(members@, "animation_emoji"@) {
                    Err(e) => Err(e),
                    Ok(animation_emoji) => Ok(
                        MagicWordView { magic_word, creation_timestamp_ms, animation_emoji },
                    ),
                },
            },
        },
        _ => Err(DecodeError::UnexpectedType),
    }
}

/// What a list of magic-word objects decodes to.
pub open spec fn decoded_magic_words(items: Seq<Json>) -> Result<Seq<MagicWordView>, DecodeError> {
    all_or_first_error(items, |json: Json| decoded_magic_word(json))
}

/// What an image object decodes to.
pub open spec fn decoded_image(json: Json) -> Result<ImageView, DecodeError> {
    match json {
        Json::Object(members) => match text_of(members@, "uri"@) {
            Err(e) => Err(e),
            Ok(uri) => match number_of(members@, "creation_timestamp"@) {
                Err(e) => Err(e),
                Ok(creation_timestamp) => Ok(ImageView { uri, creation_timestamp }),
            },
        },
        _ => Err(DecodeError::UnexpectedType),
    }
}

/// What a joinable-mode object decodes to. The mode is a whole number from 0
/// to 2^31 - 1.
pub open spec fn decoded_joinable_mode(json: Json) -> Result<JoinableModeView, DecodeError> {
    match json {
        Json::Object(members) => match number_of(members@, "mode"@) {
            Err(e) => Err(e),
            Ok(mode) => if mode > i32::MAX {
                Err(DecodeError::UnexpectedType)
            } else {
                match text_of(members@, "link"@) {
                    Err(e) => Err(e),
                    Ok(link) => Ok(JoinableModeView { mode: mode as i32, link }),
                }
            },
        },
        _ => Err(DecodeError::UnexpectedType),
    }
}

/// Whether the exporter is still in the thread, where the fragment says so.
pub open spec fn still_participant_of(members: Seq<Member>) -> Result<Option<bool>, DecodeError> {
    match member(members, "is_still_participant"@) {
        None => Ok(None),
        Some(Json::Null) => Ok(None),
        Some(Json::Bool(still)) => Ok(Some(still)),
        Some(_) => Err(DecodeError::UnexpectedType),
    }
}

/// The magic words of a fragment, where it has the key.
pub open spec fn magic_words_of(members: Seq<Member>) -> Result<
    Option<Seq<MagicWordView>>,
    DecodeError,
> {
    match member(members, "magic_words"@) {
        None => Ok(None),
        Some(Json::Null) => Ok(None),
        Some(Json::Array(items)) => match decoded_magic_words(items@) {
            Err(e) => Err(e),
            Ok(words) => Ok(Some(words)),
        },
        Some(_) => Err(DecodeError::UnexpectedType),
    }
}

/// The picture of a fragment's thread, where it has the key.
pub open spec fn image_of(members: Seq<Member>) -> Result<Option<ImageView>, DecodeError> {
    match member(members, "image"@) {
        None => Ok(None),
        Some(Json::Null) => Ok(None),
        Some(json) => match decoded_image(json) {
            Err(e) => Err(e),
            Ok(image) => Ok(Some(image)),
        },
    }
}

/// The way of joining a fragment's thread, where it has the key.
pub open spec fn joinable_mode_of(members: Seq<Member>) -> Result<
    Option<JoinableModeView>,
    DecodeError,
> {
    match member(members, "joinable_mode"@) {
        None => Ok(None),
        Some(Json::Null) => Ok(None),
        Some(json) => match decoded_joinable_mode(json) {
            Err(e) => Err(e),
            Ok(mode) => Ok(Some(mode)),
        },
    }
}

/// The optional keys of a fragment's document. A key that is absent or null
/// gives `None`; one that is there must be well formed. They are read in
/// the order of the fields.
pub open spec fn decoded_metadata(members: Seq<Member>) -> Result<MetadataView, DecodeError> {
    match still_participant_of(members) {
        Err(e) => Err(e),
        Ok(is_still_participant) => match magic_words_of(members) {
            Err(e) => Err(e),
            Ok(magic_words) => match image_of(members) {
                Err(e) => Err(e),
                Ok(image) => match joinable_mode_of(members) {
                    Err(e) => Err(e),
                    Ok(joinable_mode) => Ok(
                        MetadataView { is_still_participant, magic_words, image, joinable_mode },
                    ),
                },
            },
        },
    }
}

/// Decodes one magic-word object.
pub fn decode_magic_word(json: &Json) -> (decoded: Result<MagicWord, DecodeError>)
    ensures
        decoded matches Ok(word) ==> decoded_magic_word(*json) == Ok::<
            MagicWordView,
            DecodeError,
        >(word@),
        decoded matches Err(e) ==> decoded_magic_word(*json) == Err::<MagicWordView, DecodeError>(
            e,
        ),
{
    match json {
        Json::Object(members) => {
            let magic_word = match text_field(members, "magic_word") {
                Ok(text) => text,
                Err(e) => { return Err(e); },
            };
            let creation_timestamp_ms = match number_field(members, "creation_timestamp_ms") {
                Ok(number) => number,
                Err(e) => { return Err(e); },
            };
            let animation_emoji = match text_field(members, "animation_emoji") {
                Ok(text) => text,
                Err(e) => { return Err(e); },
            };
            Ok(MagicWord { magic_word, creation_timestamp_ms, animation_emoji })
        },
        _ => Err(DecodeError::UnexpectedType),
    }
}

/// Decodes a list of magic-word objects, up to the first that fails.
pub fn decode_magic_words(items: &Vec<Json>) -> (decoded: Result<Vec<MagicWord>, DecodeError>)
    ensures
        decoded matches Ok(words) ==> decoded_magic_words(items@) == Ok::<
            Seq<MagicWordView>,
            DecodeError,
        >(magic_word_views(words@)),
        decoded matches Err(e) ==> decoded_magic_words(items@) == Err::<
            Seq<MagicWordView>,
            DecodeError,
        >(e),
{
    let ghost each = |json: Json| decoded_magic_word(json);
    let mut words: Vec<MagicWord> = Vec::new();
    let mut i: usize = 0;
    proof {
        lemma_conversion_starts(items@, each);
    }
    while i < items.len()
        invariant
            i <= items.len(),
            each == (|json: Json| decoded_magic_word(json)),
            decoded_magic_words(items@) == followed_by(
                magic_word_views(words@),
                all_or_first_error(items@.skip(i as int), each),
            ),
        decreases items.len() - i,
    {
        proof {
            lemma_conversion_step(items@, each, magic_word_views(words@), i as int);
        }
        match decode_magic_word(&items[i]) {
            Err(e) => {
                return Err(e);
            },
            Ok(word) => {
                assert(magic_word_views(words@.push(word)) == magic_word_views(words@).push(
                    word@,
                ));
                words.push(word);
            },
        }
        i += 1;
    }
    proof {
        lemma_conversion_ends(items@, each, magic_word_views(words@));
    }
    Ok(words)
}

/// Decodes one image object.
pub fn decode_image(json: &Json) -> (decoded: Result<Image, DecodeError>)
    ensures
        decoded matches Ok(image) ==> decoded_image(*json) == Ok::<ImageView, DecodeError>(image@),
        decoded matches Err(e) ==> decoded_image(*json) == Err::<ImageView, DecodeError>(e),
{
    match json {
        Json::Object(members) => {
            let uri = match text_field(members, "uri") {
                Ok(text) => text,
                Err(e) => { return Err(e); },
            };
            let creation_timestamp = match number_field(members, "creation_timestamp") {
                Ok(number) => number,
                Err(e) => { return Err(e); },
            };
            Ok(Image { uri, creation_timestamp })
        },
        _ => Err(DecodeError::UnexpectedType),
    }
}

/// Decodes one joinable-mode object.
pub fn decode_joinable_mode(json: &Json) -> (decoded: Result<JoinableMode, DecodeError>)
    ensures
        decoded matches Ok(mode) ==> decoded_joinable_mode(*json) == Ok::<
            JoinableModeView,
            DecodeError,
        >(mode@),
        decoded matches Err(e) ==> decoded_joinable_mode(*json) == Err::<
            JoinableModeView,
            DecodeError,
        >(e),
{
    match json {
        Json::Object(members) => {
            let number = match number_field(members, "mode") {
                Ok(number) => number,
                Err(e) => { return Err(e); },
            };
            if number > 0x7FFF_FFFF {
                return Err(DecodeError::UnexpectedType);
            }
            let link = match text_field(members, "link") {
                Ok(text) => text,
                Err(e) => { return Err(e); },
            };
            Ok(JoinableMode { mode: number as i32, link })
        },
        _ => Err(DecodeError::UnexpectedType),
    }
}

/// Decodes the optional keys of a fragment's document.
pub fn decode_metadata(members: &Vec<Member>) -> (decoded: Result<Metadata, DecodeError>)
    ensures
        decoded matches Ok(metadata) ==> decoded_metadata(members@) == Ok::<
            MetadataView,
            DecodeError,
        >(metadata@),
        decoded matches Err(e) ==> decoded_metadata(members@) == Err::<MetadataView, DecodeError>(
            e,
        ),
{
    let is_still_participant = match find_member(members, "is_still_participant") {
        None => None,
        Some(Json::Null) => None,
        Some(Json::Bool(still)) => Some(*still),
        Some(_) => { return Err(DecodeError::UnexpectedType); },
    };
    let magic_words = match find_member(members, "magic_words") {
        None => None,
        Some(Json::Null) => None,
        Some(Json::Array(items)) => match decode_magic_words(items) {
            Ok(words) => Some(words),
            Err(e) => { return Err(e); },
        },
        Some(_) => { return Err(DecodeError::UnexpectedType); },
    };
    let image = match find_member(members, "image") {
        None => None,
        Some(Json::Null) => None,
        Some(json) => match decode_image(json) {
            Ok(image) => Some(image),
            Err(e) => { return Err(e); },
        },
    };
    let joinable_mode = match find_member(members, "joinable_mode") {
        None => None,
        Some(Json::Null) => None,
        Some(json) => match decode_joinable_mode(json) {
            Ok(mode) => Some(mode),
            Err(e) => { return Err(e); },
        },
    };
    Ok(Metadata { is_still_participant, magic_words, image, joinable_mode })
}

} // verus!
