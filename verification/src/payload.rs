//! What a raw message carries under its content key: the files of a media
//! message, the sticker, the notice of an unsent or bumped message.
//! Normalisation keeps none of it; the raw model holds it as the export does.

use crate::conversation::ContentType;
use crate::decoder::{
    items_field, items_of, number_field, number_of, text_field, text_of, DecodeError,
};
use crate::json::{find_member, member, Json, Member};
use crate::sequence::{
    all_or_first_error, followed_by, lemma_conversion_ends, lemma_conversion_starts,
    lemma_conversion_step,
};
use vstd::prelude::*;

verus! {

/// A file with the time it was made, as plain values: what a photo, a video
/// and an audio file are.
pub struct FileView {
    pub uri: Seq<char>,
    pub creation_timestamp: u64,
}

/// A file of the export that has a time of creation.
pub trait TimedFile: Sized {
    /// The file as plain values.
    spec fn file_view(&self) -> FileView;

    /// The file at `uri` that was made at `creation_timestamp`.
    fn from_parts(uri: String, creation_timestamp: u64) -> (file: Self)
        ensures
            file.file_view() == (FileView { uri: uri@, creation_timestamp }),
    ;
}

/// A photo of a message.
#[derive(Debug, PartialEq, Eq)]
pub struct Photo {
    pub uri: String,
    pub creation_timestamp: u64,
}

/// A video of a message.
#[derive(Debug, PartialEq, Eq)]
pub struct Video {
    pub uri: String,
    pub creation_timestamp: u64,
}

/// An audio file of a message.
#[derive(Debug, PartialEq, Eq)]
pub struct Audio {
    pub uri: String,
    pub creation_timestamp: u64,
}

/// An animated picture of a message.
#[derive(Debug, PartialEq, Eq)]
pub struct Gif {
    pub uri: String,
}

/// The sticker of a message.
#[derive(Debug, PartialEq, Eq)]
pub struct Sticker {
    pub uri: String,
}

/// The notice that a message was brought up again.
#[derive(Debug, PartialEq, Eq)]
pub struct BumpedMessageMetaData {
    pub bumped_message: String,
    pub is_bumped: bool,
}

/// The notice of a bumped message as plain values.
pub struct BumpedView {
    pub bumped_message: Seq<char>,
    pub is_bumped: bool,
}

impl TimedFile for Photo {
    open spec fn file_view(&self) -> FileView {
        FileView { uri: self.uri@, creation_timestamp: self.creation_timestamp }
    }

    fn from_parts(uri: String, creation_timestamp: u64) -> (file: Self) {
        Photo { uri, creation_timestamp }
    }
}

impl TimedFile for Video {
    open spec fn file_view(&self) -> FileView {
        FileView { uri: self.uri@, creation_timestamp: self.creation_timestamp }
    }

    fn from_parts(uri: String, creation_timestamp: u64) -> (file: Self) {
        Video { uri, creation_timestamp }
    }
}

impl TimedFile for Audio {
    open spec fn file_view(&self) -> FileView {
        FileView { uri: self.uri@, creation_timestamp: self.creation_timestamp }
    }

    fn from_parts(uri: String, creation_timestamp: u64) -> (file: Self) {
        Audio { uri, creation_timestamp }
    }
}

impl Clone for Photo {
    fn clone(&self) -> (copy: Self)
        ensures
            copy == *self,
    {
        Photo { uri: self.uri.clone(), creation_timestamp: self.creation_timestamp }
    }
}

impl Clone for Video {
    fn clone(&self) -> (copy: Self)
        ensures
            copy == *self,
    {
        Video { uri: self.uri.clone(), creation_timestamp: self.creation_timestamp }
    }
}

impl Clone for Audio {
    fn clone(&self) -> (copy: Self)
        ensures
            copy == *self,
    {
        Audio { uri: self.uri.clone(), creation_timestamp: self.creation_timestamp }
    }
}

impl Clone for Gif {
    fn clone(&self) -> (copy: Self)
        ensures
            copy == *self,
    {
        Gif { uri: self.uri.clone() }
    }
}

impl Clone for Sticker {
    fn clone(&self) -> (copy: Self)
        ensures
            copy == *self,
    {
        Sticker { uri: self.uri.clone() }
    }
}

impl Clone for BumpedMessageMetaData {
    fn clone(&self) -> (copy: Self)
        ensures
            copy == *self,
    {
        BumpedMessageMetaData {
            bumped_message: self.bumped_message.clone(),
            is_bumped: self.is_bumped,
        }
    }
}

impl View for BumpedMessageMetaData {
    type V = BumpedView;

    open spec fn view(&self) -> BumpedView {
        BumpedView { bumped_message: self.bumped_message@, is_bumped: self.is_bumped }
    }
}

/// The views of a run of files.
pub open spec fn file_views<T: TimedFile>(files: Seq<T>) -> Seq<FileView> {
    files.map_values(|file: T| file.file_view())
}

/// The addresses of a run of animated pictures.
pub open spec fn gif_uris(gifs: Seq<Gif>) -> Seq<Seq<char>> {
    gifs.map_values(|gif: Gif| gif.uri@)
}

/// The truth value under `key`, which must be there and be `true` or
/// `false`.
pub open spec fn flag_of(members: Seq<Member>, key: Seq<char>) -> Result<bool, DecodeError> {
    match member(members, key) {
        None => Err(DecodeError::MissingField),
        Some(Json::Bool(flag)) => Ok(flag),
        Some(_) => Err(DecodeError::UnexpectedType),
    }
}

/// What the object of a photo, a video or an audio file decodes to.
pub open spec fn decoded_file(json: Json) -> Result<FileView, DecodeError> {
    match json {
        Json::Object(members) => match text_of(members@, "uri"@) {
            Err(e) => Err(e),
            Ok(uri) => match number_of(members@, "creation_timestamp"@) {
                Err(e) => Err(e),
                Ok(creation_timestamp) => Ok(FileView { uri, creation_timestamp }),
            },
        },
        _ => Err(DecodeError::UnexpectedType),
    }
}

/// What a list of such objects decodes to.
pub open spec fn decoded_files(items: Seq<Json>) -> Result<Seq<FileView>, DecodeError> {
    all_or_first_error(items, |json: Json| decoded_file(json))
}

/// What the object of an animated picture or a sticker decodes to: its
/// address.
pub open spec fn decoded_uri(json: Json) -> Result<Seq<char>, DecodeError> {
    match json {
        Json::Object(members) => text_of(members@, "uri"@),
        _ => Err(DecodeError::UnexpectedType),
    }
}

/// What a list of animated pictures decodes to.
pub open spec fn decoded_uris(items: Seq<Json>) -> Result<Seq<Seq<char>>, DecodeError> {
    all_or_first_error(items, |json: Json| decoded_uri(json))
}

/// What the notice of a bumped message decodes to.
pub open spec fn decoded_bumped(json: Json) -> Result<BumpedView, DecodeError> {
    match json {
        Json::Object(members) => match text_of(members@, "bumped_message"@) {
            Err(e) => Err(e),
            Ok(bumped_message) => match flag_of(members@, "is_bumped"@) {
                Err(e) => Err(e),
                Ok(is_bumped) => Ok(BumpedView { bumped_message, is_bumped }),
            },
        },
        _ => Err(DecodeError::UnexpectedType),
    }
}

/// Reads the truth value under `key`.
pub(crate) fn flag_field(members: &Vec<Member>, key: &str) -> (flag: Result<bool, DecodeError>)
    ensures
        flag == flag_of(members@, key@),
{
    match find_member(members, key) {
        None => Err(DecodeError::MissingField),
        Some(Json::Bool(flag)) => Ok(*flag),
        Some(_) => Err(DecodeError::UnexpectedType),
    }
}

/// Decodes the object of a photo, a video or an audio file.
pub fn decode_file<T: TimedFile>(json: &Json) -> (decoded: Result<T, DecodeError>)
    ensures
        decoded matches Ok(file) ==> decoded_file(*json) == Ok::<FileView, DecodeError>(
            file.file_view(),
        ),
        decoded matches Err(e) ==> decoded_file(*json) == Err::<FileView, DecodeError>(e),
{
    match json {
        Json::Object(members) => {
            let uri = match text_field(members, "uri") {
                Ok(text) => text,
                Err(e) => { return Err(e); },
            };
            let creation_timestamp = match number_field(members, "creation_timestamp") {
                Ok(number) => number,
                Err(e) => { return Err(e); },
            };
            Ok(T::from_parts(uri, creation_timestamp))
        },
        _ => Err(DecodeError::UnexpectedType),
    }
}

/// Decodes a list of photos, videos or audio files, up to the first that
/// fails.
pub fn decode_files<T: TimedFile>(items: &Vec<Json>) -> (decoded: Result<Vec<T>, DecodeError>)
    ensures
        decoded matches Ok(files) ==> decoded_files(items@) == Ok::<Seq<FileView>, DecodeError>(
            file_views(files@),
        ),
        decoded matches Err(e) ==> decoded_files(items@) == Err::<Seq<FileView>, DecodeError>(e),
{
    let ghost each = |json: Json| decoded_file(json);
    let mut files: Vec<T> = Vec::new();
    let mut i: usize = 0;
    proof {
        lemma_conversion_starts(items@, each);
    }
    while i < items.len()
        invariant
            i <= items.len(),
            each == (|json: Json| decoded_file(json)),
            decoded_files(items@) == followed_by(
                file_views(files@),
                all_or_first_error(items@.skip(i as int), each),
            ),
        decreases items.len() - i,
    {
        proof {
            lemma_conversion_step(items@, each, file_views(files@), i as int);
        }
        match decode_file::<T>(&items[i]) {
            Err(e) => {
                return Err(e);
            },
            Ok(file) => {
                assert(file_views(files@.push(file)) == file_views(files@).push(
                    file.file_view(),
                ));
                files.push(file);
            },
        }
        i += 1;
    }
    proof {
        lemma_conversion_ends(items@, each, file_views(files@));
    }
    Ok(files)
}

/// Decodes the object of an animated picture.
pub fn decode_gif(json: &Json) -> (decoded: Result<Gif, DecodeError>)
    ensures
        decoded matches Ok(gif) ==> decoded_uri(*json) == Ok::<Seq<char>, DecodeError>(gif.uri@),
        decoded matches Err(e) ==> decoded_uri(*json) == Err::<Seq<char>, DecodeError>(e),
{
    match json {
        Json::Object(members) => match text_field(members, "uri") {
            Ok(uri) => Ok(Gif { uri }),
            Err(e) => Err(e),
        },
        _ => Err(DecodeError::UnexpectedType),
    }
}

/// Decodes a list of animated pictures, up to the first that fails.
pub fn decode_gifs(items: &Vec<Json>) -> (decoded: Result<Vec<Gif>, DecodeError>)
    ensures
        decoded matches Ok(gifs) ==> decoded_uris(items@) == Ok::<Seq<Seq<char>>, DecodeError>(
            gif_uris(gifs@),
        ),
        decoded matches Err(e) ==> decoded_uris(items@) == Err::<Seq<Seq<char>>, DecodeError>(e),
{
    let ghost each = |json: Json| decoded_uri(json);
    let mut gifs: Vec<Gif> = Vec::new();
    let mut i: usize = 0;
    proof {
        lemma_conversion_starts(items@, each);
    }
    while i < items.len()
        invariant
            i <= items.len(),
            each == (|json: Json| decoded_uri(json)),
            decoded_uris(items@) == followed_by(
                gif_uris(gifs@),
                all_or_first_error(items@.skip(i as int), each),
            ),
        decreases items.len() - i,
    {
        proof {
            lemma_conversion_step(items@, each, gif_uris(gifs@), i as int);
        }
        match decode_gif(&items[i]) {
            Err(e) => {
                return Err(e);
            },
            Ok(gif) => {
                assert(gif_uris(gifs@.push(gif)) == gif_uris(gifs@).push(gif.uri@));
                gifs.push(gif);
            },
        }
        i += 1;
    }
    proof {
        lemma_conversion_ends(items@, each, gif_uris(gifs@));
    }
    Ok(gifs)
}

/// Decodes the object of a sticker.
pub fn decode_sticker(json: &Json) -> (decoded: Result<Sticker, DecodeError>)
    ensures
        decoded matches Ok(sticker) ==> decoded_uri(*json) == Ok::<Seq<char>, DecodeError>(
            sticker.uri@,
        ),
        decoded matches Err(e) ==> decoded_uri(*json) == Err::<Seq<char>, DecodeError>(e),
{
    match json {
        Json::Object(members) => match text_field(members, "uri") {
            Ok(uri) => Ok(Sticker { uri }),
            Err(e) => Err(e),
        },
        _ => Err(DecodeError::UnexpectedType),
    }
}

/// Decodes the notice of a bumped message.
pub fn decode_bumped(json: &Json) -> (decoded: Result<BumpedMessageMetaData, DecodeError>)
    ensures
        decoded matches Ok(notice) ==> decoded_bumped(*json) == Ok::<BumpedView, DecodeError>(
            notice@,
        ),
        decoded matches Err(e) ==> decoded_bumped(*json) == Err::<BumpedView, DecodeError>(e),
{
    match json {
        Json::Object(members) => {
            let bumped_message = match text_field(members, "bumped_message") {
                Ok(text) => text,
                Err(e) => { return Err(e); },
            };
            let is_bumped = match flag_field(members, "is_bumped") {
                Ok(flag) => flag,
                Err(e) => { return Err(e); },
            };
            Ok(BumpedMessageMetaData { bumped_message, is_bumped })
        },
        _ => Err(DecodeError::UnexpectedType),
    }
}

/// The content key of a raw message, with what the export holds under it.
#[derive(Debug, PartialEq, Eq)]
pub enum MessageType {
    Content(String),
    Photos(Vec<Photo>),
    Videos(Vec<Video>),
    AudioFiles(Vec<Audio>),
    Gifs(Vec<Gif>),
    Sticker(Sticker),
    IsUnsent(bool),
    BumpedMessageMetadata(BumpedMessageMetaData),
}

/// A content key and what it holds, as plain values.
pub enum MessageTypeView {
    Content(Seq<char>),
    Photos(Seq<FileView>),
    Videos(Seq<FileView>),
    AudioFiles(Seq<FileView>),
    Gifs(Seq<Seq<char>>),
    Sticker(Seq<char>),
    IsUnsent(bool),
    BumpedMessageMetadata(BumpedView),
}

impl View for MessageType {
    type V = MessageTypeView;

    open spec fn view(&self) -> MessageTypeView {
        match self {
            MessageType::Content(text) => MessageTypeView::Content(text@),
            MessageType::Photos(photos) => MessageTypeView::Photos(file_views(photos@)),
            MessageType::Videos(videos) => MessageTypeView::Videos(file_views(videos@)),
            MessageType::AudioFiles(files) => MessageTypeView::AudioFiles(file_views(files@)),
            MessageType::Gifs(gifs) => MessageTypeView::Gifs(gif_uris(gifs@)),
            MessageType::Sticker(sticker) => MessageTypeView::Sticker(sticker.uri@),
            MessageType::IsUnsent(unsent) => MessageTypeView::IsUnsent(*unsent),
            MessageType::BumpedMessageMetadata(notice) => MessageTypeView::BumpedMessageMetadata(
                notice@,
            ),
        }
    }
}

impl MessageTypeView {
    /// The canonical kind that the key stands for.
    pub open spec fn content_type(self) -> ContentType {
        match self {
            MessageTypeView::Content(_) => ContentType::Text,
            MessageTypeView::Photos(_) => ContentType::Photo,
            MessageTypeView::Videos(_) => ContentType::Video,
            MessageTypeView::AudioFiles(_) => ContentType::Audio,
            MessageTypeView::Gifs(_) => ContentType::Gif,
            MessageTypeView::Sticker(_) => ContentType::Sticker,
            MessageTypeView::IsUnsent(_) => ContentType::Unsent,
            MessageTypeView::BumpedMessageMetadata(_) => ContentType::Bumped,
        }
    }

    /// The text of a `Content`, and of nothing else.
    pub open spec fn text(self) -> Option<Seq<char>> {
        match self {
            MessageTypeView::Content(text) => Some(text),
            _ => None,
        }
    }
}

/// The kind of a message with `payload` under its content key: empty
/// without one.
pub open spec fn kind_of(payload: Option<MessageTypeView>) -> ContentType {
    match payload {
        Some(payload) => payload.content_type(),
        None => ContentType::Empty,
    }
}

/// The text of a message with `payload` under its content key.
pub open spec fn text_in(payload: Option<MessageTypeView>) -> Option<Seq<char>> {
    match payload {
        Some(payload) => payload.text(),
        None => None,
    }
}

impl MessageType {
    /// The canonical kind that this key stands for.
    pub open spec fn content_type(&self) -> ContentType {
        self@.content_type()
    }

    /// The text of a `Content`, and of nothing else.
    pub open spec fn text(&self) -> Option<Seq<char>> {
        self@.text()
    }

    /// The canonical kind that this key stands for.
    pub fn kind(&self) -> (kind: ContentType)
        ensures
            kind == self.content_type(),
    {
        match self {
            MessageType::Content(_) => ContentType::Text,
            MessageType::Photos(_) => ContentType::Photo,
            MessageType::Videos(_) => ContentType::Video,
            MessageType::AudioFiles(_) => ContentType::Audio,
            MessageType::Gifs(_) => ContentType::Gif,
            MessageType::Sticker(_) => ContentType::Sticker,
            MessageType::IsUnsent(_) => ContentType::Unsent,
            MessageType::BumpedMessageMetadata(_) => ContentType::Bumped,
        }
    }

    /// The name of the kind as storage writes it.
    pub fn message_type_matching(&self) -> (label: String)
        ensures
            label@ == self.content_type().label(),
    {
        self.kind().as_text().to_owned()
    }

    /// A copy of the text of a `Content`; nothing for any other key.
    pub fn get_text_if_exists(&self) -> (text: Option<String>)
        ensures
            text is Some <==> self is Content,
            text matches Some(t) ==> self.text() == Some(t@),
    {
        match self {
            MessageType::Content(text) => Some(text.clone()),
            _ => None,
        }
    }
}

impl Clone for MessageType {
    fn clone(&self) -> (copy: Self)
        ensures
            copy@ == self@,
    {
        match self {
            MessageType::Content(text) => MessageType::Content(text.clone()),
            MessageType::Photos(photos) => {
                let copy = photos.clone();
                assert(copy@ =~= photos@);
                MessageType::Photos(copy)
            },
            MessageType::Videos(videos) => {
                let copy = videos.clone();
                assert(copy@ =~= videos@);
                MessageType::Videos(copy)
            },
            MessageType::AudioFiles(files) => {
                let copy = files.clone();
                assert(copy@ =~= files@);
                MessageType::AudioFiles(copy)
            },
            MessageType::Gifs(gifs) => {
                let copy = gifs.clone();
                assert(copy@ =~= gifs@);
                MessageType::Gifs(copy)
            },
            MessageType::Sticker(sticker) => MessageType::Sticker(sticker.clone()),
            MessageType::IsUnsent(unsent) => MessageType::IsUnsent(*unsent),
            MessageType::BumpedMessageMetadata(notice) => MessageType::BumpedMessageMetadata(
                notice.clone(),
            ),
        }
    }
}

/// What a message object holds under its content key, where it holds at
/// most one: nothing without a key, else the key with its value, which must
/// be what the key asks for.
pub open spec fn payload_of(members: Seq<Member>) -> Result<Option<MessageTypeView>, DecodeError> {
    if member(members, "content"@) is Some {
        match text_of(members, "content"@) {
            Err(e) => Err(e),
            Ok(text) => Ok(Some(MessageTypeView::Content(text))),
        }
    } else if member(members, "photos"@) is Some {
        match files_under(members, "photos"@) {
            Err(e) => Err(e),
            Ok(files) => Ok(Some(MessageTypeView::Photos(files))),
        }
    } else if member(members, "videos"@) is Some {
        match files_under(members, "videos"@) {
            Err(e) => Err(e),
            Ok(files) => Ok(Some(MessageTypeView::Videos(files))),
        }
    } else if member(members, "audio_files"@) is Some {
        match files_under(members, "audio_files"@) {
            Err(e) => Err(e),
            Ok(files) => Ok(Some(MessageTypeView::AudioFiles(files))),
        }
    } else if member(members, "gifs"@) is Some {
        match items_of(members, "gifs"@) {
            Err(e) => Err(e),
            Ok(items) => match decoded_uris(items) {
                Err(e) => Err(e),
                Ok(uris) => Ok(Some(MessageTypeView::Gifs(uris))),
            },
        }
    } else if member(members, "sticker"@) is Some {
        match decoded_uri(member(members, "sticker"@).unwrap()) {
            Err(e) => Err(e),
            Ok(uri) => Ok(Some(MessageTypeView::Sticker(uri))),
        }
    } else if member(members, "is_unsent"@) is Some {
        match flag_of(members, "is_unsent"@) {
            Err(e) => Err(e),
            Ok(unsent) => Ok(Some(MessageTypeView::IsUnsent(unsent))),
        }
    } else if member(members, "bumped_message_metadata"@) is Some {
        match decoded_bumped(member(members, "bumped_message_metadata"@).unwrap()) {
            Err(e) => Err(e),
            Ok(notice) => Ok(Some(MessageTypeView::BumpedMessageMetadata(notice))),
        }
    } else {
        Ok(None)
    }
}

/// The files in the list under `key`.
pub open spec fn files_under(members: Seq<Member>, key: Seq<char>) -> Result<
    Seq<FileView>,
    DecodeError,
> {
    match items_of(members, key) {
        Err(e) => Err(e),
        Ok(items) => decoded_files(items),
    }
}

/// Decodes the list of files under `key`.
fn files_field<T: TimedFile>(members: &Vec<Member>, key: &str) -> (decoded: Result<
    Vec<T>,
    DecodeError,
>)
    ensures
        decoded matches Ok(files) ==> files_under(members@, key@) == Ok::<
            Seq<FileView>,
            DecodeError,
        >(file_views(files@)),
        decoded matches Err(e) ==> files_under(members@, key@) == Err::<
            Seq<FileView>,
            DecodeError,
        >(e),
{
    match items_field(members, key) {
        Err(e) => Err(e),
        Ok(items) => decode_files::<T>(items),
    }
}

/// Decodes what a message object holds under its content key.
pub fn decode_payload(members: &Vec<Member>) -> (decoded: Result<Option<MessageType>, DecodeError>)
    ensures
        decoded matches Ok(Some(payload)) ==> payload_of(members@) == Ok::<
            Option<MessageTypeView>,
            DecodeError,
        >(Some(payload@)),
        decoded matches Ok(None) ==> payload_of(members@) == Ok::<
            Option<MessageTypeView>,
            DecodeError,
        >(None),
        decoded matches Err(e) ==> payload_of(members@) == Err::<
            Option<MessageTypeView>,
            DecodeError,
        >(e),
{
    if find_member(members, "content").is_some() {
        match text_field(members, "content") {
            Ok(text) => Ok(Some(MessageType::Content(text))),
            Err(e) => Err(e),
        }
    } else if find_member(members, "photos").is_some() {
        match files_field::<Photo>(members, "photos") {
            Ok(photos) => Ok(Some(MessageType::Photos(photos))),
            Err(e) => Err(e),
        }
    } else if find_member(members, "videos").is_some() {
        match files_field::<Video>(members, "videos") {
            Ok(videos) => Ok(Some(MessageType::Videos(videos))),
            Err(e) => Err(e),
        }
    } else if find_member(members, "audio_files").is_some() {
        match files_field::<Audio>(members, "audio_files") {
            Ok(files) => Ok(Some(MessageType::AudioFiles(files))),
            Err(e) => Err(e),
        }
    } else if find_member(members, "gifs").is_some() {
        let items = match items_field(members, "gifs") {
            Ok(items) => items,
            Err(e) => { return Err(e); },
        };
        match decode_gifs(items) {
            Ok(gifs) => Ok(Some(MessageType::Gifs(gifs))),
            Err(e) => Err(e),
        }
    } else if let Some(json) = find_member(members, "sticker") {
        match decode_sticker(json) {
            Ok(sticker) => Ok(Some(MessageType::Sticker(sticker))),
            Err(e) => Err(e),
        }
    } else if find_member(members, "is_unsent").is_some() {
        match flag_field(members, "is_unsent") {
            Ok(unsent) => Ok(Some(MessageType::IsUnsent(unsent))),
            Err(e) => Err(e),
        }
    } else if let Some(json) = find_member(members, "bumped_message_metadata") {
        match decode_bumped(json) {
            Ok(notice) => Ok(Some(MessageType::BumpedMessageMetadata(notice))),
            Err(e) => Err(e),
        }
    } else {
        Ok(None)
    }
}

} // verus!
