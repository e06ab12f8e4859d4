//! Files received from a chat: what the bot keeps of each one.
use vstd::prelude::*;
use crate::text::{
    after_last, all_ascii, ascii_lower, ascii_lower_char, last_piece, lemma_after_last_suffix,
    lowercase, to_lowercase,
};

verus! {

/// A file that a user sent and the bot may convert.
#[derive(Debug)]
pub struct FileInfo {
    /// The messenger's identifier of the file, by which it is downloaded.
    pub file_id: String,
    /// The name the file goes by (its own, or one chosen for it).
    pub file_name: String,
    /// The lowercased part of the name after its last dot.
    pub ext: String,
    /// The message that carried the file.
    pub message_id: i32,
}

impl Clone for FileInfo {
    fn clone(&self) -> (res: Self)
        ensures
            res == *self,
    {
        FileInfo {
            file_id: self.file_id.clone(),
            file_name: self.file_name.clone(),
            ext: self.ext.clone(),
            message_id: self.message_id,
        }
    }
}

/// The attachment of an incoming message, as far as file conversion cares.
pub enum Media {
    /// A document, with the name it was sent under, if any.
    Document { file_id: String, file_name: Option<String> },
    /// A photo, in the sizes the messenger keeps of it, smallest first.
    Photo { file_ids: Vec<String> },
    /// An audio track, with its name, if any.
    Audio { file_id: String, file_name: Option<String> },
    /// A video, with its name, if any.
    Video { file_id: String, file_name: Option<String> },
    /// A voice note.
    Voice { file_id: String },
    /// Anything else: text, a sticker, no attachment at all.
    Other,
}

/// The extension the bot reads off a file name: the lowercased part after the last dot
/// (the whole name, lowercased, where there is no dot).
pub open spec fn extension_of(name: Seq<char>) -> Seq<char> {
    lowercase(after_last(name, '.'))
}

/// The extension read off any name, ASCII or not, is the lowercase of its last piece: the
/// part that holds no dot and follows the last dot, or the whole name where there is no dot.
pub proof fn lemma_extension_is_last_piece(name: Seq<char>)
    ensures
        exists|k: int|
            {
                &&& 0 <= k <= name.len()
                &&& extension_of(name) == lowercase(#[trigger] name.skip(k))
                &&& !name.skip(k).contains('.')
                &&& (k == 0 && !name.contains('.')) || (k > 0 && name[k - 1] == '.')
            },
{
    lemma_after_last_suffix(name, '.');
    let k = name.len() - after_last(name, '.').len();
    if k == 0 {
        assert(after_last(name, '.').len() == name.len());
    }
    assert(name.skip(k) == after_last(name, '.'));
}

/// The name a file goes by: its own, or `default` where it came without one.
pub open spec fn name_or(name: Option<String>, default: Seq<char>) -> Seq<char> {
    match name {
        Some(n) => n@,
        None => default,
    }
}

/// `f` describes the file `id` named `name`, sent in message `message_id`, with the
/// extension read off that name.
pub open spec fn describes(f: FileInfo, id: Seq<char>, name: Seq<char>, message_id: i32) -> bool {
    &&& f.file_id@ == id
    &&& f.file_name@ == name
    &&& f.ext@ == extension_of(name)
    &&& f.message_id == message_id
}

/// `f` describes the file `id` under a fixed `name` and extension `ext`.
pub open spec fn describes_fixed(
    f: FileInfo,
    id: Seq<char>,
    name: Seq<char>,
    ext: Seq<char>,
    message_id: i32,
) -> bool {
    &&& f.file_id@ == id
    &&& f.file_name@ == name
    &&& f.ext@ == ext
    &&& f.message_id == message_id
}

/// The extension of an ASCII file name, as the bot reads it: the part after the last dot
/// with capitals made small; it holds no dot.
pub open spec fn has_ascii_extension(f: FileInfo) -> bool {
    all_ascii(f.file_name@) ==> {
        &&& f.ext@ == ascii_lower(after_last(f.file_name@, '.'))
        &&& !f.ext@.contains('.')
    }
}

proof fn lemma_ascii_extension(name: Seq<char>)
    requires
        all_ascii(name),
    ensures
        all_ascii(after_last(name, '.')),
        !ascii_lower(after_last(name, '.')).contains('.'),
{
    lemma_after_last_suffix(name, '.');
    let a = after_last(name, '.');
    assert forall|i: int| 0 <= i < a.len() implies (#[trigger] a[i] as int) < 128 by {
        assert(a[i] == name[name.len() - a.len() + i]);
    }
    if ascii_lower(a).contains('.') {
        let k = choose|k: int| 0 <= k < a.len() && ascii_lower(a)[k] == '.';
        assert(ascii_lower_char(a[k]) == '.');
        assert(a[k] == '.');
    }
}

fn named_file(file_id: &String, name: String, message_id: i32) -> (res: FileInfo)
    ensures
        describes(res, file_id@, name@, message_id),
        has_ascii_extension(res),
{
    let piece = last_piece(name.as_str(), '.');
    let ext = to_lowercase(piece.as_str());
    proof {
        if all_ascii(name@) {
            lemma_ascii_extension(name@);
        }
    }
    FileInfo { file_id: file_id.clone(), file_name: name, ext, message_id }
}

fn fixed_file(file_id: &String, name: &str, ext: &str, message_id: i32) -> (res: FileInfo)
    requires
        ascii_lower(after_last(name@, '.')) == ext@,
        !ext@.contains('.'),
    ensures
        describes_fixed(res, file_id@, name@, ext@, message_id),
        has_ascii_extension(res),
{
    FileInfo {
        file_id: file_id.clone(),
        file_name: String::from_str(name),
        ext: String::from_str(ext),
        message_id,
    }
}

fn name_or_default(name: &Option<String>, default: &str) -> (res: String)
    ensures
        res@ == name_or(*name, default@),
{
    match name {
        Some(n) => n.clone(),
        None => String::from_str(default),
    }
}

/// Whether `media` carries a file the bot can take: every attachment does, but for a photo
/// without sizes and anything that is not a file.
pub open spec fn carries_file(media: Media) -> bool {
    match media {
        Media::Photo { file_ids } => file_ids.len() > 0,
        Media::Other => false,
        _ => true,
    }
}

/// `f` is the file that `media`, sent in message `message_id`, carries: a document, audio
/// or video under its own name (or `file`, `audio.mp3`, `video.mp4`), a photo in its
/// largest size as `image.jpg`, a voice note as `voice.ogg`.
pub open spec fn media_file(media: Media, message_id: i32, f: FileInfo) -> bool {
    match media {
        Media::Document { file_id, file_name } => describes(
            f,
            file_id@,
            name_or(file_name, "file"@),
            message_id,
        ),
        Media::Photo { file_ids } => file_ids.len() > 0 && describes_fixed(
            f,
            file_ids@.last()@,
            "image.jpg"@,
            "jpg"@,
            message_id,
        ),
        Media::Audio { file_id, file_name } => describes(
            f,
            file_id@,
            name_or(file_name, "audio.mp3"@),
            message_id,
        ),
        Media::Video { file_id, file_name } => describes(
            f,
            file_id@,
            name_or(file_name, "video.mp4"@),
            message_id,
        ),
        Media::Voice { file_id } => describes_fixed(f, file_id@, "voice.ogg"@, "ogg"@, message_id),
        Media::Other => false,
    }
}

/// The file a message carries, if it carries one.
pub fn extract_file_info(media: &Media, message_id: i32) -> (res: Option<FileInfo>)
    ensures
        res is Some <==> carries_file(*media),
        res matches Some(f) ==> media_file(*media, message_id, f),
        res matches Some(f) ==> has_ascii_extension(f),
        match media {
            Media::Document { .. } | Media::Audio { .. } | Media::Video { .. } => res matches Some(f)
                && f.ext@ == lowercase(after_last(f.file_name@, '.')),
            _ => true,
        },
{
    match media {
        Media::Document { file_id, file_name } => {
            Some(named_file(file_id, name_or_default(file_name, "file"), message_id))
        },
        Media::Photo { file_ids } => {
            if file_ids.len() == 0 {
                None
            } else {
                let largest = &file_ids[file_ids.len() - 1];
                proof {
                    reveal_strlit("image.jpg");
                    reveal_strlit("jpg");
                    reveal_with_fuel(after_last, 5);
                    assert("image.jpg"@.drop_last().drop_last().drop_last() =~= seq!['i', 'm', 'a', 'g', 'e', '.']);
                    assert(ascii_lower(after_last("image.jpg"@, '.')) =~= "jpg"@);
                }
                Some(fixed_file(largest, "image.jpg", "jpg", message_id))
            }
        },
        Media::Audio { file_id, file_name } => {
            Some(named_file(file_id, name_or_default(file_name, "audio.mp3"), message_id))
        },
        Media::Video { file_id, file_name } => {
            Some(named_file(file_id, name_or_default(file_name, "video.mp4"), message_id))
        },
        Media::Voice { file_id } => {
            proof {
                reveal_strlit("voice.ogg");
                reveal_strlit("ogg");
                reveal_with_fuel(after_last, 5);
                assert("voice.ogg"@.drop_last().drop_last().drop_last() =~= seq!['v', 'o', 'i', 'c', 'e', '.']);
                assert(ascii_lower(after_last("voice.ogg"@, '.')) =~= "ogg"@);
            }
            Some(fixed_file(file_id, "voice.ogg", "ogg", message_id))
        },
        Media::Other => None,
    }
}

} // verus!
