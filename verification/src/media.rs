//! Media records and the classification of files by extension.

use vstd::prelude::*;
use crate::hash::ContentHash;
use crate::hash::blake3_digest_of;
use crate::hash::hash_bytes;
use crate::naming::derive_folder_path;
use crate::naming::folder_chars;
use crate::strutil::{ext_of, nocase_eq};
use crate::time::Timestamp;

verus! {

/// Concrete photo codecs the archive accepts.
#[derive(Clone, Debug, PartialEq, Eq, Structural)]
pub enum PhotoFormat {
    Jpeg,
}

/// Concrete video codecs the archive accepts.
#[derive(Clone, Debug, PartialEq, Eq, Structural)]
pub enum VideoFormat {
    Mov,
    Mp4,
}

/// The kind of a media file.
#[derive(Clone, Debug, PartialEq, Eq, Structural)]
pub enum MediaType {
    Photo(PhotoFormat),
    Video(VideoFormat),
}

impl MediaType {
    /// Whether this is a photo of any format.
    pub fn is_photo(&self) -> (r: bool)
        ensures
            r == (*self is Photo),
    {
        matches!(self, MediaType::Photo(_))
    }

    /// Whether this is a video of any format.
    pub fn is_video(&self) -> (r: bool)
        ensures
            r == (*self is Video),
    {
        matches!(self, MediaType::Video(_))
    }
}

/// The media type that the classification table assigns to a path:
/// jpg/jpeg name JPEG photos, mov and mp4 name videos, anything else is
/// not a media file. The lookup ignores ASCII case.
pub open spec fn media_type_for(path: Seq<char>) -> Option<MediaType> {
    match ext_of(path) {
        Some(e) => {
            if nocase_eq(e, "jpg"@) || nocase_eq(e, "jpeg"@) {
                Some(MediaType::Photo(PhotoFormat::Jpeg))
            } else if nocase_eq(e, "mov"@) {
                Some(MediaType::Video(VideoFormat::Mov))
            } else if nocase_eq(e, "mp4"@) {
                Some(MediaType::Video(VideoFormat::Mp4))
            } else {
                None
            }
        },
        None => None,
    }
}

/// Classifies a file by its extension; `None` means the file takes no part
/// in any further processing.
pub fn detect_media_type(path: &str) -> (r: Option<MediaType>)
    ensures
        r == media_type_for(path@),
{
    match crate::strutil::extension_of(path) {
        Some(e) => {
            if crate::strutil::eq_ignore_ascii_case(e, "jpg") || crate::strutil::eq_ignore_ascii_case(
                e,
                "jpeg",
            ) {
                Some(MediaType::Photo(PhotoFormat::Jpeg))
            } else if crate::strutil::eq_ignore_ascii_case(e, "mov") {
                Some(MediaType::Video(VideoFormat::Mov))
            } else if crate::strutil::eq_ignore_ascii_case(e, "mp4") {
                Some(MediaType::Video(VideoFormat::Mp4))
            } else {
                None
            }
        },
        None => None,
    }
}

/// One discovered file: its location, content fingerprint, size, kind,
/// best-known capture instant, and the date bucket derived from that
/// instant at scan time.
#[derive(Clone, Debug)]
pub struct MediaItem {
    pub path: String,
    pub hash: ContentHash,
    pub size: u64,
    pub media_type: MediaType,
    pub timestamp: Option<Timestamp>,
    pub folder_path: String,
}

/// Assembles the record for one discovered file. Fingerprint and size come
/// from the same byte stream, and the date bucket is derived once from the
/// capture instant (the sentinel "unknown-date" when there is none).
pub fn build_media_record(
    path: String,
    data: &[u8],
    media_type: MediaType,
    timestamp: Option<Timestamp>,
) -> (r: MediaItem)
    requires
        timestamp is Some ==> timestamp->0.wf(),
    ensures
        r.path == path,
        r.hash@ == blake3_digest_of(data@),
        r.size == data@.len(),
        r.media_type == media_type,
        r.timestamp == timestamp,
        match timestamp {
            Some(t) => r.folder_path@ == folder_chars(t),
            None => r.folder_path@ == "unknown-date"@,
        },
{
    let size = data.len() as u64;
    let hash = hash_bytes(data);
    let folder_path = derive_folder_path(&timestamp);
    MediaItem { path, hash, size, media_type, timestamp, folder_path }
}

} // verus!
