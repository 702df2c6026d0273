//! What can end a build of the library.

use vstd::prelude::*;
use crate::model::Slot;

verus! {

/// `std::io::Error`, carried through unread.
#[verifier::external_type_specification]
#[verifier::external_body]
pub struct ExIoError(std::io::Error);

/// `claxon::Error`, carried through unread.
#[verifier::external_type_specification]
#[verifier::external_body]
pub struct ExFlacError(claxon::Error);

/// `id3::Error`, carried through unread.
#[verifier::external_type_specification]
#[verifier::external_body]
pub struct ExFrameError(id3::Error);

/// Every way in which a build of the library ends without a library.
#[derive(Debug)]
pub enum BuildError {
    /// A directory or a file could not be read.
    IO(std::io::Error),
    /// The bytes of a FLAC file could not be decoded.
    Claxon(claxon::Error),
    /// The bytes of an MP3 file hold no tag that could be decoded.
    ID3(id3::Error),
    /// The file at the path given first lacks the tag named second.
    MissingMetadataKey(String, &'static str),
    /// In the file at the path given first, the tag named second is there
    /// but is no number.
    ExpectedU32MetadataValue(String, &'static str),
    /// A second track resolved to the artist, album, disc and track number
    /// given; the title is that of the track that stood there first.
    ConflictingTrack(String, String, u32, u32, String),
}

impl BuildError {
    /// The error reports a conflict at `slot` with a track titled `title`.
    pub open spec fn is_conflict(self, slot: Slot, title: Seq<char>) -> bool {
        match self {
            BuildError::ConflictingTrack(artist, album, disc, track, occupant) => {
                &&& artist@ == slot.artist
                &&& album@ == slot.album
                &&& disc == slot.disc
                &&& track == slot.track
                &&& occupant@ == title
            },
            _ => false,
        }
    }

    /// The error reports that the file at `path` lacks the tag `key`.
    pub open spec fn is_missing_key(self, path: Seq<char>, key: Seq<char>) -> bool {
        match self {
            BuildError::MissingMetadataKey(p, k) => p@ == path && k@ == key,
            _ => false,
        }
    }

    /// The error reports that in the file at `path` the tag `key` is no
    /// number.
    pub open spec fn is_not_numeric(self, path: Seq<char>, key: Seq<char>) -> bool {
        match self {
            BuildError::ExpectedU32MetadataValue(p, k) => p@ == path && k@ == key,
            _ => false,
        }
    }
}

} // verus!
