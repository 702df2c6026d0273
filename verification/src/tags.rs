//! Track records from the flat tag dictionary of a FLAC file: named text
//! values, looked up by lower-case key.

use vstd::prelude::*;
use crate::error::BuildError;
use crate::model::{text_view, AudioFileTrackMetadata, TrackView};
use crate::name_order::{place_name, Placement};
use crate::numbers::{number_of, parse_u32};
use crate::text::{lowercase_of, to_lowercase};

verus! {

/// A tag dictionary in mathematical form: pairs of key and value, in the
/// order in which the file holds them.
pub type TagSeq = Seq<(Seq<char>, Seq<char>)>;

/// Why a file yields no track record.
pub ghost enum Fault {
    /// The extension of the file names no format that is read.
    NoFormat,
    /// The bytes are no FLAC stream that can be decoded.
    BadStream,
    /// The bytes hold no ID3 tag that can be decoded.
    BadFrames,
    /// The tag with this key is required and is not there.
    Missing(Seq<char>),
    /// The tag with this key is there but writes no number.
    NotNumeric(Seq<char>),
}

/// The error `e` reports the fault `fault` for the file at `path`. No error
/// reports a file without a format: such a file is never read.
pub open spec fn reports(e: BuildError, fault: Fault, path: Seq<char>) -> bool {
    match fault {
        Fault::NoFormat => false,
        Fault::BadStream => e is Claxon,
        Fault::BadFrames => e is ID3,
        Fault::Missing(key) => e.is_missing_key(path, key),
        Fault::NotNumeric(key) => e.is_not_numeric(path, key),
    }
}

/// The result `got` is what `due` asks for: the record, or an error that
/// reports the fault for the file at `path`.
pub open spec fn delivers(
    got: Result<AudioFileTrackMetadata, BuildError>,
    due: Result<TrackView, Fault>,
    path: Seq<char>,
) -> bool {
    match due {
        Ok(record) => got is Ok && got->Ok_0@ == record,
        Err(fault) => got is Err && reports(got->Err_0, fault, path),
    }
}

/// The pairs as mathematical text.
pub open spec fn pair_views(pairs: Seq<(String, String)>) -> TagSeq {
    Seq::new(pairs.len(), |i: int| (pairs[i].0@, pairs[i].1@))
}

/// The pairs with every key in lower case.
pub open spec fn lowered(pairs: TagSeq) -> TagSeq {
    Seq::new(pairs.len(), |i: int| (lowercase_of(pairs[i].0), pairs[i].1))
}

/// The value of the tag `key`: that of the last pair with this key, if
/// there is one.
pub open spec fn tag_value(tags: TagSeq, key: Seq<char>) -> Option<Seq<char>>
    decreases tags.len(),
{
    if tags.len() == 0 {
        None
    } else if tags.last().0 == key {
        Some(tags.last().1)
    } else {
        tag_value(tags.drop_last(), key)
    }
}

/// The tag `key` is there but writes no number.
pub open spec fn not_numeric(tags: TagSeq, key: Seq<char>) -> bool {
    tag_value(tags, key) matches Some(v) && number_of(v) is None
}

/// The number that the tag `key` writes, if the tag is there.
pub open spec fn tag_number(tags: TagSeq, key: Seq<char>) -> Option<u32> {
    match tag_value(tags, key) {
        Some(v) => number_of(v),
        None => None,
    }
}

/// The first fault of the tags, if they have one: the artist is asked for
/// first, then the four numbers, then the title.
pub open spec fn tags_fault(tags: TagSeq) -> Option<Fault> {
    if tag_value(tags, "artist"@) is None {
        Some(Fault::Missing("artist"@))
    } else if not_numeric(tags, "discnumber"@) {
        Some(Fault::NotNumeric("discnumber"@))
    } else if not_numeric(tags, "disctotal"@) {
        Some(Fault::NotNumeric("disctotal"@))
    } else if not_numeric(tags, "tracknumber"@) {
        Some(Fault::NotNumeric("tracknumber"@))
    } else if not_numeric(tags, "tracktotal"@) {
        Some(Fault::NotNumeric("tracktotal"@))
    } else if tag_value(tags, "title"@) is None {
        Some(Fault::Missing("title"@))
    } else {
        None
    }
}

/// The record that tags without a fault give for the file at `path`: a tag
/// that is not there leaves its field empty.
pub open spec fn tags_record(path: Seq<char>, tags: TagSeq) -> TrackView {
    TrackView {
        artist: tag_value(tags, "artist"@)->0,
        album_artist: tag_value(tags, "albumartist"@),
        album: tag_value(tags, "album"@),
        disc_no: tag_number(tags, "discnumber"@),
        disc_total: tag_number(tags, "disctotal"@),
        track: tag_number(tags, "tracknumber"@),
        track_total: tag_number(tags, "tracktotal"@),
        track_title: tag_value(tags, "title"@)->0,
        genre: tag_value(tags, "genre"@),
        date: tag_value(tags, "date"@),
        full_path: path,
    }
}

/// What lower-case tags yield for the file at `path`.
pub open spec fn tags_outcome(path: Seq<char>, tags: TagSeq) -> Result<TrackView, Fault> {
    match tags_fault(tags) {
        Some(fault) => Err(fault),
        None => Ok(tags_record(path, tags)),
    }
}

/// A tag that is missing in the first place is reported before any other
/// fault is looked for: tags without an artist yield the fault that names
/// `artist`, whatever else they hold.
pub proof fn lemma_missing_artist_reported(path: Seq<char>, tags: TagSeq)
    requires
        tag_value(tags, "artist"@) is None,
    ensures
        tags_outcome(path, tags) == Err::<TrackView, Fault>(Fault::Missing("artist"@)),
{
}

/// Tags with an artist and without a title yield the fault that names
/// `title`, unless one of the four numbers is there and is no number.
pub proof fn lemma_missing_title_reported(path: Seq<char>, tags: TagSeq)
    requires
        tag_value(tags, "artist"@) is Some,
        tag_value(tags, "title"@) is None,
        !not_numeric(tags, "discnumber"@),
        !not_numeric(tags, "disctotal"@),
        !not_numeric(tags, "tracknumber"@),
        !not_numeric(tags, "tracktotal"@),
    ensures
        tags_outcome(path, tags) == Err::<TrackView, Fault>(Fault::Missing("title"@)),
{
}

/// Tags with an artist in which one of the four numbers is there and is no
/// number yield a fault that names such a number.
pub proof fn lemma_not_numeric_reported(path: Seq<char>, tags: TagSeq, key: Seq<char>)
    requires
        tag_value(tags, "artist"@) is Some,
        not_numeric(tags, key),
        key == "discnumber"@ || key == "disctotal"@ || key == "tracknumber"@ || key
            == "tracktotal"@,
    ensures
        tags_outcome(path, tags) matches Err(Fault::NotNumeric(k)) && not_numeric(tags, k),
{
}

/// The pairs with every key put in lower case.
pub fn lowercase_keys(pairs: &Vec<(String, String)>) -> (tags: Vec<(String, String)>)
    ensures
        pair_views(tags@) == lowered(pair_views(pairs@)),
{
    let mut tags: Vec<(String, String)> = Vec::new();
    let mut i: usize = 0;
    while i < pairs.len()
        invariant
            i <= pairs@.len(),
            tags@.len() == i,
            forall|j: int|
                0 <= j < i ==> (#[trigger] tags@[j]).0@ == lowercase_of(pairs@[j].0@) && tags@[j].1@
                    == pairs@[j].1@,
        decreases pairs@.len() - i,
    {
        let key = to_lowercase(pairs[i].0.as_str());
        let value = pairs[i].1.clone();
        tags.push((key, value));
        i += 1;
    }
    assert(pair_views(tags@) =~= lowered(pair_views(pairs@)));
    tags
}

/// The value of the tag `key`, if the tags hold one.
pub fn get_string_option(tags: &Vec<(String, String)>, key: &str) -> (value: Option<String>)
    ensures
        text_view(value) == tag_value(pair_views(tags@), key@),
{
    let ghost all = pair_views(tags@);
    let mut i: usize = tags.len();
    assert(all.take(i as int) =~= all);
    while i > 0
        invariant
            i <= tags@.len(),
            all == pair_views(tags@),
            tag_value(all, key@) == tag_value(all.take(i as int), key@),
        decreases i,
    {
        let ghost front = all.take(i as int);
        assert(front.drop_last() =~= all.take(i - 1));
        assert(front.last() == all[i - 1]);
        i -= 1;
        if place_name(tags[i].0.as_str(), key) == Placement::Same {
            return Some(tags[i].1.clone());
        }
    }
    None
}

/// The value of the required tag `key` of the file at `path`.
pub fn get_string_result(tags: &Vec<(String, String)>, key: &'static str, path: &str) -> (value:
    Result<String, BuildError>)
    ensures
        match value {
            Ok(v) => tag_value(pair_views(tags@), key@) == Some(v@),
            Err(e) => tag_value(pair_views(tags@), key@) is None && e.is_missing_key(
                path@,
                key@,
            ),
        },
{
    match get_string_option(tags, key) {
        Some(v) => Ok(v),
        None => Err(BuildError::MissingMetadataKey(path.to_owned(), key)),
    }
}

/// The number that the tag `key` of the file at `path` writes, if the tag is
/// there.
pub fn get_u32_optional_result(
    tags: &Vec<(String, String)>,
    key: &'static str,
    path: &str,
) -> (number: Result<Option<u32>, BuildError>)
    ensures
        match number {
            Ok(n) => !not_numeric(pair_views(tags@), key@) && n == tag_number(
                pair_views(tags@),
                key@,
            ),
            Err(e) => not_numeric(pair_views(tags@), key@) && e.is_not_numeric(path@, key@),
        },
{
    match get_string_option(tags, key) {
        Some(v) => match parse_u32(v.as_str()) {
            Some(n) => Ok(Some(n)),
            None => Err(BuildError::ExpectedU32MetadataValue(path.to_owned(), key)),
        },
        None => Ok(None),
    }
}

/// The track record of the file at `path` from its tags, whose keys are in
/// lower case. The artist and the title are required; a disc or track
/// number or total that is there must be a number.
pub fn metadata_from_tags(path: &str, tags: &Vec<(String, String)>) -> (metadata: Result<
    AudioFileTrackMetadata,
    BuildError,
>)
    ensures
        delivers(metadata, tags_outcome(path@, pair_views(tags@)), path@),
{
    let artist = match get_string_result(tags, "artist", path) {
        Ok(v) => v,
        Err(e) => {
            return Err(e);
        },
    };
    let album_artist = get_string_option(tags, "albumartist");
    let album = get_string_option(tags, "album");
    let disc_no = match get_u32_optional_result(tags, "discnumber", path) {
        Ok(v) => v,
        Err(e) => {
            return Err(e);
        },
    };
    let disc_total = match get_u32_optional_result(tags, "disctotal", path) {
        Ok(v) => v,
        Err(e) => {
            return Err(e);
        },
    };
    let track = match get_u32_optional_result(tags, "tracknumber", path) {
        Ok(v) => v,
        Err(e) => {
            return Err(e);
        },
    };
    let track_total = match get_u32_optional_result(tags, "tracktotal", path) {
        Ok(v) => v,
        Err(e) => {
            return Err(e);
        },
    };
    let track_title = match get_string_result(tags, "title", path) {
        Ok(v) => v,
        Err(e) => {
            return Err(e);
        },
    };
    let genre = get_string_option(tags, "genre");
    let date = get_string_option(tags, "date");
    Ok(
        AudioFileTrackMetadata {
            artist,
            album_artist,
            album,
            disc_no,
            disc_total,
            track,
            track_total,
            track_title,
            genre,
            date,
            full_path: path.to_owned(),
        },
    )
}

} // verus!
