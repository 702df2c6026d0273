//! Reading the tags of audio files into track records: the Vorbis comments
//! of a FLAC stream, and the frames of the ID3 tag of an MP3 file.

use vstd::prelude::*;
use id3::TagLike;
use crate::error::BuildError;
use crate::model::{text_view, AudioFileTrackMetadata, TrackView};
use crate::numbers::{decimal, decimal_text};
use crate::scan::{audio_format, format_of, is_music, pointed, AudioFormat, SourceFile};
use crate::organize::views;
use crate::tags::{
    delivers, lowercase_keys, lowered, metadata_from_tags, pair_views, reports, tags_outcome,
    Fault, TagSeq,
};

verus! {

/// What the frames of an ID3 tag say of a track, each as its accessor gives
/// it.
#[derive(Clone, Debug)]
pub struct FrameTags {
    pub artist: Option<String>,
    pub album_artist: Option<String>,
    pub album: Option<String>,
    pub disc: Option<u32>,
    pub total_discs: Option<u32>,
    pub track: Option<u32>,
    pub total_tracks: Option<u32>,
    pub title: Option<String>,
    pub genre: Option<String>,
    pub year: Option<i32>,
}

/// The mathematical content of the frames.
pub ghost struct FrameTagsView {
    pub artist: Option<Seq<char>>,
    pub album_artist: Option<Seq<char>>,
    pub album: Option<Seq<char>>,
    pub disc: Option<u32>,
    pub total_discs: Option<u32>,
    pub track: Option<u32>,
    pub total_tracks: Option<u32>,
    pub title: Option<Seq<char>>,
    pub genre: Option<Seq<char>>,
    pub year: Option<i32>,
}

impl View for FrameTags {
    type V = FrameTagsView;

    open spec fn view(&self) -> FrameTagsView {
        FrameTagsView {
            artist: text_view(self.artist),
            album_artist: text_view(self.album_artist),
            album: text_view(self.album),
            disc: self.disc,
            total_discs: self.total_discs,
            track: self.track,
            total_tracks: self.total_tracks,
            title: text_view(self.title),
            genre: text_view(self.genre),
            year: self.year,
        }
    }
}

/// The Vorbis comments that `claxon` reads from the FLAC stream `contents`,
/// as pairs of name and value in the order of the stream, or nothing where
/// it rejects the stream.
pub uninterp spec fn flac_comments(contents: Seq<u8>) -> Option<TagSeq>;

/// What the accessors of `id3` give for the tag that it reads from
/// `contents`, or nothing where it reads no tag.
pub uninterp spec fn id3_frames(contents: Seq<u8>) -> Option<FrameTagsView>;

/// Calls `claxon::FlacReader::new` on the bytes and collects what
/// `FlacReader::tags` hands out. The contract only gives the outcome its
/// name: the pairs where the stream header and metadata blocks decode, an
/// error where they do not.
#[verifier::external_body]
fn read_flac_comments(contents: &[u8]) -> (comments: Result<Vec<(String, String)>, claxon::Error>)
    ensures
        match comments {
            Ok(pairs) => flac_comments(contents@) == Some(pair_views(pairs@)),
            Err(_) => flac_comments(contents@) is None,
        },
{
    let reader = claxon::FlacReader::new(contents)?;
    let mut pairs = Vec::new();
    for (name, value) in reader.tags() {
        pairs.push((name.to_string(), value.to_string()));
    }
    Ok(pairs)
}

/// Calls `id3::Tag::read_from2` on the bytes and asks the tag's accessors of
/// `id3::TagLike` for each field. The contract only gives the outcome its
/// name: the fields where a tag is read, an error where none is.
#[verifier::external_body]
fn read_id3_frames(contents: &[u8]) -> (frames: Result<FrameTags, id3::Error>)
    ensures
        match frames {
            Ok(fields) => id3_frames(contents@) == Some(fields@),
            Err(_) => id3_frames(contents@) is None,
        },
{
    let tag = id3::Tag::read_from2(std::io::Cursor::new(contents))?;
    Ok(FrameTags {
        artist: tag.artist().map(str::to_string),
        album_artist: tag.album_artist().map(str::to_string),
        album: tag.album().map(str::to_string),
        disc: tag.disc(),
        total_discs: tag.total_discs(),
        track: tag.track(),
        total_tracks: tag.total_tracks(),
        title: tag.title().map(str::to_string),
        genre: tag.genre().map(str::to_string),
        year: tag.year(),
    })
}

/// What the frames yield for the file at `path`: the artist and the title
/// are required, and the year is written out as the date.
pub open spec fn frames_outcome(path: Seq<char>, frames: FrameTagsView) -> Result<
    TrackView,
    Fault,
> {
    if frames.artist is None {
        Err(Fault::Missing("artist"@))
    } else if frames.title is None {
        Err(Fault::Missing("title"@))
    } else {
        Ok(
            TrackView {
                artist: frames.artist->0,
                album_artist: frames.album_artist,
                album: frames.album,
                disc_no: frames.disc,
                disc_total: frames.total_discs,
                track: frames.track,
                track_total: frames.total_tracks,
                track_title: frames.title->0,
                genre: frames.genre,
                date: match frames.year {
                    Some(y) => Some(decimal(y as int)),
                    None => None,
                },
                full_path: path,
            },
        )
    }
}

/// What the FLAC file yields.
pub open spec fn flac_outcome(file: SourceFile) -> Result<TrackView, Fault> {
    match flac_comments(file.contents@) {
        Some(comments) => tags_outcome(file.path@, lowered(comments)),
        None => Err(Fault::BadStream),
    }
}

/// What the MP3 file yields.
pub open spec fn mp3_outcome(file: SourceFile) -> Result<TrackView, Fault> {
    match id3_frames(file.contents@) {
        Some(frames) => frames_outcome(file.path@, frames),
        None => Err(Fault::BadFrames),
    }
}

/// What the file yields, by the format that its extension names.
pub open spec fn outcome(file: SourceFile) -> Result<TrackView, Fault> {
    match format_of(file.path@) {
        Some(AudioFormat::Flac) => flac_outcome(file),
        Some(AudioFormat::Mp3) => mp3_outcome(file),
        None => Err(Fault::NoFormat),
    }
}

/// The track record of the file at `path` from the frames of its ID3 tag.
pub fn metadata_from_frames(path: &str, frames: FrameTags) -> (metadata: Result<
    AudioFileTrackMetadata,
    BuildError,
>)
    ensures
        delivers(metadata, frames_outcome(path@, frames@), path@),
{
    let artist = match frames.artist {
        Some(v) => v,
        None => {
            return Err(BuildError::MissingMetadataKey(path.to_owned(), "artist"));
        },
    };
    let track_title = match frames.title {
        Some(v) => v,
        None => {
            return Err(BuildError::MissingMetadataKey(path.to_owned(), "title"));
        },
    };
    let date = match frames.year {
        Some(y) => Some(decimal_text(y)),
        None => None,
    };
    Ok(
        AudioFileTrackMetadata {
            artist,
            album_artist: frames.album_artist,
            album: frames.album,
            disc_no: frames.disc,
            disc_total: frames.total_discs,
            track: frames.track,
            track_total: frames.total_tracks,
            track_title,
            genre: frames.genre,
            date,
            full_path: path.to_owned(),
        },
    )
}

/// The track record of a FLAC file, from its Vorbis comments, whose names
/// count whatever their case.
pub fn parse_flac_file(file: &SourceFile) -> (metadata: Result<AudioFileTrackMetadata, BuildError>)
    ensures
        delivers(metadata, flac_outcome(*file), file.path@),
{
    match read_flac_comments(file.contents.as_slice()) {
        Ok(comments) => {
            let tags = lowercase_keys(&comments);
            metadata_from_tags(file.path.as_str(), &tags)
        },
        Err(e) => Err(BuildError::Claxon(e)),
    }
}

/// The track record of an MP3 file, from the frames of its ID3 tag.
pub fn parse_mp3_file(file: &SourceFile) -> (metadata: Result<AudioFileTrackMetadata, BuildError>)
    ensures
        delivers(metadata, mp3_outcome(*file), file.path@),
{
    match read_id3_frames(file.contents.as_slice()) {
        Ok(frames) => metadata_from_frames(file.path.as_str(), frames),
        Err(e) => Err(BuildError::ID3(e)),
    }
}

/// The track record of an audio file, read as the format that its
/// extension names. A file whose extension names none is not to be handed
/// in: the scan leaves such files out.
pub fn parse_single_audio_file(file: &SourceFile) -> (metadata: Result<
    AudioFileTrackMetadata,
    BuildError,
>)
    requires
        is_music(*file),
    ensures
        delivers(metadata, outcome(*file), file.path@),
{
    match audio_format(file.path.as_str()) {
        Some(AudioFormat::Flac) => parse_flac_file(file),
        Some(AudioFormat::Mp3) => parse_mp3_file(file),
        None => vstd::pervasive::unreached(),
    }
}

/// Every file before `n` yields a record.
pub open spec fn all_yield(files: Seq<SourceFile>, n: int) -> bool {
    forall|i: int| 0 <= i < n ==> outcome(#[trigger] files[i]) is Ok
}

/// The records that the files yield, in order.
pub open spec fn records_of(files: Seq<SourceFile>) -> Seq<TrackView> {
    Seq::new(files.len(), |i: int| outcome(files[i])->Ok_0)
}

/// The file at `n` is the first that yields no record, and `e` reports why.
pub open spec fn first_failure(files: Seq<SourceFile>, n: int, e: BuildError) -> bool {
    &&& 0 <= n < files.len()
    &&& all_yield(files, n)
    &&& outcome(files[n]) is Err
    &&& reports(e, outcome(files[n])->Err_0, files[n].path@)
}

/// The track records of the audio files, in order: all of them, or the
/// error of the first file that yields none.
pub fn parse_all_audio_files(files: &Vec<&SourceFile>) -> (all: Result<
    Vec<AudioFileTrackMetadata>,
    BuildError,
>)
    requires
        forall|i: int| 0 <= i < files@.len() ==> is_music(*#[trigger] files@[i]),
    ensures
        all is Ok <==> all_yield(pointed(files@), files@.len() as int),
        match all {
            Ok(records) => views(records@) == records_of(pointed(files@)),
            Err(e) => exists|n: int| #[trigger] first_failure(pointed(files@), n, e),
        },
{
    let mut records: Vec<AudioFileTrackMetadata> = Vec::new();
    let mut i: usize = 0;
    while i < files.len()
        invariant
            i <= files@.len(),
            records@.len() == i,
            forall|j: int| 0 <= j < files@.len() ==> is_music(*#[trigger] files@[j]),
            all_yield(pointed(files@), i as int),
            forall|j: int| 0 <= j < i ==> (#[trigger] records@[j])@ == outcome(*files@[j])->Ok_0,
        decreases files@.len() - i,
    {
        assert(is_music(*files@[i as int]));
        assert(pointed(files@)[i as int] == *files@[i as int]);
        match parse_single_audio_file(files[i]) {
            Ok(record) => {
                records.push(record);
            },
            Err(e) => {
                assert(first_failure(pointed(files@), i as int, e));
                return Err(e);
            },
        }
        i += 1;
    }
    assert(views(records@) =~= records_of(pointed(files@)));
    Ok(records)
}

} // verus!
