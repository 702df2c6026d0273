//! The track record and the rules that give every record a place in the tree.

use vstd::prelude::*;

verus! {

/// The tags of one audio file, as found: only `artist` and `track_title` are
/// always present.
#[derive(Clone, Debug)]
pub struct AudioFileTrackMetadata {
    pub artist: String,
    pub album_artist: Option<String>,
    pub album: Option<String>,
    pub disc_no: Option<u32>,
    pub disc_total: Option<u32>,
    pub track: Option<u32>,
    pub track_total: Option<u32>,
    pub track_title: String,
    pub genre: Option<String>,
    pub date: Option<String>,
    pub full_path: String,
}

/// The mathematical content of a track record.
pub ghost struct TrackView {
    pub artist: Seq<char>,
    pub album_artist: Option<Seq<char>>,
    pub album: Option<Seq<char>>,
    pub disc_no: Option<u32>,
    pub disc_total: Option<u32>,
    pub track: Option<u32>,
    pub track_total: Option<u32>,
    pub track_title: Seq<char>,
    pub genre: Option<Seq<char>>,
    pub date: Option<Seq<char>>,
    pub full_path: Seq<char>,
}

/// The place of a track in the tree: artist, album, disc and track number,
/// each after its fallback rule has been applied.
pub ghost struct Slot {
    pub artist: Seq<char>,
    pub album: Seq<char>,
    pub disc: u32,
    pub track: u32,
}

/// The view of an optional string.
pub open spec fn text_view(s: Option<String>) -> Option<Seq<char>> {
    match s {
        Some(v) => Some(v@),
        None => None,
    }
}

impl TrackView {
    /// The album artist, or the artist where no album artist is tagged.
    pub open spec fn album_artist_or_artist(self) -> Seq<char> {
        match self.album_artist {
            Some(v) => v,
            None => self.artist,
        }
    }

    /// The album, or the title where no album is tagged: such a track is a
    /// single, which is its own album.
    pub open spec fn album_or_title(self) -> Seq<char> {
        match self.album {
            Some(v) => v,
            None => self.track_title,
        }
    }

    /// The disc number, or 1 where none is tagged.
    pub open spec fn disc_or_first(self) -> u32 {
        match self.disc_no {
            Some(v) => v,
            None => 1,
        }
    }

    /// The track number, or 1 where none is tagged.
    pub open spec fn track_or_first(self) -> u32 {
        match self.track {
            Some(v) => v,
            None => 1,
        }
    }

    /// The slot that the record resolves to.
    pub open spec fn slot(self) -> Slot {
        Slot {
            artist: self.album_artist_or_artist(),
            album: self.album_or_title(),
            disc: self.disc_or_first(),
            track: self.track_or_first(),
        }
    }
}

impl View for AudioFileTrackMetadata {
    type V = TrackView;

    open spec fn view(&self) -> TrackView {
        TrackView {
            artist: self.artist@,
            album_artist: text_view(self.album_artist),
            album: text_view(self.album),
            disc_no: self.disc_no,
            disc_total: self.disc_total,
            track: self.track,
            track_total: self.track_total,
            track_title: self.track_title@,
            genre: text_view(self.genre),
            date: text_view(self.date),
            full_path: self.full_path@,
        }
    }
}

impl AudioFileTrackMetadata {
    /// The name of the artist node that holds this track.
    pub fn resolve_album_artist(&self) -> (name: String)
        ensures
            name@ == self@.album_artist_or_artist(),
            self.album_artist is None ==> name@ == self.artist@,
            self.album_artist is Some ==> name@ == self.album_artist->0@,
    {
        match &self.album_artist {
            Some(v) => v.clone(),
            None => self.artist.clone(),
        }
    }

    /// The name of the album node that holds this track.
    pub fn resolve_album(&self) -> (name: String)
        ensures
            name@ == self@.album_or_title(),
            self.album is None ==> name@ == self.track_title@,
            self.album is Some ==> name@ == self.album->0@,
    {
        match &self.album {
            Some(v) => v.clone(),
            None => self.track_title.clone(),
        }
    }

    /// The number of the disc node that holds this track.
    pub fn resolve_disc_number(&self) -> (number: u32)
        ensures
            number == self@.disc_or_first(),
            self.disc_no is None ==> number == 1,
            self.disc_no is Some ==> number == self.disc_no->0,
    {
        match self.disc_no {
            Some(v) => v,
            None => 1,
        }
    }

    /// The number of the track within its disc.
    pub fn resolve_track_number(&self) -> (number: u32)
        ensures
            number == self@.track_or_first(),
            self.track is None ==> number == 1,
            self.track is Some ==> number == self.track->0,
    {
        match self.track {
            Some(v) => v,
            None => 1,
        }
    }
}

} // verus!
