//! The library tree. Each level keeps its children in a vector ordered by
//! key, so that walking a level visits artists and albums by name and discs
//! and tracks by number, whatever the order in which tracks arrived.

use vstd::prelude::*;
use crate::error::BuildError;
use crate::map_union::{disjoint, held, holder, lemma_union_add, lemma_union_grow, lemma_union_member, lemma_union_single, union_of};
use crate::model::{AudioFileTrackMetadata, Slot, TrackView};
use crate::name_order::{lemma_names_distinct, lemma_names_gap, name_before, names_ascend, place_name, Placement};

verus! {

/// One disc of an album: its tracks, by ascending track number.
#[derive(Clone, Debug)]
pub struct Disc {
    pub number: u32,
    pub tracks: Vec<AudioFileTrackMetadata>,
}

/// One album of an artist: its discs, by ascending disc number.
#[derive(Clone, Debug)]
pub struct Album {
    pub name: String,
    pub discs: Vec<Disc>,
}

/// One artist of the library: the albums, by ascending name.
#[derive(Clone, Debug)]
pub struct Artist {
    pub name: String,
    pub albums: Vec<Album>,
}

/// The library: its artists, by ascending name.
#[derive(Clone, Debug)]
pub struct Library {
    pub artists: Vec<Artist>,
}

/// The map that holds one track at its slot.
pub open spec fn lone_track(t: TrackView) -> Map<Slot, TrackView> {
    Map::<Slot, TrackView>::empty().insert(t.slot(), t)
}

impl Disc {
    /// What each track of the disc holds: itself, at its slot.
    pub open spec fn child_maps(&self) -> Seq<Map<Slot, TrackView>> {
        Seq::new(self.tracks@.len(), |i: int| lone_track(self.tracks@[i]@))
    }

    /// The tracks of the disc, each at its slot.
    pub open spec fn track_map(&self) -> Map<Slot, TrackView> {
        union_of(self.child_maps())
    }

    /// The tracks stand by strictly ascending track number.
    pub open spec fn ordered(&self) -> bool {
        forall|i: int, j: int|
            0 <= i < j < self.tracks@.len() ==> (#[trigger] self.tracks@[i])@.track_or_first() < (
            #[trigger] self.tracks@[j])@.track_or_first()
    }

    /// The disc is a well-formed disc of the album `album` of `artist`: it
    /// holds a track, its tracks stand by strictly ascending number, and all
    /// of them resolve to this artist, album and disc.
    pub open spec fn wf_in(&self, artist: Seq<char>, album: Seq<char>) -> bool {
        &&& self.tracks@.len() > 0
        &&& self.ordered()
        &&& forall|i: int|
            0 <= i < self.tracks@.len() ==> {
                &&& (#[trigger] self.tracks@[i])@.album_artist_or_artist() == artist
                &&& self.tracks@[i]@.album_or_title() == album
                &&& self.tracks@[i]@.disc_or_first() == self.number
            }
    }

    /// The slots of a well-formed disc all lie on that disc, and no two
    /// tracks share one.
    pub proof fn lemma_slots(&self, artist: Seq<char>, album: Seq<char>)
        requires
            self.wf_in(artist, album),
        ensures
            disjoint(self.child_maps()),
            forall|s: Slot| #[trigger]
                self.track_map().contains_key(s) ==> s.artist == artist && s.album == album
                    && s.disc == self.number,
            forall|i: int|
                0 <= i < self.tracks@.len() ==> self.track_map().contains_key(
                    (#[trigger] self.tracks@[i])@.slot(),
                ) && self.track_map()[self.tracks@[i]@.slot()] == self.tracks@[i]@,
    {
        let ms = self.child_maps();
        assert forall|i: int, j: int, k: Slot|
            0 <= i < ms.len() && 0 <= j < ms.len() && i != j && #[trigger] ms[i].contains_key(
                k,
            ) implies !#[trigger] ms[j].contains_key(k) by {
            assert(k == self.tracks@[i]@.slot());
            if ms[j].contains_key(k) {
                assert(k == self.tracks@[j]@.slot());
                assert(self.tracks@[i]@.track_or_first() == self.tracks@[j]@.track_or_first());
            }
        }
        assert forall|s: Slot| #[trigger] self.track_map().contains_key(s) implies s.artist
            == artist && s.album == album && s.disc == self.number by {
            let h = holder(ms, s);
            assert(ms[h].contains_key(s));
            assert(s == self.tracks@[h]@.slot());
        }
        assert forall|i: int| 0 <= i < self.tracks@.len() implies self.track_map().contains_key(
            (#[trigger] self.tracks@[i])@.slot(),
        ) && self.track_map()[self.tracks@[i]@.slot()] == self.tracks@[i]@ by {
            assert(ms[i].contains_key(self.tracks@[i]@.slot()));
            lemma_union_member(ms, i, self.tracks@[i]@.slot());
        }
    }

    /// A disc that holds the one track `track`.
    pub fn with_track(track: AudioFileTrackMetadata) -> (disc: Disc)
        ensures
            disc.wf_in(track@.album_artist_or_artist(), track@.album_or_title()),
            disc.number == track@.disc_or_first(),
            disc.track_map() == lone_track(track@),
    {
        let number = track.resolve_disc_number();
        let mut tracks: Vec<AudioFileTrackMetadata> = Vec::new();
        tracks.push(track);
        let disc = Disc { number, tracks };
        proof {
            assert(disc.child_maps() =~= seq![lone_track(track@)]);
            lemma_union_single(lone_track(track@));
        }
        disc
    }

    /// Where the track with the number `number` stands among the tracks, or
    /// would stand, and whether it is there.
    fn locate(&self, number: u32) -> (at: (usize, bool))
        ensures
            at.0 <= self.tracks@.len(),
            forall|j: int| 0 <= j < at.0 ==> (#[trigger] self.tracks@[j])@.track_or_first() < number,
            at.1 ==> at.0 < self.tracks@.len() && self.tracks@[at.0 as int]@.track_or_first()
                == number,
            !at.1 ==> at.0 == self.tracks@.len() || number
                < self.tracks@[at.0 as int]@.track_or_first(),
    {
        let mut i: usize = 0;
        while i < self.tracks.len()
            invariant
                i <= self.tracks@.len(),
                forall|j: int| 0 <= j < i ==> (#[trigger] self.tracks@[j])@.track_or_first() < number,
            decreases self.tracks@.len() - i,
        {
            let here = self.tracks[i].resolve_track_number();
            if here == number {
                return (i, true);
            }
            if number < here {
                return (i, false);
            }
            i += 1;
        }
        (i, false)
    }

    /// The track with the number `number`, if the disc holds one.
    pub fn track(&self, number: u32) -> (found: Option<&AudioFileTrackMetadata>)
        ensures
            match found {
                Some(t) => exists|i: int|
                    0 <= i < self.tracks@.len() && *t == #[trigger] self.tracks@[i]
                        && t@.track_or_first() == number,
                None => forall|i: int|
                    0 <= i < self.tracks@.len() ==> (#[trigger] self.tracks@[i])@.track_or_first()
                        != number,
            },
    {
        let mut i: usize = 0;
        while i < self.tracks.len()
            invariant
                i <= self.tracks@.len(),
                forall|j: int|
                    0 <= j < i ==> (#[trigger] self.tracks@[j])@.track_or_first() != number,
            decreases self.tracks@.len() - i,
        {
            if self.tracks[i].resolve_track_number() == number {
                return Some(&self.tracks[i]);
            }
            i += 1;
        }
        None
    }

    /// Puts `track` on the disc at its track number, unless a track stands
    /// there already: then the disc stays as it is, and the conflict is
    /// reported with the title of that track.
    pub fn insert(&mut self, track: AudioFileTrackMetadata) -> (placed: Result<(), BuildError>)
        requires
            old(self).wf_in(track@.album_artist_or_artist(), track@.album_or_title()),
            old(self).number == track@.disc_or_first(),
        ensures
            final(self).wf_in(track@.album_artist_or_artist(), track@.album_or_title()),
            final(self).number == old(self).number,
            match placed {
                Ok(_) => {
                    &&& !old(self).track_map().contains_key(track@.slot())
                    &&& final(self).track_map() == old(self).track_map().insert(
                        track@.slot(),
                        track@,
                    )
                },
                Err(e) => {
                    &&& old(self).track_map().contains_key(track@.slot())
                    &&& e.is_conflict(track@.slot(), old(self).track_map()[track@.slot()].track_title)
                    &&& final(self).track_map() == old(self).track_map()
                },
            },
    {
        let ghost artist = track@.album_artist_or_artist();
        let ghost album = track@.album_or_title();
        let ghost before = *self;
        let number = track.resolve_track_number();
        let (pos, found) = self.locate(number);
        proof {
            before.lemma_slots(artist, album);
        }
        if found {
            let occupant = &self.tracks[pos];
            assert(occupant@.slot() == track@.slot());
            Err(
                BuildError::ConflictingTrack(
                    occupant.resolve_album_artist(),
                    occupant.resolve_album(),
                    occupant.resolve_disc_number(),
                    occupant.resolve_track_number(),
                    occupant.track_title.clone(),
                ),
            )
        } else {
            let ghost ms = before.child_maps();
            assert forall|j: int| 0 <= j < ms.len() implies !#[trigger] ms[j].contains_key(
                track@.slot(),
            ) by {
                if j < pos {
                    assert(before.tracks@[j]@.track_or_first() < number);
                } else if j > pos {
                    assert(before.tracks@[pos as int]@.track_or_first()
                        < before.tracks@[j]@.track_or_first());
                }
            }
            assert(!before.track_map().contains_key(track@.slot())) by {
                if held(ms, track@.slot()) {
                    let h = holder(ms, track@.slot());
                    assert(ms[h].contains_key(track@.slot()));
                }
            }
            self.tracks.insert(pos, track);
            proof {
                lemma_union_add(ms, pos as int, lone_track(track@), track@.slot(), track@);
                assert(self.child_maps() =~= ms.insert(pos as int, lone_track(track@)));
                assert forall|i: int, j: int| 0 <= i < j < self.tracks@.len() implies (
                #[trigger] self.tracks@[i])@.track_or_first() < (
                #[trigger] self.tracks@[j])@.track_or_first() by {
                    let a = if i < pos { i } else { i - 1 };
                    let b = if j < pos { j } else { j - 1 };
                    if i != pos {
                        assert(self.tracks@[i] == before.tracks@[a]);
                    }
                    if j != pos {
                        assert(self.tracks@[j] == before.tracks@[b]);
                    }
                    if j > pos && i != pos {
                        assert(before.tracks@[pos as int]@.track_or_first()
                            <= before.tracks@[b]@.track_or_first());
                    }
                }
                assert forall|i: int| 0 <= i < self.tracks@.len() implies {
                    &&& (#[trigger] self.tracks@[i])@.album_artist_or_artist() == artist
                    &&& self.tracks@[i]@.album_or_title() == album
                    &&& self.tracks@[i]@.disc_or_first() == self.number
                } by {
                    let a = if i < pos { i } else { i - 1 };
                    if i != pos {
                        assert(self.tracks@[i] == before.tracks@[a]);
                    }
                }
            }
            Ok(())
        }
    }
}

impl Album {
    /// What each disc of the album holds.
    pub open spec fn child_maps(&self) -> Seq<Map<Slot, TrackView>> {
        Seq::new(self.discs@.len(), |i: int| self.discs@[i].track_map())
    }

    /// The tracks of the album, each at its slot.
    pub open spec fn track_map(&self) -> Map<Slot, TrackView> {
        union_of(self.child_maps())
    }

    /// The discs stand by strictly ascending number.
    pub open spec fn ordered(&self) -> bool {
        forall|i: int, j: int|
            0 <= i < j < self.discs@.len() ==> (#[trigger] self.discs@[i]).number < (
            #[trigger] self.discs@[j]).number
    }

    /// The album is a well-formed album of `artist`: it holds a disc, its
    /// discs stand by strictly ascending number, and each is a well-formed
    /// disc of this album.
    pub open spec fn wf_in(&self, artist: Seq<char>) -> bool {
        &&& self.discs@.len() > 0
        &&& self.ordered()
        &&& forall|i: int|
            0 <= i < self.discs@.len() ==> (#[trigger] self.discs@[i]).wf_in(artist, self.name@)
    }

    /// The slots of a well-formed album all lie in that album, and no two
    /// discs share one.
    pub proof fn lemma_slots(&self, artist: Seq<char>)
        requires
            self.wf_in(artist),
        ensures
            disjoint(self.child_maps()),
            forall|s: Slot| #[trigger]
                self.track_map().contains_key(s) ==> s.artist == artist && s.album == self.name@,
            forall|i: int, s: Slot|
                0 <= i < self.discs@.len() && #[trigger] self.child_maps()[i].contains_key(s)
                    ==> s.disc == self.discs@[i].number,
    {
        let ms = self.child_maps();
        assert forall|i: int, s: Slot|
            0 <= i < self.discs@.len() && #[trigger] ms[i].contains_key(s) implies s.disc
            == self.discs@[i].number && s.artist == artist && s.album == self.name@ by {
            self.discs@[i].lemma_slots(artist, self.name@);
        }
        assert forall|i: int, j: int, k: Slot|
            0 <= i < ms.len() && 0 <= j < ms.len() && i != j && #[trigger] ms[i].contains_key(
                k,
            ) implies !#[trigger] ms[j].contains_key(k) by {
            if ms[j].contains_key(k) {
                assert(self.discs@[i].number == self.discs@[j].number);
            }
        }
        assert forall|s: Slot| #[trigger] self.track_map().contains_key(s) implies s.artist
            == artist && s.album == self.name@ by {
            let h = holder(ms, s);
            assert(ms[h].contains_key(s));
        }
    }

    /// An album that holds the one track `track`.
    pub fn with_track(track: AudioFileTrackMetadata) -> (album: Album)
        ensures
            album.wf_in(track@.album_artist_or_artist()),
            album.name@ == track@.album_or_title(),
            album.track_map() == lone_track(track@),
    {
        let name = track.resolve_album();
        let disc = Disc::with_track(track);
        let mut discs: Vec<Disc> = Vec::new();
        discs.push(disc);
        let album = Album { name, discs };
        proof {
            assert(album.child_maps() =~= seq![lone_track(track@)]);
            lemma_union_single(lone_track(track@));
        }
        album
    }

    /// Where the disc with the number `number` stands among the discs, or
    /// would stand, and whether it is there.
    fn locate(&self, number: u32) -> (at: (usize, bool))
        ensures
            at.0 <= self.discs@.len(),
            forall|j: int| 0 <= j < at.0 ==> (#[trigger] self.discs@[j]).number < number,
            at.1 ==> at.0 < self.discs@.len() && self.discs@[at.0 as int].number == number,
            !at.1 ==> at.0 == self.discs@.len() || number < self.discs@[at.0 as int].number,
    {
        let mut i: usize = 0;
        while i < self.discs.len()
            invariant
                i <= self.discs@.len(),
                forall|j: int| 0 <= j < i ==> (#[trigger] self.discs@[j]).number < number,
            decreases self.discs@.len() - i,
        {
            let here = self.discs[i].number;
            if here == number {
                return (i, true);
            }
            if number < here {
                return (i, false);
            }
            i += 1;
        }
        (i, false)
    }

    /// The disc with the number `number`, if the album holds one.
    pub fn disc(&self, number: u32) -> (found: Option<&Disc>)
        ensures
            match found {
                Some(d) => exists|i: int|
                    0 <= i < self.discs@.len() && *d == #[trigger] self.discs@[i] && d.number
                        == number,
                None => forall|i: int|
                    0 <= i < self.discs@.len() ==> (#[trigger] self.discs@[i]).number != number,
            },
    {
        let mut i: usize = 0;
        while i < self.discs.len()
            invariant
                i <= self.discs@.len(),
                forall|j: int| 0 <= j < i ==> (#[trigger] self.discs@[j]).number != number,
            decreases self.discs@.len() - i,
        {
            if self.discs[i].number == number {
                return Some(&self.discs[i]);
            }
            i += 1;
        }
        None
    }

    /// Puts `track` into the album, on the disc of its disc number, which is
    /// made if the album has none of that number. Where a track stands at
    /// that slot already the album stays as it is, and the conflict is
    /// reported with the title of that track.
    pub fn insert(&mut self, track: AudioFileTrackMetadata) -> (placed: Result<(), BuildError>)
        requires
            old(self).wf_in(track@.album_artist_or_artist()),
            old(self).name@ == track@.album_or_title(),
        ensures
            final(self).wf_in(track@.album_artist_or_artist()),
            final(self).name@ == old(self).name@,
            match placed {
                Ok(_) => {
                    &&& !old(self).track_map().contains_key(track@.slot())
                    &&& final(self).track_map() == old(self).track_map().insert(
                        track@.slot(),
                        track@,
                    )
                },
                Err(e) => {
                    &&& old(self).track_map().contains_key(track@.slot())
                    &&& e.is_conflict(track@.slot(), old(self).track_map()[track@.slot()].track_title)
                    &&& final(self).track_map() == old(self).track_map()
                },
            },
    {
        let ghost artist = track@.album_artist_or_artist();
        let ghost slot = track@.slot();
        let ghost view = track@;
        let ghost before = *self;
        let ghost ms = before.child_maps();
        let number = track.resolve_disc_number();
        let (pos, found) = self.locate(number);
        proof {
            before.lemma_slots(artist);
        }
        if found {
            let placed = self.discs[pos].insert(track);
            proof {
                assert(self.discs@ == before.discs@.update(pos as int, self.discs@[pos as int]));
                assert forall|i: int| 0 <= i < self.discs@.len() implies (
                #[trigger] self.discs@[i]).wf_in(artist, self.name@) by {
                    if i != pos {
                        assert(self.discs@[i] == before.discs@[i]);
                    }
                }
                assert forall|i: int, j: int| 0 <= i < j < self.discs@.len() implies (
                #[trigger] self.discs@[i]).number < (#[trigger] self.discs@[j]).number by {
                    assert(self.discs@[i].number == before.discs@[i].number);
                    assert(self.discs@[j].number == before.discs@[j].number);
                }
                match placed {
                    Ok(_) => {
                        assert forall|j: int| 0 <= j < ms.len() implies !#[trigger] ms[j].contains_key(
                            slot,
                        ) by {
                            if j != pos {
                                assert(before.discs@[j].number != number);
                            }
                        }
                        lemma_union_grow(ms, pos as int, slot, view);
                        assert(self.child_maps() =~= ms.update(
                            pos as int,
                            ms[pos as int].insert(slot, view),
                        ));
                    },
                    Err(_) => {
                        assert(ms[pos as int].contains_key(slot));
                        lemma_union_member(ms, pos as int, slot);
                        assert(self.child_maps() =~= ms);
                    },
                }
            }
            placed
        } else {
            assert forall|j: int| 0 <= j < ms.len() implies !#[trigger] ms[j].contains_key(
                slot,
            ) by {
                if j < pos {
                    assert(before.discs@[j].number < number);
                } else if j > pos {
                    assert(before.discs@[pos as int].number < before.discs@[j].number);
                }
            }
            assert(!before.track_map().contains_key(slot)) by {
                if held(ms, slot) {
                    let h = holder(ms, slot);
                    assert(ms[h].contains_key(slot));
                }
            }
            let disc = Disc::with_track(track);
            self.discs.insert(pos, disc);
            proof {
                lemma_union_add(ms, pos as int, lone_track(view), slot, view);
                assert(self.child_maps() =~= ms.insert(pos as int, lone_track(view)));
                assert forall|i: int, j: int| 0 <= i < j < self.discs@.len() implies (
                #[trigger] self.discs@[i]).number < (#[trigger] self.discs@[j]).number by {
                    let a = if i < pos { i } else { i - 1 };
                    let b = if j < pos { j } else { j - 1 };
                    if i != pos {
                        assert(self.discs@[i] == before.discs@[a]);
                    }
                    if j != pos {
                        assert(self.discs@[j] == before.discs@[b]);
                    }
                    if j > pos && i != pos {
                        assert(before.discs@[pos as int].number <= before.discs@[b].number);
                    }
                }
                assert forall|i: int| 0 <= i < self.discs@.len() implies (
                #[trigger] self.discs@[i]).wf_in(artist, self.name@) by {
                    let a = if i < pos { i } else { i - 1 };
                    if i != pos {
                        assert(self.discs@[i] == before.discs@[a]);
                    }
                }
            }
            Ok(())
        }
    }
}

impl Artist {
    /// What each album of the artist holds.
    pub open spec fn child_maps(&self) -> Seq<Map<Slot, TrackView>> {
        Seq::new(self.albums@.len(), |i: int| self.albums@[i].track_map())
    }

    /// The tracks of the artist, each at its slot.
    pub open spec fn track_map(&self) -> Map<Slot, TrackView> {
        union_of(self.child_maps())
    }

    /// The names of the albums, in the order in which they stand.
    pub open spec fn album_names(&self) -> Seq<Seq<char>> {
        Seq::new(self.albums@.len(), |i: int| self.albums@[i].name@)
    }

    /// The albums stand by strictly ascending name.
    pub open spec fn ordered(&self) -> bool {
        names_ascend(self.album_names())
    }

    /// The artist is well-formed: it holds an album, its albums stand by
    /// strictly ascending name, and each is a well-formed album of this
    /// artist.
    pub open spec fn wf(&self) -> bool {
        &&& self.albums@.len() > 0
        &&& self.ordered()
        &&& forall|i: int|
            0 <= i < self.albums@.len() ==> (#[trigger] self.albums@[i]).wf_in(self.name@)
    }

    /// The slots of a well-formed artist all lie with that artist, and no two
    /// albums share one.
    pub proof fn lemma_slots(&self)
        requires
            self.wf(),
        ensures
            disjoint(self.child_maps()),
            forall|s: Slot| #[trigger] self.track_map().contains_key(s) ==> s.artist == self.name@,
            forall|i: int, s: Slot|
                0 <= i < self.albums@.len() && #[trigger] self.child_maps()[i].contains_key(s)
                    ==> s.album == self.albums@[i].name@,
    {
        let ms = self.child_maps();
        let names = self.album_names();
        lemma_names_distinct(names);
        assert forall|i: int, s: Slot|
            0 <= i < self.albums@.len() && #[trigger] ms[i].contains_key(s) implies s.album
            == self.albums@[i].name@ && s.artist == self.name@ by {
            self.albums@[i].lemma_slots(self.name@);
        }
        assert forall|i: int, j: int, k: Slot|
            0 <= i < ms.len() && 0 <= j < ms.len() && i != j && #[trigger] ms[i].contains_key(
                k,
            ) implies !#[trigger] ms[j].contains_key(k) by {
            if ms[j].contains_key(k) {
                assert(names[i] == names[j]);
            }
        }
        assert forall|s: Slot| #[trigger] self.track_map().contains_key(s) implies s.artist
            == self.name@ by {
            let h = holder(ms, s);
            assert(ms[h].contains_key(s));
        }
    }

    /// An artist that holds the one track `track`.
    pub fn with_track(track: AudioFileTrackMetadata) -> (artist: Artist)
        ensures
            artist.wf(),
            artist.name@ == track@.album_artist_or_artist(),
            artist.track_map() == lone_track(track@),
    {
        let name = track.resolve_album_artist();
        let album = Album::with_track(track);
        let mut albums: Vec<Album> = Vec::new();
        albums.push(album);
        let artist = Artist { name, albums };
        proof {
            assert(artist.child_maps() =~= seq![lone_track(track@)]);
            lemma_union_single(lone_track(track@));
        }
        artist
    }

    /// Where the album named `name` stands among the albums, or would stand,
    /// and whether it is there.
    fn locate(&self, name: &str) -> (at: (usize, bool))
        ensures
            at.0 <= self.albums@.len(),
            forall|j: int| 0 <= j < at.0 ==> name_before(#[trigger] self.album_names()[j], name@),
            at.1 ==> at.0 < self.albums@.len() && self.album_names()[at.0 as int] == name@,
            !at.1 ==> at.0 == self.albums@.len() || name_before(
                name@,
                self.album_names()[at.0 as int],
            ),
    {
        let mut i: usize = 0;
        while i < self.albums.len()
            invariant
                i <= self.albums@.len(),
                forall|j: int| 0 <= j < i ==> name_before(#[trigger] self.album_names()[j], name@),
            decreases self.albums@.len() - i,
        {
            match place_name(self.albums[i].name.as_str(), name) {
                Placement::Before => {},
                Placement::Same => {
                    return (i, true);
                },
                Placement::After => {
                    return (i, false);
                },
            }
            i += 1;
        }
        (i, false)
    }

    /// The album named `name`, if the artist holds one.
    pub fn album(&self, name: &str) -> (found: Option<&Album>)
        ensures
            match found {
                Some(a) => exists|i: int|
                    0 <= i < self.albums@.len() && *a == #[trigger] self.albums@[i] && a.name@
                        == name@,
                None => forall|i: int|
                    0 <= i < self.albums@.len() ==> (#[trigger] self.albums@[i]).name@ != name@,
            },
    {
        let mut i: usize = 0;
        while i < self.albums.len()
            invariant
                i <= self.albums@.len(),
                forall|j: int| 0 <= j < i ==> (#[trigger] self.albums@[j]).name@ != name@,
            decreases self.albums@.len() - i,
        {
            if place_name(self.albums[i].name.as_str(), name) == Placement::Same {
                return Some(&self.albums[i]);
            }
            i += 1;
        }
        None
    }

    /// Puts `track` under the artist, into the album of its resolved album
    /// name, which is made if the artist has none of that name. Where a track
    /// stands at that slot already the artist stays as it is, and the
    /// conflict is reported with the title of that track.
    pub fn insert(&mut self, track: AudioFileTrackMetadata) -> (placed: Result<(), BuildError>)
        requires
            old(self).wf(),
            old(self).name@ == track@.album_artist_or_artist(),
        ensures
            final(self).wf(),
            final(self).name@ == old(self).name@,
            match placed {
                Ok(_) => {
                    &&& !old(self).track_map().contains_key(track@.slot())
                    &&& final(self).track_map() == old(self).track_map().insert(
                        track@.slot(),
                        track@,
                    )
                },
                Err(e) => {
                    &&& old(self).track_map().contains_key(track@.slot())
                    &&& e.is_conflict(track@.slot(), old(self).track_map()[track@.slot()].track_title)
                    &&& final(self).track_map() == old(self).track_map()
                },
            },
    {
        let ghost slot = track@.slot();
        let ghost view = track@;
        let ghost before = *self;
        let ghost ms = before.child_maps();
        let ghost names = before.album_names();
        let name = track.resolve_album();
        let (pos, found) = self.locate(name.as_str());
        proof {
            before.lemma_slots();
        }
        if found {
            let placed = self.albums[pos].insert(track);
            proof {
                lemma_names_distinct(names);
                assert(self.albums@ == before.albums@.update(pos as int, self.albums@[pos as int]));
                assert forall|i: int| 0 <= i < self.albums@.len() implies (
                #[trigger] self.albums@[i]).wf_in(self.name@) by {
                    if i != pos {
                        assert(self.albums@[i] == before.albums@[i]);
                    }
                }
                assert(self.album_names() =~= names) by {
                    assert forall|i: int| 0 <= i < names.len() implies self.album_names()[i]
                        == names[i] by {
                        if i != pos {
                            assert(self.albums@[i] == before.albums@[i]);
                        }
                    }
                }
                match placed {
                    Ok(_) => {
                        assert forall|j: int| 0 <= j < ms.len() implies !#[trigger] ms[j].contains_key(
                            slot,
                        ) by {
                            if j != pos {
                                assert(names[j] != names[pos as int]);
                            }
                        }
                        lemma_union_grow(ms, pos as int, slot, view);
                        assert(self.child_maps() =~= ms.update(
                            pos as int,
                            ms[pos as int].insert(slot, view),
                        ));
                    },
                    Err(_) => {
                        assert(ms[pos as int].contains_key(slot));
                        lemma_union_member(ms, pos as int, slot);
                        assert(self.child_maps() =~= ms);
                    },
                }
            }
            placed
        } else {
            proof {
                lemma_names_gap(names, pos as int, name@);
            }
            assert forall|j: int| 0 <= j < ms.len() implies !#[trigger] ms[j].contains_key(
                slot,
            ) by {
                assert(names[j] != name@);
            }
            assert(!before.track_map().contains_key(slot)) by {
                if held(ms, slot) {
                    let h = holder(ms, slot);
                    assert(ms[h].contains_key(slot));
                }
            }
            let album = Album::with_track(track);
            self.albums.insert(pos, album);
            proof {
                lemma_union_add(ms, pos as int, lone_track(view), slot, view);
                assert(self.child_maps() =~= ms.insert(pos as int, lone_track(view)));
                assert(self.album_names() =~= names.insert(pos as int, name@));
                assert forall|i: int| 0 <= i < self.albums@.len() implies (
                #[trigger] self.albums@[i]).wf_in(self.name@) by {
                    let a = if i < pos { i } else { i - 1 };
                    if i != pos {
                        assert(self.albums@[i] == before.albums@[a]);
                    }
                }
            }
            Ok(())
        }
    }
}

impl View for Library {
    type V = Map<Slot, TrackView>;

    /// The tracks of the library, each at its slot.
    open spec fn view(&self) -> Map<Slot, TrackView> {
        union_of(self.child_maps())
    }
}

impl Library {
    /// What each artist of the library holds.
    pub open spec fn child_maps(&self) -> Seq<Map<Slot, TrackView>> {
        Seq::new(self.artists@.len(), |i: int| self.artists@[i].track_map())
    }

    /// The names of the artists, in the order in which they stand.
    pub open spec fn artist_names(&self) -> Seq<Seq<char>> {
        Seq::new(self.artists@.len(), |i: int| self.artists@[i].name@)
    }

    /// The artists stand by strictly ascending name.
    pub open spec fn ordered(&self) -> bool {
        names_ascend(self.artist_names())
    }

    /// The library is well-formed: its artists stand by strictly ascending
    /// name, and each is well-formed. So every level is ordered by its key,
    /// no node is empty, and every track stands under the artist, album and
    /// disc that it resolves to.
    pub open spec fn wf(&self) -> bool {
        &&& self.ordered()
        &&& forall|i: int| 0 <= i < self.artists@.len() ==> (#[trigger] self.artists@[i]).wf()
    }

    /// No two artists of a well-formed library share a slot, and the slots
    /// of each artist carry its name.
    pub proof fn lemma_slots(&self)
        requires
            self.wf(),
        ensures
            disjoint(self.child_maps()),
            forall|i: int, s: Slot|
                0 <= i < self.artists@.len() && #[trigger] self.child_maps()[i].contains_key(s)
                    ==> s.artist == self.artists@[i].name@,
    {
        let ms = self.child_maps();
        let names = self.artist_names();
        lemma_names_distinct(names);
        assert forall|i: int, s: Slot|
            0 <= i < self.artists@.len() && #[trigger] ms[i].contains_key(s) implies s.artist
            == self.artists@[i].name@ by {
            self.artists@[i].lemma_slots();
        }
        assert forall|i: int, j: int, k: Slot|
            0 <= i < ms.len() && 0 <= j < ms.len() && i != j && #[trigger] ms[i].contains_key(
                k,
            ) implies !#[trigger] ms[j].contains_key(k) by {
            if ms[j].contains_key(k) {
                assert(names[i] == names[j]);
            }
        }
    }

    /// The library without any track.
    pub fn new() -> (library: Library)
        ensures
            library.wf(),
            library@ == Map::<Slot, TrackView>::empty(),
            library.artists@.len() == 0,
    {
        let library = Library { artists: Vec::new() };
        proof {
            assert(library@ =~= Map::<Slot, TrackView>::empty());
        }
        library
    }

    /// Where the artist named `name` stands among the artists, or would
    /// stand, and whether it is there.
    fn locate(&self, name: &str) -> (at: (usize, bool))
        ensures
            at.0 <= self.artists@.len(),
            forall|j: int| 0 <= j < at.0 ==> name_before(#[trigger] self.artist_names()[j], name@),
            at.1 ==> at.0 < self.artists@.len() && self.artist_names()[at.0 as int] == name@,
            !at.1 ==> at.0 == self.artists@.len() || name_before(
                name@,
                self.artist_names()[at.0 as int],
            ),
    {
        let mut i: usize = 0;
        while i < self.artists.len()
            invariant
                i <= self.artists@.len(),
                forall|j: int| 0 <= j < i ==> name_before(#[trigger] self.artist_names()[j], name@),
            decreases self.artists@.len() - i,
        {
            match place_name(self.artists[i].name.as_str(), name) {
                Placement::Before => {},
                Placement::Same => {
                    return (i, true);
                },
                Placement::After => {
                    return (i, false);
                },
            }
            i += 1;
        }
        (i, false)
    }

    /// The artist named `name`, if the library holds one.
    pub fn artist(&self, name: &str) -> (found: Option<&Artist>)
        ensures
            match found {
                Some(a) => exists|i: int|
                    0 <= i < self.artists@.len() && *a == #[trigger] self.artists@[i] && a.name@
                        == name@,
                None => forall|i: int|
                    0 <= i < self.artists@.len() ==> (#[trigger] self.artists@[i]).name@ != name@,
            },
    {
        let mut i: usize = 0;
        while i < self.artists.len()
            invariant
                i <= self.artists@.len(),
                forall|j: int| 0 <= j < i ==> (#[trigger] self.artists@[j]).name@ != name@,
            decreases self.artists@.len() - i,
        {
            if place_name(self.artists[i].name.as_str(), name) == Placement::Same {
                return Some(&self.artists[i]);
            }
            i += 1;
        }
        None
    }

    /// Puts `track` into the library at the slot that it resolves to: under
    /// the artist, album and disc of its resolved names and numbers, each of
    /// which is made if it is not there yet. Where a track stands at that
    /// slot already the library stays as it is, and the conflict is reported
    /// with the title of that track.
    pub fn insert(&mut self, track: AudioFileTrackMetadata) -> (placed: Result<(), BuildError>)
        requires
            old(self).wf(),
        ensures
            final(self).wf(),
            match placed {
                Ok(_) => {
                    &&& !old(self)@.contains_key(track@.slot())
                    &&& final(self)@ == old(self)@.insert(track@.slot(), track@)
                },
                Err(e) => {
                    &&& old(self)@.contains_key(track@.slot())
                    &&& e.is_conflict(track@.slot(), old(self)@[track@.slot()].track_title)
                    &&& final(self)@ == old(self)@
                },
            },
    {
        let ghost slot = track@.slot();
        let ghost view = track@;
        let ghost before = *self;
        let ghost ms = before.child_maps();
        let ghost names = before.artist_names();
        let name = track.resolve_album_artist();
        let (pos, found) = self.locate(name.as_str());
        proof {
            before.lemma_slots();
        }
        if found {
            let placed = self.artists[pos].insert(track);
            proof {
                lemma_names_distinct(names);
                assert(self.artists@ == before.artists@.update(
                    pos as int,
                    self.artists@[pos as int],
                ));
                assert forall|i: int| 0 <= i < self.artists@.len() implies (
                #[trigger] self.artists@[i]).wf() by {
                    if i != pos {
                        assert(self.artists@[i] == before.artists@[i]);
                    }
                }
                assert(self.artist_names() =~= names) by {
                    assert forall|i: int| 0 <= i < names.len() implies self.artist_names()[i]
                        == names[i] by {
                        if i != pos {
                            assert(self.artists@[i] == before.artists@[i]);
                        }
                    }
                }
                match placed {
                    Ok(_) => {
                        assert forall|j: int| 0 <= j < ms.len() implies !#[trigger] ms[j].contains_key(
                            slot,
                        ) by {
                            if j != pos {
                                assert(names[j] != names[pos as int]);
                            }
                        }
                        lemma_union_grow(ms, pos as int, slot, view);
                        assert(self.child_maps() =~= ms.update(
                            pos as int,
                            ms[pos as int].insert(slot, view),
                        ));
                    },
                    Err(_) => {
                        assert(ms[pos as int].contains_key(slot));
                        lemma_union_member(ms, pos as int, slot);
                        assert(self.child_maps() =~= ms);
                    },
                }
            }
            placed
        } else {
            proof {
                lemma_names_gap(names, pos as int, name@);
            }
            assert forall|j: int| 0 <= j < ms.len() implies !#[trigger] ms[j].contains_key(
                slot,
            ) by {
                assert(names[j] != name@);
            }
            assert(!before@.contains_key(slot)) by {
                if held(ms, slot) {
                    let h = holder(ms, slot);
                    assert(ms[h].contains_key(slot));
                }
            }
            let artist = Artist::with_track(track);
            self.artists.insert(pos, artist);
            proof {
                lemma_union_add(ms, pos as int, lone_track(view), slot, view);
                assert(self.child_maps() =~= ms.insert(pos as int, lone_track(view)));
                assert(self.artist_names() =~= names.insert(pos as int, name@));
                assert forall|i: int| 0 <= i < self.artists@.len() implies (
                #[trigger] self.artists@[i]).wf() by {
                    let a = if i < pos { i } else { i - 1 };
                    if i != pos {
                        assert(self.artists@[i] == before.artists@[a]);
                    }
                }
            }
            Ok(())
        }
    }
}

} // verus!
