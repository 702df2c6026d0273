use id3::TagLike;
use music_library::error::BuildError;
use music_library::library::Library;
use music_library::parse::{
    metadata_from_frames, parse_all_audio_files, parse_flac_file, parse_mp3_file,
    parse_single_audio_file, FrameTags,
};
use music_library::scan::{
    audio_format, find_music_files, format_of_extension, AudioFormat, DirTree, SourceFile,
};
use music_library::tags::{
    get_string_option, get_string_result, get_u32_optional_result, lowercase_keys,
    metadata_from_tags,
};

/// A FLAC stream without audio frames: the marker, the stream info block and
/// one Vorbis comment block with the given comments.
fn flac_bytes(comments: &[(&str, &str)]) -> Vec<u8> {
    let mut out = b"fLaC".to_vec();
    out.extend_from_slice(&[0x00, 0x00, 0x00, 34]);
    out.extend_from_slice(&[0x10, 0x00, 0x10, 0x00]);
    out.extend_from_slice(&[0, 0, 0, 0, 0, 0]);
    out.extend_from_slice(&[0x0A, 0xC4, 0x42, 0xF0, 0, 0, 0, 0]);
    out.extend_from_slice(&[0u8; 16]);
    let mut block = Vec::new();
    let vendor = b"handmade";
    block.extend_from_slice(&(vendor.len() as u32).to_le_bytes());
    block.extend_from_slice(vendor);
    block.extend_from_slice(&(comments.len() as u32).to_le_bytes());
    for (name, value) in comments.iter() {
        let comment = format!("{}={}", name, value);
        block.extend_from_slice(&(comment.len() as u32).to_le_bytes());
        block.extend_from_slice(comment.as_bytes());
    }
    out.push(0x84);
    out.extend_from_slice(&(block.len() as u32).to_be_bytes()[1..]);
    out.extend_from_slice(&block);
    out
}

fn mp3_bytes(tag: &id3::Tag) -> Vec<u8> {
    let mut out = Vec::new();
    tag.write_to(&mut out, id3::Version::Id3v24).unwrap();
    out.extend_from_slice(&[0xFF, 0xFB, 0x90, 0x00]);
    out
}

fn file(path: &str, contents: Vec<u8>) -> SourceFile {
    SourceFile { path: path.to_string(), contents }
}

fn pairs(items: &[(&str, &str)]) -> Vec<(String, String)> {
    items.iter().map(|(k, v)| (k.to_string(), v.to_string())).collect()
}

fn paths(found: &[&SourceFile]) -> Vec<String> {
    found.iter().map(|f| f.path.clone()).collect()
}

fn shape(library: &Library) -> Vec<String> {
    let mut all = Vec::new();
    for artist in library.artists.iter() {
        for album in artist.albums.iter() {
            for disc in album.discs.iter() {
                for t in disc.tracks.iter() {
                    all.push(format!("{}/{}/{}/{}/{}", artist.name, album.name, disc.number, t.resolve_track_number(), t.track_title));
                }
            }
        }
    }
    all
}

#[test]
fn extensions_name_formats() {
    assert_eq!(format_of_extension("flac"), Some(AudioFormat::Flac));
    assert_eq!(format_of_extension("mp3"), Some(AudioFormat::Mp3));
    assert_eq!(format_of_extension("FLAC"), None);
    assert_eq!(format_of_extension("ogg"), None);
    assert_eq!(format_of_extension(""), None);
    assert_eq!(format_of_extension("flac "), None);
    assert_eq!(format_of_extension("mp"), None);
}

#[test]
fn paths_name_formats_whatever_the_case() {
    assert_eq!(audio_format("a/b.flac"), Some(AudioFormat::Flac));
    assert_eq!(audio_format("a/b.FLAC"), Some(AudioFormat::Flac));
    assert_eq!(audio_format("a/b.FlAc"), Some(AudioFormat::Flac));
    assert_eq!(audio_format("a/b.Mp3"), Some(AudioFormat::Mp3));
    assert_eq!(audio_format("a/b.MP3"), Some(AudioFormat::Mp3));
    assert_eq!(audio_format("a/b.wav"), None);
    assert_eq!(audio_format("a/flac"), None);
    assert_eq!(audio_format("a/b.flac.txt"), None);
    assert_eq!(audio_format("a.mp3/b"), None);
}

#[test]
fn scan_finds_audio_files_at_any_depth() {
    let tree = DirTree::Directory(vec![
        DirTree::File(file("/m/one.flac", vec![1])),
        DirTree::File(file("/m/notes.txt", vec![])),
        DirTree::Directory(vec![
            DirTree::File(file("/m/a/two.MP3", vec![2])),
            DirTree::Directory(vec![]),
            DirTree::Directory(vec![DirTree::Directory(vec![DirTree::File(file("/m/a/b/c/three.Flac", vec![3]))])]),
            DirTree::File(file("/m/a/README", vec![])),
        ]),
        DirTree::File(file("/m/four.mp3", vec![4])),
        DirTree::File(file("/m/.flac", vec![])),
    ]);
    let found = find_music_files(&tree);
    assert_eq!(paths(&found), vec!["/m/one.flac", "/m/a/two.MP3", "/m/a/b/c/three.Flac", "/m/four.mp3"]);
    assert_eq!(found[1].contents, vec![2]);
}

#[test]
fn scan_of_a_single_file_or_nothing() {
    let lone = DirTree::File(file("x.flac", vec![]));
    assert_eq!(paths(&find_music_files(&lone)), vec!["x.flac"]);
    let other = DirTree::File(file("x.ogg", vec![]));
    assert!(find_music_files(&other).is_empty());
    let empty = DirTree::Directory(vec![]);
    assert!(find_music_files(&empty).is_empty());
}

#[test]
fn tag_keys_are_lower_cased() {
    let lowered = lowercase_keys(&pairs(&[("ARTIST", "Nina"), ("Title", "SINNERMAN"), ("date", "1965")]));
    assert_eq!(lowered, pairs(&[("artist", "Nina"), ("title", "SINNERMAN"), ("date", "1965")]));
}

#[test]
fn the_last_of_equal_keys_counts() {
    let tags = pairs(&[("artist", "first"), ("title", "t"), ("artist", "second")]);
    assert_eq!(get_string_option(&tags, "artist"), Some("second".to_string()));
    assert_eq!(get_string_option(&tags, "title"), Some("t".to_string()));
    assert_eq!(get_string_option(&tags, "album"), None);
    assert_eq!(get_string_option(&Vec::new(), "artist"), None);
}

#[test]
fn a_required_tag_is_asked_for() {
    let tags = pairs(&[("artist", "Nina")]);
    assert_eq!(get_string_result(&tags, "artist", "p.flac").unwrap(), "Nina");
    match get_string_result(&tags, "title", "p.flac") {
        Err(BuildError::MissingMetadataKey(path, key)) => {
            assert_eq!(path, "p.flac");
            assert_eq!(key, "title");
        }
        other => panic!("expected a missing key, got {:?}", other),
    }
}

#[test]
fn a_number_tag_must_be_a_number() {
    let tags = pairs(&[("tracknumber", "7"), ("discnumber", "1/2")]);
    assert_eq!(get_u32_optional_result(&tags, "tracknumber", "p.flac").unwrap(), Some(7));
    assert_eq!(get_u32_optional_result(&tags, "tracktotal", "p.flac").unwrap(), None);
    match get_u32_optional_result(&tags, "discnumber", "p.flac") {
        Err(BuildError::ExpectedU32MetadataValue(path, key)) => {
            assert_eq!(path, "p.flac");
            assert_eq!(key, "discnumber");
        }
        other => panic!("expected a number fault, got {:?}", other),
    }
}

#[test]
fn tags_give_a_full_record() {
    let tags = pairs(&[
        ("artist", "Nina"),
        ("albumartist", "Various"),
        ("album", "Pastel Blues"),
        ("discnumber", "1"),
        ("disctotal", "2"),
        ("tracknumber", "9"),
        ("tracktotal", "09"),
        ("title", "Sinnerman"),
        ("genre", "Jazz"),
        ("date", "1965-10"),
        ("comment", "ignored"),
    ]);
    let r = metadata_from_tags("/m/s.flac", &tags).unwrap();
    assert_eq!(r.artist, "Nina");
    assert_eq!(r.album_artist, Some("Various".to_string()));
    assert_eq!(r.album, Some("Pastel Blues".to_string()));
    assert_eq!(r.disc_no, Some(1));
    assert_eq!(r.disc_total, Some(2));
    assert_eq!(r.track, Some(9));
    assert_eq!(r.track_total, Some(9));
    assert_eq!(r.track_title, "Sinnerman");
    assert_eq!(r.genre, Some("Jazz".to_string()));
    assert_eq!(r.date, Some("1965-10".to_string()));
    assert_eq!(r.full_path, "/m/s.flac");
}

#[test]
fn absent_optional_tags_stay_empty() {
    let r = metadata_from_tags("/m/s.flac", &pairs(&[("title", "T"), ("artist", "A")])).unwrap();
    assert_eq!(r.album_artist, None);
    assert_eq!(r.album, None);
    assert_eq!(r.disc_no, None);
    assert_eq!(r.disc_total, None);
    assert_eq!(r.track, None);
    assert_eq!(r.track_total, None);
    assert_eq!(r.genre, None);
    assert_eq!(r.date, None);
}

#[test]
fn tag_keys_must_be_lower_case_already() {
    let r = metadata_from_tags("/m/s.flac", &pairs(&[("ARTIST", "A"), ("title", "T")]));
    assert!(matches!(r, Err(BuildError::MissingMetadataKey(_, "artist"))));
}

#[test]
fn faults_are_reported_in_field_order() {
    let no_artist = pairs(&[("title", "T"), ("tracknumber", "x")]);
    assert!(matches!(metadata_from_tags("p", &no_artist), Err(BuildError::MissingMetadataKey(ref p, "artist")) if p == "p"));
    let bad_disc = pairs(&[("artist", "A"), ("discnumber", "x"), ("tracknumber", "y")]);
    assert!(matches!(metadata_from_tags("p", &bad_disc), Err(BuildError::ExpectedU32MetadataValue(ref p, "discnumber")) if p == "p"));
    let bad_disc_total = pairs(&[("artist", "A"), ("disctotal", ""), ("tracknumber", "y")]);
    assert!(matches!(metadata_from_tags("p", &bad_disc_total), Err(BuildError::ExpectedU32MetadataValue(_, "disctotal"))));
    let bad_track = pairs(&[("artist", "A"), ("tracknumber", "3/12"), ("tracktotal", "y")]);
    assert!(matches!(metadata_from_tags("p", &bad_track), Err(BuildError::ExpectedU32MetadataValue(_, "tracknumber"))));
    let bad_total = pairs(&[("artist", "A"), ("tracktotal", "-1")]);
    assert!(matches!(metadata_from_tags("p", &bad_total), Err(BuildError::ExpectedU32MetadataValue(_, "tracktotal"))));
    let no_title = pairs(&[("artist", "A"), ("tracknumber", "3")]);
    assert!(matches!(metadata_from_tags("p", &no_title), Err(BuildError::MissingMetadataKey(_, "title"))));
}

#[test]
fn flac_comments_are_read_whatever_their_case() {
    let f = file("/m/s.flac", flac_bytes(&[("ARTIST", "Nina"), ("Title", "Sinnerman"), ("TRACKNUMBER", "9"), ("album", "Pastel Blues")]));
    let r = parse_flac_file(&f).unwrap();
    assert_eq!(r.artist, "Nina");
    assert_eq!(r.track_title, "Sinnerman");
    assert_eq!(r.track, Some(9));
    assert_eq!(r.album, Some("Pastel Blues".to_string()));
    assert_eq!(r.full_path, "/m/s.flac");
}

#[test]
fn flac_without_title_or_artist_fails() {
    let no_title = file("/m/a.flac", flac_bytes(&[("ARTIST", "Nina")]));
    assert!(matches!(parse_flac_file(&no_title), Err(BuildError::MissingMetadataKey(ref p, "title")) if p == "/m/a.flac"));
    let no_artist = file("/m/b.flac", flac_bytes(&[("TITLE", "Sinnerman")]));
    assert!(matches!(parse_flac_file(&no_artist), Err(BuildError::MissingMetadataKey(ref p, "artist")) if p == "/m/b.flac"));
    let nothing = file("/m/c.flac", flac_bytes(&[]));
    assert!(matches!(parse_flac_file(&nothing), Err(BuildError::MissingMetadataKey(ref p, "artist")) if p == "/m/c.flac"));
}

#[test]
fn flac_with_a_number_that_is_none_fails() {
    for key in ["discnumber", "disctotal", "tracknumber", "tracktotal"] {
        let f = file("/m/a.flac", flac_bytes(&[("artist", "A"), ("title", "T"), (key, "three")]));
        match parse_flac_file(&f) {
            Err(BuildError::ExpectedU32MetadataValue(path, k)) => {
                assert_eq!(path, "/m/a.flac");
                assert_eq!(k, key);
            }
            other => panic!("expected a number fault, got {:?}", other),
        }
    }
}

#[test]
fn bytes_that_are_no_flac_stream_fail() {
    assert!(matches!(parse_flac_file(&file("/m/a.flac", vec![])), Err(BuildError::Claxon(_))));
    assert!(matches!(parse_flac_file(&file("/m/a.flac", b"OggS and more".to_vec())), Err(BuildError::Claxon(_))));
    let mut cut = flac_bytes(&[("artist", "A"), ("title", "T")]);
    cut.truncate(50);
    assert!(matches!(parse_flac_file(&file("/m/a.flac", cut)), Err(BuildError::Claxon(_))));
}

#[test]
fn id3_frames_are_read() {
    let mut tag = id3::Tag::new();
    tag.set_artist("Nina");
    tag.set_album_artist("Various");
    tag.set_album("Pastel Blues");
    tag.set_title("Sinnerman");
    tag.set_disc(1);
    tag.set_total_discs(2);
    tag.set_track(9);
    tag.set_total_tracks(10);
    tag.set_genre("Jazz");
    tag.set_year(1965);
    let r = parse_mp3_file(&file("/m/s.mp3", mp3_bytes(&tag))).unwrap();
    assert_eq!(r.artist, "Nina");
    assert_eq!(r.album_artist, Some("Various".to_string()));
    assert_eq!(r.album, Some("Pastel Blues".to_string()));
    assert_eq!(r.disc_no, Some(1));
    assert_eq!(r.disc_total, Some(2));
    assert_eq!(r.track, Some(9));
    assert_eq!(r.track_total, Some(10));
    assert_eq!(r.track_title, "Sinnerman");
    assert_eq!(r.genre, Some("Jazz".to_string()));
    assert_eq!(r.date, Some("1965".to_string()));
    assert_eq!(r.full_path, "/m/s.mp3");
}

#[test]
fn id3_without_title_or_artist_fails() {
    let mut no_title = id3::Tag::new();
    no_title.set_artist("Nina");
    assert!(matches!(parse_mp3_file(&file("/m/a.mp3", mp3_bytes(&no_title))), Err(BuildError::MissingMetadataKey(ref p, "title")) if p == "/m/a.mp3"));
    let mut no_artist = id3::Tag::new();
    no_artist.set_title("Sinnerman");
    assert!(matches!(parse_mp3_file(&file("/m/b.mp3", mp3_bytes(&no_artist))), Err(BuildError::MissingMetadataKey(ref p, "artist")) if p == "/m/b.mp3"));
}

#[test]
fn bytes_without_an_id3_tag_fail() {
    assert!(matches!(parse_mp3_file(&file("/m/a.mp3", vec![])), Err(BuildError::ID3(_))));
    assert!(matches!(parse_mp3_file(&file("/m/a.mp3", vec![0xFF, 0xFB, 0x90, 0x00, 0, 0, 0, 0, 0, 0, 0, 0])), Err(BuildError::ID3(_))));
}

#[test]
fn frames_give_a_record() {
    let frames = FrameTags {
        artist: Some("A".to_string()),
        album_artist: None,
        album: None,
        disc: None,
        total_discs: Some(2),
        track: Some(3),
        total_tracks: None,
        title: Some("T".to_string()),
        genre: None,
        year: Some(-44),
    };
    let r = metadata_from_frames("/m/a.mp3", frames.clone()).unwrap();
    assert_eq!(r.artist, "A");
    assert_eq!(r.track_title, "T");
    assert_eq!(r.disc_no, None);
    assert_eq!(r.disc_total, Some(2));
    assert_eq!(r.track, Some(3));
    assert_eq!(r.date, Some("-44".to_string()));
    assert_eq!(r.full_path, "/m/a.mp3");
    let mut none = frames.clone();
    none.artist = None;
    none.title = None;
    assert!(matches!(metadata_from_frames("/m/a.mp3", none), Err(BuildError::MissingMetadataKey(ref p, "artist")) if p == "/m/a.mp3"));
    let mut untitled = frames;
    untitled.title = None;
    assert!(matches!(metadata_from_frames("/m/a.mp3", untitled), Err(BuildError::MissingMetadataKey(_, "title"))));
}

#[test]
fn the_extension_selects_the_reader() {
    let mut tag = id3::Tag::new();
    tag.set_artist("M");
    tag.set_title("mp3 title");
    let as_mp3 = file("/m/a.MP3", mp3_bytes(&tag));
    assert_eq!(parse_single_audio_file(&as_mp3).unwrap().track_title, "mp3 title");
    let as_flac = file("/m/a.Flac", flac_bytes(&[("artist", "F"), ("title", "flac title")]));
    assert_eq!(parse_single_audio_file(&as_flac).unwrap().track_title, "flac title");
    let wrong = file("/m/a.flac", mp3_bytes(&tag));
    assert!(matches!(parse_single_audio_file(&wrong), Err(BuildError::Claxon(_))));
}

#[test]
fn all_files_are_read_in_order_or_the_first_error_is_returned() {
    let a = file("/m/a.flac", flac_bytes(&[("artist", "A"), ("title", "one")]));
    let b = file("/m/b.flac", flac_bytes(&[("artist", "A")]));
    let c = file("/m/c.flac", flac_bytes(&[("title", "three")]));
    let d = file("/m/d.flac", flac_bytes(&[("artist", "A"), ("title", "four")]));
    let good = parse_all_audio_files(&vec![&d, &a]).unwrap();
    assert_eq!(good.iter().map(|r| r.track_title.clone()).collect::<Vec<_>>(), vec!["four", "one"]);
    assert!(parse_all_audio_files(&Vec::new()).unwrap().is_empty());
    let bad = parse_all_audio_files(&vec![&a, &b, &c, &d]);
    assert!(matches!(bad, Err(BuildError::MissingMetadataKey(ref p, "title")) if p == "/m/b.flac"));
}

#[test]
fn a_tree_of_files_becomes_a_library() {
    let mut tag = id3::Tag::new();
    tag.set_artist("B");
    tag.set_album("Y");
    tag.set_track(2);
    tag.set_title("two");
    let tree = DirTree::Directory(vec![
        DirTree::Directory(vec![
            DirTree::File(file("/m/b/two.mp3", mp3_bytes(&tag))),
            DirTree::File(file("/m/b/cover.jpg", vec![1, 2, 3])),
        ]),
        DirTree::File(file("/m/one.FLAC", flac_bytes(&[("Artist", "A"), ("Title", "one")]))),
        DirTree::File(file("/m/three.flac", flac_bytes(&[("ARTIST", "B"), ("ALBUM", "Y"), ("TRACKNUMBER", "1"), ("TITLE", "three")]))),
    ]);
    let library = Library::from_library_directory(&tree).unwrap();
    assert_eq!(shape(&library), vec!["A/one/1/1/one", "B/Y/1/1/three", "B/Y/1/2/two"]);
    assert_eq!(library.artists[1].albums[0].discs[0].tracks[1].full_path, "/m/b/two.mp3");
}

#[test]
fn a_tree_without_audio_files_becomes_an_empty_library() {
    let tree = DirTree::Directory(vec![DirTree::File(file("/m/readme.txt", b"fLaC".to_vec()))]);
    assert!(Library::from_library_directory(&tree).unwrap().artists.is_empty());
}

#[test]
fn a_file_without_a_record_ends_the_build() {
    let tree = DirTree::Directory(vec![
        DirTree::File(file("/m/one.flac", flac_bytes(&[("artist", "A"), ("title", "one")]))),
        DirTree::File(file("/m/two.flac", b"not a stream".to_vec())),
        DirTree::File(file("/m/three.flac", flac_bytes(&[("artist", "A")]))),
    ]);
    assert!(matches!(Library::from_library_directory(&tree), Err(BuildError::Claxon(_))));
}

#[test]
fn a_single_and_two_tracks_at_one_slot() {
    let first = file("/m/1.flac", flac_bytes(&[("artist", "A"), ("title", "T1")]));
    let second = file("/m/2.flac", flac_bytes(&[("artist", "A"), ("album", "Alb"), ("track", "1"), ("tracknumber", "1"), ("title", "T2")]));
    let third = file("/m/3.flac", flac_bytes(&[("artist", "A"), ("album", "Alb"), ("track", "1"), ("tracknumber", "1"), ("title", "T3")]));

    let alone = Library::from_library_directory(&DirTree::Directory(vec![DirTree::File(first.clone())])).unwrap();
    assert_eq!(shape(&alone), vec!["A/T1/1/1/T1"]);

    let tree = DirTree::Directory(vec![DirTree::File(first), DirTree::File(second), DirTree::File(third)]);
    match Library::from_library_directory(&tree) {
        Err(BuildError::ConflictingTrack(artist, album, disc, number, title)) => {
            assert_eq!(artist, "A");
            assert_eq!(album, "Alb");
            assert_eq!(disc, 1);
            assert_eq!(number, 1);
            assert_eq!(title, "T2");
        }
        other => panic!("expected a conflict, got {:?}", other.map(|l| shape(&l))),
    }
}
