use music_library::model::AudioFileTrackMetadata;
use music_library::name_order::{place_name, Placement};
use music_library::numbers::{decimal_text, parse_u32};
use music_library::text::get_maybe_extension_string;

fn record(artist: &str, title: &str) -> AudioFileTrackMetadata {
    AudioFileTrackMetadata {
        artist: artist.to_string(),
        album_artist: None,
        album: None,
        disc_no: None,
        disc_total: None,
        track: None,
        track_total: None,
        track_title: title.to_string(),
        genre: None,
        date: None,
        full_path: format!("/music/{}.flac", title),
    }
}

#[test]
fn album_artist_falls_back_to_artist() {
    let r = record("Nina", "Sinnerman");
    assert_eq!(r.resolve_album_artist(), "Nina");
}

#[test]
fn album_artist_wins_over_artist() {
    let mut r = record("Nina", "Sinnerman");
    r.album_artist = Some("Various".to_string());
    assert_eq!(r.resolve_album_artist(), "Various");
    assert_eq!(r.artist, "Nina");
}

#[test]
fn album_falls_back_to_title() {
    let r = record("Nina", "Sinnerman");
    assert_eq!(r.resolve_album(), "Sinnerman");
}

#[test]
fn album_wins_over_title() {
    let mut r = record("Nina", "Sinnerman");
    r.album = Some("Pastel Blues".to_string());
    assert_eq!(r.resolve_album(), "Pastel Blues");
}

#[test]
fn disc_and_track_default_to_one() {
    let r = record("Nina", "Sinnerman");
    assert_eq!(r.resolve_disc_number(), 1);
    assert_eq!(r.resolve_track_number(), 1);
}

#[test]
fn disc_and_track_are_kept_when_tagged() {
    let mut r = record("Nina", "Sinnerman");
    r.disc_no = Some(2);
    r.track = Some(9);
    assert_eq!(r.resolve_disc_number(), 2);
    assert_eq!(r.resolve_track_number(), 9);
    r.disc_no = Some(0);
    r.track = Some(u32::MAX);
    assert_eq!(r.resolve_disc_number(), 0);
    assert_eq!(r.resolve_track_number(), u32::MAX);
}

#[test]
fn resolving_is_independent_of_other_fields() {
    let mut r = record("Nina", "Sinnerman");
    r.genre = Some("Jazz".to_string());
    r.date = Some("1965".to_string());
    r.disc_total = Some(3);
    r.track_total = Some(12);
    assert_eq!(r.resolve_album_artist(), "Nina");
    assert_eq!(r.resolve_album(), "Sinnerman");
    assert_eq!(r.resolve_disc_number(), 1);
    assert_eq!(r.resolve_track_number(), 1);
    assert_eq!(r.resolve_album_artist(), "Nina");
}

#[test]
fn names_are_placed_by_their_bytes() {
    assert_eq!(place_name("a", "b"), Placement::Before);
    assert_eq!(place_name("b", "a"), Placement::After);
    assert_eq!(place_name("abc", "abc"), Placement::Same);
    assert_eq!(place_name("", ""), Placement::Same);
    assert_eq!(place_name("", "a"), Placement::Before);
    assert_eq!(place_name("ab", "abc"), Placement::Before);
    assert_eq!(place_name("abc", "ab"), Placement::After);
    assert_eq!(place_name("Z", "a"), Placement::Before);
    assert_eq!(place_name("z", "é"), Placement::Before);
    assert_eq!(place_name("é", "日本"), Placement::Before);
}

#[test]
fn name_placement_agrees_with_string_order() {
    let names = ["", "A", "a", "ab", "b", "Björk", "Bjork", "é", "日本", "z"];
    for a in names.iter() {
        for b in names.iter() {
            let expected = if a < b {
                Placement::Before
            } else if a == b {
                Placement::Same
            } else {
                Placement::After
            };
            assert_eq!(place_name(a, b), expected);
        }
    }
}

#[test]
fn numbers_are_read_from_digits() {
    assert_eq!(parse_u32("0"), Some(0));
    assert_eq!(parse_u32("7"), Some(7));
    assert_eq!(parse_u32("007"), Some(7));
    assert_eq!(parse_u32("+12"), Some(12));
    assert_eq!(parse_u32("4294967295"), Some(4294967295));
    assert_eq!(parse_u32("0000000000004294967295"), Some(4294967295));
}

#[test]
fn other_text_is_no_number() {
    assert_eq!(parse_u32(""), None);
    assert_eq!(parse_u32("+"), None);
    assert_eq!(parse_u32("-1"), None);
    assert_eq!(parse_u32("++1"), None);
    assert_eq!(parse_u32("1+"), None);
    assert_eq!(parse_u32(" 1"), None);
    assert_eq!(parse_u32("1 "), None);
    assert_eq!(parse_u32("1/12"), None);
    assert_eq!(parse_u32("one"), None);
    assert_eq!(parse_u32("١"), None);
    assert_eq!(parse_u32("4294967296"), None);
    assert_eq!(parse_u32("99999999999999999999999"), None);
    assert_eq!(parse_u32("4294967296x"), None);
}

#[test]
fn number_reading_agrees_with_std() {
    let texts = ["", "+", "-", "0", "+0", "-0", "12", "012", "1a", "a1", "4294967295", "4294967296", "+4294967295"];
    for t in texts.iter() {
        assert_eq!(parse_u32(t), t.parse::<u32>().ok());
    }
}

#[test]
fn numbers_are_written_in_decimal() {
    assert_eq!(decimal_text(0), "0");
    assert_eq!(decimal_text(7), "7");
    assert_eq!(decimal_text(10), "10");
    assert_eq!(decimal_text(1965), "1965");
    assert_eq!(decimal_text(-5), "-5");
    assert_eq!(decimal_text(i32::MAX), "2147483647");
    assert_eq!(decimal_text(i32::MIN), "-2147483648");
}

#[test]
fn extension_is_lower_cased() {
    assert_eq!(get_maybe_extension_string("a/b/song.FLAC"), Some("flac".to_string()));
    assert_eq!(get_maybe_extension_string("song.Mp3"), Some("mp3".to_string()));
    assert_eq!(get_maybe_extension_string("song.tar.GZ"), Some("gz".to_string()));
}

#[test]
fn extension_may_be_absent() {
    assert_eq!(get_maybe_extension_string("a/b/song"), None);
    assert_eq!(get_maybe_extension_string(".hidden"), None);
    assert_eq!(get_maybe_extension_string(""), None);
    assert_eq!(get_maybe_extension_string("dir.d/song"), None);
}
