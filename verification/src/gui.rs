//! The decisions of the interface: what a message does to the page shown
//! and to what is known of the playback, and what it asks of the playback
//! side.

use vstd::prelude::*;
use crate::library::Library;
use crate::model::AudioFileTrackMetadata;
use crate::playback::{SinkCallbackMessage, SinkMessage};

verus! {

/// Everything that can happen to the interface.
#[derive(Debug)]
pub enum Message {
    Nav(Navigate),
    Control(Control),
    SinkCallback(SinkCallbackMessage),
    ErrorResponse(Result<(), String>),
}

/// A request to show another page.
#[derive(Clone, Debug)]
pub enum Navigate {
    Home,
    ArtistList,
    ArtistAlbumList(String),
    AlbumTrackList(String, String),
}

/// A request of the user to the playback.
#[derive(Clone, Debug)]
pub enum Control {
    Play,
    Pause,
    PlayTrack(AudioFileTrackMetadata),
}

/// The page shown: the start, the artists, the albums of the artist named,
/// or the tracks of the album named second of the artist named first.
#[derive(Clone, Debug)]
pub enum Page {
    Home,
    ArtistList,
    ArtistAlbumList(String),
    AlbumTrackList(String, String),
}

/// The track that was last sent to the playback, and whether it is playing.
#[derive(Clone, Debug)]
pub struct PlaybackInfo {
    pub currently_playing: Option<(AudioFileTrackMetadata, bool)>,
}

/// What the interface shows and knows.
#[derive(Clone, Debug)]
pub struct State {
    pub page: Page,
    pub datastore: Library,
    pub playback: PlaybackInfo,
}

/// The page that a navigation request asks for.
pub open spec fn page_for(nav_message: Navigate) -> Page {
    match nav_message {
        Navigate::Home => Page::Home,
        Navigate::ArtistList => Page::ArtistList,
        Navigate::ArtistAlbumList(artist) => Page::ArtistAlbumList(artist),
        Navigate::AlbumTrackList(artist, album) => Page::AlbumTrackList(artist, album),
    }
}

/// What is known of the playback once it has reported `callback`.
pub open spec fn playing_after(
    playing: Option<(AudioFileTrackMetadata, bool)>,
    callback: SinkCallbackMessage,
) -> Option<(AudioFileTrackMetadata, bool)> {
    match callback {
        SinkCallbackMessage::Playing => match playing {
            Some((track, _)) => Some((track, true)),
            None => None,
        },
        SinkCallbackMessage::Paused => match playing {
            Some((track, _)) => Some((track, false)),
            None => None,
        },
        SinkCallbackMessage::SongEnded => None,
    }
}

/// What a request of the user asks of the playback side.
pub open spec fn request_for(control: Control) -> SinkMessage {
    match control {
        Control::Play => SinkMessage::PlayButton,
        Control::Pause => SinkMessage::PauseButton,
        Control::PlayTrack(track) => SinkMessage::LoadSong(track.full_path),
    }
}

/// The state after a message.
pub open spec fn state_after(state: State, message: Message) -> State {
    match message {
        Message::Nav(nav_message) => State { page: page_for(nav_message), ..state },
        Message::Control(Control::PlayTrack(track)) => State {
            playback: PlaybackInfo { currently_playing: Some((track, true)) },
            ..state
        },
        Message::Control(_) => state,
        Message::SinkCallback(callback) => State {
            playback: PlaybackInfo {
                currently_playing: playing_after(state.playback.currently_playing, callback),
            },
            ..state
        },
        Message::ErrorResponse(_) => state,
    }
}

/// What a message asks of the playback side, if anything.
pub open spec fn request_after(message: Message) -> Option<SinkMessage> {
    match message {
        Message::Control(control) => Some(request_for(control)),
        _ => None,
    }
}

/// Shows the page that `nav_message` asks for.
pub fn handle_nav(state: &mut State, nav_message: Navigate)
    ensures
        *final(state) == (State { page: page_for(nav_message), ..*old(state) }),
{
    match nav_message {
        Navigate::Home => state.page = Page::Home,
        Navigate::ArtistList => state.page = Page::ArtistList,
        Navigate::ArtistAlbumList(artist_name) => {
            state.page = Page::ArtistAlbumList(artist_name)
        },
        Navigate::AlbumTrackList(artist_name, album_name) => {
            state.page = Page::AlbumTrackList(artist_name, album_name)
        },
    }
}

/// Takes note of what the playback side reports: the current track is
/// playing, is paused, or has ended and is current no more.
pub fn handle_sink_callback(state: &mut State, callback_message: SinkCallbackMessage)
    ensures
        *final(state) == (State {
            playback: PlaybackInfo {
                currently_playing: playing_after(
                    old(state).playback.currently_playing,
                    callback_message,
                ),
            },
            ..*old(state)
        }),
{
    match callback_message {
        SinkCallbackMessage::Playing => {
            match &mut state.playback.currently_playing {
                Some(current) => current.1 = true,
                None => (),
            }
        },
        SinkCallbackMessage::Paused => {
            match &mut state.playback.currently_playing {
                Some(current) => current.1 = false,
                None => (),
            }
        },
        SinkCallbackMessage::SongEnded => state.playback.currently_playing = None,
    }
}

/// Takes a request of the user: a track to play becomes the current track,
/// and the playback side is asked to load its file; play and pause are
/// passed on.
pub fn handle_control(state: &mut State, control_message: Control) -> (request: SinkMessage)
    ensures
        *final(state) == state_after(*old(state), Message::Control(control_message)),
        request == request_for(control_message),
{
    match control_message {
        Control::Play => SinkMessage::PlayButton,
        Control::Pause => SinkMessage::PauseButton,
        Control::PlayTrack(track) => {
            let path = track.full_path.clone();
            state.playback.currently_playing = Some((track, true));
            SinkMessage::LoadSong(path)
        },
    }
}

/// Takes one message, and returns what is to be sent to the playback side.
pub fn handle_message(state: &mut State, message: Message) -> (request: Option<SinkMessage>)
    ensures
        *final(state) == state_after(*old(state), message),
        request == request_after(message),
{
    match message {
        Message::Nav(nav_message) => {
            handle_nav(state, nav_message);
            None
        },
        Message::Control(control_message) => Some(handle_control(state, control_message)),
        Message::SinkCallback(callback_message) => {
            handle_sink_callback(state, callback_message);
            None
        },
        Message::ErrorResponse(_) => None,
    }
}

} // verus!
