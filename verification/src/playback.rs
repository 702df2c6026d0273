//! The decisions of the playback side: what a request from the interface,
//! or the passing of time, does to what is loaded and playing.

use vstd::prelude::*;

verus! {

/// What the interface asks of the playback side.
#[derive(Clone, Debug)]
pub enum SinkMessage {
    PlayButton,
    PauseButton,
    LoadSong(String),
}

/// What the playback side tells the interface.
#[derive(Clone, Copy, Debug, PartialEq, Eq, Structural)]
pub enum SinkCallbackMessage {
    Playing,
    Paused,
    SongEnded,
}

/// What is to be done with the audio output.
#[derive(Clone, Debug)]
pub enum SinkCommand {
    /// Go on playing what is queued.
    Play,
    /// Hold what is queued.
    Pause,
    /// Drop what is queued, and play the file at this path instead.
    Load(String),
}

/// What follows from one request: a command for the audio output and a
/// message for the interface, each if there is one.
#[derive(Clone, Debug)]
pub struct SinkStep {
    pub command: Option<SinkCommand>,
    pub callback: Option<SinkCallbackMessage>,
}

/// The playback side: whether a song is loaded and, if one is, whether it is
/// playing.
#[derive(Clone, Copy, Debug, PartialEq, Eq, Structural)]
pub struct SinkPlayback {
    pub loaded_song_playing: Option<bool>,
}

/// What is loaded and playing after the request `msg`.
pub open spec fn loaded_after(loaded: Option<bool>, msg: SinkMessage) -> Option<bool> {
    match msg {
        SinkMessage::PlayButton => if loaded is Some {
            Some(true)
        } else {
            None
        },
        SinkMessage::PauseButton => if loaded is Some {
            Some(false)
        } else {
            None
        },
        SinkMessage::LoadSong(_) => Some(true),
    }
}

/// What the request `msg` asks of the audio output.
pub open spec fn command_for(loaded: Option<bool>, msg: SinkMessage) -> Option<SinkCommand> {
    match msg {
        SinkMessage::PlayButton => if loaded is Some {
            Some(SinkCommand::Play)
        } else {
            None
        },
        SinkMessage::PauseButton => if loaded is Some {
            Some(SinkCommand::Pause)
        } else {
            None
        },
        SinkMessage::LoadSong(path) => Some(SinkCommand::Load(path)),
    }
}

/// What the interface is told after the request `msg`.
pub open spec fn callback_for(loaded: Option<bool>, msg: SinkMessage) -> Option<
    SinkCallbackMessage,
> {
    match msg {
        SinkMessage::PlayButton => if loaded is Some {
            Some(SinkCallbackMessage::Playing)
        } else {
            None
        },
        SinkMessage::PauseButton => if loaded is Some {
            Some(SinkCallbackMessage::Paused)
        } else {
            None
        },
        SinkMessage::LoadSong(_) => Some(SinkCallbackMessage::Playing),
    }
}

impl SinkPlayback {
    /// The playback side with nothing loaded.
    pub fn new() -> (sink: SinkPlayback)
        ensures
            sink.loaded_song_playing is None,
    {
        SinkPlayback { loaded_song_playing: None }
    }

    /// Takes one request. The play and pause buttons act only on a loaded
    /// song; loading a song replaces what was loaded and starts it.
    pub fn handle_msg(&mut self, msg: SinkMessage) -> (step: SinkStep)
        ensures
            final(self).loaded_song_playing == loaded_after(old(self).loaded_song_playing, msg),
            step.command == command_for(old(self).loaded_song_playing, msg),
            step.callback == callback_for(old(self).loaded_song_playing, msg),
    {
        match msg {
            SinkMessage::PlayButton => {
                if self.loaded_song_playing.is_some() {
                    self.loaded_song_playing = Some(true);
                    SinkStep {
                        command: Some(SinkCommand::Play),
                        callback: Some(SinkCallbackMessage::Playing),
                    }
                } else {
                    SinkStep { command: None, callback: None }
                }
            },
            SinkMessage::PauseButton => {
                if self.loaded_song_playing.is_some() {
                    self.loaded_song_playing = Some(false);
                    SinkStep {
                        command: Some(SinkCommand::Pause),
                        callback: Some(SinkCallbackMessage::Paused),
                    }
                } else {
                    SinkStep { command: None, callback: None }
                }
            },
            SinkMessage::LoadSong(path) => {
                self.loaded_song_playing = Some(true);
                SinkStep {
                    command: Some(SinkCommand::Load(path)),
                    callback: Some(SinkCallbackMessage::Playing),
                }
            },
        }
    }

    /// Takes note that no request came in time, while the audio output has
    /// `queued` sounds left: a loaded song whose sounds have run out has
    /// ended, and the interface is told so.
    pub fn handle_timeout(&mut self, queued: usize) -> (callback: Option<SinkCallbackMessage>)
        ensures
            old(self).loaded_song_playing is Some && queued == 0 ==> {
                &&& final(self).loaded_song_playing is None
                &&& callback == Some(SinkCallbackMessage::SongEnded)
            },
            !(old(self).loaded_song_playing is Some && queued == 0) ==> {
                &&& *final(self) == *old(self)
                &&& callback is None
            },
    {
        if self.loaded_song_playing.is_some() && queued == 0 {
            self.loaded_song_playing = None;
            Some(SinkCallbackMessage::SongEnded)
        } else {
            None
        }
    }
}

/// A listener that pauses the song once, the first time that it hears
/// nothing for a while, and lets it play on after that.
#[derive(Clone, Copy, Debug, PartialEq, Eq, Structural)]
pub struct PauseOnce {
    pub should_pause_once: bool,
}

impl PauseOnce {
    /// A listener that has not paused yet.
    pub fn new() -> (listener: PauseOnce)
        ensures
            listener.should_pause_once,
    {
        PauseOnce { should_pause_once: true }
    }

    /// Whether the message ends the listening: the end of the song does.
    pub fn ends_listening(callback: SinkCallbackMessage) -> (ends: bool)
        ensures
            ends == (callback == SinkCallbackMessage::SongEnded),
    {
        match callback {
            SinkCallbackMessage::SongEnded => true,
            _ => false,
        }
    }

    /// Takes note that nothing was heard in time, and tells whether to pause
    /// now: only the first time.
    pub fn handle_timeout(&mut self) -> (pause: bool)
        ensures
            pause == old(self).should_pause_once,
            !final(self).should_pause_once,
    {
        let pause = self.should_pause_once;
        self.should_pause_once = false;
        pause
    }
}

} // verus!
