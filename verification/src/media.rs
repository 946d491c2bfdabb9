//! Desktop media keys: the commands they deliver, and what the desktop is
//! told about the playing track.

use vstd::prelude::*;

verus! {

/// The commands that desktop media keys deliver.
#[derive(Clone, Copy, PartialEq, Eq, Debug)]
pub enum MediaCommand {
    Toggle,
    Play,
    Pause,
    Next,
    Prev,
    Stop,
}

/// What the desktop's media integration should be told after a change.
#[derive(Clone, Copy, PartialEq, Eq, Debug)]
pub enum MediaUpdate {
    /// Nothing changed since the desktop was last told.
    Unchanged,
    /// Track `track` is loaded; `playing` is false when it is paused.
    NowPlaying { track: usize, playing: bool },
    /// Nothing is loaded any more.
    Stopped,
}

} // verus!
