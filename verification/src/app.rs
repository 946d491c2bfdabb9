//! Application state and behaviour: the library list, the search filter,
//! the selection, and the decisions of playback.
//!
//! The audio engine, the desktop media keys and the clock live outside the
//! library. An operation that needs the engine returns an [`Effect`] for the
//! caller to carry out; loading a track is answered by [`App::finish_load`]
//! with the engine's outcome. What the engine reports (whether it is paused,
//! how far into the track it is, whether the track has run out) is handed in
//! as plain values.

use std::collections::HashMap;

use vstd::prelude::*;
use vstd::string::*;

use crate::art::{decode_cover, decoded_cover, Cover};
use crate::library::Track;
use crate::media::{MediaCommand, MediaUpdate};
use crate::seqs::{
    find_first, first_index, increasing, lemma_first_index, lemma_first_index_absent,
    lemma_first_index_at, same_bytes,
};
use crate::text::{
    ascii_lower, char_vec, contains_chars, decimal, has_substring, is_ascii_char, lower_chars,
    lowercase, pop_char, push_char, push_decimal, push_str, push_vec, string_of,
};
use crate::theme::Theme;

verus! {

/// Whether keys go to the list or to the search field.
#[derive(Clone, Copy, PartialEq, Eq, Debug)]
pub enum Mode {
    Normal,
    Search,
}

/// What happens when a track ends.
#[derive(Clone, Copy, PartialEq, Eq, Debug)]
pub enum Repeat {
    Off,
    All,
    One,
}

/// The next repeat mode in the cycle off, all, one.
pub open spec fn repeat_after(r: Repeat) -> Repeat {
    match r {
        Repeat::Off => Repeat::All,
        Repeat::All => Repeat::One,
        Repeat::One => Repeat::Off,
    }
}

/// The name a repeat mode is shown with.
pub open spec fn repeat_name(r: Repeat) -> Seq<char> {
    match r {
        Repeat::Off => "off"@,
        Repeat::All => "all"@,
        Repeat::One => "one"@,
    }
}

impl Repeat {
    /// The name this mode is shown with: "off", "all" or "one".
    pub fn label(self) -> (s: &'static str)
        ensures
            s@ == repeat_name(self),
    {
        match self {
            Repeat::Off => "off",
            Repeat::All => "all",
            Repeat::One => "one",
        }
    }

    /// The mode after this one in the cycle off, all, one.
    pub fn next(self) -> (r: Repeat)
        ensures
            r == repeat_after(self),
    {
        match self {
            Repeat::Off => Repeat::All,
            Repeat::All => Repeat::One,
            Repeat::One => Repeat::Off,
        }
    }
}

/// What the audio engine is asked to do after an operation.
#[derive(Clone, Copy, PartialEq, Eq, Debug)]
pub enum Effect {
    /// Nothing.
    Nothing,
    /// Open track `tracks[i]` and play it from the start, then report the
    /// outcome with [`App::finish_load`].
    Load(usize),
    /// Pause when playing, resume when paused.
    TogglePause,
    /// Resume playback.
    Resume,
    /// Pause playback.
    Pause,
    /// Stop and drop the loaded track.
    Clear,
    /// Move the play position to this many nanoseconds into the track.
    Seek(u128),
    /// Raise the volume by one step.
    VolumeUp,
    /// Lower the volume by one step.
    VolumeDown,
}

/// A track load that was asked for and whose outcome is still to come.
/// `report_pause` is set when the status line must then show whether the
/// engine ended up paused.
#[derive(Clone, Copy, PartialEq, Eq, Debug)]
pub struct PendingLoad {
    pub track: usize,
    pub report_pause: bool,
}

/// Once the cover cache holds more than this many covers, it is emptied
/// before the next one is loaded.
pub const ART_CACHE_LIMIT: usize = 48;

/// Nanoseconds in a second.
pub const NANOS_PER_SEC: u128 = 1_000_000_000;

/// The longest time span the clock can express (`Duration::MAX`), in nanoseconds.
pub const MAX_SPAN_NANOS: u128 = 18_446_744_073_709_551_615_999_999_999;

/// How far into a track "previous" restarts it instead of going back (3 s).
pub const RESTART_AFTER_NANOS: u128 = 3_000_000_000;

/// The player's state.
pub struct App {
    /// The library folder, as displayed.
    pub root: String,
    pub theme: Theme,
    pub tracks: Vec<Track>,
    /// Indices into `tracks`, in display order (after search filtering).
    pub filtered: Vec<usize>,
    /// The highlighted position within `filtered`.
    pub selected: Option<usize>,
    /// Index into `tracks` of the currently loaded song.
    pub current: Option<usize>,
    pub mode: Mode,
    pub query: String,
    pub repeat: Repeat,
    pub shuffle: bool,
    pub should_quit: bool,
    pub confirm_quit: bool,
    pub status: String,
    /// The track the desktop was last told about, and whether it was paused.
    pub media_last: Option<usize>,
    pub media_paused: Option<bool>,
    /// The track a notification was last sent for.
    pub notified: Option<usize>,
    /// A load asked of the engine and not yet answered.
    pub pending: Option<PendingLoad>,
    /// The covers loaded so far, by track (`None` for a track without one).
    pub art_cache: HashMap<usize, Option<Cover>>,
}

// ---- the search filter ------------------------------------------------------

/// Whether a track is listed under the (lower-cased) query `q`: the query is
/// empty, or it occurs in the lower-cased title, artist or album.
pub open spec fn track_matches(t: Track, q: Seq<char>) -> bool {
    ||| q.len() == 0
    ||| has_substring(lowercase(t.title@), q)
    ||| has_substring(lowercase(t.artist@), q)
    ||| has_substring(lowercase(t.album@), q)
}

/// The indices among the first `n` tracks that are listed under `q`, in order.
pub open spec fn matching(ts: Seq<Track>, q: Seq<char>, n: nat) -> Seq<usize>
    decreases n,
{
    if n == 0 {
        Seq::empty()
    } else {
        let p = matching(ts, q, (n - 1) as nat);
        if track_matches(ts[n - 1], q) {
            p.push((n - 1) as usize)
        } else {
            p
        }
    }
}

/// The list shown for a search: the indices of the tracks whose title,
/// artist or album holds the lower-cased query, in library order.
pub open spec fn filter_of(ts: Seq<Track>, query: Seq<char>) -> Seq<usize> {
    matching(ts, lowercase(query), ts.len())
}

/// The indices `0..n`.
pub open spec fn all_indices(n: nat) -> Seq<usize> {
    Seq::new(n, |i: int| i as usize)
}

pub proof fn lemma_matching(ts: Seq<Track>, q: Seq<char>, n: nat)
    requires
        n <= ts.len(),
        ts.len() <= usize::MAX,
    ensures
        increasing(matching(ts, q, n)),
        matching(ts, q, n).len() <= n,
        forall|k: int| 0 <= k < matching(ts, q, n).len() ==> #[trigger] matching(ts, q, n)[k] < n,
        forall|i: int|
            0 <= i < n ==> (track_matches(ts[i], q) <==> matching(ts, q, n).contains(i as usize)),
        q.len() == 0 ==> matching(ts, q, n) == all_indices(n),
    decreases n,
{
    if n > 0 {
        lemma_matching(ts, q, (n - 1) as nat);
        let p = matching(ts, q, (n - 1) as nat);
        let m = matching(ts, q, n);
        assert forall|i: int| 0 <= i < n implies (track_matches(ts[i], q) <==> m.contains(
            i as usize,
        )) by {
            if i < n - 1 {
                if m.contains(i as usize) && !p.contains(i as usize) {
                    let k = choose|k: int| 0 <= k < m.len() && m[k] == i as usize;
                    assert(k == p.len());
                }
                if p.contains(i as usize) {
                    let k = choose|k: int| 0 <= k < p.len() && p[k] == i as usize;
                    assert(m[k] == i as usize);
                }
            } else {
                if track_matches(ts[i], q) {
                    assert(m[p.len() as int] == i as usize);
                } else {
                    if m.contains(i as usize) {
                        let k = choose|k: int| 0 <= k < m.len() && m[k] == i as usize;
                        assert(p[k] < n - 1);
                    }
                }
            }
        }
        if q.len() == 0 {
            assert(m =~= all_indices(n));
        }
    } else {
        assert(matching(ts, q, n) =~= all_indices(n));
    }
}

// ---- statuses ---------------------------------------------------------------

/// The status shown when a track starts: `Playing  <title> — <artist>`.
pub open spec fn playing_status(t: Track) -> Seq<char> {
    "Playing  "@ + t.title@ + " — "@ + t.artist@
}

/// The status shown when a track fails to load.
pub open spec fn error_status(msg: Seq<char>) -> Seq<char> {
    "Error: "@ + msg
}

/// "Paused" or "Playing", by the engine's state.
pub open spec fn pause_status(paused: bool) -> Seq<char> {
    if paused {
        "Paused"@
    } else {
        "Playing"@
    }
}

/// The status after switching shuffle.
pub open spec fn shuffle_status(on: bool) -> Seq<char> {
    if on {
        "Shuffle on"@
    } else {
        "Shuffle off"@
    }
}

/// The status after switching the repeat mode.
pub open spec fn repeat_status(r: Repeat) -> Seq<char> {
    "Repeat "@ + repeat_name(r)
}

/// The status of a freshly opened library.
pub open spec fn opening_status(root: Seq<char>, n: nat, source: Seq<char>) -> Seq<char> {
    if n == 0 {
        "No audio files found in "@ + root
    } else {
        decimal(n) + " tracks · theme: "@ + source
    }
}

/// The status after re-reading the library.
pub open spec fn refreshed_status(n: nat) -> Seq<char> {
    "Refreshed · "@ + decimal(n) + " tracks"@
}

fn status_text(s: &str) -> (r: String)
    ensures
        r@ == s@,
{
    String::from_str(s)
}

// ---- the state invariant ------------------------------------------------------

impl App {
    /// The state is consistent: the list is the search result for the query,
    /// the selection lies in the list (and exists whenever the list is not
    /// empty), and every track index held refers to a track.
    pub open spec fn wf(self) -> bool {
        &&& self.tracks.len() <= isize::MAX / 2
        &&& self.filtered@ == filter_of(self.tracks@, self.query@)
        &&& increasing(self.filtered@)
        &&& self.filtered.len() <= self.tracks.len()
        &&& forall|k: int| 0 <= k < self.filtered.len() ==> #[trigger] self.filtered@[k] < self.tracks.len()
        &&& (self.selected matches Some(p) ==> p < self.filtered.len())
        &&& (self.selected is Some <==> self.filtered.len() > 0)
        &&& (self.current matches Some(c) ==> c < self.tracks.len())
        &&& (self.pending matches Some(p) ==> p.track < self.tracks.len())
        &&& self.art_cache@.len() <= ART_CACHE_LIMIT + 1
    }

    /// The position of the loaded track within the list, if it is listed.
    pub open spec fn current_pos(self) -> Option<int> {
        match self.current {
            Some(c) => first_index(self.filtered@, c),
            None => None,
        }
    }

    /// The track highlighted in the list.
    pub open spec fn highlighted_track(self) -> Option<usize> {
        match self.selected {
            Some(p) => if p < self.filtered.len() {
                Some(self.filtered@[p as int])
            } else {
                None
            },
            None => None,
        }
    }
}

// ---- which parts of the state an operation leaves alone ------------------------

/// The library, the list, the selection and the search are the same.
pub open spec fn same_list(a: App, b: App) -> bool {
    &&& a.root@ == b.root@
    &&& a.theme == b.theme
    &&& a.tracks@ == b.tracks@
    &&& a.filtered@ == b.filtered@
    &&& a.selected == b.selected
    &&& a.mode == b.mode
    &&& a.query@ == b.query@
}

/// Playback decisions and flags are the same.
pub open spec fn same_playback(a: App, b: App) -> bool {
    &&& a.current == b.current
    &&& a.repeat == b.repeat
    &&& a.shuffle == b.shuffle
    &&& a.pending == b.pending
}

/// The quit flags and what the desktop and notifications were told are the same.
pub open spec fn same_flags(a: App, b: App) -> bool {
    &&& a.should_quit == b.should_quit
    &&& a.confirm_quit == b.confirm_quit
    &&& a.media_last == b.media_last
    &&& a.media_paused == b.media_paused
    &&& a.notified == b.notified
}

/// Everything but the status line is the same.
pub open spec fn same_but_status(a: App, b: App) -> bool {
    same_list(a, b) && same_playback(a, b) && same_flags(a, b)
}

/// Everything is the same, the cover cache aside.
pub open spec fn unchanged(a: App, b: App) -> bool {
    same_but_status(a, b) && a.status@ == b.status@
}

/// Only the highlight changed, to `sel`.
pub open spec fn only_selection(a: App, b: App, sel: Option<usize>) -> bool {
    &&& b.selected == sel
    &&& a.root@ == b.root@
    &&& a.theme == b.theme
    &&& a.tracks@ == b.tracks@
    &&& a.filtered@ == b.filtered@
    &&& a.mode == b.mode
    &&& a.query@ == b.query@
    &&& same_playback(a, b)
    &&& same_flags(a, b)
    &&& a.status@ == b.status@
}

/// The highlighted position, or the top of the list when nothing is highlighted.
pub open spec fn selection_or_top(a: App) -> int {
    match a.selected {
        Some(p) => p as int,
        None => 0,
    }
}

/// The highlight after moving `delta` places, wrapping around the list
/// (unchanged on an empty list).
pub open spec fn moved_selection(a: App, delta: int) -> Option<usize> {
    if a.filtered.len() == 0 {
        a.selected
    } else {
        Some(((selection_or_top(a) + delta) % (a.filtered.len() as int)) as usize)
    }
}

/// The highlight after jumping to the top (unchanged on an empty list).
pub open spec fn top_selection(a: App) -> Option<usize> {
    if a.filtered.len() > 0 {
        Some(0usize)
    } else {
        a.selected
    }
}

/// The highlight after jumping to the bottom (unchanged on an empty list).
pub open spec fn bottom_selection(a: App) -> Option<usize> {
    if a.filtered.len() > 0 {
        Some((a.filtered.len() - 1) as usize)
    } else {
        a.selected
    }
}

/// Shuffle was switched and the status says so; nothing else changed.
pub open spec fn shuffle_toggled(a: App, b: App) -> bool {
    &&& b.shuffle == !a.shuffle
    &&& b.status@ == shuffle_status(!a.shuffle)
    &&& same_list(a, b)
    &&& same_flags(a, b)
    &&& b.current == a.current
    &&& b.repeat == a.repeat
    &&& b.pending == a.pending
}

/// The repeat mode moved on and the status says so; nothing else changed.
pub open spec fn repeat_cycled(a: App, b: App) -> bool {
    &&& b.repeat == repeat_after(a.repeat)
    &&& b.status@ == repeat_status(repeat_after(a.repeat))
    &&& same_list(a, b)
    &&& same_flags(a, b)
    &&& b.current == a.current
    &&& b.shuffle == a.shuffle
    &&& b.pending == a.pending
}

/// Keys now go to the search field; nothing else changed.
pub open spec fn search_entered(a: App, b: App) -> bool {
    &&& b.mode == Mode::Search
    &&& a.root@ == b.root@
    &&& a.theme == b.theme
    &&& a.tracks@ == b.tracks@
    &&& a.filtered@ == b.filtered@
    &&& a.selected == b.selected
    &&& a.query@ == b.query@
    &&& same_playback(a, b)
    &&& same_flags(a, b)
    &&& a.status@ == b.status@
}

/// The player is to quit; nothing else changed.
pub open spec fn quits(a: App, b: App) -> bool {
    &&& b.should_quit
    &&& same_list(a, b)
    &&& same_playback(a, b)
    &&& b.confirm_quit == a.confirm_quit
    &&& b.media_last == a.media_last
    &&& b.media_paused == a.media_paused
    &&& b.notified == a.notified
    &&& b.status@ == a.status@
}

/// Going from `a` to `b` asked for track `a.filtered[pos]` to be loaded
/// (reporting the pause state afterwards when `report`), and changed nothing else.
pub open spec fn loads(a: App, b: App, e: Effect, pos: int, report: bool) -> bool {
    &&& 0 <= pos < a.filtered.len()
    &&& e == Effect::Load(a.filtered@[pos])
    &&& b.pending == Some(PendingLoad { track: a.filtered@[pos], report_pause: report })
    &&& same_list(a, b)
    &&& same_flags(a, b)
    &&& b.current == a.current
    &&& b.repeat == a.repeat
    &&& b.shuffle == a.shuffle
    &&& b.status@ == a.status@
}

/// The position after `cur` in a list of `len`, wrapping to the start
/// (the start when nothing is playing from the list).
pub open spec fn next_pos(cur: Option<int>, len: int) -> int {
    match cur {
        Some(p) => (p + 1) % len,
        None => 0,
    }
}

/// The position before `cur` in a list of `len`, wrapping to the end
/// (counting from the start when nothing is playing from the list).
pub open spec fn prev_pos(cur: Option<int>, len: int) -> int {
    let c = match cur {
        Some(p) => p,
        None => 0,
    };
    (c + len - 1) % len
}

/// The seek target `secs` seconds from `pos` nanoseconds, not before the start.
pub open spec fn seek_target(pos: int, secs: int) -> int {
    if secs >= 0 {
        pos + secs * 1_000_000_000
    } else if pos - (-secs) * 1_000_000_000 >= 0 {
        pos - (-secs) * 1_000_000_000
    } else {
        0
    }
}

impl App {
    /// A fresh player over `tracks`, listing all of them with the first one
    /// highlighted, nothing loaded, and a status that counts the tracks (or
    /// says that the folder holds none).
    pub fn new(root: String, theme: Theme, tracks: Vec<Track>) -> (app: App)
        requires
            tracks.len() <= isize::MAX / 2,
        ensures
            app.wf(),
            app.root@ == root@,
            app.theme == theme,
            app.tracks@ == tracks@,
            app.filtered@ == all_indices(tracks.len() as nat),
            app.selected == (if tracks.len() > 0 { Some(0usize) } else { None::<usize> }),
            app.current is None,
            app.mode == Mode::Normal,
            app.query@.len() == 0,
            app.repeat == Repeat::Off,
            !app.shuffle,
            !app.should_quit,
            !app.confirm_quit,
            app.status@ == opening_status(root@, tracks.len() as nat, theme.source@),
            app.media_last is None,
            app.media_paused is None,
            app.notified is None,
            app.pending is None,
            app.art_cache@ == Map::<usize, Option<Cover>>::empty(),
    {
        let n = tracks.len();
        let mut msg: Vec<char> = Vec::new();
        if n == 0 {
            push_str(&mut msg, "No audio files found in ");
            let r = char_vec(root.as_str());
            push_vec(&mut msg, &r);
        } else {
            push_decimal(&mut msg, n as u64);
            push_str(&mut msg, " tracks · theme: ");
            let s = char_vec(theme.source);
            push_vec(&mut msg, &s);
        }
        proof {
            assert(msg@ =~= opening_status(root@, n as nat, theme.source@));
        }
        let mut app = App {
            root,
            theme,
            tracks,
            filtered: Vec::new(),
            selected: None,
            current: None,
            mode: Mode::Normal,
            query: String::new(),
            repeat: Repeat::Off,
            shuffle: false,
            should_quit: false,
            confirm_quit: false,
            status: string_of(&msg),
            media_last: None,
            media_paused: None,
            notified: None,
            pending: None,
            art_cache: HashMap::new(),
        };
        app.apply_filter();
        proof {
            lemma_matching(app.tracks@, lowercase(app.query@), app.tracks.len() as nat);
        }
        app
    }

    /// Recomputes the list for the current query and highlights its first
    /// entry (or nothing, when it is empty).
    fn apply_filter(&mut self)
        requires
            old(self).tracks.len() <= isize::MAX / 2,
            old(self).current matches Some(c) ==> c < old(self).tracks.len(),
            old(self).pending matches Some(p) ==> p.track < old(self).tracks.len(),
            old(self).art_cache@.len() <= ART_CACHE_LIMIT + 1,
        ensures
            final(self).wf(),
            final(self).filtered@ == filter_of(old(self).tracks@, old(self).query@),
            final(self).art_cache@ == old(self).art_cache@,
            old(self).query@.len() == 0 ==> lowercase(old(self).query@).len() == 0,
            (forall|i: int|
                0 <= i < old(self).query@.len() ==> is_ascii_char(#[trigger] old(self).query@[i]))
                ==> lowercase(old(self).query@) == old(self).query@.map_values(
                |d: char| ascii_lower(d),
            ),
            final(self).selected == (if final(self).filtered.len() > 0 {
                Some(0usize)
            } else {
                None::<usize>
            }),
            final(self).root@ == old(self).root@,
            final(self).theme == old(self).theme,
            final(self).tracks@ == old(self).tracks@,
            final(self).mode == old(self).mode,
            final(self).query@ == old(self).query@,
            same_playback(*old(self), *final(self)),
            same_flags(*old(self), *final(self)),
            final(self).status@ == old(self).status@,
    {
        let q = lower_chars(self.query.as_str());
        let mut filtered: Vec<usize> = Vec::new();
        let n = self.tracks.len();
        let mut i: usize = 0;
        while i < n
            invariant
                n == self.tracks.len(),
                i <= n,
                q@ == lowercase(self.query@),
                filtered@ == matching(self.tracks@, q@, i as nat),
            decreases n - i,
        {
            let t = &self.tracks[i];
            let keep = if q.len() == 0 {
                true
            } else if contains_chars(&lower_chars(t.title.as_str()), &q) {
                true
            } else if contains_chars(&lower_chars(t.artist.as_str()), &q) {
                true
            } else {
                contains_chars(&lower_chars(t.album.as_str()), &q)
            };
            if keep {
                filtered.push(i);
            }
            i = i + 1;
        }
        proof {
            lemma_matching(self.tracks@, q@, n as nat);
        }
        let empty = filtered.len() == 0;
        self.filtered = filtered;
        if empty {
            self.selected = None;
        } else {
            self.selected = Some(0);
        }
    }

    // ---- quit confirmation ------------------------------------------------

    /// Asks before quitting, so a stray key doesn't stop playback.
    pub fn request_quit(&mut self)
        ensures
            final(self).confirm_quit,
            same_list(*old(self), *final(self)),
            same_playback(*old(self), *final(self)),
            final(self).should_quit == old(self).should_quit,
            final(self).media_last == old(self).media_last,
            final(self).media_paused == old(self).media_paused,
            final(self).notified == old(self).notified,
            final(self).art_cache@ == old(self).art_cache@,
            final(self).status@ == old(self).status@,
    {
        self.confirm_quit = true;
    }

    /// Withdraws the question whether to quit.
    pub fn cancel_quit(&mut self)
        ensures
            !final(self).confirm_quit,
            same_list(*old(self), *final(self)),
            same_playback(*old(self), *final(self)),
            final(self).should_quit == old(self).should_quit,
            final(self).media_last == old(self).media_last,
            final(self).media_paused == old(self).media_paused,
            final(self).notified == old(self).notified,
            final(self).art_cache@ == old(self).art_cache@,
            final(self).status@ == old(self).status@,
    {
        self.confirm_quit = false;
    }

    /// Quits for good.
    pub fn confirm_quit_now(&mut self)
        ensures
            final(self).should_quit,
            same_list(*old(self), *final(self)),
            same_playback(*old(self), *final(self)),
            final(self).confirm_quit == old(self).confirm_quit,
            final(self).media_last == old(self).media_last,
            final(self).media_paused == old(self).media_paused,
            final(self).notified == old(self).notified,
            final(self).art_cache@ == old(self).art_cache@,
            final(self).status@ == old(self).status@,
    {
        self.should_quit = true;
    }

    // ---- selection ----------------------------------------------------------

    /// The highlighted position within the list.
    pub fn selected_pos(&self) -> (r: Option<usize>)
        ensures
            r == self.selected,
    {
        self.selected
    }

    /// The track (index into `tracks`) shown in the info and cover panel:
    /// the playing track, or the highlighted one when nothing is playing.
    pub fn selected_track_idx(&self) -> (r: Option<usize>)
        ensures
            r == (match self.current {
                Some(c) => Some(c),
                None => self.highlighted_track(),
            }),
    {
        match self.current {
            Some(c) => Some(c),
            None => self.highlighted_track_idx(),
        }
    }

    /// The track (index into `tracks`) highlighted in the list.
    fn highlighted_track_idx(&self) -> (r: Option<usize>)
        ensures
            r == self.highlighted_track(),
    {
        match self.selected {
            Some(p) => if p < self.filtered.len() {
                Some(self.filtered[p])
            } else {
                None
            },
            None => None,
        }
    }

    /// The track shown in the info panel: the loaded one, or the highlighted
    /// one when nothing is loaded.
    pub fn display_idx(&self) -> (r: Option<usize>)
        ensures
            r == (match self.current {
                Some(c) => Some(c),
                None => self.highlighted_track(),
            }),
    {
        self.selected_track_idx()
    }

    /// Moves the highlight `delta` places, wrapping around either end of the
    /// list (starting from the top when nothing is highlighted).
    pub fn move_selection(&mut self, delta: isize)
        requires
            old(self).wf(),
            selection_or_top(*old(self)) + delta <= isize::MAX,
        ensures
            final(self).wf(),
            only_selection(*old(self), *final(self), moved_selection(*old(self), delta as int)),
    {
        if self.filtered.len() == 0 {
            return;
        }
        let len = self.filtered.len() as i128;
        let cur: i128 = match self.selected {
            Some(p) => p as i128,
            None => 0,
        };
        let s: i128 = cur + delta as i128;
        let next: i128 = if s >= 0 {
            let r: i128 = s % len;
            r
        } else {
            let m: i128 = (-s) % len;
            if m == 0 {
                0
            } else {
                len - m
            }
        };
        proof {
            let si = s as int;
            let li = len as int;
            if si < 0 {
                let ns = -si;
                let q = ns / li;
                let ms = ns % li;
                assert(ms + li * q == ns && 0 <= ms < li) by (nonlinear_arith)
                    requires
                        li > 0,
                        q == ns / li,
                        ms == ns % li,
                ;
                if ms == 0 {
                    assert(si == li * (-q) + 0) by (nonlinear_arith)
                        requires
                            ms + li * q == ns,
                            ns == -si,
                            ms == 0,
                    ;
                    vstd::arithmetic::div_mod::lemma_mod_multiples_vanish(-q, 0, li);
                } else {
                    assert(si == li * (-q - 1) + (li - ms)) by (nonlinear_arith)
                        requires
                            ms + li * q == ns,
                            ns == -si,
                    ;
                    vstd::arithmetic::div_mod::lemma_mod_multiples_vanish(-q - 1, li - ms, li);
                    vstd::arithmetic::div_mod::lemma_small_mod((li - ms) as nat, li as nat);
                }
            }
        }
        self.selected = Some(next as usize);
    }

    /// Highlights the first entry of the list, if there is one.
    pub fn select_first(&mut self)
        requires
            old(self).wf(),
        ensures
            final(self).wf(),
            only_selection(*old(self), *final(self), top_selection(*old(self))),
    {
        if self.filtered.len() > 0 {
            self.selected = Some(0);
        }
    }

    /// Highlights the last entry of the list, if there is one.
    pub fn select_last(&mut self)
        requires
            old(self).wf(),
        ensures
            final(self).wf(),
            only_selection(*old(self), *final(self), bottom_selection(*old(self))),
    {
        if self.filtered.len() > 0 {
            self.selected = Some(self.filtered.len() - 1);
        }
    }

    // ---- search -------------------------------------------------------------

    /// Sends keys to the search field.
    pub fn enter_search(&mut self)
        requires
            old(self).wf(),
        ensures
            final(self).wf(),
            search_entered(*old(self), *final(self)),
    {
        self.mode = Mode::Search;
    }

    /// Leaves the search field; unless `keep`, the query is cleared and the
    /// whole library is listed again.
    pub fn exit_search(&mut self, keep: bool)
        requires
            old(self).wf(),
        ensures
            final(self).wf(),
            final(self).mode == Mode::Normal,
            keep ==> final(self).query@ == old(self).query@ && final(self).filtered@
                == old(self).filtered@ && final(self).selected == old(self).selected,
            !keep ==> final(self).query@.len() == 0 && final(self).filtered@ == all_indices(
                old(self).tracks.len() as nat,
            ) && final(self).selected == (if old(self).tracks.len() > 0 {
                Some(0usize)
            } else {
                None::<usize>
            }),
            final(self).root@ == old(self).root@,
            final(self).theme == old(self).theme,
            final(self).tracks@ == old(self).tracks@,
            same_playback(*old(self), *final(self)),
            same_flags(*old(self), *final(self)),
            final(self).status@ == old(self).status@,
    {
        self.mode = Mode::Normal;
        if !keep {
            self.query = String::new();
            self.apply_filter();
            proof {
                lemma_matching(self.tracks@, lowercase(self.query@), self.tracks.len() as nat);
            }
        }
    }

    /// Types `c` into the search field and narrows the list.
    pub fn search_push(&mut self, c: char)
        requires
            old(self).wf(),
        ensures
            final(self).wf(),
            final(self).query@ == old(self).query@.push(c),
            final(self).filtered@ == filter_of(old(self).tracks@, old(self).query@.push(c)),
            final(self).selected == (if final(self).filtered.len() > 0 {
                Some(0usize)
            } else {
                None::<usize>
            }),
            final(self).root@ == old(self).root@,
            final(self).theme == old(self).theme,
            final(self).tracks@ == old(self).tracks@,
            final(self).mode == old(self).mode,
            same_playback(*old(self), *final(self)),
            same_flags(*old(self), *final(self)),
            final(self).status@ == old(self).status@,
            (forall|i: int|
                0 <= i < old(self).query@.len() ==> is_ascii_char(#[trigger] old(self).query@[i]))
                && is_ascii_char(c) ==> forall|k: usize|
                #[trigger] final(self).filtered@.contains(k) ==> old(self).filtered@.contains(k),
    {
        // The lower-cased query before the keystroke: the new list is proved to
        // narrow the one shown for it.
        let before = lower_chars(self.query.as_str());
        push_char(&mut self.query, c);
        self.apply_filter();
        proof {
            let q = old(self).query@;
            if (forall|i: int| 0 <= i < q.len() ==> is_ascii_char(#[trigger] q[i]))
                && is_ascii_char(c) {
                assert(q.push(c).map_values(|d: char| ascii_lower(d)) =~= before@.push(
                    ascii_lower(c),
                ));
                assert(forall|i: int|
                    0 <= i < q.push(c).len() ==> is_ascii_char(#[trigger] q.push(c)[i]));
                crate::props::law_typing_narrows(self.tracks@, before@, ascii_lower(c));
            }
        }
    }

    /// Deletes the last character of the search field (if any) and widens
    /// the list.
    pub fn search_backspace(&mut self)
        requires
            old(self).wf(),
        ensures
            final(self).wf(),
            final(self).query@ == (if old(self).query@.len() > 0 {
                old(self).query@.drop_last()
            } else {
                old(self).query@
            }),
            final(self).filtered@ == filter_of(old(self).tracks@, final(self).query@),
            final(self).selected == (if final(self).filtered.len() > 0 {
                Some(0usize)
            } else {
                None::<usize>
            }),
            final(self).root@ == old(self).root@,
            final(self).theme == old(self).theme,
            final(self).tracks@ == old(self).tracks@,
            final(self).mode == old(self).mode,
            same_playback(*old(self), *final(self)),
            same_flags(*old(self), *final(self)),
            final(self).status@ == old(self).status@,
    {
        let _ = pop_char(&mut self.query);
        self.apply_filter();
    }
}


// ---- playback ---------------------------------------------------------------

/// Calls `fastrand::usize(..n)`: a position below `n` chosen at random (the
/// crate panics on an empty range, which `requires` rules out).
#[verifier::external_body]
fn random_below(n: usize) -> (r: usize)
    requires
        n > 0,
    ensures
        r < n,
{
    fastrand::usize(..n)
}

/// What "play the highlighted track" does: load it, or nothing when nothing
/// is highlighted.
pub open spec fn plays_selected(a: App, b: App, e: Effect, report: bool) -> bool {
    match a.selected {
        Some(p) => loads(a, b, e, p as int, report),
        None => e == Effect::Nothing && unchanged(a, b),
    }
}

/// What "next" does: nothing on an empty list; with shuffle, load some
/// listed track; otherwise load the one after the playing track, wrapping
/// around (the first one when the playing track is not listed).
pub open spec fn plays_next(a: App, b: App, e: Effect) -> bool {
    if a.filtered.len() == 0 {
        e == Effect::Nothing && unchanged(a, b)
    } else if a.shuffle {
        exists|p: int| loads(a, b, e, p, false)
    } else {
        loads(a, b, e, next_pos(a.current_pos(), a.filtered.len() as int), false)
    }
}

/// What "previous" does at `position` nanoseconds into the track: nothing on
/// an empty list; restart the playing track when more than three seconds of
/// it have played; otherwise load the one before it, wrapping around.
pub open spec fn plays_prev(a: App, b: App, e: Effect, position: int) -> bool {
    if a.filtered.len() == 0 {
        e == Effect::Nothing && unchanged(a, b)
    } else if a.current is Some && position > RESTART_AFTER_NANOS && a.current_pos() is Some {
        loads(a, b, e, a.current_pos().unwrap(), false)
    } else {
        loads(a, b, e, prev_pos(a.current_pos(), a.filtered.len() as int), false)
    }
}

/// The engine is told to do `e` and nothing else changes.
pub open spec fn only_effect(a: App, b: App, e: Effect, want: Effect) -> bool {
    e == want && unchanged(a, b)
}

impl App {
    /// Loads the track at position `pos` of the list (nothing when `pos` is
    /// past its end).
    pub fn play_filtered_pos(&mut self, pos: usize) -> (e: Effect)
        requires
            old(self).wf(),
        ensures
            final(self).wf(),
            pos < old(self).filtered.len() ==> loads(*old(self), *final(self), e, pos as int, false),
            pos >= old(self).filtered.len() ==> only_effect(
                *old(self),
                *final(self),
                e,
                Effect::Nothing,
            ),
    {
        if pos >= self.filtered.len() {
            return Effect::Nothing;
        }
        let track = self.filtered[pos];
        self.pending = Some(PendingLoad { track, report_pause: false });
        Effect::Load(track)
    }

    /// Loads the highlighted track.
    pub fn play_selected(&mut self) -> (e: Effect)
        requires
            old(self).wf(),
        ensures
            final(self).wf(),
            plays_selected(*old(self), *final(self), e, false),
    {
        match self.selected {
            Some(p) => self.play_filtered_pos(p),
            None => Effect::Nothing,
        }
    }

    /// Pauses or resumes; when nothing is loaded, loads the highlighted track.
    pub fn toggle_pause(&mut self) -> (e: Effect)
        requires
            old(self).wf(),
        ensures
            final(self).wf(),
            old(self).current is None ==> plays_selected(*old(self), *final(self), e, false),
            old(self).current is Some ==> only_effect(
                *old(self),
                *final(self),
                e,
                Effect::TogglePause,
            ),
    {
        if self.current.is_none() {
            return self.play_selected();
        }
        Effect::TogglePause
    }

    /// Position of the loaded track within the list.
    pub fn current_filtered_pos(&self) -> (r: Option<usize>)
        ensures
            match r {
                Some(p) => self.current_pos() == Some(p as int),
                None => self.current_pos() is None,
            },
            r matches Some(p) ==> p < self.filtered.len(),
    {
        match self.current {
            Some(c) => {
                let r = find_first(&self.filtered, c);
                proof {
                    lemma_first_index(self.filtered@, c);
                }
                r
            },
            None => None,
        }
    }

    /// Loads the next track: a random listed one with shuffle, otherwise the
    /// one after the playing track, wrapping around.
    pub fn next_track(&mut self) -> (e: Effect)
        requires
            old(self).wf(),
        ensures
            final(self).wf(),
            plays_next(*old(self), *final(self), e),
    {
        let len = self.filtered.len();
        if len == 0 {
            return Effect::Nothing;
        }
        if self.shuffle {
            let pos = random_below(len);
            return self.play_filtered_pos(pos);
        }
        let next = match self.current_filtered_pos() {
            Some(cur) => (cur + 1) % len,
            None => 0,
        };
        self.play_filtered_pos(next)
    }

    /// Goes back one track, or restarts the playing track when more than
    /// three seconds of it (by `position_nanos`) have played.
    pub fn prev_track(&mut self, position_nanos: u128) -> (e: Effect)
        requires
            old(self).wf(),
        ensures
            final(self).wf(),
            plays_prev(*old(self), *final(self), e, position_nanos as int),
    {
        let len = self.filtered.len();
        if len == 0 {
            return Effect::Nothing;
        }
        if self.current.is_some() && position_nanos > RESTART_AFTER_NANOS {
            if let Some(pos) = self.current_filtered_pos() {
                return self.play_filtered_pos(pos);
            }
        }
        let cur = match self.current_filtered_pos() {
            Some(p) => p,
            None => 0,
        };
        let prev = (cur + len - 1) % len;
        self.play_filtered_pos(prev)
    }

    /// Seeks `secs` seconds forward (backward when negative, not before the
    /// start) from `position_nanos`, when a track is loaded.
    pub fn seek_relative(&self, secs: i64, position_nanos: u128) -> (e: Effect)
        requires
            secs > i64::MIN,
            position_nanos <= MAX_SPAN_NANOS,
            secs >= 0 ==> position_nanos + secs * NANOS_PER_SEC <= MAX_SPAN_NANOS,
        ensures
            self.current is None ==> e == Effect::Nothing,
            self.current is Some ==> e == Effect::Seek(
                seek_target(position_nanos as int, secs as int) as u128,
            ),
    {
        if self.current.is_none() {
            return Effect::Nothing;
        }
        let target: u128 = if secs >= 0 {
            position_nanos + (secs as u128) * NANOS_PER_SEC
        } else {
            let back: u128 = ((-secs) as u128) * NANOS_PER_SEC;
            if position_nanos >= back {
                position_nanos - back
            } else {
                0
            }
        };
        Effect::Seek(target)
    }

    /// Switches shuffle on or off and says so.
    pub fn toggle_shuffle(&mut self)
        requires
            old(self).wf(),
        ensures
            final(self).wf(),
            shuffle_toggled(*old(self), *final(self)),
    {
        self.shuffle = !self.shuffle;
        if self.shuffle {
            self.status = status_text("Shuffle on");
        } else {
            self.status = status_text("Shuffle off");
        }
    }

    /// Moves to the next repeat mode (off, all, one) and says so.
    pub fn cycle_repeat(&mut self)
        requires
            old(self).wf(),
        ensures
            final(self).wf(),
            repeat_cycled(*old(self), *final(self)),
    {
        self.repeat = self.repeat.next();
        let mut msg: Vec<char> = Vec::new();
        push_str(&mut msg, "Repeat ");
        push_str(&mut msg, self.repeat.label());
        self.status = string_of(&msg);
    }

    /// Takes the engine's answer to the load asked for: on success the track
    /// is the loaded one and the status names it, on failure the status
    /// gives the error. When the load was asked for by the play/pause media
    /// key, the status then says whether the engine (`paused_now`, as it is
    /// after the load) is paused.
    pub fn finish_load(&mut self, outcome: Result<(), String>, paused_now: bool)
        requires
            old(self).wf(),
            old(self).pending is Some,
        ensures
            final(self).wf(),
            final(self).pending is None,
            same_list(*old(self), *final(self)),
            same_flags(*old(self), *final(self)),
            final(self).repeat == old(self).repeat,
            final(self).shuffle == old(self).shuffle,
            final(self).current == (match outcome {
                Ok(_) => Some(old(self).pending.unwrap().track),
                Err(_) => old(self).current,
            }),
            final(self).status@ == (if old(self).pending.unwrap().report_pause {
                pause_status(paused_now)
            } else {
                match outcome {
                    Ok(_) => playing_status(old(self).tracks@[old(self).pending.unwrap().track as int]),
                    Err(m) => error_status(m@),
                }
            }),
    {
        let p = self.pending.unwrap();
        match outcome {
            Ok(_) => {
                self.current = Some(p.track);
                let t = &self.tracks[p.track];
                let mut msg: Vec<char> = Vec::new();
                push_str(&mut msg, "Playing  ");
                let title = char_vec(t.title.as_str());
                push_vec(&mut msg, &title);
                push_str(&mut msg, " — ");
                let artist = char_vec(t.artist.as_str());
                push_vec(&mut msg, &artist);
                proof {
                    assert(msg@ =~= playing_status(self.tracks@[p.track as int]));
                }
                self.status = string_of(&msg);
            },
            Err(m) => {
                let mut msg: Vec<char> = Vec::new();
                push_str(&mut msg, "Error: ");
                let mv = char_vec(m.as_str());
                push_vec(&mut msg, &mv);
                proof {
                    assert(msg@ =~= error_status(m@));
                }
                self.status = string_of(&msg);
            },
        }
        if p.report_pause {
            if paused_now {
                self.status = status_text("Paused");
            } else {
                self.status = status_text("Playing");
            }
        }
        self.pending = None;
    }

    /// Acts on a desktop media key. `paused` is whether the engine is paused
    /// now, `position_nanos` how far into the loaded track it is.
    pub fn handle_media(&mut self, cmd: MediaCommand, paused: bool, position_nanos: u128) -> (e:
        Effect)
        requires
            old(self).wf(),
        ensures
            final(self).wf(),
            cmd == MediaCommand::Toggle ==> (if old(self).current is None {
                match old(self).selected {
                    Some(p) => loads(*old(self), *final(self), e, p as int, true),
                    None => e == Effect::Nothing && same_but_status(*old(self), *final(self))
                        && final(self).status@ == pause_status(paused),
                }
            } else {
                e == Effect::TogglePause && same_but_status(*old(self), *final(self))
                    && final(self).status@ == pause_status(!paused)
            }),
            cmd == MediaCommand::Play ==> (if old(self).current is None {
                plays_selected(*old(self), *final(self), e, false)
            } else {
                e == Effect::Resume && same_but_status(*old(self), *final(self))
                    && final(self).status@ == "Playing"@
            }),
            cmd == MediaCommand::Pause ==> e == Effect::Pause && same_but_status(
                *old(self),
                *final(self),
            ) && final(self).status@ == "Paused"@,
            cmd == MediaCommand::Next ==> plays_next(*old(self), *final(self), e),
            cmd == MediaCommand::Prev ==> plays_prev(
                *old(self),
                *final(self),
                e,
                position_nanos as int,
            ),
            cmd == MediaCommand::Stop ==> {
                &&& e == Effect::Clear
                &&& final(self).current is None
                &&& final(self).status@ == "Stopped"@
                &&& same_list(*old(self), *final(self))
                &&& same_flags(*old(self), *final(self))
                &&& final(self).repeat == old(self).repeat
                &&& final(self).shuffle == old(self).shuffle
                &&& final(self).pending == old(self).pending
            },
    {
        match cmd {
            MediaCommand::Toggle => {
                if self.current.is_none() {
                    match self.selected {
                        Some(p) => {
                            let e = self.play_filtered_pos(p);
                            self.pending = Some(PendingLoad { track: self.filtered[p], report_pause: true });
                            e
                        },
                        None => {
                            self.status = if paused {
                                status_text("Paused")
                            } else {
                                status_text("Playing")
                            };
                            Effect::Nothing
                        },
                    }
                } else {
                    self.status = if !paused {
                        status_text("Paused")
                    } else {
                        status_text("Playing")
                    };
                    Effect::TogglePause
                }
            },
            MediaCommand::Play => {
                if self.current.is_none() {
                    self.play_selected()
                } else {
                    self.status = status_text("Playing");
                    Effect::Resume
                }
            },
            MediaCommand::Pause => {
                self.status = status_text("Paused");
                Effect::Pause
            },
            MediaCommand::Next => self.next_track(),
            MediaCommand::Prev => self.prev_track(position_nanos),
            MediaCommand::Stop => {
                self.current = None;
                self.status = status_text("Stopped");
                Effect::Clear
            },
        }
    }
}


// ---- each frame ---------------------------------------------------------------

/// What happens when the loaded track has run out: replay it (repeat one),
/// go to the next (repeat all), or, with repeat off, go to the next unless
/// it was the last listed track, in which case playback stops.
pub open spec fn advances(a: App, b: App, e: Effect) -> bool {
    match a.repeat {
        Repeat::One => match a.current_pos() {
            Some(p) => loads(a, b, e, p, false),
            None => e == Effect::Nothing && unchanged(a, b),
        },
        Repeat::All => plays_next(a, b, e),
        Repeat::Off => {
            let is_last = match a.current_pos() {
                Some(p) => p + 1 >= a.filtered.len(),
                None => true,
            };
            if is_last {
                &&& e == Effect::Clear
                &&& b.current is None
                &&& b.status@ == "End of library"@
                &&& same_list(a, b)
                &&& same_flags(a, b)
                &&& b.repeat == a.repeat
                &&& b.shuffle == a.shuffle
                &&& b.pending == a.pending
            } else {
                plays_next(a, b, e)
            }
        },
    }
}

/// What the desktop is told when the engine's pause state is `paused`.
pub open spec fn media_update_for(a: App, paused: bool) -> MediaUpdate {
    match a.current {
        Some(i) => if a.media_last != Some(i) || a.media_paused != Some(paused) {
            MediaUpdate::NowPlaying { track: i, playing: !paused }
        } else {
            MediaUpdate::Unchanged
        },
        None => if a.media_last is Some {
            MediaUpdate::Stopped
        } else {
            MediaUpdate::Unchanged
        },
    }
}

/// The track whose cover is due to be loaded: the shown one (the playing
/// track, or else the highlighted one), when its cover is not cached yet.
pub open spec fn cover_due(a: App) -> Option<usize> {
    let shown = match a.current {
        Some(c) => Some(c),
        None => a.highlighted_track(),
    };
    match shown {
        Some(i) => if a.art_cache@.contains_key(i) {
            None::<usize>
        } else {
            Some(i)
        },
        None => None::<usize>,
    }
}

/// The cover cache after caching `cover` for `track`: the cache is emptied
/// first once it holds more than `ART_CACHE_LIMIT` covers.
pub open spec fn cache_with(
    cache: Map<usize, Option<Cover>>,
    track: usize,
    cover: Option<Cover>,
) -> Map<usize, Option<Cover>> {
    if cache.len() > ART_CACHE_LIMIT {
        Map::<usize, Option<Cover>>::empty().insert(track, cover)
    } else {
        cache.insert(track, cover)
    }
}

/// What a picture's bytes decode to as a cover, if anything.
pub open spec fn decoded_as(data: Option<Seq<u8>>, cover: Option<Cover>) -> bool {
    match data {
        Some(d) => match cover {
            Some(c) => decoded_cover(d) == Some((c.width, c.height, c.rgba@)) && c.wf(),
            None => decoded_cover(d) is None,
        },
        None => cover is None,
    }
}

impl App {
    /// The track whose cover should be loaded now, if any.
    pub fn cover_to_load(&self) -> (r: Option<usize>)
        ensures
            r == cover_due(*self),
    {
        match self.display_idx() {
            Some(i) => if self.art_cache.contains_key(&i) {
                None
            } else {
                Some(i)
            },
            None => None,
        }
    }

    /// Caches `cover` as the cover of `track` (`None` when it has none),
    /// emptying the cache first once it holds more than `ART_CACHE_LIMIT`
    /// covers.
    pub fn store_cover(&mut self, track: usize, cover: Option<Cover>)
        requires
            old(self).wf(),
        ensures
            final(self).wf(),
            final(self).art_cache@ == cache_with(old(self).art_cache@, track, cover),
            unchanged(*old(self), *final(self)),
    {
        if self.art_cache.len() > ART_CACHE_LIMIT {
            self.art_cache.clear();
        }
        self.art_cache.insert(track, cover);
    }

    /// Decodes the picture embedded in the tags of `track` (`None` when
    /// there is none) and caches the cover it gives.
    pub fn load_cover(&mut self, track: usize, picture: Option<&[u8]>)
        requires
            old(self).wf(),
        ensures
            final(self).wf(),
            exists|cover: Option<Cover>|
                decoded_as(
                    match picture {
                        Some(d) => Some(d@),
                        None => None::<Seq<u8>>,
                    },
                    cover,
                ) && final(self).art_cache@ == cache_with(old(self).art_cache@, track, cover),
            unchanged(*old(self), *final(self)),
    {
        let cover = match picture {
            Some(d) => decode_cover(d),
            None => None,
        };
        self.store_cover(track, cover);
    }
}

/// The track a notification is due for: the loaded one, unless one was
/// already sent for it.
pub open spec fn notice_for(a: App) -> Option<usize> {
    match a.current {
        Some(i) => if a.notified != Some(i) {
            Some(i)
        } else {
            None::<usize>
        },
        None => None::<usize>,
    }
}

impl App {
    /// Moves on when the loaded track has run out (`finished`), by the repeat
    /// mode; does nothing otherwise.
    pub fn advance_if_finished(&mut self, finished: bool) -> (e: Effect)
        requires
            old(self).wf(),
        ensures
            final(self).wf(),
            (old(self).current is None || !finished) ==> only_effect(
                *old(self),
                *final(self),
                e,
                Effect::Nothing,
            ),
            (old(self).current is Some && finished) ==> advances(*old(self), *final(self), e),
    {
        if self.current.is_none() || !finished {
            return Effect::Nothing;
        }
        match self.repeat {
            Repeat::One => {
                match self.current_filtered_pos() {
                    Some(pos) => self.play_filtered_pos(pos),
                    None => Effect::Nothing,
                }
            },
            Repeat::All => self.next_track(),
            Repeat::Off => {
                let is_last = match self.current_filtered_pos() {
                    Some(p) => p + 1 >= self.filtered.len(),
                    None => true,
                };
                if is_last {
                    self.current = None;
                    self.status = status_text("End of library");
                    Effect::Clear
                } else {
                    self.next_track()
                }
            },
        }
    }

    /// Decides what the desktop's media integration is told, when there is
    /// one (`available`), given the engine's pause state, and remembers it so
    /// the desktop is only told about changes.
    pub fn sync_media(&mut self, available: bool, paused: bool) -> (u: MediaUpdate)
        requires
            old(self).wf(),
        ensures
            final(self).wf(),
            !available ==> u == MediaUpdate::Unchanged && unchanged(*old(self), *final(self)),
            available ==> u == media_update_for(*old(self), paused),
            available ==> final(self).media_last == old(self).current && (final(self).media_paused
                == if old(self).current is Some {
                Some(paused)
            } else if old(self).media_last is Some {
                None::<bool>
            } else {
                old(self).media_paused
            }),
            same_list(*old(self), *final(self)),
            same_playback(*old(self), *final(self)),
            final(self).should_quit == old(self).should_quit,
            final(self).confirm_quit == old(self).confirm_quit,
            final(self).notified == old(self).notified,
            final(self).status@ == old(self).status@,
    {
        if !available {
            return MediaUpdate::Unchanged;
        }
        match self.current {
            Some(i) => {
                let told_track = match self.media_last {
                    Some(m) => m == i,
                    None => false,
                };
                let told_pause = match self.media_paused {
                    Some(q) => q == paused,
                    None => false,
                };
                if !told_track || !told_pause {
                    self.media_last = Some(i);
                    self.media_paused = Some(paused);
                    MediaUpdate::NowPlaying { track: i, playing: !paused }
                } else {
                    MediaUpdate::Unchanged
                }
            },
            None => {
                if self.media_last.is_some() {
                    self.media_last = None;
                    self.media_paused = None;
                    MediaUpdate::Stopped
                } else {
                    MediaUpdate::Unchanged
                }
            },
        }
    }

    /// The track a notification should be sent for: the loaded one, once
    /// each time it changes.
    pub fn maybe_notify(&mut self) -> (r: Option<usize>)
        requires
            old(self).wf(),
        ensures
            final(self).wf(),
            r == notice_for(*old(self)),
            final(self).notified == old(self).current,
            same_list(*old(self), *final(self)),
            same_playback(*old(self), *final(self)),
            final(self).should_quit == old(self).should_quit,
            final(self).confirm_quit == old(self).confirm_quit,
            final(self).media_last == old(self).media_last,
            final(self).media_paused == old(self).media_paused,
            final(self).status@ == old(self).status@,
    {
        match self.current {
            Some(i) => {
                let told = match self.notified {
                    Some(n) => n == i,
                    None => false,
                };
                if !told {
                    self.notified = Some(i);
                    Some(i)
                } else {
                    None
                }
            },
            None => {
                self.notified = None;
                None
            },
        }
    }
}


// ---- re-reading the library ------------------------------------------------------

/// The paths of the tracks, in order.
pub open spec fn paths(ts: Seq<Track>) -> Seq<Seq<u8>> {
    ts.map_values(|t: Track| t.path@)
}

/// The paths of the listed tracks, in list order.
pub open spec fn listed_paths(ts: Seq<Track>, f: Seq<usize>) -> Seq<Seq<u8>> {
    f.map_values(|i: usize| ts[i as int].path@)
}

/// A position as a `usize`.
pub open spec fn as_index(o: Option<int>) -> Option<usize> {
    match o {
        Some(i) => Some(i as usize),
        None => None,
    }
}

/// The first track with path `p`.
fn find_path(ts: &Vec<Track>, p: &Vec<u8>) -> (r: Option<usize>)
    ensures
        r == as_index(first_index(paths(ts@), p@)),
{
    let mut i: usize = 0;
    while i < ts.len()
        invariant
            i <= ts.len(),
            forall|j: int| 0 <= j < i ==> paths(ts@)[j] != p@,
        decreases ts.len() - i,
    {
        if same_bytes(&ts[i].path, p) {
            proof {
                lemma_first_index_at(paths(ts@), p@, i as int);
            }
            return Some(i);
        }
        i = i + 1;
    }
    proof {
        lemma_first_index_absent(paths(ts@), p@);
    }
    None
}

/// The first position in the list `f` whose track has path `p`.
fn find_listed_path(ts: &Vec<Track>, f: &Vec<usize>, p: &Vec<u8>) -> (r: Option<usize>)
    requires
        forall|k: int| 0 <= k < f.len() ==> #[trigger] f@[k] < ts.len(),
    ensures
        r == as_index(first_index(listed_paths(ts@, f@), p@)),
{
    let mut i: usize = 0;
    while i < f.len()
        invariant
            i <= f.len(),
            forall|k: int| 0 <= k < f.len() ==> #[trigger] f@[k] < ts.len(),
            forall|j: int| 0 <= j < i ==> listed_paths(ts@, f@)[j] != p@,
        decreases f.len() - i,
    {
        if same_bytes(&ts[f[i]].path, p) {
            proof {
                lemma_first_index_at(listed_paths(ts@, f@), p@, i as int);
            }
            return Some(i);
        }
        i = i + 1;
    }
    proof {
        lemma_first_index_absent(listed_paths(ts@, f@), p@);
    }
    None
}

impl App {
    /// Replaces the library with a fresh scan (`tracks`) and the theme with
    /// a freshly loaded one, keeping the loaded and the highlighted track
    /// where they are found again by path.
    pub fn refresh(&mut self, tracks: Vec<Track>, theme: Theme)
        requires
            old(self).wf(),
            tracks.len() <= isize::MAX / 2,
        ensures
            final(self).wf(),
            final(self).tracks@ == tracks@,
            final(self).theme == theme,
            final(self).root@ == old(self).root@,
            final(self).mode == old(self).mode,
            final(self).query@ == old(self).query@,
            final(self).filtered@ == filter_of(tracks@, old(self).query@),
            final(self).current == (match old(self).current {
                Some(c) => as_index(first_index(paths(tracks@), old(self).tracks@[c as int].path@)),
                None => None,
            }),
            final(self).selected == (match old(self).highlighted_track() {
                Some(s) => match first_index(
                    listed_paths(tracks@, final(self).filtered@),
                    old(self).tracks@[s as int].path@,
                ) {
                    Some(k) => Some(k as usize),
                    None => if final(self).filtered.len() > 0 {
                        Some(0usize)
                    } else {
                        None::<usize>
                    },
                },
                None => if final(self).filtered.len() > 0 {
                    Some(0usize)
                } else {
                    None::<usize>
                },
            }),
            final(self).status@ == refreshed_status(tracks.len() as nat),
            final(self).pending is None,
            final(self).repeat == old(self).repeat,
            final(self).shuffle == old(self).shuffle,
            same_flags(*old(self), *final(self)),
            final(self).art_cache@ == Map::<usize, Option<Cover>>::empty(),
    {
        let playing = self.current;
        let highlighted = self.highlighted_track_idx();
        let mut old_tracks = tracks;
        std::mem::swap(&mut old_tracks, &mut self.tracks);
        self.art_cache.clear();
        self.theme = theme;
        self.pending = None;
        self.current = None;
        self.apply_filter();
        self.current = match playing {
            Some(i) => find_path(&self.tracks, &old_tracks[i].path),
            None => None,
        };
        proof {
            lemma_first_index(paths(self.tracks@), old_tracks@[playing.unwrap_or(0) as int].path@);
        }
        if let Some(s) = highlighted {
            if let Some(pos) = find_listed_path(&self.tracks, &self.filtered, &old_tracks[s].path) {
                proof {
                    lemma_first_index(listed_paths(self.tracks@, self.filtered@), old_tracks@[s as int].path@);
                }
                self.selected = Some(pos);
            }
        }
        let mut msg: Vec<char> = Vec::new();
        push_str(&mut msg, "Refreshed · ");
        push_decimal(&mut msg, self.tracks.len() as u64);
        push_str(&mut msg, " tracks");
        proof {
            assert(msg@ =~= refreshed_status(self.tracks.len() as nat));
        }
        self.status = string_of(&msg);
    }
}

} // verus!
