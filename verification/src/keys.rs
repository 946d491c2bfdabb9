//! The keyboard: which key does what, in the list and in the search field.

use vstd::prelude::*;

use crate::app::{
    all_indices, bottom_selection, same_flags, same_playback, filter_of, moved_selection, only_selection, plays_next,
    plays_prev, plays_selected, quits, repeat_cycled, search_entered, seek_target,
    shuffle_toggled, top_selection, unchanged, App, Effect, Mode, MAX_SPAN_NANOS, NANOS_PER_SEC,
};

verus! {

/// A key press, as far as the player tells keys apart.
#[derive(Clone, Copy, PartialEq, Eq, Debug)]
pub enum Key {
    Char(char),
    Up,
    Down,
    Left,
    Right,
    PageUp,
    PageDown,
    Enter,
    Esc,
    Backspace,
    Other,
}

/// How far a seek key moves, in seconds.
pub const SEEK_STEP_SECS: i64 = 5;

/// How far a page key moves the highlight.
pub const PAGE_STEP: isize = 10;

/// The key seeks forward (Right or `l`).
pub open spec fn seeks_forward(key: Key) -> bool {
    key == Key::Right || key == Key::Char('l')
}

/// What a key does in the list (`ctrl` tells whether Control was held;
/// `position` is how far into the loaded track the engine is).
pub open spec fn normal_key(a: App, b: App, key: Key, ctrl: bool, position: int, e: Effect) -> bool {
    match key {
        Key::Char('q') | Key::Esc => quits(a, b) && e == Effect::Nothing,
        Key::Char('c') if ctrl => quits(a, b) && e == Effect::Nothing,
        Key::Down | Key::Char('j') => only_selection(a, b, moved_selection(a, 1)) && e == Effect::Nothing,
        Key::Up | Key::Char('k') => only_selection(a, b, moved_selection(a, -1)) && e == Effect::Nothing,
        Key::Char('g') => only_selection(a, b, top_selection(a)) && e == Effect::Nothing,
        Key::Char('G') => only_selection(a, b, bottom_selection(a)) && e == Effect::Nothing,
        Key::PageDown => only_selection(a, b, moved_selection(a, 10)) && e == Effect::Nothing,
        Key::PageUp => only_selection(a, b, moved_selection(a, -10)) && e == Effect::Nothing,
        Key::Enter => plays_selected(a, b, e, false),
        Key::Char(' ') => if a.current is None {
            plays_selected(a, b, e, false)
        } else {
            e == Effect::TogglePause && unchanged(a, b)
        },
        Key::Char('n') => plays_next(a, b, e),
        Key::Char('b') | Key::Char('p') => plays_prev(a, b, e, position),
        Key::Right | Key::Char('l') => unchanged(a, b) && e == (if a.current is None {
            Effect::Nothing
        } else {
            Effect::Seek(seek_target(position, 5) as u128)
        }),
        Key::Left | Key::Char('h') => unchanged(a, b) && e == (if a.current is None {
            Effect::Nothing
        } else {
            Effect::Seek(seek_target(position, -5) as u128)
        }),
        Key::Char('+') | Key::Char('=') | Key::Char(']') => unchanged(a, b) && e == Effect::VolumeUp,
        Key::Char('-') | Key::Char('_') | Key::Char('[') => unchanged(a, b) && e
            == Effect::VolumeDown,
        Key::Char('s') => shuffle_toggled(a, b) && e == Effect::Nothing,
        Key::Char('r') => repeat_cycled(a, b) && e == Effect::Nothing,
        Key::Char('/') => search_entered(a, b) && e == Effect::Nothing,
        _ => unchanged(a, b) && e == Effect::Nothing,
    }
}

/// Acts on a key pressed while the list has the keyboard.
pub fn handle_normal(app: &mut App, key: Key, ctrl: bool, position_nanos: u128) -> (e: Effect)
    requires
        old(app).wf(),
        seeks_forward(key) ==> position_nanos + SEEK_STEP_SECS * NANOS_PER_SEC <= MAX_SPAN_NANOS,
        position_nanos <= MAX_SPAN_NANOS,
    ensures
        final(app).wf(),
        normal_key(*old(app), *final(app), key, ctrl, position_nanos as int, e),
{
    match key {
        Key::Char('q') | Key::Esc => {
            app.confirm_quit_now();
            Effect::Nothing
        },
        Key::Char('c') if ctrl => {
            app.confirm_quit_now();
            Effect::Nothing
        },
        Key::Down | Key::Char('j') => {
            app.move_selection(1);
            Effect::Nothing
        },
        Key::Up | Key::Char('k') => {
            app.move_selection(-1);
            Effect::Nothing
        },
        Key::Char('g') => {
            app.select_first();
            Effect::Nothing
        },
        Key::Char('G') => {
            app.select_last();
            Effect::Nothing
        },
        Key::PageDown => {
            app.move_selection(PAGE_STEP);
            Effect::Nothing
        },
        Key::PageUp => {
            app.move_selection(-PAGE_STEP);
            Effect::Nothing
        },
        Key::Enter => app.play_selected(),
        Key::Char(' ') => app.toggle_pause(),
        Key::Char('n') => app.next_track(),
        Key::Char('b') | Key::Char('p') => app.prev_track(position_nanos),
        Key::Right | Key::Char('l') => app.seek_relative(SEEK_STEP_SECS, position_nanos),
        Key::Left | Key::Char('h') => app.seek_relative(-SEEK_STEP_SECS, position_nanos),
        Key::Char('+') | Key::Char('=') | Key::Char(']') => Effect::VolumeUp,
        Key::Char('-') | Key::Char('_') | Key::Char('[') => Effect::VolumeDown,
        Key::Char('s') => {
            app.toggle_shuffle();
            Effect::Nothing
        },
        Key::Char('r') => {
            app.cycle_repeat();
            Effect::Nothing
        },
        Key::Char('/') => {
            app.enter_search();
            Effect::Nothing
        },
        _ => Effect::Nothing,
    }
}

/// What a key does in the search field: Esc leaves it and clears the query
/// (listing the whole library), Enter leaves it keeping the query, Backspace
/// deletes a character, any other character is typed; the library and
/// playback are left alone.
pub open spec fn search_key(a: App, b: App, key: Key) -> bool {
    let first = if b.filtered.len() > 0 {
        Some(0usize)
    } else {
        None::<usize>
    };
    &&& key == Key::Esc ==> b.mode == Mode::Normal && b.query@.len() == 0 && b.filtered@
        == all_indices(a.tracks.len() as nat) && b.selected == first
    &&& key == Key::Enter ==> b.mode == Mode::Normal && b.query@ == a.query@ && b.filtered@
        == a.filtered@ && b.selected == a.selected
    &&& key == Key::Backspace ==> b.mode == a.mode && b.query@ == (if a.query@.len() > 0 {
        a.query@.drop_last()
    } else {
        a.query@
    }) && b.filtered@ == filter_of(a.tracks@, b.query@) && b.selected == first
    &&& key matches Key::Char(c) ==> b.mode == a.mode && b.query@ == a.query@.push(c)
        && b.filtered@ == filter_of(a.tracks@, a.query@.push(c)) && b.selected == first
    &&& !(key is Esc || key is Enter || key is Backspace || key is Char) ==> unchanged(a, b)
    &&& b.root@ == a.root@
    &&& b.theme == a.theme
    &&& b.tracks@ == a.tracks@
    &&& same_playback(a, b)
    &&& same_flags(a, b)
    &&& b.status@ == a.status@
}

/// Acts on a key pressed while the search field has the keyboard.
pub fn handle_search(app: &mut App, key: Key)
    requires
        old(app).wf(),
    ensures
        final(app).wf(),
        search_key(*old(app), *final(app), key),
{
    match key {
        Key::Esc => app.exit_search(false),
        Key::Enter => app.exit_search(true),
        Key::Backspace => app.search_backspace(),
        Key::Char(c) => app.search_push(c),
        _ => {},
    }
}

/// Acts on a key by the mode the player is in.
pub fn handle_key(app: &mut App, key: Key, ctrl: bool, position_nanos: u128) -> (e: Effect)
    requires
        old(app).wf(),
        old(app).mode == Mode::Normal && seeks_forward(key) ==> position_nanos + SEEK_STEP_SECS
            * NANOS_PER_SEC <= MAX_SPAN_NANOS,
        position_nanos <= MAX_SPAN_NANOS,
    ensures
        final(app).wf(),
        old(app).mode == Mode::Normal ==> normal_key(
            *old(app),
            *final(app),
            key,
            ctrl,
            position_nanos as int,
            e,
        ),
        old(app).mode == Mode::Search ==> e == Effect::Nothing && search_key(*old(app), *final(app), key),
{
    match app.mode {
        Mode::Normal => handle_normal(app, key, ctrl, position_nanos),
        Mode::Search => {
            handle_search(app, key);
            Effect::Nothing
        },
    }
}

} // verus!
