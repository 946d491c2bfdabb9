//! Properties of the player that span several operations.

use vstd::prelude::*;

use crate::app::{
    advances, as_index, cache_with, cover_due, filter_of, lemma_matching, loads, matching,
    media_update_for, moved_selection, next_pos, notice_for, only_selection, paths, plays_next,
    plays_prev, prev_pos, repeat_after, same_list, selection_or_top, shuffle_toggled,
    track_matches, unchanged, ART_CACHE_LIMIT, App, Effect, PendingLoad, RESTART_AFTER_NANOS,
    Repeat,
};
use crate::art::Cover;
use crate::keys::{normal_key, Key};
use crate::library::{chars_before, sort_key, stable_sorted_by, Track};
use crate::media::MediaUpdate;
use crate::seqs::{first_index, increasing, lemma_first_index, lemma_first_index_at};
use crate::text::{
    has_substring, lead, lemma_substring_shorter, lowercase, trail, white_space, Strip,
};
use crate::theme::{
    ansi_theme, entries_of, hex_body, hex_byte, hex_color, hex_digit, lookup, omarchy_theme, Color,
    Entry, Theme,
};
use crate::ui::truncated;

verus! {

/// In a strictly increasing list, an entry's first position is where it stands.
pub proof fn lemma_position_in_increasing(s: Seq<usize>, k: int)
    requires
        increasing(s),
        0 <= k < s.len(),
    ensures
        first_index(s, s[k]) == Some(k),
{
    assert forall|j: int| 0 <= j < k implies s[j] != s[k] by {}
    lemma_first_index_at(s, s[k], k);
}

/// Cycling the repeat mode three times comes back to where it started, and
/// the three modes of the cycle differ.
pub proof fn law_repeat_cycle(r: Repeat)
    ensures
        repeat_after(repeat_after(repeat_after(r))) == r,
        repeat_after(r) != r,
        repeat_after(repeat_after(r)) != r,
{
}

/// Moving the highlight some places and then as many places back returns
/// it to where it was.
pub proof fn law_move_and_back(a: App, b: App, c: App, d: int)
    requires
        a.wf(),
        a.selected is Some,
        only_selection(a, b, moved_selection(a, d)),
        only_selection(b, c, moved_selection(b, -d)),
    ensures
        c.selected == a.selected,
{
    let len = a.filtered.len() as int;
    let p = selection_or_top(a);
    let q = (p + d) / len;
    let r = (p + d) % len;
    vstd::arithmetic::div_mod::lemma_fundamental_div_mod(p + d, len);
    assert(0 <= r < len) by {
        vstd::arithmetic::div_mod::lemma_mod_bound(p + d, len);
    }
    assert(r + (-d) == len * (-q) + p) by (nonlinear_arith)
        requires
            p + d == len * q + r,
    ;
    vstd::arithmetic::div_mod::lemma_mod_multiples_vanish(-q, p, len);
    vstd::arithmetic::div_mod::lemma_small_mod(p as nat, len as nat);
}

/// Typing a character into the search field and deleting it again restores
/// the query and the list.
pub proof fn law_type_and_delete(a: App, b: App, c: App, ch: char)
    requires
        a.wf(),
        b.tracks@ == a.tracks@,
        b.query@ == a.query@.push(ch),
        c.tracks@ == b.tracks@,
        c.query@ == (if b.query@.len() > 0 {
            b.query@.drop_last()
        } else {
            b.query@
        }),
        c.filtered@ == filter_of(b.tracks@, c.query@),
    ensures
        c.query@ == a.query@,
        c.filtered@ == a.filtered@,
{
    assert(a.query@.push(ch).drop_last() =~= a.query@);
}

/// Without shuffle, "next" followed (once the next track has loaded) by
/// "previous" within the first three seconds asks for the track that was
/// playing before.
pub proof fn law_next_then_prev(
    a: App,
    b: App,
    c: App,
    d: App,
    e1: Effect,
    e2: Effect,
    position: int,
)
    requires
        a.wf(),
        !a.shuffle,
        a.current_pos() is Some,
        plays_next(a, b, e1),
        c.wf(),
        same_list(b, c),
        c.shuffle == b.shuffle,
        b.pending is Some,
        c.current == Some(b.pending.unwrap().track),
        plays_prev(c, d, e2, position),
        position <= RESTART_AFTER_NANOS,
    ensures
        e2 == Effect::Load(a.current.unwrap()),
{
    let len = a.filtered.len() as int;
    let p = a.current_pos().unwrap();
    lemma_first_index(a.filtered@, a.current.unwrap());
    let n = next_pos(a.current_pos(), len);
    if p + 1 < len {
        vstd::arithmetic::div_mod::lemma_small_mod((p + 1) as nat, len as nat);
    } else {
        vstd::arithmetic::div_mod::lemma_mod_self_0(len);
    }
    assert(0 <= n < len);
    lemma_position_in_increasing(a.filtered@, n);
    assert(c.current_pos() == Some(n));
    let back = prev_pos(c.current_pos(), len);
    if p + 1 < len {
        assert(n + len - 1 == p + len);
        vstd::arithmetic::div_mod::lemma_mod_add_multiples_vanish(p, len);
        vstd::arithmetic::div_mod::lemma_small_mod(p as nat, len as nat);
    } else {
        vstd::arithmetic::div_mod::lemma_small_mod((len - 1) as nat, len as nat);
    }
    assert(back == p);
}

/// Without shuffle, "next" after the last listed track starts the list
/// over, and "next" from any other listed track goes one down the list.
pub proof fn law_next_wraps(a: App, b: App, e: Effect)
    requires
        a.wf(),
        !a.shuffle,
        a.current_pos() is Some,
        plays_next(a, b, e),
    ensures
        a.current_pos() == Some(a.filtered.len() - 1) ==> e == Effect::Load(a.filtered@[0]),
        a.current_pos().unwrap() + 1 < a.filtered.len() ==> e == Effect::Load(
            a.filtered@[a.current_pos().unwrap() + 1],
        ),
{
    let len = a.filtered.len() as int;
    let p = a.current_pos().unwrap();
    lemma_first_index(a.filtered@, a.current.unwrap());
    if p + 1 < len {
        vstd::arithmetic::div_mod::lemma_small_mod((p + 1) as nat, len as nat);
    } else {
        vstd::arithmetic::div_mod::lemma_mod_self_0(len);
    }
}

/// With repeat one, a track that runs out is loaded again.
pub proof fn law_repeat_one_replays(a: App, b: App, e: Effect)
    requires
        a.wf(),
        a.repeat == Repeat::One,
        a.current_pos() is Some,
        advances(a, b, e),
    ensures
        e == Effect::Load(a.current.unwrap()),
        b.pending == Some(PendingLoad { track: a.current.unwrap(), report_pause: false }),
{
    lemma_first_index(a.filtered@, a.current.unwrap());
}

/// With repeat off, when the last listed track runs out, playback stops.
pub proof fn law_stops_after_last(a: App, b: App, e: Effect)
    requires
        a.wf(),
        a.repeat == Repeat::Off,
        a.current_pos() == Some(a.filtered.len() - 1),
        advances(a, b, e),
    ensures
        e == Effect::Clear,
        b.current is None,
        b.status@ == "End of library"@,
{
}

/// Switching shuffle twice leaves it as it was.
pub proof fn law_shuffle_twice(a: App, b: App, c: App)
    requires
        shuffle_toggled(a, b),
        shuffle_toggled(b, c),
    ensures
        c.shuffle == a.shuffle,
        c.current == a.current,
        c.repeat == a.repeat,
        same_list(a, c),
{
}

/// Once the desktop has been told about the playing state, telling it again
/// with the same pause state changes nothing.
pub proof fn law_media_settles(a: App, b: App, paused: bool)
    requires
        b.current == a.current,
        b.media_last == a.current,
        b.current is Some ==> b.media_paused == Some(paused),
    ensures
        media_update_for(b, paused) == MediaUpdate::Unchanged,
{
}

/// A notification is sent once per track: right after one was due, none is.
pub proof fn law_notify_once(a: App, b: App)
    requires
        b.current == a.current,
        b.notified == a.current,
    ensures
        notice_for(b) is None,
{
}

/// Across two notification checks, with anything in between that leaves the
/// notification memory alone, the second check notifies exactly when a track
/// is loaded that was not the one loaded at the first check: no repeat while
/// the same track stays loaded, while a new track, or the same one after a
/// stop, is notified again.
pub proof fn law_notify_on_change(a1: App, b1: App, a2: App)
    requires
        b1.notified == a1.current,
        a2.notified == b1.notified,
    ensures
        notice_for(a2) == (match a2.current {
            Some(i) => if a1.current != Some(i) {
                Some(i)
            } else {
                None::<usize>
            },
            None => None::<usize>,
        }),
{
}

/// Across two updates of the desktop's media integration (the first one
/// made with the integration present and the engine's pause state `p1`),
/// with anything in between that leaves what was told alone, the second
/// update tells the desktop about the loaded track exactly when the loaded
/// track or the pause state differs from the first update, and tells it that
/// playback stopped exactly when nothing is loaded any more after something
/// was.
pub proof fn law_media_on_change(a1: App, b1: App, p1: bool, a2: App, p2: bool)
    requires
        b1.media_last == a1.current,
        b1.media_paused == (if a1.current is Some {
            Some(p1)
        } else if a1.media_last is Some {
            None::<bool>
        } else {
            a1.media_paused
        }),
        a2.media_last == b1.media_last,
        a2.media_paused == b1.media_paused,
    ensures
        media_update_for(a2, p2) == (match a2.current {
            Some(i) => if a1.current != Some(i) || p1 != p2 {
                MediaUpdate::NowPlaying { track: i, playing: !p2 }
            } else {
                MediaUpdate::Unchanged
            },
            None => if a1.current is Some {
                MediaUpdate::Stopped
            } else {
                MediaUpdate::Unchanged
            },
        }),
{
}

/// A loaded track becomes the playing one when the engine reports success.
pub proof fn law_load_then_play(a: App, b: App, c: App, e: Effect, pos: int, report: bool)
    requires
        loads(a, b, e, pos, report),
        c.current == Some(b.pending.unwrap().track),
    ensures
        e == Effect::Load(c.current.unwrap()),
{
}

/// Re-reading the library keeps the playing track playing when its file is
/// still in the library: the new playing track has the same path.
pub proof fn law_refresh_keeps_playing(old_tracks: Seq<Track>, c: usize, tracks: Seq<Track>, j: int)
    requires
        c < old_tracks.len(),
        tracks.len() <= usize::MAX,
        0 <= j < tracks.len(),
        tracks[j].path@ == old_tracks[c as int].path@,
    ensures
        as_index(first_index(paths(tracks), old_tracks[c as int].path@)) matches Some(i)
            && i < tracks.len() && tracks[i as int].path@ == old_tracks[c as int].path@,
{
    let ps = paths(tracks);
    let p = old_tracks[c as int].path@;
    assert(ps[j] == p);
    lemma_first_index(ps, p);
    let k = first_index(ps, p).unwrap();
    assert(ps[k] == tracks[k].path@);
}


/// A truncated text never exceeds its width, and a text that fits is left
/// as it is.
pub proof fn law_trunc_fits(s: Seq<char>, width: nat)
    ensures
        truncated(s, width).len() <= width,
        0 < width && s.len() <= width ==> truncated(s, width) == s,
{
}

/// In the colours file a later line for a key overrides earlier ones, and
/// leaves the other keys alone.
pub proof fn law_later_line_wins(es: Seq<Entry>, key: Seq<char>, value: Seq<char>, other: Seq<char>)
    ensures
        lookup(es.push((key, value)), key) == Some(value),
        other != key ==> lookup(es.push((key, value)), other) == lookup(es, other),
{
    assert(es.push((key, value)).drop_last() =~= es);
}

/// The lower-case hexadecimal digit for `d`.
pub open spec fn hex_char(d: u8) -> char {
    if d == 0 {
        '0'
    } else if d == 1 {
        '1'
    } else if d == 2 {
        '2'
    } else if d == 3 {
        '3'
    } else if d == 4 {
        '4'
    } else if d == 5 {
        '5'
    } else if d == 6 {
        '6'
    } else if d == 7 {
        '7'
    } else if d == 8 {
        '8'
    } else if d == 9 {
        '9'
    } else if d == 10 {
        'a'
    } else if d == 11 {
        'b'
    } else if d == 12 {
        'c'
    } else if d == 13 {
        'd'
    } else if d == 14 {
        'e'
    } else {
        'f'
    }
}

/// `#rrggbb` for a colour, in lower-case hexadecimal.
pub open spec fn hex_text(r: u8, g: u8, b: u8) -> Seq<char> {
    seq![
        '#',
        hex_char(r / 16),
        hex_char(r % 16),
        hex_char(g / 16),
        hex_char(g % 16),
        hex_char(b / 16),
        hex_char(b % 16),
    ]
}

proof fn lemma_hex_char(d: u8)
    requires
        d < 16,
    ensures
        hex_digit(hex_char(d)) == Some(d),
        hex_char(d) != '+',
        hex_char(d) != '#',
        (hex_char(d) as int) < 0x80,
        !white_space(hex_char(d)),
{
}

proof fn lemma_hex_byte(v: u8)
    ensures
        hex_byte(hex_char(v / 16), hex_char(v % 16)) == Some(v),
{
    lemma_hex_char(v / 16);
    lemma_hex_char(v % 16);
    assert((v / 16) * 16 + v % 16 == v);
}

/// A colour written as `#rrggbb` reads back as that colour.
pub proof fn law_hex_round_trip(r: u8, g: u8, b: u8)
    ensures
        hex_color(hex_text(r, g, b)) == Some(Color::Rgb(r, g, b)),
{
    let s = hex_text(r, g, b);
    lemma_hex_char(b % 16);
    assert(!white_space(s[0]));
    assert(!white_space(s[6]));
    assert(lead(s, Strip::Space) == 0);
    assert(s.last() == s[6]);
    assert(trail(s, Strip::Space) == 0);
    assert(s.skip(0) =~= s);
    assert(s.take(7) =~= s);
    lemma_hex_char(r / 16);
    lemma_hex_char(r % 16);
    lemma_hex_char(g / 16);
    lemma_hex_char(g % 16);
    lemma_hex_char(b / 16);
    lemma_hex_char(b % 16);
    let d = s.drop_first();
    assert(d[0] == hex_char(r / 16));
    assert(lead(d, Strip::Exactly('#')) == 0);
    assert(lead(s, Strip::Exactly('#')) == 1);
    let t = hex_body(s);
    assert(t =~= s.skip(1));
    lemma_hex_byte(r);
    lemma_hex_byte(g);
    lemma_hex_byte(b);
    assert(forall|i: int| 0 <= i < 6 ==> (t[i] as int) < 0x80);
}

/// Typing one more character into the (lower-cased) search only narrows the
/// list: every track listed after the keystroke was listed before it.
pub proof fn law_typing_narrows(ts: Seq<Track>, q: Seq<char>, x: char)
    requires
        ts.len() <= usize::MAX,
    ensures
        forall|k: usize|
            #[trigger] matching(ts, q.push(x), ts.len()).contains(k) ==> matching(
                ts,
                q,
                ts.len(),
            ).contains(k),
{
    let n = ts.len();
    lemma_matching(ts, q, n);
    lemma_matching(ts, q.push(x), n);
    assert forall|k: usize| #[trigger] matching(ts, q.push(x), n).contains(k) implies matching(
        ts,
        q,
        n,
    ).contains(k) by {
        let m = matching(ts, q.push(x), n);
        let j = choose|j: int| 0 <= j < m.len() && m[j] == k;
        assert(m[j] < n);
        let t = ts[k as int];
        assert(track_matches(t, q.push(x)));
        assert(track_matches(t, q)) by {
            if q.len() > 0 {
                if has_substring(lowercase(t.title@), q.push(x)) {
                    lemma_substring_shorter(lowercase(t.title@), q, x);
                } else if has_substring(lowercase(t.artist@), q.push(x)) {
                    lemma_substring_shorter(lowercase(t.artist@), q, x);
                } else {
                    lemma_substring_shorter(lowercase(t.album@), q, x);
                }
            }
        }
    }
}

/// The cover cache never holds more than `ART_CACHE_LIMIT + 1` covers:
/// caching one more keeps it within that bound.
pub proof fn law_cover_cache_bounded(
    cache: Map<usize, Option<Cover>>,
    track: usize,
    cover: Option<Cover>,
)
    requires
        cache.dom().finite(),
        cache.len() <= ART_CACHE_LIMIT + 1,
    ensures
        cache_with(cache, track, cover).len() <= ART_CACHE_LIMIT + 1,
        cache_with(cache, track, cover).dom().finite(),
{
    let empty = Map::<usize, Option<Cover>>::empty();
    assert(empty.dom() =~= Set::<usize>::empty());
}

/// A cover is loaded once: once the due cover is cached, no cover is due
/// until the shown track changes.
pub proof fn law_cover_loaded_once(a: App, b: App, track: usize, cover: Option<Cover>)
    requires
        cover_due(a) == Some(track),
        b.art_cache@ == cache_with(a.art_cache@, track, cover),
        unchanged(a, b),
    ensures
        cover_due(b) is None,
{
}

// ---- the library order ------------------------------------------------------

/// Text sorts before any longer text that extends it: a proper prefix comes
/// first ("queen" before "queens"), never after.
pub proof fn law_prefix_sorts_first(a: Seq<char>, b: Seq<char>)
    requires
        a.len() < b.len(),
        b.subrange(0, a.len() as int) =~= a,
    ensures
        chars_before(a, b),
        !chars_before(b, a),
    decreases a.len(),
{
    if a.len() > 0 {
        assert(b[0] == b.subrange(0, a.len() as int)[0]);
        assert(b.drop_first().subrange(0, a.drop_first().len() as int) =~= a.drop_first()) by {
            assert forall|k: int| 0 <= k < a.drop_first().len() implies #[trigger] b.drop_first().subrange(
                0,
                a.drop_first().len() as int,
            )[k] == a.drop_first()[k] by {
                assert(b.subrange(0, a.len() as int)[k + 1] == a[k + 1]);
            }
        }
        law_prefix_sorts_first(a.drop_first(), b.drop_first());
    }
}

/// Where two texts first differ, the one with the lower character there
/// sorts first.
pub proof fn law_first_difference_decides(a: Seq<char>, b: Seq<char>, i: int)
    requires
        0 <= i < a.len(),
        i < b.len(),
        a.subrange(0, i) =~= b.subrange(0, i),
        a[i] != b[i],
    ensures
        chars_before(a, b) <==> (a[i] as int) < (b[i] as int),
    decreases i,
{
    if i > 0 {
        assert(a[0] == a.subrange(0, i)[0]);
        assert(b[0] == b.subrange(0, i)[0]);
        assert(a.drop_first().subrange(0, i - 1) =~= b.drop_first().subrange(0, i - 1)) by {
            assert forall|k: int| 0 <= k < i - 1 implies #[trigger] a.drop_first().subrange(
                0,
                i - 1,
            )[k] == b.drop_first().subrange(0, i - 1)[k] by {
                assert(a.subrange(0, i)[k + 1] == b.subrange(0, i)[k + 1]);
            }
        }
        law_first_difference_decides(a.drop_first(), b.drop_first(), i - 1);
    }
}

/// In the sorted library, a track whose (lower-cased) artist is a proper
/// prefix of another track's artist is listed before it: "Queen" before
/// "Queens of the Stone Age".
pub proof fn law_library_prefix_first(s: Seq<Track>, r: Seq<Track>, perm: Seq<int>, x: int, y: int)
    requires
        stable_sorted_by(s, r, perm),
        0 <= x < r.len(),
        0 <= y < r.len(),
        lowercase(r[x].artist@).len() < lowercase(r[y].artist@).len(),
        lowercase(r[y].artist@).subrange(0, lowercase(r[x].artist@).len() as int)
            =~= lowercase(r[x].artist@),
    ensures
        x < y,
{
    law_prefix_sorts_first(lowercase(r[x].artist@), lowercase(r[y].artist@));
    assert(sort_key(r[x]).0 == lowercase(r[x].artist@));
    assert(sort_key(r[y]).0 == lowercase(r[y].artist@));
    if y < x {
        assert(!crate::library::key_before(sort_key(r[x]), sort_key(r[y])));
    }
}

// ---- the search ---------------------------------------------------------------

/// Every occurrence of the needle is found, wherever it stands in the text,
/// including at its very end (so a text contains itself and its suffixes).
pub proof fn law_occurrence_found(hay: Seq<char>, needle: Seq<char>, i: int)
    requires
        0 <= i,
        i + needle.len() <= hay.len(),
        hay.subrange(i, i + needle.len()) =~= needle,
    ensures
        has_substring(hay, needle),
{
    assert(crate::text::occurs_at(hay, needle, i));
}

/// Only occurrences are found: text holds a needle only where the needle
/// stands in it.
pub proof fn law_found_is_occurrence(hay: Seq<char>, needle: Seq<char>)
    requires
        has_substring(hay, needle),
    ensures
        exists|i: int|
            0 <= i && i + needle.len() <= hay.len() && #[trigger] hay.subrange(i, i + needle.len())
                == needle,
{
    let i = choose|i: int| crate::text::occurs_at(hay, needle, i);
    assert(hay.subrange(i, i + needle.len()) == needle);
}

/// A search lists every track whose lower-cased title, artist or album holds
/// the lower-cased query anywhere, the whole field included.
pub proof fn law_search_lists_matches(ts: Seq<Track>, q: Seq<char>, k: int, field: Seq<char>, i: int)
    requires
        ts.len() <= usize::MAX,
        0 <= k < ts.len(),
        field == lowercase(ts[k].title@) || field == lowercase(ts[k].artist@) || field
            == lowercase(ts[k].album@),
        0 <= i,
        i + lowercase(q).len() <= field.len(),
        field.subrange(i, i + lowercase(q).len()) =~= lowercase(q),
    ensures
        filter_of(ts, q).contains(k as usize),
{
    law_occurrence_found(field, lowercase(q), i);
    lemma_matching(ts, lowercase(q), ts.len());
    assert(track_matches(ts[k], lowercase(q)));
}

// ---- the theme ------------------------------------------------------------------

/// The colour written under `key` in a colours file: the value of the last
/// line for that key, when it is a valid `#rrggbb`.
pub open spec fn written(text: Seq<char>, key: Seq<char>) -> Option<Color> {
    match lookup(entries_of(text), key) {
        Some(v) => hex_color(v),
        None => None,
    }
}

/// The colour written under `key`, or `fallback` when none is.
pub open spec fn written_or(text: Seq<char>, key: Seq<char>, fallback: Color) -> Color {
    match written(text, key) {
        Some(c) => c,
        None => fallback,
    }
}

/// An omarchy palette takes each colour from its key in the colours file and
/// falls back, colour by colour, to the ANSI palette `d`; dim text uses
/// `color8`, and `color0` only when `color8` gives no valid colour.
pub proof fn law_theme_reads_colours(text: Seq<char>, t: Theme, d: Theme)
    requires
        omarchy_theme(text, t),
        ansi_theme(d),
    ensures
        t.source@ == "omarchy"@,
        t.accent == written_or(text, "accent"@, d.accent),
        t.fg == written_or(text, "foreground"@, d.fg),
        t.bg == written_or(text, "background"@, d.bg),
        t.dim == (match written(text, "color8"@) {
            Some(c) => c,
            None => written_or(text, "color0"@, d.dim),
        }),
        t.red == written_or(text, "color1"@, d.red),
        t.green == written_or(text, "color2"@, d.green),
        t.yellow == written_or(text, "color3"@, d.yellow),
        t.blue == written_or(text, "color4"@, d.blue),
        t.magenta == written_or(text, "color5"@, d.magenta),
        t.cyan == written_or(text, "color6"@, d.cyan),
{
}

/// A valid `color8` is the dim colour, whatever `color0` says.
pub proof fn law_dim_prefers_color8(text: Seq<char>, t: Theme, v: Seq<char>, c: Color)
    requires
        omarchy_theme(text, t),
        lookup(entries_of(text), "color8"@) == Some(v),
        hex_color(v) == Some(c),
    ensures
        t.dim == c,
{
}

// ---- the keys -------------------------------------------------------------------

/// With a track loaded, Right and `l` seek five seconds forward, and Left
/// and `h` five seconds back (not before the start).
pub proof fn law_seek_keys(a: App, b: App, key: Key, ctrl: bool, position: int, e: Effect)
    requires
        normal_key(a, b, key, ctrl, position, e),
        a.current is Some,
        0 <= position,
    ensures
        key == Key::Right || key == Key::Char('l') ==> e == Effect::Seek(
            (position + 5_000_000_000) as u128,
        ),
        key == Key::Left || key == Key::Char('h') ==> e == Effect::Seek(
            (if position >= 5_000_000_000 {
                position - 5_000_000_000
            } else {
                0
            }) as u128,
        ),
{
}

} // verus!
