//! What the screen shows, as text and sizes: time stamps, truncated and
//! padded columns, panel sizes, and the labels of the panels. Drawing the
//! result is left to the terminal front end.

use vstd::prelude::*;

use crate::app::{repeat_name, Repeat, MAX_SPAN_NANOS, NANOS_PER_SEC};
use crate::library::Track;
use crate::text::{
    char_vec, decimal, pad_left, pad_left_vec, push_decimal, push_repeat, push_str, push_vec,
    repeat_char, signed_decimal, signed_decimal_vec, string_of, sub_vec,
};

verus! {

// ---- time stamps ---------------------------------------------------------------

/// `m:ss` for a span of `nanos` nanoseconds: whole minutes, a colon, and the
/// remaining whole seconds as two digits.
pub open spec fn clock(nanos: int) -> Seq<char> {
    let secs = nanos / 1_000_000_000;
    decimal((secs / 60) as nat) + seq![':'] + pad_left(decimal((secs % 60) as nat), 2, '0')
}

/// Formats a play time as `m:ss`.
pub fn fmt_dur(nanos: u128) -> (s: String)
    requires
        nanos <= MAX_SPAN_NANOS,
    ensures
        s@ == clock(nanos as int),
{
    let v = clock_vec(nanos);
    string_of(&v)
}

fn clock_vec(nanos: u128) -> (v: Vec<char>)
    requires
        nanos <= MAX_SPAN_NANOS,
    ensures
        v@ == clock(nanos as int),
{
    let secs: u128 = nanos / NANOS_PER_SEC;
    assert(secs <= u64::MAX);
    let secs: u64 = secs as u64;
    let mut v: Vec<char> = Vec::new();
    push_decimal(&mut v, secs / 60);
    v.push(':');
    let ss = pad_left_vec(&crate::text::decimal_vec(secs % 60), 2, '0');
    push_vec(&mut v, &ss);
    proof {
        assert(v@ =~= clock(nanos as int));
    }
    v
}

// ---- fitting text into columns ---------------------------------------------------

/// `s` cut to `width` characters, its last kept character replaced by an
/// ellipsis when it was too long; nothing for a width of zero.
pub open spec fn truncated(s: Seq<char>, width: nat) -> Seq<char> {
    if width == 0 {
        Seq::empty()
    } else if s.len() > width {
        s.take(width - 1).push('…')
    } else {
        s
    }
}

/// `s` made exactly `width` characters long: truncated with an ellipsis, or
/// padded with spaces on the right.
pub open spec fn padded(s: Seq<char>, width: nat) -> Seq<char> {
    if s.len() > width {
        truncated(s, width)
    } else {
        s + repeat_char(' ', (width - s.len()) as nat)
    }
}

/// Truncates `s` to `width` characters with an ellipsis; no padding.
pub fn trunc(s: &str, width: usize) -> (r: String)
    ensures
        r@ == truncated(s@, width as nat),
{
    let v = char_vec(s);
    let t = trunc_vec(&v, width);
    string_of(&t)
}

fn trunc_vec(v: &Vec<char>, width: usize) -> (r: Vec<char>)
    ensures
        r@ == truncated(v@, width as nat),
{
    if width == 0 {
        return Vec::new();
    }
    if v.len() > width {
        let mut out = sub_vec(v, 0, width - 1);
        out.push('…');
        proof {
            assert(v@.subrange(0, width - 1) =~= v@.take(width - 1));
        }
        out
    } else {
        sub_vec(v, 0, v.len())
    }
}

/// Truncates (with an ellipsis) or right-pads with spaces to exactly `width`
/// characters.
pub fn pad_trunc(s: &str, width: usize) -> (r: String)
    ensures
        r@ == padded(s@, width as nat),
        r@.len() == width,
{
    let v = char_vec(s);
    let count = v.len();
    if count > width {
        let t = trunc_vec(&v, width);
        string_of(&t)
    } else {
        let mut out = sub_vec(&v, 0, count);
        push_repeat(&mut out, ' ', width - count);
        proof {
            assert(v@.subrange(0, count as int) =~= v@);
        }
        string_of(&out)
    }
}

// ---- panel sizes ----------------------------------------------------------------

/// The width of the side panel (cover art, track info, visualizer) for a
/// body `width` columns wide: shown only when there is comfortable room.
pub fn side_panel_width(width: u16) -> (w: u16)
    ensures
        w == (if width >= 100 {
            42u16
        } else if width >= 78 {
            34u16
        } else {
            0u16
        }),
{
    if width >= 100 {
        42
    } else if width >= 78 {
        34
    } else {
        0
    }
}

/// `x` held between `lo` and `hi`.
pub open spec fn clamped(x: int, lo: int, hi: int) -> int {
    if x < lo {
        lo
    } else if x > hi {
        hi
    } else {
        x
    }
}

/// The title and artist column widths of the library list for an area
/// `width` columns wide: 9/20 and 6/20 of the room inside the borders,
/// held between 14 and 64, and between 8 and 40.
pub fn list_columns(width: u16) -> (r: (usize, usize))
    ensures
        r.0 == clamped((if width >= 4 { width - 4 } else { 0 }) * 9 / 20, 14, 64),
        r.1 == clamped((if width >= 4 { width - 4 } else { 0 }) * 6 / 20, 8, 40),
{
    let avail: usize = if width >= 4 {
        (width - 4) as usize
    } else {
        0
    };
    let t = avail * 9 / 20;
    let a = avail * 6 / 20;
    let title_w = if t < 14 {
        14
    } else if t > 64 {
        64
    } else {
        t
    };
    let artist_w = if a < 8 {
        8
    } else if a > 40 {
        40
    } else {
        a
    };
    (title_w, artist_w)
}

/// The cover's share of an info panel `h` rows high and `w` wide.
pub open spec fn art_rows_for(h: int, w: int) -> int {
    let left = if h >= 5 {
        h - 5
    } else {
        0
    };
    if left <= w / 2 {
        left
    } else {
        w / 2
    }
}

/// The rows of the info panel given to the cover: what the five text rows
/// leave, but no more than half the width (a cell is about twice as tall as
/// it is wide).
pub fn art_rows(height: u16, width: u16) -> (r: u16)
    ensures
        r == art_rows_for(height as int, width as int),
{
    let left: u16 = if height >= 5 {
        height - 5
    } else {
        0
    };
    let half: u16 = width / 2;
    if left <= half {
        left
    } else {
        half
    }
}

/// The columns the cover takes in an area `height` rows high and `width`
/// columns wide (two columns per row, so a square cover stays square), and
/// how far from the area's left edge it starts so that it is centred.
pub fn cover_columns(height: u16, width: u16) -> (r: (u16, u16))
    requires
        height * 2 <= u16::MAX,
    ensures
        r.0 == (if height * 2 <= width {
            height * 2
        } else {
            width as int
        }),
        r.1 == (width - r.0) / 2,
{
    let cols: u16 = if height * 2 <= width {
        height * 2
    } else {
        width
    };
    (cols, (width - cols) / 2)
}

/// The spectrum band shown in column `col` of `cols`, out of `bands`.
pub fn band_for_column(col: usize, bands: usize, cols: usize) -> (b: usize)
    requires
        cols > 0,
        col < cols,
        bands > 0,
        col * bands <= usize::MAX,
    ensures
        b as int == (col as int * bands as int) / (cols as int),
        b < bands,
{
    assert(col * bands < cols * bands) by (nonlinear_arith)
        requires
            col < cols,
            bands > 0,
    ;
    assert((col as int * bands as int) / (cols as int) < bands) by (nonlinear_arith)
        requires
            col * bands < cols * bands,
            cols > 0,
    ;
    col * bands / cols
}

/// How many eighths of the cell `row` rows above the bottom a bar of
/// `eighths` eighth-rows fills (0 to 8).
pub fn bar_fill(eighths: u32, row: u32) -> (f: usize)
    requires
        row <= u32::MAX / 8,
    ensures
        f == (if eighths >= row * 8 {
            if eighths - row * 8 <= 8 {
                eighths - row * 8
            } else {
                8
            }
        } else {
            0
        }),
        f <= 8,
{
    let base: u32 = row * 8;
    let over: u32 = if eighths >= base {
        eighths - base
    } else {
        0
    };
    if over <= 8 {
        over as usize
    } else {
        8
    }
}

// ---- labels ------------------------------------------------------------------

/// The marker in front of a list row: a pause or play sign on the loaded
/// track, blank otherwise.
pub fn row_marker(is_current: bool, paused: bool) -> (s: &'static str)
    ensures
        s@ == (if is_current {
            if paused {
                "⏸ "@
            } else {
                "▶ "@
            }
        } else {
            "  "@
        }),
{
    if is_current {
        if paused {
            "⏸ "
        } else {
            "▶ "
        }
    } else {
        "  "
    }
}

/// The duration column of a list row: the play time right-aligned in six
/// characters.
pub fn duration_cell(nanos: u128) -> (s: String)
    requires
        nanos <= MAX_SPAN_NANOS,
    ensures
        s@ == pad_left(clock(nanos as int), 6, ' '),
{
    let c = clock_vec(nanos);
    let v = pad_left_vec(&c, 6, ' ');
    string_of(&v)
}

/// The title of the library box: ` library · <count> `.
pub fn library_title(count: usize) -> (s: String)
    ensures
        s@ == " library · "@ + decimal(count as nat) + seq![' '],
{
    let mut v: Vec<char> = Vec::new();
    push_str(&mut v, " library · ");
    push_decimal(&mut v, count as u64);
    v.push(' ');
    string_of(&v)
}

/// `pos / dur`, both as `m:ss`.
pub open spec fn progress_text(pos: int, dur: int) -> Seq<char> {
    clock(pos) + " / "@ + clock(dur)
}

/// The play position against the track's length, as `m:ss / m:ss`.
pub fn progress_label(pos_nanos: u128, dur_nanos: u128) -> (s: String)
    requires
        pos_nanos <= MAX_SPAN_NANOS,
        dur_nanos <= MAX_SPAN_NANOS,
    ensures
        s@ == progress_text(pos_nanos as int, dur_nanos as int),
{
    let mut v = clock_vec(pos_nanos);
    push_str(&mut v, " / ");
    let d = clock_vec(dur_nanos);
    push_vec(&mut v, &d);
    string_of(&v)
}

/// The label under the progress bar:
/// `m:ss / m:ss   vol N%   shuffle on|off   repeat off|all|one`.
pub open spec fn now_playing_text(
    pos: int,
    dur: int,
    volume_percent: int,
    shuffle: bool,
    repeat: Repeat,
) -> Seq<char> {
    progress_text(pos, dur) + "   vol "@ + signed_decimal(volume_percent) + "%   shuffle "@ + (
    if shuffle {
        "on"@
    } else {
        "off"@
    }) + "   repeat "@ + repeat_name(repeat)
}

/// The label under the progress bar, for a volume already given in percent.
pub fn now_playing_label(
    pos_nanos: u128,
    dur_nanos: u128,
    volume_percent: i32,
    shuffle: bool,
    repeat: Repeat,
) -> (s: String)
    requires
        pos_nanos <= MAX_SPAN_NANOS,
        dur_nanos <= MAX_SPAN_NANOS,
    ensures
        s@ == now_playing_text(
            pos_nanos as int,
            dur_nanos as int,
            volume_percent as int,
            shuffle,
            repeat,
        ),
{
    let mut v = clock_vec(pos_nanos);
    push_str(&mut v, " / ");
    let d = clock_vec(dur_nanos);
    push_vec(&mut v, &d);
    push_str(&mut v, "   vol ");
    let vol = signed_decimal_vec(volume_percent);
    push_vec(&mut v, &vol);
    push_str(&mut v, "%   shuffle ");
    if shuffle {
        push_str(&mut v, "on");
    } else {
        push_str(&mut v, "off");
    }
    push_str(&mut v, "   repeat ");
    push_str(&mut v, repeat.label());
    proof {
        assert(v@ =~= now_playing_text(
            pos_nanos as int,
            dur_nanos as int,
            volume_percent as int,
            shuffle,
            repeat,
        ));
    }
    string_of(&v)
}

/// The line of the track list printed by `--scan`:
/// two spaces, the minutes right-aligned in two columns, a colon, two-digit
/// seconds, then title, artist and `[album]` separated by wide gaps.
pub open spec fn scan_text(t: Track) -> Seq<char> {
    let secs = t.duration_nanos / 1_000_000_000;
    "  "@ + pad_left(decimal((secs / 60) as nat), 2, ' ') + seq![':'] + pad_left(
        decimal((secs % 60) as nat),
        2,
        '0',
    ) + "  "@ + t.title@ + "  —  "@ + t.artist@ + "  ["@ + t.album@ + seq![']']
}

/// One line of the `--scan` listing.
pub fn scan_line(t: &Track) -> (s: String)
    requires
        t.duration_nanos <= MAX_SPAN_NANOS,
    ensures
        s@ == scan_text(*t),
{
    let secs: u128 = t.duration_nanos / NANOS_PER_SEC;
    assert(secs <= u64::MAX);
    let secs: u64 = secs as u64;
    let mut v: Vec<char> = Vec::new();
    push_str(&mut v, "  ");
    let m = pad_left_vec(&crate::text::decimal_vec(secs / 60), 2, ' ');
    push_vec(&mut v, &m);
    v.push(':');
    let ss = pad_left_vec(&crate::text::decimal_vec(secs % 60), 2, '0');
    push_vec(&mut v, &ss);
    push_str(&mut v, "  ");
    push_vec(&mut v, &char_vec(t.title.as_str()));
    push_str(&mut v, "  —  ");
    push_vec(&mut v, &char_vec(t.artist.as_str()));
    push_str(&mut v, "  [");
    push_vec(&mut v, &char_vec(t.album.as_str()));
    v.push(']');
    proof {
        assert(v@ =~= scan_text(*t));
    }
    string_of(&v)
}


/// The centred square of a `w` by `h` picture that the cover shows: its left
/// and top offsets and its side.
pub fn square_crop(w: u32, h: u32) -> (r: (u32, u32, u32))
    ensures
        r.2 == (if w <= h {
            w
        } else {
            h
        }),
        r.0 == (w - r.2) / 2,
        r.1 == (h - r.2) / 2,
{
    let side = if w <= h {
        w
    } else {
        h
    };
    ((w - side) / 2, (h - side) / 2, side)
}

} // verus!
