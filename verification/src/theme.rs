//! The colour theme: the omarchy palette when one is configured, the
//! terminal's own ANSI colours otherwise.

use vstd::prelude::*;

use crate::text::{char_vec, trim_by, trim_start_by, trim_start_vec, trim_vec, trimmed, Strip};

verus! {

/// A colour as the interface draws it: one of the terminal's named ANSI
/// colours, the terminal's default (`Reset`), or an exact RGB value.
#[derive(Clone, Copy, PartialEq, Eq, Debug)]
pub enum Color {
    Reset,
    DarkGray,
    LightMagenta,
    Red,
    Green,
    Yellow,
    Blue,
    Magenta,
    Cyan,
    Rgb(u8, u8, u8),
}

/// The palette the interface is drawn with, and where it came from
/// (`"omarchy"` or `"ansi"`).
#[derive(Clone, Copy)]
pub struct Theme {
    pub accent: Color,
    pub fg: Color,
    pub bg: Color,
    pub dim: Color,
    pub red: Color,
    pub green: Color,
    pub yellow: Color,
    pub blue: Color,
    pub magenta: Color,
    pub cyan: Color,
    pub source: &'static str,
}

/// The ANSI fallback palette, which follows whatever the terminal uses.
pub open spec fn ansi_theme(t: Theme) -> bool {
    &&& t.accent == Color::LightMagenta
    &&& t.fg == Color::Reset
    &&& t.bg == Color::Reset
    &&& t.dim == Color::DarkGray
    &&& t.red == Color::Red
    &&& t.green == Color::Green
    &&& t.yellow == Color::Yellow
    &&& t.blue == Color::Blue
    &&& t.magenta == Color::Magenta
    &&& t.cyan == Color::Cyan
    &&& t.source@ == "ansi"@
}

impl Theme {
    /// The ANSI fallback palette.
    pub fn ansi() -> (t: Theme)
        ensures
            ansi_theme(t),
    {
        Theme {
            accent: Color::LightMagenta,
            fg: Color::Reset,
            bg: Color::Reset,
            dim: Color::DarkGray,
            red: Color::Red,
            green: Color::Green,
            yellow: Color::Yellow,
            blue: Color::Blue,
            magenta: Color::Magenta,
            cyan: Color::Cyan,
            source: "ansi",
        }
    }
}

impl Default for Theme {
    fn default() -> (t: Theme)
        ensures
            ansi_theme(t),
    {
        Theme::ansi()
    }
}


// ---- reading the omarchy palette -------------------------------------------------

/// A `key = value` line of the colours file, trimmed.
pub type Entry = (Seq<char>, Seq<char>);

/// A value with surrounding white space, then double quotes, then single
/// quotes removed.
pub open spec fn clean_value(v: Seq<char>) -> Seq<char> {
    trim_by(trim_by(trimmed(v), Strip::Exactly('"')), Strip::Exactly('\''))
}

/// The position of the first `=` in `s`, if any.
pub open spec fn first_eq(s: Seq<char>) -> Option<int>
    decreases s.len(),
{
    if s.len() == 0 {
        None
    } else if s[0] == '=' {
        Some(0)
    } else {
        match first_eq(s.drop_first()) {
            Some(i) => Some(i + 1),
            None => None,
        }
    }
}

/// What one line of the colours file contributes: nothing for a comment
/// (`#`), a section header (`[`) or a line without `=`; otherwise the
/// trimmed text before the first `=` as key and the cleaned text after it
/// as value.
pub open spec fn line_entry(line: Seq<char>) -> Seq<Entry> {
    let l = trimmed(line);
    if l.len() > 0 && (l[0] == '#' || l[0] == '[') {
        Seq::empty()
    } else {
        match first_eq(l) {
            Some(i) => seq![(trimmed(l.take(i)), clean_value(l.skip(i + 1)))],
            None => Seq::empty(),
        }
    }
}

/// Reading `s` up to its end: the entries of its complete lines (ended by
/// `\n`), and the text of the line still open.
pub open spec fn scan_lines(s: Seq<char>) -> (Seq<Entry>, Seq<char>)
    decreases s.len(),
{
    if s.len() == 0 {
        (Seq::empty(), Seq::empty())
    } else {
        let (es, cur) = scan_lines(s.drop_last());
        if s.last() == '\n' {
            (es + line_entry(cur), Seq::empty())
        } else {
            (es, cur.push(s.last()))
        }
    }
}

/// The entries of a colours file, line by line.
pub open spec fn entries_of(text: Seq<char>) -> Seq<Entry> {
    let (es, cur) = scan_lines(text);
    es + line_entry(cur)
}

/// The value of the last entry with key `key` (later lines override earlier ones).
pub open spec fn lookup(es: Seq<Entry>, key: Seq<char>) -> Option<Seq<char>>
    decreases es.len(),
{
    if es.len() == 0 {
        None
    } else if es.last().0 == key {
        Some(es.last().1)
    } else {
        lookup(es.drop_last(), key)
    }
}

/// The value of a hexadecimal digit.
pub open spec fn hex_digit(c: char) -> Option<u8> {
    if '0' <= c && c <= '9' {
        Some((c as int - '0' as int) as u8)
    } else if 'a' <= c && c <= 'f' {
        Some((c as int - 'a' as int + 10) as u8)
    } else if 'A' <= c && c <= 'F' {
        Some((c as int - 'A' as int + 10) as u8)
    } else {
        None
    }
}

/// Two characters read as a hexadecimal byte the way `u8::from_str_radix`
/// reads them: two digits, or `+` and one digit.
pub open spec fn hex_byte(a: char, b: char) -> Option<u8> {
    match hex_digit(b) {
        Some(lo) => if a == '+' {
            Some(lo)
        } else {
            match hex_digit(a) {
                Some(hi) => Some((hi * 16 + lo) as u8),
                None => None,
            }
        },
        None => None,
    }
}

/// The text of a colour value once trimmed and stripped of leading `#`s.
pub open spec fn hex_body(v: Seq<char>) -> Seq<char> {
    trim_start_by(trimmed(v), Strip::Exactly('#'))
}

/// A colour written as `#rrggbb` (white space around it and any number of
/// leading `#`s allowed), or nothing.
pub open spec fn hex_color(v: Seq<char>) -> Option<Color> {
    let t = hex_body(v);
    if t.len() == 6 && (forall|i: int| 0 <= i < 6 ==> (t[i] as int) < 0x80) {
        match (hex_byte(t[0], t[1]), hex_byte(t[2], t[3]), hex_byte(t[4], t[5])) {
            (Some(r), Some(g), Some(b)) => Some(Color::Rgb(r, g, b)),
            _ => None,
        }
    } else {
        None
    }
}

/// The number of bytes `c` takes in UTF-8.
pub open spec fn utf8_width(c: char) -> nat {
    if (c as int) < 0x80 {
        1
    } else if (c as int) < 0x800 {
        2
    } else if (c as int) < 0x10000 {
        3
    } else {
        4
    }
}

/// The number of bytes `s` takes in UTF-8.
pub open spec fn utf8_len(s: Seq<char>) -> nat
    decreases s.len(),
{
    if s.len() == 0 {
        0
    } else {
        utf8_len(s.drop_last()) + utf8_width(s.last())
    }
}

/// Byte offset `b` of `s` falls between two characters.
pub open spec fn char_boundary(s: Seq<char>, b: nat) -> bool {
    exists|k: int| 0 <= k <= s.len() && utf8_len(#[trigger] s.take(k)) == b
}

/// The first two characters of `t` are ASCII and read as a hexadecimal byte.
pub open spec fn first_pair_reads(t: Seq<char>) -> bool {
    &&& t.len() >= 2
    &&& (t[0] as int) < 0x80
    &&& (t[1] as int) < 0x80
    &&& hex_byte(t[0], t[1]) is Some
}

/// A colour value can be read without slicing inside a character. Only a
/// body six bytes long is sliced: at byte 2 first, and at byte 4 only when
/// the first pair reads as a byte (otherwise reading stops there).
pub open spec fn hex_sliceable(v: Seq<char>) -> bool {
    let t = hex_body(v);
    utf8_len(t) == 6 ==> char_boundary(t, 2) && (first_pair_reads(t) ==> char_boundary(t, 4))
}

/// The colour under `key`, when its value is a valid `#rrggbb`.
pub open spec fn color_for(es: Seq<Entry>, key: Seq<char>) -> Option<Color> {
    match lookup(es, key) {
        Some(v) => hex_color(v),
        None => None,
    }
}

/// A colour value under `key` that is read can be read safely.
pub open spec fn key_sliceable(es: Seq<Entry>, key: Seq<char>) -> bool {
    match lookup(es, key) {
        Some(v) => hex_sliceable(v),
        None => true,
    }
}

/// Every colour value that reading the theme looks at can be read safely.
pub open spec fn colors_sliceable(text: Seq<char>) -> bool {
    let es = entries_of(text);
    &&& key_sliceable(es, "accent"@)
    &&& key_sliceable(es, "foreground"@)
    &&& key_sliceable(es, "background"@)
    &&& key_sliceable(es, "color8"@)
    &&& (color_for(es, "color8"@) is None ==> key_sliceable(es, "color0"@))
    &&& key_sliceable(es, "color1"@)
    &&& key_sliceable(es, "color2"@)
    &&& key_sliceable(es, "color3"@)
    &&& key_sliceable(es, "color4"@)
    &&& key_sliceable(es, "color5"@)
    &&& key_sliceable(es, "color6"@)
}

/// `c`, or `fallback` when there is none.
pub open spec fn or_color(c: Option<Color>, fallback: Color) -> Color {
    match c {
        Some(x) => x,
        None => fallback,
    }
}

/// The omarchy palette described by a colours file: each colour comes
/// from its key when that holds a valid `#rrggbb`, and falls back to the
/// ANSI palette otherwise (`dim` tries `color8`, then `color0`).
pub open spec fn omarchy_theme(text: Seq<char>, t: Theme) -> bool {
    let es = entries_of(text);
    &&& t.accent == or_color(color_for(es, "accent"@), Color::LightMagenta)
    &&& t.fg == or_color(color_for(es, "foreground"@), Color::Reset)
    &&& t.bg == or_color(color_for(es, "background"@), Color::Reset)
    &&& t.dim == (match color_for(es, "color8"@) {
        Some(c) => c,
        None => or_color(color_for(es, "color0"@), Color::DarkGray),
    })
    &&& t.red == or_color(color_for(es, "color1"@), Color::Red)
    &&& t.green == or_color(color_for(es, "color2"@), Color::Green)
    &&& t.yellow == or_color(color_for(es, "color3"@), Color::Yellow)
    &&& t.blue == or_color(color_for(es, "color4"@), Color::Blue)
    &&& t.magenta == or_color(color_for(es, "color5"@), Color::Magenta)
    &&& t.cyan == or_color(color_for(es, "color6"@), Color::Cyan)
    &&& t.source@ == "omarchy"@
}


/// The entries as characters in place of vectors.
pub open spec fn entry_view(v: Seq<(Vec<char>, Vec<char>)>) -> Seq<Entry> {
    v.map_values(|e: (Vec<char>, Vec<char>)| (e.0@, e.1@))
}

fn find_eq(l: &Vec<char>) -> (r: Option<usize>)
    ensures
        match r {
            Some(i) => first_eq(l@) == Some(i as int) && i < l.len(),
            None => first_eq(l@) is None,
        },
{
    let mut i: usize = 0;
    proof {
        assert(l@.skip(0) =~= l@);
    }
    while i < l.len()
        invariant
            i <= l.len(),
            first_eq(l@) == (match first_eq(l@.skip(i as int)) {
                Some(j) => Some(j + i),
                None => None::<int>,
            }),
        decreases l.len() - i,
    {
        proof {
            assert(l@.skip(i as int)[0] == l@[i as int]);
            assert(l@.skip(i as int).drop_first() =~= l@.skip(i + 1));
        }
        if l[i] == '=' {
            return Some(i);
        }
        i = i + 1;
    }
    None
}

fn line_entry_exec(line: &Vec<char>) -> (r: Option<(Vec<char>, Vec<char>)>)
    ensures
        match r {
            Some(e) => line_entry(line@) == seq![(e.0@, e.1@)],
            None => line_entry(line@) == Seq::<Entry>::empty(),
        },
{
    let l = trim_vec(line, &Strip::Space);
    if l.len() > 0 && (l[0] == '#' || l[0] == '[') {
        return None;
    }
    match find_eq(&l) {
        Some(i) => {
            let k = crate::text::sub_vec(&l, 0, i);
            let key = trim_vec(&k, &Strip::Space);
            let v = crate::text::sub_vec(&l, i + 1, l.len());
            let v1 = trim_vec(&v, &Strip::Space);
            let v2 = trim_vec(&v1, &Strip::Exactly('"'));
            let value = trim_vec(&v2, &Strip::Exactly('\''));
            proof {
                assert(l@.subrange(0, i as int) =~= l@.take(i as int));
                assert(l@.subrange(i + 1, l.len() as int) =~= l@.skip(i + 1));
                assert(l@ == trimmed(line@));
                assert(first_eq(l@) == Some(i as int));
                assert(key@ == trimmed(l@.take(i as int)));
                assert(value@ == clean_value(l@.skip(i + 1)));
                assert(line_entry(line@) =~= seq![(key@, value@)]);
            }
            Some((key, value))
        },
        None => None,
    }
}

/// The entries of a colours file, line by line.
pub fn colors_entries(text: &str) -> (es: Vec<(Vec<char>, Vec<char>)>)
    ensures
        entry_view(es@) == entries_of(text@),
{
    let chars = char_vec(text);
    let mut es: Vec<(Vec<char>, Vec<char>)> = Vec::new();
    let mut cur: Vec<char> = Vec::new();
    let mut k: usize = 0;
    proof {
        assert(chars@.take(0) =~= Seq::<char>::empty());
    }
    while k < chars.len()
        invariant
            k <= chars.len(),
            (entry_view(es@), cur@) == scan_lines(chars@.take(k as int)),
        decreases chars.len() - k,
    {
        let c = chars[k];
        proof {
            assert(chars@.take(k + 1).drop_last() =~= chars@.take(k as int));
            assert(chars@.take(k + 1).last() == c);
        }
        if c == '\n' {
            match line_entry_exec(&cur) {
                Some(e) => {
                    let ghost before = es@;
                    es.push(e);
                    proof {
                        assert(entry_view(es@) =~= entry_view(before) + line_entry(cur@));
                    }
                },
                None => {
                    proof {
                        assert(entry_view(es@) =~= entry_view(es@) + line_entry(cur@));
                    }
                },
            }
            cur = Vec::new();
        } else {
            cur.push(c);
        }
        k = k + 1;
    }
    proof {
        assert(chars@.take(chars.len() as int) =~= chars@);
    }
    match line_entry_exec(&cur) {
        Some(e) => {
            let ghost before = es@;
            es.push(e);
            proof {
                assert(entry_view(es@) =~= entry_view(before) + line_entry(cur@));
            }
        },
        None => {
            proof {
                assert(entry_view(es@) =~= entry_view(es@) + line_entry(cur@));
            }
        },
    }
    es
}

/// The position of the last entry with key `key`.
fn last_with_key(es: &Vec<(Vec<char>, Vec<char>)>, key: &str) -> (r: Option<usize>)
    ensures
        match r {
            Some(i) => i < es.len() && lookup(entry_view(es@), key@) == Some(es@[i as int].1@),
            None => lookup(entry_view(es@), key@) is None,
        },
{
    let kv = char_vec(key);
    let mut n: usize = es.len();
    proof {
        assert(entry_view(es@).take(n as int) =~= entry_view(es@));
    }
    while n > 0
        invariant
            n <= es.len(),
            kv@ == key@,
            lookup(entry_view(es@), key@) == lookup(entry_view(es@).take(n as int), key@),
        decreases n,
    {
        let ghost pre = entry_view(es@).take(n as int);
        proof {
            assert(pre.last() == (es@[n - 1].0@, es@[n - 1].1@));
            assert(pre.drop_last() =~= entry_view(es@).take(n - 1));
        }
        if crate::text::same_chars(&es[n - 1].0, &kv) {
            return Some(n - 1);
        }
        n = n - 1;
    }
    None
}

fn hex_digit_exec(c: char) -> (r: Option<u8>)
    ensures
        r == hex_digit(c),
{
    if '0' <= c && c <= '9' {
        Some((c as u32 - '0' as u32) as u8)
    } else if 'a' <= c && c <= 'f' {
        Some((c as u32 - 'a' as u32 + 10) as u8)
    } else if 'A' <= c && c <= 'F' {
        Some((c as u32 - 'A' as u32 + 10) as u8)
    } else {
        None
    }
}

fn hex_byte_exec(a: char, b: char) -> (r: Option<u8>)
    ensures
        r == hex_byte(a, b),
{
    match hex_digit_exec(b) {
        Some(lo) => if a == '+' {
            Some(lo)
        } else {
            match hex_digit_exec(a) {
                Some(hi) => Some(hi * 16 + lo),
                None => None,
            }
        },
        None => None,
    }
}

fn hex_chars(v: &Vec<char>) -> (r: Option<Color>)
    ensures
        r == hex_color(v@),
{
    let t0 = trim_vec(v, &Strip::Space);
    let t = trim_start_vec(&t0, &Strip::Exactly('#'));
    if t.len() != 6 {
        return None;
    }
    let mut i: usize = 0;
    while i < 6
        invariant
            t.len() == 6,
            t@ == hex_body(v@),
            i <= 6,
            forall|j: int| 0 <= j < i ==> (t@[j] as int) < 0x80,
        decreases 6 - i,
    {
        if t[i] > '\x7f' {
            proof {
                assert(!((t@[i as int] as int) < 0x80));
            }
            return None;
        }
        i = i + 1;
    }
    match (hex_byte_exec(t[0], t[1]), hex_byte_exec(t[2], t[3]), hex_byte_exec(t[4], t[5])) {
        (Some(r), Some(g), Some(b)) => Some(Color::Rgb(r, g, b)),
        _ => None,
    }
}

/// Reads a colour written as `#rrggbb`.
pub fn hex(s: &str) -> (r: Option<Color>)
    requires
        hex_sliceable(s@),
    ensures
        r == hex_color(s@),
{
    let v = char_vec(s);
    hex_chars(&v)
}

fn get_color(es: &Vec<(Vec<char>, Vec<char>)>, key: &str) -> (r: Option<Color>)
    ensures
        r == color_for(entry_view(es@), key@),
{
    match last_with_key(es, key) {
        Some(i) => hex_chars(&es[i].1),
        None => None,
    }
}

fn or_else(c: Option<Color>, fallback: Color) -> (r: Color)
    ensures
        r == or_color(c, fallback),
{
    match c {
        Some(x) => x,
        None => fallback,
    }
}

/// The omarchy palette described by the text of a `colors.toml` file.
pub fn theme_from_colors(text: &str) -> (t: Theme)
    requires
        colors_sliceable(text@),
    ensures
        omarchy_theme(text@, t),
{
    let es = colors_entries(text);
    let dim = match get_color(&es, "color8") {
        Some(c) => c,
        None => or_else(get_color(&es, "color0"), Color::DarkGray),
    };
    Theme {
        accent: or_else(get_color(&es, "accent"), Color::LightMagenta),
        fg: or_else(get_color(&es, "foreground"), Color::Reset),
        bg: or_else(get_color(&es, "background"), Color::Reset),
        dim,
        red: or_else(get_color(&es, "color1"), Color::Red),
        green: or_else(get_color(&es, "color2"), Color::Green),
        yellow: or_else(get_color(&es, "color3"), Color::Yellow),
        blue: or_else(get_color(&es, "color4"), Color::Blue),
        magenta: or_else(get_color(&es, "color5"), Color::Magenta),
        cyan: or_else(get_color(&es, "color6"), Color::Cyan),
        source: "omarchy",
    }
}


fn utf8_width_exec(c: char) -> (w: u128)
    ensures
        w == utf8_width(c),
{
    if c <= '\x7f' {
        1
    } else if 'ࠀ' > c {
        2
    } else if '𐀀' > c {
        3
    } else {
        4
    }
}

fn sliceable_chars(v: &Vec<char>) -> (r: bool)
    ensures
        r == hex_sliceable(v@),
{
    let t0 = trim_vec(v, &Strip::Space);
    let t = trim_start_vec(&t0, &Strip::Exactly('#'));
    let mut k: usize = 0;
    let mut sum: u128 = 0;
    let mut at2 = false;
    let mut at4 = false;
    proof {
        assert(t@.take(0) =~= Seq::<char>::empty());
    }
    while k < t.len()
        invariant
            k <= t.len(),
            sum == utf8_len(t@.take(k as int)),
            sum <= 4 * k,
            at2 <==> exists|j: int| 0 <= j <= k && utf8_len(#[trigger] t@.take(j)) == 2,
            at4 <==> exists|j: int| 0 <= j <= k && utf8_len(#[trigger] t@.take(j)) == 4,
        decreases t.len() - k,
    {
        let w = utf8_width_exec(t[k]);
        proof {
            assert(t@.take(k + 1).drop_last() =~= t@.take(k as int));
            assert(t@.take(k + 1).last() == t@[k as int]);
        }
        let ghost old_at2 = at2;
        let ghost old_at4 = at4;
        sum = sum + w;
        if sum == 2 {
            at2 = true;
        }
        if sum == 4 {
            at4 = true;
        }
        proof {
            assert(utf8_len(t@.take(k + 1)) == sum);
            assert(at2 <==> exists|j: int| 0 <= j <= k + 1 && utf8_len(#[trigger] t@.take(j)) == 2) by {
                if exists|j: int| 0 <= j <= k + 1 && utf8_len(#[trigger] t@.take(j)) == 2 {
                    let j = choose|j: int| 0 <= j <= k + 1 && utf8_len(#[trigger] t@.take(j)) == 2;
                    if j <= k {
                        assert(old_at2);
                    }
                }
            }
            assert(at4 <==> exists|j: int| 0 <= j <= k + 1 && utf8_len(#[trigger] t@.take(j)) == 4) by {
                if exists|j: int| 0 <= j <= k + 1 && utf8_len(#[trigger] t@.take(j)) == 4 {
                    let j = choose|j: int| 0 <= j <= k + 1 && utf8_len(#[trigger] t@.take(j)) == 4;
                    if j <= k {
                        assert(old_at4);
                    }
                }
            }
        }
        k = k + 1;
    }
    proof {
        assert(t@.take(t.len() as int) =~= t@);
    }
    let pair_reads = t.len() >= 2 && t[0] <= '\x7f' && t[1] <= '\x7f' && hex_byte_exec(
        t[0],
        t[1],
    ).is_some();
    sum != 6 || (at2 && (!pair_reads || at4))
}

fn key_sliceable_exec(es: &Vec<(Vec<char>, Vec<char>)>, key: &str) -> (r: bool)
    ensures
        r == key_sliceable(entry_view(es@), key@),
{
    match last_with_key(es, key) {
        Some(i) => sliceable_chars(&es[i].1),
        None => true,
    }
}

/// Whether every colour value that reading the theme from `text` looks at
/// can be read without slicing inside a character (the condition under which
/// `theme_from_colors` applies).
pub fn colors_text_sliceable(text: &str) -> (r: bool)
    ensures
        r == colors_sliceable(text@),
{
    let es = colors_entries(text);
    let dim_ok = match get_color(&es, "color8") {
        Some(_) => key_sliceable_exec(&es, "color8"),
        None => key_sliceable_exec(&es, "color8") && key_sliceable_exec(&es, "color0"),
    };
    key_sliceable_exec(&es, "accent") && key_sliceable_exec(&es, "foreground")
        && key_sliceable_exec(&es, "background") && dim_ok && key_sliceable_exec(&es, "color1")
        && key_sliceable_exec(&es, "color2") && key_sliceable_exec(&es, "color3")
        && key_sliceable_exec(&es, "color4") && key_sliceable_exec(&es, "color5")
        && key_sliceable_exec(&es, "color6")
}

/// Whether `hex` can read `s` without slicing inside a character.
pub fn hex_is_sliceable(s: &str) -> (r: bool)
    ensures
        r == hex_sliceable(s@),
{
    let v = char_vec(s);
    sliceable_chars(&v)
}

/// The omarchy palette described by `text`, or `None` when one of the
/// colour values it reads would have to be sliced inside a character.
pub fn omarchy_theme_of(text: &str) -> (r: Option<Theme>)
    ensures
        r is Some <==> colors_sliceable(text@),
        r matches Some(t) ==> omarchy_theme(text@, t),
{
    if colors_text_sliceable(text) {
        Some(theme_from_colors(text))
    } else {
        None
    }
}

} // verus!
