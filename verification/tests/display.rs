use melo::app::Repeat;
use melo::library::Track;
use melo::notify::notice_text;
use melo::ui::{
    art_rows, band_for_column, bar_fill, cover_columns, duration_cell, fmt_dur, library_title,
    list_columns, now_playing_label, pad_trunc, progress_label, row_marker, scan_line,
    side_panel_width, square_crop, trunc,
};

const SEC: u128 = 1_000_000_000;

#[test]
fn durations() {
    assert_eq!(fmt_dur(0), "0:00");
    assert_eq!(fmt_dur(999_999_999), "0:00");
    assert_eq!(fmt_dur(61 * SEC), "1:01");
    assert_eq!(fmt_dur(243 * SEC + 500), "4:03");
    assert_eq!(fmt_dur(3600 * SEC), "60:00");
    assert_eq!(duration_cell(484 * SEC), "  8:04");
    assert_eq!(duration_cell(6000 * SEC), "100:00");
    assert_eq!(progress_label(201 * SEC, 484 * SEC), "3:21 / 8:04");
}

#[test]
fn truncation() {
    assert_eq!(trunc("hello", 3), "he…");
    assert_eq!(trunc("hello", 5), "hello");
    assert_eq!(trunc("hello", 0), "");
    assert_eq!(trunc("hello", 1), "…");
    assert_eq!(trunc("héllo wörld", 4), "hél…");
}

#[test]
fn padding() {
    assert_eq!(pad_trunc("ab", 4), "ab  ");
    assert_eq!(pad_trunc("abcdef", 4), "abc…");
    assert_eq!(pad_trunc("abcd", 4), "abcd");
    assert_eq!(pad_trunc("", 2), "  ");
    assert_eq!(pad_trunc("x", 0), "");
    for w in 0..8 {
        assert_eq!(pad_trunc("Midnight", w).chars().count(), w);
    }
}

#[test]
fn panel_sizes() {
    assert_eq!(side_panel_width(120), 42);
    assert_eq!(side_panel_width(100), 42);
    assert_eq!(side_panel_width(99), 34);
    assert_eq!(side_panel_width(78), 34);
    assert_eq!(side_panel_width(77), 0);
    assert_eq!(list_columns(0), (14, 8));
    assert_eq!(list_columns(84), (36, 24));
    assert_eq!(list_columns(400), (64, 40));
    assert_eq!(art_rows(20, 30), 15);
    assert_eq!(art_rows(20, 10), 5);
    assert_eq!(art_rows(3, 10), 0);
    assert_eq!(cover_columns(10, 30), (20, 5));
    assert_eq!(cover_columns(10, 15), (15, 0));
    assert_eq!(square_crop(640, 480), (80, 0, 480));
    assert_eq!(square_crop(300, 500), (0, 100, 300));
}

#[test]
fn visualizer_cells() {
    assert_eq!(band_for_column(0, 48, 20), 0);
    assert_eq!(band_for_column(19, 48, 20), 45);
    assert_eq!(bar_fill(20, 0), 8);
    assert_eq!(bar_fill(20, 2), 4);
    assert_eq!(bar_fill(20, 3), 0);
}

#[test]
fn labels() {
    assert_eq!(row_marker(true, false), "▶ ");
    assert_eq!(row_marker(true, true), "⏸ ");
    assert_eq!(row_marker(false, true), "  ");
    assert_eq!(library_title(128), " library · 128 ");
    assert_eq!(
        now_playing_label(201 * SEC, 484 * SEC, 100, false, Repeat::All),
        "3:21 / 8:04   vol 100%   shuffle off   repeat all"
    );
    assert_eq!(
        now_playing_label(0, 0, -5, true, Repeat::One),
        "0:00 / 0:00   vol -5%   shuffle on   repeat one"
    );
}

#[test]
fn scan_listing_line() {
    let t = Track {
        path: b"/m/o.mp3".to_vec(),
        title: "Outro".to_string(),
        artist: "M83".to_string(),
        album: "Hurry Up".to_string(),
        duration_nanos: 484 * SEC,
        sample_rate: 44100,
        channels: 2,
        bitrate: 320,
        ext: "mp3".to_string(),
    };
    assert_eq!(scan_line(&t), "   8:04  Outro  —  M83  [Hurry Up]");
    let long = Track { duration_nanos: 725 * SEC, ..t };
    assert_eq!(scan_line(&long), "  12:05  Outro  —  M83  [Hurry Up]");
}

#[test]
fn notification_text() {
    assert_eq!(
        notice_text("Outro", "M83", "Hurry Up"),
        ("♪ Outro".to_string(), "M83 — Hurry Up".to_string())
    );
    assert_eq!(notice_text("Outro", "M83", ""), ("♪ Outro".to_string(), "M83".to_string()));
    assert_eq!(
        notice_text("Outro", "M83", "Unknown Album"),
        ("♪ Outro".to_string(), "M83".to_string())
    );
}
