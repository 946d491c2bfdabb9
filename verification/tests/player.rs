use melo::app::{App, Effect, Mode, PendingLoad, Repeat, ART_CACHE_LIMIT};
use melo::art::Cover;
use melo::library::Track;
use melo::media::{MediaCommand, MediaUpdate};
use melo::theme::Theme;

fn track(path: &str, title: &str, artist: &str, album: &str) -> Track {
    Track {
        path: path.as_bytes().to_vec(),
        title: title.to_string(),
        artist: artist.to_string(),
        album: album.to_string(),
        duration_nanos: 200_000_000_000,
        sample_rate: 44100,
        channels: 2,
        bitrate: 320,
        ext: "mp3".to_string(),
    }
}

fn library() -> Vec<Track> {
    vec![
        track("/m/a.mp3", "Midnight City", "M83", "Hurry Up"),
        track("/m/b.mp3", "Outro", "M83", "Hurry Up"),
        track("/m/c.mp3", "Wait", "Other", "Night"),
    ]
}

fn app() -> App {
    App::new("~/Music".to_string(), Theme::default(), library())
}

/// Carries out a load successfully, as the audio engine would.
fn load_ok(app: &mut App, e: Effect) {
    match e {
        Effect::Load(_) => app.finish_load(Ok(()), false),
        other => panic!("expected a load, got {:?}", other),
    }
}

#[test]
fn repeat_labels_and_cycle() {
    assert_eq!(Repeat::Off.label(), "off");
    assert_eq!(Repeat::All.label(), "all");
    assert_eq!(Repeat::One.label(), "one");
    assert_eq!(Repeat::Off.next(), Repeat::All);
    assert_eq!(Repeat::All.next(), Repeat::One);
    assert_eq!(Repeat::One.next(), Repeat::Off);
    assert_eq!(Repeat::One.next().next().next(), Repeat::One);
}

#[test]
fn new_app_lists_everything() {
    let a = app();
    assert_eq!(a.filtered, vec![0, 1, 2]);
    assert_eq!(a.selected, Some(0));
    assert_eq!(a.current, None);
    assert_eq!(a.mode, Mode::Normal);
    assert_eq!(a.status, "3 tracks · theme: ansi");
    assert_eq!(a.repeat, Repeat::Off);
    assert!(!a.shuffle);
}

#[test]
fn new_app_on_empty_folder() {
    let a = App::new("/nowhere".to_string(), Theme::default(), Vec::new());
    assert!(a.filtered.is_empty());
    assert_eq!(a.selected, None);
    assert_eq!(a.status, "No audio files found in /nowhere");
}

#[test]
fn selection_wraps_both_ways() {
    let mut a = app();
    a.move_selection(-1);
    assert_eq!(a.selected, Some(2));
    a.move_selection(1);
    assert_eq!(a.selected, Some(0));
    a.move_selection(10);
    assert_eq!(a.selected, Some(1));
    a.move_selection(-10);
    assert_eq!(a.selected, Some(0));
    a.select_last();
    assert_eq!(a.selected, Some(2));
    a.select_first();
    assert_eq!(a.selected, Some(0));
    assert_eq!(a.selected_pos(), Some(0));
}

#[test]
fn move_and_back_restores_selection() {
    let mut a = app();
    a.move_selection(1);
    let before = a.selected;
    a.move_selection(7);
    a.move_selection(-7);
    assert_eq!(a.selected, before);
}

#[test]
fn selection_on_empty_list_stays() {
    let mut a = App::new("/x".to_string(), Theme::default(), Vec::new());
    a.move_selection(1);
    a.select_last();
    a.select_first();
    assert_eq!(a.selected, None);
}

#[test]
fn search_filters_case_insensitively() {
    let mut a = app();
    a.enter_search();
    assert_eq!(a.mode, Mode::Search);
    a.search_push('N');
    a.search_push('I');
    a.search_push('G');
    // "Midnight City" (title) and "Night" (album) hold "nig".
    assert_eq!(a.filtered, vec![0, 2]);
    assert_eq!(a.selected, Some(0));
    a.search_push('z');
    assert!(a.filtered.is_empty());
    assert_eq!(a.selected, None);
    a.search_backspace();
    assert_eq!(a.query, "NIG");
    assert_eq!(a.filtered, vec![0, 2]);
    a.exit_search(true);
    assert_eq!(a.mode, Mode::Normal);
    assert_eq!(a.query, "NIG");
    a.enter_search();
    a.exit_search(false);
    assert_eq!(a.query, "");
    assert_eq!(a.filtered, vec![0, 1, 2]);
}

#[test]
fn typing_then_deleting_restores_list() {
    let mut a = app();
    a.search_push('m');
    let filtered = a.filtered.clone();
    a.search_push('x');
    a.search_backspace();
    assert_eq!(a.query, "m");
    assert_eq!(a.filtered, filtered);
}

#[test]
fn backspace_on_empty_query_keeps_it() {
    let mut a = app();
    a.move_selection(1);
    a.search_backspace();
    assert_eq!(a.query, "");
    assert_eq!(a.filtered, vec![0, 1, 2]);
    assert_eq!(a.selected, Some(0));
}

#[test]
fn play_selected_then_load_outcomes() {
    let mut a = app();
    a.move_selection(1);
    let e = a.play_selected();
    assert_eq!(e, Effect::Load(1));
    assert_eq!(a.pending, Some(PendingLoad { track: 1, report_pause: false }));
    a.finish_load(Ok(()), false);
    assert_eq!(a.current, Some(1));
    assert_eq!(a.status, "Playing  Outro — M83");
    assert_eq!(a.pending, None);
    let e = a.play_filtered_pos(2);
    assert_eq!(e, Effect::Load(2));
    a.finish_load(Err("decoding /m/c.mp3".to_string()), false);
    assert_eq!(a.current, Some(1));
    assert_eq!(a.status, "Error: decoding /m/c.mp3");
    assert_eq!(a.play_filtered_pos(3), Effect::Nothing);
}

#[test]
fn display_follows_playing_then_highlight() {
    let mut a = app();
    assert_eq!(a.display_idx(), Some(0));
    assert_eq!(a.selected_track_idx(), Some(0));
    a.move_selection(1);
    assert_eq!(a.selected_track_idx(), Some(1));
    let e = a.play_filtered_pos(2);
    load_ok(&mut a, e);
    assert_eq!(a.display_idx(), Some(2));
    assert_eq!(a.selected_track_idx(), Some(2));
}

#[test]
fn next_and_prev_wrap() {
    let mut a = app();
    let e = a.next_track();
    assert_eq!(e, Effect::Load(0));
    load_ok(&mut a, e);
    let e = a.next_track();
    assert_eq!(e, Effect::Load(1));
    load_ok(&mut a, e);
    let e = a.prev_track(1_000_000_000);
    assert_eq!(e, Effect::Load(0));
    load_ok(&mut a, e);
    let e = a.prev_track(0);
    assert_eq!(e, Effect::Load(2));
    load_ok(&mut a, e);
    let e = a.next_track();
    assert_eq!(e, Effect::Load(0));
}

#[test]
fn next_then_prev_returns() {
    let mut a = app();
    let e = a.play_filtered_pos(1);
    load_ok(&mut a, e);
    let e = a.next_track();
    load_ok(&mut a, e);
    assert_eq!(a.current, Some(2));
    let e = a.prev_track(2_999_999_999);
    assert_eq!(e, Effect::Load(1));
}

#[test]
fn prev_restarts_after_three_seconds() {
    let mut a = app();
    let e = a.play_filtered_pos(1);
    load_ok(&mut a, e);
    assert_eq!(a.prev_track(3_000_000_001), Effect::Load(1));
    a.finish_load(Ok(()), false);
    assert_eq!(a.prev_track(3_000_000_000), Effect::Load(0));
}

#[test]
fn prev_without_playing_counts_from_top() {
    let mut a = app();
    assert_eq!(a.prev_track(10_000_000_000), Effect::Load(2));
}

#[test]
fn next_on_empty_list_does_nothing() {
    let mut a = App::new("/x".to_string(), Theme::default(), Vec::new());
    assert_eq!(a.next_track(), Effect::Nothing);
    assert_eq!(a.prev_track(0), Effect::Nothing);
    assert_eq!(a.play_selected(), Effect::Nothing);
}

#[test]
fn shuffle_picks_a_listed_track() {
    let mut a = app();
    a.toggle_shuffle();
    assert!(a.shuffle);
    assert_eq!(a.status, "Shuffle on");
    for _ in 0..50 {
        match a.next_track() {
            Effect::Load(i) => assert!(i < 3),
            other => panic!("unexpected {:?}", other),
        }
        a.finish_load(Ok(()), false);
    }
    a.toggle_shuffle();
    assert!(!a.shuffle);
    assert_eq!(a.status, "Shuffle off");
}

#[test]
fn repeat_cycle_status() {
    let mut a = app();
    a.cycle_repeat();
    assert_eq!(a.repeat, Repeat::All);
    assert_eq!(a.status, "Repeat all");
    a.cycle_repeat();
    assert_eq!(a.status, "Repeat one");
    a.cycle_repeat();
    assert_eq!(a.status, "Repeat off");
}

#[test]
fn seek_moves_and_stops_at_start() {
    let mut a = app();
    assert_eq!(a.seek_relative(5, 1_000_000_000), Effect::Nothing);
    let e = a.play_filtered_pos(0);
    load_ok(&mut a, e);
    assert_eq!(a.seek_relative(5, 1_500_000_000), Effect::Seek(6_500_000_000));
    assert_eq!(a.seek_relative(-5, 7_000_000_000), Effect::Seek(2_000_000_000));
    assert_eq!(a.seek_relative(-5, 1_000_000_000), Effect::Seek(0));
}

#[test]
fn toggle_pause_loads_when_idle() {
    let mut a = app();
    assert_eq!(a.toggle_pause(), Effect::Load(0));
    a.finish_load(Ok(()), false);
    assert_eq!(a.toggle_pause(), Effect::TogglePause);
}

#[test]
fn media_keys() {
    let mut a = app();
    // Play/pause with nothing loaded starts the highlighted track and then
    // reports the engine's state.
    let e = a.handle_media(MediaCommand::Toggle, false, 0);
    assert_eq!(e, Effect::Load(0));
    assert_eq!(a.pending, Some(PendingLoad { track: 0, report_pause: true }));
    a.finish_load(Ok(()), false);
    assert_eq!(a.status, "Playing");
    assert_eq!(a.current, Some(0));
    let e = a.handle_media(MediaCommand::Toggle, false, 0);
    assert_eq!(e, Effect::TogglePause);
    assert_eq!(a.status, "Paused");
    assert_eq!(a.handle_media(MediaCommand::Play, true, 0), Effect::Resume);
    assert_eq!(a.status, "Playing");
    assert_eq!(a.handle_media(MediaCommand::Pause, false, 0), Effect::Pause);
    assert_eq!(a.status, "Paused");
    assert_eq!(a.handle_media(MediaCommand::Next, false, 0), Effect::Load(1));
    a.finish_load(Ok(()), false);
    assert_eq!(a.status, "Playing  Outro — M83");
    assert_eq!(a.handle_media(MediaCommand::Prev, false, 0), Effect::Load(0));
    a.finish_load(Ok(()), false);
    assert_eq!(a.handle_media(MediaCommand::Stop, false, 0), Effect::Clear);
    assert_eq!(a.current, None);
    assert_eq!(a.status, "Stopped");
}

#[test]
fn media_toggle_reports_failed_load() {
    let mut a = app();
    assert_eq!(a.handle_media(MediaCommand::Toggle, true, 0), Effect::Load(0));
    a.finish_load(Err("opening /m/a.mp3".to_string()), true);
    assert_eq!(a.status, "Paused");
    assert_eq!(a.current, None);
}

#[test]
fn media_toggle_with_nothing_to_play() {
    let mut a = App::new("/x".to_string(), Theme::default(), Vec::new());
    assert_eq!(a.handle_media(MediaCommand::Toggle, true, 0), Effect::Nothing);
    assert_eq!(a.status, "Paused");
    assert_eq!(a.handle_media(MediaCommand::Play, false, 0), Effect::Nothing);
}

#[test]
fn track_end_repeat_off_stops_after_last() {
    let mut a = app();
    assert_eq!(a.advance_if_finished(true), Effect::Nothing);
    let e = a.play_filtered_pos(1);
    load_ok(&mut a, e);
    assert_eq!(a.advance_if_finished(false), Effect::Nothing);
    assert_eq!(a.advance_if_finished(true), Effect::Load(2));
    a.finish_load(Ok(()), false);
    assert_eq!(a.advance_if_finished(true), Effect::Clear);
    assert_eq!(a.current, None);
    assert_eq!(a.status, "End of library");
}

#[test]
fn track_end_repeat_one_replays() {
    let mut a = app();
    a.cycle_repeat();
    a.cycle_repeat();
    let e = a.play_filtered_pos(2);
    load_ok(&mut a, e);
    assert_eq!(a.advance_if_finished(true), Effect::Load(2));
}

#[test]
fn track_end_repeat_all_wraps() {
    let mut a = app();
    a.cycle_repeat();
    let e = a.play_filtered_pos(2);
    load_ok(&mut a, e);
    assert_eq!(a.advance_if_finished(true), Effect::Load(0));
}

#[test]
fn track_end_off_list_stops() {
    let mut a = app();
    let e = a.play_filtered_pos(1);
    load_ok(&mut a, e);
    a.search_push('w');
    a.search_push('a');
    a.search_push('i');
    assert_eq!(a.filtered, vec![2]);
    // The playing track is no longer listed: with repeat off it is the end.
    assert_eq!(a.advance_if_finished(true), Effect::Clear);
}

#[test]
fn desktop_is_told_about_changes_only() {
    let mut a = app();
    assert_eq!(a.sync_media(true, false), MediaUpdate::Unchanged);
    let e = a.play_filtered_pos(0);
    load_ok(&mut a, e);
    assert_eq!(a.sync_media(false, false), MediaUpdate::Unchanged);
    assert_eq!(a.sync_media(true, false), MediaUpdate::NowPlaying { track: 0, playing: true });
    assert_eq!(a.sync_media(true, false), MediaUpdate::Unchanged);
    assert_eq!(a.sync_media(true, true), MediaUpdate::NowPlaying { track: 0, playing: false });
    a.handle_media(MediaCommand::Stop, true, 0);
    assert_eq!(a.sync_media(true, true), MediaUpdate::Stopped);
    assert_eq!(a.sync_media(true, true), MediaUpdate::Unchanged);
}

#[test]
fn notification_once_per_track() {
    let mut a = app();
    assert_eq!(a.maybe_notify(), None);
    let e = a.play_filtered_pos(1);
    load_ok(&mut a, e);
    assert_eq!(a.maybe_notify(), Some(1));
    assert_eq!(a.maybe_notify(), None);
    let e = a.next_track();
    load_ok(&mut a, e);
    assert_eq!(a.maybe_notify(), Some(2));
}

fn dot(v: u8) -> Option<Cover> {
    Some(Cover { width: 1, height: 1, rgba: vec![v, v, v, 255] })
}

#[test]
fn cover_cache_loads_the_shown_track_once() {
    let mut a = app();
    // Nothing plays: the highlighted track (the first) is shown.
    assert_eq!(a.cover_to_load(), Some(0));
    a.store_cover(0, dot(7));
    assert_eq!(a.cover_to_load(), None);
    // A track without a cover is remembered as such and not reloaded.
    a.move_selection(1);
    assert_eq!(a.cover_to_load(), Some(1));
    a.store_cover(1, None);
    assert_eq!(a.cover_to_load(), None);
    assert!(matches!(a.art_cache.get(&1), Some(None)));
    // The playing track is shown while it plays.
    let e = a.play_filtered_pos(2);
    load_ok(&mut a, e);
    a.move_selection(-1);
    assert_eq!(a.cover_to_load(), Some(2));
}

#[test]
fn cover_cache_is_emptied_past_its_limit() {
    let mut a = app();
    for i in 0..=ART_CACHE_LIMIT {
        a.store_cover(100 + i, None);
    }
    assert_eq!(a.art_cache.len(), ART_CACHE_LIMIT + 1);
    a.store_cover(7, dot(1));
    assert_eq!(a.art_cache.len(), 1);
    assert!(a.art_cache.contains_key(&7));
    a.store_cover(8, dot(2));
    assert_eq!(a.art_cache.len(), 2);
}

#[test]
fn load_cover_decodes_or_remembers_none() {
    let mut a = app();
    a.load_cover(0, None);
    assert!(matches!(a.art_cache.get(&0), Some(None)));
    a.load_cover(1, Some(&b"not a picture"[..]));
    assert!(matches!(a.art_cache.get(&1), Some(None)));

    let img = image::RgbaImage::from_raw(2, 1, vec![10, 20, 30, 255, 40, 50, 60, 128]).unwrap();
    let mut png = std::io::Cursor::new(Vec::new());
    img.write_to(&mut png, image::ImageFormat::Png).unwrap();
    let bytes = png.into_inner();
    a.load_cover(2, Some(&bytes[..]));
    match a.art_cache.get(&2) {
        Some(Some(c)) => {
            assert_eq!((c.width, c.height), (2, 1));
            assert_eq!(c.rgba, vec![10, 20, 30, 255, 40, 50, 60, 128]);
        }
        _ => panic!("the cover should have been decoded"),
    }
}

#[test]
fn refresh_empties_the_cover_cache() {
    let mut a = app();
    a.store_cover(0, dot(3));
    a.refresh(library(), Theme::default());
    assert!(a.art_cache.is_empty());
    assert_eq!(a.cover_to_load(), Some(0));
}

#[test]
fn typing_only_narrows_the_list() {
    let mut a = app();
    a.search_push('m');
    let wide = a.filtered.clone();
    assert_eq!(wide, vec![0, 1]);
    a.search_push('i');
    assert_eq!(a.filtered, vec![0]);
    assert!(a.filtered.iter().all(|i| wide.contains(i)));
    a.search_push('q');
    assert!(a.filtered.is_empty());
}

#[test]
fn quit_flags() {
    let mut a = app();
    a.request_quit();
    assert!(a.confirm_quit);
    a.cancel_quit();
    assert!(!a.confirm_quit);
    a.confirm_quit_now();
    assert!(a.should_quit);
}

#[test]
fn refresh_keeps_playing_and_highlighted_tracks() {
    let mut a = app();
    let e = a.play_filtered_pos(1);
    load_ok(&mut a, e);
    a.move_selection(1);
    a.move_selection(1);
    assert_eq!(a.selected, Some(2));
    let mut tracks = library();
    tracks.insert(0, track("/m/0.mp3", "New", "Zed", "Fresh"));
    a.refresh(tracks, Theme::default());
    assert_eq!(a.current, Some(2));
    assert_eq!(a.selected, Some(3));
    assert_eq!(a.filtered, vec![0, 1, 2, 3]);
    assert_eq!(a.status, "Refreshed · 4 tracks");
}

#[test]
fn refresh_drops_vanished_track() {
    let mut a = app();
    let e = a.play_filtered_pos(1);
    load_ok(&mut a, e);
    a.refresh(vec![track("/m/z.mp3", "Z", "Z", "Z")], Theme::default());
    assert_eq!(a.current, None);
    assert_eq!(a.selected, Some(0));
    assert_eq!(a.status, "Refreshed · 1 tracks");
}
