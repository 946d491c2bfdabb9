use melo::app::{App, Effect, Mode, Repeat};
use melo::cli::{command, music_dir_arg, Command};
use melo::keys::{handle_key, handle_normal, handle_search, Key};
use melo::library::Track;
use melo::theme::Theme;

fn track(path: &str, title: &str) -> Track {
    Track {
        path: path.as_bytes().to_vec(),
        title: title.to_string(),
        artist: "Band".to_string(),
        album: "LP".to_string(),
        duration_nanos: 1,
        sample_rate: 0,
        channels: 0,
        bitrate: 0,
        ext: String::new(),
    }
}

fn sample_app() -> App {
    App::new(
        "/m".to_string(),
        Theme::default(),
        vec![track("/m/1", "One"), track("/m/2", "Two"), track("/m/3", "Three")],
    )
}

#[test]
fn list_keys() {
    let mut a = sample_app();
    assert_eq!(handle_normal(&mut a, Key::Down, false, 0), Effect::Nothing);
    assert_eq!(a.selected, Some(1));
    handle_normal(&mut a, Key::Char('k'), false, 0);
    handle_normal(&mut a, Key::Up, false, 0);
    assert_eq!(a.selected, Some(2));
    handle_normal(&mut a, Key::Char('g'), false, 0);
    assert_eq!(a.selected, Some(0));
    handle_normal(&mut a, Key::Char('G'), false, 0);
    assert_eq!(a.selected, Some(2));
    handle_normal(&mut a, Key::PageDown, false, 0);
    assert_eq!(a.selected, Some(0));
    handle_normal(&mut a, Key::PageUp, false, 0);
    assert_eq!(a.selected, Some(2));
    handle_normal(&mut a, Key::Char('j'), false, 0);
    assert_eq!(a.selected, Some(0));
}

#[test]
fn playback_keys() {
    let mut a = sample_app();
    assert_eq!(handle_normal(&mut a, Key::Enter, false, 0), Effect::Load(0));
    a.finish_load(Ok(()), false);
    assert_eq!(handle_normal(&mut a, Key::Char(' '), false, 0), Effect::TogglePause);
    assert_eq!(handle_normal(&mut a, Key::Char('n'), false, 0), Effect::Load(1));
    a.finish_load(Ok(()), false);
    assert_eq!(handle_normal(&mut a, Key::Char('b'), false, 0), Effect::Load(0));
    a.finish_load(Ok(()), false);
    assert_eq!(handle_normal(&mut a, Key::Char('p'), false, 0), Effect::Load(2));
    a.finish_load(Ok(()), false);
    assert_eq!(handle_normal(&mut a, Key::Right, false, 1_000), Effect::Seek(5_000_001_000));
    assert_eq!(handle_normal(&mut a, Key::Char('h'), false, 1_000), Effect::Seek(0));
    assert_eq!(handle_normal(&mut a, Key::Char(']'), false, 0), Effect::VolumeUp);
    assert_eq!(handle_normal(&mut a, Key::Char('+'), false, 0), Effect::VolumeUp);
    assert_eq!(handle_normal(&mut a, Key::Char('['), false, 0), Effect::VolumeDown);
    assert_eq!(handle_normal(&mut a, Key::Char('_'), false, 0), Effect::VolumeDown);
}

#[test]
fn mode_keys() {
    let mut a = sample_app();
    handle_normal(&mut a, Key::Char('s'), false, 0);
    assert!(a.shuffle);
    handle_normal(&mut a, Key::Char('r'), false, 0);
    assert_eq!(a.repeat, Repeat::All);
    handle_normal(&mut a, Key::Char('x'), false, 0);
    assert_eq!(a.status, "Repeat all");
    handle_normal(&mut a, Key::Char('c'), false, 0);
    assert!(!a.should_quit);
    handle_normal(&mut a, Key::Char('c'), true, 0);
    assert!(a.should_quit);
    let mut b = sample_app();
    handle_normal(&mut b, Key::Esc, false, 0);
    assert!(b.should_quit);
    let mut c = sample_app();
    handle_normal(&mut c, Key::Char('q'), false, 0);
    assert!(c.should_quit);
}

#[test]
fn search_keys() {
    let mut a = sample_app();
    assert_eq!(handle_key(&mut a, Key::Char('/'), false, 0), Effect::Nothing);
    assert_eq!(a.mode, Mode::Search);
    // In the search field, letters are typed rather than acted on.
    assert_eq!(handle_key(&mut a, Key::Char('t'), false, 0), Effect::Nothing);
    assert_eq!(handle_key(&mut a, Key::Char('q'), false, 0), Effect::Nothing);
    assert!(!a.should_quit);
    assert_eq!(a.query, "tq");
    assert!(a.filtered.is_empty());
    handle_search(&mut a, Key::Backspace);
    assert_eq!(a.filtered, vec![1, 2]);
    handle_search(&mut a, Key::Up);
    assert_eq!(a.query, "t");
    handle_search(&mut a, Key::Enter);
    assert_eq!(a.mode, Mode::Normal);
    assert_eq!(a.filtered, vec![1, 2]);
    handle_key(&mut a, Key::Char('/'), false, 0);
    handle_key(&mut a, Key::Esc, false, 0);
    assert_eq!(a.mode, Mode::Normal);
    assert_eq!(a.query, "");
    assert_eq!(a.filtered, vec![0, 1, 2]);
}

fn args(v: &[&str]) -> Vec<String> {
    v.iter().map(|s| s.to_string()).collect()
}

#[test]
fn command_line() {
    assert_eq!(command(&args(&["melo"])), Command::Play);
    assert_eq!(command(&args(&["melo", "-h"])), Command::Help);
    assert_eq!(command(&args(&["melo", "--help"])), Command::Help);
    assert_eq!(command(&args(&["melo", "--scan", "/music"])), Command::Scan);
    assert_eq!(command(&args(&["melo", "/music", "--scan"])), Command::Play);
    assert_eq!(music_dir_arg(&args(&["melo"])), None);
    assert_eq!(music_dir_arg(&args(&["melo", "--scan"])), None);
    assert_eq!(music_dir_arg(&args(&["melo", "--scan", "/music"])), Some(2));
    assert_eq!(music_dir_arg(&args(&["melo", "~/Music"])), Some(1));
    assert_eq!(music_dir_arg(&args(&["melo", "", "x"])), Some(1));
}
