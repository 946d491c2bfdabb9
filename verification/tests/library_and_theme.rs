use melo::library::{is_audio_ext, sort_tracks, track_from_tags, TagInfo, Track};
use melo::theme::{
    colors_entries, colors_text_sliceable, hex, hex_is_sliceable, omarchy_theme_of,
    theme_from_colors, Color, Theme,
};

fn t(title: &str, artist: &str, album: &str, path: &str) -> Track {
    Track {
        path: path.as_bytes().to_vec(),
        title: title.to_string(),
        artist: artist.to_string(),
        album: album.to_string(),
        duration_nanos: 0,
        sample_rate: 0,
        channels: 0,
        bitrate: 0,
        ext: String::new(),
    }
}

#[test]
fn audio_extensions() {
    for e in ["mp3", "flac", "ogg", "oga", "opus", "wav", "m4a", "mp4", "aac", "wma", "alac", "aiff", "aif"] {
        assert!(is_audio_ext(e), "{}", e);
    }
    assert!(is_audio_ext("MP3"));
    assert!(is_audio_ext("FlAc"));
    assert!(!is_audio_ext("txt"));
    assert!(!is_audio_ext("mp"));
    assert!(!is_audio_ext(""));
    assert!(!is_audio_ext("jpg"));
}

#[test]
fn track_fields_from_tags() {
    let info = TagInfo {
        duration_nanos: 5_000_000_000,
        sample_rate: Some(48000),
        channels: None,
        bitrate: Some(256),
        title: Some("Song".to_string()),
        artist: Some("   ".to_string()),
        album: None,
    };
    let tr = track_from_tags(b"/m/x.FLAC".to_vec(), Some("x".to_string()), Some("FLAC".to_string()), Some(info));
    assert_eq!(tr.path, b"/m/x.FLAC".to_vec());
    assert_eq!(tr.title, "Song");
    assert_eq!(tr.artist, "Unknown Artist");
    assert_eq!(tr.album, "Unknown Album");
    assert_eq!(tr.duration_nanos, 5_000_000_000);
    assert_eq!(tr.sample_rate, 48000);
    assert_eq!(tr.channels, 0);
    assert_eq!(tr.bitrate, 256);
    assert_eq!(tr.ext, "flac");
}

#[test]
fn track_fields_without_tags() {
    let tr = track_from_tags(b"/m/noname".to_vec(), None, None, None);
    assert_eq!(tr.title, "Unknown");
    assert_eq!(tr.artist, "Unknown Artist");
    assert_eq!(tr.album, "Unknown Album");
    assert_eq!(tr.ext, "");
    assert_eq!(tr.duration_nanos, 0);
    let tr = track_from_tags(b"/m/a.mp3".to_vec(), Some("a".to_string()), Some("mp3".to_string()), None);
    assert_eq!(tr.title, "a");
    let blank = TagInfo {
        duration_nanos: 1,
        sample_rate: None,
        channels: Some(2),
        bitrate: None,
        title: Some(" \t".to_string()),
        artist: Some(" Band ".to_string()),
        album: Some("LP".to_string()),
    };
    let tr = track_from_tags(b"/m/b.ogg".to_vec(), Some("b".to_string()), Some("ogg".to_string()), Some(blank));
    assert_eq!(tr.title, "b");
    assert_eq!(tr.artist, " Band ");
    assert_eq!(tr.album, "LP");
    assert_eq!(tr.channels, 2);
}

#[test]
fn library_order_is_artist_album_title_ignoring_case() {
    let tracks = vec![
        t("b", "zed", "x", "/1"),
        t("Wait", "M83", "Hurry Up", "/2"),
        t("a", "ABBA", "Gold", "/3"),
        t("Outro", "m83", "hurry up", "/4"),
        t("Midnight City", "M83", "Hurry Up", "/5"),
        t("same", "ABBA", "Gold", "/6"),
        t("A", "abba", "gold", "/7"),
    ];
    let sorted = sort_tracks(tracks);
    let paths: Vec<String> = sorted.iter().map(|t| String::from_utf8(t.path.clone()).unwrap()).collect();
    // "a" and "A" tie and keep their order; so do "same" after them.
    assert_eq!(paths, vec!["/3", "/7", "/6", "/5", "/4", "/2", "/1"]);
}

#[test]
fn sorting_empty_and_single() {
    assert!(sort_tracks(Vec::new()).is_empty());
    let one = sort_tracks(vec![t("x", "y", "z", "/p")]);
    assert_eq!(one.len(), 1);
    assert_eq!(one[0].title, "x");
}

#[test]
fn ansi_fallback_theme() {
    let th = Theme::default();
    assert_eq!(th.source, "ansi");
    assert_eq!(th.accent, Color::LightMagenta);
    assert_eq!(th.fg, Color::Reset);
    assert_eq!(th.bg, Color::Reset);
    assert_eq!(th.dim, Color::DarkGray);
    assert_eq!(th.cyan, Color::Cyan);
}

#[test]
fn hex_colours() {
    assert_eq!(hex("#ff8000"), Some(Color::Rgb(255, 128, 0)));
    assert_eq!(hex("  #0A0b0C  "), Some(Color::Rgb(10, 11, 12)));
    assert_eq!(hex("##123456"), Some(Color::Rgb(0x12, 0x34, 0x56)));
    assert_eq!(hex("123456"), Some(Color::Rgb(0x12, 0x34, 0x56)));
    assert_eq!(hex("#+f0000"), Some(Color::Rgb(15, 0, 0)));
    assert_eq!(hex("#12345"), None);
    assert_eq!(hex("#1234567"), None);
    assert_eq!(hex("#gg0000"), None);
    assert_eq!(hex("#-10000"), None);
    assert_eq!(hex("#é2345"), None);
    assert_eq!(hex(""), None);
}

const COLORS: &str = "# omarchy colours\n\
[colors]\n\
accent = \"#7aa2f7\"\n\
foreground = '#c0caf5'\n\
background=#1a1b26\n\
color8 = \"not a colour\"\n\
color0 = \"#15161e\"\n\
color1 = \"#f7768e\"\n\
color1 = \"#ff0000\"\n\
color2 = #9ece6a\r\n\
no equals sign here\n\
color3=\n";

#[test]
fn omarchy_palette() {
    assert!(colors_text_sliceable(COLORS));
    let th = theme_from_colors(COLORS);
    assert_eq!(th.source, "omarchy");
    assert_eq!(th.accent, Color::Rgb(0x7a, 0xa2, 0xf7));
    assert_eq!(th.fg, Color::Rgb(0xc0, 0xca, 0xf5));
    assert_eq!(th.bg, Color::Rgb(0x1a, 0x1b, 0x26));
    // color8 is unreadable, so dim falls back to color0.
    assert_eq!(th.dim, Color::Rgb(0x15, 0x16, 0x1e));
    // The later line wins.
    assert_eq!(th.red, Color::Rgb(255, 0, 0));
    assert_eq!(th.green, Color::Rgb(0x9e, 0xce, 0x6a));
    assert_eq!(th.yellow, Color::Yellow);
    assert_eq!(th.blue, Color::Blue);
    assert_eq!(th.magenta, Color::Magenta);
    assert_eq!(th.cyan, Color::Cyan);
}

#[test]
fn empty_colours_file_keeps_ansi_colours() {
    let th = theme_from_colors("");
    assert_eq!(th.source, "omarchy");
    assert_eq!(th.accent, Color::LightMagenta);
    assert_eq!(th.dim, Color::DarkGray);
}

#[test]
fn colours_file_entries() {
    let es = colors_entries("a = 1\n# c\n[s]\nb='x' \nnone\n k = \" v \" ");
    let view: Vec<(String, String)> = es
        .iter()
        .map(|(k, v)| (k.iter().collect(), v.iter().collect()))
        .collect();
    assert_eq!(
        view,
        vec![
            ("a".to_string(), "1".to_string()),
            ("b".to_string(), "x".to_string()),
            ("k".to_string(), " v ".to_string()),
        ]
    );
}

#[test]
fn unsliceable_colour_value() {
    // Six bytes, but byte 2 falls inside 'é': reading it would slice a character.
    assert!(!colors_text_sliceable("accent = 1é234"));
    assert!(colors_text_sliceable("accent = é1234"));
    assert!(colors_text_sliceable("color9 = 1é234"));
}

#[test]
fn omarchy_theme_of_reads_or_refuses() {
    let text = "accent = \"#ff0000\"\nforeground = \"#00ff00\"\n";
    let t = omarchy_theme_of(text).expect("all values can be read");
    assert_eq!(t.accent, Color::Rgb(255, 0, 0));
    assert_eq!(t.fg, Color::Rgb(0, 255, 0));
    assert_eq!(t.bg, Color::Reset);
    assert_eq!(t.source, "omarchy");
    // A six-byte value whose third byte falls inside a character.
    assert!(omarchy_theme_of("accent = \"#aé123\"\n").is_none());
    // A six-byte value whose first pair is not hexadecimal is not read past
    // that pair: the colour falls back and the theme is still read.
    let t = omarchy_theme_of("accent = \"zza€\"\ncolor1 = \"#102030\"\n").expect("readable");
    assert_eq!(t.accent, Color::LightMagenta);
    assert_eq!(t.red, Color::Rgb(16, 32, 48));
    assert_eq!(t.source, "omarchy");
    // When the first pair does read, byte 4 must start a character.
    assert!(omarchy_theme_of("accent = \"12a€\"\n").is_none());
}

#[test]
fn hex_sliceability() {
    assert!(hex_is_sliceable("#12ab34"));
    assert!(hex_is_sliceable("  #1234567 "));
    assert!(hex_is_sliceable("#é"));
    assert!(!hex_is_sliceable("#aé123"));
    assert!(hex_is_sliceable("#aéé"));
    assert!(hex_is_sliceable("zza€"));
    assert!(!hex_is_sliceable("#+fa€"));
    assert!(!hex_is_sliceable("12a€"));
    assert!(hex_is_sliceable("#+fa€x"));
    assert_eq!(hex("zza€"), None);
    assert_eq!(hex("#ZZa€"), None);
}
