//! The desktop notification sent when the playing track changes.

use vstd::prelude::*;

use crate::text::{char_vec, push_str, push_vec, same_chars, string_of};

verus! {

/// The notification's body: the artist, followed by ` — ` and the album
/// unless the album is empty or unknown.
pub open spec fn notice_body(artist: Seq<char>, album: Seq<char>) -> Seq<char> {
    if album.len() == 0 || album == "Unknown Album"@ {
        artist
    } else {
        artist + " — "@ + album
    }
}

/// The summary (`♪ <title>`) and body of the notification for a track.
pub fn notice_text(title: &str, artist: &str, album: &str) -> (r: (String, String))
    ensures
        r.0@ == "♪ "@ + title@,
        r.1@ == notice_body(artist@, album@),
{
    let mut summary: Vec<char> = Vec::new();
    push_str(&mut summary, "♪ ");
    push_vec(&mut summary, &char_vec(title));
    let al = char_vec(album);
    let unknown = char_vec("Unknown Album");
    let mut body: Vec<char> = Vec::new();
    push_vec(&mut body, &char_vec(artist));
    if !(al.len() == 0 || same_chars(&al, &unknown)) {
        push_str(&mut body, " — ");
        push_vec(&mut body, &al);
    }
    proof {
        assert(body@ =~= notice_body(artist@, album@));
    }
    (string_of(&summary), string_of(&body))
}

} // verus!
