//! The music library: tracks, which files count as audio, how a track's
//! tags become its displayed fields, and the order the library is listed in.

use vstd::prelude::*;
use vstd::string::*;

use crate::text::{
    char_vec, lower_chars, lowercase, same_chars, string_of, trim_vec, trimmed, Strip,
};

verus! {

/// One audio file of the library, with what its tags say about it.
///
/// `path` holds the file's path as the bytes the operating system gave for
/// it; `duration_nanos` is the playing time in nanoseconds.
#[derive(Clone, Debug)]
pub struct Track {
    pub path: Vec<u8>,
    pub title: String,
    pub artist: String,
    pub album: String,
    pub duration_nanos: u128,
    pub sample_rate: u32,
    pub channels: u8,
    pub bitrate: u32,
    pub ext: String,
}


// ---- which files are audio ---------------------------------------------------

/// The file extensions (lower case) of the audio formats the library lists.
pub open spec fn audio_ext(e: Seq<char>) -> bool {
    ||| e == "mp3"@
    ||| e == "flac"@
    ||| e == "ogg"@
    ||| e == "oga"@
    ||| e == "opus"@
    ||| e == "wav"@
    ||| e == "m4a"@
    ||| e == "mp4"@
    ||| e == "aac"@
    ||| e == "wma"@
    ||| e == "alac"@
    ||| e == "aiff"@
    ||| e == "aif"@
}

fn is_word(v: &Vec<char>, w: &str) -> (r: bool)
    ensures
        r == (v@ == w@),
{
    let wv = char_vec(w);
    same_chars(v, &wv)
}

/// Whether a file with extension `ext` is audio, ignoring case.
pub fn is_audio_ext(ext: &str) -> (r: bool)
    ensures
        r == audio_ext(lowercase(ext@)),
{
    let e = lower_chars(ext);
    is_word(&e, "mp3") || is_word(&e, "flac") || is_word(&e, "ogg") || is_word(&e, "oga")
        || is_word(&e, "opus") || is_word(&e, "wav") || is_word(&e, "m4a") || is_word(&e, "mp4")
        || is_word(&e, "aac") || is_word(&e, "wma") || is_word(&e, "alac") || is_word(&e, "aiff")
        || is_word(&e, "aif")
}

// ---- a track from its tags ---------------------------------------------------------

/// What a file's tags and audio properties say, as read from it.
pub struct TagInfo {
    pub duration_nanos: u128,
    pub sample_rate: Option<u32>,
    pub channels: Option<u8>,
    pub bitrate: Option<u32>,
    pub title: Option<String>,
    pub artist: Option<String>,
    pub album: Option<String>,
}

/// A tag's text when it holds more than white space, `fallback` otherwise.
pub open spec fn tag_or(tag: Option<String>, fallback: Seq<char>) -> Seq<char> {
    match tag {
        Some(t) => if trimmed(t@).len() > 0 {
            t@
        } else {
            fallback
        },
        None => fallback,
    }
}

fn pick_tag(tag: Option<String>, fallback: &str) -> (r: String)
    ensures
        r@ == tag_or(tag, fallback@),
{
    match tag {
        Some(t) => {
            let v = char_vec(t.as_str());
            let tv = trim_vec(&v, &Strip::Space);
            if tv.len() > 0 {
                t
            } else {
                String::from_str(fallback)
            }
        },
        None => String::from_str(fallback),
    }
}

/// The track for the file at `path`, named by its file stem (`stem`) and
/// extension (`ext`) when these are readable text, with what its tags say
/// (`info`, when the file's tags could be read). A missing or blank title,
/// artist or album becomes the stem (or "Unknown"), "Unknown Artist" and
/// "Unknown Album"; missing audio properties become zero; the extension is
/// kept in lower case.
pub fn track_from_tags(
    path: Vec<u8>,
    stem: Option<String>,
    ext: Option<String>,
    info: Option<TagInfo>,
) -> (t: Track)
    ensures
        t.path@ == path@,
        t.ext@ == (match ext {
            Some(e) => lowercase(e@),
            None => Seq::<char>::empty(),
        }),
        ({
            let fallback = match stem {
                Some(s) => s@,
                None => "Unknown"@,
            };
            match info {
                Some(i) => {
                    &&& t.title@ == tag_or(i.title, fallback)
                    &&& t.artist@ == tag_or(i.artist, "Unknown Artist"@)
                    &&& t.album@ == tag_or(i.album, "Unknown Album"@)
                    &&& t.duration_nanos == i.duration_nanos
                    &&& t.sample_rate == (match i.sample_rate {
                        Some(x) => x,
                        None => 0u32,
                    })
                    &&& t.channels == (match i.channels {
                        Some(x) => x,
                        None => 0u8,
                    })
                    &&& t.bitrate == (match i.bitrate {
                        Some(x) => x,
                        None => 0u32,
                    })
                },
                None => {
                    &&& t.title@ == fallback
                    &&& t.artist@ == "Unknown Artist"@
                    &&& t.album@ == "Unknown Album"@
                    &&& t.duration_nanos == 0
                    &&& t.sample_rate == 0
                    &&& t.channels == 0
                    &&& t.bitrate == 0
                },
            }
        }),
{
    let fallback = match stem {
        Some(s) => s,
        None => String::from_str("Unknown"),
    };
    let ext_text = match ext {
        Some(e) => string_of(&lower_chars(e.as_str())),
        None => String::new(),
    };
    match info {
        Some(i) => {
            let title = match i.title {
                Some(t) => {
                    let v = char_vec(t.as_str());
                    let tv = trim_vec(&v, &Strip::Space);
                    if tv.len() > 0 {
                        t
                    } else {
                        fallback
                    }
                },
                None => fallback,
            };
            Track {
                path,
                title,
                artist: pick_tag(i.artist, "Unknown Artist"),
                album: pick_tag(i.album, "Unknown Album"),
                duration_nanos: i.duration_nanos,
                sample_rate: match i.sample_rate {
                    Some(x) => x,
                    None => 0,
                },
                channels: match i.channels {
                    Some(x) => x,
                    None => 0,
                },
                bitrate: match i.bitrate {
                    Some(x) => x,
                    None => 0,
                },
                ext: ext_text,
            }
        },
        None => Track {
            path,
            title: fallback,
            artist: String::from_str("Unknown Artist"),
            album: String::from_str("Unknown Album"),
            duration_nanos: 0,
            sample_rate: 0,
            channels: 0,
            bitrate: 0,
            ext: ext_text,
        },
    }
}


// ---- the order the library is listed in -----------------------------------------

/// `a` sorts before `b` as text: at the first character where they differ,
/// `a`'s has the lower code point, or `a` is a proper prefix of `b`. (This is
/// the order of Rust's `String`, whose UTF-8 bytes sort the same way.)
pub open spec fn chars_before(a: Seq<char>, b: Seq<char>) -> bool
    decreases a.len(),
{
    if a.len() == 0 {
        b.len() > 0
    } else if b.len() == 0 {
        false
    } else if a[0] != b[0] {
        (a[0] as int) < (b[0] as int)
    } else {
        chars_before(a.drop_first(), b.drop_first())
    }
}

proof fn lemma_before_irreflexive(a: Seq<char>)
    ensures
        !chars_before(a, a),
    decreases a.len(),
{
    if a.len() > 0 {
        lemma_before_irreflexive(a.drop_first());
    }
}

proof fn lemma_before_asymmetric(a: Seq<char>, b: Seq<char>)
    ensures
        chars_before(a, b) ==> !chars_before(b, a),
    decreases a.len(),
{
    if a.len() > 0 && b.len() > 0 && a[0] == b[0] {
        lemma_before_asymmetric(a.drop_first(), b.drop_first());
    }
}

proof fn lemma_before_total(a: Seq<char>, b: Seq<char>)
    ensures
        a != b ==> chars_before(a, b) || chars_before(b, a),
    decreases a.len(),
{
    if a.len() == 0 && b.len() == 0 {
        assert(a =~= b);
    }
    if a.len() > 0 && b.len() > 0 && a[0] != b[0] {
        assert((a[0] as int) != (b[0] as int));
    }
    if a.len() > 0 && b.len() > 0 && a[0] == b[0] {
        lemma_before_total(a.drop_first(), b.drop_first());
        if a.drop_first() == b.drop_first() {
            assert(a =~= seq![a[0]] + a.drop_first());
            assert(b =~= seq![b[0]] + b.drop_first());
        }
    }
}

proof fn lemma_before_transitive(a: Seq<char>, b: Seq<char>, c: Seq<char>)
    ensures
        chars_before(a, b) && chars_before(b, c) ==> chars_before(a, c),
    decreases a.len(),
{
    if a.len() > 0 && b.len() > 0 && c.len() > 0 && a[0] == b[0] && b[0] == c[0] {
        lemma_before_transitive(a.drop_first(), b.drop_first(), c.drop_first());
    }
}

/// `chars_before` is a strict total order.
pub proof fn lemma_chars_order(a: Seq<char>, b: Seq<char>, c: Seq<char>)
    ensures
        !chars_before(a, a),
        chars_before(a, b) ==> !chars_before(b, a),
        a != b ==> chars_before(a, b) || chars_before(b, a),
        chars_before(a, b) && chars_before(b, c) ==> chars_before(a, c),
{
    lemma_before_irreflexive(a);
    lemma_before_asymmetric(a, b);
    lemma_before_total(a, b);
    lemma_before_transitive(a, b, c);
}

/// What the library is sorted by: artist, then album, then title, each
/// compared in lower case.
pub open spec fn sort_key(t: Track) -> (Seq<char>, Seq<char>, Seq<char>) {
    (lowercase(t.artist@), lowercase(t.album@), lowercase(t.title@))
}

/// Key `x` sorts before key `y`: by the first part, then the second, then the third.
pub open spec fn key_before(x: (Seq<char>, Seq<char>, Seq<char>), y: (Seq<char>, Seq<char>, Seq<char>)) -> bool {
    ||| chars_before(x.0, y.0)
    ||| x.0 == y.0 && chars_before(x.1, y.1)
    ||| x.0 == y.0 && x.1 == y.1 && chars_before(x.2, y.2)
}

/// `key_before` is a strict total order.
pub proof fn lemma_key_order(
    x: (Seq<char>, Seq<char>, Seq<char>),
    y: (Seq<char>, Seq<char>, Seq<char>),
    z: (Seq<char>, Seq<char>, Seq<char>),
)
    ensures
        !key_before(x, x),
        key_before(x, y) ==> !key_before(y, x),
        x != y ==> key_before(x, y) || key_before(y, x),
        key_before(x, y) && key_before(y, z) ==> key_before(x, z),
{
    lemma_chars_order(x.0, y.0, z.0);
    lemma_chars_order(x.1, y.1, z.1);
    lemma_chars_order(x.2, y.2, z.2);
    lemma_chars_order(y.0, x.0, z.0);
    lemma_chars_order(y.1, x.1, z.1);
    lemma_chars_order(y.2, x.2, z.2);
}

/// `r` is `s` sorted stably by `sort_key`, rearranged by `perm`: position
/// `i` of `r` holds element `perm[i]` of `s`, no element is used twice, the
/// keys never decrease, and equal keys keep their order from `s`.
pub open spec fn stable_sorted_by(s: Seq<Track>, r: Seq<Track>, perm: Seq<int>) -> bool {
    &&& r.len() == s.len()
    &&& perm.len() == s.len()
    &&& forall|i: int| 0 <= i < r.len() ==> 0 <= #[trigger] perm[i] < s.len() && r[i] == s[perm[i]]
    &&& forall|i: int, j: int| 0 <= i < j < r.len() ==> perm[i] != perm[j]
    &&& forall|i: int, j: int|
        0 <= i < j < r.len() ==> !key_before(sort_key(#[trigger] r[j]), sort_key(#[trigger] r[i]))
    &&& forall|i: int, j: int|
        0 <= i < j < r.len() && sort_key(#[trigger] r[i]) == sort_key(#[trigger] r[j]) ==> perm[i]
            < perm[j]
}

/// The lower-cased key of a track, held as characters.
struct SortKey {
    artist: Vec<char>,
    album: Vec<char>,
    title: Vec<char>,
}

impl SortKey {
    spec fn key(&self) -> (Seq<char>, Seq<char>, Seq<char>) {
        (self.artist@, self.album@, self.title@)
    }
}

fn key_of(t: &Track) -> (k: SortKey)
    ensures
        k.key() == sort_key(*t),
{
    SortKey {
        artist: lower_chars(t.artist.as_str()),
        album: lower_chars(t.album.as_str()),
        title: lower_chars(t.title.as_str()),
    }
}

fn chars_less(a: &Vec<char>, b: &Vec<char>) -> (r: bool)
    ensures
        r == chars_before(a@, b@),
{
    let mut i: usize = 0;
    proof {
        assert(a@.skip(0) =~= a@);
        assert(b@.skip(0) =~= b@);
    }
    while i < a.len() && i < b.len() && a[i] == b[i]
        invariant
            i <= a.len(),
            i <= b.len(),
            chars_before(a@, b@) == chars_before(a@.skip(i as int), b@.skip(i as int)),
        decreases a.len() - i,
    {
        proof {
            assert(a@.skip(i as int).drop_first() =~= a@.skip(i + 1));
            assert(b@.skip(i as int).drop_first() =~= b@.skip(i + 1));
            assert(a@.skip(i as int)[0] == a@[i as int]);
            assert(b@.skip(i as int)[0] == b@[i as int]);
        }
        i = i + 1;
    }
    proof {
        if i < a.len() {
            assert(a@.skip(i as int)[0] == a@[i as int]);
        }
        if i < b.len() {
            assert(b@.skip(i as int)[0] == b@[i as int]);
        }
    }
    if i == a.len() {
        i < b.len()
    } else if i == b.len() {
        false
    } else {
        a[i] < b[i]
    }
}

fn key_less(x: &SortKey, y: &SortKey) -> (r: bool)
    ensures
        r == key_before(x.key(), y.key()),
{
    if chars_less(&x.artist, &y.artist) {
        return true;
    }
    if chars_less(&y.artist, &x.artist) {
        proof {
            lemma_chars_order(x.artist@, y.artist@, y.artist@);
        }
        return false;
    }
    proof {
        lemma_chars_order(x.artist@, y.artist@, y.artist@);
    }
    if chars_less(&x.album, &y.album) {
        return true;
    }
    if chars_less(&y.album, &x.album) {
        proof {
            lemma_chars_order(x.album@, y.album@, y.album@);
        }
        return false;
    }
    proof {
        lemma_chars_order(x.album@, y.album@, y.album@);
    }
    chars_less(&x.title, &y.title)
}

/// The tracks in library order: by artist, then album, then title, ignoring
/// case; tracks that tie keep their order.
pub fn sort_tracks(tracks: Vec<Track>) -> (r: Vec<Track>)
    ensures
        exists|perm: Seq<int>| stable_sorted_by(tracks@, r@, perm),
{
    let ghost s = tracks@;
    let mut out: Vec<Track> = Vec::new();
    let mut keys: Vec<SortKey> = Vec::new();
    let ghost mut perm: Seq<int> = Seq::empty();
    let mut rest = tracks;
    let ghost mut done: int = 0;
    // Take the tracks in order from the front: reverse them, then pop.
    let mut stack: Vec<Track> = Vec::new();
    while rest.len() > 0
        invariant
            stack@ + rest@.reverse() =~= s.reverse(),
        decreases rest.len(),
    {
        let t = rest.pop().unwrap();
        proof {
            assert(rest@.push(t).reverse() =~= seq![t] + rest@.reverse());
        }
        stack.push(t);
    }
    proof {
        assert(rest@.reverse() =~= Seq::<Track>::empty());
        assert(stack@ =~= s.reverse());
    }
    while stack.len() > 0
        invariant
            0 <= done <= s.len(),
            stack@ =~= s.skip(done).reverse(),
            out.len() == done,
            keys.len() == done,
            perm.len() == done,
            forall|i: int| 0 <= i < done ==> (#[trigger] keys@[i]).key() == sort_key(out@[i]),
            forall|i: int| 0 <= i < done ==> 0 <= #[trigger] perm[i] < done && out@[i] == s[perm[i]],
            forall|i: int, j: int| 0 <= i < j < done ==> perm[i] != perm[j],
            forall|i: int, j: int|
                0 <= i < j < done ==> !key_before(sort_key(#[trigger] out@[j]), sort_key(#[trigger] out@[i])),
            forall|i: int, j: int|
                0 <= i < j < done && sort_key(#[trigger] out@[i]) == sort_key(#[trigger] out@[j])
                    ==> perm[i] < perm[j],
        decreases stack.len(),
    {
        let t = stack.pop().unwrap();
        proof {
            assert(s.skip(done).reverse().drop_last() =~= s.skip(done + 1).reverse());
            assert(t == s[done]);
        }
        let k = key_of(&t);
        // Find where `t` goes: after every track whose key is not above its own.
        let mut p: usize = 0;
        while p < keys.len() && !key_less(&k, &keys[p])
            invariant
                p <= keys.len(),
                keys.len() == done,
                forall|i: int| 0 <= i < done ==> (#[trigger] keys@[i]).key() == sort_key(out@[i]),
                forall|i: int| 0 <= i < p ==> !key_before(k.key(), sort_key(#[trigger] out@[i])),
            decreases keys.len() - p,
        {
            p = p + 1;
        }
        proof {
            // Every track from `p` on has a key above that of `t`.
            assert forall|l: int| p <= l < done implies key_before(k.key(), sort_key(#[trigger] out@[l])) by {
                if l > p {
                    lemma_key_order(k.key(), sort_key(out@[p as int]), sort_key(out@[l]));
                    lemma_key_order(sort_key(out@[p as int]), sort_key(out@[l]), k.key());
                }
            }
        }
        let ghost old_out = out@;
        let ghost old_perm = perm;
        out.insert(p, t);
        keys.insert(p, k);
        proof {
            perm = perm.insert(p as int, done);
            assert forall|i: int, j: int| 0 <= i < j < done + 1 implies !key_before(
                sort_key(#[trigger] out@[j]),
                sort_key(#[trigger] out@[i]),
            ) by {
                if i < p && j == p {
                } else if i == p && j > p {
                    lemma_key_order(sort_key(t), sort_key(old_out[j - 1]), sort_key(t));
                } else if i < p && j > p {
                    assert(out@[j] == old_out[j - 1]);
                } else if i > p {
                    assert(out@[i] == old_out[i - 1]);
                    assert(out@[j] == old_out[j - 1]);
                }
            }
            assert forall|i: int, j: int|
                0 <= i < j < done + 1 && sort_key(#[trigger] out@[i]) == sort_key(#[trigger] out@[j])
                    implies perm[i] < perm[j] by {
                if i == p && j > p {
                    lemma_key_order(sort_key(t), sort_key(t), sort_key(t));
                    assert(out@[j] == old_out[j - 1]);
                } else if i < p && j > p {
                    assert(out@[j] == old_out[j - 1]);
                } else if i > p {
                    assert(out@[i] == old_out[i - 1]);
                    assert(out@[j] == old_out[j - 1]);
                }
            }
            assert forall|i: int| 0 <= i < done + 1 implies (#[trigger] keys@[i]).key() == sort_key(out@[i]) by {
                if i > p {
                    assert(out@[i] == old_out[i - 1]);
                }
            }
            assert forall|i: int| 0 <= i < done + 1 implies 0 <= #[trigger] perm[i] < done + 1 && out@[i] == s[perm[i]] by {
                if i > p {
                    assert(out@[i] == old_out[i - 1]);
                }
            }
            done = done + 1;
        }
    }
    proof {
        assert(s.skip(done).len() == 0);
        assert(stable_sorted_by(s, out@, perm));
    }
    out
}

} // verus!
