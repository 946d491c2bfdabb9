//! Character-level string helpers used throughout the player: trimming,
//! substring search, lower-casing, decimal rendering and padding.

use vstd::prelude::*;

verus! {

// ---- calls into std -------------------------------------------------------

/// Unicode's White_Space property (PropList.txt), which `char::is_whitespace`
/// reports: tab to carriage return, space, next line, no-break space, ogham
/// space mark, the spaces from en quad to hair space, the line and paragraph
/// separators, narrow no-break space, medium mathematical space and
/// ideographic space.
pub open spec fn white_space(c: char) -> bool {
    let n = c as int;
    ||| 0x09 <= n <= 0x0d
    ||| n == 0x20
    ||| n == 0x85
    ||| n == 0xa0
    ||| n == 0x1680
    ||| 0x2000 <= n <= 0x200a
    ||| n == 0x2028
    ||| n == 0x2029
    ||| n == 0x202f
    ||| n == 0x205f
    ||| n == 0x3000
}

/// An ASCII character (a code below 0x80).
pub open spec fn is_ascii_char(c: char) -> bool {
    (c as int) < 0x80
}

/// The ASCII lower case of `c` (other characters are left alone).
pub open spec fn ascii_lower(c: char) -> char {
    if 'A' <= c && c <= 'Z' {
        ((c as int) + 32) as char
    } else {
        c
    }
}

/// What `str::to_lowercase` returns for a string (a function of the string alone).
pub uninterp spec fn lowercase(s: Seq<char>) -> Seq<char>;

/// Whether `c` has the White_Space property.
pub fn is_space(c: char) -> (b: bool)
    ensures
        b == white_space(c),
{
    let n: u32 = c as u32;
    (0x09 <= n && n <= 0x0d) || n == 0x20 || n == 0x85 || n == 0xa0 || n == 0x1680 || (0x2000
        <= n && n <= 0x200a) || n == 0x2028 || n == 0x2029 || n == 0x202f || n == 0x205f || n
        == 0x3000
}

/// Calls `str::to_lowercase`; the result is named `lowercase` of the input's
/// characters, since Unicode case mapping is not spelled out here. What is
/// stated of it: text made only of ASCII characters lower-cases character by
/// character, `A` to `Z` becoming `a` to `z` (so the empty string stays empty).
#[verifier::external_body]
pub(crate) fn to_lower(s: &str) -> (r: String)
    ensures
        r@ == lowercase(s@),
        s@.len() == 0 ==> r@.len() == 0,
        (forall|i: int| 0 <= i < s@.len() ==> is_ascii_char(#[trigger] s@[i])) ==> r@
            == s@.map_values(|c: char| ascii_lower(c)),
{
    s.to_lowercase()
}

/// Calls `String::push`, which appends one character.
#[verifier::external_body]
pub(crate) fn push_char(s: &mut String, c: char)
    ensures
        final(s)@ == old(s)@.push(c),
{
    s.push(c)
}

/// Calls `String::pop`, which removes and returns the last character, or
/// returns `None` and leaves an empty string as it is.
#[verifier::external_body]
pub(crate) fn pop_char(s: &mut String) -> (r: Option<char>)
    ensures
        old(s)@.len() == 0 ==> r is None && final(s)@ == old(s)@,
        old(s)@.len() > 0 ==> r == Some(old(s)@.last()) && final(s)@ == old(s)@.drop_last(),
{
    s.pop()
}

// ---- conversions ------------------------------------------------------------

/// The characters of `s`, in order.
pub fn char_vec(s: &str) -> (v: Vec<char>)
    ensures
        v@ == s@,
{
    let mut v: Vec<char> = Vec::new();
    for c in it: s.chars()
        invariant
            v@ == it.seq().take(it.index() as int),
    {
        v.push(c);
    }
    v
}

/// Appends the characters of `v` to `s`.
pub fn push_all(s: &mut String, v: &Vec<char>)
    ensures
        final(s)@ == old(s)@ + v@,
{
    let mut i: usize = 0;
    while i < v.len()
        invariant
            i <= v.len(),
            s@ == old(s)@ + v@.take(i as int),
        decreases v.len() - i,
    {
        push_char(s, v[i]);
        proof {
            assert(v@.take(i as int).push(v@[i as int]) =~= v@.take(i + 1));
        }
        i = i + 1;
    }
    proof {
        assert(v@.take(v.len() as int) =~= v@);
    }
}

/// A `String` holding exactly the characters of `v`.
pub fn string_of(v: &Vec<char>) -> (s: String)
    ensures
        s@ == v@,
{
    let mut s = String::new();
    push_all(&mut s, v);
    proof {
        assert(Seq::<char>::empty() + v@ =~= v@);
    }
    s
}

/// The lower-cased characters of `s`.
pub fn lower_chars(s: &str) -> (v: Vec<char>)
    ensures
        v@ == lowercase(s@),
        s@.len() == 0 ==> v@.len() == 0,
        (forall|i: int| 0 <= i < s@.len() ==> is_ascii_char(#[trigger] s@[i])) ==> v@
            == s@.map_values(|c: char| ascii_lower(c)),
{
    let l = to_lower(s);
    char_vec(l.as_str())
}

/// A copy of `v[from..to]`.
pub fn sub_vec(v: &Vec<char>, from: usize, to: usize) -> (r: Vec<char>)
    requires
        from <= to <= v.len(),
    ensures
        r@ == v@.subrange(from as int, to as int),
{
    let mut r: Vec<char> = Vec::new();
    let mut i = from;
    while i < to
        invariant
            from <= i <= to <= v.len(),
            r@ == v@.subrange(from as int, i as int),
        decreases to - i,
    {
        r.push(v[i]);
        proof {
            assert(v@.subrange(from as int, i as int).push(v@[i as int]) =~= v@.subrange(
                from as int,
                i + 1,
            ));
        }
        i = i + 1;
    }
    r
}

// ---- trimming -------------------------------------------------------------

/// Which characters a trim removes: white space, or one given character.
pub enum Strip {
    Space,
    Exactly(char),
}

/// Whether trimming by `m` removes `c`.
pub open spec fn strips(m: Strip, c: char) -> bool {
    match m {
        Strip::Space => white_space(c),
        Strip::Exactly(x) => c == x,
    }
}

fn stripped(m: &Strip, c: char) -> (b: bool)
    ensures
        b == strips(*m, c),
{
    match m {
        Strip::Space => is_space(c),
        Strip::Exactly(x) => c == *x,
    }
}

/// The number of leading characters of `s` that `m` removes.
pub open spec fn lead(s: Seq<char>, m: Strip) -> nat
    decreases s.len(),
{
    if s.len() > 0 && strips(m, s[0]) {
        1 + lead(s.drop_first(), m)
    } else {
        0
    }
}

/// The number of trailing characters of `s` that `m` removes.
pub open spec fn trail(s: Seq<char>, m: Strip) -> nat
    decreases s.len(),
{
    if s.len() > 0 && strips(m, s.last()) {
        1 + trail(s.drop_last(), m)
    } else {
        0
    }
}

/// `s` without the leading characters that `m` removes.
pub open spec fn trim_start_by(s: Seq<char>, m: Strip) -> Seq<char> {
    s.skip(lead(s, m) as int)
}

/// `s` without the trailing characters that `m` removes.
pub open spec fn trim_end_by(s: Seq<char>, m: Strip) -> Seq<char> {
    s.take(s.len() - trail(s, m))
}

/// `s` without leading and trailing characters that `m` removes.
pub open spec fn trim_by(s: Seq<char>, m: Strip) -> Seq<char> {
    trim_end_by(trim_start_by(s, m), m)
}

/// `s` with leading and trailing white space removed.
pub open spec fn trimmed(s: Seq<char>) -> Seq<char> {
    trim_by(s, Strip::Space)
}

pub proof fn lemma_lead_bound(s: Seq<char>, m: Strip)
    ensures
        lead(s, m) <= s.len(),
        forall|i: int| 0 <= i < lead(s, m) ==> strips(m, #[trigger] s[i]),
        lead(s, m) < s.len() ==> !strips(m, s[lead(s, m) as int]),
    decreases s.len(),
{
    if s.len() > 0 && strips(m, s[0]) {
        lemma_lead_bound(s.drop_first(), m);
        assert forall|i: int| 0 <= i < lead(s, m) implies strips(m, #[trigger] s[i]) by {
            if i > 0 {
                assert(s[i] == s.drop_first()[i - 1]);
            }
        }
        if lead(s, m) < s.len() {
            assert(s[lead(s, m) as int] == s.drop_first()[lead(s.drop_first(), m) as int]);
        }
    }
}

pub proof fn lemma_trail_bound(s: Seq<char>, m: Strip)
    ensures
        trail(s, m) <= s.len(),
        forall|i: int| s.len() - trail(s, m) <= i < s.len() ==> strips(m, #[trigger] s[i]),
        trail(s, m) < s.len() ==> !strips(m, s[s.len() - trail(s, m) - 1]),
    decreases s.len(),
{
    if s.len() > 0 && strips(m, s.last()) {
        lemma_trail_bound(s.drop_last(), m);
        assert forall|i: int| s.len() - trail(s, m) <= i < s.len() implies strips(
            m,
            #[trigger] s[i],
        ) by {
            if i < s.len() - 1 {
                assert(s[i] == s.drop_last()[i]);
            }
        }
        if trail(s, m) < s.len() {
            assert(s[s.len() - trail(s, m) - 1] == s.drop_last()[s.len() - trail(s, m) - 1]);
        }
    }
}

/// Counts the leading characters of `v` that `m` removes.
fn lead_count(v: &Vec<char>, m: &Strip) -> (n: usize)
    ensures
        n == lead(v@, *m),
{
    let mut i: usize = 0;
    proof {
        assert(v@.skip(0) =~= v@);
    }
    while i < v.len() && stripped(m, v[i])
        invariant
            i <= v.len(),
            lead(v@, *m) == i + lead(v@.skip(i as int), *m),
        decreases v.len() - i,
    {
        proof {
            let t = v@.skip(i as int);
            assert(t[0] == v@[i as int]);
            assert(t.drop_first() =~= v@.skip(i + 1));
        }
        i = i + 1;
    }
    proof {
        let t = v@.skip(i as int);
        if i < v.len() {
            assert(t[0] == v@[i as int]);
        } else {
            assert(t.len() == 0);
        }
    }
    i
}

/// Counts the trailing characters of `v` that `m` removes.
fn trail_count(v: &Vec<char>, m: &Strip) -> (n: usize)
    ensures
        n == trail(v@, *m),
{
    let mut j: usize = 0;
    proof {
        assert(v@.take(v.len() as int) =~= v@);
    }
    while j < v.len() && stripped(m, v[v.len() - 1 - j])
        invariant
            j <= v.len(),
            trail(v@, *m) == j + trail(v@.take(v.len() - j), *m),
        decreases v.len() - j,
    {
        proof {
            let t = v@.take(v.len() - j);
            assert(t.last() == v@[v.len() - 1 - j]);
            assert(t.drop_last() =~= v@.take(v.len() - (j + 1)));
        }
        j = j + 1;
    }
    proof {
        let t = v@.take(v.len() - j);
        if j < v.len() {
            assert(t.last() == v@[v.len() - 1 - j]);
        } else {
            assert(t.len() == 0);
        }
    }
    j
}

/// `v` without its leading characters that `m` removes.
pub fn trim_start_vec(v: &Vec<char>, m: &Strip) -> (r: Vec<char>)
    ensures
        r@ == trim_start_by(v@, *m),
{
    let n = lead_count(v, m);
    proof {
        lemma_lead_bound(v@, *m);
    }
    sub_vec(v, n, v.len())
}

/// `v` without its trailing characters that `m` removes.
pub fn trim_end_vec(v: &Vec<char>, m: &Strip) -> (r: Vec<char>)
    ensures
        r@ == trim_end_by(v@, *m),
{
    let n = trail_count(v, m);
    proof {
        lemma_trail_bound(v@, *m);
    }
    sub_vec(v, 0, v.len() - n)
}

/// `v` without leading and trailing characters that `m` removes.
pub fn trim_vec(v: &Vec<char>, m: &Strip) -> (r: Vec<char>)
    ensures
        r@ == trim_by(v@, *m),
{
    let a = trim_start_vec(v, m);
    trim_end_vec(&a, m)
}

// ---- searching and comparing ----------------------------------------------

/// `needle` occurs in `hay` starting at position `i`.
pub open spec fn occurs_at(hay: Seq<char>, needle: Seq<char>, i: int) -> bool {
    0 <= i && i + needle.len() <= hay.len() && hay.subrange(i, i + needle.len()) == needle
}

/// `needle` is a substring of `hay` (the empty string is a substring of any string).
pub open spec fn has_substring(hay: Seq<char>, needle: Seq<char>) -> bool {
    exists|i: int| occurs_at(hay, needle, i)
}

/// A string that holds `needle` followed by one more character holds `needle`.
pub proof fn lemma_substring_shorter(hay: Seq<char>, needle: Seq<char>, x: char)
    requires
        has_substring(hay, needle.push(x)),
    ensures
        has_substring(hay, needle),
{
    let i = choose|i: int| occurs_at(hay, needle.push(x), i);
    assert(hay.subrange(i, i + needle.len()) =~= needle.push(x).take(needle.len() as int));
    assert(needle.push(x).take(needle.len() as int) =~= needle);
    assert(occurs_at(hay, needle, i));
}

/// Whether `needle` occurs in `hay` at position `i`.
fn matches_at(hay: &Vec<char>, needle: &Vec<char>, i: usize) -> (b: bool)
    requires
        i + needle.len() <= hay.len(),
    ensures
        b == occurs_at(hay@, needle@, i as int),
{
    let mut k: usize = 0;
    while k < needle.len()
        invariant
            i + needle.len() <= hay.len(),
            k <= needle.len(),
            forall|j: int| 0 <= j < k ==> hay@[i + j] == needle@[j],
        decreases needle.len() - k,
    {
        if hay[i + k] != needle[k] {
            proof {
                assert(hay@.subrange(i as int, i + needle.len())[k as int] != needle@[k as int]);
            }
            return false;
        }
        k = k + 1;
    }
    proof {
        assert(hay@.subrange(i as int, i + needle.len()) =~= needle@);
    }
    true
}

/// Whether `needle` is a substring of `hay`.
pub fn contains_chars(hay: &Vec<char>, needle: &Vec<char>) -> (b: bool)
    ensures
        b == has_substring(hay@, needle@),
{
    if needle.len() > hay.len() {
        proof {
            assert forall|i: int| !occurs_at(hay@, needle@, i) by {}
        }
        return false;
    }
    let last = hay.len() - needle.len();
    let mut i: usize = 0;
    while i < last
        invariant
            last == hay.len() - needle.len(),
            i <= last,
            forall|j: int| 0 <= j < i ==> !occurs_at(hay@, needle@, j),
        decreases last - i,
    {
        if matches_at(hay, needle, i) {
            return true;
        }
        i = i + 1;
    }
    if matches_at(hay, needle, last) {
        return true;
    }
    proof {
        assert forall|j: int| !occurs_at(hay@, needle@, j) by {
            if 0 <= j < i {
            }
        }
    }
    false
}

/// Whether `a` and `b` hold the same characters.
pub fn same_chars(a: &Vec<char>, b: &Vec<char>) -> (r: bool)
    ensures
        r == (a@ == b@),
{
    if a.len() != b.len() {
        return false;
    }
    let mut i: usize = 0;
    while i < a.len()
        invariant
            a.len() == b.len(),
            i <= a.len(),
            forall|j: int| 0 <= j < i ==> a@[j] == b@[j],
        decreases a.len() - i,
    {
        if a[i] != b[i] {
            return false;
        }
        i = i + 1;
    }
    proof {
        assert(a@ =~= b@);
    }
    true
}

// ---- numbers and padding ------------------------------------------------------

/// The decimal digit character for `d` (`'0'` to `'9'`).
pub open spec fn digit_char(d: nat) -> char {
    if d == 0 {
        '0'
    } else if d == 1 {
        '1'
    } else if d == 2 {
        '2'
    } else if d == 3 {
        '3'
    } else if d == 4 {
        '4'
    } else if d == 5 {
        '5'
    } else if d == 6 {
        '6'
    } else if d == 7 {
        '7'
    } else if d == 8 {
        '8'
    } else {
        '9'
    }
}

/// The decimal representation of `n`, without sign or leading zeros.
pub open spec fn decimal(n: nat) -> Seq<char>
    decreases n,
{
    if n < 10 {
        seq![digit_char(n)]
    } else {
        decimal(n / 10).push(digit_char(n % 10))
    }
}

fn digit(d: u64) -> (c: char)
    requires
        d < 10,
    ensures
        c == digit_char(d as nat),
{
    if d == 0 {
        '0'
    } else if d == 1 {
        '1'
    } else if d == 2 {
        '2'
    } else if d == 3 {
        '3'
    } else if d == 4 {
        '4'
    } else if d == 5 {
        '5'
    } else if d == 6 {
        '6'
    } else if d == 7 {
        '7'
    } else if d == 8 {
        '8'
    } else {
        '9'
    }
}

/// Appends the decimal representation of `n` to `out`.
pub fn push_decimal(out: &mut Vec<char>, n: u64)
    ensures
        final(out)@ == old(out)@ + decimal(n as nat),
    decreases n,
{
    if n < 10 {
        out.push(digit(n));
        proof {
            assert(old(out)@.push(digit_char(n as nat)) =~= old(out)@ + decimal(n as nat));
        }
    } else {
        push_decimal(out, n / 10);
        out.push(digit(n % 10));
        proof {
            assert(old(out)@ + decimal((n / 10) as nat) + seq![digit_char((n % 10) as nat)]
                =~= old(out)@ + decimal(n as nat));
        }
    }
}

/// The decimal representation of `n`.
pub fn decimal_vec(n: u64) -> (v: Vec<char>)
    ensures
        v@ == decimal(n as nat),
{
    let mut v: Vec<char> = Vec::new();
    push_decimal(&mut v, n);
    proof {
        assert(Seq::<char>::empty() + decimal(n as nat) =~= decimal(n as nat));
    }
    v
}

/// The decimal representation of a signed number, with `-` before negatives.
pub open spec fn signed_decimal(n: int) -> Seq<char> {
    if n < 0 {
        seq!['-'] + decimal((-n) as nat)
    } else {
        decimal(n as nat)
    }
}

/// The decimal representation of `n`, with `-` before a negative number.
pub fn signed_decimal_vec(n: i32) -> (v: Vec<char>)
    ensures
        v@ == signed_decimal(n as int),
{
    if n < 0 {
        let mut v: Vec<char> = Vec::new();
        v.push('-');
        let m: i64 = -(n as i64);
        push_decimal(&mut v, m as u64);
        v
    } else {
        decimal_vec(n as u64)
    }
}

/// `count` copies of `c`.
pub open spec fn repeat_char(c: char, count: nat) -> Seq<char> {
    Seq::new(count, |i: int| c)
}

/// `s` right-aligned in a field of `width` characters, filled with `fill`
/// on the left (a longer `s` is left as it is).
pub open spec fn pad_left(s: Seq<char>, width: nat, fill: char) -> Seq<char> {
    if s.len() < width {
        repeat_char(fill, (width - s.len()) as nat) + s
    } else {
        s
    }
}

/// `s` followed by `count` copies of `c`.
pub fn push_repeat(out: &mut Vec<char>, c: char, count: usize)
    ensures
        final(out)@ == old(out)@ + repeat_char(c, count as nat),
{
    let mut k: usize = 0;
    while k < count
        invariant
            k <= count,
            out@ == old(out)@ + repeat_char(c, k as nat),
        decreases count - k,
    {
        out.push(c);
        proof {
            assert(old(out)@ + repeat_char(c, k as nat) + seq![c] =~= old(out)@ + repeat_char(
                c,
                (k + 1) as nat,
            ));
        }
        k = k + 1;
    }
}

/// `v` right-aligned in a field of `width` characters, filled with `fill`.
pub fn pad_left_vec(v: &Vec<char>, width: usize, fill: char) -> (r: Vec<char>)
    ensures
        r@ == pad_left(v@, width as nat, fill),
{
    let mut r: Vec<char> = Vec::new();
    if v.len() < width {
        push_repeat(&mut r, fill, width - v.len());
    }
    let mut i: usize = 0;
    let ghost start = r@;
    while i < v.len()
        invariant
            i <= v.len(),
            r@ == start + v@.take(i as int),
        decreases v.len() - i,
    {
        r.push(v[i]);
        proof {
            assert(start + v@.take(i as int) + seq![v@[i as int]] =~= start + v@.take(i + 1));
        }
        i = i + 1;
    }
    proof {
        assert(v@.take(v.len() as int) =~= v@);
        assert(Seq::<char>::empty() + repeat_char(fill, (width - v.len()) as nat)
            =~= repeat_char(fill, (width - v.len()) as nat));
        assert(Seq::<char>::empty() + v@ =~= v@);
    }
    r
}

/// Appends the characters of a string literal (or any `&str`) to `out`.
pub fn push_str(out: &mut Vec<char>, s: &str)
    ensures
        final(out)@ == old(out)@ + s@,
{
    let v = char_vec(s);
    let mut i: usize = 0;
    while i < v.len()
        invariant
            i <= v.len(),
            out@ == old(out)@ + v@.take(i as int),
        decreases v.len() - i,
    {
        out.push(v[i]);
        proof {
            assert(old(out)@ + v@.take(i as int) + seq![v@[i as int]] =~= old(out)@ + v@.take(
                i + 1,
            ));
        }
        i = i + 1;
    }
    proof {
        assert(v@.take(v.len() as int) =~= v@);
    }
}

/// Appends the characters of `v` to `out`.
pub fn push_vec(out: &mut Vec<char>, v: &Vec<char>)
    ensures
        final(out)@ == old(out)@ + v@,
{
    let mut i: usize = 0;
    while i < v.len()
        invariant
            i <= v.len(),
            out@ == old(out)@ + v@.take(i as int),
        decreases v.len() - i,
    {
        out.push(v[i]);
        proof {
            assert(old(out)@ + v@.take(i as int) + seq![v@[i as int]] =~= old(out)@ + v@.take(
                i + 1,
            ));
        }
        i = i + 1;
    }
    proof {
        assert(v@.take(v.len() as int) =~= v@);
    }
}

} // verus!
