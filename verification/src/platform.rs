//! Decisions and parsers behind the platform integration: desktop boolean
//! settings, the macOS directory service's login picture output, the GitHub
//! avatar URL, the Termy deep link, and the per-platform choices the desktop
//! shell makes.

use vstd::prelude::*;
use vstd::string::*;
use vstd::utf8::*;
use crate::text::{
    all_ws, ascii_lower, ascii_lower_seq, ascii_upper, ascii_upper_seq, trim_end, trim_start, chars_equal, chars_of, decode_utf8_lossy, hex_digit_value, hex_value, is_hex_digit,
    is_whitespace, is_ws, owned, slice_chars, str_equal, string_of, to_ascii_lower, trim, trim_bounds,
    utf8_lossy,
};

verus! {

/// The operating system the desktop shell runs on.
#[derive(Clone, Copy, Debug, PartialEq, Eq, Structural)]
pub enum Platform {
    MacOs,
    Linux,
    Windows,
    Other,
}

/// The meaning of a desktop boolean setting: its trimmed, ASCII-lower-cased
/// text is one of `1 true yes on` or `0 false no off`.
pub open spec fn boolean_setting(value: Seq<char>) -> Option<bool> {
    let w = ascii_lower_seq(trim(value));
    if w == "1"@ || w == "true"@ || w == "yes"@ || w == "on"@ {
        Some(true)
    } else if w == "0"@ || w == "false"@ || w == "no"@ || w == "off"@ {
        Some(false)
    } else {
        None
    }
}

fn lower_chars(s: &[char]) -> (r: Vec<char>)
    ensures
        r@ == ascii_lower_seq(s@),
{
    let mut out: Vec<char> = Vec::new();
    let mut i: usize = 0;
    while i < s.len()
        invariant
            i <= s@.len(),
            out@ =~= ascii_lower_seq(s@.take(i as int)),
        decreases s.len() - i,
    {
        out.push(to_ascii_lower(s[i]));
        i = i + 1;
        assert(out@ =~= ascii_lower_seq(s@.take(i as int)));
    }
    assert(s@.take(s@.len() as int) =~= s@);
    out
}

fn is_word(w: &[char], word: &str) -> (r: bool)
    ensures
        r == (w@ == word@),
{
    let cs = chars_of(word);
    chars_equal(w, cs.as_slice())
}

/// Parse a desktop boolean setting such as the value of
/// `INSULATOR_REDUCE_MOTION` or the output of `gsettings`.
pub fn parse_boolean_setting(value: &str) -> (r: Option<bool>)
    ensures
        r == boolean_setting(value@),
{
    let cs = chars_of(value);
    let (a, b) = trim_bounds(cs.as_slice());
    let t = slice_chars(cs.as_slice(), a, b);
    let w = lower_chars(t.as_slice());
    let ws = w.as_slice();
    if is_word(ws, "1") || is_word(ws, "true") || is_word(ws, "yes") || is_word(ws, "on") {
        Some(true)
    } else if is_word(ws, "0") || is_word(ws, "false") || is_word(ws, "no") || is_word(ws, "off") {
        Some(false)
    } else {
        None
    }
}

proof fn lemma_trim_start_upper(s: Seq<char>)
    ensures
        trim_start(ascii_upper_seq(s)) == ascii_upper_seq(trim_start(s)),
    decreases s.len(),
{
    let u = ascii_upper_seq(s);
    if s.len() > 0 {
        assert(u[0] == ascii_upper(s[0]));
        if is_ws(s[0]) {
            assert(u.drop_first() =~= ascii_upper_seq(s.drop_first()));
            lemma_trim_start_upper(s.drop_first());
        }
    } else {
        assert(u =~= s);
    }
}

proof fn lemma_trim_end_upper(s: Seq<char>)
    ensures
        trim_end(ascii_upper_seq(s)) == ascii_upper_seq(trim_end(s)),
    decreases s.len(),
{
    let u = ascii_upper_seq(s);
    if s.len() > 0 {
        assert(u.last() == ascii_upper(s.last()));
        if is_ws(s.last()) {
            assert(u.drop_last() =~= ascii_upper_seq(s.drop_last()));
            lemma_trim_end_upper(s.drop_last());
        }
    } else {
        assert(u =~= s);
    }
}

proof fn lemma_trim_start_ws_prefix(pre: Seq<char>, s: Seq<char>)
    requires
        all_ws(pre),
    ensures
        trim_start(pre + s) == trim_start(s),
    decreases pre.len(),
{
    if pre.len() > 0 {
        assert((pre + s)[0] == pre[0]);
        assert((pre + s).drop_first() =~= pre.drop_first() + s);
        lemma_trim_start_ws_prefix(pre.drop_first(), s);
    } else {
        assert(pre + s =~= s);
    }
}

proof fn lemma_trim_end_ws_suffix(s: Seq<char>, suf: Seq<char>)
    requires
        all_ws(suf),
    ensures
        trim_end(s + suf) == trim_end(s),
    decreases suf.len(),
{
    if suf.len() > 0 {
        assert((s + suf).last() == suf.last());
        assert((s + suf).drop_last() =~= s + suf.drop_last());
        lemma_trim_end_ws_suffix(s, suf.drop_last());
    } else {
        assert(s + suf =~= s);
    }
}

proof fn lemma_trim_ws_suffix(s: Seq<char>, suf: Seq<char>)
    requires
        all_ws(suf),
    ensures
        trim(s + suf) == trim(s),
    decreases s.len(),
{
    if s.len() == 0 {
        assert(s + suf =~= suf);
        lemma_trim_start_ws_prefix(suf, Seq::empty());
        assert(suf + Seq::<char>::empty() =~= suf);
    } else if is_ws(s[0]) {
        assert((s + suf)[0] == s[0]);
        assert((s + suf).drop_first() =~= s.drop_first() + suf);
        lemma_trim_ws_suffix(s.drop_first(), suf);
    } else {
        assert((s + suf)[0] == s[0]);
        lemma_trim_end_ws_suffix(s, suf);
    }
}

/// Upper-casing the ASCII letters of a setting does not change what it
/// means.
pub proof fn law_boolean_setting_ignores_ascii_case(value: Seq<char>)
    ensures
        boolean_setting(ascii_upper_seq(value)) == boolean_setting(value),
{
    lemma_trim_start_upper(value);
    lemma_trim_end_upper(trim_start(value));
    let t = trim(value);
    assert(ascii_lower_seq(ascii_upper_seq(t)) =~= ascii_lower_seq(t)) by {
        assert forall|i: int| 0 <= i < t.len() implies ascii_lower(#[trigger] ascii_upper(t[i])) == ascii_lower(t[i]) by {
            let c = t[i];
            if 'a' <= c && c <= 'z' {
                assert(ascii_upper(c) as u32 == c as u32 - 32);
            }
        }
    }
}

/// Surrounding a setting with whitespace does not change what it means.
pub proof fn law_boolean_setting_ignores_padding(pre: Seq<char>, value: Seq<char>, suf: Seq<char>)
    requires
        all_ws(pre),
        all_ws(suf),
    ensures
        boolean_setting(pre + value + suf) == boolean_setting(value),
{
    assert(pre + value + suf =~= pre + (value + suf));
    lemma_trim_start_ws_prefix(pre, value + suf);
    lemma_trim_ws_suffix(value, suf);
}

/// The index of the first `'\n'` of `s` at or after `i`, or `s.len()`.
pub open spec fn next_newline(s: Seq<char>, i: int) -> int
    decreases s.len() - i,
{
    if i >= s.len() {
        s.len() as int
    } else if s[i] == '\n' {
        i
    } else {
        next_newline(s, i + 1)
    }
}

pub proof fn lemma_next_newline(s: Seq<char>, i: int)
    requires
        0 <= i <= s.len(),
    ensures
        i <= next_newline(s, i) <= s.len(),
        next_newline(s, i) < s.len() ==> s[next_newline(s, i)] == '\n',
        forall|k: int| i <= k < next_newline(s, i) ==> s[k] != '\n',
    decreases s.len() - i,
{
    if i < s.len() && s[i] != '\n' {
        lemma_next_newline(s, i + 1);
    }
}

/// Whether a trimmed line of the `Picture` record is the picture's path:
/// any non-empty line but the record's own label.
pub open spec fn is_picture_line(t: Seq<char>) -> bool {
    t.len() > 0 && t != "Picture:"@
}

/// The first line of `s`, from the line starting at `i` on, whose trimmed
/// text is the picture's path; that text.
pub open spec fn picture_line_from(s: Seq<char>, i: int) -> Option<Seq<char>>
    decreases s.len() - i,
{
    if 0 <= i <= s.len() {
        let e = next_newline(s, i);
        let t = trim(s.subrange(i, e));
        if is_picture_line(t) {
            Some(t)
        } else if e >= s.len() {
            None
        } else {
            proof {
                lemma_next_newline(s, i);
            }
            picture_line_from(s, e + 1)
        }
    } else {
        None
    }
}

/// The login picture's path in the output of `dscl . -read /Users/<user>
/// Picture`: the first line of the (lossily decoded) output that is neither
/// blank nor the `Picture:` label, trimmed.
pub open spec fn picture_path_of(output: Seq<u8>) -> Option<Seq<char>> {
    picture_path_in(utf8_lossy(output))
}

/// The login picture path in the text of a `Picture` record: the first
/// non-blank line, trimmed, that is not the `Picture:` header itself.
pub open spec fn picture_path_in(s: Seq<char>) -> Option<Seq<char>> {
    picture_line_from(s, 0)
}

fn find_newline(s: &[char], i: usize) -> (r: usize)
    requires
        i <= s@.len(),
    ensures
        r == next_newline(s@, i as int),
{
    let mut k = i;
    while k < s.len() && s[k] != '\n'
        invariant
            i <= k <= s@.len(),
            next_newline(s@, i as int) == next_newline(s@, k as int),
        decreases s.len() - k,
    {
        k = k + 1;
    }
    k
}

pub fn macos_picture_path(output: &[u8]) -> (r: Option<String>)
    ensures
        r matches Some(p) ==> picture_path_of(output@) == Some(p@),
        r is None ==> picture_path_of(output@) is None,
        valid_utf8(output@) ==> picture_path_of(output@) == picture_path_in(decode_utf8(output@)),
{
    let s = decode_utf8_lossy(output);
    let ghost sv = s@;
    let picture = chars_of("Picture:");
    let mut i: usize = 0;
    while i <= s.len()
        invariant
            sv == s@,
            sv == utf8_lossy(output@),
            valid_utf8(output@) ==> sv == decode_utf8(output@),
            picture@ == "Picture:"@,
            i <= s@.len() + 1,
            i <= s@.len() ==> picture_line_from(sv, 0) == picture_line_from(sv, i as int),
            i > s@.len() ==> picture_line_from(sv, 0) is None,
        decreases s@.len() + 1 - i,
    {
        let e = find_newline(s.as_slice(), i);
        proof {
            lemma_next_newline(sv, i as int);
        }
        let line = slice_chars(s.as_slice(), i, e);
        let (a, b) = trim_bounds(line.as_slice());
        let t = slice_chars(line.as_slice(), a, b);
        assert(picture_line_from(sv, i as int) == (if is_picture_line(t@) {
            Some(t@)
        } else if e >= sv.len() {
            None
        } else {
            picture_line_from(sv, e + 1)
        }));
        if t.len() > 0 && !chars_equal(t.as_slice(), picture.as_slice()) {
            return Some(string_of(t.as_slice()));
        }
        if e >= s.len() {
            return None;
        }
        i = e + 1;
    }
    None
}

pub open spec fn jpeg_marker() -> Seq<char> {
    "JPEGPhoto:"@
}

/// Whether a whitespace-separated word of `s` equal to `JPEGPhoto:` starts
/// at `i`.
pub open spec fn marker_word_at(s: Seq<char>, i: int) -> bool {
    &&& 0 <= i
    &&& i + jpeg_marker().len() <= s.len()
    &&& (i == 0 || is_ws(s[i - 1]))
    &&& s.subrange(i, i + jpeg_marker().len()) == jpeg_marker()
    &&& (i + jpeg_marker().len() == s.len() || is_ws(s[i + jpeg_marker().len()]))
}

/// The characters of `s` that are not whitespace, in order.
pub open spec fn non_ws(s: Seq<char>) -> Seq<char>
    decreases s.len(),
{
    if s.len() == 0 {
        s
    } else if is_ws(s.last()) {
        non_ws(s.drop_last())
    } else {
        non_ws(s.drop_last()).push(s.last())
    }
}

/// The hexadecimal text of the `JPEGPhoto` record: the words after the first
/// `JPEGPhoto:` word, joined; empty when there is no such word.
pub open spec fn jpeg_hex_of(s: Seq<char>) -> Seq<char> {
    if exists|i: int| marker_word_at(s, i) {
        let i = choose|i: int| marker_word_at(s, i) && forall|j: int| 0 <= j < i ==> !marker_word_at(s, j);
        non_ws(s.skip(i + jpeg_marker().len()))
    } else {
        Seq::empty()
    }
}

/// The bytes that the hexadecimal text `h` spells, two digits per byte.
pub open spec fn hex_bytes(h: Seq<char>) -> Seq<u8> {
    Seq::new(h.len() / 2, |k: int| (16 * hex_value(h[2 * k]) + hex_value(h[2 * k + 1])) as u8)
}

/// The JPEG login photo in the text of a `JPEGPhoto` record, if the
/// record's hexadecimal text is non-empty, of even length and all
/// hexadecimal digits.
pub open spec fn jpeg_photo_in(s: Seq<char>) -> Option<Seq<u8>> {
    let h = jpeg_hex_of(s);
    if h.len() == 0 || h.len() % 2 != 0 || !(forall|k: int| 0 <= k < h.len() ==> is_hex_digit(#[trigger] h[k])) {
        None
    } else {
        Some(hex_bytes(h))
    }
}

/// The JPEG login photo in the output of `dscl . -read /Users/<user>
/// JPEGPhoto`, decoded as UTF-8 with invalid sequences replaced.
pub open spec fn jpeg_photo_of(output: Seq<u8>) -> Option<Seq<u8>> {
    jpeg_photo_in(utf8_lossy(output))
}

/// Whether the hexadecimal text `h` spells `bytes`: two digits per byte,
/// high digit first, letters in either case.
pub open spec fn hex_spells(h: Seq<char>, bytes: Seq<u8>) -> bool {
    &&& h.len() == 2 * bytes.len()
    &&& forall|k: int| 0 <= k < h.len() ==> is_hex_digit(#[trigger] h[k])
    &&& forall|k: int| 0 <= k < bytes.len() ==> 16 * hex_value(h[2 * k]) + hex_value(h[2 * k + 1]) == #[trigger] bytes[k]
}

proof fn lemma_non_ws_concat(a: Seq<char>, b: Seq<char>)
    ensures
        non_ws(a + b) == non_ws(a) + non_ws(b),
    decreases b.len(),
{
    if b.len() == 0 {
        assert(a + b =~= a);
        assert(non_ws(a) + non_ws(b) =~= non_ws(a));
    } else {
        assert((a + b).last() == b.last());
        assert((a + b).drop_last() =~= a + b.drop_last());
        lemma_non_ws_concat(a, b.drop_last());
        if !is_ws(b.last()) {
            assert(non_ws(a) + non_ws(b.drop_last()).push(b.last()) =~= (non_ws(a) + non_ws(b.drop_last())).push(b.last()));
        }
    }
}

proof fn lemma_non_ws_all_ws(w: Seq<char>)
    requires
        all_ws(w),
    ensures
        non_ws(w) == Seq::<char>::empty(),
    decreases w.len(),
{
    if w.len() > 0 {
        assert(w.last() == w[w.len() - 1]);
        lemma_non_ws_all_ws(w.drop_last());
    }
}

/// A record written from any bytes reads back as those bytes: the marker
/// word, whitespace, then the bytes' hexadecimal text broken into words
/// anywhere.
pub proof fn law_jpeg_photo_round_trip(bytes: Seq<u8>, gap: Seq<char>, words: Seq<char>)
    requires
        bytes.len() > 0,
        gap.len() > 0,
        all_ws(gap),
        hex_spells(non_ws(words), bytes),
    ensures
        jpeg_photo_in(jpeg_marker() + gap + words) == Some(bytes),
{
    let s = jpeg_marker() + gap + words;
    let m = jpeg_marker().len();
    assert(s.subrange(0, m as int) =~= jpeg_marker());
    assert(s[m as int] == gap[0]);
    assert(marker_word_at(s, 0));
    lemma_first_marker(s, 0);
    assert(s.skip(m as int) =~= gap + words);
    lemma_non_ws_concat(gap, words);
    lemma_non_ws_all_ws(gap);
    let h = non_ws(words);
    assert(Seq::<char>::empty() + h =~= h);
    assert(jpeg_hex_of(s) == h);
    assert(hex_bytes(h) =~= bytes) by {
        assert forall|k: int| 0 <= k < bytes.len() implies #[trigger] hex_bytes(h)[k] == bytes[k] by {
            assert(is_hex_digit(h[2 * k]) && is_hex_digit(h[2 * k + 1]));
            assert(0 <= hex_value(h[2 * k]) < 16 && 0 <= hex_value(h[2 * k + 1]) < 16);
        }
    }
}

proof fn lemma_first_marker(s: Seq<char>, i: int)
    requires
        marker_word_at(s, i),
        forall|j: int| 0 <= j < i ==> !marker_word_at(s, j),
    ensures
        jpeg_hex_of(s) == non_ws(s.skip(i + jpeg_marker().len())),
{
    let c = choose|c: int| marker_word_at(s, c) && forall|j: int| 0 <= j < c ==> !marker_word_at(s, j);
    assert(marker_word_at(s, c) && forall|j: int| 0 <= j < c ==> !marker_word_at(s, j));
    if c < i {
        assert(!marker_word_at(s, c));
    }
    if i < c {
        assert(!marker_word_at(s, i));
    }
    assert(c == i);
}

fn marker_word_at_exec(s: &[char], i: usize, marker: &[char]) -> (r: bool)
    requires
        marker@ == jpeg_marker(),
    ensures
        r == marker_word_at(s@, i as int),
{
    let m = marker.len();
    if i > s.len() || s.len() - i < m {
        return false;
    }
    if i > 0 && !is_whitespace(s[i - 1]) {
        return false;
    }
    let mut k: usize = 0;
    while k < m
        invariant
            m == marker@.len(),
            marker@ == jpeg_marker(),
            i + m <= s.len(),
            s@.len() == s.len(),
            k <= m,
            forall|q: int| 0 <= q < k ==> s@[i + q] == marker@[q],
        decreases m - k,
    {
        if s[i + k] != marker[k] {
            assert(s@.subrange(i as int, i + m)[k as int] == s@[i + k]);
            assert(s@.subrange(i as int, i + m) != marker@);
            return false;
        }
        k = k + 1;
    }
    assert(s@.subrange(i as int, i + m) =~= marker@);
    i + m == s.len() || is_whitespace(s[i + m])
}

fn strip_whitespace(s: &[char], from: usize) -> (r: Vec<char>)
    requires
        from <= s@.len(),
    ensures
        r@ == non_ws(s@.skip(from as int)),
{
    let mut out: Vec<char> = Vec::new();
    let mut k = from;
    assert(s@.subrange(from as int, from as int) =~= Seq::<char>::empty());
    while k < s.len()
        invariant
            from <= k <= s@.len(),
            out@ == non_ws(s@.subrange(from as int, k as int)),
        decreases s.len() - k,
    {
        assert(s@.subrange(from as int, k + 1).drop_last() =~= s@.subrange(from as int, k as int));
        if !is_whitespace(s[k]) {
            out.push(s[k]);
        }
        k = k + 1;
    }
    assert(s@.subrange(from as int, s@.len() as int) =~= s@.skip(from as int));
    out
}

/// The bytes spelled by the hexadecimal text `hex`, if it is all
/// hexadecimal digits.
fn decode_hex(hex: &[char]) -> (r: Option<Vec<u8>>)
    requires
        hex@.len() % 2 == 0,
    ensures
        r is Some <==> (forall|k: int| 0 <= k < hex@.len() ==> is_hex_digit(#[trigger] hex@[k])),
        r matches Some(v) ==> v@ == hex_bytes(hex@),
{
    let n = hex.len();
    let mut q: usize = 0;
    while q < n
        invariant
            n == hex@.len(),
            q <= n,
            forall|p: int| 0 <= p < q ==> is_hex_digit(#[trigger] hex@[p]),
        decreases n - q,
    {
        if hex_digit_value(hex[q]).is_none() {
            return None;
        }
        q = q + 1;
    }
    let mut bytes: Vec<u8> = Vec::new();
    let mut k: usize = 0;
    let mut j: usize = 0;
    while j < n
        invariant
            n == hex@.len(),
            n % 2 == 0,
            j == 2 * k,
            j <= n,
            bytes@.len() == k,
            forall|p: int| 0 <= p < n ==> is_hex_digit(#[trigger] hex@[p]),
            forall|p: int| 0 <= p < k ==> #[trigger] bytes@[p] == hex_bytes(hex@)[p],
        decreases n - j,
    {
        assert(j + 1 < n);
        let hi = hex_digit_value(hex[j]);
        let lo = hex_digit_value(hex[j + 1]);
        let h = hi.unwrap();
        let l = lo.unwrap();
        assert(h < 16 && l < 16);
        bytes.push(h * 16 + l);
        assert(bytes@[k as int] == hex_bytes(hex@)[k as int]);
        k = k + 1;
        j = j + 2;
    }
    assert(bytes@ =~= hex_bytes(hex@));
    Some(bytes)
}

pub fn macos_jpeg_photo(output: &[u8]) -> (r: Option<Vec<u8>>)
    ensures
        r matches Some(v) ==> jpeg_photo_of(output@) == Some(v@),
        r is None ==> jpeg_photo_of(output@) is None,
        valid_utf8(output@) ==> jpeg_photo_of(output@) == jpeg_photo_in(decode_utf8(output@)),
{
    let s = decode_utf8_lossy(output);
    let ghost sv = s@;
    let marker = chars_of("JPEGPhoto:");
    let mut i: usize = 0;
    while i < s.len() && !marker_word_at_exec(s.as_slice(), i, marker.as_slice())
        invariant
            sv == s@,
            sv == utf8_lossy(output@),
            marker@ == jpeg_marker(),
            i <= s@.len(),
            forall|j: int| 0 <= j < i ==> !marker_word_at(sv, j),
        decreases s.len() - i,
    {
        i = i + 1;
    }
    proof {
        reveal_strlit("JPEGPhoto:");
    }
    let hex: Vec<char> = if i < s.len() {
        proof {
            lemma_first_marker(sv, i as int);
        }
        strip_whitespace(s.as_slice(), i + marker.len())
    } else {
        proof {
            assert forall|j: int| !marker_word_at(sv, j) by {
                if 0 <= j && j >= i as int {
                    assert(j + jpeg_marker().len() > sv.len());
                }
            }
        }
        Vec::new()
    };
    assert(hex@ == jpeg_hex_of(sv));
    let n = hex.len();
    if n == 0 || n % 2 != 0 {
        return None;
    }
    decode_hex(hex.as_slice())
}

/// Whether `s` starts with `prefix`.
pub open spec fn has_prefix(s: Seq<char>, prefix: Seq<char>) -> bool {
    prefix.len() <= s.len() && s.take(prefix.len() as int) == prefix
}

/// The avatar URL in the output of `gh api user --jq .avatar_url`: the
/// trimmed output, when it is an `https://` URL.
pub open spec fn github_avatar_url_of(output: Seq<u8>) -> Option<Seq<char>> {
    github_avatar_url_in(utf8_lossy(output))
}

/// The avatar URL in the text printed by the GitHub CLI: the trimmed text,
/// when it is an `https://` URL.
pub open spec fn github_avatar_url_in(s: Seq<char>) -> Option<Seq<char>> {
    let t = trim(s);
    if has_prefix(t, "https://"@) {
        Some(t)
    } else {
        None
    }
}

fn starts_with_chars(s: &[char], prefix: &[char]) -> (r: bool)
    ensures
        r == has_prefix(s@, prefix@),
{
    if prefix.len() > s.len() {
        return false;
    }
    let mut k: usize = 0;
    while k < prefix.len()
        invariant
            prefix@.len() <= s@.len(),
            k <= prefix@.len(),
            forall|q: int| 0 <= q < k ==> s@[q] == prefix@[q],
        decreases prefix.len() - k,
    {
        if s[k] != prefix[k] {
            assert(s@.take(prefix@.len() as int)[k as int] != prefix@[k as int]);
            return false;
        }
        k = k + 1;
    }
    assert(s@.take(prefix@.len() as int) =~= prefix@);
    true
}

/// The GitHub avatar URL to download, from the output of the GitHub CLI.
pub fn github_avatar_url(output: &[u8]) -> (r: Option<String>)
    ensures
        r matches Some(u) ==> github_avatar_url_of(output@) == Some(u@),
        r is None ==> github_avatar_url_of(output@) is None,
        valid_utf8(output@) ==> github_avatar_url_of(output@) == github_avatar_url_in(decode_utf8(output@)),
{
    let s = decode_utf8_lossy(output);
    let (a, b) = trim_bounds(s.as_slice());
    let t = slice_chars(s.as_slice(), a, b);
    let prefix = chars_of("https://");
    if starts_with_chars(t.as_slice(), prefix.as_slice()) {
        Some(string_of(t.as_slice()))
    } else {
        None
    }
}

/// The bytes that `application/x-www-form-urlencoded` keeps as they are.
pub open spec fn form_unchanged(b: u8) -> bool {
    b == 0x2A || b == 0x2D || b == 0x2E || b == 0x5F || (0x30 <= b <= 0x39) || (0x41 <= b <= 0x5A)
        || (0x61 <= b <= 0x7A)
}

/// An upper-case hexadecimal digit.
pub open spec fn upper_hex_digit(v: int) -> char {
    if v < 10 {
        ('0' as int + v) as char
    } else {
        ('A' as int + v - 10) as char
    }
}

/// How `application/x-www-form-urlencoded` writes one byte: unchanged, `+`
/// for a space, `%XX` (upper-case hexadecimal) otherwise.
pub open spec fn form_encoded_byte(b: u8) -> Seq<char> {
    if form_unchanged(b) {
        seq![b as char]
    } else if b == 0x20 {
        seq!['+']
    } else {
        seq!['%', upper_hex_digit(b as int / 16), upper_hex_digit(b as int % 16)]
    }
}

/// The `application/x-www-form-urlencoded` serialization of `bytes`.
pub open spec fn form_encoded(bytes: Seq<u8>) -> Seq<char>
    decreases bytes.len(),
{
    if bytes.len() == 0 {
        Seq::empty()
    } else {
        form_encoded(bytes.drop_last()) + form_encoded_byte(bytes.last())
    }
}

/// Calls `url::form_urlencoded::byte_serialize` on the UTF-8 bytes of
/// `input` and collects the pieces. The contract restates the crate's
/// serializer: bytes of `*-._0-9A-Za-z` unchanged, a space as `+`, any other
/// byte as `%` and two upper-case hexadecimal digits.
#[verifier::external_body]
fn form_urlencode(input: &str) -> (r: String)
    ensures
        r@ == form_encoded(input.spec_bytes()),
{
    url::form_urlencoded::byte_serialize(input.as_bytes()).collect()
}

/// The Termy deep link that opens a new tab in `dir`.
pub open spec fn termy_url(dir: Seq<char>) -> Seq<char> {
    "termy://new?dir="@ + form_encoded(encode_utf8(dir))
}

/// Termy rejects folder file URLs; its new-tab route takes the working
/// directory as an encoded query parameter instead.
pub fn termy_open_url(path: &str) -> (r: String)
    ensures
        r@ == termy_url(path@),
{
    let encoded = form_urlencode(path);
    let mut url = String::from_str("termy://new?dir=");
    url.append(encoded.as_str());
    url
}

/// Termy's bundle identifier.
pub open spec fn termy_bundle_id() -> Seq<char> {
    "com.lassevestergaard.termy"@
}

/// What to hand an application that should open a project folder.
#[derive(Debug)]
pub enum OpenInAppRequest {
    /// A URL of the application's own scheme.
    DeepLink(String),
    /// The folder itself, as a file URL.
    Folder(String),
}

/// How `path` is opened in the application `bundle_id`: Termy through its
/// new-tab deep link, every other application with the folder.
pub fn open_path_in_app(path: &str, bundle_id: &str) -> (r: OpenInAppRequest)
    ensures
        bundle_id@ == termy_bundle_id() ==> (r matches OpenInAppRequest::DeepLink(u) && u@ == termy_url(path@)),
        bundle_id@ != termy_bundle_id() ==> (r matches OpenInAppRequest::Folder(p) && p@ == path@),
{
    if str_equal(bundle_id, "com.lassevestergaard.termy") {
        OpenInAppRequest::DeepLink(termy_open_url(path))
    } else {
        OpenInAppRequest::Folder(owned(path))
    }
}

/// The label of a shortcut on `platform`: the macOS spelling on macOS, the
/// other spelling elsewhere.
pub fn primary_shortcut<'a>(platform: Platform, macos: &'a str, other: &'a str) -> (r: &'a str)
    ensures
        r == (if platform is MacOs { macos } else { other }),
{
    if matches!(platform, Platform::MacOs) {
        macos
    } else {
        other
    }
}

/// Liquid Glass is offered on macOS 26 and later, or wherever AppKit has
/// `NSGlassView`; never on other platforms.
pub fn supports_liquid_glass(platform: Platform, macos_major_version: i64, glass_view_available: bool) -> (r: bool)
    ensures
        r == (platform is MacOs && (macos_major_version >= 26 || glass_view_available)),
{
    matches!(platform, Platform::MacOs) && (macos_major_version >= 26 || glass_view_available)
}

/// Calls `std::str::from_utf8`: the characters of `bytes` when they are
/// valid UTF-8, as std documents it.
#[verifier::external_body]
fn utf8_chars(bytes: &[u8]) -> (r: Option<Vec<char>>)
    ensures
        r is Some <==> valid_utf8(bytes@),
        r matches Some(cs) ==> cs@ == decode_utf8(bytes@),
{
    match std::str::from_utf8(bytes) {
        Ok(s) => Some(s.chars().collect()),
        Err(_) => None,
    }
}

/// Whether GNOME asks for reduced motion, from the output of `gsettings get
/// org.gnome.desktop.interface enable-animations`: only an output that reads
/// as `false` turns animations off.
pub open spec fn gnome_reduce_motion(stdout: Seq<u8>) -> bool {
    valid_utf8(stdout) && boolean_setting(decode_utf8(stdout)) == Some(false)
}

pub fn linux_reduce_motion_enabled(gsettings_stdout: Option<&[u8]>) -> (r: bool)
    ensures
        r == (gsettings_stdout matches Some(out) && gnome_reduce_motion(out@)),
{
    match gsettings_stdout {
        None => false,
        Some(out) => match utf8_chars(out) {
            None => false,
            Some(cs) => {
                let text = string_of(cs.as_slice());
                match parse_boolean_setting(text.as_str()) {
                    Some(animations_enabled) => !animations_enabled,
                    None => false,
                }
            },
        },
    }
}

/// The reduce-motion setting on Linux: `INSULATOR_REDUCE_MOTION` when it
/// holds a boolean, otherwise GNOME's animation preference.
pub fn linux_reduce_motion(env_value: Option<&str>, gsettings_stdout: Option<&[u8]>) -> (r: bool)
    ensures
        r == (if env_value matches Some(v) && boolean_setting(v@) is Some {
            boolean_setting(env_value->0@)->0
        } else {
            gsettings_stdout matches Some(out) && gnome_reduce_motion(out@)
        }),
{
    if let Some(v) = env_value {
        if let Some(enabled) = parse_boolean_setting(v) {
            return enabled;
        }
    }
    linux_reduce_motion_enabled(gsettings_stdout)
}

/// The reduce-motion setting on Windows, from `SystemParametersInfoW` with
/// `SPI_GETCLIENTAREAANIMATION`: set only when the read succeeded, and on
/// when animations are off.
pub fn windows_reduce_motion(read_result: i32, animations_enabled: i32) -> (r: Option<bool>)
    ensures
        r == (if read_result != 0 { Some(animations_enabled == 0) } else { None::<bool> }),
{
    if read_result != 0 {
        Some(animations_enabled == 0)
    } else {
        None
    }
}

/// The arguments of the `defaults` call that turns font smoothing on or off
/// for the app's bundle (`sh.insulator.dev` for debug builds).
pub open spec fn font_smoothing_args(enabled: bool, debug_build: bool) -> Seq<Seq<char>> {
    seq![
        "write"@,
        if debug_build { "sh.insulator.dev"@ } else { "sh.insulator"@ },
        "AppleFontSmoothing"@,
        "-int"@,
        if enabled { "1"@ } else { "0"@ },
    ]
}

pub fn font_smoothing_defaults_args(enabled: bool, debug_build: bool) -> (r: Vec<&'static str>)
    ensures
        r@.len() == 5,
        forall|k: int| 0 <= k < 5 ==> (#[trigger] r@[k])@ == font_smoothing_args(enabled, debug_build)[k],
{
    let bundle_id = if debug_build { "sh.insulator.dev" } else { "sh.insulator" };
    let value = if enabled { "1" } else { "0" };
    let mut v: Vec<&'static str> = Vec::new();
    v.push("write");
    v.push(bundle_id);
    v.push("AppleFontSmoothing");
    v.push("-int");
    v.push(value);
    v
}

/// An application the "open project in" control can target: a stable id,
/// its label, and every bundle id it ships under, preferred first.
#[derive(Debug)]
pub struct OpenInApp {
    pub id: &'static str,
    pub label: &'static str,
    pub bundle_ids: Vec<&'static str>,
}

/// The known folder-capable applications, in menu order: editors, the file
/// manager, terminals, IDEs.
pub open spec fn open_in_catalog_spec() -> Seq<(Seq<char>, Seq<char>, Seq<Seq<char>>)> {
    seq![
        ("vscode"@, "VS Code"@, seq!["com.microsoft.VSCode"@]),
        ("cursor"@, "Cursor"@, seq!["com.todesktop.230313mzl4w4u92"@]),
        ("zed"@, "Zed"@, seq!["dev.zed.Zed"@, "dev.zed.Zed-Preview"@]),
        ("finder"@, "Finder"@, seq!["com.apple.finder"@]),
        ("terminal"@, "Terminal"@, seq!["com.apple.Terminal"@]),
        ("termy"@, "Termy"@, seq!["com.lassevestergaard.termy"@]),
        ("iterm2"@, "iTerm2"@, seq!["com.googlecode.iterm2"@]),
        ("kitty"@, "Kitty"@, seq!["net.kovidgoyal.kitty"@]),
        ("ghostty"@, "Ghostty"@, seq!["com.mitchellh.ghostty"@]),
        ("warp"@, "Warp"@, seq!["dev.warp.Warp-Stable"@, "dev.warp.Warp"@]),
        ("xcode"@, "Xcode"@, seq!["com.apple.dt.Xcode"@]),
        ("android-studio"@, "Android Studio"@, seq!["com.google.android.studio"@]),
    ]
}

/// The applications offered, each under its own id, with the label shown
/// and the bundle ids it is found by (in the order they are tried); no id
/// is listed twice, and Termy is found by the bundle id its deep links go to.
pub proof fn law_open_in_catalog_entries()
    ensures
        ({
            let c = open_in_catalog_spec();
            &&& c.len() == 12
            &&& forall|i: int, j: int| 0 <= i < j < c.len() ==> #[trigger] c[i].0 != #[trigger] c[j].0
        }),
        ({
            let c = open_in_catalog_spec();
            forall|i: int| 0 <= i < c.len() && #[trigger] c[i].0 == "termy"@ ==> c[i].2 == seq![termy_bundle_id()]
        }),
        ({
            let c = open_in_catalog_spec();
            &&& (exists|i: int| 0 <= i < c.len() && #[trigger] c[i].0 == "vscode"@)
            &&& forall|i: int| 0 <= i < c.len() && #[trigger] c[i].0 == "vscode"@ ==> c[i] == ("vscode"@, "VS Code"@, seq!["com.microsoft.VSCode"@])
        }),
        ({
            let c = open_in_catalog_spec();
            &&& (exists|i: int| 0 <= i < c.len() && #[trigger] c[i].0 == "cursor"@)
            &&& forall|i: int| 0 <= i < c.len() && #[trigger] c[i].0 == "cursor"@ ==> c[i] == ("cursor"@, "Cursor"@, seq!["com.todesktop.230313mzl4w4u92"@])
        }),
        ({
            let c = open_in_catalog_spec();
            &&& (exists|i: int| 0 <= i < c.len() && #[trigger] c[i].0 == "zed"@)
            &&& forall|i: int| 0 <= i < c.len() && #[trigger] c[i].0 == "zed"@ ==> c[i] == ("zed"@, "Zed"@, seq!["dev.zed.Zed"@, "dev.zed.Zed-Preview"@])
        }),
        ({
            let c = open_in_catalog_spec();
            &&& (exists|i: int| 0 <= i < c.len() && #[trigger] c[i].0 == "finder"@)
            &&& forall|i: int| 0 <= i < c.len() && #[trigger] c[i].0 == "finder"@ ==> c[i] == ("finder"@, "Finder"@, seq!["com.apple.finder"@])
        }),
        ({
            let c = open_in_catalog_spec();
            &&& (exists|i: int| 0 <= i < c.len() && #[trigger] c[i].0 == "terminal"@)
            &&& forall|i: int| 0 <= i < c.len() && #[trigger] c[i].0 == "terminal"@ ==> c[i] == ("terminal"@, "Terminal"@, seq!["com.apple.Terminal"@])
        }),
        ({
            let c = open_in_catalog_spec();
            &&& (exists|i: int| 0 <= i < c.len() && #[trigger] c[i].0 == "termy"@)
            &&& forall|i: int| 0 <= i < c.len() && #[trigger] c[i].0 == "termy"@ ==> c[i] == ("termy"@, "Termy"@, seq!["com.lassevestergaard.termy"@])
        }),
        ({
            let c = open_in_catalog_spec();
            &&& (exists|i: int| 0 <= i < c.len() && #[trigger] c[i].0 == "iterm2"@)
            &&& forall|i: int| 0 <= i < c.len() && #[trigger] c[i].0 == "iterm2"@ ==> c[i] == ("iterm2"@, "iTerm2"@, seq!["com.googlecode.iterm2"@])
        }),
        ({
            let c = open_in_catalog_spec();
            &&& (exists|i: int| 0 <= i < c.len() && #[trigger] c[i].0 == "kitty"@)
            &&& forall|i: int| 0 <= i < c.len() && #[trigger] c[i].0 == "kitty"@ ==> c[i] == ("kitty"@, "Kitty"@, seq!["net.kovidgoyal.kitty"@])
        }),
        ({
            let c = open_in_catalog_spec();
            &&& (exists|i: int| 0 <= i < c.len() && #[trigger] c[i].0 == "ghostty"@)
            &&& forall|i: int| 0 <= i < c.len() && #[trigger] c[i].0 == "ghostty"@ ==> c[i] == ("ghostty"@, "Ghostty"@, seq!["com.mitchellh.ghostty"@])
        }),
        ({
            let c = open_in_catalog_spec();
            &&& (exists|i: int| 0 <= i < c.len() && #[trigger] c[i].0 == "warp"@)
            &&& forall|i: int| 0 <= i < c.len() && #[trigger] c[i].0 == "warp"@ ==> c[i] == ("warp"@, "Warp"@, seq!["dev.warp.Warp-Stable"@, "dev.warp.Warp"@])
        }),
        ({
            let c = open_in_catalog_spec();
            &&& (exists|i: int| 0 <= i < c.len() && #[trigger] c[i].0 == "xcode"@)
            &&& forall|i: int| 0 <= i < c.len() && #[trigger] c[i].0 == "xcode"@ ==> c[i] == ("xcode"@, "Xcode"@, seq!["com.apple.dt.Xcode"@])
        }),
        ({
            let c = open_in_catalog_spec();
            &&& (exists|i: int| 0 <= i < c.len() && #[trigger] c[i].0 == "android-studio"@)
            &&& forall|i: int| 0 <= i < c.len() && #[trigger] c[i].0 == "android-studio"@ ==> c[i] == ("android-studio"@, "Android Studio"@, seq!["com.google.android.studio"@])
        }),
{
    let c = open_in_catalog_spec();
    reveal_strlit("vscode");
    reveal_strlit("cursor");
    reveal_strlit("zed");
    reveal_strlit("finder");
    reveal_strlit("terminal");
    reveal_strlit("termy");
    reveal_strlit("iterm2");
    reveal_strlit("kitty");
    reveal_strlit("ghostty");
    reveal_strlit("warp");
    reveal_strlit("xcode");
    reveal_strlit("android-studio");
    assert(c[0].0 == "vscode"@);
    assert(c[1].0 == "cursor"@);
    assert(c[2].0 == "zed"@);
    assert(c[3].0 == "finder"@);
    assert(c[4].0 == "terminal"@);
    assert(c[5].0 == "termy"@);
    assert(c[6].0 == "iterm2"@);
    assert(c[7].0 == "kitty"@);
    assert(c[8].0 == "ghostty"@);
    assert(c[9].0 == "warp"@);
    assert(c[10].0 == "xcode"@);
    assert(c[11].0 == "android-studio"@);
    assert forall|i: int, j: int| 0 <= i < j < c.len() implies #[trigger] c[i].0 != #[trigger] c[j].0 by {
        if c[i].0 == c[j].0 {
            assert(c[i].0.len() == c[j].0.len());
            assert(c[i].0[0] == c[j].0[0]);
            assert(c[i].0[c[i].0.len() - 1] == c[j].0[c[j].0.len() - 1]);
        }
    }
    assert(c[5].2 == seq![termy_bundle_id()]);
}

/// Whether `app` is the catalog entry `e`.
pub open spec fn is_entry(app: OpenInApp, e: (Seq<char>, Seq<char>, Seq<Seq<char>>)) -> bool {
    &&& app.id@ == e.0
    &&& app.label@ == e.1
    &&& app.bundle_ids@.len() == e.2.len()
    &&& forall|k: int| 0 <= k < e.2.len() ==> (#[trigger] app.bundle_ids@[k])@ == e.2[k]
}

fn catalog_app(id: &'static str, label: &'static str, bundle_ids: Vec<&'static str>) -> (r: OpenInApp)
    ensures
        r.id == id,
        r.label == label,
        r.bundle_ids == bundle_ids,
{
    OpenInApp { id, label, bundle_ids }
}

fn one(a: &'static str) -> (r: Vec<&'static str>)
    ensures
        r@ == seq![a],
{
    let mut v: Vec<&'static str> = Vec::new();
    v.push(a);
    v
}

fn two(a: &'static str, b: &'static str) -> (r: Vec<&'static str>)
    ensures
        r@ == seq![a, b],
{
    let mut v: Vec<&'static str> = Vec::new();
    v.push(a);
    v.push(b);
    v
}

pub fn open_in_catalog() -> (r: Vec<OpenInApp>)
    ensures
        r@.len() == open_in_catalog_spec().len(),
        forall|i: int| 0 <= i < r@.len() ==> is_entry(#[trigger] r@[i], open_in_catalog_spec()[i]),
{
    let mut v: Vec<OpenInApp> = Vec::new();
    v.push(catalog_app("vscode", "VS Code", one("com.microsoft.VSCode")));
    v.push(catalog_app("cursor", "Cursor", one("com.todesktop.230313mzl4w4u92")));
    v.push(catalog_app("zed", "Zed", two("dev.zed.Zed", "dev.zed.Zed-Preview")));
    v.push(catalog_app("finder", "Finder", one("com.apple.finder")));
    v.push(catalog_app("terminal", "Terminal", one("com.apple.Terminal")));
    v.push(catalog_app("termy", "Termy", one("com.lassevestergaard.termy")));
    v.push(catalog_app("iterm2", "iTerm2", one("com.googlecode.iterm2")));
    v.push(catalog_app("kitty", "Kitty", one("net.kovidgoyal.kitty")));
    v.push(catalog_app("ghostty", "Ghostty", one("com.mitchellh.ghostty")));
    v.push(catalog_app("warp", "Warp", two("dev.warp.Warp-Stable", "dev.warp.Warp")));
    v.push(catalog_app("xcode", "Xcode", one("com.apple.dt.Xcode")));
    v.push(catalog_app("android-studio", "Android Studio", one("com.google.android.studio")));
    assert forall|i: int| 0 <= i < v@.len() implies is_entry(#[trigger] v@[i], open_in_catalog_spec()[i]) by {
        assert(v@[i].bundle_ids@.len() == open_in_catalog_spec()[i].2.len());
    }
    v
}

/// The first position in `found` that holds `true`.
pub open spec fn first_found(found: Seq<bool>) -> Option<int> {
    if exists|j: int| 0 <= j < found.len() && found[j] {
        Some(choose|j: int| 0 <= j < found.len() && found[j] && forall|k: int| 0 <= k < j ==> !found[k])
    } else {
        None
    }
}

/// The detected applications: for each catalog entry in order, the first of
/// its bundle ids that resolved (application, path and icon found), as
/// (entry, bundle id) positions; entries with none are left out.
pub open spec fn detected_apps(resolved: Seq<Seq<bool>>) -> Seq<(usize, usize)>
    decreases resolved.len(),
{
    if resolved.len() == 0 {
        Seq::empty()
    } else {
        let rest = detected_apps(resolved.drop_last());
        match first_found(resolved.last()) {
            Some(j) => rest.push(((resolved.len() - 1) as usize, j as usize)),
            None => rest,
        }
    }
}

pub(crate) fn first_found_exec(found: &Vec<bool>) -> (r: Option<usize>)
    ensures
        r matches Some(j) ==> first_found(found@) == Some(j as int),
        r is None ==> first_found(found@) is None,
{
    let mut j: usize = 0;
    while j < found.len()
        invariant
            j <= found@.len(),
            forall|k: int| 0 <= k < j ==> !found@[k],
        decreases found.len() - j,
    {
        if found[j] {
            proof {
                let c = choose|c: int| 0 <= c < found@.len() && found@[c] && forall|k: int| 0 <= k < c ==> !found@[k];
                assert(0 <= j < found@.len() && found@[j as int]);
                if c < j {
                    assert(!found@[c]);
                }
                if c > j {
                    assert(!found@[j as int]);
                }
            }
            return Some(j);
        }
        j = j + 1;
    }
    None
}

/// Which catalog applications are installed, from whether each of their
/// bundle ids resolved on this machine (`resolved[i][j]` for bundle id `j`
/// of entry `i`).
pub fn detect_open_in_apps(resolved: &[Vec<bool>]) -> (r: Vec<(usize, usize)>)
    ensures
        r@ == detected_apps(resolved@.map_values(|v: Vec<bool>| v@)),
{
    let ghost views = resolved@.map_values(|v: Vec<bool>| v@);
    let mut out: Vec<(usize, usize)> = Vec::new();
    let mut i: usize = 0;
    assert(views.take(0) =~= Seq::<Seq<bool>>::empty());
    while i < resolved.len()
        invariant
            i <= resolved@.len(),
            views == resolved@.map_values(|v: Vec<bool>| v@),
            out@ == detected_apps(views.take(i as int)),
        decreases resolved.len() - i,
    {
        let ghost next = views.take(i + 1);
        assert(next.drop_last() =~= views.take(i as int));
        assert(next.last() == resolved@[i as int]@);
        if let Some(j) = first_found_exec(&resolved[i]) {
            out.push((i, j));
        }
        i = i + 1;
    }
    assert(views.take(resolved@.len() as int) =~= views);
    out
}

} // verus!
