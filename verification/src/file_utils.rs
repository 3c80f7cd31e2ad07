//! Filename helpers: sanitising a video title into a safe filename and
//! normalising a container format to a file extension.

use vstd::prelude::*;

use crate::text::{push_char, trim_spec};

verus! {

/// Characters that may not appear in a filename; each is replaced by `'_'`.
pub open spec fn is_reserved_filename_char(c: char) -> bool {
    c == '/' || c == '\\' || c == ':' || c == '*' || c == '?' || c == '"' || c == '<' || c == '>'
        || c == '|'
}

/// Control characters (the Unicode `Cc` category): these too are replaced.
pub open spec fn is_control_char(c: char) -> bool {
    (c as u32) < 0x20 || (0x7f <= (c as u32) && (c as u32) <= 0x9f)
}

pub open spec fn sanitize_char(c: char) -> char {
    if is_reserved_filename_char(c) || is_control_char(c) {
        '_'
    } else {
        c
    }
}

fn exec_sanitize_char(c: char) -> (r: char)
    ensures
        r == sanitize_char(c),
{
    let n = c as u32;
    if c == '/' || c == '\\' || c == ':' || c == '*' || c == '?' || c == '"' || c == '<' || c == '>'
        || c == '|' || n < 0x20 || (0x7f <= n && n <= 0x9f) {
        '_'
    } else {
        c
    }
}

/// The longest a sanitised filename may grow, in characters.
pub const MAX_FILENAME_CHARS: usize = 200;

pub open spec fn truncate_chars(s: Seq<char>, n: int) -> Seq<char> {
    if s.len() > n {
        s.subrange(0, n)
    } else {
        s
    }
}

/// What `sanitize_filename` returns: every reserved or control character
/// replaced by `'_'`, surrounding whitespace stripped, the result limited to
/// `MAX_FILENAME_CHARS` characters, and an empty result replaced by `"video"`.
pub open spec fn sanitize_spec(s: Seq<char>) -> Seq<char> {
    let t = truncate_chars(
        trim_spec(s.map_values(|c: char| sanitize_char(c))),
        MAX_FILENAME_CHARS as int,
    );
    if t.len() == 0 {
        "video"@
    } else {
        t
    }
}

/// Generate a safe filename from a video title.
pub fn sanitize_filename(title: &str) -> (r: String)
    ensures
        r@ == sanitize_spec(title@),
{
    let n = title.unicode_len();
    let mut mapped = String::new();
    let mut i: usize = 0;
    while i < n
        invariant
            i <= n,
            n == title@.len(),
            mapped@.len() == i,
            forall|j: int| 0 <= j < i ==> mapped@[j] == sanitize_char(title@[j]),
        decreases n - i,
    {
        push_char(&mut mapped, exec_sanitize_char(title.get_char(i)));
        i = i + 1;
    }
    proof {
        assert(mapped@ =~= title@.map_values(|c: char| sanitize_char(c)));
    }
    let trimmed = crate::text::trim_str(mapped.as_str());
    let tlen = trimmed.as_str().unicode_len();
    let limited = if tlen > MAX_FILENAME_CHARS {
        let cut = trimmed.as_str().substring_char(0, MAX_FILENAME_CHARS);
        String::from_str(cut)
    } else {
        trimmed
    };
    if limited.as_str().unicode_len() == 0 {
        String::from_str("video")
    } else {
        limited
    }
}

pub open spec fn ascii_chars_eq_ignore_case(a: char, b: char) -> bool {
    a == b || ('A' <= a && a <= 'Z' && (a as u32) + 32 == (b as u32))
}

/// The format names a known lower-case container `t`, compared as
/// `str::to_lowercase` would fold ASCII letters.
pub open spec fn names_container(s: Seq<char>, t: Seq<char>) -> bool {
    s.len() == t.len() && (forall|i: int| 0 <= i < s.len() ==> ascii_chars_eq_ignore_case(
        s[i],
        t[i],
    ))
}

/// What `get_file_extension` returns for a given format name.
pub open spec fn extension_for(s: Seq<char>) -> Seq<char> {
    if names_container(s, "mp4"@) {
        "mp4"@
    } else if names_container(s, "webm"@) {
        "webm"@
    } else if names_container(s, "mkv"@) {
        "mkv"@
    } else if names_container(s, "avi"@) {
        "avi"@
    } else if names_container(s, "mov"@) {
        "mov"@
    } else {
        "mp4"@
    }
}

fn eq_ignore_ascii_case_str(s: &str, t: &str) -> (r: bool)
    ensures
        r == names_container(s@, t@),
{
    let slen = s.unicode_len();
    let tlen = t.unicode_len();
    if slen != tlen {
        return false;
    }
    let mut i: usize = 0;
    while i < slen
        invariant
            i <= slen,
            slen == s@.len(),
            slen == t@.len(),
            forall|j: int| 0 <= j < i ==> ascii_chars_eq_ignore_case(s@[j], t@[j]),
        decreases slen - i,
    {
        let a = s.get_char(i);
        let b = t.get_char(i);
        let ok = a == b || ('A' <= a && a <= 'Z' && (a as u32) + 32 == (b as u32));
        if !ok {
            return false;
        }
        i = i + 1;
    }
    true
}

/// Get the file extension for the given container format; unknown formats
/// fall back to `"mp4"`.
pub fn get_file_extension(format: &str) -> (r: &'static str)
    ensures
        r@ == extension_for(format@),
{
    if eq_ignore_ascii_case_str(format, "mp4") {
        "mp4"
    } else if eq_ignore_ascii_case_str(format, "webm") {
        "webm"
    } else if eq_ignore_ascii_case_str(format, "mkv") {
        "mkv"
    } else if eq_ignore_ascii_case_str(format, "avi") {
        "avi"
    } else if eq_ignore_ascii_case_str(format, "mov") {
        "mov"
    } else {
        "mp4"
    }
}

} // verus!
