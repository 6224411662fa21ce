//! Path-string helpers: file-name and extension structure, the sidecar rule
//! that finds a song's lyric file, and the audio-extension filter used when
//! scanning a library directory.
//!
//! Paths are handled as plain strings; `/` and `\` both separate
//! components.

use vstd::prelude::*;

use crate::text::str_to_chars;

verus! {

/// A path-component separator.
pub open spec fn is_path_sep(c: char) -> bool {
    c == '/' || c == '\\'
}

pub fn exec_is_path_sep(c: char) -> (r: bool)
    ensures
        r == is_path_sep(c),
{
    c == '/' || c == '\\'
}

/// The index where the file name starts: just after the last separator, or
/// the start of the string if it has none.
pub open spec fn file_name_start(s: Seq<char>) -> int
    decreases s.len(),
{
    if s.len() == 0 {
        0
    } else if is_path_sep(s.last()) {
        s.len() as int
    } else {
        file_name_start(s.drop_last())
    }
}

proof fn lemma_file_name_start_eq(s: Seq<char>, k: int)
    requires
        0 <= k <= s.len(),
        k == 0 || is_path_sep(s[k - 1]),
        forall|j: int| k <= j < s.len() ==> !is_path_sep(#[trigger] s[j]),
    ensures
        file_name_start(s) == k,
    decreases s.len(),
{
    if s.len() > 0 && !is_path_sep(s.last()) {
        lemma_file_name_start_eq(s.drop_last(), k);
    }
}

/// The position of the dot that opens the extension: the last `.` inside
/// the file name, except that a dot opening the file name itself (a hidden
/// file) opens no extension.
pub open spec fn extension_dot(s: Seq<char>, name_start: int) -> Option<int>
    decreases s.len(),
{
    if s.len() == 0 || s.len() <= name_start + 1 {
        None
    } else if s.last() == '.' {
        Some(s.len() - 1)
    } else {
        extension_dot(s.drop_last(), name_start)
    }
}

proof fn lemma_extension_dot_some(s: Seq<char>, name_start: int, d: int)
    requires
        0 <= name_start,
        name_start + 1 <= d < s.len(),
        s[d] == '.',
        forall|j: int| d < j < s.len() ==> s[j] != '.',
    ensures
        extension_dot(s, name_start) == Some(d),
    decreases s.len(),
{
    if d < s.len() - 1 {
        lemma_extension_dot_some(s.drop_last(), name_start, d);
    }
}

proof fn lemma_extension_dot_none(s: Seq<char>, name_start: int)
    requires
        0 <= name_start,
        forall|j: int| name_start + 1 <= j < s.len() ==> s[j] != '.',
    ensures
        extension_dot(s, name_start) is None,
    decreases s.len(),
{
    if s.len() > name_start + 1 {
        lemma_extension_dot_none(s.drop_last(), name_start);
    }
}

/// The extension of a path, without its dot, if the file name has one.
pub open spec fn spec_extension(s: Seq<char>) -> Option<Seq<char>> {
    match extension_dot(s, file_name_start(s)) {
        Some(d) => Some(s.subrange(d + 1, s.len() as int)),
        None => None,
    }
}

/// A path with its extension replaced by `lrc`: the sidecar rule. A path
/// without an extension gets `.lrc` appended.
pub open spec fn spec_sidecar(s: Seq<char>) -> Seq<char> {
    match extension_dot(s, file_name_start(s)) {
        Some(d) => s.subrange(0, d) + ".lrc"@,
        None => s + ".lrc"@,
    }
}

/// The index where the file name of `path` starts, and the extension dot
/// position if there is one.
fn find_name_and_dot(v: &Vec<char>) -> (r: (usize, Option<usize>))
    ensures
        r.0 == file_name_start(v@),
        r.1 is Some <==> extension_dot(v@, file_name_start(v@)) is Some,
        r.1 is Some ==> r.1->0 == extension_dot(v@, file_name_start(v@))->0 && r.1->0 < v@.len(),
{
    let n = v.len();
    let mut k: usize = n;
    while k > 0 && !exec_is_path_sep(v[k - 1])
        invariant
            k <= n,
            n == v@.len(),
            forall|j: int| k <= j < n ==> !is_path_sep(#[trigger] v@[j]),
        decreases k,
    {
        k = k - 1;
    }
    proof {
        lemma_file_name_start_eq(v@, k as int);
    }
    let mut d: usize = n;
    while d - k > 1 && v[d - 1] != '.'
        invariant
            k <= d <= n,
            n == v@.len(),
            forall|j: int| d <= j < n ==> v@[j] != '.',
        decreases d,
    {
        d = d - 1;
    }
    if d - k > 1 {
        proof {
            lemma_extension_dot_some(v@, k as int, d - 1);
        }
        (k, Some(d - 1))
    } else {
        proof {
            lemma_extension_dot_none(v@, k as int);
        }
        (k, None)
    }
}

/// The path of the lyric sidecar file of an audio file: the same path with
/// the extension replaced by `.lrc`.
pub fn lyric_sidecar_path(path: &str) -> (r: String)
    ensures
        r@ == spec_sidecar(path@),
{
    let v = str_to_chars(path);
    let (_, dot) = find_name_and_dot(&v);
    let stem_end = match dot {
        Some(d) => d,
        None => v.len(),
    };
    let mut r = path.substring_char(0, stem_end).to_owned();
    r.append(".lrc");
    r
}

/// One character read case-blind: an ASCII capital letter stands for its
/// small form, every other character only for itself.
pub open spec fn lowers_to(c: char, d: char) -> bool {
    if 'A' <= c && c <= 'Z' {
        d as u32 == c as u32 + 32
    } else {
        d == c
    }
}

/// A sequence read case-blind equals the target.
pub open spec fn seq_lowers_to(a: Seq<char>, b: Seq<char>) -> bool {
    a.len() == b.len() && forall|i: int| 0 <= i < a.len() ==> lowers_to(a[i], #[trigger] b[i])
}

/// Whether the characters `v[from..]` spell `target`, letters compared
/// case-blind.
fn ext_matches(v: &Vec<char>, from: usize, target: &str) -> (r: bool)
    requires
        from <= v@.len(),
    ensures
        r == seq_lowers_to(v@.subrange(from as int, v@.len() as int), target@),
{
    let m = target.unicode_len();
    if v.len() - from != m {
        return false;
    }
    let mut i: usize = 0;
    while i < m
        invariant
            i <= m,
            from + m == v@.len(),
            m == target@.len(),
            forall|j: int| 0 <= j < i ==> lowers_to(v@[from + j], #[trigger] target@[j]),
        decreases m - i,
    {
        let c = v[from + i];
        let d = target.get_char(i);
        let ok = if 'A' <= c && c <= 'Z' {
            d as u32 == c as u32 + 32
        } else {
            d == c
        };
        if !ok {
            return false;
        }
        i = i + 1;
    }
    true
}

/// The audio file extensions the library scanner accepts.
pub open spec fn spec_is_audio_ext(e: Seq<char>) -> bool {
    seq_lowers_to(e, "mp3"@) || seq_lowers_to(e, "wav"@) || seq_lowers_to(e, "flac"@)
        || seq_lowers_to(e, "ogg"@) || seq_lowers_to(e, "m4a"@) || seq_lowers_to(e, "aac"@)
}

/// Whether a path names an audio file the library plays: its extension,
/// letters compared case-blind, is one of the known audio extensions.
pub fn is_audio_file(path: &str) -> (r: bool)
    ensures
        r == match spec_extension(path@) {
            Some(e) => spec_is_audio_ext(e),
            None => false,
        },
{
    let v = str_to_chars(path);
    let (_, dot) = find_name_and_dot(&v);
    match dot {
        Some(d) => {
            let n = v.len();
            assert(d < n);
            let from = d + 1;
            ext_matches(&v, from, "mp3") || ext_matches(&v, from, "wav") || ext_matches(
                &v,
                from,
                "flac",
            ) || ext_matches(&v, from, "ogg") || ext_matches(&v, from, "m4a") || ext_matches(
                &v,
                from,
                "aac",
            )
        },
        None => false,
    }
}

} // verus!
