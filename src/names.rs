//! Rules on file names and archive references: which extensions are stored
//! compressed, and how a reference is located.
use vstd::prelude::*;

verus! {

pub open spec fn ascii_lower(c: char) -> char {
    if 'A' <= c && c <= 'Z' {
        ((c as u8) + 32) as char
    } else {
        c
    }
}

pub open spec fn ascii_lower_seq(s: Seq<char>) -> Seq<char> {
    s.map_values(|c: char| ascii_lower(c))
}

/// Index of the last `.` in `s` before position `end`, or -1.
pub open spec fn last_dot_before(s: Seq<char>, end: int) -> int
    decreases end,
{
    if end <= 0 {
        -1
    } else if s[end - 1] == '.' {
        end - 1
    } else {
        last_dot_before(s, end - 1)
    }
}

/// The extension of a file name: what follows its last dot, when that dot is
/// not the first character.
pub open spec fn extension(name: Seq<char>) -> Option<Seq<char>> {
    let d = last_dot_before(name, name.len() as int);
    if d <= 0 {
        None
    } else {
        Some(name.subrange(d + 1, name.len() as int))
    }
}

/// Extensions, in lower case, of formats that are already binary: images,
/// archives, audio, video, fonts and object code.
pub open spec fn is_binary_ext(e: Seq<char>) -> bool {
    let l = ascii_lower_seq(e);
    l == "exe"@ || l == "bin"@ || l == "png"@ || l == "jpg"@ || l == "jpeg"@ || l == "gif"@ || l
        == "bmp"@ || l == "ico"@ || l == "pdf"@ || l == "zip"@ || l == "rar"@ || l == "tar"@ || l
        == "gz"@ || l == "7z"@ || l == "dll"@ || l == "so"@ || l == "mp3"@ || l == "mp4"@ || l
        == "avi"@ || l == "mov"@ || l == "ogg"@ || l == "wav"@ || l == "flac"@ || l == "class"@
        || l == "o"@ || l == "obj"@ || l == "ttf"@ || l == "woff"@ || l == "woff2"@
}

pub open spec fn is_binary_name(name: Seq<char>) -> bool {
    match extension(name) {
        Some(e) => is_binary_ext(e),
        None => false,
    }
}

/// Whether `e`, lowered to ASCII lower case, is `lower`.
fn lower_eq(e: &str, lower: &str) -> (r: bool)
    ensures
        r == (ascii_lower_seq(e@) == lower@),
{
    let n = e.unicode_len();
    if n != lower.unicode_len() {
        assert(ascii_lower_seq(e@).len() != lower@.len());
        return false;
    }
    let mut i: usize = 0;
    while i < n
        invariant
            n == e@.len(),
            n == lower@.len(),
            i <= n,
            forall|j: int| 0 <= j < i ==> ascii_lower(e@[j]) == lower@[j],
        decreases n - i,
    {
        let c = e.get_char(i);
        let l = if 'A' <= c && c <= 'Z' {
            ((c as u8) + 32) as char
        } else {
            c
        };
        if l != lower.get_char(i) {
            assert(ascii_lower_seq(e@)[i as int] != lower@[i as int]);
            return false;
        }
        i = i + 1;
    }
    assert(ascii_lower_seq(e@) =~= lower@);
    true
}

proof fn lemma_last_dot_range(s: Seq<char>, end: int)
    requires
        0 <= end <= s.len(),
    ensures
        -1 <= last_dot_before(s, end) < end,
        last_dot_before(s, end) >= 0 ==> s[last_dot_before(s, end)] == '.',
    decreases end,
{
    if end > 0 && s[end - 1] != '.' {
        lemma_last_dot_range(s, end - 1);
    }
}

fn last_dot(s: &str) -> (r: Option<usize>)
    ensures
        match r {
            Some(i) => i as int == last_dot_before(s@, s@.len() as int),
            None => last_dot_before(s@, s@.len() as int) == -1,
        },
{
    let n = s.unicode_len();
    let mut end: usize = n;
    while end > 0
        invariant
            end <= n,
            n == s@.len(),
            last_dot_before(s@, end as int) == last_dot_before(s@, n as int),
        decreases end,
    {
        if s.get_char(end - 1) == '.' {
            return Some(end - 1);
        }
        end = end - 1;
    }
    None
}

/// Whether a file of this name is stored compressed whatever the caller asked:
/// its extension names a binary format, in any letter case.
pub fn is_binary(name: &str) -> (r: bool)
    ensures
        r == is_binary_name(name@),
{
    let n = name.unicode_len();
    proof {
        lemma_last_dot_range(name@, name@.len() as int);
    }
    match last_dot(name) {
        None => false,
        Some(d) => {
            if d == 0 {
                false
            } else {
                let ext = name.substring_char(d + 1, n);
                lower_eq(ext, "exe") || lower_eq(ext, "bin") || lower_eq(ext, "png") || lower_eq(ext, "jpg") || lower_eq(ext, "jpeg") || lower_eq(ext, "gif") || lower_eq(ext, "bmp") || lower_eq(ext, "ico") || lower_eq(ext, "pdf") || lower_eq(ext, "zip") || lower_eq(ext, "rar") || lower_eq(ext, "tar") || lower_eq(ext, "gz") || lower_eq(ext, "7z") || lower_eq(ext, "dll") || lower_eq(ext, "so") || lower_eq(ext, "mp3") || lower_eq(ext, "mp4") || lower_eq(ext, "avi") || lower_eq(ext, "mov") || lower_eq(ext, "ogg") || lower_eq(ext, "wav") || lower_eq(ext, "flac") || lower_eq(ext, "class") || lower_eq(ext, "o") || lower_eq(ext, "obj") || lower_eq(ext, "ttf") || lower_eq(ext, "woff") || lower_eq(ext, "woff2")
            }
        },
    }
}

pub open spec fn starts_with(s: Seq<char>, p: Seq<char>) -> bool {
    p.len() <= s.len() && s.take(p.len() as int) == p
}

pub open spec fn ends_with(s: Seq<char>, p: Seq<char>) -> bool {
    p.len() <= s.len() && s.skip(s.len() - p.len()) == p
}

/// Whether `s` begins with `p`.
pub fn has_prefix(s: &str, p: &str) -> (r: bool)
    ensures
        r == starts_with(s@, p@),
{
    let n = s.unicode_len();
    let m = p.unicode_len();
    if m > n {
        return false;
    }
    let mut i: usize = 0;
    while i < m
        invariant
            m <= n,
            n == s@.len(),
            m == p@.len(),
            i <= m,
            forall|j: int| 0 <= j < i ==> s@[j] == p@[j],
        decreases m - i,
    {
        if s.get_char(i) != p.get_char(i) {
            assert(s@.take(m as int)[i as int] != p@[i as int]);
            return false;
        }
        i = i + 1;
    }
    assert(s@.take(m as int) =~= p@);
    true
}

/// Whether `s` ends with `p`.
pub fn has_suffix(s: &str, p: &str) -> (r: bool)
    ensures
        r == ends_with(s@, p@),
{
    let n = s.unicode_len();
    let m = p.unicode_len();
    if m > n {
        return false;
    }
    let off = n - m;
    let mut i: usize = 0;
    while i < m
        invariant
            m <= n,
            off == n - m,
            n == s@.len(),
            m == p@.len(),
            i <= m,
            forall|j: int| 0 <= j < i ==> s@[off + j] == p@[j],
        decreases m - i,
    {
        if s.get_char(off + i) != p.get_char(i) {
            assert(s@.skip(off as int)[i as int] != p@[i as int]);
            return false;
        }
        i = i + 1;
    }
    assert(s@.skip(off as int) =~= p@);
    true
}

/// A reference to a document served over HTTP.
pub open spec fn is_remote_ref(uri: Seq<char>) -> bool {
    starts_with(uri, "http://"@) || starts_with(uri, "https://"@)
}

/// A reference that names a local path explicitly.
pub open spec fn is_explicit_ref(uri: Seq<char>) -> bool {
    starts_with(uri, "/"@) || starts_with(uri, "./"@) || starts_with(uri, ".\\"@)
}

/// Whether `uri` is fetched over HTTP rather than read from disk.
pub fn is_remote(uri: &str) -> (r: bool)
    ensures
        r == is_remote_ref(uri@),
{
    has_prefix(uri, "http://") || has_prefix(uri, "https://")
}

/// Whether `uri` is an explicit local path, used as it is.
pub fn is_explicit_path(uri: &str) -> (r: bool)
    ensures
        r == is_explicit_ref(uri@),
{
    has_prefix(uri, "/") || has_prefix(uri, "./") || has_prefix(uri, ".\\")
}

/// Document formats of an archive.
pub enum DocFormat {
    Json,
    Yaml,
}

/// The format of a local document, by the extension of its path; `None` for
/// an unsupported one.
pub fn doc_format(path: &str) -> (r: Option<DocFormat>)
    ensures
        r == (if ends_with(path@, ".json"@) {
            Some(DocFormat::Json)
        } else if ends_with(path@, ".yaml"@) || ends_with(path@, ".yml"@) {
            Some(DocFormat::Yaml)
        } else {
            None
        }),
{
    if has_suffix(path, ".json") {
        Some(DocFormat::Json)
    } else if has_suffix(path, ".yaml") || has_suffix(path, ".yml") {
        Some(DocFormat::Yaml)
    } else {
        None
    }
}

/// Where a short reference is looked for in the local share directory.
pub open spec fn share_path(share_dir: Seq<char>, uri: Seq<char>) -> Seq<char> {
    share_dir + "/"@ + uri
}

/// Where a short reference is fetched from when nothing local holds it.
pub open spec fn remote_path(uri: Seq<char>) -> Seq<char> {
    "https://github.com/Jxtopher/kragle/blob/main/kraglefile/"@ + uri + ".yaml?raw=true"@
}

/// The path of `uri` inside the share directory `share_dir`.
pub fn share_candidate(share_dir: &String, uri: &String) -> (r: String)
    ensures
        r@ == share_path(share_dir@, uri@),
{
    let mut r = share_dir.clone();
    r.append("/");
    r.append(uri.as_str());
    r
}

/// The published location of the short reference `uri`.
pub fn remote_candidate(uri: &String) -> (r: String)
    ensures
        r@ == remote_path(uri@),
{
    let mut r = "https://github.com/Jxtopher/kragle/blob/main/kraglefile/".to_string();
    r.append(uri.as_str());
    r.append(".yaml?raw=true");
    r
}

} // verus!
