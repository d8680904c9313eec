//! Paths of layouts and of their static files: where they live under the work
//! directory, which relative paths are safe, which extensions are accepted,
//! and how files are labelled and served.
use vstd::prelude::*;

use crate::text::{
    append_vec, chars_of, chars_of_string, eq_ignore_case, lower_spec, seq_eq, split_char, split_char_vec,
    string_of, sub_vec, trim, trim_vec, vv,
};

verus! {

// ---------------------------------------------------------------------------
// Joining paths
// ---------------------------------------------------------------------------

/// `PathBuf::push` on a Unix path: an absolute part replaces the base, and a
/// `/` is put between a non-empty base that lacks one and the part.
pub open spec fn path_join(base: Seq<char>, part: Seq<char>) -> Seq<char> {
    if part.len() > 0 && part[0] == '/' {
        part
    } else if base.len() == 0 || base.last() == '/' {
        base + part
    } else {
        base + seq!['/'] + part
    }
}

pub fn join_path(base: &Vec<char>, part: &Vec<char>) -> (r: Vec<char>)
    ensures
        r@ == path_join(base@, part@),
{
    if part.len() > 0 && part[0] == '/' {
        return sub_vec(part, 0, part.len());
    }
    let mut r = sub_vec(base, 0, base.len());
    if !(base.len() == 0 || base[base.len() - 1] == '/') {
        r.push('/');
    }
    append_vec(&mut r, part);
    proof {
        assert(base@.subrange(0, base@.len() as int) =~= base@);
        assert(part@.subrange(0, part@.len() as int) =~= part@);
    }
    r
}

/// `work/layouts`.
pub fn layouts_dir(work_dir: &str) -> (p: String)
    ensures
        p@ == path_join(work_dir@, "layouts"@),
{
    let w = chars_of(work_dir);
    let l = chars_of("layouts");
    string_of(&join_path(&w, &l))
}

/// `work/layouts/{key}`, the root of one layout.
pub fn layout_dir(work_dir: &str, layout_key: &str) -> (p: String)
    ensures
        p@ == path_join(path_join(work_dir@, "layouts"@), layout_key@),
{
    let d = layouts_dir(work_dir);
    let dv = chars_of_string(&d);
    let k = chars_of(layout_key);
    string_of(&join_path(&dv, &k))
}

/// `work/layouts/{key}/static`.
pub fn layout_static_dir(work_dir: &str, layout_key: &str) -> (p: String)
    ensures
        p@ == path_join(path_join(path_join(work_dir@, "layouts"@), layout_key@), "static"@),
{
    let d = layout_dir(work_dir, layout_key);
    let dv = chars_of_string(&d);
    let s = chars_of("static");
    string_of(&join_path(&dv, &s))
}

// ---------------------------------------------------------------------------
// Extensions
// ---------------------------------------------------------------------------

/// Index of the last `c` in `s`.
pub open spec fn last_index_of(s: Seq<char>, c: char) -> Option<int>
    decreases s.len(),
{
    if s.len() == 0 {
        None
    } else if s.last() == c {
        Some(s.len() - 1)
    } else {
        last_index_of(s.drop_last(), c)
    }
}

pub proof fn lemma_last_index_of(s: Seq<char>, c: char)
    ensures
        last_index_of(s, c) matches Some(k) ==> 0 <= k < s.len() && s[k] == c && forall|q: int|
            k < q < s.len() ==> s[q] != c,
        last_index_of(s, c) is None ==> forall|q: int| 0 <= q < s.len() ==> s[q] != c,
    decreases s.len(),
{
    if s.len() > 0 && s.last() != c {
        let t = s.drop_last();
        lemma_last_index_of(t, c);
        assert(forall|q: int| 0 <= q < t.len() ==> t[q] == s[q]);
    }
}

fn last_index(v: &Vec<char>, c: char) -> (r: Option<usize>)
    ensures
        match last_index_of(v@, c) {
            Some(k) => r matches Some(x) && x as int == k,
            None => r is None,
        },
{
    let mut j: usize = v.len();
    assert(v@.take(j as int) =~= v@);
    while j > 0
        invariant
            j <= v.len(),
            last_index_of(v@, c) == last_index_of(v@.take(j as int), c),
        decreases j,
    {
        assert(v@.take(j as int).drop_last() =~= v@.take(j - 1));
        if v[j - 1] == c {
            return Some(j - 1);
        }
        j -= 1;
    }
    None
}

/// The path without trailing `/` and trailing `/.` components.
pub open spec fn trim_tail(s: Seq<char>) -> Seq<char>
    decreases s.len(),
{
    if s.len() > 1 && s.last() == '/' {
        trim_tail(s.drop_last())
    } else if s.len() >= 2 && s.last() == '.' && s[s.len() - 2] == '/' {
        trim_tail(s.subrange(0, s.len() - 2))
    } else {
        s
    }
}

/// The last component of a Unix path (`Path::file_name`).
pub open spec fn file_name_of(p: Seq<char>) -> Option<Seq<char>> {
    let t = trim_tail(p);
    let name = match last_index_of(t, '/') {
        Some(k) => t.subrange(k + 1, t.len() as int),
        None => t,
    };
    if name.len() == 0 || name == "."@ || name == ".."@ {
        None
    } else {
        Some(name)
    }
}

/// `Path::extension`: what follows the last `.` of the file name, unless that
/// `.` is the name's first character.
pub open spec fn path_extension(p: Seq<char>) -> Option<Seq<char>> {
    match file_name_of(p) {
        None => None,
        Some(name) => match last_index_of(name, '.') {
            None => None,
            Some(d) => if d == 0 {
                None
            } else {
                Some(name.subrange(d + 1, name.len() as int))
            },
        },
    }
}

fn trim_tail_exec(v: &Vec<char>) -> (r: Vec<char>)
    ensures
        r@ == trim_tail(v@),
{
    let mut n: usize = v.len();
    assert(v@.subrange(0, n as int) =~= v@);
    while (n > 1 && v[n - 1] == '/') || (n >= 2 && v[n - 1] == '.' && v[n - 2] == '/')
        invariant
            n <= v.len(),
            trim_tail(v@) == trim_tail(v@.subrange(0, n as int)),
        decreases n,
    {
        let ghost s = v@.subrange(0, n as int);
        if n > 1 && v[n - 1] == '/' {
            assert(s.drop_last() =~= v@.subrange(0, n - 1));
            n -= 1;
        } else {
            assert(s.subrange(0, s.len() - 2) =~= v@.subrange(0, n - 2));
            n -= 2;
        }
    }
    sub_vec(v, 0, n)
}

fn is_dot_name(v: &Vec<char>) -> (b: bool)
    ensures
        b == (v@ == "."@ || v@ == ".."@),
{
    proof {
        reveal_strlit(".");
        reveal_strlit("..");
        assert("."@ =~= seq!['.']);
        assert(".."@ =~= seq!['.', '.']);
    }
    if v.len() == 1 && v[0] == '.' {
        assert(v@ =~= seq!['.']);
        return true;
    }
    if v.len() == 2 && v[0] == '.' && v[1] == '.' {
        assert(v@ =~= seq!['.', '.']);
        return true;
    }
    proof {
        if v@ == "."@ {
            assert(v@[0] == '.');
        }
        if v@ == ".."@ {
            assert(v@[0] == '.' && v@[1] == '.');
        }
    }
    false
}

/// The extension of a path, as `Path::extension` reads it.
pub fn extension_of(path: &Vec<char>) -> (r: Option<Vec<char>>)
    ensures
        match path_extension(path@) {
            Some(e) => r matches Some(x) && x@ == e,
            None => r is None,
        },
{
    let t = trim_tail_exec(path);
    let name = match last_index(&t, '/') {
        Some(k) => {
            proof {
                lemma_last_index_of(t@, '/');
            }
            sub_vec(&t, k + 1, t.len())
        },
        None => sub_vec(&t, 0, t.len()),
    };
    assert(t@.subrange(0, t@.len() as int) =~= t@);
    if name.len() == 0 || is_dot_name(&name) {
        return None;
    }
    match last_index(&name, '.') {
        None => None,
        Some(d) => {
            proof {
                lemma_last_index_of(name@, '.');
            }
            if d == 0 {
                None
            } else {
                Some(sub_vec(&name, d + 1, name.len()))
            }
        },
    }
}

/// The path's extension equals one of `allowed`, ignoring ASCII case.
pub open spec fn extension_in(path: Seq<char>, allowed: Seq<Seq<char>>) -> bool {
    match path_extension(path) {
        None => false,
        Some(e) => exists|i: int| 0 <= i < allowed.len() && eq_ignore_case(e, #[trigger] allowed[i]),
    }
}

fn eq_ignore_case_exec(a: &Vec<char>, b: &str) -> (r: bool)
    ensures
        r == eq_ignore_case(a@, b@),
{
    let bv = chars_of(b);
    if a.len() != bv.len() {
        return false;
    }
    let mut i: usize = 0;
    while i < a.len()
        invariant
            i <= a.len(),
            a@.len() == bv@.len(),
            bv@ == b@,
            forall|k: int| 0 <= k < i ==> #[trigger] lower_spec(a@[k]) == lower_spec(bv@[k]),
        decreases a.len() - i,
    {
        if crate::text::to_lower(a[i]) != crate::text::to_lower(bv[i]) {
            return false;
        }
        i += 1;
    }
    true
}

pub open spec fn strs_view(v: Seq<&str>) -> Seq<Seq<char>> {
    Seq::new(v.len(), |i: int| v[i]@)
}

fn extension_matches(path: &str, allowed: &[&str]) -> (b: bool)
    ensures
        b == extension_in(path@, strs_view(allowed@)),
{
    let pv = chars_of(path);
    let ext = match extension_of(&pv) {
        None => return false,
        Some(e) => e,
    };
    let mut i: usize = 0;
    while i < allowed.len()
        invariant
            i <= allowed.len(),
            path_extension(path@) == Some(ext@),
            forall|k: int| 0 <= k < i ==> !eq_ignore_case(ext@, #[trigger] strs_view(allowed@)[k]),
        decreases allowed.len() - i,
    {
        if eq_ignore_case_exec(&ext, allowed[i]) {
            assert(eq_ignore_case(ext@, strs_view(allowed@)[i as int]));
            return true;
        }
        i += 1;
    }
    false
}

/// Extensions of the static files edited as text.
pub open spec fn text_exts() -> Seq<Seq<char>> {
    seq!["css"@, "js"@, "svg"@, "json"@, "txt"@, "map"@]
}

/// Extensions of the binary static files that may be uploaded.
pub open spec fn binary_exts() -> Seq<Seq<char>> {
    seq!["png"@, "jpg"@, "jpeg"@, "gif"@, "webp"@, "ico"@, "woff"@, "woff2"@]
}

/// A static file edited as text in the layout editor.
pub fn is_editable_text_static(path: &str) -> (b: bool)
    ensures
        b == extension_in(path@, text_exts()),
{
    let allowed: [&str; 6] = ["css", "js", "svg", "json", "txt", "map"];
    let r = extension_matches(path, allowed.as_slice());
    assert(strs_view(allowed@) =~= text_exts());
    r
}

/// A static file that may be uploaded (text or binary).
pub fn is_allowed_static_upload(path: &str) -> (b: bool)
    ensures
        b == (extension_in(path@, text_exts()) || extension_in(path@, binary_exts())),
{
    if is_editable_text_static(path) {
        return true;
    }
    let allowed: [&str; 8] = ["png", "jpg", "jpeg", "gif", "webp", "ico", "woff", "woff2"];
    let r = extension_matches(path, allowed.as_slice());
    assert(strs_view(allowed@) =~= binary_exts());
    r
}

// ---------------------------------------------------------------------------
// Relative paths under `static/`
// ---------------------------------------------------------------------------

/// Not empty, relative, no `\`, and every `/`-separated part non-empty, not
/// `.` or `..`, and not starting with `_`.
pub open spec fn safe_static_path(p: Seq<char>) -> bool {
    let parts = split_char(p, '/');
    &&& p.len() > 0
    &&& p[0] != '/'
    &&& !p.contains('\\')
    &&& forall|i: int|
        0 <= i < parts.len() ==> {
            let part = #[trigger] parts[i];
            part.len() > 0 && part[0] != '_' && part != "."@ && part != ".."@
        }
}

pub fn is_safe_static_relative_path(path: &str) -> (b: bool)
    ensures
        b == safe_static_path(path@),
{
    let p = chars_of(path);
    if p.len() == 0 || p[0] == '/' {
        return false;
    }
    if crate::text::contains_char(&p, '\\') {
        return false;
    }
    let parts = split_char_vec(&p, '/');
    let ghost ps = vv(parts@);
    let mut i: usize = 0;
    while i < parts.len()
        invariant
            i <= parts.len(),
            ps == vv(parts@),
            ps == split_char(path@, '/'),
            forall|k: int|
                0 <= k < i ==> {
                    let part = #[trigger] ps[k];
                    part.len() > 0 && part[0] != '_' && part != "."@ && part != ".."@
                },
        decreases parts.len() - i,
    {
        let part = &parts[i];
        assert(ps[i as int] == part@);
        if part.len() == 0 || part[0] == '_' || is_dot_name(part) {
            return false;
        }
        i += 1;
    }
    true
}

/// Why a relative path under `static/` is refused, if it is.
pub open spec fn static_path_error(path: Seq<char>) -> Option<Seq<char>> {
    let t = trim(path);
    if t.len() == 0 {
        Some("ファイルパスは必須です"@)
    } else if !safe_static_path(t) {
        Some("ファイルパスが不正です"@)
    } else if !(extension_in(t, text_exts()) || extension_in(t, binary_exts())) {
        Some("この拡張子のファイルは許可されていません"@)
    } else {
        None
    }
}

/// Checks a path relative to a layout's `static/` directory.
pub fn validate_static_relative_path(path: &str) -> (r: Result<(), String>)
    ensures
        match static_path_error(path@) {
            None => r is Ok,
            Some(m) => r matches Err(e) && e@ == m,
        },
{
    let pv = chars_of(path);
    let tv = trim_vec(&pv);
    let t = string_of(&tv);
    if tv.len() == 0 {
        return Err(String::from_str("ファイルパスは必須です"));
    }
    if !is_safe_static_relative_path(t.as_str()) {
        return Err(String::from_str("ファイルパスが不正です"));
    }
    if !is_allowed_static_upload(t.as_str()) {
        return Err(String::from_str("この拡張子のファイルは許可されていません"));
    }
    Ok(())
}

/// The file that `/static/{key}/{file}` would serve: `None` when the key or
/// the file part is empty or the file part is not a safe relative path.
pub open spec fn static_candidate_spec(work_dir: Seq<char>, path: Seq<char>) -> Option<Seq<char>> {
    match char_index(path, '/') {
        None => None,
        Some(k) => {
            let key = path.subrange(0, k);
            let file = path.subrange(k + 1, path.len() as int);
            if key.len() == 0 || file.len() == 0 || !safe_static_path(file) {
                None
            } else {
                Some(path_join(path_join(path_join(path_join(work_dir, "layouts"@), key), "static"@), file))
            }
        },
    }
}

pub open spec fn char_index(s: Seq<char>, c: char) -> Option<int> {
    crate::text::char_index_from(s, c, 0)
}

/// Where a request for `/static/{key}/{file}` points, before checking that a
/// file is there.
pub fn static_file_candidate(work_dir: &str, path: &str) -> (r: Option<String>)
    ensures
        match static_candidate_spec(work_dir@, path@) {
            Some(p) => r matches Some(x) && x@ == p,
            None => r is None,
        },
{
    let pv = chars_of(path);
    let k = match crate::text::find_char(&pv, '/') {
        None => return None,
        Some(k) => k,
    };
    proof {
        crate::text::lemma_char_index_from(pv@, '/', 0);
    }
    let key = sub_vec(&pv, 0, k);
    let file = sub_vec(&pv, k + 1, pv.len());
    if key.len() == 0 || file.len() == 0 {
        return None;
    }
    let fs = string_of(&file);
    if !is_safe_static_relative_path(fs.as_str()) {
        return None;
    }
    let ks = string_of(&key);
    let d = layout_static_dir(work_dir, ks.as_str());
    let dv = chars_of_string(&d);
    Some(string_of(&join_path(&dv, &file)))
}

/// Content-Type served for a static file, by its (case-sensitive) extension.
pub open spec fn content_type_spec(path: Seq<char>) -> Seq<char> {
    let e = match path_extension(path) {
        Some(e) => e,
        None => seq![],
    };
    if e == "css"@ {
        "text/css; charset=utf-8"@
    } else if e == "js"@ {
        "application/javascript; charset=utf-8"@
    } else if e == "png"@ {
        "image/png"@
    } else if e == "jpg"@ || e == "jpeg"@ {
        "image/jpeg"@
    } else if e == "gif"@ {
        "image/gif"@
    } else if e == "svg"@ {
        "image/svg+xml"@
    } else if e == "webp"@ {
        "image/webp"@
    } else if e == "ico"@ {
        "image/x-icon"@
    } else if e == "woff2"@ {
        "font/woff2"@
    } else if e == "woff"@ {
        "font/woff"@
    } else {
        "application/octet-stream"@
    }
}

fn is_str(v: &Vec<char>, s: &str) -> (b: bool)
    ensures
        b == (v@ == s@),
{
    let sv = chars_of(s);
    seq_eq(v, &sv)
}

/// The Content-Type of a static file.
pub fn content_type_for_path(path: &str) -> (s: &'static str)
    ensures
        s@ == content_type_spec(path@),
{
    let pv = chars_of(path);
    let e = match extension_of(&pv) {
        Some(e) => e,
        None => Vec::new(),
    };
    assert(path_extension(path@) is None ==> e@ =~= seq![]);
    if is_str(&e, "css") {
        "text/css; charset=utf-8"
    } else if is_str(&e, "js") {
        "application/javascript; charset=utf-8"
    } else if is_str(&e, "png") {
        "image/png"
    } else if is_str(&e, "jpg") || is_str(&e, "jpeg") {
        "image/jpeg"
    } else if is_str(&e, "gif") {
        "image/gif"
    } else if is_str(&e, "svg") {
        "image/svg+xml"
    } else if is_str(&e, "webp") {
        "image/webp"
    } else if is_str(&e, "ico") {
        "image/x-icon"
    } else if is_str(&e, "woff2") {
        "font/woff2"
    } else if is_str(&e, "woff") {
        "font/woff"
    } else {
        "application/octet-stream"
    }
}

// ---------------------------------------------------------------------------
// Listing entries
// ---------------------------------------------------------------------------

/// Kind of a file under `static/`.
#[derive(Debug, Clone, Copy, PartialEq, Eq, Structural)]
pub enum StaticFileKind {
    Text,
    Binary,
}

/// One file under `static/` as listed in the admin.
#[derive(Debug, Clone)]
pub struct StaticFileEntry {
    pub relative_path: String,
    pub kind: StaticFileKind,
    pub size_bytes: u64,
    pub public_url: String,
}

/// Text when edited as text, else binary.
pub fn classify_static_kind(path: &str) -> (k: StaticFileKind)
    ensures
        k == (if extension_in(path@, text_exts()) {
            StaticFileKind::Text
        } else {
            StaticFileKind::Binary
        }),
{
    if is_editable_text_static(path) {
        StaticFileKind::Text
    } else {
        StaticFileKind::Binary
    }
}

/// Label of a binary file by its lower-cased extension.
pub open spec fn binary_label_spec(path: Seq<char>) -> Seq<char> {
    match path_extension(path) {
        None => "バイナリ"@,
        Some(e) => {
            let l = crate::text::lower_seq(e);
            if l == "png"@ || l == "jpg"@ || l == "jpeg"@ || l == "gif"@ || l == "webp"@ || l == "ico"@ || l
                == "svg"@ {
                "画像"@
            } else if l == "woff"@ || l == "woff2"@ {
                "フォント"@
            } else {
                "バイナリ"@
            }
        },
    }
}

fn binary_kind_label(path: &str) -> (s: &'static str)
    ensures
        s@ == binary_label_spec(path@),
{
    let pv = chars_of(path);
    match extension_of(&pv) {
        None => "バイナリ",
        Some(e) => {
            let l = crate::text::lower_vec(&e);
            if is_str(&l, "png") || is_str(&l, "jpg") || is_str(&l, "jpeg") || is_str(&l, "gif") || is_str(
                &l,
                "webp",
            ) || is_str(&l, "ico") || is_str(&l, "svg") {
                "画像"
            } else if is_str(&l, "woff") || is_str(&l, "woff2") {
                "フォント"
            } else {
                "バイナリ"
            }
        },
    }
}

impl StaticFileEntry {
    /// The kind shown in the admin: text, image, font or binary.
    pub fn kind_label(&self) -> (s: &'static str)
        ensures
            s@ == match self.kind {
                StaticFileKind::Text => "テキスト"@,
                StaticFileKind::Binary => binary_label_spec(self.relative_path@),
            },
    {
        match self.kind {
            StaticFileKind::Text => "テキスト",
            StaticFileKind::Binary => binary_kind_label(self.relative_path.as_str()),
        }
    }
}

/// The listing entry of a file found at `relative` (with `\` read as `/`),
/// or `None` when that path is not a safe one.
pub open spec fn static_entry_spec(layout_key: Seq<char>, relative: Seq<char>) -> Option<(Seq<char>, StaticFileKind, Seq<char>)> {
    let rel = crate::text::replace_char(relative, '\\', seq!['/']);
    if !safe_static_path(rel) {
        None
    } else {
        Some(
            (
                rel,
                if extension_in(rel, text_exts()) {
                    StaticFileKind::Text
                } else {
                    StaticFileKind::Binary
                },
                "/static/"@ + layout_key + "/"@ + rel,
            ),
        )
    }
}

/// The entry listed for a file under `static/` of size `size_bytes`.
pub fn static_file_entry(layout_key: &str, relative: &str, size_bytes: u64) -> (r: Option<StaticFileEntry>)
    ensures
        match static_entry_spec(layout_key@, relative@) {
            None => r is None,
            Some((rel, kind, url)) => r matches Some(e) && e.relative_path@ == rel && e.kind == kind
                && e.size_bytes == size_bytes && e.public_url@ == url,
        },
{
    let rv = chars_of(relative);
    let slash = vec!['/'];
    let relv = crate::text::replace_char_vec(&rv, '\\', &slash);
    assert(slash@ =~= seq!['/']);
    let rel = string_of(&relv);
    if !is_safe_static_relative_path(rel.as_str()) {
        return None;
    }
    let kind = classify_static_kind(rel.as_str());
    let mut url = chars_of("/static/");
    let kv = chars_of(layout_key);
    append_vec(&mut url, &kv);
    url.push('/');
    append_vec(&mut url, &relv);
    proof {
        assert(url@ =~= "/static/"@ + layout_key@ + "/"@ + relv@) by {
            reveal_strlit("/");
        }
    }
    Some(StaticFileEntry { relative_path: rel, kind, size_bytes, public_url: string_of(&url) })
}


// ---------------------------------------------------------------------------
// Ordering the listing
// ---------------------------------------------------------------------------

/// `a` comes before `b` in the order of `String` (character by character by
/// code point, a prefix first).
pub open spec fn text_less(a: Seq<char>, b: Seq<char>) -> bool
    decreases a.len(),
{
    if b.len() == 0 {
        false
    } else if a.len() == 0 {
        true
    } else if a[0] != b[0] {
        (a[0] as u32) < (b[0] as u32)
    } else {
        text_less(a.drop_first(), b.drop_first())
    }
}

pub proof fn lemma_text_less_transitive(a: Seq<char>, b: Seq<char>, c: Seq<char>)
    requires
        text_less(a, b),
        text_less(b, c),
    ensures
        text_less(a, c),
    decreases a.len(),
{
    if a.len() > 0 && a[0] == b[0] && b[0] == c[0] {
        lemma_text_less_transitive(a.drop_first(), b.drop_first(), c.drop_first());
    }
}

proof fn lemma_text_less_irreflexive(a: Seq<char>)
    ensures
        !text_less(a, a),
    decreases a.len(),
{
    if a.len() > 0 {
        lemma_text_less_irreflexive(a.drop_first());
    }
}

fn text_less_exec(a: &Vec<char>, b: &Vec<char>) -> (r: bool)
    ensures
        r == text_less(a@, b@),
{
    let mut i: usize = 0;
    assert(a@.skip(0) =~= a@);
    assert(b@.skip(0) =~= b@);
    while i < a.len() && i < b.len() && a[i] == b[i]
        invariant
            i <= a.len(),
            i <= b.len(),
            text_less(a@, b@) == text_less(a@.skip(i as int), b@.skip(i as int)),
        decreases a.len() - i,
    {
        assert(a@.skip(i as int).drop_first() =~= a@.skip(i + 1));
        assert(b@.skip(i as int).drop_first() =~= b@.skip(i + 1));
        i += 1;
    }
    if i == b.len() {
        return false;
    }
    if i == a.len() {
        return true;
    }
    assert(a@.skip(i as int)[0] == a@[i as int]);
    assert(b@.skip(i as int)[0] == b@[i as int]);
    (a[i] as u32) < (b[i] as u32)
}

/// What the order of the listing looks at in an entry, and the entry.
pub open spec fn entry_view(e: StaticFileEntry) -> (Seq<char>, StaticFileKind, u64, Seq<char>) {
    (e.relative_path@, e.kind, e.size_bytes, e.public_url@)
}

pub open spec fn entries_view(v: Seq<StaticFileEntry>) -> Seq<(Seq<char>, StaticFileKind, u64, Seq<char>)> {
    Seq::new(v.len(), |i: int| entry_view(v[i]))
}

/// Where an entry with path `key` goes: before the first entry whose path
/// comes after it.
pub open spec fn path_insert_pos(s: Seq<(Seq<char>, StaticFileKind, u64, Seq<char>)>, key: Seq<char>, i: int) -> int
    decreases s.len() - i,
{
    if i < 0 || i >= s.len() {
        s.len() as int
    } else if text_less(key, s[i].0) {
        i
    } else {
        path_insert_pos(s, key, i + 1)
    }
}

/// The entries stably sorted by path.
pub open spec fn sorted_by_path(s: Seq<(Seq<char>, StaticFileKind, u64, Seq<char>)>) -> Seq<
    (Seq<char>, StaticFileKind, u64, Seq<char>),
>
    decreases s.len(),
{
    if s.len() == 0 {
        seq![]
    } else {
        let p = sorted_by_path(s.drop_last());
        p.insert(path_insert_pos(p, s.last().0, 0), s.last())
    }
}

proof fn lemma_path_insert_pos(s: Seq<(Seq<char>, StaticFileKind, u64, Seq<char>)>, key: Seq<char>, i: int)
    requires
        0 <= i <= s.len(),
    ensures
        i <= path_insert_pos(s, key, i) <= s.len(),
        forall|q: int| i <= q < path_insert_pos(s, key, i) ==> !text_less(key, #[trigger] s[q].0),
        path_insert_pos(s, key, i) < s.len() ==> text_less(key, s[path_insert_pos(s, key, i)].0),
    decreases s.len() - i,
{
    if i < s.len() && !text_less(key, s[i].0) {
        lemma_path_insert_pos(s, key, i + 1);
    }
}

/// The listing comes in path order, with every entry found and no other.
pub proof fn law_listing_sorted_by_path(s: Seq<(Seq<char>, StaticFileKind, u64, Seq<char>)>)
    ensures
        sorted_by_path(s).len() == s.len(),
        sorted_by_path(s).to_multiset() =~= s.to_multiset(),
        forall|a: int, b: int|
            0 <= a < b < sorted_by_path(s).len() ==> !text_less(
                #[trigger] sorted_by_path(s)[b].0,
                #[trigger] sorted_by_path(s)[a].0,
            ),
    decreases s.len(),
{
    if s.len() > 0 {
        let p = sorted_by_path(s.drop_last());
        law_listing_sorted_by_path(s.drop_last());
        let x = s.last();
        lemma_path_insert_pos(p, x.0, 0);
        let j = path_insert_pos(p, x.0, 0);
        let r = p.insert(j, x);
        assert forall|a: int, b: int| 0 <= a < b < r.len() implies !text_less(#[trigger] r[b].0, #[trigger] r[a].0) by {
            if b < j {
                assert(r[a] == p[a]);
                assert(r[b] == p[b]);
            } else if b == j {
                assert(r[a] == p[a]);
            } else if a < j {
                assert(r[a] == p[a]);
                assert(r[b] == p[b - 1]);
            } else if a == j {
                assert(r[b] == p[b - 1]);
                assert(text_less(x.0, p[j].0));
                if b - 1 > j {
                    assert(!text_less(p[b - 1].0, p[j].0));
                }
                if text_less(p[b - 1].0, x.0) {
                    lemma_text_less_transitive(p[b - 1].0, x.0, p[j].0);
                    if b - 1 == j {
                        lemma_text_less_irreflexive(p[j].0);
                    }
                }
            } else {
                assert(r[a] == p[a - 1]);
                assert(r[b] == p[b - 1]);
            }
        }
        vstd::seq_lib::to_multiset_insert(p, j, x);
        vstd::seq_lib::to_multiset_build(s.drop_last(), x);
        assert(s =~= s.drop_last().push(x));
        assert(sorted_by_path(s) == r);
    } else {
        assert(s =~= Seq::<(Seq<char>, StaticFileKind, u64, Seq<char>)>::empty());
        vstd::seq_lib::to_multiset_len(s);
        vstd::seq_lib::to_multiset_len(sorted_by_path(s));
    }
}

fn path_before(key: &Vec<char>, e: &StaticFileEntry) -> (b: bool)
    ensures
        b == text_less(key@, e.relative_path@),
{
    let other = chars_of_string(&e.relative_path);
    text_less_exec(key, &other)
}

/// The entries of a listing in path order (the order of `String`, stable).
pub fn sort_static_entries(entries: Vec<StaticFileEntry>) -> (r: Vec<StaticFileEntry>)
    ensures
        entries_view(r@) == sorted_by_path(entries_view(entries@)),
{
    let ghost ev = entries_view(entries@);
    let mut out: Vec<StaticFileEntry> = Vec::new();
    let mut rest = entries;
    let n = rest.len();
    assert(entries_view(out@) =~= sorted_by_path(ev.take(0)));
    let mut i: usize = 0;
    while i < n
        invariant
            i <= n,
            n == ev.len(),
            rest@.len() == n - i,
            forall|k: int| 0 <= k < rest@.len() ==> entry_view(#[trigger] rest@[k]) == ev[i + k],
            entries_view(out@) == sorted_by_path(ev.take(i as int)),
        decreases n - i,
    {
        let ghost before = rest@;
        let e = rest.remove(0);
        assert(entry_view(before[0]) == ev[i as int]);
        assert(entry_view(e) == ev[i as int]);
        assert forall|k: int| 0 <= k < rest@.len() implies entry_view(#[trigger] rest@[k]) == ev[(i + 1) + k] by {
            assert(rest@[k] == before[k + 1]);
        }
        let ghost pv = entries_view(out@);
        let key = chars_of_string(&e.relative_path);
        let mut j: usize = 0;
        while j < out.len() && !path_before(&key, &out[j])
            invariant
                j <= out.len(),
                pv == entries_view(out@),
                key@ == e.relative_path@,
                path_insert_pos(pv, key@, 0) == path_insert_pos(pv, key@, j as int),
            decreases out.len() - j,
        {
            assert(pv[j as int].0 == out@[j as int].relative_path@);
            j += 1;
        }
        proof {
            if j < out.len() {
                assert(pv[j as int].0 == out@[j as int].relative_path@);
            }
        }
        assert(path_insert_pos(pv, key@, 0) == j as int);
        out.insert(j, e);
        proof {
            assert(ev.take(i + 1).drop_last() =~= ev.take(i as int));
            assert(ev.take(i + 1).last() == entry_view(e));
            assert(entries_view(out@) =~= pv.insert(j as int, entry_view(e)));
        }
        i += 1;
    }
    assert(ev.take(n as int) =~= ev);
    out
}
} // verus!
