//! Layout files in the admin: the file list, edit links, upload targets,
//! placeholder references when a layout is copied, and the checks on a
//! layout package.
use vstd::prelude::*;

use crate::contact::{byte_count, byte_len};
use crate::error::{is_conflict, is_validation, DomainError};
use crate::numbers::{i64_text, i64_to_text};
use crate::static_files::{
    binary_exts, extension_in, is_allowed_static_upload, is_editable_text_static, safe_static_path, static_path_error,
    text_exts, validate_static_relative_path, StaticFileEntry, StaticFileKind,
};
use crate::text::{
    append_vec, chars_of, chars_of_string, contains_exec, contains_seq, is_ident_spec, occurs_at,
    occurs_at_exec, replace_all, replace_all_vec, replace_char, replace_char_vec, seq_eq, split_char,
    split_char_vec, starts_with, starts_with_exec, string_of, sub_vec, trim, trim_vec, vv,
};

verus! {

// ---------------------------------------------------------------------------
// Admin file list
// ---------------------------------------------------------------------------

/// One row of a layout's file list in the admin.
#[derive(Debug, Clone)]
pub struct LayoutAdminFile {
    pub display_path: String,
    pub kind_label: String,
    pub size_label: String,
    pub public_url: String,
    pub is_text_editable: bool,
    pub is_deletable: bool,
    pub delete_path: Option<String>,
}

/// What `urlencoding::encode` gives for a text.
pub uninterp spec fn url_encoded(s: Seq<char>) -> Seq<char>;

/// ASCII letters, digits and `-`, `_`, `.`, `~`: what percent-encoding keeps.
pub open spec fn is_unreserved(c: char) -> bool {
    crate::text::is_ascii_alnum_spec(c) || c == '-' || c == '_' || c == '.' || c == '~'
}

/// `urlencoding::encode`. Its result is named by `url_encoded`; the crate
/// documents that it keeps exactly the unreserved characters, so a text made
/// of them comes back unchanged.
#[verifier::external_body]
fn url_encode(s: &str) -> (r: String)
    ensures
        r@ == url_encoded(s@),
        (forall|i: int| 0 <= i < s@.len() ==> is_unreserved(#[trigger] s@[i])) ==> r@ == s@,
{
    urlencoding::encode(s).into_owned()
}

/// The text-edit link of a file row.
pub open spec fn edit_url_spec(f_path: Seq<char>, editable: bool, layout_id: i64) -> Option<Seq<char>> {
    if !editable {
        None
    } else if f_path == "shell.html"@ {
        Some("/admin/layouts/"@ + i64_text(layout_id) + "/files/shell.html"@)
    } else if starts_with(f_path, "static/"@) {
        Some("/admin/layouts/"@ + i64_text(layout_id) + "/files/static/"@ + url_encoded(f_path.skip(7)))
    } else {
        None
    }
}

impl LayoutAdminFile {
    /// The URL of the text editor for this file; `None` when it is not editable.
    pub fn edit_url(&self, layout_id: i64) -> (r: Option<String>)
        ensures
            match edit_url_spec(self.display_path@, self.is_text_editable, layout_id) {
                Some(u) => r matches Some(s) && s@ == u,
                None => r is None,
            },
    {
        if !self.is_text_editable {
            return None;
        }
        let p = chars_of_string(&self.display_path);
        let id = i64_to_text(layout_id);
        let shell = chars_of("shell.html");
        if seq_eq(&p, &shell) {
            let mut u = chars_of("/admin/layouts/");
            append_vec(&mut u, &id);
            let t = chars_of("/files/shell.html");
            append_vec(&mut u, &t);
            return Some(string_of(&u));
        }
        let pre = chars_of("static/");
        if starts_with_exec(&p, &pre) {
            proof {
                reveal_strlit("static/");
            }
            let rel = string_of(&sub_vec(&p, 7, p.len()));
            assert(rel@ =~= p@.skip(7));
            let enc = url_encode(rel.as_str());
            let mut u = chars_of("/admin/layouts/");
            append_vec(&mut u, &id);
            let t = chars_of("/files/static/");
            append_vec(&mut u, &t);
            let ev = chars_of_string(&enc);
            append_vec(&mut u, &ev);
            return Some(string_of(&u));
        }
        None
    }
}

/// The admin row of a file under `static/`; its size is shown as `size_label`.
pub fn static_entry_to_admin_file(entry: &StaticFileEntry, size_label: String) -> (f: LayoutAdminFile)
    ensures
        f.display_path@ == "static/"@ + entry.relative_path@,
        f.kind_label@ == match entry.kind {
            StaticFileKind::Text => "テキスト"@,
            StaticFileKind::Binary => crate::static_files::binary_label_spec(entry.relative_path@),
        },
        f.size_label@ == size_label@,
        f.public_url@ == entry.public_url@,
        f.is_text_editable == (entry.kind == StaticFileKind::Text),
        f.is_deletable,
        f.delete_path matches Some(d) && d@ == entry.relative_path@,
{
    let mut dp = chars_of("static/");
    let rv = chars_of_string(&entry.relative_path);
    append_vec(&mut dp, &rv);
    LayoutAdminFile {
        display_path: string_of(&dp),
        kind_label: String::from_str(entry.kind_label()),
        size_label,
        public_url: entry.public_url.clone(),
        is_text_editable: entry.kind == StaticFileKind::Text,
        is_deletable: true,
        delete_path: Some(entry.relative_path.clone()),
    }
}

// ---------------------------------------------------------------------------
// Static file paths in the editor
// ---------------------------------------------------------------------------

/// Where an uploaded file goes: the given path, a directory path (ending in
/// `/`) followed by the file's own name, or the file's own name.
pub open spec fn upload_target_spec(relative: Seq<char>, original: Seq<char>) -> Seq<char> {
    let t = trim(relative);
    if t.len() == 0 {
        original
    } else if t.last() == '/' {
        t + original
    } else {
        t
    }
}

pub fn resolve_static_upload_target_path(relative_path: &str, original_name: &str) -> (s: String)
    ensures
        s@ == upload_target_spec(relative_path@, original_name@),
{
    let rv = chars_of(relative_path);
    let t = trim_vec(&rv);
    if t.len() == 0 {
        return String::from_str(original_name);
    }
    if t[t.len() - 1] == '/' {
        let mut r = sub_vec(&t, 0, t.len());
        let o = chars_of(original_name);
        append_vec(&mut r, &o);
        assert(t@.subrange(0, t@.len() as int) =~= t@);
        return string_of(&r);
    }
    string_of(&t)
}

/// The path without surrounding whitespace and leading `/`s.
pub open spec fn strip_leading_slashes(s: Seq<char>) -> Seq<char>
    decreases s.len(),
{
    if s.len() > 0 && s[0] == '/' {
        strip_leading_slashes(s.drop_first())
    } else {
        s
    }
}

/// Trims an edited file path and drops its leading `/`s; empty is refused.
pub fn normalize_static_relative_path(path: &str) -> (r: Result<String, DomainError>)
    ensures
        strip_leading_slashes(trim(path@)).len() == 0 ==> is_validation(r, "ファイルパスは必須です"@),
        strip_leading_slashes(trim(path@)).len() > 0 ==> (r matches Ok(s) && s@ == strip_leading_slashes(
            trim(path@),
        )),
{
    let pv = chars_of(path);
    let t = trim_vec(&pv);
    let mut i: usize = 0;
    assert(t@.skip(0) =~= t@);
    while i < t.len() && t[i] == '/'
        invariant
            i <= t.len(),
            strip_leading_slashes(t@) == strip_leading_slashes(t@.skip(i as int)),
        decreases t.len() - i,
    {
        assert(t@.skip(i as int).drop_first() =~= t@.skip(i + 1));
        i += 1;
    }
    let rest = sub_vec(&t, i, t.len());
    assert(rest@ =~= t@.skip(i as int));
    assert(strip_leading_slashes(rest@) == rest@);
    if rest.len() == 0 {
        return Err(DomainError::Validation(String::from_str("ファイルパスは必須です")));
    }
    Ok(string_of(&rest))
}

/// Why a path cannot be edited as text, if it cannot.
pub open spec fn editable_path_error(path: Seq<char>) -> Option<Seq<char>> {
    match static_path_error(path) {
        Some(m) => Some(m),
        None => if extension_in(path, text_exts()) {
            None
        } else {
            Some("「"@ + path + "」はテキストエディタで編集できないファイルです"@)
        },
    }
}

/// Checks that a static path may be edited as text.
pub fn validate_editable_text_path(path: &str) -> (r: Result<(), DomainError>)
    ensures
        match editable_path_error(path@) {
            None => r is Ok,
            Some(m) => is_validation(r, m),
        },
{
    match validate_static_relative_path(path) {
        Err(m) => return Err(DomainError::Validation(m)),
        Ok(()) => {},
    }
    if is_editable_text_static(path) {
        Ok(())
    } else {
        let mut m = chars_of("「");
        let pv = chars_of(path);
        append_vec(&mut m, &pv);
        let t = chars_of("」はテキストエディタで編集できないファイルです");
        append_vec(&mut m, &t);
        Err(DomainError::Validation(string_of(&m)))
    }
}

/// The path under which an edited text file of a layout is saved: the path
/// normalized, and editable as text.
pub fn static_text_write_path(path: &str) -> (r: Result<String, DomainError>)
    ensures
        strip_leading_slashes(trim(path@)).len() == 0 ==> is_validation(r, "ファイルパスは必須です"@),
        strip_leading_slashes(trim(path@)).len() > 0 ==> match editable_path_error(strip_leading_slashes(trim(path@))) {
            None => r matches Ok(s) && s@ == strip_leading_slashes(trim(path@)),
            Some(m) => is_validation(r, m),
        },
{
    let n = normalize_static_relative_path(path)?;
    validate_editable_text_path(n.as_str())?;
    Ok(n)
}

/// The path of a layout's static file to delete: the path trimmed, once it
/// is checked.
pub fn static_delete_path(path: &str) -> (r: Result<String, DomainError>)
    ensures
        match static_path_error(path@) {
            None => r matches Ok(s) && s@ == trim(path@),
            Some(m) => is_validation(r, m),
        },
{
    match validate_static_relative_path(path) {
        Err(m) => Err(DomainError::Validation(m)),
        Ok(()) => {
            let pv = chars_of(path);
            Ok(string_of(&trim_vec(&pv)))
        },
    }
}

/// A path listed for deletion when a layout's text files are saved: a blank
/// entry is skipped, any other is checked.
pub fn listed_delete_path(path: &str) -> (r: Result<Option<String>, DomainError>)
    ensures
        trim(path@).len() == 0 ==> r matches Ok(None),
        trim(path@).len() > 0 ==> match static_path_error(trim(path@)) {
            None => r matches Ok(Some(s)) && s@ == trim(path@),
            Some(m) => is_validation(r, m),
        },
{
    let pv = chars_of(path);
    let tv = trim_vec(&pv);
    if tv.len() == 0 {
        return Ok(None);
    }
    let t = string_of(&tv);
    proof {
        lemma_trim_idempotent(path@);
    }
    let d = static_delete_path(t.as_str())?;
    Ok(Some(d))
}

/// The admin row of a layout's shell; its size is shown as `size_label`.
pub fn shell_admin_file(size_label: String) -> (f: LayoutAdminFile)
    ensures
        f.display_path@ == "shell.html"@,
        f.kind_label@ == "テンプレート"@,
        f.size_label@ == size_label@,
        f.public_url@ == "—"@,
        f.is_text_editable,
        !f.is_deletable,
        f.delete_path is None,
{
    LayoutAdminFile {
        display_path: String::from_str("shell.html"),
        kind_label: String::from_str("テンプレート"),
        size_label,
        public_url: String::from_str("—"),
        is_text_editable: true,
        is_deletable: false,
        delete_path: None,
    }
}

/// Most bytes of one uploaded static file (10 MB).
pub const MAX_STATIC_UPLOAD_SIZE: usize = 10485760;

/// The entry of an accepted upload of `size` bytes to `relative_path`, or why
/// it is refused.
pub open spec fn upload_entry_spec(layout_key: Seq<char>, relative_path: Seq<char>, size: int) -> Result<
    (Seq<char>, StaticFileKind, Seq<char>),
    Seq<char>,
> {
    let t = trim(relative_path);
    if size > MAX_STATIC_UPLOAD_SIZE {
        Err("ファイルサイズは 10.0 MB 以下にしてください"@)
    } else {
        match static_path_error(t) {
            Some(m) => Err(m),
            None => Ok(
                (
                    t,
                    if extension_in(t, text_exts()) {
                        StaticFileKind::Text
                    } else {
                        StaticFileKind::Binary
                    },
                    "/static/"@ + layout_key + "/"@ + t,
                ),
            ),
        }
    }
}

/// Checks an upload of `size` bytes and gives the entry it will have once written.
pub fn static_upload_entry(layout_key: &str, relative_path: &str, size: usize) -> (r: Result<
    StaticFileEntry,
    DomainError,
>)
    ensures
        match upload_entry_spec(layout_key@, relative_path@, size as int) {
            Ok((p, k, u)) => r matches Ok(e) && e.relative_path@ == p && e.kind == k && e.size_bytes == size
                && e.public_url@ == u,
            Err(m) => is_validation(r, m),
        },
{
    if size > MAX_STATIC_UPLOAD_SIZE {
        return Err(DomainError::Validation(String::from_str("ファイルサイズは 10.0 MB 以下にしてください")));
    }
    let rv = chars_of(relative_path);
    let tv = trim_vec(&rv);
    let t = string_of(&tv);
    match validate_static_relative_path(t.as_str()) {
        Err(m) => return Err(DomainError::Validation(m)),
        Ok(()) => {},
    }
    proof {
        crate::text::lemma_trim_ends(rv@);
    }
    assert(trim(t@) == t@) by {
        lemma_trim_idempotent(rv@);
    }
    let kind = if is_editable_text_static(t.as_str()) {
        StaticFileKind::Text
    } else {
        StaticFileKind::Binary
    };
    let mut url = chars_of("/static/");
    let kv = chars_of(layout_key);
    append_vec(&mut url, &kv);
    url.push('/');
    append_vec(&mut url, &tv);
    proof {
        reveal_strlit("/");
        assert(url@ =~= "/static/"@ + layout_key@ + "/"@ + tv@);
    }
    Ok(StaticFileEntry { relative_path: t, kind, size_bytes: size as u64, public_url: string_of(&url) })
}

pub(crate) proof fn lemma_trim_idempotent(s: Seq<char>)
    ensures
        trim(trim(s)) == trim(s),
{
    let t = trim(s);
    crate::text::lemma_trim_ends(s);
    crate::text::lemma_first_non_ws_bounds(t, 0);
    if t.len() > 0 {
        assert(crate::text::first_non_ws_from(t, 0) == 0);
        assert(crate::text::trim_start(t) =~= t);
        assert(crate::text::last_non_ws_end(t, t.len() as int) == t.len());
    } else {
        assert(crate::text::trim_start(t) =~= t);
    }
    assert(crate::text::trim_end(t) =~= t);
}

// ---------------------------------------------------------------------------
// Placeholder references when a layout is copied
// ---------------------------------------------------------------------------

/// `marker` occurs at `p`, not preceded by a name character.
pub open spec fn reference_at(text: Seq<char>, marker: Seq<char>, p: int) -> bool {
    occurs_at(text, marker, p) && (p == 0 || !is_ident_spec(text[p - 1]))
}

/// `{name}_html` occurs in `text` not preceded by a name character.
pub open spec fn placeholder_used_spec(text: Seq<char>, name: Seq<char>) -> bool {
    exists|p: int| #[trigger] reference_at(text, name + "_html"@, p)
}

/// ASCII letters, digits and `_`.
pub fn is_placeholder_name_char(c: char) -> (b: bool)
    ensures
        b == is_ident_spec(c),
{
    crate::text::is_ident_char(c)
}

/// Whether the text refers to the placeholder `name` (as `{name}_html`, not
/// as the tail of a longer name).
pub fn placeholder_used_in_text(text: &str, name: &str) -> (b: bool)
    ensures
        b == placeholder_used_spec(text@, name@),
{
    let tv = chars_of(text);
    let mut marker = chars_of(name);
    let h = chars_of("_html");
    append_vec(&mut marker, &h);
    proof {
        reveal_strlit("_html");
    }
    assert(marker@.len() > 0);
    let mut p: usize = 0;
    while p < tv.len()
        invariant
            p <= tv.len(),
            tv@ == text@,
            marker@ == name@ + "_html"@,
            forall|q: int| 0 <= q < p ==> !#[trigger] reference_at(tv@, marker@, q),
        decreases tv.len() - p,
    {
        let at = occurs_at_exec(&tv, &marker, p);
        if at && (p == 0 || !is_placeholder_name_char(tv[p - 1])) {
            assert(reference_at(tv@, marker@, p as int));
            return true;
        }
        assert(!reference_at(tv@, marker@, p as int));
        p += 1;
    }
    assert forall|q: int| !#[trigger] reference_at(tv@, marker@, q) by {
        if q >= tv@.len() {
            assert(!occurs_at(tv@, marker@, q));
        }
    }
    false
}

/// A layout key as it appears in placeholder names (`-` read as `_`).
pub fn layout_key_to_placeholder_token(key: &str) -> (s: String)
    ensures
        s@ == replace_char(key@, '-', seq!['_']),
{
    let kv = chars_of(key);
    let u = vec!['_'];
    let r = replace_char_vec(&kv, '-', &u);
    assert(u@ =~= seq!['_']);
    string_of(&r)
}

/// The copy's name of a placeholder: the source token prefix swapped for the
/// target token, or the target token put in front.
pub open spec fn remap_name_spec(source_token: Seq<char>, target_token: Seq<char>, name: Seq<char>) -> Seq<char> {
    let prefix = source_token + "_"@;
    if starts_with(name, prefix) {
        target_token + "_"@ + name.skip(prefix.len() as int)
    } else {
        target_token + "_"@ + name
    }
}

pub fn remap_placeholder_name(source_token: &str, target_token: &str, name: &str) -> (s: String)
    ensures
        s@ == remap_name_spec(source_token@, target_token@, name@),
{
    let mut prefix = chars_of(source_token);
    let us = chars_of("_");
    append_vec(&mut prefix, &us);
    let nv = chars_of(name);
    let mut r = chars_of(target_token);
    append_vec(&mut r, &us);
    if starts_with_exec(&nv, &prefix) {
        let rest = sub_vec(&nv, prefix.len(), nv.len());
        assert(rest@ =~= nv@.skip(prefix@.len() as int));
        append_vec(&mut r, &rest);
    } else {
        append_vec(&mut r, &nv);
    }
    string_of(&r)
}

/// `str::replace`: every non-overlapping occurrence, left to right; an empty
/// pattern puts `to` around every character.
pub open spec fn str_replace(s: Seq<char>, pat: Seq<char>, to: Seq<char>) -> Seq<char>
    decreases s.len(),
{
    if pat.len() > 0 {
        replace_all(s, pat, to)
    } else if s.len() == 0 {
        to
    } else {
        to + seq![s[0]] + str_replace(s.drop_first(), pat, to)
    }
}

fn str_replace_vec(v: &Vec<char>, pat: &Vec<char>, to: &Vec<char>) -> (r: Vec<char>)
    ensures
        r@ == str_replace(v@, pat@, to@),
{
    if pat.len() > 0 {
        return replace_all_vec(v, pat, to);
    }
    let mut r: Vec<char> = Vec::new();
    let mut i: usize = 0;
    assert(v@.skip(0) =~= v@);
    while i < v.len()
        invariant
            i <= v.len(),
            pat@.len() == 0,
            r@ + str_replace(v@.skip(i as int), pat@, to@) == str_replace(v@, pat@, to@),
        decreases v.len() - i,
    {
        let ghost rest = v@.skip(i as int);
        assert(rest.drop_first() =~= v@.skip(i + 1));
        append_vec(&mut r, to);
        r.push(v[i]);
        assert(r@ + str_replace(v@.skip(i + 1), pat@, to@) =~= str_replace(v@, pat@, to@));
        i += 1;
    }
    append_vec(&mut r, to);
    assert(v@.skip(i as int) =~= seq![]);
    r
}

/// The text after each `(old, new)` pair was applied in turn (a pair whose
/// `old` does not occur leaves the text as it is).
pub open spec fn rewrite_refs_spec(text: Seq<char>, pairs: Seq<(Seq<char>, Seq<char>)>) -> Seq<char>
    decreases pairs.len(),
{
    if pairs.len() == 0 {
        text
    } else {
        let r = rewrite_refs_spec(text, pairs.drop_last());
        let (old, new) = pairs.last();
        if contains_seq(r, old) {
            str_replace(r, old, new)
        } else {
            r
        }
    }
}

/// Rewrites the references of the renamed placeholders in a template.
pub fn rewrite_placeholder_refs(text: &str, pairs: &[(String, String)]) -> (s: String)
    ensures
        s@ == rewrite_refs_spec(text@, crate::prefs::pairs_view(pairs@)),
{
    let ghost pv = crate::prefs::pairs_view(pairs@);
    let mut r = chars_of(text);
    let mut i: usize = 0;
    assert(pv.take(0) =~= seq![]);
    while i < pairs.len()
        invariant
            i <= pairs.len(),
            pv == crate::prefs::pairs_view(pairs@),
            r@ == rewrite_refs_spec(text@, pv.take(i as int)),
        decreases pairs.len() - i,
    {
        assert(pv.take(i + 1).drop_last() =~= pv.take(i as int));
        assert(pv.take(i + 1).last() == (pairs@[i as int].0@, pairs@[i as int].1@));
        let old = chars_of_string(&pairs[i].0);
        let new = chars_of_string(&pairs[i].1);
        if contains_exec(&r, &old) {
            r = str_replace_vec(&r, &old, &new);
        }
        i += 1;
    }
    assert(pv.take(pairs@.len() as int) =~= pv);
    string_of(&r)
}

/// The pairs that rename `{name}_html` and `has_{name}` for each
/// `(source name, new name)`.
pub open spec fn rewrite_pairs_spec(remaps: Seq<(Seq<char>, Seq<char>)>) -> Seq<(Seq<char>, Seq<char>)> {
    Seq::new(
        2 * remaps.len(),
        |i: int|
            if i % 2 == 0 {
                (remaps[i / 2].0 + "_html"@, remaps[i / 2].1 + "_html"@)
            } else {
                ("has_"@ + remaps[i / 2].0, "has_"@ + remaps[i / 2].1)
            },
    )
}

/// `(name, new name)` for each placeholder the layout text refers to, in the
/// order of `names`.
pub open spec fn remap_candidates(
    text: Seq<char>,
    names: Seq<Seq<char>>,
    source_token: Seq<char>,
    target_token: Seq<char>,
) -> Seq<(Seq<char>, Seq<char>)>
    decreases names.len(),
{
    if names.len() == 0 {
        seq![]
    } else {
        let acc = remap_candidates(text, names.drop_last(), source_token, target_token);
        let n = names.last();
        if placeholder_used_spec(text, n) {
            acc.push((n, remap_name_spec(source_token, target_token, n)))
        } else {
            acc
        }
    }
}

/// Where an entry whose name has `len` bytes goes: before the first entry
/// with a shorter name.
pub open spec fn longer_first_pos(s: Seq<(Seq<char>, Seq<char>)>, len: nat, i: int) -> int
    decreases s.len() - i,
{
    if i < 0 || i >= s.len() {
        s.len() as int
    } else if byte_len(s[i].0) < len {
        i
    } else {
        longer_first_pos(s, len, i + 1)
    }
}

/// The entries stably sorted by the byte length of their name, longest first.
pub open spec fn longer_first(s: Seq<(Seq<char>, Seq<char>)>) -> Seq<(Seq<char>, Seq<char>)>
    decreases s.len(),
{
    if s.len() == 0 {
        seq![]
    } else {
        let p = longer_first(s.drop_last());
        p.insert(longer_first_pos(p, byte_len(s.last().0), 0), s.last())
    }
}

/// The renames of the placeholders a layout text refers to when the layout
/// is copied from `source_key` to `target_key`, longest name first.
pub open spec fn placeholder_remaps_spec(
    text: Seq<char>,
    names: Seq<Seq<char>>,
    source_key: Seq<char>,
    target_key: Seq<char>,
) -> Seq<(Seq<char>, Seq<char>)> {
    longer_first(
        remap_candidates(
            text,
            names,
            replace_char(source_key, '-', seq!['_']),
            replace_char(target_key, '-', seq!['_']),
        ),
    )
}

proof fn lemma_longer_first_pos(s: Seq<(Seq<char>, Seq<char>)>, len: nat, i: int)
    requires
        0 <= i <= s.len(),
    ensures
        i <= longer_first_pos(s, len, i) <= s.len(),
        forall|q: int| i <= q < longer_first_pos(s, len, i) ==> byte_len(#[trigger] s[q].0) >= len,
        longer_first_pos(s, len, i) < s.len() ==> byte_len(s[longer_first_pos(s, len, i)].0) < len,
    decreases s.len() - i,
{
    if i < s.len() && byte_len(s[i].0) >= len {
        lemma_longer_first_pos(s, len, i + 1);
    }
}

/// Renames come longest name first, so that a name is rewritten before any
/// shorter name that it contains, and none is lost or added.
pub proof fn law_remaps_longest_first(s: Seq<(Seq<char>, Seq<char>)>)
    ensures
        longer_first(s).len() == s.len(),
        longer_first(s).to_multiset() =~= s.to_multiset(),
        forall|a: int, b: int|
            0 <= a < b < longer_first(s).len() ==> byte_len(#[trigger] longer_first(s)[a].0) >= byte_len(
                #[trigger] longer_first(s)[b].0,
            ),
    decreases s.len(),
{
    if s.len() > 0 {
        let p = longer_first(s.drop_last());
        law_remaps_longest_first(s.drop_last());
        let x = s.last();
        lemma_longer_first_pos(p, byte_len(x.0), 0);
        let j = longer_first_pos(p, byte_len(x.0), 0);
        let r = p.insert(j, x);
        assert forall|a: int, b: int| 0 <= a < b < r.len() implies byte_len(#[trigger] r[a].0) >= byte_len(
            #[trigger] r[b].0,
        ) by {
            if b < j {
                assert(r[a] == p[a]);
                assert(r[b] == p[b]);
            } else if b == j {
                assert(r[a] == p[a]);
            } else if a < j {
                assert(r[a] == p[a]);
                assert(r[b] == p[b - 1]);
            } else if a == j {
                assert(r[b] == p[b - 1]);
                if b - 1 > j {
                    assert(byte_len(p[j].0) >= byte_len(p[b - 1].0));
                }
            } else {
                assert(r[a] == p[a - 1]);
                assert(r[b] == p[b - 1]);
            }
        }
        vstd::seq_lib::to_multiset_insert(p, j, x);
        vstd::seq_lib::to_multiset_build(s.drop_last(), x);
        assert(s =~= s.drop_last().push(x));
        assert(longer_first(s) == r);
        assert(r.to_multiset() == p.to_multiset().insert(x));
        assert(s.to_multiset() == s.drop_last().to_multiset().insert(x));
    } else {
        assert(s =~= Seq::<(Seq<char>, Seq<char>)>::empty());
        vstd::seq_lib::to_multiset_len(s);
        vstd::seq_lib::to_multiset_len(longer_first(s));
    }
}

/// The renames of the placeholders that the layout text refers to, for a copy
/// of the layout from `source_key` to `target_key`: `(name, new name)`,
/// longest name first.
pub fn build_placeholder_remaps(
    layout_text: &str,
    placeholder_names: &[String],
    source_key: &str,
    target_key: &str,
) -> (r: Vec<(String, String)>)
    ensures
        crate::prefs::pairs_view(r@) == placeholder_remaps_spec(
            layout_text@,
            crate::prefs::strings_view(placeholder_names@),
            source_key@,
            target_key@,
        ),
{
    let source_token = layout_key_to_placeholder_token(source_key);
    let target_token = layout_key_to_placeholder_token(target_key);
    let ghost names = crate::prefs::strings_view(placeholder_names@);
    let ghost st = source_token@;
    let ghost tt = target_token@;
    let mut out: Vec<(String, String)> = Vec::new();
    let mut i: usize = 0;
    assert(names.take(0) =~= seq![]);
    assert(crate::prefs::pairs_view(out@) =~= seq![]);
    while i < placeholder_names.len()
        invariant
            i <= placeholder_names.len(),
            names == crate::prefs::strings_view(placeholder_names@),
            st == source_token@,
            tt == target_token@,
            crate::prefs::pairs_view(out@) == longer_first(remap_candidates(layout_text@, names.take(i as int), st, tt)),
        decreases placeholder_names.len() - i,
    {
        assert(names.take(i + 1).drop_last() =~= names.take(i as int));
        assert(names.take(i + 1).last() == placeholder_names@[i as int]@);
        let name = &placeholder_names[i];
        if placeholder_used_in_text(layout_text, name.as_str()) {
            let new_name = remap_placeholder_name(source_token.as_str(), target_token.as_str(), name.as_str());
            let len = byte_count(name);
            let ghost pv = crate::prefs::pairs_view(out@);
            let mut j: usize = 0;
            while j < out.len() && byte_count(&out[j].0) >= len
                invariant
                    j <= out.len(),
                    pv == crate::prefs::pairs_view(out@),
                    len as int == byte_len(name@),
                    longer_first_pos(pv, byte_len(name@), 0) == longer_first_pos(pv, byte_len(name@), j as int),
                decreases out.len() - j,
            {
                assert(pv[j as int].0 == out@[j as int].0@);
                j += 1;
            }
            proof {
                if j < out.len() {
                    assert(pv[j as int].0 == out@[j as int].0@);
                }
            }
            let item = (name.clone(), new_name);
            out.insert(j, item);
            proof {
                let prev = remap_candidates(layout_text@, names.take(i as int), st, tt);
                let cur = remap_candidates(layout_text@, names.take(i + 1), st, tt);
                assert(cur == prev.push((name@, remap_name_spec(st, tt, name@))));
                assert(cur.drop_last() =~= prev);
                assert(longer_first_pos(pv, byte_len(name@), 0) == j as int);
                assert(crate::prefs::pairs_view(out@) =~= pv.insert(j as int, (item.0@, item.1@)));
            }
        } else {
            proof {
                let prev = remap_candidates(layout_text@, names.take(i as int), st, tt);
                let cur = remap_candidates(layout_text@, names.take(i + 1), st, tt);
                assert(cur == prev);
            }
        }
        i += 1;
    }
    assert(names.take(placeholder_names@.len() as int) =~= names);
    out
}

pub fn build_placeholder_rewrite_pairs(remaps: &[(String, String)]) -> (r: Vec<(String, String)>)
    ensures
        crate::prefs::pairs_view(r@) == rewrite_pairs_spec(crate::prefs::pairs_view(remaps@)),
{
    let ghost rv = crate::prefs::pairs_view(remaps@);
    let mut out: Vec<(String, String)> = Vec::new();
    let mut i: usize = 0;
    while i < remaps.len()
        invariant
            i <= remaps.len(),
            rv == crate::prefs::pairs_view(remaps@),
            crate::prefs::pairs_view(out@) =~= rewrite_pairs_spec(rv).take(2 * i),
        decreases remaps.len() - i,
    {
        let s = chars_of_string(&remaps[i].0);
        let n = chars_of_string(&remaps[i].1);
        let h = chars_of("_html");
        let has = chars_of("has_");
        let mut a = s.clone();
        append_vec(&mut a, &h);
        let mut b = n.clone();
        append_vec(&mut b, &h);
        let mut c = has.clone();
        append_vec(&mut c, &s);
        let mut d = has.clone();
        append_vec(&mut d, &n);
        let ghost old = crate::prefs::pairs_view(out@);
        let p1 = (string_of(&a), string_of(&b));
        let p2 = (string_of(&c), string_of(&d));
        out.push(p1);
        out.push(p2);
        assert(crate::prefs::pairs_view(out@) =~= old.push((p1.0@, p1.1@)).push((p2.0@, p2.1@)));
        i += 1;
    }
    out
}

/// The text of a copied layout file with the layout's paths moved to the new
/// key (`{source}/` and `/static/{source}/` rewritten, in that order).
pub open spec fn rewrite_key_spec(text: Seq<char>, source_key: Seq<char>, target_key: Seq<char>) -> Seq<char> {
    let t1 = str_replace(text, source_key + "/"@, target_key + "/"@);
    str_replace(t1, "/static/"@ + source_key + "/"@, "/static/"@ + target_key + "/"@)
}

pub fn rewrite_layout_key_in_text(text: &str, source_key: &str, target_key: &str) -> (s: String)
    ensures
        s@ == rewrite_key_spec(text@, source_key@, target_key@),
{
    let tv = chars_of(text);
    let sk = chars_of(source_key);
    let tk = chars_of(target_key);
    let slash = chars_of("/");
    let st = chars_of("/static/");
    let mut a = sk.clone();
    append_vec(&mut a, &slash);
    let mut b = tk.clone();
    append_vec(&mut b, &slash);
    let t1 = str_replace_vec(&tv, &a, &b);
    let mut c = st.clone();
    append_vec(&mut c, &sk);
    append_vec(&mut c, &slash);
    let mut d = st.clone();
    append_vec(&mut d, &tk);
    append_vec(&mut d, &slash);
    let t2 = str_replace_vec(&t1, &c, &d);
    string_of(&t2)
}

// ---------------------------------------------------------------------------
// Layout packages
// ---------------------------------------------------------------------------

/// A layout key: 1 to 64 ASCII letters, digits, `-` or `_`, not starting with `_`.
pub open spec fn layout_key_ok(key: Seq<char>) -> bool {
    &&& key.len() > 0
    &&& key.len() <= 64
    &&& forall|i: int| 0 <= i < key.len() ==> (is_ident_spec(#[trigger] key[i]) || key[i] == '-')
    &&& key[0] != '_'
}

pub open spec fn layout_key_message() -> Seq<char> {
    "レイアウト key は英数字・ハイフン・アンダースコアのみ（先頭に _ は不可）"@
}

/// Checks a layout key.
pub fn validate_layout_key(key: &str) -> (r: Result<(), DomainError>)
    ensures
        layout_key_ok(key@) ==> r is Ok,
        !layout_key_ok(key@) ==> is_conflict(r, layout_key_message()),
{
    let kv = chars_of(key);
    let mut ok = kv.len() > 0 && kv.len() <= 64 && kv[0] != '_';
    let mut i: usize = 0;
    while i < kv.len()
        invariant
            i <= kv.len(),
            kv@ == key@,
            ok ==> (kv@.len() > 0 && kv@.len() <= 64 && kv@[0] != '_'),
            ok ==> forall|k: int| 0 <= k < i ==> (is_ident_spec(#[trigger] kv@[k]) || kv@[k] == '-'),
            !ok ==> !layout_key_ok(key@),
        decreases kv.len() - i,
    {
        if !(crate::text::is_ident_char(kv[i]) || kv[i] == '-') {
            ok = false;
        }
        i += 1;
    }
    if ok {
        Ok(())
    } else {
        Err(DomainError::Conflict(String::from_str("レイアウト key は英数字・ハイフン・アンダースコアのみ（先頭に _ は不可）")))
    }
}

/// A path inside a package: not empty, no `..` anywhere, relative, and no
/// empty part.
pub open spec fn safe_zip_path(p: Seq<char>) -> bool {
    let parts = split_char(p, '/');
    &&& p.len() > 0
    &&& !contains_seq(p, ".."@)
    &&& p[0] != '/'
    &&& forall|i: int| 0 <= i < parts.len() ==> (#[trigger] parts[i]).len() > 0 && parts[i] != ".."@
}

pub fn is_safe_zip_relative_path(path: &str) -> (b: bool)
    ensures
        b == safe_zip_path(path@),
{
    let p = chars_of(path);
    if p.len() == 0 || p[0] == '/' {
        return false;
    }
    let dd = chars_of("..");
    if contains_exec(&p, &dd) {
        return false;
    }
    let parts = split_char_vec(&p, '/');
    let ghost ps = vv(parts@);
    let mut i: usize = 0;
    while i < parts.len()
        invariant
            i <= parts.len(),
            ps == vv(parts@),
            ps == split_char(path@, '/'),
            dd@ == ".."@,
            forall|k: int| 0 <= k < i ==> (#[trigger] ps[k]).len() > 0 && ps[k] != ".."@,
        decreases parts.len() - i,
    {
        assert(ps[i as int] == parts@[i as int]@);
        let empty = parts[i].len() == 0;
        let is_dd = seq_eq(&parts[i], &dd);
        if empty || is_dd {
            assert(ps[i as int].len() == 0 || ps[i as int] == ".."@);
            return false;
        }
        assert(ps[i as int].len() > 0 && ps[i as int] != ".."@);
        i += 1;
    }
    true
}

/// An entry of a package may not name `..` anywhere.
pub fn check_zip_entry_name(name: &str) -> (r: Result<(), DomainError>)
    ensures
        !contains_seq(name@, ".."@) ==> r is Ok,
        contains_seq(name@, ".."@) ==> is_validation(r, "不正な ZIP パスです: "@ + name@),
{
    let nv = chars_of(name);
    let dd = chars_of("..");
    if contains_exec(&nv, &dd) {
        let mut m = chars_of("不正な ZIP パスです: ");
        append_vec(&mut m, &nv);
        return Err(DomainError::Validation(string_of(&m)));
    }
    Ok(())
}

/// Why a file path of a package is refused, if it is: it must lie under
/// `{key}/` and be a safe relative path there.
pub open spec fn package_path_error(key: Seq<char>, path: Seq<char>) -> Option<Seq<char>> {
    let prefix = trim(key) + "/"@;
    if !starts_with(path, prefix) {
        Some("ZIP 内のパスは "@ + prefix + " で始まる必要があります（got: "@ + path + "）"@)
    } else {
        let relative = path.skip(prefix.len() as int);
        if relative.len() > 0 && !safe_zip_path(relative) {
            Some("不正な ZIP パスです: "@ + path)
        } else {
            None
        }
    }
}

/// The first refused path from `i` on, if any.
pub open spec fn package_paths_error_from(key: Seq<char>, paths: Seq<Seq<char>>, i: int) -> Option<Seq<char>>
    decreases paths.len() - i,
{
    if i < 0 || i >= paths.len() {
        None
    } else {
        match package_path_error(key, paths[i]) {
            Some(m) => Some(m),
            None => package_paths_error_from(key, paths, i + 1),
        }
    }
}

/// Checks that every file of a package lies under the layout's directory.
pub fn check_package_paths(layout_key: &str, paths: &[String]) -> (r: Result<(), DomainError>)
    ensures
        match package_paths_error_from(layout_key@, crate::prefs::strings_view(paths@), 0) {
            None => r is Ok,
            Some(m) => is_validation(r, m),
        },
{
    let kv = chars_of(layout_key);
    let mut prefix = trim_vec(&kv);
    let slash = chars_of("/");
    append_vec(&mut prefix, &slash);
    let ghost ps = crate::prefs::strings_view(paths@);
    let mut i: usize = 0;
    while i < paths.len()
        invariant
            i <= paths.len(),
            ps == crate::prefs::strings_view(paths@),
            prefix@ == trim(layout_key@) + "/"@,
            package_paths_error_from(layout_key@, ps, 0) == package_paths_error_from(layout_key@, ps, i as int),
        decreases paths.len() - i,
    {
        assert(ps[i as int] == paths@[i as int]@);
        let p = chars_of_string(&paths[i]);
        if !starts_with_exec(&p, &prefix) {
            let mut m = chars_of("ZIP 内のパスは ");
            append_vec(&mut m, &prefix);
            let g = chars_of(" で始まる必要があります（got: ");
            append_vec(&mut m, &g);
            append_vec(&mut m, &p);
            let e = chars_of("）");
            append_vec(&mut m, &e);
            return Err(DomainError::Validation(string_of(&m)));
        }
        let relative = sub_vec(&p, prefix.len(), p.len());
        assert(relative@ =~= p@.skip(prefix@.len() as int));
        if relative.len() > 0 {
            let rs = string_of(&relative);
            if !is_safe_zip_relative_path(rs.as_str()) {
                let mut m = chars_of("不正な ZIP パスです: ");
                append_vec(&mut m, &p);
                return Err(DomainError::Validation(string_of(&m)));
            }
        }
        i += 1;
    }
    Ok(())
}

/// `\` read as `/`, then leading `./` dropped.
pub open spec fn strip_dot_slash(s: Seq<char>) -> Seq<char>
    decreases s.len(),
{
    if s.len() >= 2 && s[0] == '.' && s[1] == '/' {
        strip_dot_slash(s.skip(2))
    } else {
        s
    }
}

pub fn normalize_zip_entry_name(name: &str) -> (s: String)
    ensures
        s@ == strip_dot_slash(replace_char(name@, '\\', seq!['/'])),
{
    let nv = chars_of(name);
    let slash = vec!['/'];
    let r = replace_char_vec(&nv, '\\', &slash);
    assert(slash@ =~= seq!['/']);
    let mut i: usize = 0;
    assert(r@.skip(0) =~= r@);
    while r.len() - i >= 2 && r[i] == '.' && r[i + 1] == '/'
        invariant
            i <= r.len(),
            strip_dot_slash(r@) == strip_dot_slash(r@.skip(i as int)),
        decreases r.len() - i,
    {
        assert(r@.skip(i as int).skip(2) =~= r@.skip(i + 2));
        i += 2;
    }
    let rest = sub_vec(&r, i, r.len());
    assert(rest@ =~= r@.skip(i as int));
    string_of(&rest)
}

/// Layout part of a package manifest.
#[derive(Debug, Clone)]
pub struct LayoutExportMeta {
    pub key: String,
    pub name: String,
}

/// A page listed in a package manifest.
#[derive(Debug, Clone)]
pub struct LayoutExportPageMeta {
    pub name: String,
    pub url_path: Option<String>,
    pub file_name: String,
    pub is_published: bool,
}

/// The manifest of a layout package.
#[derive(Debug, Clone)]
pub struct LayoutExportManifest {
    pub format_version: u32,
    pub layout: LayoutExportMeta,
    pub pages: Vec<LayoutExportPageMeta>,
}

pub struct PageMetaP {
    pub name: Seq<char>,
    pub url_path: Option<Seq<char>>,
    pub file_name: Seq<char>,
    pub is_published: bool,
}

pub open spec fn pages_view(v: Seq<LayoutExportPageMeta>) -> Seq<PageMetaP> {
    Seq::new(v.len(), |i: int| page_meta_view(v[i]))
}

pub open spec fn page_meta_view(p: LayoutExportPageMeta) -> PageMetaP {
    PageMetaP {
        name: p.name@,
        url_path: crate::sql_view::opt_view(p.url_path),
        file_name: p.file_name@,
        is_published: p.is_published,
    }
}

// ---------------------------------------------------------------------------
// Importing a package under another key
// ---------------------------------------------------------------------------

/// `std::str::from_utf8`: the text the bytes encode, or `None` when they are
/// not UTF-8.
#[verifier::external_body]
fn utf8_text(bytes: &[u8]) -> (r: Option<String>)
    ensures
        r is Some <==> vstd::utf8::valid_utf8(bytes@),
        r matches Some(s) ==> s@ == vstd::utf8::decode_utf8(bytes@),
{
    std::str::from_utf8(bytes).ok().map(|s| s.to_string())
}

pub open spec fn files_view(v: Seq<(String, Vec<u8>)>) -> Seq<(Seq<char>, Seq<u8>)> {
    Seq::new(v.len(), |i: int| (v[i].0@, v[i].1@))
}

/// A file of a layout whose content names the layout's key: the shell, a
/// page, or a static file edited as text.
pub open spec fn names_layout_key(relative: Seq<char>) -> bool {
    ||| relative == "shell.html"@
    ||| starts_with(relative, "pages/"@)
    ||| starts_with(relative, "static/"@) && extension_in(relative.skip(7), text_exts())
}

/// The bytes of a file with the layout's paths moved to the new key, when
/// they are UTF-8 text; other bytes stay as they are.
pub open spec fn rewrite_bytes_spec(bytes: Seq<u8>, source_key: Seq<char>, target_key: Seq<char>) -> Seq<u8> {
    if vstd::utf8::valid_utf8(bytes) {
        vstd::utf8::encode_utf8(rewrite_key_spec(vstd::utf8::decode_utf8(bytes), source_key, target_key))
    } else {
        bytes
    }
}

/// The files under `{source}/`, moved under `{target}/`, in their order;
/// the files that name the layout's key are rewritten.
pub open spec fn remapped_files_spec(
    files: Seq<(Seq<char>, Seq<u8>)>,
    source_key: Seq<char>,
    target_key: Seq<char>,
) -> Seq<(Seq<char>, Seq<u8>)>
    decreases files.len(),
{
    if files.len() == 0 {
        seq![]
    } else {
        let acc = remapped_files_spec(files.drop_last(), source_key, target_key);
        let (path, bytes) = files.last();
        let prefix = source_key + "/"@;
        if starts_with(path, prefix) {
            let relative = path.skip(prefix.len() as int);
            acc.push(
                (
                    target_key + "/"@ + relative,
                    if names_layout_key(relative) {
                        rewrite_bytes_spec(bytes, source_key, target_key)
                    } else {
                        bytes
                    },
                ),
            )
        } else {
            acc
        }
    }
}

fn copy_pages(pages: &Vec<LayoutExportPageMeta>) -> (r: Vec<LayoutExportPageMeta>)
    ensures
        pages_view(r@) == pages_view(pages@),
{
    let mut out: Vec<LayoutExportPageMeta> = Vec::new();
    let mut i: usize = 0;
    while i < pages.len()
        invariant
            i <= pages.len(),
            pages_view(out@) =~= pages_view(pages@).take(i as int),
        decreases pages.len() - i,
    {
        let url_path = match &pages[i].url_path {
            Some(u) => Some(u.clone()),
            None => None,
        };
        let pg = LayoutExportPageMeta {
            name: pages[i].name.clone(),
            url_path,
            file_name: pages[i].file_name.clone(),
            is_published: pages[i].is_published,
        };
        let ghost old = pages_view(out@);
        out.push(pg);
        assert(pages_view(out@) =~= old.push(page_meta_view(pg)));
        assert(page_meta_view(pg) == page_meta_view(pages@[i as int]));
        assert(pages_view(pages@).take(i + 1) =~= pages_view(pages@).take(i as int).push(page_meta_view(pg)));
        i += 1;
    }
    assert(pages_view(pages@).take(pages@.len() as int) =~= pages_view(pages@));
    out
}

fn names_layout_key_exec(relative: &Vec<char>) -> (b: bool)
    ensures
        b == names_layout_key(relative@),
{
    let shell = chars_of("shell.html");
    let pages = chars_of("pages/");
    let st = chars_of("static/");
    if seq_eq(relative, &shell) || starts_with_exec(relative, &pages) {
        return true;
    }
    if starts_with_exec(relative, &st) {
        assert(st@.len() == 7) by {
            reveal_strlit("static/");
        }
        let rest = sub_vec(relative, 7, relative.len());
        let rs = string_of(&rest);
        assert(rest@ =~= relative@.skip(7));
        return is_editable_text_static(rs.as_str());
    }
    false
}

fn rewrite_bytes(bytes: &Vec<u8>, source_key: &str, target_key: &str) -> (r: Vec<u8>)
    ensures
        r@ == rewrite_bytes_spec(bytes@, source_key@, target_key@),
{
    match utf8_text(bytes.as_slice()) {
        Some(text) => {
            let t = rewrite_layout_key_in_text(text.as_str(), source_key, target_key);
            t.as_str().as_bytes_vec()
        },
        None => bytes.clone(),
    }
}

/// A package exported from layout `source_key`, made into one for
/// `target_key`: the manifest names the new key, and the files under
/// `{source}/` move under `{target}/`, those that name the key rewritten.
pub fn remap_layout_package(
    source_key: &str,
    target_key: &str,
    manifest: &LayoutExportManifest,
    zip_files: &[(String, Vec<u8>)],
) -> (r: (LayoutExportManifest, Vec<(String, Vec<u8>)>))
    ensures
        r.0.format_version == manifest.format_version,
        r.0.layout.key@ == target_key@,
        r.0.layout.name@ == manifest.layout.name@,
        pages_view(r.0.pages@) == pages_view(manifest.pages@),
        files_view(r.1@) == remapped_files_spec(files_view(zip_files@), source_key@, target_key@),
{
    let remapped_manifest = LayoutExportManifest {
        format_version: manifest.format_version,
        layout: LayoutExportMeta { key: String::from_str(target_key), name: manifest.layout.name.clone() },
        pages: copy_pages(&manifest.pages),
    };
    let mut old_prefix = chars_of(source_key);
    let slash = chars_of("/");
    append_vec(&mut old_prefix, &slash);
    let mut new_prefix = chars_of(target_key);
    append_vec(&mut new_prefix, &slash);
    let ghost fv = files_view(zip_files@);
    let mut out: Vec<(String, Vec<u8>)> = Vec::new();
    let mut i: usize = 0;
    assert(fv.take(0) =~= seq![]);
    assert(files_view(out@) =~= seq![]);
    while i < zip_files.len()
        invariant
            i <= zip_files.len(),
            fv == files_view(zip_files@),
            old_prefix@ == source_key@ + "/"@,
            new_prefix@ == target_key@ + "/"@,
            files_view(out@) == remapped_files_spec(fv.take(i as int), source_key@, target_key@),
        decreases zip_files.len() - i,
    {
        assert(fv.take(i + 1).drop_last() =~= fv.take(i as int));
        assert(fv.take(i + 1).last() == (zip_files@[i as int].0@, zip_files@[i as int].1@));
        let path = chars_of_string(&zip_files[i].0);
        if starts_with_exec(&path, &old_prefix) {
            let relative = sub_vec(&path, old_prefix.len(), path.len());
            assert(relative@ =~= path@.skip(old_prefix@.len() as int));
            let mut np = new_prefix.clone();
            append_vec(&mut np, &relative);
            let bytes = if names_layout_key_exec(&relative) {
                rewrite_bytes(&zip_files[i].1, source_key, target_key)
            } else {
                zip_files[i].1.clone()
            };
            let item = (string_of(&np), bytes);
            let ghost old = files_view(out@);
            out.push(item);
            assert(files_view(out@) =~= old.push((item.0@, item.1@)));
        }
        i += 1;
    }
    assert(fv.take(zip_files@.len() as int) =~= fv);
    (remapped_manifest, out)
}

/// The first error among the pages from `i` on.
pub open spec fn pages_error(key: Seq<char>, pages: Seq<PageMetaP>, files: Seq<Seq<char>>, i: int) -> Option<
    Seq<char>,
>
    decreases pages.len() - i,
{
    if i < 0 || i >= pages.len() {
        None
    } else {
        let p = pages[i];
        let zip_path = key + "/"@ + p.file_name;
        if trim(p.name).len() == 0 {
            Some("ページ名は必須です"@)
        } else if !starts_with(p.file_name, "pages/"@) {
            Some("file_name は pages/ で始まる必要があります（got: "@ + p.file_name + "）"@)
        } else if !safe_zip_path(p.file_name) {
            Some("不正な file_name です: "@ + p.file_name)
        } else if !files.contains(zip_path) {
            Some("ZIP 内にページファイルがありません: "@ + zip_path)
        } else {
            pages_error(key, pages, files, i + 1)
        }
    }
}

/// Why a package manifest and the paths of its files are refused, if they
/// are; the flag tells a key error (a conflict) from the others.
pub open spec fn manifest_error(
    version: u32,
    key: Seq<char>,
    name: Seq<char>,
    pages: Seq<PageMetaP>,
    files: Seq<Seq<char>>,
) -> Option<(bool, Seq<char>)> {
    let k = trim(key);
    if version != 1 {
        Some((false, "format_version は 1 のみ対応しています"@))
    } else if !layout_key_ok(k) {
        Some((true, layout_key_message()))
    } else if trim(name).len() == 0 {
        Some((false, "レイアウト名は必須です"@))
    } else {
        match pages_error(k, pages, files, 0) {
            Some(m) => Some((false, m)),
            None => if !files.contains(k + "/"@ + "shell.html"@) {
                Some((false, "ZIP 内に shell.html がありません"@))
            } else {
                None
            },
        }
    }
}

fn contains_path(files: &[String], p: &Vec<char>) -> (b: bool)
    ensures
        b == crate::prefs::strings_view(files@).contains(p@),
{
    let mut i: usize = 0;
    while i < files.len()
        invariant
            i <= files.len(),
            forall|k: int| 0 <= k < i ==> files@[k]@ != p@,
        decreases files.len() - i,
    {
        let f = chars_of_string(&files[i]);
        if seq_eq(&f, p) {
            assert(crate::prefs::strings_view(files@)[i as int] == p@);
            return true;
        }
        i += 1;
    }
    assert forall|k: int| 0 <= k < crate::prefs::strings_view(files@).len() implies crate::prefs::strings_view(
        files@,
    )[k] != p@ by {
        assert(crate::prefs::strings_view(files@)[k] == files@[k]@);
    }
    false
}

/// Checks a package manifest against the paths of the package's files.
pub fn validate_manifest(manifest: &LayoutExportManifest, zip_files: &[String]) -> (r: Result<(), DomainError>)
    ensures
        match manifest_error(
            manifest.format_version,
            manifest.layout.key@,
            manifest.layout.name@,
            pages_view(manifest.pages@),
            crate::prefs::strings_view(zip_files@),
        ) {
            None => r is Ok,
            Some((true, m)) => is_conflict(r, m),
            Some((false, m)) => is_validation(r, m),
        },
{
    if manifest.format_version != 1 {
        return Err(DomainError::Validation(String::from_str("format_version は 1 のみ対応しています")));
    }
    let kv0 = chars_of_string(&manifest.layout.key);
    let kv = trim_vec(&kv0);
    let k = string_of(&kv);
    match validate_layout_key(k.as_str()) {
        Err(e) => return Err(e),
        Ok(()) => {},
    }
    let nv = chars_of_string(&manifest.layout.name);
    if trim_vec(&nv).len() == 0 {
        return Err(DomainError::Validation(String::from_str("レイアウト名は必須です")));
    }
    let ghost pv = pages_view(manifest.pages@);
    let ghost fv = crate::prefs::strings_view(zip_files@);
    let mut i: usize = 0;
    while i < manifest.pages.len()
        invariant
            i <= manifest.pages.len(),
            pv == pages_view(manifest.pages@),
            fv == crate::prefs::strings_view(zip_files@),
            kv@ == trim(manifest.layout.key@),
            manifest.format_version == 1,
            layout_key_ok(kv@),
            trim(manifest.layout.name@).len() > 0,
            pages_error(kv@, pv, fv, 0) == pages_error(kv@, pv, fv, i as int),
        decreases manifest.pages.len() - i,
    {
        let page = &manifest.pages[i];
        assert(pv[i as int] == page_meta_view(*page));
        let pn = chars_of_string(&page.name);
        if trim_vec(&pn).len() == 0 {
            return Err(DomainError::Validation(String::from_str("ページ名は必須です")));
        }
        let fname = chars_of_string(&page.file_name);
        let pre = chars_of("pages/");
        if !starts_with_exec(&fname, &pre) {
            let mut m = chars_of("file_name は pages/ で始まる必要があります（got: ");
            append_vec(&mut m, &fname);
            let t = chars_of("）");
            append_vec(&mut m, &t);
            return Err(DomainError::Validation(string_of(&m)));
        }
        if !is_safe_zip_relative_path(page.file_name.as_str()) {
            let mut m = chars_of("不正な file_name です: ");
            append_vec(&mut m, &fname);
            return Err(DomainError::Validation(string_of(&m)));
        }
        let mut zp = kv.clone();
        let sl = chars_of("/");
        append_vec(&mut zp, &sl);
        append_vec(&mut zp, &fname);
        if !contains_path(zip_files, &zp) {
            let mut m = chars_of("ZIP 内にページファイルがありません: ");
            append_vec(&mut m, &zp);
            return Err(DomainError::Validation(string_of(&m)));
        }
        i += 1;
    }
    let mut sp = kv.clone();
    let sl = chars_of("/");
    append_vec(&mut sp, &sl);
    let sh = chars_of("shell.html");
    append_vec(&mut sp, &sh);
    if !contains_path(zip_files, &sp) {
        return Err(DomainError::Validation(String::from_str("ZIP 内に shell.html がありません")));
    }
    Ok(())
}


// ---------------------------------------------------------------------------
// Importing a package
// ---------------------------------------------------------------------------

/// What to do with a package whose layout key is already in use.
#[derive(Debug, Clone, Copy, PartialEq, Eq, Structural)]
pub enum LayoutImportMode {
    Overwrite,
    Skip,
    Rename,
}

/// What an import did.
#[derive(Debug, Clone, Copy, PartialEq, Eq, Structural)]
pub enum LayoutImportAction {
    Created,
    Updated,
    Skipped,
}

/// The key a package is imported under: the requested key for a rename
/// (trimmed, non-blank and well formed), else the manifest's key, trimmed.
pub open spec fn layout_import_key_spec(manifest_key: Seq<char>, mode: LayoutImportMode, target_key: Option<Seq<char>>) -> Result<
    Seq<char>,
    (bool, Seq<char>),
> {
    if mode == LayoutImportMode::Rename {
        match target_key {
            None => Err((false, "インポート先 layout key を指定してください"@)),
            Some(k) => if trim(k).len() == 0 {
                Err((false, "インポート先 layout key を指定してください"@))
            } else if !layout_key_ok(trim(k)) {
                Err((true, layout_key_message()))
            } else {
                Ok(trim(k))
            },
        }
    } else {
        Ok(trim(manifest_key))
    }
}

/// The key a package is imported under; a malformed key is a conflict, a
/// missing one a validation error.
pub fn layout_import_key(manifest_key: &str, mode: LayoutImportMode, target_key: Option<&str>) -> (r: Result<
    String,
    DomainError,
>)
    ensures
        match layout_import_key_spec(manifest_key@, mode, crate::widgets::opt_str_view(target_key)) {
            Ok(k) => r matches Ok(s) && s@ == k,
            Err((false, m)) => is_validation(r, m),
            Err((true, m)) => is_conflict(r, m),
        },
{
    if mode == LayoutImportMode::Rename {
        let k = match target_key {
            None => {
                return Err(DomainError::Validation(String::from_str("インポート先 layout key を指定してください")));
            },
            Some(k) => k,
        };
        let kv = chars_of(k);
        let t = trim_vec(&kv);
        if t.len() == 0 {
            return Err(DomainError::Validation(String::from_str("インポート先 layout key を指定してください")));
        }
        let ks = string_of(&t);
        validate_layout_key(ks.as_str())?;
        Ok(ks)
    } else {
        let mv = chars_of(manifest_key);
        Ok(string_of(&trim_vec(&mv)))
    }
}

/// A rename may not take a key already in use.
pub fn check_layout_rename_free(key: &str, taken: bool) -> (r: Result<(), DomainError>)
    ensures
        !taken ==> r is Ok,
        taken ==> is_conflict(r, "指定した layout key「"@ + key@ + "」は既に使われています"@),
{
    if taken {
        let mut m = chars_of("指定した layout key「");
        let kv = chars_of(key);
        append_vec(&mut m, &kv);
        let e = chars_of("」は既に使われています");
        append_vec(&mut m, &e);
        return Err(DomainError::Conflict(string_of(&m)));
    }
    Ok(())
}

/// What an import under `layout_key` does and the message shown, given
/// whether a layout with that key exists.
pub open spec fn layout_import_outcome_spec(layout_key: Seq<char>, mode: LayoutImportMode, exists: bool) -> (
    LayoutImportAction,
    Seq<char>,
) {
    if exists && mode == LayoutImportMode::Skip {
        (LayoutImportAction::Skipped, "レイアウト「"@ + layout_key + "」は既に存在するためスキップしました"@)
    } else if exists {
        (LayoutImportAction::Updated, "レイアウト「"@ + layout_key + "」をインポートしました（上書き）"@)
    } else if mode == LayoutImportMode::Rename {
        (LayoutImportAction::Created, "レイアウト「"@ + layout_key + "」を別名でインポートしました（新規作成）"@)
    } else {
        (LayoutImportAction::Created, "レイアウト「"@ + layout_key + "」をインポートしました（新規作成）"@)
    }
}

fn message3(a: &str, b: &str, c: &str) -> (s: String)
    ensures
        s@ == a@ + b@ + c@,
{
    let mut m = chars_of(a);
    let t = chars_of(b);
    append_vec(&mut m, &t);
    let u = chars_of(c);
    append_vec(&mut m, &u);
    string_of(&m)
}

/// Decides an import under `layout_key` given whether that key exists.
pub fn layout_import_outcome(layout_key: &str, mode: LayoutImportMode, exists: bool) -> (r: (LayoutImportAction, String))
    ensures
        (r.0, r.1@) == layout_import_outcome_spec(layout_key@, mode, exists),
{
    if exists && mode == LayoutImportMode::Skip {
        (LayoutImportAction::Skipped, message3("レイアウト「", layout_key, "」は既に存在するためスキップしました"))
    } else if exists {
        (LayoutImportAction::Updated, message3("レイアウト「", layout_key, "」をインポートしました（上書き）"))
    } else if mode == LayoutImportMode::Rename {
        (LayoutImportAction::Created, message3("レイアウト「", layout_key, "」を別名でインポートしました（新規作成）"))
    } else {
        (LayoutImportAction::Created, message3("レイアウト「", layout_key, "」をインポートしました（新規作成）"))
    }
}

// ---------------------------------------------------------------------------
// Applying a package to a layout
// ---------------------------------------------------------------------------

/// Index of the last of the first `n` files stored under `path`.
pub open spec fn last_file_index(files: Seq<(Seq<char>, Seq<u8>)>, path: Seq<char>, n: int) -> Option<int>
    decreases n,
{
    if n <= 0 || n > files.len() {
        None
    } else if files[n - 1].0 == path {
        Some(n - 1)
    } else {
        last_file_index(files, path, n - 1)
    }
}

/// The text of the package file stored under `path` read as UTF-8, or the
/// message for a missing file or for bytes that are not UTF-8.
pub open spec fn package_text_spec(
    files: Seq<(Seq<char>, Seq<u8>)>,
    path: Seq<char>,
    missing: Seq<char>,
    not_text: Seq<char>,
) -> Result<Seq<char>, Seq<char>> {
    match last_file_index(files, path, files.len() as int) {
        None => Err(missing),
        Some(i) => if vstd::utf8::valid_utf8(files[i].1) {
            Ok(vstd::utf8::decode_utf8(files[i].1))
        } else {
            Err(not_text)
        },
    }
}

fn find_package_file(files: &[(String, Vec<u8>)], path: &Vec<char>) -> (r: Option<usize>)
    ensures
        r is None ==> last_file_index(files_view(files@), path@, files@.len() as int) is None,
        r matches Some(i) ==> i < files@.len() && last_file_index(files_view(files@), path@, files@.len() as int)
            == Some(i as int),
{
    let ghost fv = files_view(files@);
    let mut n: usize = files.len();
    while n > 0
        invariant
            n <= files@.len(),
            fv == files_view(files@),
            last_file_index(fv, path@, files@.len() as int) == last_file_index(fv, path@, n as int),
        decreases n,
    {
        let p = chars_of_string(&files[n - 1].0);
        assert(fv[n - 1].0 == files@[n - 1].0@);
        if seq_eq(&p, path) {
            return Some(n - 1);
        }
        n -= 1;
    }
    None
}

fn package_text(files: &[(String, Vec<u8>)], path: &Vec<char>, missing: String, not_text: String) -> (r: Result<
    String,
    DomainError,
>)
    ensures
        match package_text_spec(files_view(files@), path@, missing@, not_text@) {
            Ok(t) => r matches Ok(s) && s@ == t,
            Err(m) => is_validation(r, m),
        },
{
    match find_package_file(files, path) {
        None => Err(DomainError::Validation(missing)),
        Some(i) => {
            assert(files_view(files@)[i as int].1 == files@[i as int].1@);
            match utf8_text(files[i].1.as_slice()) {
                Some(t) => Ok(t),
                None => Err(DomainError::Validation(not_text)),
            }
        },
    }
}

/// The shell of a package for `layout_key`, as text.
pub fn package_shell_text(layout_key: &str, files: &[(String, Vec<u8>)]) -> (r: Result<String, DomainError>)
    ensures
        match package_text_spec(
            files_view(files@),
            layout_key@ + "/shell.html"@,
            "shell.html が見つかりません"@,
            "shell.html は UTF-8 テキストである必要があります"@,
        ) {
            Ok(t) => r matches Ok(s) && s@ == t,
            Err(m) => is_validation(r, m),
        },
{
    let mut path = chars_of(layout_key);
    let tail = chars_of("/shell.html");
    append_vec(&mut path, &tail);
    package_text(
        files,
        &path,
        String::from_str("shell.html が見つかりません"),
        String::from_str("shell.html は UTF-8 テキストである必要があります"),
    )
}

/// The body of the page `file_name` in a package for `layout_key`, as text.
pub fn package_page_text(layout_key: &str, file_name: &str, files: &[(String, Vec<u8>)]) -> (r: Result<
    String,
    DomainError,
>)
    ensures
        match package_text_spec(
            files_view(files@),
            layout_key@ + "/"@ + file_name@,
            layout_key@ + "/"@ + file_name@ + " が見つかりません"@,
            file_name@ + " は UTF-8 テキストである必要があります"@,
        ) {
            Ok(t) => r matches Ok(s) && s@ == t,
            Err(m) => is_validation(r, m),
        },
{
    let zip_path = message3(layout_key, "/", file_name);
    let path = chars_of_string(&zip_path);
    let missing = message3(zip_path.as_str(), " が見つかりません", "");
    let not_text = message3(file_name, " は UTF-8 テキストである必要があります", "");
    proof {
        reveal_strlit("");
        assert(missing@ =~= layout_key@ + "/"@ + file_name@ + " が見つかりません"@);
        assert(not_text@ =~= file_name@ + " は UTF-8 テキストである必要があります"@);
    }
    package_text(files, &path, missing, not_text)
}

/// A static file that a package may carry: a safe path with an allowed
/// extension.
pub open spec fn static_upload_ok(relative: Seq<char>) -> bool {
    safe_zip_path(relative) && (extension_in(relative, text_exts()) || extension_in(relative, binary_exts()))
}

/// The static files among the first `n` files of a package for
/// `layout_key`: the index of each and its path under `static/`, in order.
pub open spec fn static_uploads_spec(files: Seq<(Seq<char>, Seq<u8>)>, layout_key: Seq<char>, n: int) -> Seq<
    (int, Seq<char>),
>
    decreases n,
{
    if n <= 0 || n > files.len() {
        seq![]
    } else {
        let acc = static_uploads_spec(files, layout_key, n - 1);
        let prefix = layout_key + "/static/"@;
        let path = files[n - 1].0;
        let relative = path.skip(prefix.len() as int);
        if starts_with(path, prefix) && static_upload_ok(relative) {
            acc.push((n - 1, relative))
        } else {
            acc
        }
    }
}

pub open spec fn uploads_view(v: Seq<(usize, String)>) -> Seq<(int, Seq<char>)> {
    Seq::new(v.len(), |i: int| (v[i].0 as int, v[i].1@))
}

/// The files of a package for `layout_key` that are written to the layout's
/// `static/` directory, with their paths there, in the package's order.
pub fn package_static_uploads(layout_key: &str, files: &[(String, Vec<u8>)]) -> (r: Vec<(usize, String)>)
    ensures
        uploads_view(r@) == static_uploads_spec(files_view(files@), layout_key@, files@.len() as int),
{
    let mut prefix = chars_of(layout_key);
    let st = chars_of("/static/");
    append_vec(&mut prefix, &st);
    let ghost fv = files_view(files@);
    let mut out: Vec<(usize, String)> = Vec::new();
    let mut i: usize = 0;
    while i < files.len()
        invariant
            i <= files@.len(),
            fv == files_view(files@),
            prefix@ == layout_key@ + "/static/"@,
            uploads_view(out@) == static_uploads_spec(fv, layout_key@, i as int),
        decreases files.len() - i,
    {
        let p = chars_of_string(&files[i].0);
        assert(fv[i as int].0 == p@);
        let ghost before = uploads_view(out@);
        if starts_with_exec(&p, &prefix) {
            let rel = sub_vec(&p, prefix.len(), p.len());
            assert(rel@ =~= p@.skip(prefix@.len() as int));
            let rs = string_of(&rel);
            if is_safe_zip_relative_path(rs.as_str()) && is_allowed_static_upload(rs.as_str()) {
                out.push((i, rs));
                assert(uploads_view(out@) =~= before.push((i as int, rel@)));
            }
        }
        i += 1;
    }
    out
}

// ---------------------------------------------------------------------------
// Publishing a layout set
// ---------------------------------------------------------------------------

/// What publishing a layout set changed: the pages of the layout put live,
/// and the pages (and layouts) taken off the live site.
#[derive(Debug, Clone, PartialEq, Eq)]
pub struct PublishLayoutSetResult {
    pub published_count: usize,
    pub demoted_count: usize,
    pub demoted_layout_keys: Vec<String>,
}

// ---------------------------------------------------------------------------
// Copying a layout under another key
// ---------------------------------------------------------------------------

/// The key a layout is copied to: the trimmed target, which must be a valid
/// key other than the source's.
pub fn duplicate_target_key(source_key: &str, target_key: &str) -> (r: Result<String, DomainError>)
    ensures
        !layout_key_ok(trim(target_key@)) ==> is_conflict(r, layout_key_message()),
        layout_key_ok(trim(target_key@)) && trim(target_key@) == source_key@ ==> is_validation(
            r,
            "複製先の layout key は元の key と異なる必要があります"@,
        ),
        layout_key_ok(trim(target_key@)) && trim(target_key@) != source_key@ ==> (r matches Ok(k) && k@ == trim(
            target_key@,
        )),
{
    let tv = chars_of(target_key);
    let t = trim_vec(&tv);
    let ts = string_of(&t);
    validate_layout_key(ts.as_str())?;
    let sv = chars_of(source_key);
    if seq_eq(&t, &sv) {
        return Err(DomainError::Validation(String::from_str("複製先の layout key は元の key と異なる必要があります")));
    }
    Ok(ts)
}

/// A copy may not take a key already in use.
pub fn check_duplicate_target_free(key: &str, taken: bool) -> (r: Result<(), DomainError>)
    ensures
        !taken ==> r is Ok,
        taken ==> is_conflict(r, "レイアウト key「"@ + key@ + "」は既に使われています"@),
{
    if taken {
        return Err(DomainError::Conflict(message3("レイアウト key「", key, "」は既に使われています")));
    }
    Ok(())
}

/// The message shown after a copy: which layout was copied under which key
/// and, when the posts were copied too, how many placeholders and posts.
pub open spec fn duplicate_message_spec(source_name: Seq<char>, target_key: Seq<char>, copied: Option<(u64, u64)>) -> Seq<
    char,
> {
    let base = "レイアウト「"@ + source_name + "」を「"@ + target_key + "」として複製しました"@;
    match copied {
        None => base,
        Some((placeholders, posts)) => if placeholders == 0 {
            base + "（投稿対象のプレースホルダーは見つかりませんでした）"@
        } else {
            base + "（プレースホルダー "@ + crate::numbers::nat_digits(placeholders as nat) + " 件・投稿 "@
                + crate::numbers::nat_digits(posts as nat) + " 件をコピー）"@
        },
    }
}

pub fn duplicate_message(source_name: &str, target_key: &str, copied: Option<(u64, u64)>) -> (s: String)
    ensures
        s@ == duplicate_message_spec(source_name@, target_key@, copied),
{
    proof {
        reveal_strlit("");
    }
    let base = message3("レイアウト「", source_name, "」を「");
    let base = message3(base.as_str(), target_key, "」として複製しました");
    match copied {
        None => base,
        Some((placeholders, posts)) => if placeholders == 0 {
            message3(base.as_str(), "（投稿対象のプレースホルダーは見つかりませんでした）", "")
        } else {
            let pt = crate::numbers::u64_text(placeholders);
            let nt = crate::numbers::u64_text(posts);
            let m = message3(base.as_str(), "（プレースホルダー ", pt.as_str());
            let m = message3(m.as_str(), " 件・投稿 ", nt.as_str());
            message3(m.as_str(), " 件をコピー）", "")
        },
    }
}

/// The slug a copied post starts from: `{target_token}-{slug}`, with `post`
/// for a post without one.
pub fn copy_post_slug_base(target_token: &str, original_slug: Option<&str>) -> (s: String)
    ensures
        s@ == target_token@ + "-"@ + match original_slug {
            Some(o) => o@,
            None => "post"@,
        },
{
    match original_slug {
        Some(o) => message3(target_token, "-", o),
        None => message3(target_token, "-", "post"),
    }
}

/// The `n`-th alternative to a slug already taken: `{base}-{n}`.
pub fn numbered_copy_slug(base: &str, n: u64) -> (s: String)
    ensures
        s@ == base@ + "-"@ + crate::numbers::nat_digits(n as nat),
{
    let nt = crate::numbers::u64_text(n);
    message3(base, "-", nt.as_str())
}

// ---------------------------------------------------------------------------
// When a manifest is accepted
// ---------------------------------------------------------------------------

/// A page of a manifest for layout `key`: named, under `pages/`, at a safe
/// path, and present in the package.
pub open spec fn page_ok(key: Seq<char>, p: PageMetaP, files: Seq<Seq<char>>) -> bool {
    &&& trim(p.name).len() > 0
    &&& starts_with(p.file_name, "pages/"@)
    &&& safe_zip_path(p.file_name)
    &&& files.contains(key + "/"@ + p.file_name)
}

proof fn lemma_pages_error_none(key: Seq<char>, pages: Seq<PageMetaP>, files: Seq<Seq<char>>, i: int)
    requires
        0 <= i <= pages.len(),
    ensures
        pages_error(key, pages, files, i) is None <==> forall|j: int| i <= j < pages.len() ==> page_ok(
            key,
            #[trigger] pages[j],
            files,
        ),
    decreases pages.len() - i,
{
    if i < pages.len() {
        lemma_pages_error_none(key, pages, files, i + 1);
    }
}

/// A package manifest is accepted exactly when its format version is 1, its
/// trimmed key is a valid layout key, its name is not blank, every page is
/// named, under `pages/`, at a safe path and present in the package, and the
/// package holds the layout's `shell.html`.
pub proof fn law_manifest_accepted(
    version: u32,
    key: Seq<char>,
    name: Seq<char>,
    pages: Seq<PageMetaP>,
    files: Seq<Seq<char>>,
)
    ensures
        manifest_error(version, key, name, pages, files) is None <==> {
            &&& version == 1
            &&& layout_key_ok(trim(key))
            &&& trim(name).len() > 0
            &&& forall|j: int| 0 <= j < pages.len() ==> page_ok(trim(key), #[trigger] pages[j], files)
            &&& files.contains(trim(key) + "/"@ + "shell.html"@)
        },
{
    lemma_pages_error_none(trim(key), pages, files, 0);
}

} // verus!
