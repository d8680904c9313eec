//! Widget types: the built-in registry, the usage text shown for a
//! placeholder, the markup that wraps a widget in the preview editor, and the
//! checks on widget packages.
use vstd::prelude::*;

use crate::error::{is_conflict, is_validation, DomainError};
use crate::numbers::{i64_text, i64_to_text};
use crate::sql_view::opt_view;
use crate::text::{
    append_vec, chars_of, chars_of_string, is_ascii_digit_spec, is_ascii_lower_spec, seq_eq, string_of, trim,
    trim_vec,
};

verus! {

/// A built-in widget type.
#[derive(Debug, Clone, Copy)]
pub struct WidgetTypeDef {
    pub key: &'static str,
    pub label: &'static str,
    pub description: &'static str,
}

/// Keys, labels and descriptions of the built-in widget types.
pub open spec fn registry() -> Seq<(Seq<char>, Seq<char>, Seq<char>)> {
    seq![
        ("news"@, "お知らせ"@, "公開済みの投稿を新しい順に表示します"@),
        (
            "image"@,
            "画像"@,
            "メディアライブラリの画像を1枚表示します。幅・高さ・収め方・角丸と、エントリごとの回り込み・マージンを設定できます"@,
        ),
        ("carousel"@, "画像カルーセル"@, "複数の画像をスライドショー形式で表示します。各画像にリンクを設定可能"@),
    ]
}

/// The built-in widget types, in registry order.
pub fn widget_types() -> (r: Vec<WidgetTypeDef>)
    ensures
        r@.len() == registry().len(),
        forall|i: int|
            0 <= i < r@.len() ==> (#[trigger] r@[i]).key@ == registry()[i].0 && r@[i].label@ == registry()[i].1
                && r@[i].description@ == registry()[i].2,
{
    let mut v: Vec<WidgetTypeDef> = Vec::new();
    v.push(WidgetTypeDef { key: "news", label: "お知らせ", description: "公開済みの投稿を新しい順に表示します" });
    v.push(
        WidgetTypeDef {
            key: "image",
            label: "画像",
            description: "メディアライブラリの画像を1枚表示します。幅・高さ・収め方・角丸と、エントリごとの回り込み・マージンを設定できます",
        },
    );
    v.push(
        WidgetTypeDef {
            key: "carousel",
            label: "画像カルーセル",
            description: "複数の画像をスライドショー形式で表示します。各画像にリンクを設定可能",
        },
    );
    v
}

/// Index of the built-in type `key`.
pub open spec fn registry_index(key: Seq<char>) -> Option<int> {
    if key == registry()[0].0 {
        Some(0)
    } else if key == registry()[1].0 {
        Some(1)
    } else if key == registry()[2].0 {
        Some(2)
    } else {
        None
    }
}

fn registry_position(type_key: &str) -> (r: Option<usize>)
    ensures
        match registry_index(type_key@) {
            Some(i) => r matches Some(x) && x as int == i,
            None => r is None,
        },
{
    let k = chars_of(type_key);
    let defs = widget_types();
    let mut i: usize = 0;
    while i < defs.len()
        invariant
            i <= defs.len(),
            defs@.len() == registry().len(),
            k@ == type_key@,
            forall|j: int| 0 <= j < defs@.len() ==> (#[trigger] defs@[j]).key@ == registry()[j].0,
            forall|j: int| 0 <= j < i ==> registry()[j].0 != type_key@,
        decreases defs.len() - i,
    {
        let d = chars_of(defs[i].key);
        if seq_eq(&d, &k) {
            assert(registry()[i as int].0 == type_key@);
            return Some(i);
        }
        i += 1;
    }
    None
}

/// Whether `type_key` names a built-in widget type.
pub fn is_known_type(type_key: &str) -> (b: bool)
    ensures
        b == registry_index(type_key@) is Some,
{
    registry_position(type_key).is_some()
}

/// The label of a widget type; an unknown key is its own label.
pub fn type_label<'a>(type_key: &'a str) -> (s: &'a str)
    ensures
        s@ == match registry_index(type_key@) {
            Some(i) => registry()[i].1,
            None => type_key@,
        },
{
    match registry_position(type_key) {
        Some(i) => {
            let defs = widget_types();
            defs[i].label
        },
        None => type_key,
    }
}

/// The description of a built-in widget type (empty for others).
pub fn type_description(type_key: &str) -> (s: &'static str)
    ensures
        s@ == match registry_index(type_key@) {
            Some(i) => registry()[i].2,
            None => ""@,
        },
{
    match registry_position(type_key) {
        Some(i) => {
            let defs = widget_types();
            defs[i].description
        },
        None => "",
    }
}

// ---------------------------------------------------------------------------
// Usage text for a placeholder
// ---------------------------------------------------------------------------

/// The placeholder name used in the examples: the trimmed name, or a default
/// for the widget type when it is blank.
pub open spec fn usage_name(type_key: Seq<char>, placeholder_name: Seq<char>) -> Seq<char> {
    let t = trim(placeholder_name);
    if t.len() > 0 {
        t
    } else if type_key == "image"@ {
        "hero"@
    } else {
        "news"@
    }
}

/// `{{ NAME_html | safe }}`.
pub open spec fn html_ref(name: Seq<char>) -> Seq<char> {
    "{{ "@ + name + "_html | safe }}"@
}

/// The template fragment suggested for a widget type.
pub open spec fn fragment_example_spec(type_key: Seq<char>, name: Seq<char>) -> Seq<char> {
    if type_key == "news"@ {
        "<section id=\""@ + name + "\">\n  <h2>お知らせ</h2>\n  <div class=\"news-list\">\n    "@ + html_ref(name)
            + "\n  </div>\n</section>"@
    } else if type_key == "image"@ {
        "<div class=\"widget-image-wrap\">\n  "@ + html_ref(name) + "\n</div>"@
    } else if type_key == "carousel"@ {
        "<div class=\"carousel-wrap\">\n  "@ + html_ref(name) + "\n</div>"@
    } else {
        html_ref(name)
    }
}

/// The advanced-use hint of a widget type.
pub open spec fn inline_hint_spec(type_key: Seq<char>, name: Seq<char>) -> Seq<char> {
    if type_key == "news"@ {
        "上級者向け（インライン）: <code>has_"@ + name + "</code> / <code>"@ + name
            + "</code> 配列で <code>{% for item in "@ + name + " %}</code> ループも可能。"@
    } else if type_key == "image"@ {
        "上級者向け（インライン）: <code>has_"@ + name + "</code> / <code>"@ + name
            + "</code> オブジェクト （image_url / alt / style / img_style / width / height など）を直接参照も可能。"@
    } else if type_key == "carousel"@ {
        "上級者向け（インライン）: <code>has_"@ + name + "</code> / <code>"@ + name
            + ".slides</code> など 構造化データをページ内で直接ループも可能。"@
    } else {
        "ウィジェットタイプ <code>"@ + type_key + "</code> 向け。<code>"@ + name + "</code> / <code>has_"@ + name
            + "</code> も利用できます。"@
    }
}

/// The help text shown beside the example.
pub open spec fn usage_help_spec(type_key: Seq<char>, name: Seq<char>) -> Seq<char> {
    "推奨: ウィジェット HTML は <a href=\"/admin/widgets\">ウィジェット</a> 画面で編集し、ページでは <code>"@
        + html_ref(name)
        + "</code> で差し込みます（<code>| safe</code> 必須）。MiniJinja テンプレートページ（静的 HTML 以外）でのみ有効です。"@
        + inline_hint_spec(type_key, name)
}

fn push_str(v: &mut Vec<char>, s: &str)
    ensures
        final(v)@ == old(v)@ + s@,
{
    let c = chars_of(s);
    append_vec(v, &c);
}

fn html_ref_vec(name: &Vec<char>) -> (r: Vec<char>)
    ensures
        r@ == html_ref(name@),
{
    let mut r = chars_of("{{ ");
    append_vec(&mut r, name);
    push_str(&mut r, "_html | safe }}");
    r
}

fn is_key(v: &Vec<char>, s: &str) -> (b: bool)
    ensures
        b == (v@ == s@),
{
    let sv = chars_of(s);
    seq_eq(v, &sv)
}

/// The MiniJinja example and the help text shown for a placeholder.
pub fn template_usage(type_key: &str, placeholder_name: &str) -> (r: (String, String))
    ensures
        r.0@ == fragment_example_spec(type_key@, usage_name(type_key@, placeholder_name@)),
        r.1@ == usage_help_spec(type_key@, usage_name(type_key@, placeholder_name@)),
{
    let tk = chars_of(type_key);
    let pn = chars_of(placeholder_name);
    let t = trim_vec(&pn);
    let name = if t.len() > 0 {
        t
    } else if is_key(&tk, "image") {
        chars_of("hero")
    } else {
        chars_of("news")
    };
    let href = html_ref_vec(&name);
    let mut frag: Vec<char> = Vec::new();
    if is_key(&tk, "news") {
        push_str(&mut frag, "<section id=\"");
        append_vec(&mut frag, &name);
        push_str(&mut frag, "\">\n  <h2>お知らせ</h2>\n  <div class=\"news-list\">\n    ");
        append_vec(&mut frag, &href);
        push_str(&mut frag, "\n  </div>\n</section>");
    } else if is_key(&tk, "image") {
        push_str(&mut frag, "<div class=\"widget-image-wrap\">\n  ");
        append_vec(&mut frag, &href);
        push_str(&mut frag, "\n</div>");
    } else if is_key(&tk, "carousel") {
        push_str(&mut frag, "<div class=\"carousel-wrap\">\n  ");
        append_vec(&mut frag, &href);
        push_str(&mut frag, "\n</div>");
    } else {
        append_vec(&mut frag, &href);
    }
    let mut hint: Vec<char> = Vec::new();
    if is_key(&tk, "news") {
        push_str(&mut hint, "上級者向け（インライン）: <code>has_");
        append_vec(&mut hint, &name);
        push_str(&mut hint, "</code> / <code>");
        append_vec(&mut hint, &name);
        push_str(&mut hint, "</code> 配列で <code>{% for item in ");
        append_vec(&mut hint, &name);
        push_str(&mut hint, " %}</code> ループも可能。");
    } else if is_key(&tk, "image") {
        push_str(&mut hint, "上級者向け（インライン）: <code>has_");
        append_vec(&mut hint, &name);
        push_str(&mut hint, "</code> / <code>");
        append_vec(&mut hint, &name);
        push_str(&mut hint, "</code> オブジェクト （image_url / alt / style / img_style / width / height など）を直接参照も可能。");
    } else if is_key(&tk, "carousel") {
        push_str(&mut hint, "上級者向け（インライン）: <code>has_");
        append_vec(&mut hint, &name);
        push_str(&mut hint, "</code> / <code>");
        append_vec(&mut hint, &name);
        push_str(&mut hint, ".slides</code> など 構造化データをページ内で直接ループも可能。");
    } else {
        push_str(&mut hint, "ウィジェットタイプ <code>");
        append_vec(&mut hint, &tk);
        push_str(&mut hint, "</code> 向け。<code>");
        append_vec(&mut hint, &name);
        push_str(&mut hint, "</code> / <code>has_");
        append_vec(&mut hint, &name);
        push_str(&mut hint, "</code> も利用できます。");
    }
    let mut help = chars_of(
        "推奨: ウィジェット HTML は <a href=\"/admin/widgets\">ウィジェット</a> 画面で編集し、ページでは <code>",
    );
    append_vec(&mut help, &href);
    push_str(
        &mut help,
        "</code> で差し込みます（<code>| safe</code> 必須）。MiniJinja テンプレートページ（静的 HTML 以外）でのみ有効です。",
    );
    append_vec(&mut help, &hint);
    (string_of(&frag), string_of(&help))
}

// ---------------------------------------------------------------------------
// Markup around a widget in the preview editor
// ---------------------------------------------------------------------------

/// One character escaped for an HTML attribute value.
pub open spec fn escape_attr_char(c: char) -> Seq<char> {
    if c == '&' {
        "&amp;"@
    } else if c == '"' {
        "&quot;"@
    } else if c == '<' {
        "&lt;"@
    } else if c == '>' {
        "&gt;"@
    } else {
        seq![c]
    }
}

/// A text escaped for an HTML attribute value (`&`, `"`, `<`, `>`).
pub open spec fn escape_attr_spec(s: Seq<char>) -> Seq<char>
    decreases s.len(),
{
    if s.len() == 0 {
        seq![]
    } else {
        escape_attr_spec(s.drop_last()) + escape_attr_char(s.last())
    }
}

pub fn html_escape_attr(value: &str) -> (s: String)
    ensures
        s@ == escape_attr_spec(value@),
{
    let v = chars_of(value);
    let mut r: Vec<char> = Vec::new();
    let mut i: usize = 0;
    assert(v@.take(0) =~= seq![]);
    while i < v.len()
        invariant
            i <= v.len(),
            v@ == value@,
            r@ == escape_attr_spec(v@.take(i as int)),
        decreases v.len() - i,
    {
        assert(v@.take(i + 1).drop_last() =~= v@.take(i as int));
        assert(v@.take(i + 1).last() == v@[i as int]);
        let c = v[i];
        if c == '&' {
            push_str(&mut r, "&amp;");
        } else if c == '"' {
            push_str(&mut r, "&quot;");
        } else if c == '<' {
            push_str(&mut r, "&lt;");
        } else if c == '>' {
            push_str(&mut r, "&gt;");
        } else {
            r.push(c);
        }
        i += 1;
    }
    assert(v@.take(v@.len() as int) =~= v@);
    string_of(&r)
}

proof fn lemma_escape_char_safe(c: char)
    ensures
        forall|k: int|
            0 <= k < escape_attr_char(c).len() ==> {
                let e = #[trigger] escape_attr_char(c)[k];
                e != '"' && e != '<' && e != '>'
            },
{
    reveal_strlit("&amp;");
    reveal_strlit("&quot;");
    reveal_strlit("&lt;");
    reveal_strlit("&gt;");
}

/// An escaped attribute value holds no `"`, `<` or `>`: it cannot end the
/// attribute or open a tag.
pub proof fn law_escaped_attr_is_inert(s: Seq<char>)
    ensures
        forall|k: int|
            0 <= k < escape_attr_spec(s).len() ==> {
                let e = #[trigger] escape_attr_spec(s)[k];
                e != '"' && e != '<' && e != '>'
            },
    decreases s.len(),
{
    if s.len() > 0 {
        law_escaped_attr_is_inert(s.drop_last());
        lemma_escape_char_safe(s.last());
        let a = escape_attr_spec(s.drop_last());
        let b = escape_attr_char(s.last());
        assert forall|k: int| 0 <= k < escape_attr_spec(s).len() implies {
            let e = #[trigger] escape_attr_spec(s)[k];
            e != '"' && e != '<' && e != '>'
        } by {
            if k < a.len() {
                assert(escape_attr_spec(s)[k] == a[k]);
            } else {
                assert(escape_attr_spec(s)[k] == b[k - a.len()]);
            }
        }
    }
}

/// The wrapper that marks a widget for the preview editor.
pub open spec fn annotate_spec(html: Seq<char>, id: i64, name: Seq<char>, type_key: Seq<char>) -> Seq<char> {
    "<div class=\"cms-widget-target\" data-cms-placeholder-id=\""@ + i64_text(id)
        + "\" data-cms-placeholder-name=\""@ + escape_attr_spec(name) + "\" data-cms-widget-type=\""@
        + escape_attr_spec(type_key) + "\">"@ + html + "</div>"@
}

pub fn annotate_widget_html(html: &str, placeholder_id: i64, placeholder_name: &str, type_key: &str) -> (s:
    String)
    ensures
        s@ == annotate_spec(html@, placeholder_id, placeholder_name@, type_key@),
{
    let ne = html_escape_attr(placeholder_name);
    let te = html_escape_attr(type_key);
    let mut r = chars_of("<div class=\"cms-widget-target\" data-cms-placeholder-id=\"");
    let id = i64_to_text(placeholder_id);
    append_vec(&mut r, &id);
    push_str(&mut r, "\" data-cms-placeholder-name=\"");
    let nev = chars_of_string(&ne);
    append_vec(&mut r, &nev);
    push_str(&mut r, "\" data-cms-widget-type=\"");
    let tev = chars_of_string(&te);
    append_vec(&mut r, &tev);
    push_str(&mut r, "\">");
    push_str(&mut r, html);
    push_str(&mut r, "</div>");
    string_of(&r)
}

/// Rendering options of the widget fragments.
#[derive(Debug, Clone, Copy, Default)]
pub struct RenderOptions {
    /// Wrap each widget for the preview editor.
    pub annotate_widgets: bool,
}

/// The `{name}_html` value of a placeholder: the rendered fragment (wrapped
/// in the preview editor), an empty wrapper when nothing rendered in the
/// preview editor, or nothing.
pub open spec fn placeholder_html_spec(
    rendered: Option<Seq<char>>,
    annotate: bool,
    id: i64,
    name: Seq<char>,
    type_key: Seq<char>,
) -> Option<Seq<char>> {
    match rendered {
        Some(h) => if annotate {
            Some(annotate_spec(h, id, name, type_key))
        } else {
            Some(h)
        },
        None => if annotate {
            Some(annotate_spec(seq![], id, name, type_key))
        } else {
            None
        },
    }
}

/// What goes into the template context for a placeholder given its rendered
/// fragment (if the fragment rendered).
pub fn placeholder_html(
    rendered: Option<String>,
    options: RenderOptions,
    placeholder_id: i64,
    placeholder_name: &str,
    type_key: &str,
) -> (r: Option<String>)
    ensures
        opt_view(r) == placeholder_html_spec(
            opt_view(rendered),
            options.annotate_widgets,
            placeholder_id,
            placeholder_name@,
            type_key@,
        ),
{
    match rendered {
        Some(h) => if options.annotate_widgets {
            Some(annotate_widget_html(h.as_str(), placeholder_id, placeholder_name, type_key))
        } else {
            Some(h)
        },
        None => if options.annotate_widgets {
            proof {
                reveal_strlit("");
                assert(""@ =~= Seq::<char>::empty());
            }
            Some(annotate_widget_html("", placeholder_id, placeholder_name, type_key))
        } else {
            None
        },
    }
}

// ---------------------------------------------------------------------------
// Rendering a widget fragment
// ---------------------------------------------------------------------------

/// What MiniJinja renders from the template `source`, added to a fresh
/// environment under `name`, with the JSON text `context_json` read by
/// `serde_json` as its context; `None` where the JSON does not parse or
/// MiniJinja reports a parse or render error.
pub uninterp spec fn minijinja_rendered(name: Seq<char>, source: Seq<char>, context_json: Seq<char>) -> Option<
    Seq<char>,
>;

/// `serde_json::from_str::<serde_json::Value>` on the context, then
/// `minijinja::Environment::render_named_str` on a fresh environment. The
/// result depends on the three texts alone.
#[verifier::external_body]
fn minijinja_render_named(name: &str, source: &str, context_json: &str) -> (r: Option<String>)
    ensures
        opt_view(r) == minijinja_rendered(name@, source@, context_json@),
{
    let context: serde_json::Value = serde_json::from_str(context_json).ok()?;
    minijinja::Environment::new().render_named_str(name, source, context).ok()
}

/// A widget type's `html_template`, trimmed, rendered by MiniJinja as the
/// template `wfrag_{type_key}` with the fragment data (JSON text) as its
/// context. A blank template renders nothing.
pub fn render_widget_fragment_with_data(widget_type: &WidgetType, context_json: &str) -> (r: Option<String>)
    ensures
        trim(widget_type.html_template@).len() == 0 ==> r is None,
        trim(widget_type.html_template@).len() > 0 ==> opt_view(r) == minijinja_rendered(
            "wfrag_"@ + widget_type.type_key@,
            trim(widget_type.html_template@),
            context_json@,
        ),
{
    let tv = chars_of_string(&widget_type.html_template);
    let tpl = trim_vec(&tv);
    if tpl.len() == 0 {
        return None;
    }
    let mut name = chars_of("wfrag_");
    let kv = chars_of_string(&widget_type.type_key);
    append_vec(&mut name, &kv);
    let name_text = string_of(&name);
    let source = string_of(&tpl);
    minijinja_render_named(name_text.as_str(), source.as_str(), context_json)
}

// ---------------------------------------------------------------------------
// Widget types stored in the database and widget packages
// ---------------------------------------------------------------------------

/// A widget type as stored.
#[derive(Debug, Clone)]
pub struct WidgetType {
    pub id: i64,
    pub type_key: String,
    pub label: String,
    pub description: String,
    pub config: String,
    pub html_template: String,
    pub config_schema: String,
}

/// A widget type as exported and imported.
#[derive(Debug, Clone)]
pub struct WidgetPackage {
    pub format_version: u32,
    pub type_key: String,
    pub label: String,
    pub description: String,
    pub config: String,
    pub html_template: String,
    pub config_schema: String,
}

/// The stored label, else the built-in label, else the key.
pub open spec fn display_label_spec(label: Seq<char>, type_key: Seq<char>) -> Seq<char> {
    if trim(label).len() > 0 {
        trim(label)
    } else {
        match registry_index(type_key) {
            Some(i) => registry()[i].1,
            None => type_key,
        }
    }
}

pub fn display_label(row: &WidgetType) -> (s: String)
    ensures
        s@ == display_label_spec(row.label@, row.type_key@),
{
    let lv = chars_of_string(&row.label);
    let t = trim_vec(&lv);
    if t.len() > 0 {
        return string_of(&t);
    }
    String::from_str(type_label(row.type_key.as_str()))
}

/// The stored description, else the built-in one (empty for others).
pub open spec fn display_description_spec(description: Seq<char>, type_key: Seq<char>) -> Seq<char> {
    if trim(description).len() > 0 {
        trim(description)
    } else {
        match registry_index(type_key) {
            Some(i) => registry()[i].2,
            None => ""@,
        }
    }
}

pub fn display_description(row: &WidgetType) -> (s: String)
    ensures
        s@ == display_description_spec(row.description@, row.type_key@),
{
    let dv = chars_of_string(&row.description);
    let t = trim_vec(&dv);
    if t.len() > 0 {
        return string_of(&t);
    }
    String::from_str(type_description(row.type_key.as_str()))
}

/// The exported label: the trimmed label, or the key when it is blank.
pub open spec fn effective_label_spec(label: Seq<char>, type_key: Seq<char>) -> Seq<char> {
    if trim(label).len() > 0 {
        trim(label)
    } else {
        type_key
    }
}

pub fn effective_label(row: &WidgetType) -> (s: String)
    ensures
        s@ == effective_label_spec(row.label@, row.type_key@),
{
    let lv = chars_of_string(&row.label);
    let t = trim_vec(&lv);
    if t.len() > 0 {
        string_of(&t)
    } else {
        row.type_key.clone()
    }
}

/// The package exported for a stored widget type.
pub fn widget_type_to_package(row: &WidgetType) -> (p: WidgetPackage)
    ensures
        p.format_version == 1,
        p.type_key@ == row.type_key@,
        p.label@ == effective_label_spec(row.label@, row.type_key@),
        p.description@ == row.description@,
        p.config@ == row.config@,
        p.html_template@ == row.html_template@,
        p.config_schema@ == row.config_schema@,
{
    WidgetPackage {
        format_version: 1,
        type_key: row.type_key.clone(),
        label: effective_label(row),
        description: row.description.clone(),
        config: row.config.clone(),
        html_template: row.html_template.clone(),
        config_schema: row.config_schema.clone(),
    }
}

/// A lowercase ASCII letter first, then lowercase letters, digits or `_`.
pub open spec fn type_key_ok(key: Seq<char>) -> bool {
    &&& key.len() > 0
    &&& is_ascii_lower_spec(key[0])
    &&& forall|i: int|
        0 <= i < key.len() ==> (is_ascii_lower_spec(#[trigger] key[i]) || is_ascii_digit_spec(key[i]) || key[i]
            == '_')
}

pub fn is_valid_type_key(key: &str) -> (b: bool)
    ensures
        b == type_key_ok(key@),
{
    let kv = chars_of(key);
    if kv.len() == 0 || !crate::text::is_ascii_lower(kv[0]) {
        return false;
    }
    let mut i: usize = 0;
    while i < kv.len()
        invariant
            i <= kv.len(),
            kv@ == key@,
            forall|k: int|
                0 <= k < i ==> (is_ascii_lower_spec(#[trigger] kv@[k]) || is_ascii_digit_spec(kv@[k]) || kv@[k]
                    == '_'),
        decreases kv.len() - i,
    {
        let c = kv[i];
        if !(crate::text::is_ascii_lower(c) || crate::text::is_ascii_digit(c) || c == '_') {
            return false;
        }
        i += 1;
    }
    true
}

/// Whether `serde_json` reads the text as a JSON value.
pub uninterp spec fn json_valid(text: Seq<char>) -> bool;

/// `serde_json::from_str::<serde_json::Value>`, as success or failure.
#[verifier::external_body]
fn parses_as_json(text: &str) -> (b: bool)
    ensures
        b == json_valid(text@),
{
    serde_json::from_str::<serde_json::Value>(text).is_ok()
}

pub open spec fn type_key_message() -> Seq<char> {
    "type_key は英小文字で始まり、英小文字・数字・アンダースコアのみ使用できます"@
}

/// Why a widget package is refused, if it is.
pub open spec fn package_error(
    version: u32,
    type_key: Seq<char>,
    config: Seq<char>,
    config_schema: Seq<char>,
) -> Option<Seq<char>> {
    let key = trim(type_key);
    if version != 1 {
        Some("format_version は 1 のみ対応しています"@)
    } else if key.len() == 0 {
        Some("type_key を指定してください"@)
    } else if !type_key_ok(key) {
        Some(type_key_message())
    } else if !json_valid(config) {
        Some("config は有効な JSON である必要があります"@)
    } else if !json_valid(config_schema) {
        Some("config_schema は有効な JSON である必要があります"@)
    } else {
        None
    }
}

/// Checks a widget package before it is imported.
pub fn validate_package(package: &WidgetPackage) -> (r: Result<(), DomainError>)
    ensures
        match package_error(package.format_version, package.type_key@, package.config@, package.config_schema@) {
            None => r is Ok,
            Some(m) => is_validation(r, m),
        },
{
    if package.format_version != 1 {
        return Err(DomainError::Validation(String::from_str("format_version は 1 のみ対応しています")));
    }
    let kv = chars_of_string(&package.type_key);
    let k = trim_vec(&kv);
    if k.len() == 0 {
        return Err(DomainError::Validation(String::from_str("type_key を指定してください")));
    }
    let ks = string_of(&k);
    if !is_valid_type_key(ks.as_str()) {
        return Err(
            DomainError::Validation(
                String::from_str("type_key は英小文字で始まり、英小文字・数字・アンダースコアのみ使用できます"),
            ),
        );
    }
    if !parses_as_json(package.config.as_str()) {
        return Err(DomainError::Validation(String::from_str("config は有効な JSON である必要があります")));
    }
    if !parses_as_json(package.config_schema.as_str()) {
        return Err(
            DomainError::Validation(String::from_str("config_schema は有効な JSON である必要があります")),
        );
    }
    Ok(())
}

// ---------------------------------------------------------------------------
// Importing a package
// ---------------------------------------------------------------------------

/// What to do with a package whose key is already registered.
#[derive(Debug, Clone, Copy, PartialEq, Eq, Structural)]
pub enum WidgetImportMode {
    Overwrite,
    Skip,
    Rename,
}

/// What an import did.
#[derive(Debug, Clone, Copy, PartialEq, Eq, Structural)]
pub enum WidgetImportAction {
    Created,
    Updated,
    Skipped,
}

/// The outcome of an import, before the widget type is written: the action,
/// the message shown, and the key, label and description written (unless
/// the import is skipped).
#[derive(Debug, Clone)]
pub struct WidgetImportPlan {
    pub action: WidgetImportAction,
    pub message: String,
    pub type_key: String,
    pub label: String,
    pub description: String,
}

/// The key a package is imported under: the requested key for a rename
/// (trimmed, non-blank and well formed), else the package's own key,
/// trimmed. The package is checked first.
pub open spec fn import_key_spec(
    version: u32,
    type_key: Seq<char>,
    config: Seq<char>,
    config_schema: Seq<char>,
    mode: WidgetImportMode,
    target_key: Option<Seq<char>>,
) -> Result<Seq<char>, Seq<char>> {
    match package_error(version, type_key, config, config_schema) {
        Some(m) => Err(m),
        None => if mode == WidgetImportMode::Rename {
            match target_key {
                None => Err("インポート先 type_key を指定してください"@),
                Some(k) => if trim(k).len() == 0 {
                    Err("インポート先 type_key を指定してください"@)
                } else if !type_key_ok(trim(k)) {
                    Err(type_key_message())
                } else {
                    Ok(trim(k))
                },
            }
        } else {
            Ok(trim(type_key))
        },
    }
}

pub open spec fn opt_str_view(o: Option<&str>) -> Option<Seq<char>> {
    match o {
        Some(s) => Some(s@),
        None => None,
    }
}

/// The key a package is imported under, or why the import is refused.
pub fn widget_import_key(package: &WidgetPackage, mode: WidgetImportMode, target_key: Option<&str>) -> (r: Result<
    String,
    DomainError,
>)
    ensures
        match import_key_spec(
            package.format_version,
            package.type_key@,
            package.config@,
            package.config_schema@,
            mode,
            opt_str_view(target_key),
        ) {
            Ok(k) => r matches Ok(s) && s@ == k,
            Err(m) => is_validation(r, m),
        },
{
    validate_package(package)?;
    if mode == WidgetImportMode::Rename {
        let k = match target_key {
            None => {
                return Err(DomainError::Validation(String::from_str("インポート先 type_key を指定してください")));
            },
            Some(k) => k,
        };
        let kv = chars_of(k);
        let t = trim_vec(&kv);
        if t.len() == 0 {
            return Err(DomainError::Validation(String::from_str("インポート先 type_key を指定してください")));
        }
        let ks = string_of(&t);
        if !is_valid_type_key(ks.as_str()) {
            return Err(
                DomainError::Validation(
                    String::from_str("type_key は英小文字で始まり、英小文字・数字・アンダースコアのみ使用できます"),
                ),
            );
        }
        Ok(ks)
    } else {
        let kv = chars_of_string(&package.type_key);
        Ok(string_of(&trim_vec(&kv)))
    }
}

/// What an accepted import of a package under `type_key` does, given whether
/// that key exists: the action, the message shown, and the label (the key
/// when blank) and description written.
pub open spec fn import_outcome_spec(
    label: Seq<char>,
    description: Seq<char>,
    mode: WidgetImportMode,
    type_key: Seq<char>,
    exists: bool,
) -> (WidgetImportAction, Seq<char>, Seq<char>, Seq<char>) {
    let l = if trim(label).len() == 0 {
        type_key
    } else {
        trim(label)
    };
    if exists && mode == WidgetImportMode::Skip {
        (WidgetImportAction::Skipped, "ウィジェット「"@ + type_key + "」は既に存在するためスキップしました"@, l, trim(description))
    } else if exists {
        (WidgetImportAction::Updated, "ウィジェット「"@ + type_key + "」を更新しました"@, l, trim(description))
    } else if mode == WidgetImportMode::Rename {
        (WidgetImportAction::Created, "ウィジェット「"@ + type_key + "」を別名で新規登録しました"@, l, trim(description))
    } else {
        (WidgetImportAction::Created, "ウィジェット「"@ + type_key + "」を新規登録しました"@, l, trim(description))
    }
}

fn message3(a: &str, b: &Vec<char>, c: &str) -> (s: String)
    ensures
        s@ == a@ + b@ + c@,
{
    let mut m = chars_of(a);
    append_vec(&mut m, b);
    let t = chars_of(c);
    append_vec(&mut m, &t);
    string_of(&m)
}

/// Decides an import of `package` under `type_key` (from
/// [`widget_import_key`]), given whether that key is already registered.
pub fn plan_widget_import(package: &WidgetPackage, mode: WidgetImportMode, type_key: &str, exists: bool) -> (r:
    Result<WidgetImportPlan, DomainError>)
    ensures
        mode == WidgetImportMode::Rename && exists ==> is_conflict(
            r,
            "指定した type_key「"@ + type_key@ + "」は既に使われています"@,
        ),
        mode == WidgetImportMode::Rename && !exists && package_error(
            package.format_version,
            type_key@,
            package.config@,
            package.config_schema@,
        ) is Some ==> is_validation(
            r,
            package_error(package.format_version, type_key@, package.config@, package.config_schema@)->Some_0,
        ),
        mode != WidgetImportMode::Rename || (!exists && package_error(
            package.format_version,
            type_key@,
            package.config@,
            package.config_schema@,
        ) is None) ==> (r matches Ok(p) && {
            let (a, m, l, d) = import_outcome_spec(package.label@, package.description@, mode, type_key@, exists);
            &&& p.action == a
            &&& p.message@ == m
            &&& p.type_key@ == type_key@
            &&& p.label@ == l
            &&& p.description@ == d
        }),
{
    let kv = chars_of(type_key);
    if mode == WidgetImportMode::Rename {
        if exists {
            return Err(DomainError::Conflict(message3("指定した type_key「", &kv, "」は既に使われています")));
        }
        let renamed = WidgetPackage {
            format_version: package.format_version,
            type_key: String::from_str(type_key),
            label: package.label.clone(),
            description: package.description.clone(),
            config: package.config.clone(),
            html_template: package.html_template.clone(),
            config_schema: package.config_schema.clone(),
        };
        match validate_package(&renamed) {
            Err(e) => return Err(e),
            Ok(()) => {},
        }
    }
    let lv = chars_of_string(&package.label);
    let lt = trim_vec(&lv);
    let label = if lt.len() == 0 {
        string_of(&kv)
    } else {
        string_of(&lt)
    };
    let dv = chars_of_string(&package.description);
    let description = string_of(&trim_vec(&dv));
    let (action, message) = if exists && mode == WidgetImportMode::Skip {
        (WidgetImportAction::Skipped, message3("ウィジェット「", &kv, "」は既に存在するためスキップしました"))
    } else if exists {
        (WidgetImportAction::Updated, message3("ウィジェット「", &kv, "」を更新しました"))
    } else if mode == WidgetImportMode::Rename {
        (WidgetImportAction::Created, message3("ウィジェット「", &kv, "」を別名で新規登録しました"))
    } else {
        (WidgetImportAction::Created, message3("ウィジェット「", &kv, "」を新規登録しました"))
    };
    Ok(WidgetImportPlan { action, message, type_key: String::from_str(type_key), label, description })
}

// ---------------------------------------------------------------------------
// Data handed to the widget templates
// ---------------------------------------------------------------------------

/// One post of a news widget.
#[derive(Debug, Clone)]
pub struct NewsItem {
    pub title: String,
    pub excerpt: String,
    pub display_date: String,
}

/// The image of an image widget.
#[derive(Debug, Clone)]
pub struct ImageItem {
    pub image_url: String,
    pub alt: String,
    pub link_url: String,
    pub float: String,
    pub margin: String,
    /// Style of the figure (float / margin).
    pub style: String,
    pub width: String,
    pub height: String,
    pub object_fit: String,
    pub border_radius: String,
    /// Style of the img (width / height / object-fit / border-radius).
    pub img_style: String,
}

/// One slide of a carousel widget.
#[derive(Debug, Clone)]
pub struct CarouselSlide {
    pub image_url: String,
    pub alt: String,
    pub link_url: String,
}

/// The data of a carousel widget.
#[derive(Debug, Clone)]
pub struct CarouselData {
    pub slides: Vec<CarouselSlide>,
    pub interval: u32,
    pub width: String,
    pub height: String,
}

/// The news item of a post: dated by its publication (else its creation),
/// summarised by its excerpt (else its content when the excerpt is blank).
pub fn news_item(title: String, excerpt: String, content: String, published_at: Option<String>, created_at: String) -> (n:
    NewsItem)
    ensures
        n.title@ == title@,
        n.excerpt@ == (if trim(excerpt@).len() == 0 {
            content@
        } else {
            excerpt@
        }),
        n.display_date@ == match published_at {
            Some(p) => p@,
            None => created_at@,
        },
{
    let display_date = match published_at {
        Some(p) => p,
        None => created_at,
    };
    let ev = chars_of_string(&excerpt);
    let ex = if trim_vec(&ev).len() == 0 {
        content
    } else {
        excerpt
    };
    NewsItem { title, excerpt: ex, display_date }
}

/// Number of posts of a news widget: the placeholder's own limit when it is
/// within 1 to 50, else the widget type's.
pub fn news_limit(type_limit: i64, instance_limit: Option<i64>) -> (l: i64)
    ensures
        l == match instance_limit {
            Some(x) => if 1 <= x <= 50 {
                x
            } else {
                type_limit
            },
            None => type_limit,
        },
{
    match instance_limit {
        Some(x) => if 1 <= x && x <= 50 {
            x
        } else {
            type_limit
        },
        None => type_limit,
    }
}

/// Seconds between carousel slides: the placeholder's own value when it is
/// within 1 to 30, else the widget type's.
pub fn carousel_interval(type_interval: u32, instance_interval: Option<u64>) -> (i: u32)
    ensures
        i == match instance_interval {
            Some(x) => if 1 <= x <= 30 {
                x as u32
            } else {
                type_interval
            },
            None => type_interval,
        },
{
    match instance_interval {
        Some(x) => if 1 <= x && x <= 30 {
            x as u32
        } else {
            type_interval
        },
        None => type_interval,
    }
}

/// A setting of the widget type, replaced by the placeholder's own value when
/// that is given and not blank.
pub fn configured_text(current: String, instance: Option<&str>) -> (s: String)
    ensures
        s@ == match instance {
            Some(v) => if trim(v@).len() > 0 {
                v@
            } else {
                current@
            },
            None => current@,
        },
{
    match instance {
        Some(v) => {
            let vv = chars_of(v);
            if trim_vec(&vv).len() > 0 {
                String::from_str(v)
            } else {
                current
            }
        },
        None => current,
    }
}

/// A carousel slide of an entry: linked to the entry's trimmed content, with
/// the entry's title as alt text (else the image's title when it is blank).
pub fn carousel_slide(image_url: String, entry_title: &str, entry_content: &str, attachment_title: &str) -> (s:
    CarouselSlide)
    ensures
        s.image_url@ == image_url@,
        s.link_url@ == trim(entry_content@),
        s.alt@ == (if trim(entry_title@).len() == 0 {
            attachment_title@
        } else {
            entry_title@
        }),
{
    let cv = chars_of(entry_content);
    let link = string_of(&trim_vec(&cv));
    let tv = chars_of(entry_title);
    let alt = if trim_vec(&tv).len() == 0 {
        String::from_str(attachment_title)
    } else {
        String::from_str(entry_title)
    };
    CarouselSlide { image_url, alt, link_url: link }
}

/// The media id stored in an entry's meta, when it reads as an integer.
pub fn media_id_from_meta(value: Option<&String>) -> (r: Option<i64>)
    ensures
        r == match value {
            Some(v) => crate::numbers::parse_i64_spec(v@),
            None => None,
        },
{
    match value {
        Some(v) => {
            let vv = chars_of_string(v);
            crate::numbers::parse_i64(&vv)
        },
        None => None,
    }
}

// ---------------------------------------------------------------------------
// The template context of a placeholder
// ---------------------------------------------------------------------------

/// How a placeholder's widget type is resolved.
#[derive(Debug, Clone, Copy, PartialEq, Eq, Structural)]
pub enum WidgetKind {
    News,
    Image,
    Carousel,
    Other,
}

pub open spec fn widget_kind_spec(type_key: Seq<char>) -> WidgetKind {
    if type_key == "news"@ {
        WidgetKind::News
    } else if type_key == "image"@ {
        WidgetKind::Image
    } else if type_key == "carousel"@ {
        WidgetKind::Carousel
    } else {
        WidgetKind::Other
    }
}

/// The kind of a widget type key: the data read for its placeholders and
/// the entries its context gets.
pub fn widget_kind(type_key: &str) -> (k: WidgetKind)
    ensures
        k == widget_kind_spec(type_key@),
{
    let kv = chars_of(type_key);
    if seq_eq(&kv, &chars_of("news")) {
        WidgetKind::News
    } else if seq_eq(&kv, &chars_of("image")) {
        WidgetKind::Image
    } else if seq_eq(&kv, &chars_of("carousel")) {
        WidgetKind::Carousel
    } else {
        WidgetKind::Other
    }
}

/// A media file as found for an entry.
#[derive(Debug, Clone)]
pub struct MediaInfo {
    pub public_url: String,
    pub title: String,
    pub is_image: bool,
}

/// A carousel entry and the media it names, when it names one that exists.
#[derive(Debug, Clone)]
pub struct CarouselEntry {
    pub title: String,
    pub content: String,
    pub media: Option<MediaInfo>,
}

/// What a placeholder's widget shows, as read from its published entries.
#[derive(Debug, Clone)]
pub enum WidgetData {
    /// The news items, already limited.
    News(Vec<NewsItem>),
    /// The image item, or `None` when there is no entry, its media id is
    /// missing, or its media is missing or not an image.
    Image(Option<ImageItem>),
    /// The entries in order, with the carousel's settings.
    Carousel { entries: Vec<CarouselEntry>, interval: u32, width: String, height: String },
    Other,
}

/// One value of a template context.
#[derive(Debug, Clone)]
pub enum ContextValue {
    News(Vec<NewsItem>),
    Image(ImageItem),
    Carousel(CarouselData),
    Bool(bool),
    Html(String),
}

pub struct NewsP {
    pub title: Seq<char>,
    pub excerpt: Seq<char>,
    pub display_date: Seq<char>,
}

pub struct ImageP {
    pub image_url: Seq<char>,
    pub alt: Seq<char>,
    pub link_url: Seq<char>,
    pub float: Seq<char>,
    pub margin: Seq<char>,
    pub style: Seq<char>,
    pub width: Seq<char>,
    pub height: Seq<char>,
    pub object_fit: Seq<char>,
    pub border_radius: Seq<char>,
    pub img_style: Seq<char>,
}

pub struct SlideP {
    pub image_url: Seq<char>,
    pub alt: Seq<char>,
    pub link_url: Seq<char>,
}

pub struct EntryP {
    pub title: Seq<char>,
    pub content: Seq<char>,
    pub media: Option<(Seq<char>, Seq<char>, bool)>,
}

pub enum DataP {
    News(Seq<NewsP>),
    Image(Option<ImageP>),
    Carousel { entries: Seq<EntryP>, interval: u32, width: Seq<char>, height: Seq<char> },
    Other,
}

pub enum ValueP {
    News(Seq<NewsP>),
    Image(ImageP),
    Carousel { slides: Seq<SlideP>, interval: u32, width: Seq<char>, height: Seq<char> },
    Bool(bool),
    Html(Seq<char>),
}

pub open spec fn news_view(n: NewsItem) -> NewsP {
    NewsP { title: n.title@, excerpt: n.excerpt@, display_date: n.display_date@ }
}

pub open spec fn news_items_view(v: Seq<NewsItem>) -> Seq<NewsP> {
    Seq::new(v.len(), |i: int| news_view(v[i]))
}

pub open spec fn image_view(i: ImageItem) -> ImageP {
    ImageP {
        image_url: i.image_url@,
        alt: i.alt@,
        link_url: i.link_url@,
        float: i.float@,
        margin: i.margin@,
        style: i.style@,
        width: i.width@,
        height: i.height@,
        object_fit: i.object_fit@,
        border_radius: i.border_radius@,
        img_style: i.img_style@,
    }
}

pub open spec fn slide_view(s: CarouselSlide) -> SlideP {
    SlideP { image_url: s.image_url@, alt: s.alt@, link_url: s.link_url@ }
}

pub open spec fn slides_view(v: Seq<CarouselSlide>) -> Seq<SlideP> {
    Seq::new(v.len(), |i: int| slide_view(v[i]))
}

pub open spec fn entry_view(e: CarouselEntry) -> EntryP {
    EntryP {
        title: e.title@,
        content: e.content@,
        media: match e.media {
            Some(m) => Some((m.public_url@, m.title@, m.is_image)),
            None => None,
        },
    }
}

pub open spec fn entries_view(v: Seq<CarouselEntry>) -> Seq<EntryP> {
    Seq::new(v.len(), |i: int| entry_view(v[i]))
}

pub open spec fn data_view(d: WidgetData) -> DataP {
    match d {
        WidgetData::News(items) => DataP::News(news_items_view(items@)),
        WidgetData::Image(item) => DataP::Image(
            match item {
                Some(i) => Some(image_view(i)),
                None => None,
            },
        ),
        WidgetData::Carousel { entries, interval, width, height } => DataP::Carousel {
            entries: entries_view(entries@),
            interval,
            width: width@,
            height: height@,
        },
        WidgetData::Other => DataP::Other,
    }
}

pub open spec fn value_view(v: ContextValue) -> ValueP {
    match v {
        ContextValue::News(items) => ValueP::News(news_items_view(items@)),
        ContextValue::Image(i) => ValueP::Image(image_view(i)),
        ContextValue::Carousel(c) => ValueP::Carousel {
            slides: slides_view(c.slides@),
            interval: c.interval,
            width: c.width@,
            height: c.height@,
        },
        ContextValue::Bool(b) => ValueP::Bool(b),
        ContextValue::Html(h) => ValueP::Html(h@),
    }
}

pub open spec fn context_view(v: Seq<(String, ContextValue)>) -> Seq<(Seq<char>, ValueP)> {
    Seq::new(v.len(), |i: int| (v[i].0@, value_view(v[i].1)))
}

/// The slides of the carousel entries in order: an entry whose media is
/// missing or is not an image is skipped.
pub open spec fn kept_slides(entries: Seq<EntryP>) -> Seq<SlideP>
    decreases entries.len(),
{
    if entries.len() == 0 {
        seq![]
    } else {
        let e = entries.last();
        kept_slides(entries.drop_last()) + match e.media {
            Some((url, media_title, true)) => seq![
                SlideP {
                    image_url: url,
                    alt: if trim(e.title).len() == 0 {
                        media_title
                    } else {
                        e.title
                    },
                    link_url: trim(e.content),
                },
            ],
            _ => seq![],
        }
    }
}

/// The context entries of a placeholder `name` of widget type `type_key`,
/// given what its widget shows and its rendered fragment (if it rendered):
/// the data under `name`, whether there is any under `has_{name}`, and the
/// fragment under `{name}_html`. A widget of another type is shown when its
/// fragment rendered.
pub open spec fn widget_context_spec(
    name: Seq<char>,
    type_key: Seq<char>,
    data: DataP,
    fragment: Option<Seq<char>>,
    annotate: bool,
    placeholder_id: i64,
) -> Seq<(Seq<char>, ValueP)> {
    let html = match placeholder_html_spec(fragment, annotate, placeholder_id, name, type_key) {
        Some(h) => seq![(name + "_html"@, ValueP::Html(h))],
        None => seq![],
    };
    let has = "has_"@ + name;
    match data {
        DataP::News(items) => seq![(name, ValueP::News(items)), (has, ValueP::Bool(items.len() > 0))] + html,
        DataP::Image(None) => seq![(has, ValueP::Bool(false))] + html,
        DataP::Image(Some(i)) => seq![(name, ValueP::Image(i)), (has, ValueP::Bool(true))] + html,
        DataP::Carousel { entries, interval, width, height } => {
            let slides = kept_slides(entries);
            seq![
                (name, ValueP::Carousel { slides, interval, width, height }),
                (has, ValueP::Bool(slides.len() > 0)),
            ] + html
        },
        DataP::Other => html + seq![(has, ValueP::Bool(fragment is Some))],
    }
}

fn cat(a: &str, b: &str) -> (s: String)
    ensures
        s@ == a@ + b@,
{
    let mut v = chars_of(a);
    push_str(&mut v, b);
    string_of(&v)
}

/// The slides of the carousel entries whose media is an image.
pub fn carousel_slides(entries: &Vec<CarouselEntry>) -> (r: Vec<CarouselSlide>)
    ensures
        slides_view(r@) == kept_slides(entries_view(entries@)),
{
    let ghost ev = entries_view(entries@);
    let mut out: Vec<CarouselSlide> = Vec::new();
    let mut i: usize = 0;
    while i < entries.len()
        invariant
            i <= entries.len(),
            ev == entries_view(entries@),
            slides_view(out@) == kept_slides(ev.take(i as int)),
        decreases entries.len() - i,
    {
        let e = &entries[i];
        assert(ev.take(i + 1).drop_last() =~= ev.take(i as int));
        assert(ev.take(i + 1).last() == entry_view(*e));
        match &e.media {
            Some(m) => {
                if m.is_image {
                    let s = carousel_slide(m.public_url.clone(), e.title.as_str(), e.content.as_str(), m.title.as_str());
                    let ghost before = slides_view(out@);
                    out.push(s);
                    assert(slides_view(out@) =~= before.push(slide_view(s)));
                } else {
                    assert(kept_slides(ev.take(i + 1)) =~= kept_slides(ev.take(i as int)));
                }
            },
            None => {
                assert(kept_slides(ev.take(i + 1)) =~= kept_slides(ev.take(i as int)));
            },
        }
        i += 1;
    }
    assert(ev.take(entries@.len() as int) =~= ev);
    out
}

/// The template context entries of one placeholder.
pub fn widget_context(
    name: &str,
    type_key: &str,
    data: WidgetData,
    fragment: Option<String>,
    options: RenderOptions,
    placeholder_id: i64,
) -> (r: Vec<(String, ContextValue)>)
    ensures
        context_view(r@) == widget_context_spec(
            name@,
            type_key@,
            data_view(data),
            opt_view(fragment),
            options.annotate_widgets,
            placeholder_id,
        ),
{
    proof {
        reveal_strlit("_html");
        reveal_strlit("has_");
    }
    let rendered = fragment.is_some();
    let html = placeholder_html(fragment, options, placeholder_id, name, type_key);
    let mut tail: Vec<(String, ContextValue)> = Vec::new();
    match html {
        Some(h) => {
            tail.push((cat(name, "_html"), ContextValue::Html(h)));
        },
        None => {},
    }
    let ghost tv = context_view(tail@);
    let has = cat("has_", name);
    let mut r: Vec<(String, ContextValue)> = Vec::new();
    match data {
        WidgetData::News(items) => {
            let any = items.len() > 0;
            r.push((String::from_str(name), ContextValue::News(items)));
            r.push((has, ContextValue::Bool(any)));
        },
        WidgetData::Image(None) => {
            r.push((has, ContextValue::Bool(false)));
        },
        WidgetData::Image(Some(i)) => {
            r.push((String::from_str(name), ContextValue::Image(i)));
            r.push((has, ContextValue::Bool(true)));
        },
        WidgetData::Carousel { entries, interval, width, height } => {
            let slides = carousel_slides(&entries);
            let any = slides.len() > 0;
            r.push((String::from_str(name), ContextValue::Carousel(CarouselData { slides, interval, width, height })));
            r.push((has, ContextValue::Bool(any)));
        },
        WidgetData::Other => {
            let mut out = tail;
            out.push((has, ContextValue::Bool(rendered)));
            return out;
        },
    }
    let ghost rv = context_view(r@);
    r.append(&mut tail);
    assert(context_view(r@) =~= rv + tv);
    r
}

} // verus!
