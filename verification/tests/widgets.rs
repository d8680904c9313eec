use sqlite_cms::error::DomainError;
use sqlite_cms::widgets::{
    annotate_widget_html, carousel_interval, carousel_slide, configured_text, html_escape_attr, is_known_type,
    is_valid_type_key, media_id_from_meta, news_item, news_limit, placeholder_html, plan_widget_import,
    render_widget_fragment_with_data, type_label, validate_package, widget_import_key, RenderOptions,
    WidgetImportAction, WidgetImportMode, WidgetPackage, WidgetType,
};

fn package(type_key: &str) -> WidgetPackage {
    WidgetPackage {
        format_version: 1,
        type_key: type_key.to_string(),
        label: " ニュース ".to_string(),
        description: " 一覧 ".to_string(),
        config: "{\"limit\": 5}".to_string(),
        html_template: "<ul></ul>".to_string(),
        config_schema: "{}".to_string(),
    }
}

fn validation_message<T: std::fmt::Debug>(r: Result<T, DomainError>) -> String {
    match r {
        Err(DomainError::Validation(m)) => m,
        other => panic!("expected a validation error, got {other:?}"),
    }
}

#[test]
fn escaped_attribute_has_no_quote_or_angle_bracket() {
    assert_eq!(html_escape_attr("a\"<b>&c"), "a&quot;&lt;b&gt;&amp;c");
    assert_eq!(html_escape_attr("plain"), "plain");
}

#[test]
fn annotated_widget_wraps_the_html() {
    assert_eq!(
        annotate_widget_html("<p>x</p>", 12, "top\"news", "news"),
        "<div class=\"cms-widget-target\" data-cms-placeholder-id=\"12\" data-cms-placeholder-name=\"top&quot;news\" data-cms-widget-type=\"news\"><p>x</p></div>"
    );
}

#[test]
fn type_keys_and_labels() {
    assert!(is_valid_type_key("news_2"));
    assert!(!is_valid_type_key("2news"));
    assert!(!is_valid_type_key("News"));
    assert!(!is_valid_type_key(""));
    assert!(is_known_type("carousel"));
    assert!(!is_known_type("chart"));
    assert_eq!(type_label("image"), "画像");
    assert_eq!(type_label("chart"), "chart");
}

#[test]
fn package_checks_read_the_json() {
    assert!(validate_package(&package("news")).is_ok());
    let mut bad = package("news");
    bad.config = "{limit".to_string();
    assert_eq!(validation_message(validate_package(&bad)), "config は有効な JSON である必要があります");
    let mut bad_schema = package("news");
    bad_schema.config_schema = "[1,".to_string();
    assert_eq!(validation_message(validate_package(&bad_schema)), "config_schema は有効な JSON である必要があります");
    let mut version = package("news");
    version.format_version = 2;
    assert_eq!(validation_message(validate_package(&version)), "format_version は 1 のみ対応しています");
    assert_eq!(validation_message(validate_package(&package("  "))), "type_key を指定してください");
}

#[test]
fn import_key_is_the_trimmed_package_key_or_the_rename_target() {
    assert_eq!(widget_import_key(&package(" news "), WidgetImportMode::Overwrite, None).expect("key"), "news");
    assert_eq!(
        widget_import_key(&package("news"), WidgetImportMode::Rename, Some(" news_copy ")).expect("key"),
        "news_copy"
    );
    assert_eq!(
        validation_message(widget_import_key(&package("news"), WidgetImportMode::Rename, Some("  "))),
        "インポート先 type_key を指定してください"
    );
    assert_eq!(
        validation_message(widget_import_key(&package("news"), WidgetImportMode::Rename, Some("Bad-Key"))),
        "type_key は英小文字で始まり、英小文字・数字・アンダースコアのみ使用できます"
    );
}

#[test]
fn import_creates_updates_or_skips() {
    let p = package("news");
    let created = plan_widget_import(&p, WidgetImportMode::Overwrite, "news", false).expect("plan");
    assert_eq!(created.action, WidgetImportAction::Created);
    assert_eq!(created.message, "ウィジェット「news」を新規登録しました");
    assert_eq!(created.label, "ニュース");
    assert_eq!(created.description, "一覧");
    let updated = plan_widget_import(&p, WidgetImportMode::Overwrite, "news", true).expect("plan");
    assert_eq!(updated.action, WidgetImportAction::Updated);
    assert_eq!(updated.message, "ウィジェット「news」を更新しました");
    let skipped = plan_widget_import(&p, WidgetImportMode::Skip, "news", true).expect("plan");
    assert_eq!(skipped.action, WidgetImportAction::Skipped);
    assert_eq!(skipped.message, "ウィジェット「news」は既に存在するためスキップしました");
    let renamed = plan_widget_import(&p, WidgetImportMode::Rename, "news_copy", false).expect("plan");
    assert_eq!(renamed.action, WidgetImportAction::Created);
    assert_eq!(renamed.type_key, "news_copy");
    assert_eq!(renamed.message, "ウィジェット「news_copy」を別名で新規登録しました");
    let mut unlabeled = package("news");
    unlabeled.label = "   ".to_string();
    assert_eq!(plan_widget_import(&unlabeled, WidgetImportMode::Overwrite, "news", false).expect("plan").label, "news");
}

#[test]
fn import_rename_onto_a_taken_key_conflicts() {
    match plan_widget_import(&package("news"), WidgetImportMode::Rename, "news_copy", true) {
        Err(DomainError::Conflict(m)) => assert_eq!(m, "指定した type_key「news_copy」は既に使われています"),
        other => panic!("unexpected: {other:?}"),
    }
}

#[test]
fn render_settings_prefer_valid_instance_values() {
    assert_eq!(news_limit(10, Some(3)), 3);
    assert_eq!(news_limit(10, Some(51)), 10);
    assert_eq!(news_limit(10, None), 10);
    assert_eq!(carousel_interval(5, Some(30)), 30);
    assert_eq!(carousel_interval(5, Some(0)), 5);
    assert_eq!(configured_text("100%".to_string(), Some(" ")), "100%");
    assert_eq!(configured_text("100%".to_string(), Some("50%")), "50%");
    assert_eq!(media_id_from_meta(Some(&"42".to_string())), Some(42));
    assert_eq!(media_id_from_meta(Some(&"x".to_string())), None);
    assert_eq!(media_id_from_meta(None), None);
}

#[test]
fn news_and_slides_fall_back_to_other_fields() {
    let n = news_item("T".to_string(), " ".to_string(), "本文".to_string(), None, "2026-01-01".to_string());
    assert_eq!(n.excerpt, "本文");
    assert_eq!(n.display_date, "2026-01-01");
    let s = carousel_slide("/m/1.png".to_string(), " ", " /link ", "画像タイトル");
    assert_eq!(s.alt, "画像タイトル");
    assert_eq!(s.link_url, "/link");
}

fn widget_type(type_key: &str, html_template: &str) -> WidgetType {
    WidgetType {
        id: 1,
        type_key: type_key.to_string(),
        label: String::new(),
        description: String::new(),
        config: "{}".to_string(),
        html_template: html_template.to_string(),
        config_schema: "{}".to_string(),
    }
}

#[test]
fn fragment_renders_items_and_config() {
    let data = r#"{"items": [{"title": "A"}, {"title": "B"}], "has_items": true, "config": {"heading": "お知らせ"}}"#;
    let wt = widget_type(
        "news",
        "  <h2>{{ config.heading }}</h2>{% for i in items %}<p>{{ i.title }}</p>{% endfor %}\n",
    );
    let html = render_widget_fragment_with_data(&wt, data);
    assert_eq!(html.as_deref(), Some("<h2>お知らせ</h2><p>A</p><p>B</p>"));
}

#[test]
fn blank_or_broken_fragment_renders_nothing() {
    let data = r#"{"config": {}}"#;
    assert_eq!(render_widget_fragment_with_data(&widget_type("news", "  \n "), data), None);
    assert_eq!(render_widget_fragment_with_data(&widget_type("news", "{% if %}"), data), None);
    assert_eq!(render_widget_fragment_with_data(&widget_type("news", "<p>x</p>"), "not json"), None);
}

#[test]
fn unrendered_fragment_leaves_only_the_editor_wrapper() {
    let options = RenderOptions { annotate_widgets: true };
    let html = placeholder_html(None, options, 3, "news", "news").unwrap();
    assert_eq!(html, annotate_widget_html("", 3, "news", "news"));
    let plain = RenderOptions { annotate_widgets: false };
    assert_eq!(placeholder_html(None, plain, 3, "news", "news"), None);
    assert_eq!(placeholder_html(Some("<p>x</p>".to_string()), plain, 3, "news", "news").as_deref(), Some("<p>x</p>"));
}
