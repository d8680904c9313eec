use sqlite_cms::layouts::{check_package_paths, check_zip_entry_name};
use sqlite_cms::error::DomainError;
use sqlite_cms::layouts::{
    build_placeholder_remaps, build_placeholder_rewrite_pairs, is_safe_zip_relative_path,
    layout_key_to_placeholder_token, normalize_static_relative_path, normalize_zip_entry_name,
    placeholder_used_in_text, remap_layout_package, remap_placeholder_name, resolve_static_upload_target_path,
    rewrite_layout_key_in_text, rewrite_placeholder_refs, static_entry_to_admin_file, validate_layout_key,
    validate_manifest, LayoutExportManifest, LayoutExportMeta, LayoutExportPageMeta,
};
use sqlite_cms::static_files::{StaticFileEntry, StaticFileKind};

#[test]
fn placeholder_used_in_text_rejects_partial_name_match() {
    let text = "{{ export_src_news_html | safe }}";
    assert!(!placeholder_used_in_text(text, "news"));
    assert!(placeholder_used_in_text(text, "export_src_news"));
}

#[test]
fn remap_placeholder_name_replaces_source_prefix() {
    assert_eq!(
        remap_placeholder_name("corporate", "corporate_v2", "corporate_news"),
        "corporate_v2_news"
    );
    assert_eq!(
        remap_placeholder_name("corporate", "corporate_v2", "news"),
        "corporate_v2_news"
    );
}

#[test]
fn rewrite_placeholder_refs_updates_html_and_has_prefix() {
    let pairs = vec![
        ("corporate_news_html".to_string(), "corporate_v2_news_html".to_string()),
        ("has_corporate_news".to_string(), "has_corporate_v2_news".to_string()),
    ];
    let text = "{{ corporate_news_html | safe }}{% if has_corporate_news %}";
    let rewritten = rewrite_placeholder_refs(text, &pairs);
    assert!(rewritten.contains("corporate_v2_news_html"));
    assert!(rewritten.contains("has_corporate_v2_news"));
    assert!(!rewritten.contains("corporate_news_html"));
}

#[test]
fn remaps_cover_referenced_placeholders_longest_first() {
    let text = "{{ corp_news_html | safe }} {{ corp_news_top_html | safe }} {{ x_html }}";
    let names = vec!["corp_news".to_string(), "unused".to_string(), "corp_news_top".to_string()];
    let remaps = build_placeholder_remaps(text, &names, "corp", "corp-v2");
    assert_eq!(
        remaps,
        vec![
            ("corp_news_top".to_string(), "corp_v2_news_top".to_string()),
            ("corp_news".to_string(), "corp_v2_news".to_string()),
        ]
    );
    for w in remaps.windows(2) {
        assert!(w[0].0.len() >= w[1].0.len());
    }
    let pairs = build_placeholder_rewrite_pairs(&remaps);
    assert_eq!(pairs[0], ("corp_news_top_html".to_string(), "corp_v2_news_top_html".to_string()));
    assert_eq!(pairs[1], ("has_corp_news_top".to_string(), "has_corp_v2_news_top".to_string()));
    let rewritten = rewrite_placeholder_refs(text, &pairs);
    assert_eq!(rewritten, "{{ corp_v2_news_html | safe }} {{ corp_v2_news_top_html | safe }} {{ x_html }}");
}

#[test]
fn layout_key_token_and_text_rewrite() {
    assert_eq!(layout_key_to_placeholder_token("my-site-2"), "my_site_2");
    assert_eq!(
        rewrite_layout_key_in_text("<link href=\"/static/corp/site.css\"> corp/pages/a.html", "corp", "copy"),
        "<link href=\"/static/copy/site.css\"> copy/pages/a.html"
    );
}

#[test]
fn package_remap_moves_and_rewrites_files() {
    let manifest = LayoutExportManifest {
        format_version: 1,
        layout: LayoutExportMeta { key: "corp".to_string(), name: "Corporate".to_string() },
        pages: vec![LayoutExportPageMeta {
            name: "Home".to_string(),
            url_path: Some("/home".to_string()),
            file_name: "pages/home.html".to_string(),
            is_published: true,
        }],
    };
    let files = vec![
        ("corp/shell.html".to_string(), b"<a href=\"/static/corp/a.css\">".to_vec()),
        ("corp/static/img.png".to_string(), vec![0xff, 0xfe, 0x63, 0x6f, 0x72, 0x70, 0x2f]),
        ("corp/static/site.css".to_string(), b"url(/static/corp/bg.png)".to_vec()),
        ("other/shell.html".to_string(), b"x".to_vec()),
        ("corp/pages/home.html".to_string(), vec![0xff, 0x63]),
    ];
    let (m, out) = remap_layout_package("corp", "copy", &manifest, &files);
    assert_eq!(m.layout.key, "copy");
    assert_eq!(m.layout.name, "Corporate");
    assert_eq!(m.pages.len(), 1);
    assert_eq!(
        out,
        vec![
            ("copy/shell.html".to_string(), b"<a href=\"/static/copy/a.css\">".to_vec()),
            ("copy/static/img.png".to_string(), vec![0xff, 0xfe, 0x63, 0x6f, 0x72, 0x70, 0x2f]),
            ("copy/static/site.css".to_string(), b"url(/static/copy/bg.png)".to_vec()),
            ("copy/pages/home.html".to_string(), vec![0xff, 0x63]),
        ]
    );
}

#[test]
fn manifest_checks() {
    let manifest = LayoutExportManifest {
        format_version: 1,
        layout: LayoutExportMeta { key: "corp".to_string(), name: "Corporate".to_string() },
        pages: vec![LayoutExportPageMeta {
            name: "Home".to_string(),
            url_path: Some("/home".to_string()),
            file_name: "pages/home.html".to_string(),
            is_published: true,
        }],
    };
    let files = vec!["corp/shell.html".to_string(), "corp/pages/home.html".to_string()];
    assert!(validate_manifest(&manifest, &files).is_ok());
    match validate_manifest(&manifest, &files[..1]) {
        Err(DomainError::Validation(m)) => assert_eq!(m, "ZIP 内にページファイルがありません: corp/pages/home.html"),
        other => panic!("unexpected: {other:?}"),
    }
    let mut bad_key = manifest.clone();
    bad_key.layout.key = "_corp".to_string();
    assert!(matches!(validate_manifest(&bad_key, &files), Err(DomainError::Conflict(_))));
    match validate_manifest(&manifest, &files[1..]) {
        Err(DomainError::Validation(m)) => assert_eq!(m, "ZIP 内に shell.html がありません"),
        other => panic!("unexpected: {other:?}"),
    }
}

#[test]
fn layout_keys_and_zip_paths() {
    assert!(validate_layout_key("corp-2_x").is_ok());
    match validate_layout_key("bad key") {
        Err(DomainError::Conflict(m)) => {
            assert_eq!(m, "レイアウト key は英数字・ハイフン・アンダースコアのみ（先頭に _ は不可）")
        }
        other => panic!("unexpected: {other:?}"),
    }
    assert!(is_safe_zip_relative_path("corp/pages/a.html"));
    assert!(!is_safe_zip_relative_path("corp/../x"));
    assert!(!is_safe_zip_relative_path("/abs"));
    assert!(!is_safe_zip_relative_path("corp//x"));
    assert_eq!(normalize_zip_entry_name("./.\\corp\\shell.html"), "corp/shell.html");
}

#[test]
fn static_paths_in_the_editor() {
    assert_eq!(resolve_static_upload_target_path(" img/ ", "a.png"), "img/a.png");
    assert_eq!(resolve_static_upload_target_path("", "a.png"), "a.png");
    assert_eq!(resolve_static_upload_target_path("b.png", "a.png"), "b.png");
    assert_eq!(normalize_static_relative_path(" //css/site.css ").expect("path"), "css/site.css");
    match normalize_static_relative_path(" / ") {
        Err(DomainError::Validation(m)) => assert_eq!(m, "ファイルパスは必須です"),
        other => panic!("unexpected: {other:?}"),
    }
}

#[test]
fn admin_file_row_links_to_the_encoded_path() {
    let entry = StaticFileEntry {
        relative_path: "css/my site.css".to_string(),
        kind: StaticFileKind::Text,
        size_bytes: 10,
        public_url: "/static/corp/css/my site.css".to_string(),
    };
    let row = static_entry_to_admin_file(&entry, "10 B".to_string());
    assert_eq!(row.display_path, "static/css/my site.css");
    assert_eq!(row.kind_label, "テキスト");
    assert_eq!(row.edit_url(3), Some("/admin/layouts/3/files/static/css%2Fmy%20site.css".to_string()));
}

#[test]
fn package_paths_stay_under_the_layout() {
    assert!(check_package_paths(" corp ", &["corp/shell.html".to_string(), "corp/".to_string()]).is_ok());
    match check_package_paths("corp", &["corp/shell.html".to_string(), "other/x".to_string()]) {
        Err(DomainError::Validation(m)) => {
            assert_eq!(m, "ZIP 内のパスは corp/ で始まる必要があります（got: other/x）")
        }
        other => panic!("unexpected: {other:?}"),
    }
    match check_package_paths("corp", &["corp/a//b".to_string()]) {
        Err(DomainError::Validation(m)) => assert_eq!(m, "不正な ZIP パスです: corp/a//b"),
        other => panic!("unexpected: {other:?}"),
    }
    assert!(check_zip_entry_name("corp/a.html").is_ok());
    match check_zip_entry_name("corp/../x") {
        Err(DomainError::Validation(m)) => assert_eq!(m, "不正な ZIP パスです: corp/../x"),
        other => panic!("unexpected: {other:?}"),
    }
}
