use sqlite_cms::contact::{issue_token, verify_token};

#[test]
fn issue_and_verify_token_roundtrip() {
    let token = issue_token(42, "test-secret").expect("issue token");
    verify_token(&token, 42, "test-secret").expect("verify token");
}

#[test]
fn verify_token_rejects_wrong_placeholder() {
    let token = issue_token(42, "test-secret").expect("issue token");
    assert!(verify_token(&token, 99, "test-secret").is_err());
}

#[test]
fn verify_token_rejects_tampered_token() {
    let token = issue_token(42, "test-secret").expect("issue token");
    let tampered = format!("{token}x");
    assert!(verify_token(&tampered, 42, "test-secret").is_err());
}

use sqlite_cms::contact::{
    constant_time_eq, contact_meta, contact_post_texts, contact_slug, issue_token_at, merge_contact_config,
    resolve_secret, sign_payload, validate_submission, verify_token_at, ContactFormSubmission,
    ContactFormWidgetConfig, TOKEN_TTL_SECS,
};
use sqlite_cms::error::DomainError;

fn validation_message(r: Result<(), DomainError>) -> String {
    match r {
        Err(DomainError::Validation(m)) => m,
        other => panic!("expected a validation error, got {other:?}"),
    }
}

#[test]
fn signature_is_url_safe_base64_of_hmac_sha256() {
    assert_eq!(sign_payload("what do ya want for nothing?", "Jefe"), "W9zBRr9gdU5qBCQmCJV1x1oAPwidJzmDnexYuWTsOEM");
}

#[test]
fn token_names_placeholder_expiry_and_signature() {
    assert_eq!(TOKEN_TTL_SECS, 3600);
    let token = issue_token_at(7, " s3cret ", 1000).expect("token");
    assert_eq!(token, "7:4600:S8nP3iPEWvSPKs8A5jRYv_JbaI8olLtEYUYgHGWVbJA");
    assert!(verify_token_at(&token, 7, "s3cret", 1000).is_ok());
    assert!(verify_token_at(&token, 7, "s3cret", 4600).is_ok());
    assert_eq!(
        validation_message(verify_token_at(&token, 7, "s3cret", 4601)),
        "フォームの有効期限が切れています。ページを再読み込みしてください。"
    );
    assert_eq!(validation_message(verify_token_at(&token, 8, "s3cret", 1000)), "無効なフォームトークンです。");
    assert_eq!(validation_message(verify_token_at(&token, 7, "other", 1000)), "無効なフォームトークンです。");
    assert_eq!(
        validation_message(verify_token_at("  ", 7, "s3cret", 1000)),
        "フォームの有効期限が切れています。ページを再読み込みしてください。"
    );
    assert_eq!(validation_message(verify_token_at("garbage", 7, "s3cret", 1000)), "無効なフォームトークンです。");
    match verify_token_at(&token, 7, "   ", 1000) {
        Err(DomainError::Internal(m)) => assert_eq!(m, "session secret is required for contact form tokens"),
        other => panic!("unexpected: {other:?}"),
    }
    assert!(matches!(resolve_secret(" k "), Ok(k) if k == "k"));
}

#[test]
fn constant_time_comparison() {
    assert!(constant_time_eq(b"abc", b"abc"));
    assert!(!constant_time_eq(b"abc", b"abd"));
    assert!(!constant_time_eq(b"abc", b"ab"));
}

fn submission(name: &str, email: &str, phone: Option<&str>, message: &str) -> ContactFormSubmission {
    ContactFormSubmission {
        name: name.to_string(),
        email: email.to_string(),
        phone: phone.map(|p| p.to_string()),
        message: message.to_string(),
        token: String::new(),
    }
}

fn config() -> ContactFormWidgetConfig {
    ContactFormWidgetConfig {
        heading: "お問い合わせ".to_string(),
        submit_label: "送信".to_string(),
        success_message: "ありがとうございました".to_string(),
        show_phone: false,
    }
}

#[test]
fn submissions_are_checked_field_by_field() {
    let cfg = config();
    assert!(validate_submission(&submission("山田", "a@example.com", None, "こんにちは"), &cfg).is_ok());
    assert_eq!(
        validation_message(validate_submission(&submission(" ", "a@example.com", None, "x"), &cfg)),
        "お名前を正しく入力してください。"
    );
    assert_eq!(
        validation_message(validate_submission(&submission("山田", "example.com", None, "x"), &cfg)),
        "メールアドレスを正しく入力してください。"
    );
    assert_eq!(
        validation_message(validate_submission(&submission("山田", "a@b", None, "  "), &cfg)),
        "お問い合わせ内容を正しく入力してください。"
    );
    assert_eq!(
        validation_message(validate_submission(&submission("山田", "a@b", Some(&"1".repeat(31)), "x"), &cfg)),
        "電話番号は 30 文字以内で入力してください。"
    );
    // 34 characters of 3 bytes each are over the 100-byte limit on names.
    assert!(validate_submission(&submission(&"あ".repeat(34), "a@b", None, "x"), &cfg).is_err());
    assert!(validate_submission(&submission(&"あ".repeat(33), "a@b", None, "x"), &cfg).is_ok());
}

#[test]
fn stored_submission_texts() {
    let s = submission(" 山田 ", " a@b ", Some(" 090 "), " 本文 ");
    let (title, content, excerpt) = contact_post_texts(&s);
    assert_eq!(title, "お問い合わせ: 山田");
    assert_eq!(content, "本文");
    assert_eq!(excerpt, " 本文 ");
    let long = submission("a", "a@b", None, &"x".repeat(130));
    assert_eq!(contact_post_texts(&long).2.len(), 120);
    assert_eq!(
        contact_meta(&s),
        vec![
            ("contact_name".to_string(), "山田".to_string()),
            ("contact_email".to_string(), "a@b".to_string()),
            ("contact_phone".to_string(), "090".to_string()),
        ]
    );
    assert_eq!(contact_meta(&submission("a", "b@c", Some(" "), "m")).len(), 2);
    assert_eq!(contact_slug(1700000000, 42), "contact-1700000000-42");
}

#[test]
fn widget_settings_override_only_non_blank_values() {
    let mut cfg = config();
    merge_contact_config(&mut cfg, Some(" ご連絡 "), Some(" "), None, Some(true));
    assert_eq!(cfg.heading, "ご連絡");
    assert_eq!(cfg.submit_label, "送信");
    assert_eq!(cfg.success_message, "ありがとうございました");
    assert!(cfg.show_phone);
}

#[test]
fn only_contact_forms_take_submissions_and_slugs_carry_time() {
    assert!(sqlite_cms::contact::check_contact_form_type("contact_form").is_ok());
    match sqlite_cms::contact::check_contact_form_type("news") {
        Err(DomainError::BadRequest(m)) => assert_eq!(m, "このプレースホルダーはお問い合わせフォームではありません。"),
        other => panic!("unexpected: {other:?}"),
    }
    let slug = sqlite_cms::contact::new_contact_slug();
    let parts: Vec<&str> = slug.split('-').collect();
    assert_eq!(parts.len(), 3);
    assert_eq!(parts[0], "contact");
    assert!(parts[1].parse::<u64>().expect("time") > 1_600_000_000);
    assert!(parts[2].parse::<u32>().is_ok());
}
