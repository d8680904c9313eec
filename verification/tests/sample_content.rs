use sqlite_cms::samples::{sample_content_plan, PlaceholderIds, SampleSetKind};

fn ids() -> PlaceholderIds {
    PlaceholderIds { news: 1, announcements: 2, hero: 3, carousel: 4, sidebar: 5, contact: 6 }
}

#[test]
fn bicycle_content_plan() {
    let plan = sample_content_plan(SampleSetKind::Bicycle, &ids());
    assert_eq!(plan.posts.len(), 12);
    assert_eq!(plan.posts[0].slug, "bicycle-spring-new-arrival");
    assert_eq!(plan.posts[0].placeholder_id, 1);
    assert_eq!(plan.posts[5].status, "draft");
    assert_eq!(plan.posts[5].published_at, "");
    assert_eq!(plan.posts[6].placeholder_id, 2);
    assert_eq!(plan.posts[11].slug, "bicycle-tip-chain-care");
    assert_eq!(plan.posts[11].placeholder_id, 5);
    let files: Vec<&str> = plan.attachments.iter().map(|a| a.file_path.as_str()).collect();
    assert_eq!(files, ["bicycle-hero.png", "bicycle-carousel-1.png", "bicycle-carousel-2.png", "bicycle-carousel-3.png"]);
    assert_eq!(plan.media_posts.len(), 4);
    assert_eq!(plan.media_posts[0].post.slug, "bicycle-hero-main");
    assert_eq!(plan.media_posts[0].post.placeholder_id, 3);
    assert_eq!(plan.media_posts[0].attachment, 0);
    assert_eq!(plan.media_posts[0].metas, vec![("float".to_string(), "none".to_string()), ("margin".to_string(), "0".to_string())]);
    assert_eq!(plan.media_posts[2].post.slug, "bicycle-slide-repair");
    assert_eq!(plan.media_posts[2].post.placeholder_id, 4);
    assert_eq!(plan.media_posts[2].attachment, 2);
    assert_eq!(plan.media_posts[2].metas, vec![("alt".to_string(), "修理・点検は事前予約がおすすめ".to_string())]);
}

#[test]
fn corporate_content_plan() {
    let plan = sample_content_plan(SampleSetKind::Corporate, &ids());
    assert_eq!(plan.posts.len(), 12);
    assert_eq!(plan.posts[0].slug, "corporate-new-service-launch");
    assert_eq!(plan.attachments[0].file_path, "corporate-hero.png");
    assert_eq!(plan.attachments[3].file_size, 9123);
    assert_eq!(plan.media_posts[3].post.slug, "corporate-slide-seminar");
    assert_eq!(plan.media_posts[3].attachment, 3);
}
