use sqlite_cms::widgets::{
    annotate_widget_html, carousel_slides, widget_context, widget_kind, CarouselEntry, ContextValue, MediaInfo,
    NewsItem, RenderOptions, WidgetData, WidgetKind,
};

fn media(url: &str, title: &str, is_image: bool) -> Option<MediaInfo> {
    Some(MediaInfo { public_url: url.to_string(), title: title.to_string(), is_image })
}

fn entry(title: &str, content: &str, m: Option<MediaInfo>) -> CarouselEntry {
    CarouselEntry { title: title.to_string(), content: content.to_string(), media: m }
}

fn keys(ctx: &[(String, ContextValue)]) -> Vec<String> {
    ctx.iter().map(|(k, _)| k.clone()).collect()
}

#[test]
fn widget_kinds() {
    assert_eq!(widget_kind("news"), WidgetKind::News);
    assert_eq!(widget_kind("image"), WidgetKind::Image);
    assert_eq!(widget_kind("carousel"), WidgetKind::Carousel);
    assert_eq!(widget_kind("contact_form"), WidgetKind::Other);
}

#[test]
fn carousel_skips_entries_without_an_image() {
    let entries = vec![
        entry(" ", " /a ", media("/m/1.png", "one", true)),
        entry("x", "", None),
        entry("y", "", media("/m/2.pdf", "doc", false)),
        entry("Two", "/b", media("/m/3.png", "three", true)),
    ];
    let slides = carousel_slides(&entries);
    assert_eq!(slides.len(), 2);
    assert_eq!(slides[0].image_url, "/m/1.png");
    assert_eq!(slides[0].alt, "one");
    assert_eq!(slides[0].link_url, "/a");
    assert_eq!(slides[1].alt, "Two");
}

#[test]
fn news_context_has_items_flag_and_html() {
    let items = vec![NewsItem { title: "t".into(), excerpt: "e".into(), display_date: "d".into() }];
    let plain = RenderOptions { annotate_widgets: false };
    let ctx = widget_context("news", "news", WidgetData::News(items), Some("<ul></ul>".into()), plain, 1);
    assert_eq!(keys(&ctx), vec!["news", "has_news", "news_html"]);
    assert!(matches!(&ctx[1].1, ContextValue::Bool(true)));
    assert!(matches!(&ctx[2].1, ContextValue::Html(h) if h == "<ul></ul>"));
    let empty = widget_context("news", "news", WidgetData::News(vec![]), None, plain, 1);
    assert_eq!(keys(&empty), vec!["news", "has_news"]);
    assert!(matches!(&empty[1].1, ContextValue::Bool(false)));
}

#[test]
fn image_and_other_contexts() {
    let annotate = RenderOptions { annotate_widgets: true };
    let ctx = widget_context("hero", "image", WidgetData::Image(None), None, annotate, 7);
    assert_eq!(keys(&ctx), vec!["has_hero", "hero_html"]);
    assert!(matches!(&ctx[0].1, ContextValue::Bool(false)));
    let wrapper = annotate_widget_html("", 7, "hero", "image");
    assert!(matches!(&ctx[1].1, ContextValue::Html(h) if *h == wrapper));
    let other = widget_context("form", "contact_form", WidgetData::Other, None, annotate, 2);
    assert_eq!(keys(&other), vec!["form_html", "has_form"]);
    assert!(matches!(&other[1].1, ContextValue::Bool(false)));
    let plain = RenderOptions { annotate_widgets: false };
    let shown = widget_context("form", "contact_form", WidgetData::Other, Some("<form></form>".into()), plain, 2);
    assert!(matches!(&shown[1].1, ContextValue::Bool(true)));
}

#[test]
fn carousel_context() {
    let plain = RenderOptions { annotate_widgets: false };
    let data = WidgetData::Carousel {
        entries: vec![entry("a", "", media("/m/1.png", "one", false))],
        interval: 4,
        width: "100%".into(),
        height: "420px".into(),
    };
    let ctx = widget_context("main", "carousel", data, None, plain, 3);
    assert_eq!(keys(&ctx), vec!["main", "has_main"]);
    assert!(matches!(&ctx[0].1, ContextValue::Carousel(c) if c.slides.is_empty() && c.interval == 4));
    assert!(matches!(&ctx[1].1, ContextValue::Bool(false)));
}
