use vellum::preview::{
    attr, head_complete, host_of, is_html_content_type, is_previewable_url, parse_metadata,
    preview_from_body, unescape, LinkPreview, PreviewCache, PREVIEW_TTL_MS,
};

#[test]
fn host_strips_www_port_and_path() {
    assert_eq!(host_of("https://example.com/a/b?c#d").as_deref(), Some("example.com"));
    assert_eq!(host_of("https://www.example.com").as_deref(), Some("example.com"));
    assert_eq!(host_of("http://example.com:8080/x").as_deref(), Some("example.com"));
    assert_eq!(host_of("not a url"), None);
}

#[test]
fn open_graph_wins_over_plain_meta() {
    let html = r#"
            <html><head>
            <meta name="description" content="plain one">
            <title>Fallback Title</title>
            <meta property="og:title" content="OG Title">
            <meta property="og:description" content="OG desc">
            <meta property="og:site_name" content="Example">
            </head></html>"#;
    let p = parse_metadata(html, "https://example.com/post");
    assert_eq!(p.title.as_deref(), Some("OG Title"));
    assert_eq!(p.description.as_deref(), Some("OG desc"));
    assert_eq!(p.site_name.as_deref(), Some("Example"));
}

#[test]
fn falls_back_to_title_and_meta_description() {
    let html = "<html><head><title> Just a Title </title>\
                <meta name='description' content='plain one'></head></html>";
    let p = parse_metadata(html, "https://example.com/x");
    assert_eq!(p.title.as_deref(), Some("Just a Title"));
    assert_eq!(p.description.as_deref(), Some("plain one"));
    assert_eq!(p.site_name.as_deref(), Some("example.com"));
}

#[test]
fn attribute_parsing_handles_awkward_markup() {
    let html = r#"<head>
            <meta  property = 'og:title'   content = 'Sam &amp; Max: "Hit the Road"' >
            <meta data-content="decoy" property="og:description" content="real desc">
            </head>"#;
    let p = parse_metadata(html, "https://example.com");
    assert_eq!(p.title.as_deref(), Some(r#"Sam & Max: "Hit the Road""#));
    assert_eq!(p.description.as_deref(), Some("real desc"));
}

#[test]
fn a_page_with_no_metadata_is_not_useful() {
    let p = parse_metadata("<html><body>hi</body></html>", "https://example.com");
    assert!(!p.is_useful(), "site_name alone must not qualify: {p:?}");
}

#[test]
fn unescape_does_not_double_decode() {
    assert_eq!(unescape("&amp;lt;"), "&lt;");
    assert_eq!(unescape("a &quot;b&quot; &amp; c"), r#"a "b" & c"#);
}

#[test]
fn unescape_decodes_each_entity_once() {
    assert_eq!(unescape("&lt;b&gt; &#39;x&#39; &apos;z&apos;"), "<b> 'x' 'z'");
    // Only the entities a head commonly carries are decoded.
    assert_eq!(unescape("&#x27;"), "&#x27;");
    assert_eq!(unescape("plain"), "plain");
}

#[test]
fn attr_reads_quoted_and_bare_values() {
    assert_eq!(attr(r#"meta property="og:image" content="/a.png""#, "content").as_deref(), Some("/a.png"));
    assert_eq!(attr("meta content=bare name=x", "content").as_deref(), Some("bare"));
    assert_eq!(attr(r#"meta data-content="decoy""#, "content"), None);
}

#[test]
fn image_and_url_are_kept() {
    let html = r#"<head><meta property="og:image" content="https://example.com/i.png"><title>T</title></head>"#;
    let p = parse_metadata(html, "https://example.com/p");
    assert_eq!(p.url, "https://example.com/p");
    assert_eq!(p.image.as_deref(), Some("https://example.com/i.png"));
    assert_eq!(p.title.as_deref(), Some("T"));
    assert!(p.is_useful());
}

#[test]
fn only_http_links_are_fetched() {
    assert!(is_previewable_url("https://example.com"));
    assert!(is_previewable_url("http://example.com"));
    assert!(!is_previewable_url("file:///etc/passwd"));
    assert!(!is_previewable_url("vellum://x"));
    assert!(is_html_content_type(Some("text/html; charset=utf-8")));
    assert!(is_html_content_type(Some("application/xhtml+xml")));
    assert!(!is_html_content_type(Some("image/png")));
    assert!(!is_html_content_type(None));
}

#[test]
fn reading_stops_once_the_head_is_complete() {
    assert!(head_complete(b"<html><HEAD></Head>"));
    assert!(!head_complete(b"<html><head><title>x"));
    assert!(!head_complete(&[0xff, 0xfe, b'<']));
}

#[test]
fn a_body_becomes_a_card_only_when_useful() {
    let p = preview_from_body(b"<head><title>Hi</title></head>", "https://example.com").expect("card");
    assert_eq!(p.title.as_deref(), Some("Hi"));
    assert!(preview_from_body(b"<body>nothing</body>", "https://example.com").is_none());
}

fn card(title: &str) -> LinkPreview {
    LinkPreview {
        url: "https://example.com".into(),
        title: Some(title.into()),
        description: None,
        site_name: None,
        image: None,
    }
}

#[test]
fn remembered_previews_expire() {
    let mut cache = PreviewCache::new();
    assert!(cache.cached("https://example.com", 0).is_none());
    cache.remember("https://example.com", Some(card("A")), 1_000);
    let hit = cache.cached("https://example.com", 1_000 + PREVIEW_TTL_MS - 1).expect("fresh");
    assert_eq!(hit.expect("card").title.as_deref(), Some("A"));
    // A failed fetch is remembered too, as "no card".
    cache.remember("https://nothing.example", None, 1_000);
    assert!(matches!(cache.cached("https://nothing.example", 2_000), Some(None)));
    // Past the TTL the entry is gone.
    assert!(cache.cached("https://example.com", 1_000 + PREVIEW_TTL_MS + 1).is_none());
    assert_eq!(cache.len(), 1);
}

#[test]
fn a_preview_is_recalled_across_other_calls() {
    let mut cache = PreviewCache::new();
    cache.remember("https://a.example", Some(card("A")), 0);
    cache.remember("https://b.example", Some(card("B")), 10);
    assert!(cache.cached("https://c.example", 20).is_none());
    cache.remember("https://b.example", None, 30);
    let hit = cache.cached("https://a.example", 40).expect("still remembered");
    assert_eq!(hit.expect("card").title.as_deref(), Some("A"));
}
