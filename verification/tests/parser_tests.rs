use web_crawler::parser::{assemble, keep_web_link, parse, resolve_url};
use web_crawler::web_url::Url;

#[test]
fn extracts_title_and_links() {
    let html = r#"
        <html>
            <head><title>Test Page</title></head>
            <body>
                <a href="/about">About</a>
                <a href="https://other.com/page">Other</a>
                <a href="mailto:hi@test.com">Email</a>
            </body>
        </html>
        "#;
    let base = Url::parse("https://example.com/index.html").unwrap();
    let result = parse(html, &base);

    assert_eq!(result.title.as_deref(), Some("Test Page"));
    assert_eq!(result.links.len(), 2);
    assert_eq!(result.links[0].as_str(), "https://example.com/about");
    assert_eq!(result.links[1].as_str(), "https://other.com/page");
}

#[test]
fn title_is_trimmed_and_absent_title_is_none() {
    let base = Url::parse("https://example.com/").unwrap();
    let with = parse("<html><head><title>\n   Spaced Title \t</title></head></html>", &base);
    assert_eq!(with.title.as_deref(), Some("Spaced Title"));
    let without = parse("<html><body><p>no title</p></body></html>", &base);
    assert_eq!(without.title, None);
    assert!(without.links.is_empty());
}

#[test]
fn first_title_wins_and_links_keep_their_order() {
    let base = Url::parse("https://example.com/dir/page.html").unwrap();
    let html = "<title>One</title><title>Two</title><a href=\"b\">b</a><a>no href</a><a href=\"../a\">a</a><a href=\"ftp://x.org/f\">f</a>";
    let result = parse(html, &base);
    assert_eq!(result.title.as_deref(), Some("One"));
    let links: Vec<&str> = result.links.iter().map(|u| u.as_str()).collect();
    assert_eq!(links, vec!["https://example.com/dir/b", "https://example.com/a"]);
}

#[test]
fn resolve_url_keeps_only_http_and_https() {
    let base = Url::parse("https://example.com/index.html").unwrap();
    assert_eq!(resolve_url("/about", &base).unwrap().as_str(), "https://example.com/about");
    assert_eq!(resolve_url("http://plain.org", &base).unwrap().as_str(), "http://plain.org/");
    assert!(resolve_url("mailto:hi@test.com", &base).is_none());
    assert!(resolve_url("javascript:void(0)", &base).is_none());
    assert!(resolve_url("http://[::1", &base).is_none());
}

#[test]
fn keep_web_link_filters_on_scheme() {
    assert!(keep_web_link(None).is_none());
    let web = Url::parse("https://example.com/x").unwrap();
    assert_eq!(keep_web_link(Some(web.clone())), Some(web));
    let other = Url::parse("ftp://example.com/x").unwrap();
    assert_eq!(keep_web_link(Some(other)), None);
}

#[test]
fn assemble_trims_title_and_skips_missing_hrefs() {
    let base = Url::parse("https://example.com/").unwrap();
    let r = assemble(
        Some("  Hello\u{a0}".to_string()),
        vec![Some("/x".to_string()), None, Some("mailto:a@b.c".to_string())],
        &base,
    );
    assert_eq!(r.title.as_deref(), Some("Hello"));
    assert_eq!(r.links.len(), 1);
    assert_eq!(r.links[0].as_str(), "https://example.com/x");
}
