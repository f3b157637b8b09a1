use web_crawler::robots::{crawler_agent, RobotRules, RobotsChecker, RobotsFetch};
use web_crawler::web_url::Url;

#[test]
fn robots_txt_parsing_and_check() {
    let txt = b"User-Agent: web-crawler\nDisallow: /secret\nAllow: /public\n";
    let robot = RobotRules::new("web-crawler", txt).unwrap();

    assert!(robot.allowed("https://example.com/public"));
    assert!(!robot.allowed("https://example.com/secret"));
    assert!(robot.allowed("https://example.com/other"));
}

#[test]
fn robots_txt_wildcard_disallow_all() {
    let txt = b"User-Agent: *\nDisallow: /\n";
    let robot = RobotRules::new("web-crawler", txt).unwrap();

    assert!(!robot.allowed("https://example.com/anything"));
    assert!(!robot.allowed("https://example.com/"));
}

#[test]
fn robots_txt_empty_allows_all() {
    let txt = b"";
    let robot = RobotRules::new("web-crawler", txt).unwrap();

    assert!(robot.allowed("https://example.com/anything"));
}

#[test]
fn checker_asks_for_robots_txt_once_per_origin() {
    let mut checker = RobotsChecker::new();
    let page = Url::parse("https://example.com/secret/page").unwrap();
    let same_origin = Url::parse("https://example.com/public").unwrap();
    assert_eq!(
        checker.robots_url_to_fetch(&page).as_deref(),
        Some("https://example.com/robots.txt")
    );
    assert!(checker.is_allowed(&page));
    checker.record(
        &page,
        RobotsFetch::Body(b"User-Agent: web-crawler\nDisallow: /secret\n".to_vec()),
    );
    assert_eq!(checker.robots_url_to_fetch(&page), None);
    assert_eq!(checker.robots_url_to_fetch(&same_origin), None);
    assert!(!checker.is_allowed(&page));
    assert!(checker.is_allowed(&same_origin));
}

#[test]
fn checker_allows_everything_without_robots_txt() {
    let mut checker = RobotsChecker::new();
    let a = Url::parse("https://a.example:8443/x").unwrap();
    let b = Url::parse("http://b.example/y").unwrap();
    assert_eq!(
        checker.robots_url_to_fetch(&a).as_deref(),
        Some("https://a.example:8443/robots.txt")
    );
    checker.record(&a, RobotsFetch::Unsuccessful);
    checker.record(&b, RobotsFetch::Failed);
    assert!(checker.is_allowed(&a));
    assert!(checker.is_allowed(&b));
    assert_eq!(checker.robots_url_to_fetch(&b), None);
}

#[test]
fn crawler_agent_is_web_crawler() {
    assert_eq!(crawler_agent(), "web-crawler");
}

#[test]
fn checker_by_origin_text() {
    let mut checker = RobotsChecker::new();
    assert_eq!(
        checker.robots_url_for_origin("https://site.example".to_string()).as_deref(),
        Some("https://site.example/robots.txt")
    );
    assert!(checker.is_allowed_in_origin("https://site.example", "https://site.example/private/x"));
    checker.record_for_origin(
        "https://site.example".to_string(),
        RobotsFetch::Body(b"User-agent: *\nDisallow: /private\n".to_vec()),
    );
    assert_eq!(checker.robots_url_for_origin("https://site.example".to_string()), None);
    assert!(!checker.is_allowed_in_origin("https://site.example", "https://site.example/private/x"));
    assert!(checker.is_allowed_in_origin("https://site.example", "https://site.example/public"));
    assert!(checker.is_allowed_in_origin("https://other.example", "https://other.example/private/x"));
}
