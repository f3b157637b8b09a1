use web_crawler::fetcher::{check_status, FetchError};
use web_crawler::web_url::Url;

#[test]
fn fetch_error_messages() {
    assert_eq!(FetchError::HttpStatus(404).message(), "HTTP 404");
    assert_eq!(FetchError::HttpStatus(0).message(), "HTTP 0");
    assert_eq!(
        FetchError::Network("connection refused".to_string()).message(),
        "network error: connection refused"
    );
}

#[test]
fn success_statuses_are_200_to_299() {
    assert_eq!(check_status(200), Ok(()));
    assert_eq!(check_status(204), Ok(()));
    assert_eq!(check_status(299), Ok(()));
    assert_eq!(check_status(199), Err(FetchError::HttpStatus(199)));
    assert_eq!(check_status(300), Err(FetchError::HttpStatus(300)));
    assert_eq!(check_status(404), Err(FetchError::HttpStatus(404)));
    assert_eq!(check_status(500), Err(FetchError::HttpStatus(500)));
}

#[test]
fn url_parse_serializes_and_reports_errors() {
    let u = Url::parse("HTTPS://Example.COM").unwrap();
    assert_eq!(u.as_str(), "https://example.com/");
    assert_eq!(Url::parse("not a url"), Err("relative URL without a base".to_string()));
    assert_eq!(Url::parse("http://"), Err("empty host".to_string()));
}

#[test]
fn url_join_and_origin() {
    let base = Url::parse("https://example.com/a/b.html?q=1").unwrap();
    assert_eq!(base.join("c").unwrap().as_str(), "https://example.com/a/c");
    assert_eq!(base.join("//other.org/").unwrap().as_str(), "https://other.org/");
    assert!(base.join("http://[::1").is_none());
    assert_eq!(base.origin_serialization(), "https://example.com");
    let port = Url::parse("http://example.com:8080/x").unwrap();
    assert_eq!(port.origin_serialization(), "http://example.com:8080");
}

#[test]
fn web_scheme_detection() {
    assert!(Url::parse("http://a.b/").unwrap().has_web_scheme());
    assert!(Url::parse("https://a.b/").unwrap().has_web_scheme());
    assert!(!Url::parse("ftp://a.b/").unwrap().has_web_scheme());
    assert!(!Url::parse("mailto:x@y.z").unwrap().has_web_scheme());
    assert!(!Url::parse("httpx://a.b/").unwrap().has_web_scheme());
    assert!(!Url::parse("http+unix://a.b/").unwrap().has_web_scheme());
}
