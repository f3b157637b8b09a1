use web_crawler::frontier::Frontier;
use web_crawler::web_url::Url;

#[test]
fn push_and_pop() {
    let mut f = Frontier::new();
    let u = Url::parse("https://example.com").unwrap();
    assert!(f.push(u.clone()));
    assert_eq!(f.pending(), 1);
    assert_eq!(f.pop(), Some(u));
    assert_eq!(f.pending(), 0);
}

#[test]
fn deduplicates() {
    let mut f = Frontier::new();
    let u = Url::parse("https://example.com").unwrap();
    assert!(f.push(u.clone()));
    assert!(!f.push(u));
    assert_eq!(f.pending(), 1);
}

#[test]
fn pops_in_first_in_first_out_order() {
    let mut f = Frontier::new();
    let a = Url::parse("https://a.example/").unwrap();
    let b = Url::parse("https://b.example/").unwrap();
    let c = Url::parse("https://c.example/").unwrap();
    assert!(f.push(a.clone()));
    assert!(f.push(b.clone()));
    assert!(f.push(c.clone()));
    assert_eq!(f.pop(), Some(a));
    assert_eq!(f.pop(), Some(b));
    assert_eq!(f.pop(), Some(c));
    assert_eq!(f.pop(), None);
}

#[test]
fn popped_url_is_never_requeued() {
    let mut f = Frontier::new();
    let u = Url::parse("https://example.com/page").unwrap();
    assert!(f.push(u.clone()));
    assert_eq!(f.pop(), Some(u.clone()));
    assert!(!f.push(u));
    assert_eq!(f.pending(), 0);
    assert_eq!(f.total_seen(), 1);
}

#[test]
fn total_seen_counts_pending_and_handed_out() {
    let mut f = Frontier::new();
    for s in ["https://a.example/", "https://b.example/", "https://a.example/"] {
        f.push(Url::parse(s).unwrap());
    }
    assert_eq!(f.total_seen(), 2);
    assert_eq!(f.pending(), 2);
    f.pop();
    assert_eq!(f.total_seen(), 2);
    assert_eq!(f.pending(), 1);
    assert!(f.pending() <= f.total_seen());
}

#[test]
fn pop_on_empty_frontier_is_none() {
    let mut f = Frontier::new();
    assert_eq!(f.pop(), None);
    assert_eq!(f.pending(), 0);
    assert_eq!(f.total_seen(), 0);
}
