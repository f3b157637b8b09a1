use web_crawler::crawler::{now_unix, timestamp_from_clock, timestamp_label, ControlOutcome, CrawlStep, CrawlerState, StopReason};
use web_crawler::parser::ParseResult;
use web_crawler::web_url::Url;

fn url(s: &str) -> Url {
    Url::parse(s).unwrap()
}

#[test]
fn new_state_is_idle_and_empty() {
    let s = CrawlerState::new("out/crawl_output.jsonl", 50);
    assert!(!s.running);
    assert_eq!(s.pages_crawled, 0);
    assert_eq!(s.max_pages, 50);
    assert_eq!(s.frontier.pending(), 0);
    assert_eq!(s.storage.path(), "out/crawl_output.jsonl");
    let st = s.status();
    assert_eq!(st.output_file, "out/crawl_output.jsonl");
    assert_eq!(st.pending_urls, 0);
    assert_eq!(st.total_seen, 0);
}

#[test]
fn seeding_parses_and_deduplicates() {
    let mut s = CrawlerState::new("crawl_output.jsonl", 50);
    let first = s.seed("https://example.com").unwrap();
    assert!(first.added);
    assert_eq!(first.pending, 1);
    assert_eq!(first.total_seen, 1);
    let again = s.seed("https://example.com/").unwrap();
    assert!(!again.added);
    assert_eq!(again.pending, 1);
    assert_eq!(again.total_seen, 1);
    assert_eq!(s.seed("not a url"), Err("invalid URL: relative URL without a base".to_string()));
    assert_eq!(s.frontier.total_seen(), 1);
}

#[test]
fn start_and_stop_requests() {
    let mut s = CrawlerState::new("crawl_output.jsonl", 50);
    let empty = s.start();
    assert_eq!(empty, ControlOutcome::NothingToCrawl);
    assert_eq!(empty.status_code(), 400);
    assert_eq!(empty.message(), "frontier is empty — seed URLs first via POST /seed");
    assert!(!s.running);

    let not_running = s.stop();
    assert_eq!(not_running, ControlOutcome::NotRunning);
    assert_eq!(not_running.status_code(), 409);
    assert_eq!(not_running.message(), "crawler is not running");

    s.seed("https://example.com").unwrap();
    let started = s.start();
    assert_eq!(started, ControlOutcome::Started);
    assert!(started.starts_loop());
    assert_eq!(started.status_code(), 200);
    assert_eq!(started.message(), "crawl started");
    assert!(s.running);

    let again = s.start();
    assert_eq!(again, ControlOutcome::AlreadyRunning);
    assert!(!again.starts_loop());
    assert_eq!(again.status_code(), 409);
    assert_eq!(again.message(), "crawler is already running");

    let stopped = s.stop();
    assert_eq!(stopped, ControlOutcome::StopRequested);
    assert_eq!(stopped.status_code(), 200);
    assert_eq!(stopped.message(), "stop signal sent — crawler will halt after current page");
    assert!(!s.running);
    assert_eq!(s.stop(), ControlOutcome::NotRunning);
}

#[test]
fn crawl_steps_stop_at_page_limit() {
    let mut s = CrawlerState::new("crawl_output.jsonl", 1);
    s.seed("https://example.com/").unwrap();
    assert_eq!(s.start(), ControlOutcome::Started);
    let fetched = match s.next_step(s.run) {
        CrawlStep::Fetch(u) => u,
        CrawlStep::Stop(r) => panic!("unexpected stop: {:?}", r),
    };
    assert_eq!(fetched.as_str(), "https://example.com/");
    let result = ParseResult {
        title: Some("Home".to_string()),
        links: vec![url("https://example.com/a"), url("https://example.com/"), url("https://example.com/a")],
    };
    let out = s.record_page(&fetched, result, "17s".to_string());
    assert_eq!(out.record.url, "https://example.com/");
    assert_eq!(out.record.title.as_deref(), Some("Home"));
    assert_eq!(out.record.links_found, 3);
    assert_eq!(out.record.timestamp, "17s");
    assert_eq!(out.new_links, 1);
    assert_eq!(s.pages_crawled, 1);
    assert_eq!(s.frontier.pending(), 1);
    assert_eq!(s.frontier.total_seen(), 2);
    match s.next_step(s.run) {
        CrawlStep::Stop(r) => assert_eq!(r, StopReason::PageLimitReached),
        CrawlStep::Fetch(_) => panic!("fetched past the page limit"),
    }
    assert!(!s.running);
    match s.next_step(s.run) {
        CrawlStep::Stop(r) => assert_eq!(r, StopReason::NotRunning),
        CrawlStep::Fetch(_) => panic!("fetched while stopped"),
    }
    assert_eq!(s.frontier.pending(), 1);
}

#[test]
fn crawl_steps_stop_when_frontier_empties() {
    let mut s = CrawlerState::new("crawl_output.jsonl", 10);
    s.seed("https://example.com/").unwrap();
    s.start();
    match s.next_step(s.run) {
        CrawlStep::Fetch(u) => assert_eq!(u.as_str(), "https://example.com/"),
        CrawlStep::Stop(r) => panic!("unexpected stop: {:?}", r),
    }
    s.record_fetch_failure();
    assert_eq!(s.pages_crawled, 1);
    match s.next_step(s.run) {
        CrawlStep::Stop(r) => assert_eq!(r, StopReason::FrontierEmpty),
        CrawlStep::Fetch(_) => panic!("frontier should be empty"),
    }
    assert!(!s.running);
    assert_eq!(s.status().pages_crawled, 1);
}

#[test]
fn page_links_offered_twice_add_nothing_new() {
    let mut s = CrawlerState::new("crawl_output.jsonl", 10);
    let page = url("https://example.com/");
    let links = || vec![url("https://example.com/a"), url("https://example.com/b")];
    let first = s.record_page(&page, ParseResult { title: None, links: links() }, "1s".to_string());
    assert_eq!(first.new_links, 2);
    let second = s.record_page(&page, ParseResult { title: None, links: links() }, "2s".to_string());
    assert_eq!(second.new_links, 0);
    assert_eq!(s.frontier.pending(), 2);
    assert_eq!(s.pages_crawled, 2);
}

#[test]
fn timestamps() {
    assert_eq!(timestamp_label(0), "0s");
    assert_eq!(timestamp_label(1725029869), "1725029869s");
    let now = now_unix();
    assert!(now.ends_with('s'));
    let digits = &now[..now.len() - 1];
    assert!(!digits.is_empty());
    assert!(digits.chars().all(|c| c.is_ascii_digit()));
    assert!(digits.parse::<u64>().unwrap() > 1_600_000_000);
}

#[test]
fn restart_halts_the_earlier_loop_after_its_page() {
    let mut s = CrawlerState::new("crawl_output.jsonl", 10);
    s.seed("https://example.com/a").unwrap();
    s.seed("https://example.com/b").unwrap();
    assert_eq!(s.start(), ControlOutcome::Started);
    let first_run = s.run;
    match s.next_step(first_run) {
        CrawlStep::Fetch(u) => assert_eq!(u.as_str(), "https://example.com/a"),
        CrawlStep::Stop(r) => panic!("unexpected stop: {:?}", r),
    }
    // while the first loop is on its page, the crawler is stopped and restarted
    assert_eq!(s.stop(), ControlOutcome::StopRequested);
    assert_eq!(s.start(), ControlOutcome::Started);
    let second_run = s.run;
    assert_ne!(second_run, first_run);
    s.record_fetch_failure();
    match s.next_step(first_run) {
        CrawlStep::Stop(r) => assert_eq!(r, StopReason::NotRunning),
        CrawlStep::Fetch(_) => panic!("the earlier loop kept crawling"),
    }
    assert!(s.running);
    assert_eq!(s.frontier.pending(), 1);
    match s.next_step(second_run) {
        CrawlStep::Fetch(u) => assert_eq!(u.as_str(), "https://example.com/b"),
        CrawlStep::Stop(r) => panic!("unexpected stop: {:?}", r),
    }
}

#[test]
fn seed_parsed_takes_the_parse_outcome() {
    let mut s = CrawlerState::new("crawl_output.jsonl", 10);
    let ok = s.seed_parsed(Ok(Url::parse("https://example.com/x").unwrap())).unwrap();
    assert!(ok.added);
    assert_eq!((ok.pending, ok.total_seen), (1, 1));
    assert_eq!(s.seed_parsed(Err("empty host".to_string())), Err("invalid URL: empty host".to_string()));
    assert_eq!(s.frontier.total_seen(), 1);
}

#[test]
fn clock_before_epoch_gives_zero_seconds() {
    assert_eq!(timestamp_from_clock(None), "0s");
    assert_eq!(timestamp_from_clock(Some(0)), "0s");
    assert_eq!(timestamp_from_clock(Some(1700000000)), "1700000000s");
}

#[test]
fn only_the_first_of_several_starts_succeeds() {
    let mut s = CrawlerState::new("crawl_output.jsonl", 10);
    s.seed("https://example.com/").unwrap();
    let answers: Vec<ControlOutcome> = (0..4).map(|_| s.start()).collect();
    assert_eq!(
        answers,
        vec![
            ControlOutcome::Started,
            ControlOutcome::AlreadyRunning,
            ControlOutcome::AlreadyRunning,
            ControlOutcome::AlreadyRunning
        ]
    );
    assert_eq!(answers.iter().filter(|a| a.starts_loop()).count(), 1);
    assert!(s.running);
}
