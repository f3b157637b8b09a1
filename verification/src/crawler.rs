//! The crawler's shared state and the decisions of its crawl loop and of its
//! control requests. The loop itself (locking, fetching, writing records) is
//! driven from outside: it asks `next_step` what to do, does it, and reports
//! back with `record_fetch_failure` or `record_page`.
use vstd::prelude::*;
use vstd::string::*;
use crate::frontier::{Frontier, FrontierView, lemma_popped_not_requeued, lemma_pushed_all_wf,
    lemma_pushed_wf};
use crate::parser::{ParseResult, urls_view, text_option_view};
use crate::storage::{CrawlRecord, Storage};
use crate::text::{append_decimal, decimal_text};
use crate::web_url::{Url, url_parse_outcome};

verus! {

/// Why the crawl loop ends.
#[derive(Debug, Clone, Copy, PartialEq, Eq)]
pub enum StopReason {
    /// The crawler was stopped from outside.
    NotRunning,
    /// As many pages as allowed have been crawled.
    PageLimitReached,
    /// No URL is left to crawl.
    FrontierEmpty,
}

/// What the crawl loop does next.
pub enum CrawlStep {
    /// Fetch and process this URL.
    Fetch(Url),
    /// Leave the loop.
    Stop(StopReason),
}

/// The abstract form of a `CrawlStep`.
pub enum StepView {
    Fetch(Seq<char>),
    Stop(StopReason),
}

/// The answer to a start or stop request.
#[derive(Debug, Clone, Copy, PartialEq, Eq)]
pub enum ControlOutcome {
    /// The crawl loop was started.
    Started,
    /// A start was asked while the crawler runs.
    AlreadyRunning,
    /// A start was asked while no URL is pending.
    NothingToCrawl,
    /// The crawler will halt after the page it is on.
    StopRequested,
    /// A stop was asked while the crawler does not run.
    NotRunning,
}

/// The HTTP status that answers a control request.
pub open spec fn control_status(o: ControlOutcome) -> u16 {
    match o {
        ControlOutcome::Started => 200,
        ControlOutcome::StopRequested => 200,
        ControlOutcome::AlreadyRunning => 409,
        ControlOutcome::NotRunning => 409,
        ControlOutcome::NothingToCrawl => 400,
    }
}

/// The message that answers a control request.
pub open spec fn control_text(o: ControlOutcome) -> Seq<char> {
    match o {
        ControlOutcome::Started => "crawl started"@,
        ControlOutcome::StopRequested => "stop signal sent — crawler will halt after current page"@,
        ControlOutcome::AlreadyRunning => "crawler is already running"@,
        ControlOutcome::NotRunning => "crawler is not running"@,
        ControlOutcome::NothingToCrawl => "frontier is empty — seed URLs first via POST /seed"@,
    }
}

impl ControlOutcome {
    /// Whether the crawl loop is to be launched.
    pub fn starts_loop(&self) -> (r: bool)
        ensures
            r == (*self == ControlOutcome::Started),
    {
        match self {
            ControlOutcome::Started => true,
            _ => false,
        }
    }

    /// The HTTP status that answers the request.
    pub fn status_code(&self) -> (r: u16)
        ensures
            r == control_status(*self),
    {
        match self {
            ControlOutcome::Started => 200,
            ControlOutcome::StopRequested => 200,
            ControlOutcome::AlreadyRunning => 409,
            ControlOutcome::NotRunning => 409,
            ControlOutcome::NothingToCrawl => 400,
        }
    }

    /// The message that answers the request.
    pub fn message(&self) -> (r: String)
        ensures
            r@ == control_text(*self),
    {
        match self {
            ControlOutcome::Started => String::from_str("crawl started"),
            ControlOutcome::StopRequested => String::from_str(
                "stop signal sent — crawler will halt after current page",
            ),
            ControlOutcome::AlreadyRunning => String::from_str("crawler is already running"),
            ControlOutcome::NotRunning => String::from_str("crawler is not running"),
            ControlOutcome::NothingToCrawl => String::from_str(
                "frontier is empty — seed URLs first via POST /seed",
            ),
        }
    }
}

/// The answer to a seed request.
#[derive(Debug, Clone, Copy, PartialEq, Eq)]
pub struct SeedSummary {
    pub added: bool,
    pub pending: usize,
    pub total_seen: usize,
}

/// A snapshot of the crawler, as the status request reports it.
#[derive(Debug, Clone, PartialEq, Eq)]
pub struct StatusReport {
    pub running: bool,
    pub pages_crawled: usize,
    pub max_pages: usize,
    pub pending_urls: usize,
    pub total_seen: usize,
    pub output_file: String,
}

/// What processing one fetched page produced.
pub struct PageOutcome {
    /// The record to append to the output file.
    pub record: CrawlRecord,
    /// How many of the page's links were new to the frontier.
    pub new_links: usize,
}

/// The abstract state of the crawler.
#[verifier::ext_equal]
pub struct CrawlView {
    pub frontier: FrontierView,
    pub output: Seq<char>,
    pub pages_crawled: nat,
    pub max_pages: nat,
    pub running: bool,
    pub run: u64,
}

/// The number of the run that a successful start begins after run `r`.
pub open spec fn next_run(r: u64) -> u64 {
    if r == u64::MAX {
        0
    } else {
        (r + 1) as u64
    }
}

impl CrawlView {
    /// The decision at the top of the crawl loop that belongs to run `run`,
    /// and the state after it. A loop of an earlier run is told to stop and
    /// changes nothing.
    pub open spec fn next(self, run: u64) -> (CrawlView, StepView) {
        if !self.running || run != self.run {
            (self, StepView::Stop(StopReason::NotRunning))
        } else if self.pages_crawled >= self.max_pages {
            (CrawlView { running: false, ..self }, StepView::Stop(StopReason::PageLimitReached))
        } else if self.frontier.queue.len() == 0 {
            (CrawlView { running: false, ..self }, StepView::Stop(StopReason::FrontierEmpty))
        } else {
            (
                CrawlView { frontier: self.frontier.popped(), ..self },
                StepView::Fetch(self.frontier.queue[0]),
            )
        }
    }

    /// The state after a page could not be fetched: it still counts as crawled.
    pub open spec fn after_failure(self) -> CrawlView {
        CrawlView { pages_crawled: self.pages_crawled + 1, ..self }
    }

    /// The state after a page was fetched and its links found.
    pub open spec fn after_page(self, links: Seq<Seq<char>>) -> CrawlView {
        CrawlView {
            pages_crawled: self.pages_crawled + 1,
            frontier: self.frontier.pushed_all(links),
            ..self
        }
    }

    /// The state after a seed URL was parsed to `u`.
    pub open spec fn after_seed(self, u: Seq<char>) -> CrawlView {
        CrawlView { frontier: self.frontier.pushed(u), ..self }
    }

    /// The answer to a start request, and the state after it.
    pub open spec fn start(self) -> (CrawlView, ControlOutcome) {
        if self.running {
            (self, ControlOutcome::AlreadyRunning)
        } else if self.frontier.queue.len() == 0 {
            (self, ControlOutcome::NothingToCrawl)
        } else {
            (CrawlView { running: true, run: next_run(self.run), ..self }, ControlOutcome::Started)
        }
    }

    /// The answer to a stop request, and the state after it.
    pub open spec fn stop(self) -> (CrawlView, ControlOutcome) {
        if !self.running {
            (self, ControlOutcome::NotRunning)
        } else {
            (CrawlView { running: false, ..self }, ControlOutcome::StopRequested)
        }
    }
}

/// The text of a timestamp: the seconds since the Unix epoch, then `s`.
pub open spec fn timestamp_text(secs: u64) -> Seq<char> {
    decimal_text(secs as nat) + "s"@
}

/// Shared crawler state, protected by a lock where it is shared.
pub struct CrawlerState {
    pub frontier: Frontier,
    pub storage: Storage,
    pub pages_crawled: usize,
    pub max_pages: usize,
    pub running: bool,
    /// The number of the current crawl run; each successful start begins a
    /// new one, and only the loop of the current run is handed URLs.
    pub run: u64,
}

impl View for CrawlerState {
    type V = CrawlView;

    open spec fn view(&self) -> CrawlView {
        CrawlView {
            frontier: self.frontier@,
            output: self.storage@,
            pages_crawled: self.pages_crawled as nat,
            max_pages: self.max_pages as nat,
            running: self.running,
            run: self.run,
        }
    }
}

impl CrawlerState {
    /// A crawler that writes to `output_path`, crawls at most `max_pages`
    /// pages, knows no URL yet and is not running.
    pub fn new(output_path: &str, max_pages: usize) -> (s: CrawlerState)
        ensures
            s@.frontier == FrontierView::empty(),
            s@.frontier.wf(),
            s@.output == output_path@,
            s.pages_crawled == 0,
            s.max_pages == max_pages,
            !s.running,
            s.run == 0,
    {
        CrawlerState {
            frontier: Frontier::new(),
            storage: Storage::new(output_path),
            pages_crawled: 0,
            max_pages,
            running: false,
            run: 0,
        }
    }

    /// Decides what the crawl loop of run `run` does next: stop (when the
    /// crawler was switched off or restarted since that run began, and,
    /// switching the crawler off, when the page limit is reached or no URL is
    /// left), or fetch the next URL, which leaves the frontier.
    pub fn next_step(&mut self, run: u64) -> (step: CrawlStep)
        ensures
            final(self)@ == old(self)@.next(run).0,
            match step {
                CrawlStep::Fetch(u) => old(self)@.next(run).1 == StepView::Fetch(u@),
                CrawlStep::Stop(r) => old(self)@.next(run).1 == StepView::Stop(r),
            },
    {
        if !self.running || run != self.run {
            return CrawlStep::Stop(StopReason::NotRunning);
        }
        if self.pages_crawled >= self.max_pages {
            self.running = false;
            return CrawlStep::Stop(StopReason::PageLimitReached);
        }
        match self.frontier.pop() {
            Some(url) => CrawlStep::Fetch(url),
            None => {
                self.running = false;
                CrawlStep::Stop(StopReason::FrontierEmpty)
            },
        }
    }

    /// Counts a page that could not be fetched.
    pub fn record_fetch_failure(&mut self)
        requires
            old(self).pages_crawled < usize::MAX,
        ensures
            final(self)@ == old(self)@.after_failure(),
            final(self).pages_crawled == old(self).pages_crawled + 1,
            final(self).running == old(self).running,
            final(self).run == old(self).run,
            final(self).max_pages == old(self).max_pages,
            final(self)@.frontier == old(self)@.frontier,
    {
        self.pages_crawled = self.pages_crawled + 1;
    }

    /// Counts a fetched page, builds its record, and offers its links to the
    /// frontier in the order they were found.
    pub fn record_page(&mut self, url: &Url, result: ParseResult, timestamp: String) -> (out:
        PageOutcome)
        requires
            old(self).pages_crawled < usize::MAX,
        ensures
            final(self)@ == old(self)@.after_page(urls_view(result.links@)),
            final(self).pages_crawled == old(self).pages_crawled + 1,
            final(self).running == old(self).running,
            final(self).run == old(self).run,
            final(self).max_pages == old(self).max_pages,
            final(self)@.output == old(self)@.output,
            final(self)@.frontier.seen == old(self)@.frontier.seen + urls_view(result.links@).to_set(),
            out.record.url@ == url@,
            text_option_view(out.record.title) == text_option_view(result.title),
            out.record.links_found == result.links@.len(),
            out.record.timestamp@ == timestamp@,
            out.new_links == final(self)@.frontier.seen.len() - old(self)@.frontier.seen.len(),
    {
        self.pages_crawled = self.pages_crawled + 1;
        let links = result.links;
        let n = links.len();
        let record = CrawlRecord {
            url: url.as_str().to_owned(),
            title: result.title,
            links_found: n,
            timestamp,
        };
        proof {
            use_type_invariant(&self.frontier);
        }
        let ghost start = self.frontier@;
        proof {
            lemma_pushed_all_wf(start, urls_view(links@));
        }
        let ghost all = urls_view(links@);
        let mut added: usize = 0;
        for link in it: links.into_iter()
            invariant
                start.wf(),
                all == urls_view(it.seq()),
                it.seq().len() == n,
                self.frontier@ == start.pushed_all(all.take(it.index() as int)),
                self.frontier@.wf(),
                added == self.frontier@.seen.len() - start.seen.len(),
                added <= it.index(),
                self.pages_crawled == old(self).pages_crawled + 1,
                self.storage == old(self).storage,
                self.max_pages == old(self).max_pages,
                self.running == old(self).running,
                self.run == old(self).run,
        {
            proof {
                assert(all.take(it.index() + 1).drop_last() =~= all.take(it.index() as int));
                assert(all.take(it.index() + 1).last() == link@);
                lemma_pushed_wf(self.frontier@, link@);
            }
            if self.frontier.push(link) {
                added = added + 1;
            }
        }
        proof {
            assert(all.take(all.len() as int) =~= all);
        }
        PageOutcome { record, new_links: added }
    }

    /// Seeds the frontier with a URL given as text. A text that does not parse
    /// is refused with `invalid URL: ` and the parser's message.
    pub fn seed(&mut self, raw_url: &str) -> (r: Result<SeedSummary, String>)
        ensures
            match url_parse_outcome(raw_url@) {
                Ok(u) => {
                    &&& final(self)@ == old(self)@.after_seed(u)
                    &&& r matches Ok(summary) && summary.added == !old(self)@.frontier.seen.contains(u)
                        && summary.pending == final(self)@.frontier.queue.len()
                        && summary.total_seen == final(self)@.frontier.seen.len()
                },
                Err(e) => {
                    &&& final(self)@ == old(self)@
                    &&& r matches Err(msg) && msg@ == "invalid URL: "@ + e
                },
            },
    {
        self.seed_parsed(Url::parse(raw_url))
    }

    /// Seeds the frontier with the outcome of parsing a URL: a parsed URL is
    /// offered to the frontier, a parse error is refused with `invalid URL: `
    /// and its message.
    pub fn seed_parsed(&mut self, parsed: Result<Url, String>) -> (r: Result<SeedSummary, String>)
        ensures
            match parsed {
                Ok(u) => {
                    &&& final(self)@ == old(self)@.after_seed(u@)
                    &&& r matches Ok(summary) && summary.added == !old(self)@.frontier.seen.contains(u@)
                        && summary.pending == final(self)@.frontier.queue.len()
                        && summary.total_seen == final(self)@.frontier.seen.len()
                },
                Err(e) => {
                    &&& final(self)@ == old(self)@
                    &&& r matches Err(msg) && msg@ == "invalid URL: "@ + e@
                },
            },
    {
        match parsed {
            Ok(url) => {
                let added = self.frontier.push(url);
                Ok(
                    SeedSummary {
                        added,
                        pending: self.frontier.pending(),
                        total_seen: self.frontier.total_seen(),
                    },
                )
            },
            Err(e) => {
                let mut msg = String::from_str("invalid URL: ");
                msg.append(e.as_str());
                Err(msg)
            },
        }
    }

    /// The crawler's current status.
    pub fn status(&self) -> (r: StatusReport)
        ensures
            r.running == self.running,
            r.pages_crawled == self.pages_crawled,
            r.max_pages == self.max_pages,
            r.pending_urls == self@.frontier.queue.len(),
            r.total_seen == self@.frontier.seen.len(),
            r.output_file@ == self@.output,
    {
        StatusReport {
            running: self.running,
            pages_crawled: self.pages_crawled,
            max_pages: self.max_pages,
            pending_urls: self.frontier.pending(),
            total_seen: self.frontier.total_seen(),
            output_file: self.storage.path().to_owned(),
        }
    }

    /// Handles a start request: refused while running or while no URL is
    /// pending, else the crawler is switched on and a new run begins, so that
    /// a loop of an earlier run that is still on a page stops after it.
    pub fn start(&mut self) -> (r: ControlOutcome)
        ensures
            (final(self)@, r) == old(self)@.start(),
            old(self).running ==> r == ControlOutcome::AlreadyRunning && final(self)@ == old(self)@,
            !old(self).running && old(self)@.frontier.queue.len() == 0 ==> r
                == ControlOutcome::NothingToCrawl && final(self)@ == old(self)@,
            !old(self).running && old(self)@.frontier.queue.len() > 0 ==> r == ControlOutcome::Started
                && final(self).running && final(self).run != old(self).run,
    {
        if self.running {
            return ControlOutcome::AlreadyRunning;
        }
        if self.frontier.pending() == 0 {
            return ControlOutcome::NothingToCrawl;
        }
        self.running = true;
        self.run = if self.run == u64::MAX {
            0
        } else {
            self.run + 1
        };
        ControlOutcome::Started
    }

    /// Handles a stop request: refused when not running, else the crawler is
    /// switched off and the loop ends before its next page.
    pub fn stop(&mut self) -> (r: ControlOutcome)
        ensures
            (final(self)@, r) == old(self)@.stop(),
            old(self).running ==> r == ControlOutcome::StopRequested && !final(self).running
                && final(self)@ == (CrawlView { running: false, ..old(self)@ }),
            !old(self).running ==> r == ControlOutcome::NotRunning && final(self)@ == old(self)@,
    {
        if !self.running {
            return ControlOutcome::NotRunning;
        }
        self.running = false;
        ControlOutcome::StopRequested
    }
}

/// The text of a timestamp taken `secs` seconds after the Unix epoch.
pub fn timestamp_label(secs: u64) -> (r: String)
    ensures
        r@ == timestamp_text(secs),
{
    let mut r = String::new();
    append_decimal(&mut r, secs);
    r.append("s");
    assert(r@ =~= timestamp_text(secs));
    r
}

/// Reads the system clock: whole seconds since the Unix epoch, or `None`
/// when the clock is set before it. Nothing is promised of the value.
#[verifier::external_body]
fn clock_unix_seconds() -> Option<u64> {
    match std::time::SystemTime::now().duration_since(std::time::UNIX_EPOCH) {
        Ok(elapsed) => Some(elapsed.as_secs()),
        Err(_) => None,
    }
}

/// The timestamp text of a clock reading: the seconds since the Unix epoch,
/// counting a clock set before the epoch as 0 seconds.
pub open spec fn clock_timestamp_text(reading: Option<u64>) -> Seq<char> {
    match reading {
        Some(secs) => timestamp_text(secs),
        None => timestamp_text(0),
    }
}

/// The timestamp text of a clock reading; a clock set before the Unix epoch
/// (`None`) gives `0s`.
pub fn timestamp_from_clock(reading: Option<u64>) -> (r: String)
    ensures
        r@ == clock_timestamp_text(reading),
{
    match reading {
        Some(secs) => timestamp_label(secs),
        None => timestamp_label(0),
    }
}

/// The current time as a timestamp text, such as `1700000000s`; `0s` when the
/// system clock is set before the Unix epoch.
pub fn now_unix() -> (r: String)
    ensures
        exists|reading: Option<u64>| r@ == clock_timestamp_text(reading),
{
    let reading = clock_unix_seconds();
    let r = timestamp_from_clock(reading);
    assert(r@ == clock_timestamp_text(reading));
    r
}

/// Law: of any number of start requests made one after another on a stopped
/// crawler with URLs pending, exactly the first starts a run; every later one
/// is refused as already running and changes nothing.
pub proof fn lemma_only_first_start_succeeds(v: CrawlView, n: nat)
    requires
        !v.running,
        v.frontier.queue.len() > 0,
        n >= 1,
    ensures
        starts(v, n).1.len() == n,
        starts(v, n).1[0] == ControlOutcome::Started,
        forall|i: int| 1 <= i < n ==> #[trigger] starts(v, n).1[i] == ControlOutcome::AlreadyRunning,
        starts(v, n).0 == v.start().0,
    decreases n,
{
    if n == 1 {
        assert(starts(v, 0) == (v, Seq::<ControlOutcome>::empty()));
        assert(starts(v, 1).1 =~= seq![ControlOutcome::Started]);
    } else {
        lemma_only_first_start_succeeds(v, (n - 1) as nat);
        let prev = starts(v, (n - 1) as nat);
        assert(prev.0.running);
        assert(prev.0.start().0 == prev.0);
        assert forall|i: int| 1 <= i < n implies #[trigger] starts(v, n).1[i]
            == ControlOutcome::AlreadyRunning by {
            if i < n - 1 {
                assert(starts(v, n).1[i] == prev.1[i]);
            }
        }
    }
}

/// The state after `n` start requests made one after another, and their answers in order.
pub open spec fn starts(v: CrawlView, n: nat) -> (CrawlView, Seq<ControlOutcome>)
    decreases n,
{
    if n == 0 {
        (v, Seq::empty())
    } else {
        let prev = starts(v, (n - 1) as nat);
        (prev.0.start().0, prev.1.push(prev.0.start().1))
    }
}

/// Law: the crawl loop never fetches past the page limit. A step that fetches
/// happens only below the limit, and the page it fetches is counted once,
/// fetched or not, so the count stays within the limit.
pub proof fn lemma_page_budget(v: CrawlView, run: u64, links: Seq<Seq<char>>)
    requires
        v.pages_crawled <= v.max_pages,
    ensures
        v.next(run).1 is Fetch ==> v.pages_crawled < v.max_pages,
        v.next(run).1 is Fetch ==> v.next(run).0.after_failure().pages_crawled <= v.max_pages,
        v.next(run).1 is Fetch ==> v.next(run).0.after_page(links).pages_crawled <= v.max_pages,
        v.pages_crawled == v.max_pages ==> !(v.next(run).1 is Fetch),
{
}

/// Law: a URL handed to the loop is never handed out again: it is no longer
/// pending, and offering it again (as a link of a later page) is refused.
pub proof fn lemma_fetched_url_not_refetched(v: CrawlView, run: u64)
    requires
        v.frontier.wf(),
        v.next(run).1 is Fetch,
    ensures
        ({
            let u = v.next(run).1->Fetch_0;
            &&& !v.next(run).0.frontier.queue.contains(u)
            &&& v.next(run).0.frontier.pushed(u) == v.next(run).0.frontier
            &&& v.next(run).0.frontier.seen == v.frontier.seen
        }),
{
    lemma_popped_not_requeued(v.frontier);
}

/// Law: once a loop is told to stop, it stays stopped: every further step of
/// the same run stops without changing anything, and a stop for the page
/// limit or an empty frontier switches the crawler off.
pub proof fn lemma_stop_is_final(v: CrawlView, run: u64)
    requires
        v.next(run).1 is Stop,
    ensures
        v.next(run).0.next(run) == (v.next(run).0, StepView::Stop(StopReason::NotRunning)),
        v.next(run).1 != StepView::Stop(StopReason::NotRunning) ==> !v.next(run).0.running,
{
}

/// Law: only a successful start begins a new run. Counting pages, recording
/// links, seeding, stopping and stepping keep the run number, and a loop
/// whose run is not the current one is told to stop and changes nothing.
pub proof fn lemma_earlier_run_stops(v: CrawlView, run: u64, links: Seq<Seq<char>>, u: Seq<char>)
    ensures
        v.run != run ==> v.next(run) == (v, StepView::Stop(StopReason::NotRunning)),
        v.after_failure().run == v.run,
        v.after_page(links).run == v.run,
        v.after_seed(u).run == v.run,
        v.stop().0.run == v.run,
        v.next(run).0.run == v.run,
        v.start().1 == ControlOutcome::Started ==> v.start().0.run != v.run,
        v.start().1 != ControlOutcome::Started ==> v.start().0.run == v.run,
{
}

/// Law: a stop followed by a restart halts the loop of the earlier run after
/// its current page. Whether that page is then recorded as crawled or as
/// failed, the earlier loop's next step is a stop that changes nothing, while
/// the crawler keeps running for the new run.
pub proof fn lemma_restart_halts_earlier_loop(v: CrawlView, links: Seq<Seq<char>>)
    requires
        v.running,
        v.stop().0.start().1 == ControlOutcome::Started,
    ensures
        ({
            let w = v.stop().0.start().0;
            &&& w.running
            &&& w.run != v.run
            &&& w.after_failure().next(v.run) == (w.after_failure(), StepView::Stop(
                StopReason::NotRunning,
            ))
            &&& w.after_page(links).next(v.run) == (w.after_page(links), StepView::Stop(
                StopReason::NotRunning,
            ))
        }),
{
}

/// Law: a successful start followed by a stop leaves the crawler switched
/// off, as it was, with a new run number; a second stop is refused and
/// changes nothing.
pub proof fn lemma_start_then_stop(v: CrawlView)
    requires
        v.start().1 == ControlOutcome::Started,
    ensures
        !v.running,
        v.start().0.running,
        v.start().0.stop().1 == ControlOutcome::StopRequested,
        v.start().0.stop().0 == (CrawlView { run: next_run(v.run), ..v }),
        v.start().0.stop().0.stop() == (v.start().0.stop().0, ControlOutcome::NotRunning),
{
    assert(v.start().0.stop().0 =~= (CrawlView { run: next_run(v.run), ..v }));
}

/// Law: processing pages keeps the frontier well formed, and every link of a
/// processed page has been seen afterwards.
pub proof fn lemma_page_links_seen(v: CrawlView, links: Seq<Seq<char>>)
    requires
        v.frontier.wf(),
    ensures
        v.after_page(links).frontier.wf(),
        forall|k: int| 0 <= k < links.len() ==> v.after_page(links).frontier.seen.contains(
            #[trigger] links[k],
        ),
{
    lemma_pushed_all_wf(v.frontier, links);
    assert forall|k: int| 0 <= k < links.len() implies v.after_page(links).frontier.seen.contains(
        #[trigger] links[k],
    ) by {
        assert(links.to_set().contains(links[k]));
    }
}

/// Law: what one step of the crawl loop of run `run` does. It fetches
/// exactly when the crawler runs that run, the page limit is not reached and a
/// URL is pending; it then hands out the front URL, which leaves the queue,
/// and changes nothing else. Otherwise it stops: a loop of another run, or of
/// a stopped crawler, without changing anything; at the page limit or with
/// nothing pending, switching the crawler off and changing nothing else.
pub proof fn lemma_step_law(v: CrawlView, run: u64)
    ensures
        ({
            let (w, step) = v.next(run);
            let current = v.running && run == v.run;
            &&& (step is Fetch <==> current && v.pages_crawled < v.max_pages
                && v.frontier.queue.len() > 0)
            &&& step is Fetch ==> step->Fetch_0 == v.frontier.queue[0] && w.frontier.queue
                == v.frontier.queue.subrange(1, v.frontier.queue.len() as int) && w.frontier.seen
                == v.frontier.seen && w.running && w.pages_crawled == v.pages_crawled
                && w.max_pages == v.max_pages && w.run == v.run && w.output == v.output
            &&& !current ==> w == v && step == StepView::Stop(StopReason::NotRunning)
            &&& current && v.pages_crawled >= v.max_pages ==> step == StepView::Stop(
                StopReason::PageLimitReached,
            ) && w == (CrawlView { running: false, ..v })
            &&& current && v.pages_crawled < v.max_pages && v.frontier.queue.len() == 0 ==> step
                == StepView::Stop(StopReason::FrontierEmpty) && w == (CrawlView { running: false, ..v })
        }),
{
}

/// Law: recording a crawled page counts it and offers its links to the
/// frontier; it never switches the crawler on or off, and keeps the page
/// limit, the run and the output file, whatever the links, none included.
/// A page that could not be fetched is only counted.
pub proof fn lemma_recording_changes_only_count_and_frontier(v: CrawlView, links: Seq<Seq<char>>)
    ensures
        v.after_page(links).running == v.running,
        v.after_page(links).run == v.run,
        v.after_page(links).max_pages == v.max_pages,
        v.after_page(links).output == v.output,
        v.after_page(links).pages_crawled == v.pages_crawled + 1,
        v.after_page(links).frontier == v.frontier.pushed_all(links),
        links.len() == 0 ==> v.after_page(links) == (CrawlView {
            pages_crawled: v.pages_crawled + 1,
            ..v
        }),
        v.after_failure() == (CrawlView { pages_crawled: v.pages_crawled + 1, ..v }),
{
    if links.len() == 0 {
        assert(v.frontier.pushed_all(links) == v.frontier);
    }
}

/// Law: recording a page never stops the loop early. After a fetching step
/// and the recording of its page, the next step of the same run fetches again
/// whenever the limit is not reached and a URL is pending.
pub proof fn lemma_recording_keeps_crawling(v: CrawlView, run: u64, links: Seq<Seq<char>>)
    requires
        v.next(run).1 is Fetch,
    ensures
        ({
            let w = v.next(run).0.after_page(links);
            w.running && w.run == run && (w.pages_crawled < w.max_pages && w.frontier.queue.len()
                > 0 ==> w.next(run).1 is Fetch)
        }),
        ({
            let w = v.next(run).0.after_failure();
            w.running && w.run == run && (w.pages_crawled < w.max_pages && w.frontier.queue.len()
                > 0 ==> w.next(run).1 is Fetch)
        }),
{
}

/// Law: a stop request on a running crawler always succeeds, whatever is
/// pending or in progress: it answers `StopRequested` and switches the
/// crawler off, changing nothing else. It is refused as `NotRunning` exactly
/// when the crawler is already off, and then changes nothing.
pub proof fn lemma_stop_law(v: CrawlView)
    ensures
        v.running ==> v.stop() == (CrawlView { running: false, ..v }, ControlOutcome::StopRequested),
        v.stop().1 == ControlOutcome::NotRunning <==> !v.running,
        !v.running ==> v.stop().0 == v,
        !v.stop().0.running,
{
}

/// Law: a start request succeeds exactly when the crawler is off and a URL is
/// pending; it then switches the crawler on under a new run number and
/// changes nothing else. Otherwise it changes nothing.
pub proof fn lemma_start_law(v: CrawlView)
    ensures
        v.start().1 == ControlOutcome::Started <==> !v.running && v.frontier.queue.len() > 0,
        v.start().1 == ControlOutcome::Started ==> v.start().0 == (CrawlView {
            running: true,
            run: next_run(v.run),
            ..v
        }) && next_run(v.run) != v.run,
        v.start().1 == ControlOutcome::AlreadyRunning <==> v.running,
        v.start().1 == ControlOutcome::NothingToCrawl <==> !v.running && v.frontier.queue.len() == 0,
        v.start().1 != ControlOutcome::Started ==> v.start().0 == v,
{
}

/// Law: seeding a parsed URL only offers it to the frontier.
pub proof fn lemma_seed_law(v: CrawlView, u: Seq<char>)
    ensures
        v.after_seed(u) == (CrawlView { frontier: v.frontier.pushed(u), ..v }),
        v.after_seed(u).frontier.seen == v.frontier.seen.insert(u),
        v.frontier.seen.contains(u) ==> v.after_seed(u) == v,
{
    if v.frontier.seen.contains(u) {
        assert(v.frontier.seen.insert(u) =~= v.frontier.seen);
    }
}

/// Law: the answers to control requests. Success is HTTP 200, a request that
/// conflicts with the crawler's state is 409, and a start with nothing to
/// crawl is 400.
pub proof fn lemma_control_answers()
    ensures
        control_status(ControlOutcome::Started) == 200,
        control_status(ControlOutcome::StopRequested) == 200,
        control_status(ControlOutcome::AlreadyRunning) == 409,
        control_status(ControlOutcome::NotRunning) == 409,
        control_status(ControlOutcome::NothingToCrawl) == 400,
        forall|o: ControlOutcome| #[trigger] control_status(o) == 200 <==> (o == ControlOutcome::Started
            || o == ControlOutcome::StopRequested),
        control_text(ControlOutcome::Started) == "crawl started"@,
        control_text(ControlOutcome::StopRequested)
            == "stop signal sent — crawler will halt after current page"@,
        control_text(ControlOutcome::AlreadyRunning) == "crawler is already running"@,
        control_text(ControlOutcome::NotRunning) == "crawler is not running"@,
        control_text(ControlOutcome::NothingToCrawl)
            == "frontier is empty — seed URLs first via POST /seed"@,
{
}

/// Law: a clock reading before the Unix epoch gives the text `0s`, and a
/// reading of `secs` seconds gives their decimal notation followed by `s`.
pub proof fn lemma_clock_timestamp(secs: u64)
    ensures
        clock_timestamp_text(None) == seq!['0', 's'],
        clock_timestamp_text(Some(secs)) == decimal_text(secs as nat).push('s'),
{
    reveal_strlit("s");
    assert(decimal_text(0) =~= seq!['0']);
    assert(decimal_text(0) + "s"@ =~= seq!['0', 's']);
    assert(decimal_text(secs as nat) + "s"@ =~= decimal_text(secs as nat).push('s'));
}

} // verus!
