//! robots.txt handling: the rules of one site, and a per-origin cache that
//! decides when a robots.txt must be fetched and whether a URL may be crawled.
//! Reading robots.txt rules is done by the `texting_robots` crate.
use vstd::prelude::*;
use vstd::string::*;
use vstd::hash_map::StringHashMap;
use crate::web_url::{Url, url_origin_text};

verus! {

/// Whether `texting_robots::Robot::new(agent, txt)` succeeds.
pub uninterp spec fn robots_txt_accepted(agent: Seq<char>, txt: Seq<u8>) -> bool;

/// What `Robot::allowed(url)` answers on the robot that
/// `texting_robots::Robot::new(agent, txt)` builds.
pub uninterp spec fn robots_txt_allows(agent: Seq<char>, txt: Seq<u8>, url: Seq<char>) -> bool;

/// Calls `texting_robots::Robot::new` and reports whether it succeeded.
#[verifier::external_body]
fn texting_robots_accepts(agent: &str, txt: &[u8]) -> (ok: bool)
    ensures
        ok == robots_txt_accepted(agent@, txt@),
{
    ::texting_robots::Robot::new(agent, txt).is_ok()
}

/// Builds the robot with `texting_robots::Robot::new` and, where that
/// succeeds, calls `Robot::allowed(url)` on it.
#[verifier::external_body]
fn texting_robots_allowed(agent: &str, txt: &[u8], url: &str) -> (allowed: Option<bool>)
    ensures
        allowed is Some <==> robots_txt_accepted(agent@, txt@),
        allowed matches Some(b) ==> b == robots_txt_allows(agent@, txt@, url@),
{
    match ::texting_robots::Robot::new(agent, txt) {
        Ok(robot) => Some(robot.allowed(url)),
        Err(_) => None,
    }
}

/// The user agent this crawler announces and looks for in robots.txt.
pub open spec fn crawler_agent_text() -> Seq<char> {
    "web-crawler"@
}

/// The user agent this crawler announces and looks for in robots.txt.
pub fn crawler_agent() -> (a: &'static str)
    ensures
        a@ == crawler_agent_text(),
{
    "web-crawler"
}

/// The robots.txt rules of one site, as they apply to one user agent.
pub struct RobotRules {
    agent: String,
    txt: Vec<u8>,
}

impl RobotRules {
    #[verifier::type_invariant]
    spec fn accepted(self) -> bool {
        robots_txt_accepted(self.agent@, self.txt@)
    }

    /// The user agent the rules are read for.
    pub closed spec fn agent(&self) -> Seq<char> {
        self.agent@
    }

    /// The robots.txt content the rules were read from.
    pub closed spec fn body(&self) -> Seq<u8> {
        self.txt@
    }

    /// Reads the rules of `txt` for `agent`; `None` when the robots.txt
    /// cannot be read.
    pub fn new(agent: &str, txt: &[u8]) -> (r: Option<RobotRules>)
        ensures
            r is Some <==> robots_txt_accepted(agent@, txt@),
            r matches Some(rules) ==> rules.agent() == agent@ && rules.body() == txt@,
    {
        if texting_robots_accepts(agent, txt) {
            Some(RobotRules { agent: agent.to_owned(), txt: vstd::slice::slice_to_vec(txt) })
        } else {
            None
        }
    }

    /// Whether the rules let the agent crawl `url`.
    pub fn allowed(&self, url: &str) -> (r: bool)
        ensures
            r == robots_txt_allows(self.agent(), self.body(), url@),
    {
        proof {
            use_type_invariant(self);
        }
        match texting_robots_allowed(self.agent.as_str(), self.txt.as_slice(), url) {
            Some(allowed) => allowed,
            None => {
                // the type invariant says the rules were accepted
                assert(false);
                true
            },
        }
    }
}

/// What came of fetching a site's robots.txt.
pub enum RobotsFetch {
    /// The request succeeded with this body.
    Body(Vec<u8>),
    /// The server answered with a status that is not a success (such as 404).
    Unsuccessful,
    /// The request failed, or its body could not be read.
    Failed,
}

/// The cached verdict on a site: `None` where it has no usable robots.txt.
pub open spec fn site_rules_allow(entry: Option<RobotRules>, url: Seq<char>) -> bool {
    match entry {
        Some(rules) => robots_txt_allows(rules.agent(), rules.body(), url),
        None => true,
    }
}

/// Whether a cache lets the crawler visit `url`, judged by the rules cached
/// for `origin`: where no rules are cached for it, the URL is allowed.
pub open spec fn origin_allows(
    cache: Map<Seq<char>, Option<RobotRules>>,
    origin: Seq<char>,
    url: Seq<char>,
) -> bool {
    if cache.contains_key(origin) {
        site_rules_allow(cache[origin], url)
    } else {
        true
    }
}

/// Whether a cache lets the crawler visit `url`: a URL whose origin has no
/// cached rules is allowed.
pub open spec fn cache_allows(cache: Map<Seq<char>, Option<RobotRules>>, url: Seq<char>) -> bool {
    origin_allows(cache, url_origin_text(url), url)
}

/// What the cache holds for a site after a robots.txt fetch: the rules the
/// body holds for this crawler, or nothing where the fetch or the reading failed.
pub open spec fn recorded_entry(entry: Option<RobotRules>, fetched: RobotsFetch) -> bool {
    match fetched {
        RobotsFetch::Body(txt) => {
            &&& entry is Some <==> robots_txt_accepted(crawler_agent_text(), txt@)
            &&& entry matches Some(rules) ==> rules.agent() == crawler_agent_text() && rules.body()
                == txt@
        },
        _ => entry is None,
    }
}

/// Caches the robots.txt rules per origin and checks whether a URL is allowed.
pub struct RobotsChecker {
    cache: StringHashMap<Option<RobotRules>>,
}

impl View for RobotsChecker {
    type V = Map<Seq<char>, Option<RobotRules>>;

    closed spec fn view(&self) -> Map<Seq<char>, Option<RobotRules>> {
        self.cache@
    }
}

impl RobotsChecker {
    /// A checker that knows no site yet.
    pub fn new() -> (c: RobotsChecker)
        ensures
            c@ == Map::<Seq<char>, Option<RobotRules>>::empty(),
    {
        RobotsChecker { cache: StringHashMap::new() }
    }

    /// The robots.txt URL to fetch before `url` can be judged: `None` when its
    /// origin has been recorded already, else the origin followed by `/robots.txt`.
    pub fn robots_url_to_fetch(&self, url: &Url) -> (r: Option<String>)
        ensures
            r is None <==> self@.contains_key(url_origin_text(url@)),
            r matches Some(s) ==> s@ == url_origin_text(url@) + "/robots.txt"@,
    {
        self.robots_url_for_origin(url.origin_serialization())
    }

    /// The robots.txt URL of the site `origin`: `None` when that origin has
    /// been recorded already, else the origin followed by `/robots.txt`.
    pub fn robots_url_for_origin(&self, origin: String) -> (r: Option<String>)
        ensures
            r is None <==> self@.contains_key(origin@),
            r matches Some(s) ==> s@ == origin@ + "/robots.txt"@,
    {
        if self.cache.contains_key(origin.as_str()) {
            None
        } else {
            let mut robots_url = origin;
            robots_url.append("/robots.txt");
            Some(robots_url)
        }
    }

    /// Records what fetching the robots.txt of `url`'s origin gave: the rules
    /// it holds for this crawler, or nothing where the fetch or the reading
    /// failed (then every URL of that origin is allowed).
    pub fn record(&mut self, url: &Url, fetched: RobotsFetch)
        ensures
            final(self)@ == old(self)@.insert(
                url_origin_text(url@),
                final(self)@[url_origin_text(url@)],
            ),
            recorded_entry(final(self)@[url_origin_text(url@)], fetched),
    {
        self.record_for_origin(url.origin_serialization(), fetched)
    }

    /// Records what fetching the robots.txt of the site `origin` gave.
    pub fn record_for_origin(&mut self, origin: String, fetched: RobotsFetch)
        ensures
            final(self)@ == old(self)@.insert(origin@, final(self)@[origin@]),
            recorded_entry(final(self)@[origin@], fetched),
    {
        let ghost key = origin@;
        let rules = match fetched {
            RobotsFetch::Body(txt) => RobotRules::new(crawler_agent(), txt.as_slice()),
            RobotsFetch::Unsuccessful => None,
            RobotsFetch::Failed => None,
        };
        self.cache.insert(origin, rules);
        assert(self@ =~= old(self)@.insert(key, self@[key]));
    }

    /// Whether the cached robots.txt of `url`'s origin allows crawling `url`.
    /// Where nothing usable is cached for the origin, the URL is allowed.
    pub fn is_allowed(&self, url: &Url) -> (r: bool)
        ensures
            r == cache_allows(self@, url@),
            self@.contains_key(url_origin_text(url@)) && self@[url_origin_text(url@)] is Some ==> r
                == robots_txt_allows(
                self@[url_origin_text(url@)]->0.agent(),
                self@[url_origin_text(url@)]->0.body(),
                url@,
            ),
    {
        self.is_allowed_in_origin(url.origin_serialization().as_str(), url.as_str())
    }

    /// Whether the rules cached for the site `origin` allow crawling `url`.
    /// Where nothing usable is cached for that origin, the URL is allowed.
    pub fn is_allowed_in_origin(&self, origin: &str, url: &str) -> (r: bool)
        ensures
            r == origin_allows(self@, origin@, url@),
            self@.contains_key(origin@) && self@[origin@] is Some ==> r == robots_txt_allows(
                self@[origin@]->0.agent(),
                self@[origin@]->0.body(),
                url@,
            ),
            !self@.contains_key(origin@) || self@[origin@] is None ==> r,
    {
        match self.cache.get(origin) {
            Some(Some(rules)) => rules.allowed(url),
            _ => true,
        }
    }
}

/// Law: once the robots.txt of an origin has been recorded, no URL of that
/// origin asks for it again, and recording it leaves every other origin as it was.
pub proof fn lemma_recorded_origin_is_cached(
    before: Map<Seq<char>, Option<RobotRules>>,
    after: Map<Seq<char>, Option<RobotRules>>,
    recorded: Seq<char>,
    other: Seq<char>,
)
    requires
        after == before.insert(url_origin_text(recorded), after[url_origin_text(recorded)]),
    ensures
        url_origin_text(other) == url_origin_text(recorded) ==> after.contains_key(
            url_origin_text(other),
        ),
        url_origin_text(other) != url_origin_text(recorded) ==> (after.contains_key(
            url_origin_text(other),
        ) == before.contains_key(url_origin_text(other)) && cache_allows(after, other)
            == cache_allows(before, other)),
{
}

/// Law: a site whose robots.txt could not be fetched or read restricts nothing.
pub proof fn lemma_missing_rules_allow_everything(
    cache: Map<Seq<char>, Option<RobotRules>>,
    url: Seq<char>,
)
    requires
        !cache.contains_key(url_origin_text(url)) || cache[url_origin_text(url)] is None,
    ensures
        cache_allows(cache, url),
{
}

/// Law: where usable rules are cached for an origin, the verdict on any URL
/// is exactly what those rules answer for it, the origin's own root included;
/// for a URL of that origin, the cache-wide verdict is the same.
pub proof fn lemma_cached_rules_decide(
    cache: Map<Seq<char>, Option<RobotRules>>,
    origin: Seq<char>,
    url: Seq<char>,
    rules: RobotRules,
)
    requires
        cache.contains_key(origin),
        cache[origin] == Some(rules),
    ensures
        origin_allows(cache, origin, url) == robots_txt_allows(rules.agent(), rules.body(), url),
        url_origin_text(url) == origin ==> cache_allows(cache, url) == robots_txt_allows(
            rules.agent(),
            rules.body(),
            url,
        ),
{
}

/// Law: what is cached after a robots.txt fetch. A body that the robots.txt
/// reader accepts is kept as the rules for this crawler's agent; a body it
/// rejects, an unsuccessful answer and a failed request all leave the site
/// without rules.
pub proof fn lemma_recorded_entry_law(entry: Option<RobotRules>, fetched: RobotsFetch)
    requires
        recorded_entry(entry, fetched),
    ensures
        fetched matches RobotsFetch::Body(txt) ==> (robots_txt_accepted(crawler_agent_text(), txt@)
            ==> entry is Some && entry->0.agent() == crawler_agent_text() && entry->0.body() == txt@),
        fetched matches RobotsFetch::Body(txt) ==> (!robots_txt_accepted(crawler_agent_text(), txt@)
            ==> entry is None),
        !(fetched is Body) ==> entry is None,
{
}

/// Law: the crawler reads robots.txt rules for the agent `web-crawler`.
pub proof fn lemma_crawler_agent_name()
    ensures
        crawler_agent_text() == seq!['w', 'e', 'b', '-', 'c', 'r', 'a', 'w', 'l', 'e', 'r'],
{
    reveal_strlit("web-crawler");
    assert(crawler_agent_text() =~= seq!['w', 'e', 'b', '-', 'c', 'r', 'a', 'w', 'l', 'e', 'r']);
}

/// Law: a site without usable cached rules (never recorded, or recorded
/// without rules) restricts no URL.
pub proof fn lemma_no_rules_allow(
    cache: Map<Seq<char>, Option<RobotRules>>,
    origin: Seq<char>,
    url: Seq<char>,
)
    requires
        !cache.contains_key(origin) || cache[origin] is None,
    ensures
        origin_allows(cache, origin, url),
{
}

} // verus!
