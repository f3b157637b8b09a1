//! Extracting the title and the outgoing links of an HTML page. The HTML is
//! parsed and queried by the `scraper` crate; what is kept of its answers is
//! decided here.
use vstd::prelude::*;
use vstd::string::*;
use crate::text::{trim, trimmed_text};
use crate::web_url::{Url, url_join_outcome, is_web_url, url_option_view, starts_with_http_scheme,
    lemma_web_url_is_http_scheme};

verus! {

/// The text of a string option, as a character sequence.
pub open spec fn text_option_view(o: Option<String>) -> Option<Seq<char>> {
    match o {
        Some(s) => Some(s@),
        None => None,
    }
}

/// What `scraper` gives for `selector` in the document `html`: `None` when
/// `Selector::parse(selector)` fails, else the text of the first element that
/// `select` yields (`Html::parse_document`, then `select(..).next()` and the
/// concatenation of `ElementRef::text`), `None` inside when nothing matches.
/// `select` walks the nodes in the order the HTML parser created them.
pub uninterp spec fn html_first_text_outcome(html: Seq<char>, selector: Seq<char>) -> Option<Option<Seq<char>>>;

/// What `scraper` gives for `selector` and `attr` in the document `html`:
/// `None` when `Selector::parse(selector)` fails, else the attribute `attr` of
/// each element that matches, in the order `select` yields them, which is the
/// order the HTML parser created the nodes (`None` for an element without it).
pub uninterp spec fn html_attribute_outcome(html: Seq<char>, selector: Seq<char>, attr: Seq<char>) -> Option<Seq<Option<Seq<char>>>>;

/// The title text a page yields: nothing when the selector does not parse or
/// no element matches.
pub open spec fn html_first_text(html: Seq<char>, selector: Seq<char>) -> Option<Seq<char>> {
    match html_first_text_outcome(html, selector) {
        Some(found) => found,
        None => None,
    }
}

/// The attribute values a page yields: none when the selector does not parse.
pub open spec fn html_attribute_values(html: Seq<char>, selector: Seq<char>, attr: Seq<char>) -> Seq<Option<Seq<char>>> {
    match html_attribute_outcome(html, selector, attr) {
        Some(values) => values,
        None => Seq::empty(),
    }
}

/// Parses `html` with `scraper::Html::parse_document` and `selector` with
/// `scraper::Selector::parse`; where the selector parses, returns the text of
/// the first element that `select` yields. The document, the selector and the
/// element borrowed from the document live only inside this call; what comes
/// out is plain text. The contract claims only that the answer is a function
/// of `html` and `selector`.
#[verifier::external_body]
fn scraper_first_text(html: &str, selector: &str) -> (r: Option<Option<String>>)
    ensures
        match r {
            Some(found) => html_first_text_outcome(html@, selector@) == Some(text_option_view(found)),
            None => html_first_text_outcome(html@, selector@) is None,
        },
{
    let document = ::scraper::Html::parse_document(html);
    match ::scraper::Selector::parse(selector) {
        Ok(sel) => match document.select(&sel).next() {
            Some(el) => Some(Some(el.text().collect::<String>())),
            None => Some(None),
        },
        Err(_) => None,
    }
}

/// Parses `html` with `scraper::Html::parse_document` and `selector` with
/// `scraper::Selector::parse`; where the selector parses, returns for each
/// element it matches the attribute `attr`, one entry per element in the
/// order `select` yields them. The contract claims only that the answer is a
/// function of `html`, `selector` and `attr`.
#[verifier::external_body]
fn scraper_attribute_values(html: &str, selector: &str, attr: &str) -> (r: Option<Vec<Option<String>>>)
    ensures
        match r {
            Some(values) => html_attribute_outcome(html@, selector@, attr@) == Some(
                values@.map_values(|o: Option<String>| text_option_view(o)),
            ),
            None => html_attribute_outcome(html@, selector@, attr@) is None,
        },
{
    let document = ::scraper::Html::parse_document(html);
    match ::scraper::Selector::parse(selector) {
        Ok(sel) => Some(document.select(&sel).map(|el| el.value().attr(attr).map(|v| v.to_string())).collect()),
        Err(_) => None,
    }
}

/// Parsed result from an HTML page.
pub struct ParseResult {
    /// The page title, if found.
    pub title: Option<String>,
    /// All discovered absolute http/https URLs from `<a href="...">` tags.
    pub links: Vec<Url>,
}

/// The serializations of a list of URLs.
pub open spec fn urls_view(us: Seq<Url>) -> Seq<Seq<char>> {
    us.map_values(|u: Url| u@)
}

/// A joined URL is kept only when its scheme is http or https.
pub open spec fn web_link(joined: Option<Seq<char>>) -> Option<Seq<char>> {
    match joined {
        Some(u) => if is_web_url(u) {
            Some(u)
        } else {
            None
        },
        None => None,
    }
}

/// The links kept from a list of `href` values, resolved against `base`, in order.
pub open spec fn resolved_links(hrefs: Seq<Option<Seq<char>>>, base: Seq<char>) -> Seq<Seq<char>>
    decreases hrefs.len(),
{
    if hrefs.len() == 0 {
        Seq::empty()
    } else {
        let rest = resolved_links(hrefs.drop_last(), base);
        match hrefs.last() {
            Some(h) => match web_link(url_join_outcome(base, h)) {
                Some(u) => rest.push(u),
                None => rest,
            },
            None => rest,
        }
    }
}

/// Keeps a resolved URL only when its scheme is `http` or `https`.
pub fn keep_web_link(joined: Option<Url>) -> (r: Option<Url>)
    ensures
        url_option_view(r) == web_link(url_option_view(joined)),
        r matches Some(u) ==> starts_with_http_scheme(u@) && url_option_view(joined) == Some(u@),
        joined matches Some(u) ==> (r is Some <==> starts_with_http_scheme(u@)),
{
    match joined {
        Some(u) => if u.has_web_scheme() {
            Some(u)
        } else {
            None
        },
        None => None,
    }
}

/// Resolves a potentially relative URL against a base URL.
/// Only keeps http/https URLs.
pub fn resolve_url(href: &str, base: &Url) -> (r: Option<Url>)
    ensures
        url_option_view(r) == web_link(url_join_outcome(base@, href@)),
{
    keep_web_link(base.join(href))
}

/// Builds the parse result from what was extracted from a page: the raw text
/// of its title element and the `href` values of its links.
pub fn assemble(raw_title: Option<String>, hrefs: Vec<Option<String>>, base_url: &Url) -> (r: ParseResult)
    ensures
        text_option_view(r.title) == match text_option_view(raw_title) {
            Some(t) => Some(trimmed_text(t)),
            None => None,
        },
        urls_view(r.links@) == resolved_links(
            hrefs@.map_values(|o: Option<String>| text_option_view(o)),
            base_url@,
        ),
{
    let title = match &raw_title {
        Some(t) => Some(trim(t.as_str())),
        None => None,
    };
    let ghost hv = hrefs@.map_values(|o: Option<String>| text_option_view(o));
    let mut links: Vec<Url> = Vec::new();
    let n = hrefs.len();
    let mut i: usize = 0;
    while i < n
        invariant
            n == hrefs@.len(),
            hv == hrefs@.map_values(|o: Option<String>| text_option_view(o)),
            i <= n,
            urls_view(links@) == resolved_links(hv.take(i as int), base_url@),
        decreases n - i,
    {
        proof {
            assert(hv.take(i + 1).drop_last() =~= hv.take(i as int));
            assert(hv.take(i + 1).last() == hv[i as int]);
        }
        match &hrefs[i] {
            Some(h) => {
                match resolve_url(h.as_str(), base_url) {
                    Some(u) => {
                        let ghost before = links@;
                        links.push(u);
                        proof {
                            assert(urls_view(links@) =~= urls_view(before).push(u@));
                        }
                    },
                    None => {},
                }
            },
            None => {},
        }
        i = i + 1;
    }
    assert(hv.take(n as int) =~= hv);
    ParseResult { title, links }
}

/// Parses an HTML document and extracts its title (trimmed) and the absolute
/// http/https URLs of its `<a href>` links, resolved against `base_url`.
pub fn parse(html: &str, base_url: &Url) -> (r: ParseResult)
    ensures
        text_option_view(r.title) == match html_first_text(html@, "title"@) {
            Some(t) => Some(trimmed_text(t)),
            None => None,
        },
        urls_view(r.links@) == resolved_links(
            html_attribute_values(html@, "a[href]"@, "href"@),
            base_url@,
        ),
        forall|k: int| 0 <= k < r.links@.len() ==> starts_with_http_scheme(#[trigger] r.links@[k]@),
{
    let raw_title = match scraper_first_text(html, "title") {
        Some(found) => found,
        None => None,
    };
    let hrefs = match scraper_attribute_values(html, "a[href]", "href") {
        Some(values) => values,
        None => Vec::new(),
    };
    assert(hrefs@.map_values(|o: Option<String>| text_option_view(o)) =~= html_attribute_values(
        html@,
        "a[href]"@,
        "href"@,
    ));
    let r = assemble(raw_title, hrefs, base_url);
    proof {
        let hv = html_attribute_values(html@, "a[href]"@, "href"@);
        lemma_kept_links_have_http_scheme(hv, base_url@);
        assert forall|k: int| 0 <= k < r.links@.len() implies starts_with_http_scheme(
            #[trigger] r.links@[k]@,
        ) by {
            assert(urls_view(r.links@)[k] == r.links@[k]@);
        }
    }
    r
}

/// Law: every link that parsing keeps is an http or https URL.
pub proof fn lemma_resolved_links_are_web(hrefs: Seq<Option<Seq<char>>>, base: Seq<char>)
    ensures
        forall|k: int| 0 <= k < resolved_links(hrefs, base).len() ==> is_web_url(
            #[trigger] resolved_links(hrefs, base)[k],
        ),
        resolved_links(hrefs, base).len() <= hrefs.len(),
    decreases hrefs.len(),
{
    if hrefs.len() > 0 {
        lemma_resolved_links_are_web(hrefs.drop_last(), base);
        let rest = resolved_links(hrefs.drop_last(), base);
        let all = resolved_links(hrefs, base);
        assert forall|k: int| 0 <= k < all.len() implies is_web_url(#[trigger] all[k]) by {
            if k < rest.len() {
                assert(all[k] == rest[k]);
            }
        }
    }
}

} // verus!

verus! {

/// Law: a joined URL is kept exactly when it begins with `http:` or
/// `https:`, and then unchanged.
pub proof fn lemma_web_link_keeps_exactly_http(joined: Option<Seq<char>>)
    ensures
        web_link(joined) matches Some(u) ==> joined == Some(u) && starts_with_http_scheme(u),
        joined matches Some(u) ==> (web_link(joined) is Some <==> starts_with_http_scheme(u)),
        joined is None ==> web_link(joined) is None,
{
    if let Some(u) = joined {
        lemma_web_url_is_http_scheme(u);
    }
}

/// Law: every link that parsing keeps begins with `http:` or `https:`, and is
/// what joining one of the page's `href` values to the base gives.
pub proof fn lemma_kept_links_have_http_scheme(hrefs: Seq<Option<Seq<char>>>, base: Seq<char>)
    ensures
        forall|k: int| 0 <= k < resolved_links(hrefs, base).len() ==> starts_with_http_scheme(
            #[trigger] resolved_links(hrefs, base)[k],
        ),
        forall|k: int|
            #![trigger resolved_links(hrefs, base)[k]]
            0 <= k < resolved_links(hrefs, base).len() ==> exists|i: int|
                0 <= i < hrefs.len() && (#[trigger] hrefs[i]) is Some && url_join_outcome(
                    base,
                    hrefs[i]->0,
                ) == Some(resolved_links(hrefs, base)[k]),
    decreases hrefs.len(),
{
    if hrefs.len() > 0 {
        let init = hrefs.drop_last();
        lemma_kept_links_have_http_scheme(init, base);
        let rest = resolved_links(init, base);
        let all = resolved_links(hrefs, base);
        assert forall|k: int| 0 <= k < all.len() implies starts_with_http_scheme(#[trigger] all[k])
            && exists|i: int| 0 <= i < hrefs.len() && (#[trigger] hrefs[i]) is Some
                && url_join_outcome(base, hrefs[i]->0) == Some(all[k]) by {
            if k < rest.len() {
                assert(all[k] == rest[k]);
                let i = choose|i: int| 0 <= i < init.len() && (#[trigger] init[i]) is Some
                    && url_join_outcome(base, init[i]->0) == Some(rest[k]);
                assert(hrefs[i] == init[i]);
            } else {
                let j = url_join_outcome(base, hrefs.last()->0);
                lemma_web_link_keeps_exactly_http(j);
                assert(hrefs[hrefs.len() - 1] == hrefs.last());
            }
        }
    }
}

/// Law: no http or https link of the page is lost: when joining an `href`
/// value to the base gives a URL that begins with `http:` or `https:`, that
/// URL is among the kept links.
pub proof fn lemma_http_links_are_kept(hrefs: Seq<Option<Seq<char>>>, base: Seq<char>, i: int)
    requires
        0 <= i < hrefs.len(),
        hrefs[i] is Some,
        url_join_outcome(base, hrefs[i]->0) is Some,
        starts_with_http_scheme(url_join_outcome(base, hrefs[i]->0)->0),
    ensures
        resolved_links(hrefs, base).contains(url_join_outcome(base, hrefs[i]->0)->0),
    decreases hrefs.len(),
{
    let init = hrefs.drop_last();
    let u = url_join_outcome(base, hrefs[i]->0)->0;
    lemma_web_link_keeps_exactly_http(url_join_outcome(base, hrefs[i]->0));
    if i < hrefs.len() - 1 {
        assert(init[i] == hrefs[i]);
        lemma_http_links_are_kept(init, base, i);
        let rest = resolved_links(init, base);
        let k = choose|k: int| 0 <= k < rest.len() && rest[k] == u;
        assert(resolved_links(hrefs, base)[k] == u);
    } else {
        assert(hrefs.last() == hrefs[i]);
        let all = resolved_links(hrefs, base);
        assert(all[all.len() - 1] == u);
    }
}

/// Law: links are kept in the order of their `href` values: the links of a
/// page whose `href` values are those of two parts in turn are the links of
/// the first part followed by those of the second.
pub proof fn lemma_resolved_links_concat(a: Seq<Option<Seq<char>>>, b: Seq<Option<Seq<char>>>, base: Seq<char>)
    ensures
        resolved_links(a + b, base) == resolved_links(a, base) + resolved_links(b, base),
    decreases b.len(),
{
    if b.len() == 0 {
        assert(a + b =~= a);
        assert(resolved_links(a, base) + resolved_links(b, base) =~= resolved_links(a, base));
    } else {
        lemma_resolved_links_concat(a, b.drop_last(), base);
        assert((a + b).drop_last() =~= a + b.drop_last());
        assert((a + b).last() == b.last());
        let ra = resolved_links(a, base);
        let rb0 = resolved_links(b.drop_last(), base);
        match b.last() {
            Some(h) => match web_link(url_join_outcome(base, h)) {
                Some(u) => {
                    assert(ra + rb0.push(u) =~= (ra + rb0).push(u));
                },
                None => {},
            },
            None => {},
        }
    }
}

/// Law: the links of a single `href` value: none when the element has no
/// `href`, when the join fails, or when the joined URL does not begin with
/// `http:` or `https:`; else exactly the joined URL.
pub proof fn lemma_resolved_links_single(h: Option<Seq<char>>, base: Seq<char>)
    ensures
        h is None ==> resolved_links(seq![h], base) == Seq::<Seq<char>>::empty(),
        h matches Some(t) ==> (url_join_outcome(base, t) matches Some(u) ==> (
            starts_with_http_scheme(u) ==> resolved_links(seq![h], base) == seq![u])),
        h matches Some(t) ==> (url_join_outcome(base, t) matches Some(u) ==> (
            !starts_with_http_scheme(u) ==> resolved_links(seq![h], base) == Seq::<Seq<char>>::empty())),
        h matches Some(t) ==> (url_join_outcome(base, t) is None ==> resolved_links(seq![h], base)
            == Seq::<Seq<char>>::empty()),
{
    let s = seq![h];
    assert(s.drop_last() =~= Seq::<Option<Seq<char>>>::empty());
    assert(s.last() == h);
    assert(resolved_links(Seq::<Option<Seq<char>>>::empty(), base) == Seq::<Seq<char>>::empty());
    assert(resolved_links(s.drop_last(), base) == Seq::<Seq<char>>::empty());
    assert(resolved_links(s, base) == match h {
        Some(t) => match web_link(url_join_outcome(base, t)) {
            Some(u) => Seq::<Seq<char>>::empty().push(u),
            None => Seq::<Seq<char>>::empty(),
        },
        None => Seq::<Seq<char>>::empty(),
    });
    if let Some(t) = h {
        lemma_web_link_keeps_exactly_http(url_join_outcome(base, t));
        if let Some(u) = url_join_outcome(base, t) {
            if starts_with_http_scheme(u) {
                assert(Seq::<Seq<char>>::empty().push(u) =~= seq![u]);
            }
        }
    }
}

/// Law: the views of texts and URL lists keep every element, in place.
pub proof fn lemma_views_keep_elements(o: Option<String>, us: Seq<Url>)
    ensures
        o matches Some(t) ==> text_option_view(o) == Some(t@),
        o is None ==> text_option_view(o) is None,
        urls_view(us).len() == us.len(),
        forall|k: int| 0 <= k < us.len() ==> #[trigger] urls_view(us)[k] == us[k]@,
{
}

} // verus!
