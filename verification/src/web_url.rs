//! Absolute URLs, held by their serialization. Parsing, joining and origins
//! are computed by the `url` crate.
use vstd::prelude::*;
use vstd::string::*;

verus! {

/// What `url::Url::parse(input)` gives: `Ok` with the serialization of the
/// parsed URL (`Url::as_str`), or `Err` with the `Display` text of the
/// `url::ParseError`.
pub uninterp spec fn url_parse_outcome(input: Seq<char>) -> Result<Seq<char>, Seq<char>>;

/// What `url::Url::join(href)` gives on the URL that `url::Url::parse(base)`
/// returns: the serialization of the joined URL, or `None` where either the
/// parse or the join fails.
pub uninterp spec fn url_join_outcome(base: Seq<char>, href: Seq<char>) -> Option<Seq<char>>;

/// What `url::Url::origin().ascii_serialization()` gives on the URL that
/// `url::Url::parse(url)` returns, or `None` where that parse fails.
pub uninterp spec fn url_origin_outcome(url: Seq<char>) -> Option<Seq<char>>;

/// The origin text of a URL serialization: the ASCII serialization of its
/// origin, or the empty text where the serialization does not parse.
pub open spec fn url_origin_text(url: Seq<char>) -> Seq<char> {
    match url_origin_outcome(url) {
        Some(origin) => origin,
        None => Seq::empty(),
    }
}

/// Calls `url::Url::parse` and hands back the serialization or the error text.
#[verifier::external_body]
fn url_crate_parse(input: &str) -> (r: Result<String, String>)
    ensures
        match r {
            Ok(s) => url_parse_outcome(input@) == Ok::<Seq<char>, Seq<char>>(s@),
            Err(e) => url_parse_outcome(input@) == Err::<Seq<char>, Seq<char>>(e@),
        },
{
    match ::url::Url::parse(input) {
        Ok(u) => Ok(u.as_str().to_string()),
        Err(e) => Err(e.to_string()),
    }
}

/// Calls `url::Url::join` on the URL that `base` serializes.
#[verifier::external_body]
fn url_crate_join(base: &str, href: &str) -> (r: Option<String>)
    ensures
        match r {
            Some(s) => url_join_outcome(base@, href@) == Some(s@),
            None => url_join_outcome(base@, href@) is None,
        },
{
    match ::url::Url::parse(base) {
        Ok(b) => match b.join(href) {
            Ok(u) => Some(u.as_str().to_string()),
            Err(_) => None,
        },
        Err(_) => None,
    }
}

/// Calls `url::Url::origin` on the URL that `url` serializes and returns the
/// origin's ASCII serialization.
#[verifier::external_body]
fn url_crate_origin(url: &str) -> (r: Option<String>)
    ensures
        match r {
            Some(s) => url_origin_outcome(url@) == Some(s@),
            None => url_origin_outcome(url@) is None,
        },
{
    match ::url::Url::parse(url) {
        Ok(u) => Some(u.origin().ascii_serialization()),
        Err(_) => None,
    }
}

/// The scheme part of a URL serialization is everything before its first
/// `:`; this says the scheme is `http` or `https`.
pub open spec fn is_web_url(s: Seq<char>) -> bool {
    ||| s.len() >= 5 && s.take(5) == seq!['h', 't', 't', 'p', ':']
    ||| s.len() >= 6 && s.take(6) == seq!['h', 't', 't', 'p', 's', ':']
}

/// The text begins with the scheme `http` or `https` followed by `:`, read
/// character by character.
pub open spec fn starts_with_http_scheme(s: Seq<char>) -> bool {
    &&& s.len() >= 5
    &&& s[0] == 'h' && s[1] == 't' && s[2] == 't' && s[3] == 'p'
    &&& (s[4] == ':' || (s.len() >= 6 && s[4] == 's' && s[5] == ':'))
}

/// Law: the scheme test accepts exactly the texts that begin with `http:` or
/// `https:`.
pub proof fn lemma_web_url_is_http_scheme(s: Seq<char>)
    ensures
        is_web_url(s) <==> starts_with_http_scheme(s),
{
    if s.len() >= 5 {
        if s.take(5) == seq!['h', 't', 't', 'p', ':'] {
            assert(s[0] == s.take(5)[0] && s[1] == s.take(5)[1] && s[2] == s.take(5)[2]
                && s[3] == s.take(5)[3] && s[4] == s.take(5)[4]);
        }
        if s.len() >= 6 && s.take(6) == seq!['h', 't', 't', 'p', 's', ':'] {
            assert(s[0] == s.take(6)[0] && s[1] == s.take(6)[1] && s[2] == s.take(6)[2]
                && s[3] == s.take(6)[3] && s[4] == s.take(6)[4] && s[5] == s.take(6)[5]);
        }
        if starts_with_http_scheme(s) {
            if s[4] == ':' {
                assert(s.take(5) =~= seq!['h', 't', 't', 'p', ':']);
            } else {
                assert(s.take(6) =~= seq!['h', 't', 't', 'p', 's', ':']);
            }
        }
    }
}

/// An absolute URL as the `url` crate serializes it.
#[derive(Clone, Debug, PartialEq, Eq)]
pub struct Url {
    text: String,
}

impl View for Url {
    type V = Seq<char>;

    closed spec fn view(&self) -> Seq<char> {
        self.text@
    }
}

/// The serialization a resolved URL carries, if any.
pub open spec fn url_option_view(u: Option<Url>) -> Option<Seq<char>> {
    match u {
        Some(v) => Some(v@),
        None => None,
    }
}

impl Url {
    /// Parses an absolute URL. The error is the parser's message.
    pub fn parse(input: &str) -> (r: Result<Url, String>)
        ensures
            match r {
                Ok(u) => url_parse_outcome(input@) == Ok::<Seq<char>, Seq<char>>(u@),
                Err(e) => url_parse_outcome(input@) == Err::<Seq<char>, Seq<char>>(e@),
            },
    {
        match url_crate_parse(input) {
            Ok(text) => Ok(Url { text }),
            Err(e) => Err(e),
        }
    }

    /// Resolves `href` (absolute or relative) against this URL.
    pub fn join(&self, href: &str) -> (r: Option<Url>)
        ensures
            url_option_view(r) == url_join_outcome(self@, href@),
    {
        match url_crate_join(self.text.as_str(), href) {
            Some(text) => Some(Url { text }),
            None => None,
        }
    }

    /// The serialization of this URL.
    pub fn as_str(&self) -> (r: &str)
        ensures
            r@ == self@,
    {
        self.text.as_str()
    }

    /// The ASCII serialization of this URL's origin.
    pub fn origin_serialization(&self) -> (r: String)
        ensures
            r@ == url_origin_text(self@),
    {
        match url_crate_origin(self.text.as_str()) {
            Some(origin) => origin,
            None => String::new(),
        }
    }

    /// Whether the scheme is `http` or `https`.
    pub fn has_web_scheme(&self) -> (r: bool)
        ensures
            r == is_web_url(self@),
            r == starts_with_http_scheme(self@),
    {
        proof {
            lemma_web_url_is_http_scheme(self@);
        }
        let s = self.text.as_str();
        let n = s.unicode_len();
        if n < 5 {
            return false;
        }
        let c0 = s.get_char(0);
        let c1 = s.get_char(1);
        let c2 = s.get_char(2);
        let c3 = s.get_char(3);
        let c4 = s.get_char(4);
        if !(c0 == 'h' && c1 == 't' && c2 == 't' && c3 == 'p') {
            assert(s@.take(5)[0] == c0 && s@.take(5)[1] == c1 && s@.take(5)[2] == c2
                && s@.take(5)[3] == c3);
            assert(n >= 6 ==> s@.take(6)[0] == c0 && s@.take(6)[1] == c1 && s@.take(6)[2] == c2
                && s@.take(6)[3] == c3);
            return false;
        }
        if c4 == ':' {
            assert(s@.take(5) =~= seq!['h', 't', 't', 'p', ':']);
            return true;
        }
        assert(s@.take(5)[4] == c4);
        if n < 6 || c4 != 's' {
            assert(n >= 6 ==> s@.take(6)[4] == c4);
            return false;
        }
        let c5 = s.get_char(5);
        if c5 == ':' {
            assert(s@.take(6) =~= seq!['h', 't', 't', 'p', 's', ':']);
            true
        } else {
            assert(s@.take(6)[5] == c5);
            false
        }
    }
}

} // verus!
