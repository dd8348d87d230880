//! Rules that decide whether an input is routed to a registry entry.
use vstd::prelude::*;

use super::{Input, InputView, Url};
use crate::text::{starts_with, suffix_from};

verus! {

/// Whether a regular expression built from `pattern` matches `haystack`
/// (false when `pattern` is not a valid regular expression).
pub uninterp spec fn regex_matches(pattern: Seq<char>, haystack: Seq<char>) -> bool;

/// Calls `Regex::new` and `Regex::is_match`: whether the regular expression
/// `pattern` matches somewhere in `haystack`; an invalid pattern matches nothing.
#[verifier::external_body]
fn regex_is_match(pattern: &str, haystack: &str) -> (r: bool)
    ensures
        r == regex_matches(pattern@, haystack@),
{
    match regex::Regex::new(pattern) {
        Ok(re) => re.is_match(haystack),
        Err(_) => false,
    }
}

/// Matches strings with a regular expression or by equality.
#[derive(Clone, Debug, PartialEq, Eq)]
pub enum Matcher {
    /// A regular expression, kept as its pattern.
    Regex(String),
    /// An exact string.
    String(String),
}

impl Matcher {
    /// Whether the matcher accepts `search`.
    pub open spec fn spec_is_match(self, search: Seq<char>) -> bool {
        match self {
            Matcher::Regex(pattern) => regex_matches(pattern@, search),
            Matcher::String(s) => s@ == search,
        }
    }

    /// Whether the matcher accepts `search`.
    pub fn is_match(&self, search: &str) -> (r: bool)
        ensures
            r == self.spec_is_match(search@),
    {
        match self {
            Matcher::Regex(pattern) => regex_is_match(pattern.as_str(), search),
            Matcher::String(s) => crate::text::str_eq(s.as_str(), search),
        }
    }
}

/// Either any value, or values accepted by a matcher.
#[derive(Clone, Debug, PartialEq, Eq)]
pub enum MatchType {
    /// Any value, present or not.
    Any,
    /// A present value the matcher accepts.
    Value(Matcher),
}

impl MatchType {
    /// Whether the input is accepted: always for `Any`; for a matcher, when the
    /// input is present and matches.
    pub open spec fn spec_matches(self, input: Option<Seq<char>>) -> bool {
        match self {
            MatchType::Any => true,
            MatchType::Value(m) => match input {
                Some(s) => m.spec_is_match(s),
                None => false,
            },
        }
    }

    /// Whether the input is accepted.
    pub fn matches_input(&self, input: Option<&str>) -> (r: bool)
        ensures
            r == self.spec_matches(
                match input {
                    Some(s) => Some(s@),
                    None => None,
                },
            ),
    {
        match self {
            MatchType::Any => true,
            MatchType::Value(m) => match input {
                Some(s) => m.is_match(s),
                None => false,
            },
        }
    }
}

/// Matches inputs that start with a prefix.
#[derive(Clone, Debug, PartialEq, Eq)]
pub struct PrefixMatcher {
    /// The prefix.
    pub prefix: String,
}

impl PrefixMatcher {
    /// The rest of `input` after the prefix, when `input` starts with it.
    pub open spec fn spec_match_input(self, input: Seq<char>) -> Option<Seq<char>> {
        let p = self.prefix@;
        if p.len() <= input.len() && input.subrange(0, p.len() as int) == p {
            Some(input.subrange(p.len() as int, input.len() as int))
        } else {
            None
        }
    }

    /// When `input` starts with the prefix, the input with its first occurrence
    /// of the prefix (that leading one) removed.
    pub fn match_input(&self, input: &str) -> (r: Option<String>)
        ensures
            match r {
                Some(rest) => self.spec_match_input(input@) == Some(rest@),
                None => self.spec_match_input(input@) is None,
            },
    {
        if starts_with(input, self.prefix.as_str()) {
            let n = self.prefix.as_str().unicode_len();
            Some(suffix_from(input, n))
        } else {
            None
        }
    }

    /// Whether an already parsed input carries this prefix.
    pub fn matches_parsed(&self, input: &Input) -> (r: bool)
        ensures
            r == (input.view().prefix == Some(self.prefix@)),
    {
        match &input.prefix {
            Some(p) => crate::text::str_eq(p.as_str(), self.prefix.as_str()),
            None => false,
        }
    }
}

/// Matches raw (non-URL) strings.
#[derive(Clone, Debug, PartialEq, Eq)]
pub struct StringMatcher {
    /// What the string must match.
    pub match_type: MatchType,
}

impl StringMatcher {
    /// Whether the string is accepted.
    pub fn matches_input(&self, input: &str) -> (r: bool)
        ensures
            r == self.match_type.spec_matches(Some(input@)),
    {
        self.match_type.matches_input(Some(input))
    }
}

/// Matches URLs by scheme and domain.
#[derive(Clone, Debug, PartialEq, Eq)]
pub struct UrlMatcher {
    /// What the scheme must match.
    pub scheme: MatchType,
    /// What the domain must match (a URL without a domain only matches `Any`).
    pub domain: MatchType,
}

impl UrlMatcher {
    /// Whether a URL with this scheme and domain is accepted.
    pub open spec fn spec_matches(self, scheme: Seq<char>, domain: Option<Seq<char>>) -> bool {
        self.scheme.spec_matches(Some(scheme)) && self.domain.spec_matches(domain)
    }

    /// Whether the URL is accepted.
    pub fn matches_input(&self, input: &Url) -> (r: bool)
        ensures
            r == self.spec_matches(input.view().1, input.view().2),
    {
        if !self.scheme.matches_input(Some(input.scheme())) {
            return false;
        }
        self.domain.matches_input(input.domain())
    }
}

/// A rule that decides whether an input matches.
#[derive(Clone, Debug, PartialEq, Eq)]
pub enum Rule {
    /// Checks the prefix of the input.
    Prefix(PrefixMatcher),
    /// Checks raw (non-URL) string inputs.
    String(StringMatcher),
    /// Checks URL inputs.
    Url(UrlMatcher),
}

/// The characters of `^https?$`.
pub open spec fn http_pattern() -> Seq<char> {
    seq!['^', 'h', 't', 't', 'p', 's', '?', '$']
}

/// A matcher for the HTTP and HTTPS URL schemes: the regular expression `^https?$`.
pub fn http_regex() -> (r: Matcher)
    ensures
        r matches Matcher::Regex(p) && p@ == http_pattern(),
{
    let mut p = String::new();
    p.push('^');
    p.push('h');
    p.push('t');
    p.push('t');
    p.push('p');
    p.push('s');
    p.push('?');
    p.push('$');
    assert(p@ =~= http_pattern());
    Matcher::Regex(p)
}

impl Rule {
    /// Matches inputs that start with `prefix`, such as a custom protocol.
    pub fn prefix(prefix: String) -> (r: Self)
        ensures
            r == Rule::Prefix(PrefixMatcher { prefix }),
    {
        Rule::Prefix(PrefixMatcher { prefix })
    }

    /// Matches string (non-URL) inputs accepted by `s`.
    pub fn string(s: Matcher) -> (r: Self)
        ensures
            r == Rule::String(StringMatcher { match_type: MatchType::Value(s) }),
    {
        Rule::String(StringMatcher { match_type: MatchType::Value(s) })
    }

    /// Matches any string (non-URL) input.
    pub fn any_string() -> (r: Self)
        ensures
            r == Rule::String(StringMatcher { match_type: MatchType::Any }),
    {
        Rule::String(StringMatcher { match_type: MatchType::Any })
    }

    /// Matches any URL.
    pub fn any_url() -> (r: Self)
        ensures
            r == Rule::Url(UrlMatcher { scheme: MatchType::Any, domain: MatchType::Any }),
    {
        Rule::Url(UrlMatcher { scheme: MatchType::Any, domain: MatchType::Any })
    }

    /// Matches URLs whose scheme `scheme` accepts.
    pub fn url_scheme(scheme: Matcher) -> (r: Self)
        ensures
            r == Rule::Url(UrlMatcher { scheme: MatchType::Value(scheme), domain: MatchType::Any }),
    {
        Rule::Url(UrlMatcher { scheme: MatchType::Value(scheme), domain: MatchType::Any })
    }

    /// Matches any HTTP or HTTPS URL.
    pub fn any_http() -> (r: Self)
        ensures
            r matches Rule::Url(u) && u.domain == MatchType::Any && (u.scheme matches MatchType::Value(
                Matcher::Regex(p),
            ) && p@ == http_pattern()),
    {
        Rule::Url(UrlMatcher { scheme: MatchType::Value(http_regex()), domain: MatchType::Any })
    }

    /// Matches URLs whose domain `domain` accepts.
    pub fn url_domain(domain: Matcher) -> (r: Self)
        ensures
            r == Rule::Url(UrlMatcher { scheme: MatchType::Any, domain: MatchType::Value(domain) }),
    {
        Rule::Url(UrlMatcher { scheme: MatchType::Any, domain: MatchType::Value(domain) })
    }

    /// Matches HTTP or HTTPS URLs whose domain `domain` accepts.
    pub fn http_domain(domain: Matcher) -> (r: Self)
        ensures
            r matches Rule::Url(u) && u.domain == MatchType::Value(domain) && (
            u.scheme matches MatchType::Value(Matcher::Regex(p)) && p@ == http_pattern()),
    {
        Rule::Url(UrlMatcher { scheme: MatchType::Value(http_regex()), domain: MatchType::Value(domain) })
    }

    /// Matches URLs whose scheme and domain the two matchers accept.
    pub fn url(scheme: Matcher, domain: Matcher) -> (r: Self)
        ensures
            r == Rule::Url(
                UrlMatcher { scheme: MatchType::Value(scheme), domain: MatchType::Value(domain) },
            ),
    {
        Rule::Url(UrlMatcher { scheme: MatchType::Value(scheme), domain: MatchType::Value(domain) })
    }
}

} // verus!
