//! Routing inputs to handlers. A registry holds entries, each with a priority
//! and a list of rules; an input goes to the first entry, in priority order,
//! one of whose rules matches it. The handlers themselves run with the I/O.
use vstd::prelude::*;

pub mod matcher;

pub use matcher::{http_regex, MatchType, Matcher, PrefixMatcher, Rule, StringMatcher, UrlMatcher};

verus! {

/// What `url` reads from a string: the serialization, the scheme and the
/// domain of the URL, or `None` when the string is not a URL.
pub uninterp spec fn url_parse(input: Seq<char>) -> Option<(Seq<char>, Seq<char>, Option<Seq<char>>)>;

/// The characters of an optional string.
pub open spec fn opt_view(o: Option<String>) -> Option<Seq<char>> {
    match o {
        Some(s) => Some(s@),
        None => None,
    }
}

/// Calls `url::Url::parse` and keeps what the rules read of a URL:
/// `Url::as_str`, `Url::scheme` and `Url::domain`.
#[verifier::external_body]
fn parse_url(input: &str) -> (r: Option<Url>)
    ensures
        match r {
            Some(u) => url_parse(input@) == Some(u.view()),
            None => url_parse(input@) is None,
        },
{
    match url::Url::parse(input) {
        Ok(u) => {
            let domain = match u.domain() {
                Some(d) => Some(d.to_string()),
                None => None,
            };
            Some(Url { serialization: u.as_str().to_string(), scheme: u.scheme().to_string(), domain })
        },
        Err(_) => None,
    }
}

/// A parsed URL: its serialization, scheme and domain.
#[derive(Debug, PartialEq, Eq)]
pub struct Url {
    serialization: String,
    scheme: String,
    domain: Option<String>,
}

impl Url {
    /// Serialization, scheme and domain.
    pub closed spec fn view(&self) -> (Seq<char>, Seq<char>, Option<Seq<char>>) {
        (self.serialization@, self.scheme@, opt_view(self.domain))
    }

    /// Parses a URL.
    pub fn parse(input: &str) -> (r: Option<Url>)
        ensures
            match r {
                Some(u) => url_parse(input@) == Some(u.view()),
                None => url_parse(input@) is None,
            },
    {
        parse_url(input)
    }

    /// The serialization of the URL.
    pub fn as_str(&self) -> (r: &str)
        ensures
            r@ == self.view().0,
    {
        self.serialization.as_str()
    }

    /// The scheme of the URL.
    pub fn scheme(&self) -> (r: &str)
        ensures
            r@ == self.view().1,
    {
        self.scheme.as_str()
    }

    /// The domain of the URL, if its host is a domain.
    pub fn domain(&self) -> (r: Option<&str>)
        ensures
            match r {
                Some(d) => self.view().2 == Some(d@),
                None => self.view().2 is None,
            },
    {
        match &self.domain {
            Some(d) => Some(d.as_str()),
            None => None,
        }
    }
}

impl Clone for Url {
    fn clone(&self) -> (r: Self)
        ensures
            r.view() == self.view(),
    {
        let domain = match &self.domain {
            Some(d) => Some(d.clone()),
            None => None,
        };
        Url { serialization: self.serialization.clone(), scheme: self.scheme.clone(), domain }
    }
}

/// What a source is: a URL (serialization, scheme, domain) or a string.
pub enum SourceView {
    /// A URL.
    Url(Seq<char>, Seq<char>, Option<Seq<char>>),
    /// A string that is not a URL.
    Text(Seq<char>),
}

/// The source a raw input becomes: a URL when it parses as one.
pub open spec fn source_view_of(raw: Seq<char>) -> SourceView {
    match url_parse(raw) {
        Some((s, scheme, domain)) => SourceView::Url(s, scheme, domain),
        None => SourceView::Text(raw),
    }
}

/// The text a source is written as.
pub open spec fn raw_of(source: SourceView) -> Seq<char> {
    match source {
        SourceView::Url(s, _, _) => s,
        SourceView::Text(t) => t,
    }
}

/// The input source: a URL or any other string.
#[derive(Debug, PartialEq, Eq)]
pub enum Source {
    /// URL input.
    Url(Url),
    /// Generic string input.
    String(String),
}

impl Source {
    /// The source's view.
    pub open spec fn view(&self) -> SourceView {
        match self {
            Source::Url(u) => SourceView::Url(u.view().0, u.view().1, u.view().2),
            Source::String(s) => SourceView::Text(s@),
        }
    }

    /// A URL when the string parses as one, else the string itself.
    pub fn from_string(value: String) -> (r: Self)
        ensures
            r.view() == source_view_of(value@),
    {
        match Url::parse(value.as_str()) {
            Some(url) => Source::Url(url),
            None => Source::String(value),
        }
    }

    /// The URL, if this is one.
    pub fn try_into_url(self) -> (r: Option<Url>)
        ensures
            match r {
                Some(u) => self.view() == SourceView::Url(u.view().0, u.view().1, u.view().2),
                None => self.view() is Text,
            },
    {
        match self {
            Source::Url(url) => Some(url),
            Source::String(_) => None,
        }
    }

    /// The URL; the source must be one.
    pub fn into_url(self) -> (r: Url)
        requires
            self.view() is Url,
        ensures
            self.view() == SourceView::Url(r.view().0, r.view().1, r.view().2),
    {
        match self {
            Source::Url(url) => url,
            Source::String(_) => {
                assert(false);
                Url { serialization: String::new(), scheme: String::new(), domain: None }
            },
        }
    }

    /// The string, if this is not a URL.
    pub fn try_into_string(self) -> (r: Option<String>)
        ensures
            match r {
                Some(s) => self.view() == SourceView::Text(s@),
                None => self.view() is Url,
            },
    {
        match self {
            Source::String(s) => Some(s),
            Source::Url(_) => None,
        }
    }

    /// The string; the source must not be a URL.
    pub fn into_string(self) -> (r: String)
        requires
            self.view() is Text,
        ensures
            self.view() == SourceView::Text(r@),
    {
        match self {
            Source::String(s) => s,
            Source::Url(_) => {
                assert(false);
                String::new()
            },
        }
    }

    /// The text the source is written as: the URL's serialization, or the string.
    pub fn to_raw_string(&self) -> (r: String)
        ensures
            r@ == raw_of(self.view()),
    {
        match self {
            Source::Url(url) => url.serialization.clone(),
            Source::String(s) => s.clone(),
        }
    }
}

impl Clone for Source {
    fn clone(&self) -> (r: Self)
        ensures
            r.view() == self.view(),
    {
        match self {
            Source::Url(u) => Source::Url(u.clone()),
            Source::String(s) => Source::String(s.clone()),
        }
    }
}

/// What an input is: an optional prefix and a source.
pub struct InputView {
    /// The prefix parsed from a prefix rule, if any.
    pub prefix: Option<Seq<char>>,
    /// The source.
    pub source: SourceView,
}

/// Input handed to a registry entry.
#[derive(Debug, PartialEq, Eq)]
pub struct Input {
    /// Prefix parsed from a prefix rule, if applicable.
    pub prefix: Option<String>,
    /// Input source.
    pub source: Source,
}

impl Input {
    /// The input's view.
    pub open spec fn view(&self) -> InputView {
        InputView { prefix: opt_view(self.prefix), source: self.source.view() }
    }

    /// The raw text of the input: its prefix, if any, followed by its source.
    pub fn into_raw(self) -> (r: String)
        ensures
            r@ == raw_text(self.view()),
    {
        let raw = self.source.to_raw_string();
        match self.prefix {
            Some(p) => {
                let mut out = p;
                out.append(raw.as_str());
                out
            },
            None => {
                assert(raw@ =~= Seq::<char>::empty() + raw@);
                raw
            },
        }
    }
}

impl Clone for Input {
    fn clone(&self) -> (r: Self)
        ensures
            r.view() == self.view(),
    {
        let prefix = match &self.prefix {
            Some(p) => Some(p.clone()),
            None => None,
        };
        Input { prefix, source: self.source.clone() }
    }
}

/// What an input handed to a registry is: raw text, or an input already parsed.
pub enum InputTypeView {
    /// Raw text.
    Raw(Seq<char>),
    /// A parsed input.
    Parsed(InputView),
}

/// Input to pass to a [`Registry`].
#[derive(Debug)]
pub enum InputType {
    /// Raw string input.
    Raw(String),
    /// Input that has already been parsed.
    Parsed(Input),
}

impl InputType {
    /// The input's view.
    pub open spec fn view(&self) -> InputTypeView {
        match self {
            InputType::Raw(s) => InputTypeView::Raw(s@),
            InputType::Parsed(i) => InputTypeView::Parsed(i.view()),
        }
    }
}

/// The parsed form of an input: raw text has no prefix and becomes a source.
pub open spec fn parsed_view(input: InputTypeView) -> InputView {
    match input {
        InputTypeView::Raw(raw) => InputView { prefix: None, source: source_view_of(raw) },
        InputTypeView::Parsed(i) => i,
    }
}

/// The input the first prefix rule from index `j` on yields: for raw text, the
/// first rule whose prefix starts it, with the prefix split off and the rest
/// parsed; for a parsed input, the first rule with its prefix.
pub open spec fn prefix_match(rules: Seq<Rule>, j: int, input: InputTypeView) -> Option<InputView>
    decreases rules.len() - j,
{
    if j < 0 || j >= rules.len() {
        None
    } else {
        match rules[j] {
            Rule::Prefix(p) => match input {
                InputTypeView::Raw(raw) => match p.spec_match_input(raw) {
                    Some(rest) => Some(
                        InputView { prefix: Some(p.prefix@), source: source_view_of(rest) },
                    ),
                    None => prefix_match(rules, j + 1, input),
                },
                InputTypeView::Parsed(i) => if i.prefix == Some(p.prefix@) {
                    Some(i)
                } else {
                    prefix_match(rules, j + 1, input)
                },
            },
            _ => prefix_match(rules, j + 1, input),
        }
    }
}

/// Whether one of the rules from index `j` on matches the source: a URL rule
/// for a URL, a string rule for a string.
pub open spec fn source_match(rules: Seq<Rule>, j: int, source: SourceView) -> bool
    decreases rules.len() - j,
{
    if j < 0 || j >= rules.len() {
        false
    } else {
        let here = match (rules[j], source) {
            (Rule::Url(u), SourceView::Url(_, scheme, domain)) => u.spec_matches(scheme, domain),
            (Rule::String(s), SourceView::Text(t)) => s.match_type.spec_matches(Some(t)),
            _ => false,
        };
        here || source_match(rules, j + 1, source)
    }
}

/// The input an entry with these rules receives, if it matches: prefix rules
/// come first; otherwise the parsed input goes through when a rule matches
/// its source.
pub open spec fn entry_match(rules: Seq<Rule>, input: InputTypeView) -> Option<InputView> {
    match prefix_match(rules, 0, input) {
        Some(v) => Some(v),
        None => if source_match(rules, 0, parsed_view(input).source) {
            Some(parsed_view(input))
        } else {
            None
        },
    }
}

/// The first entry from index `i` on that matches, with the input it receives.
pub open spec fn find_from(entries: Seq<Entry>, i: int, input: InputTypeView) -> Option<(int, InputView)>
    decreases entries.len() - i,
{
    if i < 0 || i >= entries.len() {
        None
    } else {
        match entry_match(entries[i].rules@, input) {
            Some(v) => Some((i, v)),
            None => find_from(entries, i + 1, input),
        }
    }
}

/// Whether entries are in priority order (lower numbers first).
pub open spec fn sorted_by_priority(entries: Seq<Entry>) -> bool {
    forall|a: int, b: int| 0 <= a < b < entries.len() ==> entries[a].priority <= entries[b].priority
}

/// Where an entry of priority `priority` goes: after every entry whose
/// priority number is at most `priority`, that is at the count of those.
pub open spec fn priority_position(entries: Seq<Entry>, priority: u32) -> int
    decreases entries.len(),
{
    if entries.len() == 0 {
        0
    } else {
        priority_position(entries.drop_last(), priority) + if entries.last().priority <= priority {
            1int
        } else {
            0int
        }
    }
}

/// The entries after `entry` is added in priority order.
pub open spec fn insert_by_priority(entries: Seq<Entry>, entry: Entry) -> Seq<Entry> {
    entries.insert(priority_position(entries, entry.priority), entry)
}

/// Whether `idx` splits the entries into those of priority number at most
/// `priority` and those above it.
pub open spec fn splits_at(entries: Seq<Entry>, priority: u32, idx: int) -> bool {
    &&& 0 <= idx <= entries.len()
    &&& forall|k: int| 0 <= k < idx ==> (#[trigger] entries[k]).priority <= priority
    &&& forall|k: int| idx <= k < entries.len() ==> (#[trigger] entries[k]).priority > priority
}

/// An index that splits the entries by priority is the insert position.
proof fn lemma_split_is_position(entries: Seq<Entry>, priority: u32, idx: int)
    requires
        splits_at(entries, priority, idx),
    ensures
        priority_position(entries, priority) == idx,
    decreases entries.len(),
{
    if entries.len() > 0 {
        let rest = entries.drop_last();
        if idx == entries.len() {
            assert(splits_at(rest, priority, idx - 1)) by {
                assert forall|k: int| 0 <= k < idx - 1 implies (#[trigger] rest[k]).priority <= priority by {
                    assert(rest[k] == entries[k]);
                }
            }
            lemma_split_is_position(rest, priority, idx - 1);
            assert(entries.last() == entries[entries.len() - 1]);
        } else {
            assert(splits_at(rest, priority, idx)) by {
                assert forall|k: int| 0 <= k < idx implies (#[trigger] rest[k]).priority <= priority by {
                    assert(rest[k] == entries[k]);
                }
                assert forall|k: int| idx <= k < rest.len() implies (#[trigger] rest[k]).priority > priority by {
                    assert(rest[k] == entries[k]);
                }
            }
            lemma_split_is_position(rest, priority, idx);
            assert(entries.last() == entries[entries.len() - 1]);
        }
    }
}

/// In entries sorted by priority, the insert position splits them.
proof fn lemma_sorted_position_splits(entries: Seq<Entry>, priority: u32)
    requires
        sorted_by_priority(entries),
    ensures
        splits_at(entries, priority, priority_position(entries, priority)),
    decreases entries.len(),
{
    if entries.len() > 0 {
        let rest = entries.drop_last();
        let n = entries.len() - 1;
        assert(sorted_by_priority(rest)) by {
            assert forall|a: int, b: int| 0 <= a < b < rest.len() implies rest[a].priority
                <= rest[b].priority by {
                assert(rest[a] == entries[a] && rest[b] == entries[b]);
            }
        }
        lemma_sorted_position_splits(rest, priority);
        let c = priority_position(rest, priority);
        assert(entries.last() == entries[n]);
        if entries[n].priority <= priority {
            assert forall|k: int| 0 <= k < n + 1 implies (#[trigger] entries[k]).priority <= priority by {
                if k < n {
                    assert(entries[k].priority <= entries[n].priority);
                }
            }
        } else {
            assert forall|k: int| 0 <= k < c implies (#[trigger] entries[k]).priority <= priority by {
                assert(rest[k] == entries[k]);
            }
            assert forall|k: int| c <= k < entries.len() implies (#[trigger] entries[k]).priority > priority by {
                if k < n {
                    assert(rest[k] == entries[k]);
                }
            }
        }
    }
}

/// Adding two entries of different priorities in one order or in the other,
/// when the lower priority number is added first, gives the same entries.
proof fn lemma_insertion_order_lower_first(entries: Seq<Entry>, e1: Entry, e2: Entry)
    requires
        sorted_by_priority(entries),
        e1.priority < e2.priority,
    ensures
        insert_by_priority(insert_by_priority(entries, e1), e2) == insert_by_priority(
            insert_by_priority(entries, e2),
            e1,
        ),
{
    let p1 = e1.priority;
    let p2 = e2.priority;
    lemma_sorted_position_splits(entries, p1);
    lemma_sorted_position_splits(entries, p2);
    let c1 = priority_position(entries, p1);
    let c2 = priority_position(entries, p2);
    if c1 > c2 {
        assert(entries[c2].priority > p2);
        assert(entries[c2].priority <= p1);
    }
    let s1 = entries.insert(c1, e1);
    let s2 = entries.insert(c2, e2);
    assert(splits_at(s1, p2, c2 + 1)) by {
        assert forall|k: int| 0 <= k < c2 + 1 implies (#[trigger] s1[k]).priority <= p2 by {
            if k < c1 {
                assert(s1[k] == entries[k]);
            } else if k > c1 {
                assert(s1[k] == entries[k - 1]);
            }
        }
        assert forall|k: int| c2 + 1 <= k < s1.len() implies (#[trigger] s1[k]).priority > p2 by {
            assert(s1[k] == entries[k - 1]);
        }
    }
    lemma_split_is_position(s1, p2, c2 + 1);
    assert(splits_at(s2, p1, c1)) by {
        assert forall|k: int| 0 <= k < c1 implies (#[trigger] s2[k]).priority <= p1 by {
            assert(s2[k] == entries[k]);
        }
        assert forall|k: int| c1 <= k < s2.len() implies (#[trigger] s2[k]).priority > p1 by {
            if k < c2 {
                assert(s2[k] == entries[k]);
            } else if k > c2 {
                assert(s2[k] == entries[k - 1]);
            }
        }
    }
    lemma_split_is_position(s2, p1, c1);
    assert(s1.insert(c2 + 1, e2) =~= s2.insert(c1, e1));
}

/// The order in which entries of different priorities are added does not
/// matter: either order gives the same entries, so the same matches.
pub proof fn lemma_insertion_order_irrelevant(entries: Seq<Entry>, e1: Entry, e2: Entry)
    requires
        sorted_by_priority(entries),
        e1.priority != e2.priority,
    ensures
        insert_by_priority(insert_by_priority(entries, e1), e2) == insert_by_priority(
            insert_by_priority(entries, e2),
            e1,
        ),
{
    if e1.priority < e2.priority {
        lemma_insertion_order_lower_first(entries, e1, e2);
    } else {
        lemma_insertion_order_lower_first(entries, e2, e1);
    }
}

/// A registry entry: its priority (lower numbers go first) and its rules.
#[derive(Debug)]
pub struct Entry {
    /// The priority.
    pub priority: u32,
    /// The rules that select this entry.
    pub rules: Vec<Rule>,
}

/// The entries of a registry, in priority order.
#[derive(Debug)]
pub struct Registry {
    entries: Vec<Entry>,
}

impl Registry {
    /// The entries.
    pub closed spec fn view(&self) -> Seq<Entry> {
        self.entries@
    }

    /// Whether the entries are in priority order.
    pub closed spec fn wf(&self) -> bool {
        sorted_by_priority(self.entries@)
    }

    /// A registry with no entries.
    pub fn new() -> (r: Self)
        ensures
            r.view() == Seq::<Entry>::empty(),
            r.wf(),
    {
        Registry { entries: Vec::new() }
    }

    /// The number of entries.
    pub fn len(&self) -> (r: usize)
        ensures
            r == self.view().len(),
    {
        self.entries.len()
    }

    /// Adds an entry after every entry of the same or a lower priority number,
    /// and returns the index it takes.
    pub fn insert_entry(&mut self, priority: u32, rules: Vec<Rule>) -> (idx: usize)
        requires
            old(self).wf(),
        ensures
            final(self).wf(),
            idx == priority_position(old(self).view(), priority),
            splits_at(old(self).view(), priority, idx as int),
            final(self).view() == insert_by_priority(old(self).view(), Entry { priority, rules }),
    {
        let mut idx: usize = 0;
        while idx < self.entries.len() && self.entries[idx].priority <= priority
            invariant
                idx <= self.entries@.len(),
                forall|k: int| 0 <= k < idx ==> self.entries@[k].priority <= priority,
            decreases self.entries@.len() - idx,
        {
            idx = idx + 1;
        }
        proof {
            assert forall|k: int| idx <= k < self.entries@.len() implies (
            #[trigger] self.entries@[k]).priority > priority by {
                assert(self.entries@[idx as int].priority > priority);
            }
            lemma_split_is_position(self.entries@, priority, idx as int);
        }
        self.entries.insert(idx, Entry { priority, rules });
        idx
    }

    /// Adds an entry, keeping priority order (see [`insert_entry`](Self::insert_entry)).
    pub fn entry(self, priority: u32, rules: Vec<Rule>) -> (r: Self)
        requires
            self.wf(),
        ensures
            r.wf(),
            r.view() == insert_by_priority(self.view(), Entry { priority, rules }),
    {
        let mut registry = self;
        registry.insert_entry(priority, rules);
        registry
    }

    /// Replaces the rules of the entry at `idx` (an entry's rules may change).
    pub fn set_rules(&mut self, idx: usize, rules: Vec<Rule>)
        requires
            old(self).wf(),
            idx < old(self).view().len(),
        ensures
            final(self).wf(),
            final(self).view() == old(self).view().update(
                idx as int,
                Entry { priority: old(self).view()[idx as int].priority, rules },
            ),
    {
        let priority = self.entries[idx].priority;
        self.entries.set(idx, Entry { priority, rules });
    }

    /// The first entry, in priority order, that matches the input, with the
    /// input it is to be handed.
    pub fn find_match(&self, input: &InputType) -> (r: Option<(usize, Input)>)
        ensures
            match r {
                Some((i, inp)) => find_from(self.view(), 0, input.view()) == Some((i as int, inp.view())),
                None => find_from(self.view(), 0, input.view()) is None,
            },
    {
        let parsed = match input {
            InputType::Raw(raw) => Input { prefix: None, source: Source::from_string(raw.clone()) },
            InputType::Parsed(p) => p.clone(),
        };
        assert(parsed.view() == parsed_view(input.view()));
        let mut i: usize = 0;
        while i < self.entries.len()
            invariant
                i <= self.entries@.len(),
                parsed.view() == parsed_view(input.view()),
                find_from(self.entries@, 0, input.view()) == find_from(self.entries@, i as int, input.view()),
            decreases self.entries@.len() - i,
        {
            match entry_find(&self.entries[i].rules, input, &parsed) {
                Some(v) => return Some((i, v)),
                None => {},
            }
            i = i + 1;
        }
        None
    }
}

/// The input the entry with these rules receives, if it matches.
fn entry_find(rules: &Vec<Rule>, input: &InputType, parsed: &Input) -> (r: Option<Input>)
    requires
        parsed.view() == parsed_view(input.view()),
    ensures
        match r {
            Some(v) => entry_match(rules@, input.view()) == Some(v.view()),
            None => entry_match(rules@, input.view()) is None,
        },
{
    let mut j: usize = 0;
    while j < rules.len()
        invariant
            j <= rules@.len(),
            prefix_match(rules@, 0, input.view()) == prefix_match(rules@, j as int, input.view()),
        decreases rules@.len() - j,
    {
        match &rules[j] {
            Rule::Prefix(p) => match input {
                InputType::Raw(raw) => match p.match_input(raw.as_str()) {
                    Some(rest) => {
                        return Some(
                            Input { prefix: Some(p.prefix.clone()), source: Source::from_string(rest) },
                        );
                    },
                    None => {},
                },
                InputType::Parsed(inp) => {
                    if p.matches_parsed(inp) {
                        return Some(inp.clone());
                    }
                },
            },
            _ => {},
        }
        j = j + 1;
    }
    let mut k: usize = 0;
    while k < rules.len()
        invariant
            k <= rules@.len(),
            prefix_match(rules@, 0, input.view()) is None,
            parsed.view() == parsed_view(input.view()),
            source_match(rules@, 0, parsed.view().source) == source_match(rules@, k as int, parsed.view().source),
        decreases rules@.len() - k,
    {
        let hit = match (&rules[k], &parsed.source) {
            (Rule::Url(u), Source::Url(url)) => u.matches_input(url),
            (Rule::String(s), Source::String(text)) => s.matches_input(text.as_str()),
            _ => false,
        };
        if hit {
            return Some(parsed.clone());
        }
        k = k + 1;
    }
    None
}

/// `find_from` gives the first entry from `start` on that matches.
proof fn lemma_find_from_first(entries: Seq<Entry>, start: int, input: InputTypeView)
    requires
        0 <= start,
    ensures
        match find_from(entries, start, input) {
            Some((i, v)) => {
                &&& start <= i < entries.len()
                &&& entry_match(entries[i].rules@, input) == Some(v)
                &&& forall|j: int| start <= j < i ==> entry_match(#[trigger] entries[j].rules@, input) is None
            },
            None => forall|j: int|
                start <= j < entries.len() ==> entry_match(#[trigger] entries[j].rules@, input) is None,
        },
    decreases entries.len() - start,
{
    if start < entries.len() {
        lemma_find_from_first(entries, start + 1, input);
    }
}

/// The entry that handles an input is the matching entry with the lowest
/// priority number, the first added among equal ones; when none is found, no
/// entry matches.
pub proof fn lemma_find_match_lowest_priority(registry: Registry, input: InputTypeView)
    requires
        registry.wf(),
    ensures
        match find_from(registry.view(), 0, input) {
            Some((i, v)) => {
                &&& 0 <= i < registry.view().len()
                &&& entry_match(registry.view()[i].rules@, input) == Some(v)
                &&& forall|j: int|
                    0 <= j < i ==> entry_match(#[trigger] registry.view()[j].rules@, input) is None
                &&& forall|k: int|
                    0 <= k < registry.view().len() && entry_match(
                        #[trigger] registry.view()[k].rules@,
                        input,
                    ) is Some ==> registry.view()[i].priority <= registry.view()[k].priority
            },
            None => forall|k: int|
                0 <= k < registry.view().len() ==> entry_match(
                    #[trigger] registry.view()[k].rules@,
                    input,
                ) is None,
        },
{
    lemma_find_from_first(registry.view(), 0, input);
    match find_from(registry.view(), 0, input) {
        Some((i, v)) => {
            assert forall|k: int|
                0 <= k < registry.view().len() && entry_match(
                    #[trigger] registry.view()[k].rules@,
                    input,
                ) is Some implies registry.view()[i].priority <= registry.view()[k].priority by {
                if k < i {
                    assert(entry_match(registry.view()[k].rules@, input) is None);
                } else if k > i {
                    assert(sorted_by_priority(registry.view()));
                }
            }
        },
        None => {},
    }
}

/// A prefix rule that yields an input from raw text yields the same input
/// again from that parsed input; the prefix it found starts the text.
proof fn lemma_prefix_reparse(rules: Seq<Rule>, j: int, raw: Seq<char>)
    requires
        0 <= j,
        prefix_match(rules, j, InputTypeView::Raw(raw)) is Some,
    ensures
        ({
            let v = prefix_match(rules, j, InputTypeView::Raw(raw)).unwrap();
            &&& prefix_match(rules, j, InputTypeView::Parsed(v)) == Some(v)
            &&& v.prefix matches Some(x) && x.len() <= raw.len() && raw.subrange(0, x.len() as int) == x
        }),
    decreases rules.len() - j,
{
    if j < rules.len() {
        match rules[j] {
            Rule::Prefix(p) => {
                if p.spec_match_input(raw) is None {
                    lemma_prefix_reparse(rules, j + 1, raw);
                }
            },
            _ => {
                lemma_prefix_reparse(rules, j + 1, raw);
            },
        }
    }
}

/// A parsed input without a prefix matches no prefix rule.
proof fn lemma_no_prefix_no_match(rules: Seq<Rule>, j: int, i: InputView)
    requires
        0 <= j,
        i.prefix is None,
    ensures
        prefix_match(rules, j, InputTypeView::Parsed(i)) is None,
    decreases rules.len() - j,
{
    if j < rules.len() {
        lemma_no_prefix_no_match(rules, j + 1, i);
    }
}

/// Handing an entry the input it received from raw text, now parsed, gives
/// that same input again.
pub proof fn lemma_reparse_matches_again(rules: Seq<Rule>, raw: Seq<char>)
    requires
        entry_match(rules, InputTypeView::Raw(raw)) is Some,
    ensures
        ({
            let v = entry_match(rules, InputTypeView::Raw(raw)).unwrap();
            entry_match(rules, InputTypeView::Parsed(v)) == Some(v)
        }),
{
    if prefix_match(rules, 0, InputTypeView::Raw(raw)) is Some {
        lemma_prefix_reparse(rules, 0, raw);
    } else {
        let v = parsed_view(InputTypeView::Raw(raw));
        lemma_no_prefix_no_match(rules, 0, v);
    }
}

/// A registry's entries are in priority order, so the laws on sorted entries
/// (such as [`lemma_insertion_order_irrelevant`]) apply to it.
pub proof fn lemma_registry_sorted(registry: Registry)
    requires
        registry.wf(),
    ensures
        sorted_by_priority(registry.view()),
{
}

/// Whether text is written the way `url` writes the URL it parses as (any text
/// that is no URL is).
pub open spec fn in_normal_form(text: Seq<char>) -> bool {
    match url_parse(text) {
        Some((serialization, _, _)) => serialization == text,
        None => true,
    }
}

/// The text an input is written as: its prefix, if any, then its source.
pub open spec fn raw_text(input: InputView) -> Seq<char> {
    let prefix = match input.prefix {
        Some(p) => p,
        None => Seq::<char>::empty(),
    };
    prefix + raw_of(input.source)
}

/// A prefix rule that matches raw text splits it into the prefix and the rest,
/// which becomes the source.
proof fn lemma_prefix_split(rules: Seq<Rule>, j: int, raw: Seq<char>)
    requires
        0 <= j,
        prefix_match(rules, j, InputTypeView::Raw(raw)) is Some,
    ensures
        ({
            let v = prefix_match(rules, j, InputTypeView::Raw(raw)).unwrap();
            &&& v.prefix matches Some(x)
            &&& x.len() <= raw.len()
            &&& raw.subrange(0, x.len() as int) == x
            &&& v.source == source_view_of(raw.subrange(x.len() as int, raw.len() as int))
        }),
    decreases rules.len() - j,
{
    if j < rules.len() {
        match rules[j] {
            Rule::Prefix(p) => {
                if p.spec_match_input(raw) is None {
                    lemma_prefix_split(rules, j + 1, raw);
                }
            },
            _ => {
                lemma_prefix_split(rules, j + 1, raw);
            },
        }
    }
}

/// The input an entry receives from raw text is written as that text again,
/// when the text its source is read from is in normal form (a URL as `url`
/// writes it, or no URL at all).
pub proof fn lemma_raw_input_round_trip(rules: Seq<Rule>, raw: Seq<char>)
    requires
        entry_match(rules, InputTypeView::Raw(raw)) is Some,
        ({
            let v = entry_match(rules, InputTypeView::Raw(raw)).unwrap();
            in_normal_form(
                match v.prefix {
                    Some(x) => raw.subrange(x.len() as int, raw.len() as int),
                    None => raw,
                },
            )
        }),
    ensures
        raw_text(entry_match(rules, InputTypeView::Raw(raw)).unwrap()) == raw,
{
    let v = entry_match(rules, InputTypeView::Raw(raw)).unwrap();
    if prefix_match(rules, 0, InputTypeView::Raw(raw)) is Some {
        lemma_prefix_split(rules, 0, raw);
        let x = v.prefix.unwrap();
        let rest = raw.subrange(x.len() as int, raw.len() as int);
        assert(raw_of(source_view_of(rest)) == rest);
        assert(raw =~= x + rest);
    } else {
        assert(raw_of(source_view_of(raw)) == raw);
        assert(raw_text(v) =~= raw);
    }
}

/// A matcher on a value accepts only present values, while `Any` accepts
/// anything; so an entry whose rule checks the domain of a URL never matches
/// a URL that has no domain (such as one with an IP address for its host).
pub proof fn lemma_domain_rule_needs_domain(
    m: Matcher,
    scheme: MatchType,
    raw: Seq<char>,
    serialization: Seq<char>,
    url_scheme: Seq<char>,
)
    requires
        url_parse(raw) == Some((serialization, url_scheme, None::<Seq<char>>)),
    ensures
        !MatchType::Value(m).spec_matches(None),
        MatchType::Any.spec_matches(None),
        entry_match(
            seq![Rule::Url(UrlMatcher { scheme, domain: MatchType::Value(m) })],
            InputTypeView::Raw(raw),
        ) is None,
{
    let rules = seq![Rule::Url(UrlMatcher { scheme, domain: MatchType::Value(m) })];
    assert(prefix_match(rules, 1, InputTypeView::Raw(raw)) is None);
    assert(prefix_match(rules, 0, InputTypeView::Raw(raw)) is None);
    assert(source_match(rules, 1, parsed_view(InputTypeView::Raw(raw)).source) == false);
    assert(!source_match(rules, 0, parsed_view(InputTypeView::Raw(raw)).source));
}

} // verus!
