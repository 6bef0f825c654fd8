//! The in-memory filter engine.
//!
//! [`FilterState`] holds every user-configurable criterion together with
//! the derived structures (parsed id sets, lowercase caches, the compiled
//! pattern). Derivation is two-phase: raw text edits take effect on
//! [`FilterState::parse_event_ids`] / [`FilterState::update_search_cache`]
//! / [`FilterState::parse_time_range`], and [`FilterState::matches`] reads
//! only the derived state.

use vstd::prelude::*;
use vstd::hash_set::HashSetWithView;
use vstd::utf8::is_ascii_chars;
use crate::pattern::regex_compile_ok;
use crate::pattern::regex_match_of;
use crate::pattern::compile_regex;
use crate::pattern::regex_is_match;
use crate::record::EventRecord;
use crate::record::clamped_level;
use crate::record::clamp_level;
use crate::text::ascii_ci_contains;
use crate::text::ascii_lower;
use crate::text::chars_of;
use crate::text::contains_seq;
use crate::text::find_ascii_ci;
use crate::text::find_exact;
use crate::text::lower_of;
use crate::text::lowercase;
use crate::timefmt::local_dt_parts;
use crate::text::parse_u32_spec;
use crate::text::split_commas;
use crate::text::split_commas_exec;
use crate::text::trim_chars;
use crate::text::trim_spec;

verus! {

broadcast use vstd::std_specs::hash::group_hash_axioms;

/// Holds all active filter criteria; every field defaults to "pass all".
pub struct FilterState {
    /// Raw text of the event-id input field: comma-separated ids, ranges
    /// (`4000-4999`) and negations (`!1001`).
    pub event_id_input: String,
    /// Ids to include, parsed from `event_id_input`; empty means all.
    pub include_ids: HashSetWithView<u32>,
    /// Ids to exclude, parsed from `event_id_input`.
    pub exclude_ids: HashSetWithView<u32>,
    /// Which severity levels pass, indexed by clamped level.
    pub levels: [bool; 6],
    /// Provider-name substring criterion (case-insensitive).
    pub provider_filter: String,
    /// Free-text criterion, matched against message, provider, channel,
    /// payload pairs and the raw serialized form.
    pub text_search: String,
    /// Lowercase cache of `text_search`.
    pub text_search_lower: String,
    /// Lowercase cache of `provider_filter`.
    pub provider_filter_lower: String,
    /// Raw text of the lower time bound.
    pub time_from_input: String,
    /// Raw text of the upper time bound.
    pub time_to_input: String,
    /// Parsed lower time bound (UTC milliseconds), inclusive.
    pub time_from: Option<i64>,
    /// Parsed upper time bound (UTC milliseconds), inclusive.
    pub time_to: Option<i64>,
    /// Whether free-text search is case-sensitive.
    pub case_sensitive: bool,
    /// Whether free-text search uses a compiled pattern.
    pub use_regex: bool,
    /// The compiled pattern for `text_search` when `use_regex` is on;
    /// `None` for an empty or rejected pattern, which matches nothing.
    pub compiled_regex: Option<regex::Regex>,
}

// ── What a record must satisfy ──────────────────────────────────────────

/// Case-insensitive containment as the engine evaluates it: an ASCII
/// window match on the (already lowercased) needle, with a full-Unicode
/// fallback only for non-ASCII haystacks.
pub open spec fn ci_contains_full(h: Seq<char>, n: Seq<char>) -> bool {
    if n.len() == 0 {
        true
    } else if ascii_ci_contains(h, n) {
        true
    } else if !is_ascii_chars(h) {
        contains_seq(lower_of(h), n)
    } else {
        false
    }
}

/// The record's severity level is enabled.
pub open spec fn level_pass(f: FilterState, r: EventRecord) -> bool {
    f.levels@[clamped_level(r.level)]
}

/// The record's id passes inclusion, and exclusion always wins.
pub open spec fn id_pass(f: FilterState, r: EventRecord) -> bool {
    (f.include_ids@.len() == 0 || f.include_ids@.contains(r.event_id))
        && !f.exclude_ids@.contains(r.event_id)
}

/// The record's timestamp lies within the inclusive time bounds.
pub open spec fn time_pass(f: FilterState, r: EventRecord) -> bool {
    &&& match f.time_from {
        Some(from) => r.timestamp >= from,
        None => true,
    }
    &&& match f.time_to {
        Some(to) => r.timestamp <= to,
        None => true,
    }
}

/// The provider-name substring criterion passes.
pub open spec fn provider_pass(f: FilterState, r: EventRecord) -> bool {
    f.provider_filter@.len() == 0 || ci_contains_full(
        r.provider_name@,
        f.provider_filter_lower@,
    )
}

/// The payload pair at `k` hits the literal case-sensitive search.
pub open spec fn data_cs_hit(r: EventRecord, k: int, q: Seq<char>) -> bool {
    contains_seq(r.event_data@[k].0@, q) || contains_seq(r.event_data@[k].1@, q)
}

/// Literal case-sensitive text search over the record's fields.
pub open spec fn text_cs_pass(q: Seq<char>, r: EventRecord) -> bool {
    ||| contains_seq(r.message@, q)
    ||| contains_seq(r.provider_name@, q)
    ||| contains_seq(r.channel@, q)
    ||| exists|i: int| 0 <= i < r.event_data@.len() && #[trigger] data_cs_hit(r, i, q)
    ||| contains_seq(r.raw_xml@, q)
}

/// The payload pair at `k` hits the literal case-insensitive search.
pub open spec fn data_ci_hit(r: EventRecord, k: int, q: Seq<char>) -> bool {
    ci_contains_full(r.event_data@[k].0@, q) || ci_contains_full(r.event_data@[k].1@, q)
}

/// Literal case-insensitive text search over the record's fields.
pub open spec fn text_ci_pass(q: Seq<char>, r: EventRecord) -> bool {
    ||| ci_contains_full(r.message@, q)
    ||| ci_contains_full(r.provider_name@, q)
    ||| ci_contains_full(r.channel@, q)
    ||| exists|i: int| 0 <= i < r.event_data@.len() && #[trigger] data_ci_hit(r, i, q)
    ||| ci_contains_full(r.raw_xml@, q)
}

/// Pattern text search over the record's fields; an absent (invalid or
/// empty) compiled pattern matches nothing.
pub open spec fn text_regex_pass(f: FilterState, r: EventRecord) -> bool {
    match f.compiled_regex {
        Some(re) => {
            ||| regex_match_of(re, r.message@)
            ||| regex_match_of(re, r.provider_name@)
            ||| regex_match_of(re, r.channel@)
            ||| exists|i: int| 0 <= i < r.event_data@.len() && #[trigger] data_regex_hit(r, i, re)
            ||| regex_match_of(re, r.raw_xml@)
        },
        None => false,
    }
}

/// The payload pair at `k` hits the pattern search.
pub open spec fn data_regex_hit(r: EventRecord, k: int, re: regex::Regex) -> bool {
    regex_match_of(re, r.event_data@[k].0@) || regex_match_of(re, r.event_data@[k].1@)
}

/// The free-text criterion in the active mode.
pub open spec fn text_pass(f: FilterState, r: EventRecord) -> bool {
    if f.use_regex {
        text_regex_pass(f, r)
    } else if f.case_sensitive {
        text_cs_pass(f.text_search@, r)
    } else {
        text_ci_pass(f.text_search_lower@, r)
    }
}

/// Whether `r` satisfies every active criterion of `f`.
pub open spec fn spec_matches(f: FilterState, r: EventRecord) -> bool {
    &&& level_pass(f, r)
    &&& id_pass(f, r)
    &&& time_pass(f, r)
    &&& provider_pass(f, r)
    &&& (f.text_search@.len() == 0 || text_pass(f, r))
}

/// Every field at its pass-all default.
pub open spec fn is_default_filter(f: FilterState) -> bool {
    &&& f.event_id_input@.len() == 0
    &&& f.include_ids@ == Set::<u32>::empty()
    &&& f.exclude_ids@ == Set::<u32>::empty()
    &&& f.levels@ =~= seq![true, true, true, true, true, true]
    &&& f.provider_filter@.len() == 0
    &&& f.text_search@.len() == 0
    &&& f.text_search_lower@.len() == 0
    &&& f.provider_filter_lower@.len() == 0
    &&& f.time_from_input@.len() == 0
    &&& f.time_to_input@.len() == 0
    &&& f.time_from is None
    &&& f.time_to is None
    &&& !f.case_sensitive
    &&& !f.use_regex
    &&& f.compiled_regex is None
}

impl Default for FilterState {
    /// The pass-all filter.
    fn default() -> (r: Self)
        ensures
            is_default_filter(r),
    {
        let r = FilterState {
            event_id_input: String::new(),
            include_ids: HashSetWithView::<u32>::new(),
            exclude_ids: HashSetWithView::<u32>::new(),
            levels: [true, true, true, true, true, true],
            provider_filter: String::new(),
            text_search: String::new(),
            text_search_lower: String::new(),
            provider_filter_lower: String::new(),
            time_from_input: String::new(),
            time_to_input: String::new(),
            time_from: None,
            time_to: None,
            case_sensitive: false,
            use_regex: false,
            compiled_regex: None,
        };
        r
    }
}

// ── Matching ────────────────────────────────────────────────────────────

/// Case-insensitive substring search: a byte-cheap ASCII comparison with a
/// full-Unicode fallback only when the haystack holds non-ASCII text.
/// `needle_lower` must already be lowercased, as the derived caches are.
pub fn contains_case_insensitive(haystack: &str, needle_lower: &str) -> (r: bool)
    ensures
        r == ci_contains_full(haystack@, needle_lower@),
{
    let n = chars_of(needle_lower);
    if n.len() == 0 {
        return true;
    }
    let h = chars_of(haystack);
    if find_ascii_ci(&h, &n) {
        return true;
    }
    if !haystack.is_ascii() {
        let low = lowercase(haystack);
        let lv = chars_of(low.as_str());
        return find_exact(&lv, &n);
    }
    false
}

impl FilterState {
    /// Test whether the record matches all active criteria, cheapest
    /// first.
    pub fn matches(&self, event: &EventRecord) -> (r: bool)
        ensures
            r == spec_matches(*self, *event),
    {
        let li = clamp_level(event.level);
        if !self.levels[li] {
            return false;
        }
        if self.include_ids.len() != 0 && !self.include_ids.contains(&event.event_id) {
            return false;
        }
        if self.exclude_ids.contains(&event.event_id) {
            return false;
        }
        match self.time_from {
            Some(from) => {
                if event.timestamp < from {
                    return false;
                }
            },
            None => {},
        }
        match self.time_to {
            Some(to) => {
                if event.timestamp > to {
                    return false;
                }
            },
            None => {},
        }
        if !self.provider_filter.as_str().is_empty() && !contains_case_insensitive(
            event.provider_name.as_str(),
            self.provider_filter_lower.as_str(),
        ) {
            return false;
        }
        if !self.text_search.as_str().is_empty() {
            let hit = if self.use_regex {
                self.text_search_regex(event)
            } else if self.case_sensitive {
                self.text_search_case_sensitive(event)
            } else {
                self.text_search_case_insensitive(event)
            };
            if !hit {
                return false;
            }
        }
        true
    }

    /// Case-sensitive literal search across the record's fields.
    #[verifier::loop_isolation(false)]
    fn text_search_case_sensitive(&self, event: &EventRecord) -> (r: bool)
        ensures
            r == text_cs_pass(self.text_search@, *event),
    {
        let q = chars_of(self.text_search.as_str());
        if find_exact(&chars_of(event.message.as_str()), &q) {
            return true;
        }
        if find_exact(&chars_of(event.provider_name.as_str()), &q) {
            return true;
        }
        if find_exact(&chars_of(event.channel.as_str()), &q) {
            return true;
        }
        let mut i: usize = 0;
        while i < event.event_data.len()
            invariant
                i <= event.event_data@.len(),
                q@ == self.text_search@,
                forall|k: int| 0 <= k < i ==> !#[trigger] data_cs_hit(*event, k, self.text_search@),
            decreases event.event_data@.len() - i,
        {
            let pair = &event.event_data[i];
            if find_exact(&chars_of(pair.0.as_str()), &q) {
                proof {
                    assert(data_cs_hit(*event, i as int, self.text_search@));
                }
                return true;
            }
            if find_exact(&chars_of(pair.1.as_str()), &q) {
                proof {
                    assert(data_cs_hit(*event, i as int, self.text_search@));
                }
                return true;
            }
            proof {
                assert(!data_cs_hit(*event, i as int, self.text_search@));
            }
            i = i + 1;
        }
        if find_exact(&chars_of(event.raw_xml.as_str()), &q) {
            return true;
        }
        false
    }

    /// Case-insensitive literal search across the record's fields, using
    /// the lowercase cache.
    #[verifier::loop_isolation(false)]
    fn text_search_case_insensitive(&self, event: &EventRecord) -> (r: bool)
        ensures
            r == text_ci_pass(self.text_search_lower@, *event),
    {
        let q = self.text_search_lower.as_str();
        if contains_case_insensitive(event.message.as_str(), q) {
            return true;
        }
        if contains_case_insensitive(event.provider_name.as_str(), q) {
            return true;
        }
        if contains_case_insensitive(event.channel.as_str(), q) {
            return true;
        }
        let mut i: usize = 0;
        while i < event.event_data.len()
            invariant
                i <= event.event_data@.len(),
                forall|k: int|
                    0 <= k < i ==> !#[trigger] data_ci_hit(*event, k, self.text_search_lower@),
            decreases event.event_data@.len() - i,
        {
            let pair = &event.event_data[i];
            if contains_case_insensitive(pair.0.as_str(), q) {
                proof {
                    assert(data_ci_hit(*event, i as int, self.text_search_lower@));
                }
                return true;
            }
            if contains_case_insensitive(pair.1.as_str(), q) {
                proof {
                    assert(data_ci_hit(*event, i as int, self.text_search_lower@));
                }
                return true;
            }
            proof {
                assert(!data_ci_hit(*event, i as int, self.text_search_lower@));
            }
            i = i + 1;
        }
        if contains_case_insensitive(event.raw_xml.as_str(), q) {
            return true;
        }
        false
    }

    /// Pattern search across the record's fields; an absent compiled
    /// pattern matches nothing.
    #[verifier::loop_isolation(false)]
    fn text_search_regex(&self, event: &EventRecord) -> (r: bool)
        ensures
            r == text_regex_pass(*self, *event),
    {
        let re = match &self.compiled_regex {
            Some(re) => re,
            None => {
                return false;
            },
        };
        if regex_is_match(re, event.message.as_str()) {
            return true;
        }
        if regex_is_match(re, event.provider_name.as_str()) {
            return true;
        }
        if regex_is_match(re, event.channel.as_str()) {
            return true;
        }
        let mut i: usize = 0;
        while i < event.event_data.len()
            invariant
                self.compiled_regex == Some(*re),
                i <= event.event_data@.len(),
                forall|k: int| 0 <= k < i ==> !#[trigger] data_regex_hit(*event, k, *re),
            decreases event.event_data@.len() - i,
        {
            let pair = &event.event_data[i];
            if regex_is_match(re, pair.0.as_str()) {
                proof {
                    assert(data_regex_hit(*event, i as int, *re));
                }
                return true;
            }
            if regex_is_match(re, pair.1.as_str()) {
                proof {
                    assert(data_regex_hit(*event, i as int, *re));
                }
                return true;
            }
            proof {
                assert(!data_regex_hit(*event, i as int, *re));
            }
            i = i + 1;
        }
        if regex_is_match(re, event.raw_xml.as_str()) {
            return true;
        }
        false
    }

    /// Refresh the lowercase caches and recompile the pattern. Must be
    /// called after editing `text_search`, `provider_filter`,
    /// `case_sensitive` or `use_regex`.
    pub fn update_search_cache(&mut self)
        ensures
            final (self).text_search_lower@ == lower_of(old(self).text_search@),
            final (self).provider_filter_lower@ == lower_of(old(self).provider_filter@),
            old(self).use_regex && old(self).text_search@.len() > 0 ==> ((final (self).compiled_regex) is Some) == regex_compile_ok(old(self).text_search@, !old(self).case_sensitive),
            !(old(self).use_regex && old(self).text_search@.len() > 0) ==> (final (self).compiled_regex) is None,
            final (self).event_id_input == old(self).event_id_input,
            final (self).include_ids == old(self).include_ids,
            final (self).exclude_ids == old(self).exclude_ids,
            final (self).levels == old(self).levels,
            final (self).provider_filter == old(self).provider_filter,
            final (self).text_search == old(self).text_search,
            final (self).time_from_input == old(self).time_from_input,
            final (self).time_to_input == old(self).time_to_input,
            final (self).time_from == old(self).time_from,
            final (self).time_to == old(self).time_to,
            final (self).case_sensitive == old(self).case_sensitive,
            final (self).use_regex == old(self).use_regex,
    {
        self.text_search_lower = lowercase(self.text_search.as_str());
        self.provider_filter_lower = lowercase(self.provider_filter.as_str());
        if self.use_regex && !self.text_search.as_str().is_empty() {
            self.compiled_regex = compile_regex(self.text_search.as_str(), !self.case_sensitive);
        } else {
            self.compiled_regex = None;
        }
    }
}


// ── Parsing the event-id input ──────────────────────────────────────────

/// Saturating addition on ids.
pub open spec fn sat_add_u32(a: u32, b: u32) -> u32 {
    if a + b > u32::MAX {
        u32::MAX
    } else {
        (a + b) as u32
    }
}

/// The ids from `lo` to `hi` inclusive (bounds as mathematical integers).
pub open spec fn id_span(lo: int, hi: int) -> Set<u32> {
    Set::new(|x: u32| lo <= x <= hi)
}

/// The ids denoted by a range token written as `a-b`: the bounds are
/// swapped into order, and the span is capped so a range never denotes
/// more than 100000 ids (saturating near the top of the id space), so a
/// stray huge range cannot blow up memory.
pub open spec fn range_ids(a: u32, b: u32) -> Set<u32> {
    let lo = if a <= b {
        a
    } else {
        b
    };
    let hi = if a <= b {
        b
    } else {
        a
    };
    let capped = if hi <= sat_add_u32(lo, 99_999) {
        hi
    } else {
        sat_add_u32(lo, 99_999)
    };
    id_span(lo as int, capped as int)
}

/// First index at or after `i` holding a dash, or `s.len()` if none does.
pub open spec fn first_dash(s: Seq<char>, i: int) -> int
    decreases s.len() - i,
{
    if 0 <= i < s.len() {
        if s[i] == '-' {
            i
        } else {
            first_dash(s, i + 1)
        }
    } else {
        s.len() as int
    }
}

/// What one comma-separated token contributes: `None` for an empty or
/// malformed token (which is ignored), else the routing flag (`true` for
/// a `!`-negated token) and the denoted id set.
pub open spec fn token_ids(tok: Seq<char>) -> Option<(bool, Set<u32>)> {
    let t = trim_spec(tok);
    if t.len() == 0 {
        None
    } else {
        let neg = t[0] == '!';
        let body = if neg {
            trim_spec(t.drop_first())
        } else {
            t
        };
        let di = first_dash(body, 0);
        if di < body.len() {
            let a = parse_u32_spec(trim_spec(body.take(di)));
            let b = parse_u32_spec(trim_spec(body.skip(di + 1)));
            if a is Some && b is Some {
                Some((neg, range_ids(a->Some_0, b->Some_0)))
            } else {
                None
            }
        } else {
            match parse_u32_spec(body) {
                Some(id) => Some((neg, id_span(id as int, id as int))),
                None => None,
            }
        }
    }
}

/// Union of the ids of the tokens routed to `neg`.
pub open spec fn ids_of_tokens(toks: Seq<Seq<char>>, neg: bool) -> Set<u32>
    decreases toks.len(),
{
    if toks.len() == 0 {
        Set::empty()
    } else {
        let rest = ids_of_tokens(toks.drop_last(), neg);
        match token_ids(toks.last()) {
            Some(p) => if p.0 == neg {
                rest.union(p.1)
            } else {
                rest
            },
            None => rest,
        }
    }
}

/// The include set denoted by the whole id input field.
pub open spec fn include_ids_spec(input: Seq<char>) -> Set<u32> {
    ids_of_tokens(split_commas(input), false)
}

/// The exclude set denoted by the whole id input field.
pub open spec fn exclude_ids_spec(input: Seq<char>) -> Set<u32> {
    ids_of_tokens(split_commas(input), true)
}

/// First dash position in `v`, or its length.
#[verifier::loop_isolation(false)]
fn find_dash(v: &Vec<char>) -> (r: usize)
    ensures
        r == first_dash(v@, 0),
        r <= v@.len(),
{
    let mut i: usize = 0;
    while i < v.len() && v[i] != '-'
        invariant
            i <= v@.len(),
            first_dash(v@, 0) == first_dash(v@, i as int),
        decreases v@.len() - i,
    {
        i = i + 1;
    }
    i
}

/// Insert every id from `lo` to `hi` inclusive.
#[verifier::loop_isolation(false)]
fn insert_id_span(s: &mut vstd::hash_set::HashSetWithView<u32>, lo: u32, hi: u32)
    requires
        lo <= hi,
        hi - lo <= 100_000,
    ensures
        final (s)@ == old(s)@.union(id_span(lo as int, hi as int)),
{
    let n: u32 = hi - lo;
    let mut ofs: u32 = 0;
    proof {
        assert(old(s)@.union(id_span(lo as int, lo as int - 1)) =~= old(s)@);
    }
    while ofs <= n
        invariant
            ofs <= n + 1,
            s@ == old(s)@.union(id_span(lo as int, lo as int + ofs - 1)),
        decreases n + 1 - ofs,
    {
        s.insert(lo + ofs);
        proof {
            assert(old(s)@.union(id_span(lo as int, lo as int + ofs - 1)).insert(
                (lo + ofs) as u32,
            ) =~= old(s)@.union(id_span(lo as int, lo as int + ofs)));
        }
        ofs = ofs + 1;
    }
}

/// Apply one token to the include / exclude sets.
#[verifier::loop_isolation(false)]
fn apply_token(
    inc: &mut vstd::hash_set::HashSetWithView<u32>,
    exc: &mut vstd::hash_set::HashSetWithView<u32>,
    tok: &Vec<char>,
)
    ensures
        ({
            let t = token_ids(tok@);
            &&& (t is None ==> final (inc)@ == old(inc)@ && final (exc)@ == old(exc)@)
            &&& (t matches Some(p) ==> {
                &&& (!p.0 ==> final (inc)@ == old(inc)@.union(p.1) && final (exc)@ == old(exc)@)
                &&& (p.0 ==> final (exc)@ == old(exc)@.union(p.1) && final (inc)@ == old(inc)@)
            })
        }),
{
    let t = trim_chars(tok);
    if t.len() == 0 {
        return ;
    }
    let neg = t[0] == '!';
    let body: Vec<char> = if neg {
        let rest = crate::text::slice_chars(&t, 1, t.len());
        proof {
            assert(rest@ =~= t@.drop_first());
        }
        trim_chars(&rest)
    } else {
        t
    };
    let di = find_dash(&body);
    if di < body.len() {
        let a_part = trim_chars(&crate::text::slice_chars(&body, 0, di));
        let b_part = trim_chars(&crate::text::slice_chars(&body, di + 1, body.len()));
        proof {
            assert(body@.subrange(0, di as int) =~= body@.take(di as int));
            assert(body@.subrange(di as int + 1, body@.len() as int) =~= body@.skip(di as int + 1));
        }
        let av = match crate::text::parse_u32_chars(&a_part) {
            Some(n) => n,
            None => {
                return ;
            },
        };
        let bv = match crate::text::parse_u32_chars(&b_part) {
            Some(n) => n,
            None => {
                return ;
            },
        };
        let lo: u32 = if av <= bv {
            av
        } else {
            bv
        };
        let hi: u32 = if av <= bv {
            bv
        } else {
            av
        };
        let cap: u32 = if lo > u32::MAX - 99_999 {
            u32::MAX
        } else {
            lo + 99_999
        };
        let ch: u32 = if hi <= cap {
            hi
        } else {
            cap
        };
        if neg {
            insert_id_span(exc, lo, ch);
        } else {
            insert_id_span(inc, lo, ch);
        }
    } else {
        let id = match crate::text::parse_u32_chars(&body) {
            Some(n) => n,
            None => {
                return ;
            },
        };
        if neg {
            exc.insert(id);
            proof {
                assert(old(exc)@.insert(id) =~= old(exc)@.union(id_span(id as int, id as int)));
            }
        } else {
            inc.insert(id);
            proof {
                assert(old(inc)@.insert(id) =~= old(inc)@.union(id_span(id as int, id as int)));
            }
        }
    }
}


impl FilterState {
    /// Re-parse the raw id input into the include / exclude sets; also
    /// refreshes the text-search caches, as the canonical derive step.
    #[verifier::loop_isolation(false)]
    pub fn parse_event_ids(&mut self)
        ensures
            final (self).include_ids@ == include_ids_spec(old(self).event_id_input@),
            final (self).exclude_ids@ == exclude_ids_spec(old(self).event_id_input@),
            final (self).text_search_lower@ == lower_of(old(self).text_search@),
            final (self).provider_filter_lower@ == lower_of(old(self).provider_filter@),
            old(self).use_regex && old(self).text_search@.len() > 0 ==> ((final (self).compiled_regex) is Some) == regex_compile_ok(old(self).text_search@, !old(self).case_sensitive),
            !(old(self).use_regex && old(self).text_search@.len() > 0) ==> (final (self).compiled_regex) is None,
            final (self).event_id_input == old(self).event_id_input,
            final (self).levels == old(self).levels,
            final (self).provider_filter == old(self).provider_filter,
            final (self).text_search == old(self).text_search,
            final (self).time_from_input == old(self).time_from_input,
            final (self).time_to_input == old(self).time_to_input,
            final (self).time_from == old(self).time_from,
            final (self).time_to == old(self).time_to,
            final (self).case_sensitive == old(self).case_sensitive,
            final (self).use_regex == old(self).use_regex,
    {
        self.include_ids.clear();
        self.exclude_ids.clear();
        let chars = chars_of(self.event_id_input.as_str());
        let tokens = split_commas_exec(&chars);
        let ghost tviews = tokens@.map_values(|t: Vec<char>| t@);
        let mut i: usize = 0;
        proof {
            assert(ids_of_tokens(tviews.take(0), false) =~= Set::<u32>::empty());
            assert(ids_of_tokens(tviews.take(0), true) =~= Set::<u32>::empty());
        }
        while i < tokens.len()
            invariant
                i <= tokens@.len(),
                tviews == tokens@.map_values(|t: Vec<char>| t@),
                tviews == split_commas(old(self).event_id_input@),
                self.include_ids@ == ids_of_tokens(tviews.take(i as int), false),
                self.exclude_ids@ == ids_of_tokens(tviews.take(i as int), true),
                self.event_id_input == old(self).event_id_input,
                self.levels == old(self).levels,
                self.provider_filter == old(self).provider_filter,
                self.text_search == old(self).text_search,
                self.text_search_lower == old(self).text_search_lower,
                self.provider_filter_lower == old(self).provider_filter_lower,
                self.time_from_input == old(self).time_from_input,
                self.time_to_input == old(self).time_to_input,
                self.time_from == old(self).time_from,
                self.time_to == old(self).time_to,
                self.case_sensitive == old(self).case_sensitive,
                self.use_regex == old(self).use_regex,
            decreases tokens@.len() - i,
        {
            apply_token(&mut self.include_ids, &mut self.exclude_ids, &tokens[i]);
            proof {
                assert(tviews.take(i as int + 1).drop_last() =~= tviews.take(i as int));
                assert(tviews.take(i as int + 1).last() == tokens@[i as int]@);
            }
            i = i + 1;
        }
        proof {
            assert(tviews.take(tviews.len() as int) =~= tviews);
        }
        self.update_search_cache();
    }

    /// Re-parse the raw time-bound inputs into the parsed bounds.
    pub fn parse_time_range(&mut self)
        ensures
            local_dt_parts(trim_spec(old(self).time_from_input@)) is None ==> (final (self).time_from) is None,
            (final (self).time_from) is Some ==> local_dt_parts(trim_spec(old(self).time_from_input@)) is Some,
            local_dt_parts(trim_spec(old(self).time_to_input@)) is None ==> (final (self).time_to) is None,
            (final (self).time_to) is Some ==> local_dt_parts(trim_spec(old(self).time_to_input@)) is Some,
            final (self).event_id_input == old(self).event_id_input,
            final (self).include_ids == old(self).include_ids,
            final (self).exclude_ids == old(self).exclude_ids,
            final (self).levels == old(self).levels,
            final (self).provider_filter == old(self).provider_filter,
            final (self).text_search == old(self).text_search,
            final (self).text_search_lower == old(self).text_search_lower,
            final (self).provider_filter_lower == old(self).provider_filter_lower,
            final (self).time_from_input == old(self).time_from_input,
            final (self).time_to_input == old(self).time_to_input,
            final (self).case_sensitive == old(self).case_sensitive,
            final (self).use_regex == old(self).use_regex,
            final (self).compiled_regex == old(self).compiled_regex,
    {
        self.time_from = crate::timefmt::parse_datetime_input(self.time_from_input.as_str());
        self.time_to = crate::timefmt::parse_datetime_input(self.time_to_input.as_str());
    }

    /// All criteria at their pass-all state (ignoring stale caches).
    pub fn is_empty(&self) -> (r: bool)
        ensures
            r == is_empty_spec(*self),
    {
        let levels_all = self.levels[0] && self.levels[1] && self.levels[2] && self.levels[3]
            && self.levels[4] && self.levels[5];
        proof {
            if levels_all {
                assert forall|i: int| 0 <= i < 6 implies self.levels@[i] by {
                    assert(self.levels@[0] && self.levels@[1] && self.levels@[2]
                        && self.levels@[3] && self.levels@[4] && self.levels@[5]);
                }
            }
        }
        self.event_id_input.as_str().is_empty() && levels_all
            && self.provider_filter.as_str().is_empty() && self.text_search.as_str().is_empty()
            && self.time_from.is_none() && self.time_to.is_none()
    }

    /// How many of the five criterion groups are narrowed from default.
    pub fn active_count(&self) -> (n: usize)
        ensures
            n == active_count_spec(*self),
    {
        let mut n: usize = 0;
        if !self.event_id_input.as_str().is_empty() {
            n = n + 1;
        }
        let levels_all = self.levels[0] && self.levels[1] && self.levels[2] && self.levels[3]
            && self.levels[4] && self.levels[5];
        proof {
            if levels_all {
                assert forall|i: int| 0 <= i < 6 implies self.levels@[i] by {
                    assert(self.levels@[0] && self.levels@[1] && self.levels@[2]
                        && self.levels@[3] && self.levels@[4] && self.levels@[5]);
                }
            }
        }
        if !levels_all {
            n = n + 1;
        }
        if !self.provider_filter.as_str().is_empty() {
            n = n + 1;
        }
        if !self.text_search.as_str().is_empty() {
            n = n + 1;
        }
        if self.time_from.is_some() || self.time_to.is_some() {
            n = n + 1;
        }
        n
    }

    /// Reset every criterion to its default.
    pub fn clear(&mut self)
        ensures
            is_default_filter(*final (self)),
    {
        *self = FilterState::default();
    }

    /// Narrow to the last `hours` hours: the lower bound becomes now minus
    /// that span (clamped at the representable minimum), the upper bound is
    /// unset, and the raw inputs are rewritten to show the new bounds.
    pub fn apply_time_preset(&mut self, hours: i64)
        requires
            0 <= hours <= 1_000_000,
        ensures
            (final (self).time_from) is Some,
            (final (self).time_to) is None,
            final (self).time_to_input@.len() == 0,
            final (self).event_id_input == old(self).event_id_input,
            final (self).include_ids == old(self).include_ids,
            final (self).exclude_ids == old(self).exclude_ids,
            final (self).levels == old(self).levels,
            final (self).provider_filter == old(self).provider_filter,
            final (self).text_search == old(self).text_search,
            final (self).text_search_lower == old(self).text_search_lower,
            final (self).provider_filter_lower == old(self).provider_filter_lower,
            final (self).case_sensitive == old(self).case_sensitive,
            final (self).use_regex == old(self).use_regex,
            final (self).compiled_regex == old(self).compiled_regex,
    {
        let now = crate::timefmt::now_utc_ms();
        let delta: i64 = hours * 3_600_000;
        let from: i64 = if now >= i64::MIN + delta {
            now - delta
        } else {
            i64::MIN
        };
        self.time_from = Some(from);
        self.time_to = None;
        self.time_from_input = crate::timefmt::format_table_timestamp(from);
        self.time_to_input = String::new();
    }

    /// Narrow to today: the lower bound becomes local midnight, the upper
    /// bound is unset. Where the local calendar has no midnight today (a
    /// clock change skips it), the criteria are left as they were.
    pub fn apply_today_preset(&mut self)
        ensures
            ((final (self).time_from) is Some && (final (self).time_to) is None)
                || (final (self).time_from == old(self).time_from
                && final (self).time_to == old(self).time_to
                && final (self).time_from_input == old(self).time_from_input
                && final (self).time_to_input == old(self).time_to_input),
            final (self).event_id_input == old(self).event_id_input,
            final (self).include_ids == old(self).include_ids,
            final (self).exclude_ids == old(self).exclude_ids,
            final (self).levels == old(self).levels,
            final (self).provider_filter == old(self).provider_filter,
            final (self).text_search == old(self).text_search,
            final (self).text_search_lower == old(self).text_search_lower,
            final (self).provider_filter_lower == old(self).provider_filter_lower,
            final (self).case_sensitive == old(self).case_sensitive,
            final (self).use_regex == old(self).use_regex,
            final (self).compiled_regex == old(self).compiled_regex,
    {
        match crate::timefmt::local_today_midnight_utc_ms() {
            Some(from) => {
                self.time_from = Some(from);
                self.time_to = None;
                self.time_from_input = crate::timefmt::format_table_timestamp(from);
                self.time_to_input = String::new();
            },
            None => {},
        }
    }
}

/// No criterion narrows anything (raw inputs at defaults).
pub open spec fn is_empty_spec(f: FilterState) -> bool {
    &&& f.event_id_input@.len() == 0
    &&& forall|i: int| 0 <= i < 6 ==> f.levels@[i]
    &&& f.provider_filter@.len() == 0
    &&& f.text_search@.len() == 0
    &&& f.time_from is None
    &&& f.time_to is None
}

/// The number of criterion groups narrowed from their defaults.
pub open spec fn active_count_spec(f: FilterState) -> int {
    (if f.event_id_input@.len() > 0 {
        1int
    } else {
        0
    }) + (if !(forall|i: int| 0 <= i < 6 ==> f.levels@[i]) {
        1int
    } else {
        0
    }) + (if f.provider_filter@.len() > 0 {
        1int
    } else {
        0
    }) + (if f.text_search@.len() > 0 {
        1int
    } else {
        0
    }) + (if f.time_from is Some || f.time_to is Some {
        1int
    } else {
        0
    })
}


// ── Laws of the filter engine ───────────────────────────────────────────

/// Law: on an ASCII haystack, the engine's case-insensitive containment
/// equals the reference reading — lowercase the haystack character-wise
/// and look for the (already lowered) needle verbatim.
pub proof fn lemma_ascii_engine_matches_reference(h: Seq<char>, n: Seq<char>)
    requires
        is_ascii_chars(h),
    ensures
        ci_contains_full(h, n) == contains_seq(h.map_values(|c: char| ascii_lower(c)), n),
{
    let m = h.map_values(|c: char| ascii_lower(c));
    if n.len() == 0 {
        assert(crate::text::match_at(m, n, 0));
        assert(contains_seq(m, n));
    } else {
        if ascii_ci_contains(h, n) {
            let i = choose|i: int|
                0 <= i && i + n.len() <= h.len() && crate::text::ci_match_at(h, n, i);
            assert(crate::text::match_at(m, n, i)) by {
                assert(forall|j: int|
                    0 <= j < n.len() ==> m[i + j] == ascii_lower(h[i + j]) && ascii_lower(
                        h[i + j],
                    ) == #[trigger] n[j]);
            }
            assert(contains_seq(m, n));
        } else {
            if contains_seq(m, n) {
                let i = choose|i: int|
                    0 <= i && i + n.len() <= m.len() && crate::text::match_at(m, n, i);
                assert(crate::text::ci_match_at(h, n, i)) by {
                    assert(forall|j: int|
                        0 <= j < n.len() ==> ascii_lower(h[i + j]) == m[i + j] && m[i + j]
                            == #[trigger] n[j]);
                }
                assert(ascii_ci_contains(h, n));
            }
        }
    }
}

/// Law: the bounds of a range token are auto-swapped, so `a-b` and `b-a`
/// denote the same ids.
pub proof fn lemma_range_auto_swap(a: u32, b: u32)
    ensures
        range_ids(a, b) == range_ids(b, a),
{
    assert(range_ids(a, b) =~= range_ids(b, a));
}

proof fn lemma_id_span_len(lo: int, hi: int)
    requires
        0 <= lo <= hi <= u32::MAX,
    ensures
        id_span(lo, hi).finite(),
        id_span(lo, hi).len() == hi - lo + 1,
    decreases hi - lo,
{
    if lo == hi {
        assert(id_span(lo, hi) =~= Set::<u32>::empty().insert(lo as u32));
    } else {
        lemma_id_span_len(lo, hi - 1);
        assert(id_span(lo, hi) =~= id_span(lo, hi - 1).insert(hi as u32));
    }
}

/// Law: however wide the written bounds, a range token never denotes
/// more than 100000 ids.
pub proof fn lemma_range_cap(a: u32, b: u32)
    ensures
        range_ids(a, b).finite(),
        range_ids(a, b).len() <= 100_000,
{
    let lo = if a <= b {
        a
    } else {
        b
    };
    let hi = if a <= b {
        b
    } else {
        a
    };
    let capped = if hi <= sat_add_u32(lo, 99_999) {
        hi
    } else {
        sat_add_u32(lo, 99_999)
    };
    lemma_id_span_len(lo as int, capped as int);
}

/// A token that routes `id` to the include side.
pub open spec fn positive_token_with(tok: Seq<char>, id: u32) -> bool {
    token_ids(tok) matches Some(p) && !p.0 && p.1.contains(id)
}

/// Law: an id is included only because some non-negated token names it; a
/// negated token such as `!1001` never feeds the include set.
pub proof fn lemma_include_needs_positive_token(toks: Seq<Seq<char>>, id: u32)
    requires
        ids_of_tokens(toks, false).contains(id),
    ensures
        exists|k: int| 0 <= k < toks.len() && positive_token_with(#[trigger] toks[k], id),
    decreases toks.len(),
{
    if toks.len() == 0 {
    } else {
        let rest = ids_of_tokens(toks.drop_last(), false);
        let last_hit = match token_ids(toks.last()) {
            Some(p) => !p.0 && p.1.contains(id),
            None => false,
        };
        if last_hit {
            assert(toks[toks.len() - 1] == toks.last());
            assert(positive_token_with(toks[toks.len() - 1], id));
        } else {
            assert(rest.contains(id));
            lemma_include_needs_positive_token(toks.drop_last(), id);
            let k = choose|k: int|
                0 <= k < toks.drop_last().len() && positive_token_with(
                    #[trigger] toks.drop_last()[k],
                    id,
                );
            assert(toks.drop_last()[k] == toks[k]);
            assert(positive_token_with(toks[k], id));
        }
    }
}

/// Law: a negated token always lands its ids in the exclude set, whatever
/// else the input holds.
pub proof fn lemma_negated_token_excluded(toks: Seq<Seq<char>>, k: int, id: u32)
    requires
        0 <= k < toks.len(),
        token_ids(toks[k]) matches Some(p) && p.0 && p.1.contains(id),
    ensures
        ids_of_tokens(toks, true).contains(id),
    decreases toks.len(),
{
    if k == toks.len() - 1 {
        assert(toks.last() == toks[k]);
    } else {
        assert(toks.drop_last()[k] == toks[k]);
        lemma_negated_token_excluded(toks.drop_last(), k, id);
    }
}

/// Law: exclusion always wins — a record whose id stands in the exclude
/// set never matches, whatever the include set holds.
pub proof fn lemma_exclusion_wins(f: FilterState, r: EventRecord)
    requires
        f.exclude_ids@.contains(r.event_id),
    ensures
        !spec_matches(f, r),
{
}

/// Law: the default-constructed criteria match every record.
pub proof fn lemma_default_matches_all(f: FilterState, r: EventRecord)
    requires
        is_default_filter(f),
    ensures
        spec_matches(f, r),
{
    assert(f.levels@[clamped_level(r.level)]);
}

/// Law: in regex mode with a non-empty query, an absent compiled pattern
/// (the empty or a rejected one) matches no record at all.
pub proof fn lemma_absent_pattern_matches_nothing(f: FilterState, r: EventRecord)
    requires
        f.use_regex,
        f.text_search@.len() > 0,
        f.compiled_regex is None,
    ensures
        !spec_matches(f, r),
{
}

} // verus!
