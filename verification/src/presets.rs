//! Named snapshots of the user-visible filter fields.
//!
//! A preset omits the derived state (parsed id sets, time bounds, caches,
//! the compiled pattern); loading one re-derives all of it from the raw
//! inputs.

use vstd::prelude::*;
use crate::filter::FilterState;
use crate::filter::exclude_ids_spec;
use crate::filter::include_ids_spec;

verus! {

/// A named snapshot of the user-visible filter fields.
pub struct FilterPreset {
    /// Display name shown in the preset list.
    pub name: String,
    /// Raw event-id input text.
    pub event_id_input: String,
    /// Enabled severity levels.
    pub levels: [bool; 6],
    /// Provider substring criterion.
    pub provider_filter: String,
    /// Free-text criterion.
    pub text_search: String,
    /// Raw lower time bound text.
    pub time_from_input: String,
    /// Raw upper time bound text.
    pub time_to_input: String,
    /// Case-sensitive search flag.
    pub case_sensitive: bool,
    /// Pattern-search flag.
    pub use_regex: bool,
}

impl Clone for FilterPreset {
    fn clone(&self) -> (res: Self)
        ensures
            res == *self,
    {
        let res = FilterPreset {
            name: self.name.clone(),
            event_id_input: self.event_id_input.clone(),
            levels: self.levels,
            provider_filter: self.provider_filter.clone(),
            text_search: self.text_search.clone(),
            time_from_input: self.time_from_input.clone(),
            time_to_input: self.time_to_input.clone(),
            case_sensitive: self.case_sensitive,
            use_regex: self.use_regex,
        };
        res
    }
}

impl FilterPreset {
    /// Snapshot the user-visible fields of `state` under `name`.
    pub fn from_state(name: &str, state: &FilterState) -> (r: Self)
        ensures
            r.name@ == name@,
            r.event_id_input == state.event_id_input,
            r.levels == state.levels,
            r.provider_filter == state.provider_filter,
            r.text_search == state.text_search,
            r.time_from_input == state.time_from_input,
            r.time_to_input == state.time_to_input,
            r.case_sensitive == state.case_sensitive,
            r.use_regex == state.use_regex,
    {
        FilterPreset {
            name: String::from_str(name),
            event_id_input: state.event_id_input.clone(),
            levels: state.levels,
            provider_filter: state.provider_filter.clone(),
            text_search: state.text_search.clone(),
            time_from_input: state.time_from_input.clone(),
            time_to_input: state.time_to_input.clone(),
            case_sensitive: state.case_sensitive,
            use_regex: state.use_regex,
        }
    }

    /// Rebuild fully-derived criteria from this preset: the raw fields are
    /// restored and every derived structure is recomputed from them.
    pub fn to_filter_state(&self) -> (r: FilterState)
        ensures
            r.event_id_input == self.event_id_input,
            r.levels == self.levels,
            r.provider_filter == self.provider_filter,
            r.text_search == self.text_search,
            r.time_from_input == self.time_from_input,
            r.time_to_input == self.time_to_input,
            r.case_sensitive == self.case_sensitive,
            r.use_regex == self.use_regex,
            r.include_ids@ == include_ids_spec(self.event_id_input@),
            r.exclude_ids@ == exclude_ids_spec(self.event_id_input@),
            r.text_search_lower@ == crate::text::lower_of(self.text_search@),
            r.provider_filter_lower@ == crate::text::lower_of(self.provider_filter@),
    {
        let mut state = FilterState::default();
        state.event_id_input = self.event_id_input.clone();
        state.levels = self.levels;
        state.provider_filter = self.provider_filter.clone();
        state.text_search = self.text_search.clone();
        state.time_from_input = self.time_from_input.clone();
        state.time_to_input = self.time_to_input.clone();
        state.case_sensitive = self.case_sensitive;
        state.use_regex = self.use_regex;
        state.parse_event_ids();
        state.parse_time_range();
        state
    }
}

} // verus!
