//! In-process runtime profiling export library.
//!
//! A background sampling collector accumulates call-stack samples into a
//! sample table; a span recorder accumulates duration-weighted span stacks;
//! on request, an immutable snapshot of either is encoded into one of four
//! interchangeable report formats (folded-stack text, flamegraph image,
//! binary profile, span-flame folded text) and wrapped into an HTTP-style
//! response by a pure dispatch function.

mod collector;
mod endpoint;
mod error;
mod profile;
mod sample;
mod spans;
mod text;
mod wire;

pub use collector::{
    Collector, Frame, FrameV, contains_str, filter_stack, filtered_symbols,
    lemma_fully_excluded_sample_never_recorded, lemma_fully_excluded_stack_dropped,
};
pub use endpoint::{
    Format, HttpResponse, encoding_failure_response, handle_request, invalid_format_response,
    missing_format_response, parse_format, spec_parse_format, svg_of, svg_renders,
};
pub use error::ProfError;
pub use profile::{
    PbLocation, PbSample, Profile, distinct_strings, injective_locations, represents, wf_profile,
};
pub use sample::{
    Entry, EntryV, KeyV, SampleKey, Snapshot, bare_lines, clone_entries, clone_strings,
    entry_line, entry_lines, find_key, key_eq, key_kept, lemma_folded_count_conservation,
    lemma_folded_deterministic, lemma_merge_never_decreases_counts, lemma_total_count_take_le,
    merge_count, merged_count, sat_add, str_eq, str_vec_eq, total_count, wf_entries,
};
pub use spans::{
    SpanOpen, SpanOpenV, SpanRecorder, ThreadSpans, ThreadSpansV, collect_names, find_thread,
    names_of, sat_sub, wf_active,
};
pub use text::{
    LineV, dec_digits, folded_text, join_semi, line_bare, line_text, sum_weights, u64_to_string,
};
pub use wire::{
    delim, function_msg, functions_bytes, label_msg, line_msg, location_msg, locations_bytes,
    pkey, profile_bytes, push_bytes, push_delim_field, push_varint, sample_ids_bytes, sample_msg,
    samples_bytes, string_entry, strings_bytes, value_type_msg, varint,
};
