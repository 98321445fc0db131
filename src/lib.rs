//! A streaming filter that cuts delimited regions out of a byte stream.
//!
//! The input arrives in chunks of bounded size. In each chunk the filter looks
//! for a start pattern and, after it, an end pattern; the text strictly between
//! the end of the start match and the start of the end match is dropped, and
//! everything else passes through. A single two-valued state carries an open
//! region from one chunk to the next.

mod laws;
mod output;
mod pattern;
mod region;
mod text;

pub use output::Output;
pub use pattern::{leftmost_match, positions, regex_accepts, Pattern, PatternError};
pub use region::{
    apply_matches, chunks_of, end_haystack, filter_bytes, filter_step, outcome, run, step,
    FilterState, RegionFilter,
};
pub use text::lossy_utf8;
pub use laws::{
    decodes_unchanged, lemma_passthrough_is_idempotent, lemma_passthrough_without_start,
    lemma_single_region, lemma_split_after_region, lemma_split_before_region, no_start_match,
    within,
};
