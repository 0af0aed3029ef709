//! Membership and enumeration queries over a fixed, embedded list of
//! lowercase English words.
//!
//! The embedded list (`wordlist`) is a sample of 3,116 common English words
//! of 2 to 28 letters. It is not the full Wordnik list of about 200,000
//! words: lookups of rarer words answer `false`, and counts are those of
//! the sample.
//!
//! The words are stored in one bucket per word length: the concatenation of
//! all words of that length in ascending order, without separators. A lookup
//! selects the bucket for the word's length and runs a binary search over its
//! fixed-width records, without looking at the rest of the bucket. The
//! results are exact whenever every bucket has that layout
//! (`corpus::corpus_well_formed`), which `corpus_is_well_formed` confirms of
//! the embedded text.

pub mod corpus;
pub mod laws;
pub mod order;
pub mod query;
pub mod search;
pub mod wordlist;

pub use corpus::corpus_is_well_formed;
pub use query::{word_exists, word_iterator, word_iterator_by_len, word_range};
pub use search::str_binary_search;
