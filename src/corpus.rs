use vstd::prelude::*;
use vstd::string::StringSliceAdditionalSpecFns;
use crate::order::{compare_ranges, lex_lt, lemma_lex_transitive};
use crate::search::{record, record_count, records, sorted_records, lemma_record_bounds, lemma_whole_records};
use crate::wordlist::{LEN_2, LEN_3, LEN_4, LEN_5, LEN_6, LEN_7, LEN_8, LEN_9, LEN_10, LEN_11, LEN_12, LEN_13, LEN_14, LEN_15, LEN_16, LEN_17, LEN_18, LEN_19, LEN_20, LEN_21, LEN_22, LEN_23, LEN_24, LEN_25, LEN_26, LEN_27, LEN_28};

verus! {

/// The shortest word length that has a bucket.
pub const MIN_WORD_LEN: usize = 2;

/// The longest word length that has a bucket.
pub const MAX_WORD_LEN: usize = 28;

/// The embedded text of the bucket for words of `len` letters (`2 <= len <= 28`).
pub open spec fn bucket_text(len: int) -> &'static str {
    if len == 2 {
        LEN_2
    } else 
    if len == 3 {
        LEN_3
    } else 
    if len == 4 {
        LEN_4
    } else 
    if len == 5 {
        LEN_5
    } else 
    if len == 6 {
        LEN_6
    } else 
    if len == 7 {
        LEN_7
    } else 
    if len == 8 {
        LEN_8
    } else 
    if len == 9 {
        LEN_9
    } else 
    if len == 10 {
        LEN_10
    } else 
    if len == 11 {
        LEN_11
    } else 
    if len == 12 {
        LEN_12
    } else 
    if len == 13 {
        LEN_13
    } else 
    if len == 14 {
        LEN_14
    } else 
    if len == 15 {
        LEN_15
    } else 
    if len == 16 {
        LEN_16
    } else 
    if len == 17 {
        LEN_17
    } else 
    if len == 18 {
        LEN_18
    } else 
    if len == 19 {
        LEN_19
    } else 
    if len == 20 {
        LEN_20
    } else 
    if len == 21 {
        LEN_21
    } else 
    if len == 22 {
        LEN_22
    } else 
    if len == 23 {
        LEN_23
    } else 
    if len == 24 {
        LEN_24
    } else 
    if len == 25 {
        LEN_25
    } else 
    if len == 26 {
        LEN_26
    } else 
    if len == 27 {
        LEN_27
    } else {
        LEN_28
    }
}

/// Every byte is a lowercase ASCII letter.
pub open spec fn lowercase_letters(b: Seq<u8>) -> bool {
    forall|i: int| 0 <= i < b.len() ==> 97 <= #[trigger] b[i] <= 122
}

/// `text` is laid out as a bucket of words of `width` letters: lowercase
/// ASCII letters, whole records, strictly increasing.
pub open spec fn well_formed_bucket(text: &str, width: int) -> bool {
    &&& lowercase_letters(text.spec_bytes())
    &&& sorted_records(text.spec_bytes(), width)
}

/// The words of `len` letters that the corpus holds, in stored order.
/// A length without a bucket holds none.
pub open spec fn bucket_words(len: int) -> Seq<Seq<u8>> {
    if MIN_WORD_LEN <= len <= MAX_WORD_LEN {
        records(bucket_text(len).spec_bytes(), len)
    } else {
        Seq::empty()
    }
}

/// Every bucket of the embedded corpus has the bucket layout. The queries
/// search the buckets as they are, and their results are exact on a corpus
/// with this layout; `corpus_is_well_formed` confirms it of the embedded text.
pub open spec fn corpus_well_formed() -> bool {
    forall|len: int|
        MIN_WORD_LEN <= len <= MAX_WORD_LEN ==> well_formed_bucket(#[trigger] bucket_text(len), len)
}

/// Selects the embedded text for words of `len` letters.
pub fn bucket_text_of(len: usize) -> (r: &'static str)
    requires
        MIN_WORD_LEN <= len <= MAX_WORD_LEN,
    ensures
        r == bucket_text(len as int),
{
    match len {
        2 => LEN_2,
        3 => LEN_3,
        4 => LEN_4,
        5 => LEN_5,
        6 => LEN_6,
        7 => LEN_7,
        8 => LEN_8,
        9 => LEN_9,
        10 => LEN_10,
        11 => LEN_11,
        12 => LEN_12,
        13 => LEN_13,
        14 => LEN_14,
        15 => LEN_15,
        16 => LEN_16,
        17 => LEN_17,
        18 => LEN_18,
        19 => LEN_19,
        20 => LEN_20,
        21 => LEN_21,
        22 => LEN_22,
        23 => LEN_23,
        24 => LEN_24,
        25 => LEN_25,
        26 => LEN_26,
        27 => LEN_27,
        _ => LEN_28,
    }
}

/// Tells whether `text` has the layout of a bucket of words of `width` letters.
pub fn bucket_is_well_formed(text: &str, width: usize) -> (r: bool)
    ensures
        r == well_formed_bucket(text, width as int),
{
    let bytes = text.as_bytes();
    let ghost b = bytes@;
    let total = bytes.len();
    let mut i: usize = 0;
    while i < total
        invariant
            b == bytes@,
            b == text.spec_bytes(),
            total == b.len(),
            i <= total,
            forall|j: int| 0 <= j < i ==> 97 <= #[trigger] b[j] <= 122,
        decreases total - i,
    {
        let c = bytes[i];
        if c < 97 || c > 122 {
            return false;
        }
        i = i + 1;
    }
    if width == 0 || total % width != 0 {
        return false;
    }
    let ghost w = width as int;
    let n = total / width;
    proof {
        lemma_whole_records(total as int, w);
    }
    let mut k: usize = 1;
    while k < n
        invariant
            b == bytes@,
            b == text.spec_bytes(),
            total == b.len(),
            w == width,
            w > 0,
            n == record_count(b, w),
            n * w == total,
            1 <= k,
            forall|x: int, y: int|
                0 <= x < y < k && y < n ==> lex_lt(
                    #[trigger] record(b, w, x),
                    #[trigger] record(b, w, y),
                ),
        decreases n - k,
    {
        proof {
            lemma_record_bounds(n as int, w, k as int);
            lemma_record_bounds(n as int, w, k - 1);
        }
        let lo = (k - 1) * width;
        let mid = lo + width;
        let hi = mid + width;
        match compare_ranges(bytes, lo, mid, bytes, mid, hi) {
            core::cmp::Ordering::Less => {},
            _ => {
                proof {
                    assert(record(b, w, k - 1) == b.subrange(lo as int, mid as int));
                    assert(!lex_lt(record(b, w, k - 1), record(b, w, k as int)));
                }
                return false;
            },
        }
        proof {
            assert(lex_lt(record(b, w, k - 1), record(b, w, k as int)));
            assert forall|x: int, y: int|
                0 <= x < y < k + 1 && y < n implies lex_lt(
                    #[trigger] record(b, w, x),
                    #[trigger] record(b, w, y),
                ) by {
                if y == k && x < k - 1 {
                    lemma_lex_transitive(record(b, w, x), record(b, w, k - 1), record(b, w, y));
                }
            }
        }
        k = k + 1;
    }
    true
}

/// Tells whether every bucket of the embedded corpus has the bucket layout.
pub fn corpus_is_well_formed() -> (r: bool)
    ensures
        r == corpus_well_formed(),
{
    let mut len: usize = MIN_WORD_LEN;
    while len <= MAX_WORD_LEN
        invariant
            MIN_WORD_LEN <= len <= MAX_WORD_LEN + 1,
            forall|l: int|
                MIN_WORD_LEN <= l < len ==> well_formed_bucket(#[trigger] bucket_text(l), l),
        decreases MAX_WORD_LEN + 1 - len,
    {
        if !bucket_is_well_formed(bucket_text_of(len), len) {
            return false;
        }
        len = len + 1;
    }
    true
}

} // verus!
