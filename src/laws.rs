use vstd::prelude::*;
use crate::corpus::{bucket_text, bucket_words, corpus_well_formed, well_formed_bucket, MAX_WORD_LEN, MIN_WORD_LEN};
use crate::order::{lex_lt, lemma_lex_asymmetric, lemma_lex_transitive};
use crate::query::{
    corpus_words, in_corpus, in_range, range_from, range_pred, range_words, words_from,
};
use crate::search::{lemma_record_bounds, lemma_whole_records, record};
use vstd::string::StringSliceAdditionalSpecFns;

verus! {

/// Every word of the bucket for `len` has `len` letters, and no word occurs twice in it.
pub proof fn lemma_bucket_shape(len: int)
    requires
        corpus_well_formed(),
    ensures
        forall|k: int| 0 <= k < bucket_words(len).len() ==> (#[trigger] bucket_words(len)[k]).len()
            == len,
        bucket_words(len).no_duplicates(),
{
    if MIN_WORD_LEN <= len <= MAX_WORD_LEN {
        assert(well_formed_bucket(bucket_text(len), len));
        let b = bucket_text(len).spec_bytes();
        let n = bucket_words(len).len() as int;
        lemma_whole_records(b.len() as int, len);
        assert forall|k: int| 0 <= k < n implies (#[trigger] bucket_words(len)[k]).len() == len by {
            lemma_record_bounds(n, len, k);
        }
        assert forall|i: int, j: int|
            0 <= i < n && 0 <= j < n && i != j implies bucket_words(len)[i] != bucket_words(
            len,
        )[j] by {
            if i < j {
                assert(lex_lt(record(b, len, i), record(b, len, j)));
                lemma_lex_asymmetric(record(b, len, i), record(b, len, j));
            } else {
                assert(lex_lt(record(b, len, j), record(b, len, i)));
                lemma_lex_asymmetric(record(b, len, j), record(b, len, i));
            }
        }
    }
}

/// Two sequences without repeats and without a common element join into one without repeats.
pub proof fn lemma_join_distinct(a: Seq<Seq<u8>>, b: Seq<Seq<u8>>)
    requires
        a.no_duplicates(),
        b.no_duplicates(),
        forall|x: Seq<u8>| a.contains(x) ==> !b.contains(x),
    ensures
        (a + b).no_duplicates(),
{
    let c = a + b;
    assert forall|i: int, j: int| 0 <= i < c.len() && 0 <= j < c.len() && i != j implies c[i]
        != c[j] by {
        if i < a.len() && j >= a.len() {
            assert(a.contains(c[i]));
            assert(b.contains(c[j]));
        } else if j < a.len() && i >= a.len() {
            assert(a.contains(c[j]));
            assert(b.contains(c[i]));
        }
    }
}

/// Keeping some elements of a sequence without repeats leaves one without repeats.
pub proof fn lemma_filter_distinct(s: Seq<Seq<u8>>, p: spec_fn(Seq<u8>) -> bool)
    requires
        s.no_duplicates(),
    ensures
        s.filter(p).no_duplicates(),
    decreases s.len(),
{
    if s.len() > 0 {
        let r = s.drop_last();
        let x = s.last();
        assert(s =~= r.push(x));
        assert(r.no_duplicates());
        lemma_filter_distinct(r, p);
        r.lemma_filter_push(x, p);
        if p(x) && r.filter(p).contains(x) {
            r.lemma_filter_contains_rev(p, x);
        }
        if p(x) {
            let f = r.filter(p).push(x);
            assert forall|i: int, j: int|
                0 <= i < f.len() && 0 <= j < f.len() && i != j implies f[i] != f[j] by {
                if i == f.len() - 1 {
                    assert(r.filter(p).contains(f[j]));
                } else if j == f.len() - 1 {
                    assert(r.filter(p).contains(f[i]));
                }
            }
        }
    }
}

/// The buckets from `len` up hold exactly the words of the corpus with at least `len`
/// letters, each once.
pub proof fn lemma_words_from(len: int)
    requires
        corpus_well_formed(),
        MIN_WORD_LEN <= len,
    ensures
        forall|w: Seq<u8>| #[trigger]
            words_from(len).contains(w) <==> (len <= w.len() && in_corpus(w)),
        words_from(len).no_duplicates(),
    decreases MAX_WORD_LEN + 1 - len,
{
    if len <= MAX_WORD_LEN {
        lemma_words_from(len + 1);
        lemma_bucket_shape(len);
        let a = bucket_words(len);
        let rest = words_from(len + 1);
        assert(words_from(len) == a + rest);
        assert forall|w: Seq<u8>| #[trigger]
            words_from(len).contains(w) <==> (len <= w.len() && in_corpus(w)) by {
            if words_from(len).contains(w) {
                let k = choose|k: int| 0 <= k < (a + rest).len() && (a + rest)[k] == w;
                if k < a.len() {
                    assert(a[k] == w);
                } else {
                    assert(rest[k - a.len()] == w);
                    assert(rest.contains(w));
                }
            }
            if len <= w.len() && in_corpus(w) {
                if w.len() == len {
                    let k = choose|k: int| 0 <= k < a.len() && a[k] == w;
                    assert((a + rest)[k] == w);
                } else {
                    assert(rest.contains(w));
                    let k = choose|k: int| 0 <= k < rest.len() && rest[k] == w;
                    assert((a + rest)[k + a.len()] == w);
                }
            }
        }
        assert forall|x: Seq<u8>| a.contains(x) implies !rest.contains(x) by {
            let k = choose|k: int| 0 <= k < a.len() && a[k] == x;
            assert(x.len() == len);
        }
        lemma_join_distinct(a, rest);
    } else {
        assert forall|w: Seq<u8>| #[trigger]
            words_from(len).contains(w) implies (len <= w.len() && in_corpus(w)) by {}
    }
}

/// The range query over the buckets from `len` up holds exactly the words of the
/// corpus with at least `len` letters that lie in the range, each once.
pub proof fn lemma_range_from(len: int, begin: Seq<u8>, end: Seq<u8>)
    requires
        corpus_well_formed(),
        MIN_WORD_LEN <= len,
    ensures
        forall|w: Seq<u8>| #[trigger]
            range_from(len, begin, end).contains(w) <==> (len <= w.len() && in_corpus(w)
                && in_range(w, begin, end)),
        range_from(len, begin, end).no_duplicates(),
    decreases MAX_WORD_LEN + 1 - len,
{
    if len <= MAX_WORD_LEN {
        lemma_range_from(len + 1, begin, end);
        lemma_bucket_shape(len);
        let p = range_pred(begin, end);
        let a = bucket_words(len).filter(p);
        let rest = range_from(len + 1, begin, end);
        assert(range_from(len, begin, end) == a + rest);
        lemma_filter_distinct(bucket_words(len), p);
        assert forall|w: Seq<u8>| #[trigger] a.contains(w) <==> (bucket_words(len).contains(w)
            && in_range(w, begin, end)) by {
            if a.contains(w) {
                bucket_words(len).lemma_filter_contains_rev(p, w);
                let k = choose|k: int| 0 <= k < a.len() && a[k] == w;
                bucket_words(len).lemma_filter_pred(p, k);
            }
            if bucket_words(len).contains(w) && in_range(w, begin, end) {
                let k = choose|k: int|
                    0 <= k < bucket_words(len).len() && bucket_words(len)[k] == w;
                bucket_words(len).lemma_filter_contains(p, k);
            }
        }
        assert forall|w: Seq<u8>| #[trigger]
            range_from(len, begin, end).contains(w) <==> (len <= w.len() && in_corpus(w)
                && in_range(w, begin, end)) by {
            if range_from(len, begin, end).contains(w) {
                let k = choose|k: int| 0 <= k < (a + rest).len() && (a + rest)[k] == w;
                if k < a.len() {
                    assert(a.contains(w));
                    let m = choose|m: int|
                        0 <= m < bucket_words(len).len() && bucket_words(len)[m] == w;
                } else {
                    assert(rest[k - a.len()] == w);
                    assert(rest.contains(w));
                }
            }
            if len <= w.len() && in_corpus(w) && in_range(w, begin, end) {
                if w.len() == len {
                    assert(a.contains(w));
                    let k = choose|k: int| 0 <= k < a.len() && a[k] == w;
                    assert((a + rest)[k] == w);
                } else {
                    assert(rest.contains(w));
                    let k = choose|k: int| 0 <= k < rest.len() && rest[k] == w;
                    assert((a + rest)[k + a.len()] == w);
                }
            }
        }
        assert forall|x: Seq<u8>| a.contains(x) implies !rest.contains(x) by {
            let m = choose|m: int| 0 <= m < bucket_words(len).len() && bucket_words(len)[m] == x;
            assert(x.len() == len);
        }
        lemma_join_distinct(a, rest);
    } else {
        assert forall|w: Seq<u8>| #[trigger]
            range_from(len, begin, end).contains(w) implies (len <= w.len() && in_corpus(w)
                && in_range(w, begin, end)) by {}
    }
}

/// No word has a length outside the supported lengths: the bucket for such a
/// length is empty, and no string of that length is a word.
pub proof fn law_no_words_outside_supported_lengths(len: int, w: Seq<u8>)
    requires
        len < MIN_WORD_LEN || len > MAX_WORD_LEN,
    ensures
        bucket_words(len).len() == 0,
        w.len() == len ==> !in_corpus(w),
{
}

/// The full enumeration lists every word of the corpus exactly once, and
/// nothing else: a string is listed exactly when it is a word.
pub proof fn law_enumeration_lists_each_word_once(w: Seq<u8>)
    requires
        corpus_well_formed(),
    ensures
        corpus_words().contains(w) <==> in_corpus(w),
        in_corpus(w) ==> corpus_words().filter(|x: Seq<u8>| x == w).len() == 1,
        corpus_words().no_duplicates(),
{
    lemma_words_from(MIN_WORD_LEN as int);
    if in_corpus(w) {
        let s = corpus_words();
        assert(s.contains(w));
        let k = choose|k: int| 0 <= k < s.len() && s[k] == w;
        let eq = |x: Seq<u8>| x == w;
        s.lemma_filter_contains(eq, k);
        let f = s.filter(eq);
        lemma_filter_distinct(s, eq);
        assert forall|i: int| 0 <= i < f.len() implies f[i] == w by {
            s.lemma_filter_pred(eq, i);
        }
        let j = choose|j: int| 0 <= j < f.len() && f[j] == w;
        if f.len() > 1 {
            if j == 0 {
                assert(f[1] == w);
            } else {
                assert(f[0] == w);
            }
        }
    }
}

/// The range query lists exactly the words `w` of the corpus with
/// `begin <= w < end`, each once; so every word it lists is a word.
pub proof fn law_range_is_words_in_range(begin: Seq<u8>, end: Seq<u8>, w: Seq<u8>)
    requires
        corpus_well_formed(),
    ensures
        range_words(begin, end).contains(w) <==> (in_corpus(w) && in_range(w, begin, end)),
        range_words(begin, end).contains(w) ==> in_corpus(w),
        range_words(begin, end).no_duplicates(),
{
    lemma_range_from(MIN_WORD_LEN as int, begin, end);
}

/// A range whose end does not lie above its beginning lists no word.
pub proof fn law_empty_range(begin: Seq<u8>, end: Seq<u8>)
    requires
        corpus_well_formed(),
        begin == end || lex_lt(end, begin),
    ensures
        range_words(begin, end).len() == 0,
{
    lemma_range_from(MIN_WORD_LEN as int, begin, end);
    let s = range_words(begin, end);
    if s.len() > 0 {
        assert(s.contains(s[0]));
        if lex_lt(s[0], end) && lex_lt(end, begin) {
            lemma_lex_transitive(s[0], end, begin);
        }
    }
}

} // verus!
