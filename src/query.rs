use vstd::prelude::*;
use vstd::string::StringSliceAdditionalSpecFns;
use crate::corpus::{
    bucket_text, bucket_text_of, bucket_words, corpus_well_formed, lowercase_letters,
    well_formed_bucket, MAX_WORD_LEN, MIN_WORD_LEN,
};
use crate::order::{compare_ranges, lex_lt, lemma_lex_asymmetric, lemma_lex_transitive};
use crate::search::{
    record, record_count, records, str_binary_search, lemma_offset_index,
    lemma_record_bounds, lemma_whole_records,
};

verus! {

/// The bytes of each word of `v`, in order.
pub open spec fn words_view(v: Seq<&str>) -> Seq<Seq<u8>> {
    v.map_values(|s: &str| s.spec_bytes())
}

/// `w` is a word of the corpus.
pub open spec fn in_corpus(w: Seq<u8>) -> bool {
    &&& MIN_WORD_LEN <= w.len() <= MAX_WORD_LEN
    &&& bucket_words(w.len() as int).contains(w)
}

/// The words of every bucket from `len` up to the longest, bucket after bucket.
pub open spec fn words_from(len: int) -> Seq<Seq<u8>>
    decreases MAX_WORD_LEN + 1 - len,
{
    if len > MAX_WORD_LEN {
        Seq::empty()
    } else {
        bucket_words(len) + words_from(len + 1)
    }
}

/// Every word of the corpus: the buckets in increasing length, each in stored order.
pub open spec fn corpus_words() -> Seq<Seq<u8>> {
    words_from(MIN_WORD_LEN as int)
}

/// `begin <= w < end` in the order of `str`.
pub open spec fn in_range(w: Seq<u8>, begin: Seq<u8>, end: Seq<u8>) -> bool {
    !lex_lt(w, begin) && lex_lt(w, end)
}

/// The predicate of the half-open range from `begin` to `end`.
pub open spec fn range_pred(begin: Seq<u8>, end: Seq<u8>) -> spec_fn(Seq<u8>) -> bool {
    |w: Seq<u8>| in_range(w, begin, end)
}

/// The words in the half-open range from `begin` to `end`, of the buckets from `len` up.
pub open spec fn range_from(len: int, begin: Seq<u8>, end: Seq<u8>) -> Seq<Seq<u8>>
    decreases MAX_WORD_LEN + 1 - len,
{
    if len > MAX_WORD_LEN {
        Seq::empty()
    } else {
        bucket_words(len).filter(range_pred(begin, end)) + range_from(len + 1, begin, end)
    }
}

/// The words of the corpus in the half-open range from `begin` to `end`, in
/// the order in which the corpus lists them.
pub open spec fn range_words(begin: Seq<u8>, end: Seq<u8>) -> Seq<Seq<u8>> {
    range_from(MIN_WORD_LEN as int, begin, end)
}

/// In bytes of UTF-8 that are all lowercase ASCII letters, every position is
/// a character boundary.
pub proof fn lemma_letters_are_boundaries(bytes: Seq<u8>, idx: int)
    requires
        vstd::utf8::valid_utf8(bytes),
        lowercase_letters(bytes),
        0 <= idx <= bytes.len(),
    ensures
        vstd::utf8::is_char_boundary(bytes, idx),
{
    if idx == bytes.len() {
        vstd::utf8::is_char_boundary_start_end_of_seq(bytes);
    } else {
        vstd::utf8::is_char_boundary_iff_not_is_continuation_byte(bytes, idx);
    }
}

/// The `i`-th word of a bucket, borrowed from the bucket's text. Every word of
/// a bucket of lowercase letters can be taken.
fn word_at(text: &'static str, width: usize, i: usize) -> (r: Option<&'static str>)
    requires
        width > 0,
        text.spec_bytes().len() as int % width as int == 0,
        i < record_count(text.spec_bytes(), width as int),
        text.spec_bytes().len() <= usize::MAX,
    ensures
        r matches Some(s) ==> s.spec_bytes() == record(text.spec_bytes(), width as int, i as int),
        lowercase_letters(text.spec_bytes()) ==> r is Some,
{
    let ghost b = text.spec_bytes();
    let ghost w = width as int;
    proof {
        lemma_whole_records(b.len() as int, w);
        lemma_record_bounds(record_count(b, w), w, i as int);
        vstd::utf8::encode_utf8_valid_utf8(text@);
    }
    let lo = i * width;
    let hi = lo + width;
    proof {
        if lowercase_letters(b) {
            lemma_letters_are_boundaries(b, lo as int);
            lemma_letters_are_boundaries(b, hi as int);
        }
    }
    if !text.is_char_boundary(lo) || !text.is_char_boundary(hi) {
        return None;
    }
    let (_, rest) = text.split_at(lo);
    proof {
        vstd::utf8::encode_utf8_valid_utf8(rest@);
        if lowercase_letters(b) {
            assert(lowercase_letters(rest.spec_bytes()));
            lemma_letters_are_boundaries(rest.spec_bytes(), w);
        }
    }
    if !rest.is_char_boundary(width) {
        return None;
    }
    let (piece, _) = rest.split_at(width);
    assert(piece.spec_bytes() =~= b.subrange(lo as int, hi as int));
    Some(piece)
}

/// Appends the words of a bucket to `out`; all of them when the bucket is
/// made of lowercase letters.
fn push_bucket(out: &mut Vec<&'static str>, text: &'static str, width: usize)
    requires
        width > 0,
        text.spec_bytes().len() as int % width as int == 0,
    ensures
        lowercase_letters(text.spec_bytes()) ==> words_view(final(out)@) == words_view(old(out)@)
            + records(text.spec_bytes(), width as int),
{
    let ghost b = text.spec_bytes();
    let ghost base = words_view(out@);
    let ghost recs = records(b, width as int);
    let n = text.as_bytes().len() / width;
    let mut i: usize = 0;
    while i < n
        invariant
            b == text.spec_bytes(),
            recs == records(b, width as int),
            width > 0,
            b.len() as int % width as int == 0,
            n == record_count(b, width as int),
            b.len() <= usize::MAX,
            i <= n,
            lowercase_letters(b) ==> words_view(out@) == base + recs.subrange(0, i as int),
        decreases n - i,
    {
        match word_at(text, width, i) {
            None => {
                return;
            },
            Some(word) => {
                let ghost before = out@;
                out.push(word);
                assert(words_view(out@) =~= words_view(before).push(word.spec_bytes()));
                assert(recs.subrange(0, i + 1) =~= recs.subrange(0, i as int).push(recs[i as int]));
            },
        }
        i = i + 1;
    }
    assert(recs.subrange(0, n as int) =~= recs);
}

/// Appends to `out` the words of a bucket that lie in the half-open range
/// from `begin` to `end`; exactly those when the bucket has the bucket layout.
fn push_bucket_range(
    out: &mut Vec<&'static str>,
    text: &'static str,
    width: usize,
    begin: &str,
    end: &str,
)
    requires
        width > 0,
        text.spec_bytes().len() as int % width as int == 0,
    ensures
        well_formed_bucket(text, width as int) ==> words_view(final(out)@) == words_view(
            old(out)@,
        ) + records(text.spec_bytes(), width as int).filter(
            range_pred(begin.spec_bytes(), end.spec_bytes()),
        ),
{
    let ghost b = text.spec_bytes();
    let ghost w = width as int;
    let ghost lo = begin.spec_bytes();
    let ghost hi = end.spec_bytes();
    let ghost p = range_pred(lo, hi);
    let ghost base = words_view(out@);
    let ghost recs = records(b, w);
    let ghost wf = well_formed_bucket(text, w);
    let bytes = text.as_bytes();
    let stop = end.as_bytes();
    let total = bytes.len();
    let n = total / width;
    proof {
        lemma_whole_records(b.len() as int, w);
    }
    let found = str_binary_search(text, begin, width);
    let first = match found {
        Ok(pos) => pos,
        Err(pos) => pos,
    };
    let mut i: usize = first / width;
    proof {
        lemma_offset_index(n as int, w);
        if found is Err {
            vstd::arithmetic::div_mod::lemma_div_is_ordered(first as int, n * w, w);
        }
        assert(i <= n);
        if wf {
            assert forall|j: int| 0 <= j < i implies lex_lt(#[trigger] record(b, w, j), lo) by {
                if found is Ok {
                    assert(lex_lt(record(b, w, j), record(b, w, i as int)));
                }
            }
            assert forall|j: int| i <= j < n implies !lex_lt(#[trigger] record(b, w, j), lo) by {
                if found is Ok {
                    if j > i {
                        assert(lex_lt(record(b, w, i as int), record(b, w, j)));
                        lemma_lex_asymmetric(lo, record(b, w, j));
                    } else if lex_lt(lo, lo) {
                        lemma_lex_asymmetric(lo, lo);
                    }
                } else {
                    lemma_lex_asymmetric(lo, record(b, w, j));
                }
            }
            let head = recs.subrange(0, i as int);
            assert forall|j: int| 0 <= j < head.len() implies !p(#[trigger] head[j]) by {
                assert(head[j] == record(b, w, j));
            }
            assert(head.all(|x: Seq<u8>| !p(x)));
            head.lemma_all_neg_filter_empty(p);
            assert(head.filter(p) =~= Seq::<Seq<u8>>::empty());
            assert(words_view(out@) =~= base + head.filter(p));
        }
    }
    let mut more = true;
    while more && i < n
        invariant
            b == text.spec_bytes(),
            b == bytes@,
            hi == stop@,
            w == width,
            w > 0,
            b.len() as int % w == 0,
            p == range_pred(lo, hi),
            recs == records(b, w),
            wf == well_formed_bucket(text, w),
            n == record_count(b, w),
            n * w == b.len(),
            total == b.len(),
            i <= n,
            wf ==> forall|j: int| i <= j < n ==> !lex_lt(#[trigger] record(b, w, j), lo),
            wf && !more ==> i < n && !lex_lt(record(b, w, i as int), hi),
            wf ==> words_view(out@) == base + recs.subrange(0, i as int).filter(p),
        decreases n - i + if more {
            1int
        } else {
            0int
        },
    {
        proof {
            lemma_record_bounds(n as int, w, i as int);
            assert(hi.subrange(0, hi.len() as int) =~= hi);
        }
        let at = i * width;
        match compare_ranges(bytes, at, at + width, stop, 0, stop.len()) {
            core::cmp::Ordering::Less => {
                match word_at(text, width, i) {
                    None => {
                        return;
                    },
                    Some(word) => {
                        let ghost before = out@;
                        out.push(word);
                        proof {
                            assert(words_view(out@) =~= words_view(before).push(word.spec_bytes()));
                            assert(recs.subrange(0, i + 1) =~= recs.subrange(0, i as int).push(
                                recs[i as int],
                            ));
                            assert(recs[i as int] == record(b, w, i as int));
                            if wf {
                                assert(p(recs[i as int]));
                            }
                            recs.subrange(0, i as int).lemma_filter_push(recs[i as int], p);
                        }
                        i = i + 1;
                    },
                }
            },
            _ => {
                more = false;
            },
        }
    }
    proof {
        if wf {
            if more {
                assert(recs.subrange(0, i as int) =~= recs);
            } else {
                let tail = recs.subrange(i as int, n as int);
                assert forall|j: int| 0 <= j < tail.len() implies !p(#[trigger] tail[j]) by {
                    assert(tail[j] == record(b, w, i + j));
                    if j > 0 && lex_lt(record(b, w, i + j), hi) {
                        lemma_lex_transitive(record(b, w, i as int), record(b, w, i + j), hi);
                    }
                }
                assert(tail.all(|x: Seq<u8>| !p(x)));
                tail.lemma_all_neg_filter_empty(p);
                assert(recs =~= recs.subrange(0, i as int) + tail);
                Seq::filter_distributes_over_add(recs.subrange(0, i as int), tail, p);
                assert(tail.filter(p) =~= Seq::<Seq<u8>>::empty());
                assert(recs.subrange(0, i as int).filter(p) + tail.filter(p) =~= recs.subrange(
                    0,
                    i as int,
                ).filter(p));
            }
        }
    }
}

/// Tells whether `word` is a word of the corpus. A `true` always names a word
/// of the corpus; on a corpus with the bucket layout the answer is exact.
pub fn word_exists(word: &str) -> (r: bool)
    ensures
        r ==> in_corpus(word.spec_bytes()),
        corpus_well_formed() ==> r == in_corpus(word.spec_bytes()),
{
    let len = word.as_bytes().len();
    if len < MIN_WORD_LEN || len > MAX_WORD_LEN {
        return false;
    }
    let text = bucket_text_of(len);
    proof {
        if corpus_well_formed() {
            assert(well_formed_bucket(bucket_text(len as int), len as int));
        }
    }
    if text.as_bytes().len() % len != 0 {
        return false;
    }
    str_binary_search(text, word, len).is_ok()
}

/// Every word of `len` letters, in ascending order; none for a length that
/// has no bucket.
pub fn word_iterator_by_len(len: usize) -> (r: Vec<&'static str>)
    ensures
        corpus_well_formed() ==> words_view(r@) == bucket_words(len as int),
        len < MIN_WORD_LEN || len > MAX_WORD_LEN ==> r@.len() == 0,
{
    let mut out: Vec<&'static str> = Vec::new();
    if len >= MIN_WORD_LEN && len <= MAX_WORD_LEN {
        let text = bucket_text_of(len);
        proof {
            if corpus_well_formed() {
                assert(well_formed_bucket(bucket_text(len as int), len as int));
            }
        }
        if text.as_bytes().len() % len == 0 {
            push_bucket(&mut out, text, len);
        }
    }
    assert(corpus_well_formed() ==> words_view(out@) =~= bucket_words(len as int));
    out
}

/// Every word of the corpus, bucket after bucket in increasing length, each
/// bucket in ascending order.
pub fn word_iterator() -> (r: Vec<&'static str>)
    ensures
        corpus_well_formed() ==> words_view(r@) == corpus_words(),
{
    let mut out: Vec<&'static str> = Vec::new();
    let mut len: usize = MIN_WORD_LEN;
    assert(words_view(out@) + words_from(len as int) =~= corpus_words());
    while len <= MAX_WORD_LEN
        invariant
            MIN_WORD_LEN <= len <= MAX_WORD_LEN + 1,
            corpus_well_formed() ==> words_view(out@) + words_from(len as int) == corpus_words(),
        decreases MAX_WORD_LEN + 1 - len,
    {
        let ghost before = words_view(out@);
        let text = bucket_text_of(len);
        proof {
            if corpus_well_formed() {
                assert(well_formed_bucket(bucket_text(len as int), len as int));
            }
        }
        if text.as_bytes().len() % len == 0 {
            push_bucket(&mut out, text, len);
        }
        proof {
            if corpus_well_formed() {
                assert(words_view(out@) =~= before + bucket_words(len as int));
                assert(before + words_from(len as int) =~= words_view(out@) + words_from(len + 1));
            }
        }
        len = len + 1;
    }
    assert(corpus_well_formed() ==> words_view(out@) =~= corpus_words());
    out
}

/// Every word `w` of the corpus with `begin <= w < end`, bucket after bucket
/// in increasing length, each bucket in ascending order.
pub fn word_range(begin: &str, end: &str) -> (r: Vec<&'static str>)
    ensures
        corpus_well_formed() ==> words_view(r@) == range_words(begin.spec_bytes(), end.spec_bytes()),
{
    let ghost lo = begin.spec_bytes();
    let ghost hi = end.spec_bytes();
    let mut out: Vec<&'static str> = Vec::new();
    let mut len: usize = MIN_WORD_LEN;
    assert(words_view(out@) + range_from(len as int, lo, hi) =~= range_words(lo, hi));
    while len <= MAX_WORD_LEN
        invariant
            lo == begin.spec_bytes(),
            hi == end.spec_bytes(),
            MIN_WORD_LEN <= len <= MAX_WORD_LEN + 1,
            corpus_well_formed() ==> words_view(out@) + range_from(len as int, lo, hi)
                == range_words(lo, hi),
        decreases MAX_WORD_LEN + 1 - len,
    {
        let ghost before = words_view(out@);
        let text = bucket_text_of(len);
        proof {
            if corpus_well_formed() {
                assert(well_formed_bucket(bucket_text(len as int), len as int));
            }
        }
        if text.as_bytes().len() % len == 0 {
            push_bucket_range(&mut out, text, len, begin, end);
        }
        proof {
            if corpus_well_formed() {
                assert(words_view(out@) =~= before + bucket_words(len as int).filter(
                    range_pred(lo, hi),
                ));
                assert(before + range_from(len as int, lo, hi) =~= words_view(out@) + range_from(
                    len + 1,
                    lo,
                    hi,
                ));
            }
        }
        len = len + 1;
    }
    assert(corpus_well_formed() ==> words_view(out@) =~= range_words(lo, hi));
    out
}

} // verus!
