use vstd::prelude::*;
use vstd::string::StringSliceAdditionalSpecFns;
use crate::order::{compare_ranges, lex_lt, lemma_lex_asymmetric, lemma_lex_transitive};

verus! {

/// The `i`-th record of width `width` in `buf`.
pub open spec fn record(buf: Seq<u8>, width: int, i: int) -> Seq<u8> {
    buf.subrange(i * width, (i + 1) * width)
}

/// How many whole records of width `width` `buf` holds.
pub open spec fn record_count(buf: Seq<u8>, width: int) -> int {
    buf.len() as int / width
}

/// The records of `buf`, in the order in which they are stored.
pub open spec fn records(buf: Seq<u8>, width: int) -> Seq<Seq<u8>> {
    Seq::new(record_count(buf, width) as nat, |i: int| record(buf, width, i))
}

/// `buf` is a concatenation of records of width `width`, strictly increasing.
pub open spec fn sorted_records(buf: Seq<u8>, width: int) -> bool {
    &&& width > 0
    &&& buf.len() as int % width == 0
    &&& forall|i: int, j: int|
        0 <= i < j < record_count(buf, width) ==> lex_lt(
            #[trigger] record(buf, width, i),
            #[trigger] record(buf, width, j),
        )
}

/// Where the `i`-th record of a buffer of `n` records of width `w` lies.
pub proof fn lemma_record_bounds(n: int, w: int, i: int)
    requires
        0 <= i < n,
        w > 0,
    ensures
        0 <= i * w,
        i * w + w == (i + 1) * w,
        (i + 1) * w <= n * w,
{
    assert(0 <= i * w) by (nonlinear_arith)
        requires
            0 <= i,
            w > 0,
    ;
    assert(i * w + w == (i + 1) * w) by (nonlinear_arith);
    assert((i + 1) * w <= n * w) by (nonlinear_arith)
        requires
            i + 1 <= n,
            w > 0,
    ;
}

/// A buffer whose length is a multiple of `w` holds `len / w` records that fill it.
pub proof fn lemma_whole_records(len: int, w: int)
    requires
        len >= 0,
        w > 0,
        len % w == 0,
    ensures
        (len / w) * w == len,
        len / w >= 0,
{
    vstd::arithmetic::div_mod::lemma_fundamental_div_mod(len, w);
    assert(w * (len / w) == (len / w) * w) by (nonlinear_arith);
    vstd::arithmetic::div_mod::lemma_div_pos_is_pos(len, w);
}

/// The offset `i * w` names the record `i` again.
pub proof fn lemma_offset_index(i: int, w: int)
    requires
        i >= 0,
        w > 0,
    ensures
        (i * w) / w == i,
        (i * w) % w == 0,
{
    vstd::arithmetic::div_mod::lemma_div_multiples_vanish(i, w);
    assert(w * i == i * w) by (nonlinear_arith);
    vstd::arithmetic::div_mod::lemma_mod_multiples_basic(i, w);
}

/// Searches the records of width `len` in `haystack` for `needle`.
/// Returns `Ok` with the byte offset of a record equal to `needle`, or `Err`
/// with a record boundary. When the records are sorted, `Err` is the offset at
/// which `needle` would have to be inserted to keep them sorted.
pub fn str_binary_search(haystack: &str, needle: &str, len: usize) -> (r: Result<usize, usize>)
    requires
        len > 0,
        haystack.spec_bytes().len() as int % len as int == 0,
    ensures
        match r {
            Ok(p) => {
                &&& p % len == 0
                &&& p / len < record_count(haystack.spec_bytes(), len as int)
                &&& record(haystack.spec_bytes(), len as int, (p / len) as int) == needle.spec_bytes()
            },
            Err(p) => p % len == 0 && p <= haystack.spec_bytes().len(),
        },
        r is Ok ==> records(haystack.spec_bytes(), len as int).contains(needle.spec_bytes()),
        (forall|i: int|
            0 <= i < record_count(haystack.spec_bytes(), len as int) ==> lex_lt(
                #[trigger] record(haystack.spec_bytes(), len as int, i),
                needle.spec_bytes(),
            )) ==> r == Err::<usize, usize>(haystack.spec_bytes().len() as usize),
        sorted_records(haystack.spec_bytes(), len as int) ==> {
            &&& (r is Ok <==> records(haystack.spec_bytes(), len as int).contains(
                needle.spec_bytes(),
            ))
            &&& r matches Err(p) ==> {
                &&& forall|i: int|
                    0 <= i < (p / len) as int ==> lex_lt(
                        #[trigger] record(haystack.spec_bytes(), len as int, i),
                        needle.spec_bytes(),
                    )
                &&& forall|i: int|
                    (p / len) as int <= i < record_count(haystack.spec_bytes(), len as int)
                        ==> lex_lt(
                        needle.spec_bytes(),
                        #[trigger] record(haystack.spec_bytes(), len as int, i),
                    )
            }
        },
{
    let hay = haystack.as_bytes();
    let key = needle.as_bytes();
    let ghost h = hay@;
    let ghost k = key@;
    let ghost w = len as int;
    let ghost sorted = sorted_records(h, w);
    let ghost below = forall|i: int| 0 <= i < record_count(h, w) ==> lex_lt(#[trigger] record(h, w, i), k);
    let hay_len = hay.len();
    let n = hay_len / len;
    proof {
        lemma_whole_records(h.len() as int, w);
        assert(k.subrange(0, k.len() as int) =~= k);
    }
    let mut start: usize = 0;
    let mut end: usize = n;
    while start != end
        invariant
            h == hay@,
            k == key@,
            h == haystack.spec_bytes(),
            k == needle.spec_bytes(),
            k.subrange(0, k.len() as int) == k,
            w == len,
            w > 0,
            sorted == sorted_records(h, w),
            below == forall|i: int| 0 <= i < record_count(h, w) ==> lex_lt(#[trigger] record(h, w, i), k),
            n == record_count(h, w),
            n * w == h.len(),
            h.len() == hay_len,
            0 <= start <= end <= n,
            below ==> end == n,
            sorted ==> forall|i: int| 0 <= i < start ==> lex_lt(#[trigger] record(h, w, i), k),
            sorted ==> forall|i: int| end <= i < n ==> lex_lt(k, #[trigger] record(h, w, i)),
        decreases end - start,
    {
        let mid = (end - start) / 2 + start;
        proof {
            lemma_record_bounds(n as int, w, mid as int);
            assert(mid * len + len <= hay_len);
        }
        let lo = mid * len;
        let hi = lo + len;
        match compare_ranges(hay, lo, hi, key, 0, key.len()) {
            core::cmp::Ordering::Equal => {
                proof {
                    lemma_offset_index(mid as int, w);
                    assert(records(h, w)[mid as int] == k);
                    if below {
                        lemma_lex_asymmetric(record(h, w, mid as int), k);
                    }
                }
                return Ok(lo);
            },
            core::cmp::Ordering::Less => {
                proof {
                    if sorted {
                        assert forall|i: int| 0 <= i < mid + 1 implies lex_lt(
                            #[trigger] record(h, w, i),
                            k,
                        ) by {
                            if i < mid {
                                lemma_lex_transitive(record(h, w, i), record(h, w, mid as int), k);
                            }
                        }
                    }
                }
                start = mid + 1;
            },
            core::cmp::Ordering::Greater => {
                proof {
                    if below {
                        lemma_lex_asymmetric(record(h, w, mid as int), k);
                    }
                    if sorted {
                        assert forall|i: int| mid <= i < n implies lex_lt(
                            k,
                            #[trigger] record(h, w, i),
                        ) by {
                            if i > mid {
                                lemma_lex_transitive(k, record(h, w, mid as int), record(h, w, i));
                            }
                        }
                    }
                }
                end = mid;
            },
        }
    }
    proof {
        lemma_offset_index(start as int, w);
        assert((start as int) * w <= n * w) by (nonlinear_arith)
            requires
                start <= n,
                w > 0,
        ;
        if sorted && records(h, w).contains(k) {
            let j = choose|j: int| 0 <= j < records(h, w).len() && records(h, w)[j] == k;
            if j < start {
                lemma_lex_asymmetric(record(h, w, j), k);
            } else {
                lemma_lex_asymmetric(k, record(h, w, j));
            }
        }
    }
    Err(start * len)
}

} // verus!
