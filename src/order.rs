use vstd::prelude::*;

verus! {

/// `a` and `b` hold the same bytes at every position below `k`.
pub open spec fn agree_upto(a: Seq<u8>, b: Seq<u8>, k: int) -> bool {
    forall|i: int| 0 <= i < k ==> a[i] == b[i]
}

/// `k` is the first position where `a` and `b` part, and there `a` is the smaller:
/// either `a` ends at `k` while `b` goes on, or `a`'s byte at `k` is lower.
pub open spec fn parts_below_at(a: Seq<u8>, b: Seq<u8>, k: int) -> bool {
    &&& 0 <= k <= a.len()
    &&& k <= b.len()
    &&& agree_upto(a, b, k)
    &&& ((k == a.len() && k < b.len()) || (k < a.len() && k < b.len() && a[k] < b[k]))
}

/// Lexicographic order on byte strings: the order of `<` on `str`.
pub open spec fn lex_lt(a: Seq<u8>, b: Seq<u8>) -> bool {
    exists|k: int| #[trigger] parts_below_at(a, b, k)
}

/// The order is strict: a string is never below itself, and `a < b` rules out `b < a`.
pub proof fn lemma_lex_asymmetric(a: Seq<u8>, b: Seq<u8>)
    requires
        lex_lt(a, b),
    ensures
        !lex_lt(b, a),
        a != b,
{
    let k1 = choose|k: int| parts_below_at(a, b, k);
    if a == b {
        assert(parts_below_at(a, a, k1));
    }
    if lex_lt(b, a) {
        let k2 = choose|k: int| parts_below_at(b, a, k);
        if k1 < k2 {
            assert(a[k1] == b[k1]);
        } else if k2 < k1 {
            assert(a[k2] == b[k2]);
        }
    }
}

/// The order is transitive.
pub proof fn lemma_lex_transitive(a: Seq<u8>, b: Seq<u8>, c: Seq<u8>)
    requires
        lex_lt(a, b),
        lex_lt(b, c),
    ensures
        lex_lt(a, c),
{
    let k1 = choose|k: int| parts_below_at(a, b, k);
    let k2 = choose|k: int| parts_below_at(b, c, k);
    if k1 <= k2 {
        assert(parts_below_at(a, c, k1));
    } else {
        assert(parts_below_at(a, c, k2));
    }
}

/// Compares `a[a_lo..a_hi]` with `b[b_lo..b_hi]` byte by byte.
pub fn compare_ranges(a: &[u8], a_lo: usize, a_hi: usize, b: &[u8], b_lo: usize, b_hi: usize) -> (r:
    core::cmp::Ordering)
    requires
        a_lo <= a_hi <= a@.len(),
        b_lo <= b_hi <= b@.len(),
    ensures
        (r == core::cmp::Ordering::Less) == lex_lt(
            a@.subrange(a_lo as int, a_hi as int),
            b@.subrange(b_lo as int, b_hi as int),
        ),
        (r == core::cmp::Ordering::Equal) == (a@.subrange(a_lo as int, a_hi as int) == b@.subrange(
            b_lo as int,
            b_hi as int,
        )),
        (r == core::cmp::Ordering::Greater) == lex_lt(
            b@.subrange(b_lo as int, b_hi as int),
            a@.subrange(a_lo as int, a_hi as int),
        ),
{
    let ghost x = a@.subrange(a_lo as int, a_hi as int);
    let ghost y = b@.subrange(b_lo as int, b_hi as int);
    let a_len = a_hi - a_lo;
    let b_len = b_hi - b_lo;
    let n = if a_len < b_len {
        a_len
    } else {
        b_len
    };
    let mut i: usize = 0;
    while i < n
        invariant
            i <= n,
            n <= a_len,
            n <= b_len,
            a_len == x.len(),
            b_len == y.len(),
            x == a@.subrange(a_lo as int, a_hi as int),
            y == b@.subrange(b_lo as int, b_hi as int),
            a_lo <= a_hi <= a@.len(),
            b_lo <= b_hi <= b@.len(),
            agree_upto(x, y, i as int),
        decreases n - i,
    {
        let p = a[a_lo + i];
        let q = b[b_lo + i];
        if p != q {
            if p < q {
                assert(parts_below_at(x, y, i as int));
                proof {
                    lemma_lex_asymmetric(x, y);
                }
                return core::cmp::Ordering::Less;
            } else {
                assert(parts_below_at(y, x, i as int));
                proof {
                    lemma_lex_asymmetric(y, x);
                }
                return core::cmp::Ordering::Greater;
            }
        }
        i = i + 1;
    }
    if a_len < b_len {
        assert(parts_below_at(x, y, a_len as int));
        proof {
            lemma_lex_asymmetric(x, y);
        }
        core::cmp::Ordering::Less
    } else if b_len < a_len {
        assert(parts_below_at(y, x, b_len as int));
        proof {
            lemma_lex_asymmetric(y, x);
        }
        core::cmp::Ordering::Greater
    } else {
        assert(x =~= y);
        proof {
            if lex_lt(x, y) {
                lemma_lex_asymmetric(x, y);
            }
        }
        core::cmp::Ordering::Equal
    }
}

} // verus!
