//! Splitting a relation into contiguous pieces, one per worker.

use vstd::prelude::*;

verus! {

/// Piece `p` of `n` of a relation of `len` rows, as the rows from the first
/// of the pair up to, not including, the second: every piece but the last
/// has `len / n` rows, the last has what is left.
pub open spec fn split_range(len: int, n: int, p: int) -> (usize, usize) {
    ((p * (len / n)) as usize, if p == n - 1 {
        len as usize
    } else {
        ((p + 1) * (len / n)) as usize
    })
}

/// The pieces of a split lie one behind the other and cover `0..len`.
pub proof fn lemma_split_range(len: int, n: int, p: int)
    requires
        0 <= len <= usize::MAX,
        n >= 1,
        0 <= p < n,
    ensures
        split_range(len, n, p).0 <= split_range(len, n, p).1 <= len,
        split_range(len, n, 0).0 == 0,
        split_range(len, n, n - 1).1 == len,
        p + 1 < n ==> split_range(len, n, p).1 == split_range(len, n, p + 1).0,
{
    let c = len / n;
    assert(0 <= c * n <= len) by (nonlinear_arith)
        requires
            c == len / n,
            n >= 1,
            len >= 0,
    ;
    assert(0 <= p * c <= (p + 1) * c <= n * c) by (nonlinear_arith)
        requires
            0 <= p < n,
            c >= 0,
    ;
    assert(n * c == c * n) by (nonlinear_arith);
    assert(0 * c == 0);
}

/// The `n` contiguous pieces of a relation of `len` rows.
pub fn split_offsets(len: usize, n: usize) -> (ranges: Vec<(usize, usize)>)
    requires
        n >= 1,
    ensures
        ranges.len() == n,
        forall|p: int| 0 <= p < n ==> #[trigger] ranges[p] == split_range(len as int, n as int, p),
{
    let chunk = len / n;
    let mut ranges: Vec<(usize, usize)> = Vec::with_capacity(n);
    let mut offset: usize = 0;
    let mut p: usize = 0;
    assert(0 * chunk == 0);
    while p < n - 1
        invariant
            n >= 1,
            p <= n - 1,
            chunk == len / n,
            ranges.len() == p,
            offset == p * chunk,
            forall|q: int| 0 <= q < p ==> #[trigger] ranges[q] == split_range(len as int, n as int, q),
        decreases n - p,
    {
        proof {
            assert(0 <= chunk * n <= len) by (nonlinear_arith)
                requires
                    chunk == len / n,
                    n >= 1,
            ;
            assert((p + 1) * chunk == p * chunk + chunk && (p + 1) * chunk <= chunk * n)
                by (nonlinear_arith)
                requires
                    p + 1 <= n,
            ;
        }
        let next = offset + chunk;
        ranges.push((offset, next));
        offset = next;
        p += 1;
    }
    ranges.push((offset, len));
    ranges
}

} // verus!
