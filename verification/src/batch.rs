//! Batching of bulk catalog requests.
//!
//! The target catalog bounds both its lookup queries and its mutation
//! payloads, so a list of work is cut into fixed-size batches: every batch
//! but the last is full, and the batches cover the list in order.

use vstd::prelude::*;

verus! {

/// How many batches of `size` a list of `len` items needs.
pub open spec fn batch_count(len: int, size: int) -> int {
    if len == 0 {
        0
    } else {
        (len - 1) / size + 1
    }
}

/// Where batch `i` starts.
pub open spec fn batch_start(i: int, size: int) -> int {
    i * size
}

/// Where batch `i` ends (exclusive).
pub open spec fn batch_end(i: int, size: int, len: int) -> int {
    if (i + 1) * size <= len {
        (i + 1) * size
    } else {
        len
    }
}

/// Cut `len` items into batches of at most `size`: the half-open index
/// ranges returned cover `0..len` in order, and only the last may be short.
pub fn batch_bounds(len: usize, size: usize) -> (r: Vec<(usize, usize)>)
    requires
        size > 0,
    ensures
        r@.len() == batch_count(len as int, size as int),
        forall|i: int| 0 <= i < r@.len() ==> #[trigger] r@[i].0 == batch_start(i, size as int),
        forall|i: int|
            0 <= i < r@.len() ==> #[trigger] r@[i].1 == batch_end(i, size as int, len as int),
{
    let mut r: Vec<(usize, usize)> = Vec::new();
    let mut start: usize = 0;
    proof {
        assert(r@.len() * (size as int) == 0) by (nonlinear_arith)
            requires
                r@.len() == 0,
        ;
    }
    while start < len
        invariant
            size > 0,
            start <= len,
            start > 0 ==> r@.len() > 0,
            start < len ==> start == r@.len() * (size as int),
            r@.len() > 0 ==> r@[r@.len() - 1].1 == start,
            forall|i: int| 0 <= i < r@.len() ==> r@[i].0 < r@[i].1,
            forall|i: int| 0 <= i < r@.len() ==> #[trigger] r@[i].0 == batch_start(i, size as int),
            forall|i: int|
                0 <= i < r@.len() ==> #[trigger] r@[i].1 == batch_end(i, size as int, len as int),
        decreases len - start,
    {
        let ghost n = r@.len() as int;
        let ghost old_r = r@;
        let end = if len - start >= size {
            start + size
        } else {
            len
        };
        proof {
            assert(start == n * (size as int));
            assert((n + 1) * (size as int) == n * (size as int) + (size as int)) by (nonlinear_arith);
        }
        r.push((start, end));
        proof {
            assert(r@.len() == n + 1);
            assert(forall|i: int| 0 <= i < n ==> r@[i] == old_r[i]);
            assert(r@[n].0 == batch_start(n, size as int));
            assert(r@[n].1 == batch_end(n, size as int, len as int));
        }
        start = end;
    }
    proof {
        let n = r@.len() as int;
        let l = len as int;
        let sz = size as int;
        assert(start == len);
        if l == 0 {
            if n > 0 {
                assert(r@[n - 1].0 < r@[n - 1].1);
                assert(r@[n - 1].1 == 0);
                assert(batch_start(n - 1, sz) >= 0) by (nonlinear_arith)
                    requires
                        sz > 0,
                        n >= 1,
                ;
            }
            assert(n == 0);
        } else {
            assert(n >= 1);
            assert(r@[n - 1].1 == l);
            assert(r@[n - 1].0 == batch_start(n - 1, sz) && r@[n - 1].1 == batch_end(n - 1, sz, l));
            assert((n - 1) * sz < l);
            assert(l <= n * sz) by {
                if (n * sz) < l {
                    assert(batch_end(n - 1, sz, l) == n * sz);
                }
            }
            assert((l - 1) / sz == n - 1) by (nonlinear_arith)
                requires
                    (n - 1) * sz < l <= n * sz,
                    sz > 0,
                    n >= 1,
            ;
        }
    }
    r
}

/// Batching boundaries: a list one longer than the batch size takes exactly
/// two batches, and the second holds a single item.
pub proof fn lemma_batch_one_over(size: int)
    requires
        size > 0,
    ensures
        batch_count(size + 1, size) == 2,
        batch_start(1, size) == size,
        batch_end(1, size, size + 1) == size + 1,
{
    assert(size / size == 1) by (nonlinear_arith)
        requires
            size > 0,
    ;
    assert(2 * size >= size + 1) by (nonlinear_arith)
        requires
            size > 0,
    ;
}

} // verus!
