use vstd::prelude::*;

use crate::mandelbrot::{colors_of, lemma_colors_of_concat, EscapeResult};

verus! {

/// Start of range `i` when `total` pixels are split into `n` ranges:
/// `i * total / n`, rounded to the nearest integer, halves upward.
pub open spec fn boundary(i: int, n: int, total: int) -> int {
    (2 * i * total + n) / (2 * n)
}

pub proof fn lemma_boundary_ends(n: int, total: int)
    requires
        n >= 1,
        total >= 0,
    ensures
        boundary(0, n, total) == 0,
        boundary(n, n, total) == total,
{
    assert(n / (2 * n) == 0) by (nonlinear_arith)
        requires n >= 1;
    assert(2 * 0 * total + n == n) by (nonlinear_arith);
    assert((2 * n * total + n) / (2 * n) == total) by (nonlinear_arith)
        requires n >= 1, total >= 0;
}

pub proof fn lemma_boundary_monotone(i: int, j: int, n: int, total: int)
    requires
        0 <= i <= j,
        n >= 1,
        total >= 0,
    ensures
        boundary(i, n, total) <= boundary(j, n, total),
{
    assert(2 * i * total + n <= 2 * j * total + n) by (nonlinear_arith)
        requires 0 <= i <= j, total >= 0;
    vstd::arithmetic::div_mod::lemma_div_is_ordered(2 * i * total + n, 2 * j * total + n, 2 * n);
}

/// The ranges of a partition of `[0, total)` into `n` contiguous ranges.
pub open spec fn partition_spec(n: int, total: int) -> Seq<(int, int)> {
    Seq::new(n as nat, |i: int| (boundary(i, n, total), boundary(i + 1, n, total)))
}

/// Whether pixel `p` lies in range `i` of the partition into `n` ranges.
pub open spec fn in_range(n: int, total: int, i: int, p: int) -> bool {
    0 <= i < n && boundary(i, n, total) <= p < boundary(i + 1, n, total)
}

/// The ranges of `partition` start at 0, end at `total`, and each starts
/// where the one before it ends.
pub proof fn partition_tiles(n: int, total: int)
    requires
        n >= 1,
        total >= 0,
    ensures
        partition_spec(n, total)[0].0 == 0,
        partition_spec(n, total)[n - 1].1 == total,
        forall|i: int| 0 <= i < n ==> #[trigger] partition_spec(n, total)[i].0 <= partition_spec(n, total)[i].1,
        forall|i: int|
            0 <= i < n - 1 ==> #[trigger] partition_spec(n, total)[i].1 == partition_spec(n, total)[i + 1].0,
{
    lemma_boundary_ends(n, total);
    assert forall|i: int| 0 <= i < n implies #[trigger] partition_spec(n, total)[i].0 <= partition_spec(n, total)[i].1 by {
        lemma_boundary_monotone(i, i + 1, n, total);
    }
}

/// Every pixel of `[0, total)` lies in some range of the partition.
pub proof fn partition_covers(n: int, total: int, p: int)
    requires
        n >= 1,
        0 <= p < total,
    ensures
        exists|i: int| #[trigger] in_range(n, total, i, p),
{
    lemma_boundary_ends(n, total);
    let i = lemma_find_range(n, total, p, n);
    assert(in_range(n, total, i, p));
}

/// No pixel lies in two ranges of the partition.
pub proof fn partition_disjoint(n: int, total: int, p: int, i: int, j: int)
    requires
        n >= 1,
        total >= 0,
        in_range(n, total, i, p),
        in_range(n, total, j, p),
    ensures
        i == j,
{
    if i < j {
        lemma_boundary_monotone(i + 1, j, n, total);
    } else if j < i {
        lemma_boundary_monotone(j + 1, i, n, total);
    }
}

/// A range among the first `m` that holds `p`, for `p` below boundary `m`.
proof fn lemma_find_range(n: int, total: int, p: int, m: int) -> (i: int)
    requires
        n >= 1,
        total >= 0,
        0 <= m <= n,
        0 <= p < boundary(m, n, total),
    ensures
        0 <= i < m,
        boundary(i, n, total) <= p < boundary(i + 1, n, total),
    decreases m,
{
    lemma_boundary_ends(n, total);
    if m == 0 {
        assert(false);
        0
    } else if boundary(m - 1, n, total) <= p {
        m - 1
    } else {
        lemma_find_range(n, total, p, m - 1)
    }
}

fn boundary_exec(i: usize, n: usize, total: u64) -> (r: u64)
    requires
        1 <= n,
        i <= n,
    ensures
        r as int == boundary(i as int, n as int, total as int),
{
    proof {
        assert((i as int) * (total as int) <= 0xffff_ffff_ffff_ffff * 0xffff_ffff_ffff_ffff) by (nonlinear_arith)
            requires i <= 0xffff_ffff_ffff_ffff, total <= 0xffff_ffff_ffff_ffff;
    }
    let prod: u128 = i as u128 * total as u128;
    let q: u128 = prod / n as u128;
    let rem: u128 = prod % n as u128;
    proof {
        assert(q as int <= total as int) by (nonlinear_arith)
            requires q as int == (prod as int) / (n as int), prod as int == (i as int) * (total as int), i <= n, n >= 1;
    }
    let r: u128 = if 2 * rem >= n as u128 { q + 1 } else { q };
    proof {
        let (ii, nn, tt) = (i as int, n as int, total as int);
        let (p, qq, rr) = (prod as int, q as int, rem as int);
        assert(p == ii * tt);
        assert(p == qq * nn + rr && 0 <= rr < nn) by (nonlinear_arith)
            requires qq == p / nn, rr == p % nn, nn >= 1, p >= 0;
        assert(2 * p + nn == qq * (2 * nn) + (2 * rr + nn)) by (nonlinear_arith)
            requires p == qq * nn + rr;
        if 2 * rr >= nn {
            assert(2 * p + nn == (qq + 1) * (2 * nn) + (2 * rr - nn)) by (nonlinear_arith)
                requires 2 * p + nn == qq * (2 * nn) + (2 * rr + nn);
            vstd::arithmetic::div_mod::lemma_fundamental_div_mod_converse(
                2 * p + nn, 2 * nn, qq + 1, 2 * rr - nn);
        } else {
            vstd::arithmetic::div_mod::lemma_fundamental_div_mod_converse(
                2 * p + nn, 2 * nn, qq, 2 * rr + nn);
        }
        assert(2 * ii * tt + nn == 2 * p + nn) by (nonlinear_arith) requires p == ii * tt;
        lemma_boundary_monotone(ii, nn, nn, tt);
        lemma_boundary_ends(nn, tt);
    }
    r as u64
}

/// Split `[0, total)` into `n` contiguous ranges of near-equal size, one per
/// worker; range `i` is `[boundary(i), boundary(i + 1))`.
pub fn partition(n: usize, total: u64) -> (r: Vec<(u64, u64)>)
    requires
        n >= 1,
    ensures
        r@.len() == n,
        forall|i: int| 0 <= i < n ==> (#[trigger] r@[i].0 as int, r@[i].1 as int) == partition_spec(n as int, total as int)[i],
{
    let mut r: Vec<(u64, u64)> = Vec::with_capacity(n);
    let mut start: u64 = boundary_exec(0, n, total);
    let mut i: usize = 0;
    while i < n
        invariant
            i <= n,
            n >= 1,
            r@.len() == i,
            start as int == boundary(i as int, n as int, total as int),
            forall|j: int| 0 <= j < i ==> (#[trigger] r@[j].0 as int, r@[j].1 as int) == partition_spec(n as int, total as int)[j],
        decreases n - i,
    {
        let end = boundary_exec(i + 1, n, total);
        r.push((start, end));
        start = end;
        i = i + 1;
    }
    r
}

/// Concatenation of a sequence of byte runs, in order.
pub open spec fn concat(chunks: Seq<Seq<u8>>) -> Seq<u8>
    decreases chunks.len(),
{
    if chunks.len() == 0 {
        Seq::empty()
    } else {
        concat(chunks.drop_last()) + chunks.last()
    }
}

/// Join the workers' outputs in range order into one raster.
pub fn assemble(chunks: Vec<Vec<u8>>) -> (out: Vec<u8>)
    ensures
        out@ == concat(chunks@.map_values(|c: Vec<u8>| c@)),
{
    let ghost views = chunks@.map_values(|c: Vec<u8>| c@);
    let mut out: Vec<u8> = Vec::new();
    let mut i: usize = 0;
    while i < chunks.len()
        invariant
            i <= chunks@.len(),
            views == chunks@.map_values(|c: Vec<u8>| c@),
            out@ == concat(views.subrange(0, i as int)),
        decreases chunks.len() - i,
    {
        let chunk = &chunks[i];
        let ghost before = out@;
        let mut j: usize = 0;
        while j < chunk.len()
            invariant
                j <= chunk@.len(),
                out@ == before + chunk@.subrange(0, j as int),
            decreases chunk.len() - j,
        {
            out.push(chunk[j]);
            assert(out@ =~= before + chunk@.subrange(0, j + 1));
            j = j + 1;
        }
        assert(chunk@.subrange(0, chunk@.len() as int) =~= chunk@);
        assert(views.subrange(0, i + 1).drop_last() =~= views.subrange(0, i as int));
        i = i + 1;
    }
    assert(views.subrange(0, views.len() as int) =~= views);
    out
}

/// The worker outputs for a partition into `n` ranges: the colours of each
/// range of pixels.
pub open spec fn worker_outputs(rs: Seq<EscapeResult>, budget: int, n: int) -> Seq<Seq<u8>> {
    Seq::new(n as nat, |i: int| colors_of(rs.subrange(boundary(i, n, rs.len() as int), boundary(i + 1, n, rs.len() as int)), budget))
}

/// Splitting a raster into any number of ranges, colouring each range on its
/// own and joining the outputs in range order gives the same bytes as
/// colouring the whole raster in one pass.
pub proof fn render_independent_of_thread_count(rs: Seq<EscapeResult>, budget: int, n: int)
    requires
        n >= 1,
    ensures
        concat(worker_outputs(rs, budget, n)) == colors_of(rs, budget),
{
    let t = rs.len() as int;
    lemma_boundary_ends(n, t);
    lemma_prefix_outputs(rs, budget, n, n);
    assert(worker_outputs(rs, budget, n).subrange(0, n) =~= worker_outputs(rs, budget, n));
    assert(rs.subrange(0, t) =~= rs);
}

proof fn lemma_prefix_outputs(rs: Seq<EscapeResult>, budget: int, n: int, m: int)
    requires
        n >= 1,
        0 <= m <= n,
    ensures
        concat(worker_outputs(rs, budget, n).subrange(0, m))
            == colors_of(rs.subrange(0, boundary(m, n, rs.len() as int)), budget),
    decreases m,
{
    let t = rs.len() as int;
    let outs = worker_outputs(rs, budget, n);
    lemma_boundary_ends(n, t);
    if m == 0 {
        assert(outs.subrange(0, 0) =~= Seq::<Seq<u8>>::empty());
        assert(rs.subrange(0, 0) =~= Seq::<EscapeResult>::empty());
    } else {
        lemma_prefix_outputs(rs, budget, n, m - 1);
        let a = boundary(m - 1, n, t);
        let b = boundary(m, n, t);
        lemma_boundary_monotone(0, m - 1, n, t);
        lemma_boundary_monotone(m - 1, m, n, t);
        lemma_boundary_monotone(m, n, n, t);
        assert(outs.subrange(0, m).drop_last() =~= outs.subrange(0, m - 1));
        assert(rs.subrange(0, b) =~= rs.subrange(0, a) + rs.subrange(a, b));
        lemma_colors_of_concat(rs.subrange(0, a), rs.subrange(a, b), budget);
    }
}

} // verus!
