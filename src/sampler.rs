//! Block-bootstrap sampling: a sequence of requested length built from
//! contiguous windows of a historical pool, so that short-run dependence
//! between neighbouring months is kept.
use vstd::prelude::*;

use crate::rng::uniform_below;

verus! {

/// Why a sample could not be drawn.
#[derive(Copy, Clone, Debug, PartialEq, Eq, Structural)]
pub enum SampleError {
    /// The block length is 0 or longer than the pool (an empty pool included).
    PreconditionViolation,
    /// A supplied draw lies outside `[0, pool length + block length - 1)`.
    DrawOutOfRange,
    /// The supplied draws ran out before the sample reached its length.
    DrawsExhausted,
}

/// A block length `b` fits a pool of `r` items.
pub open spec fn valid_block(r: int, b: int) -> bool {
    1 <= b <= r
}

/// A draw `k` lies in `[0, r + b - 1)`.
pub open spec fn draw_in_range(k: int, r: int, b: int) -> bool {
    0 <= k < r + b - 1
}

/// First pool index of the block chosen by draw `k`.
pub open spec fn block_lo(k: int, r: int, b: int) -> int {
    if k < b - 1 {
        0
    } else {
        k - b + 1
    }
}

/// One past the last pool index of the block chosen by draw `k`.
pub open spec fn block_hi(k: int, r: int, b: int) -> int {
    if k < b - 1 {
        k + 1
    } else if k >= r {
        r
    } else {
        k + 1
    }
}

/// Pool indices of the block chosen by draw `k`: a partial block at the left
/// edge (`k < b - 1`), a partial block at the right edge (`k >= r`), else a
/// full block of length `b` ending at `k`.
pub open spec fn block(k: int, r: int, b: int) -> Seq<int> {
    Seq::new((block_hi(k, r, b) - block_lo(k, r, b)) as nat, |j: int| block_lo(k, r, b) + j)
}

/// Pool indices of the blocks of all draws, concatenated in order.
pub open spec fn bootstrap(draws: Seq<usize>, r: int, b: int) -> Seq<int>
    decreases draws.len(),
{
    if draws.len() == 0 {
        Seq::empty()
    } else {
        bootstrap(draws.drop_last(), r, b) + block(draws.last() as int, r, b)
    }
}

/// All draws lie in range.
pub open spec fn draws_in_range(draws: Seq<usize>, r: int, b: int) -> bool {
    forall|i: int| 0 <= i < draws.len() ==> draw_in_range(#[trigger] draws[i] as int, r, b)
}

/// The first `n` draws are in range and their blocks reach `length` items.
pub open spec fn covers(draws: Seq<usize>, n: int, r: int, b: int, length: int) -> bool {
    &&& 0 <= n <= draws.len()
    &&& draws_in_range(draws.take(n), r, b)
    &&& bootstrap(draws.take(n), r, b).len() >= length
}

/// The items of `pool` at the given indices.
pub open spec fn picks<T>(pool: Seq<T>, idx: Seq<int>) -> Seq<T> {
    idx.map_values(|i: int| pool[i])
}

proof fn lemma_block_in_pool(k: int, r: int, b: int)
    requires
        valid_block(r, b),
        draw_in_range(k, r, b),
    ensures
        block(k, r, b).len() >= 1,
        block(k, r, b).len() <= b,
        0 <= block_lo(k, r, b),
        block_hi(k, r, b) <= r,
        forall|j: int| 0 <= j < block(k, r, b).len() ==> 0 <= #[trigger] block(k, r, b)[j] < r,
{
}

/// The blocks of fewer draws never make a longer sequence.
proof fn lemma_bootstrap_len_monotone(draws: Seq<usize>, n: int, m: int, r: int, b: int)
    requires
        0 <= n <= m <= draws.len(),
    ensures
        bootstrap(draws.take(n), r, b).len() <= bootstrap(draws.take(m), r, b).len(),
    decreases m - n,
{
    if n < m {
        lemma_bootstrap_len_monotone(draws, n, m - 1, r, b);
        assert(draws.take(m).drop_last() =~= draws.take(m - 1));
    }
}

/// One step of sampling: appending the cut block of an in-range draw to a
/// sample that is still short keeps the sample equal to the items of the
/// blocks drawn so far, cut at `length`.
proof fn lemma_append_step<T>(
    pool: Seq<T>,
    done: Seq<usize>,
    k: usize,
    r: int,
    b: int,
    length: int,
    out: Seq<T>,
    next_out: Seq<T>,
)
    requires
        valid_block(r, b),
        r == pool.len(),
        draw_in_range(k as int, r, b),
        draws_in_range(done, r, b),
        out.len() < length,
        bootstrap(done, r, b).len() == out.len(),
        out == picks(pool, bootstrap(done, r, b).take(out.len() as int)),
        next_out == out + picks(
            pool,
            block(k as int, r, b).take(
                if block(k as int, r, b).len() + out.len() <= length {
                    block(k as int, r, b).len() as int
                } else {
                    length - out.len()
                },
            ),
        ),
    ensures
        draws_in_range(done.push(k), r, b),
        next_out.len() <= length,
        next_out.len() < length ==> bootstrap(done.push(k), r, b).len() == next_out.len(),
        next_out.len() == length ==> bootstrap(done.push(k), r, b).len() >= length,
        next_out == picks(pool, bootstrap(done.push(k), r, b).take(next_out.len() as int)),
{
    let before = bootstrap(done, r, b);
    let blk = block(k as int, r, b);
    lemma_block_in_pool(k as int, r, b);
    let next = done.push(k);
    assert(next.drop_last() =~= done);
    assert(bootstrap(next, r, b) == before + blk);
    let cut = if blk.len() + before.len() <= length { blk.len() as int } else { length - before.len() };
    assert((before + blk).take(next_out.len() as int) =~= before + blk.take(cut));
    assert(picks(pool, before + blk.take(cut)) =~= picks(pool, before) + picks(pool, blk.take(cut)));
    assert(before.take(before.len() as int) =~= before);
    assert forall|j: int| 0 <= j < next.len() implies draw_in_range(#[trigger] next[j] as int, r, b) by {
        if j < done.len() {
            assert(next[j] == done[j]);
        }
    }
}

/// Appends the block of draw `k`, cut so that `out` does not pass `length`.
fn append_block<T: Copy>(out: &mut Vec<T>, rates_in: &[T], k: usize, sublength: usize, length: usize)
    requires
        valid_block(rates_in@.len() as int, sublength as int),
        draw_in_range(k as int, rates_in@.len() as int, sublength as int),
        old(out)@.len() < length,
    ensures
        final(out)@ == old(out)@ + picks(
            rates_in@,
            block(k as int, rates_in@.len() as int, sublength as int).take(
                if block(k as int, rates_in@.len() as int, sublength as int).len() + old(out)@.len() <= length {
                    block(k as int, rates_in@.len() as int, sublength as int).len() as int
                } else {
                    length - old(out)@.len()
                },
            ),
        ),
{
    let ghost r = rates_in@.len() as int;
    let ghost b = sublength as int;
    proof {
        lemma_block_in_pool(k as int, r, b);
    }
    let lo: usize = if k < sublength - 1 { 0 } else { k - (sublength - 1) };
    let hi: usize = if k < sublength - 1 { k + 1 } else if k >= rates_in.len() { rates_in.len() } else { k + 1 };
    let room: usize = length - out.len();
    let end: usize = if hi - lo <= room { hi } else { lo + room };
    let ghost start = out@;
    let ghost taken = block(k as int, r, b).take((end - lo) as int);
    let mut j: usize = lo;
    while j < end
        invariant
            lo <= j <= end <= hi <= rates_in@.len(),
            lo == block_lo(k as int, r, b),
            hi == block_hi(k as int, r, b),
            r == rates_in@.len(),
            b == sublength,
            taken == block(k as int, r, b).take((end - lo) as int),
            out@ == start + picks(rates_in@, taken.take((j - lo) as int)),
        decreases end - j,
    {
        out.push(rates_in[j]);
        j = j + 1;
        assert(picks(rates_in@, taken.take((j - lo) as int)) =~= picks(rates_in@, taken.take((j - 1 - lo) as int)).push(rates_in@[j - 1]));
    }
    assert(taken.take((end - lo) as int) =~= taken);
}


/// The largest draw is one past the last month a block can end on.
fn in_range(k: usize, pool_len: usize, sublength: usize) -> (r: bool)
    requires
        1 <= sublength,
    ensures
        r == draw_in_range(k as int, pool_len as int, sublength as int),
{
    k < sublength - 1 || k - (sublength - 1) < pool_len
}

/// Builds a sample of `length` items of `rates_in` from the given draws, in
/// order: each draw `k` adds the block that `block` names, and the last block
/// is cut at `length`. Only as many draws are used as the length needs.
///
/// Fails with `PreconditionViolation` when `sublength` is 0 or longer than
/// the pool, with `DrawOutOfRange` when a draw that is needed lies outside
/// `[0, pool length + sublength - 1)`, and with `DrawsExhausted` when all
/// draws are used and the sample is still short.
pub fn generate_rates_from_draws<T: Copy>(
    draws: &[usize],
    rates_in: &[T],
    sublength: usize,
    length: usize,
) -> (res: Result<Vec<T>, SampleError>)
    ensures
        (res == Err::<Vec<T>, SampleError>(SampleError::PreconditionViolation)) <==> !valid_block(
            rates_in@.len() as int,
            sublength as int,
        ),
        res is Ok <==> (valid_block(rates_in@.len() as int, sublength as int) && exists|n: int|
            covers(draws@, n, rates_in@.len() as int, sublength as int, length as int)),
        (res == Err::<Vec<T>, SampleError>(SampleError::DrawsExhausted)) <==> (valid_block(
            rates_in@.len() as int,
            sublength as int,
        ) && draws_in_range(draws@, rates_in@.len() as int, sublength as int) && bootstrap(
            draws@,
            rates_in@.len() as int,
            sublength as int,
        ).len() < length),
        res matches Ok(v) ==> exists|n: int|
            {
                &&& covers(draws@, n, rates_in@.len() as int, sublength as int, length as int)
                &&& (n == 0 || !covers(
                    draws@,
                    n - 1,
                    rates_in@.len() as int,
                    sublength as int,
                    length as int,
                ))
                &&& v@ == picks(
                    rates_in@,
                    bootstrap(draws@.take(n), rates_in@.len() as int, sublength as int).take(
                        length as int,
                    ),
                )
            },
{
    let ghost r = rates_in@.len() as int;
    let ghost b = sublength as int;
    if sublength == 0 || sublength > rates_in.len() {
        return Err(SampleError::PreconditionViolation);
    }
    let mut out: Vec<T> = Vec::new();
    let mut i: usize = 0;
    while out.len() < length
        invariant
            valid_block(r, b),
            r == rates_in@.len(),
            b == sublength,
            i <= draws@.len(),
            draws_in_range(draws@.take(i as int), r, b),
            out@.len() <= length,
            out@.len() < length ==> bootstrap(draws@.take(i as int), r, b).len() == out@.len(),
            out@.len() == length ==> bootstrap(draws@.take(i as int), r, b).len() >= length,
            out@ == picks(rates_in@, bootstrap(draws@.take(i as int), r, b).take(out@.len() as int)),
            i == 0 || bootstrap(draws@.take(i - 1), r, b).len() < length,
        decreases length - out@.len(),
    {
        if i >= draws.len() {
            proof {
                assert(draws@.take(i as int) =~= draws@);
                assert forall|n: int| !covers(draws@, n, r, b, length as int) by {
                    if 0 <= n <= draws@.len() {
                        lemma_bootstrap_len_monotone(draws@, n, i as int, r, b);
                    }
                }
            }
            return Err(SampleError::DrawsExhausted);
        }
        let k = draws[i];
        if !in_range(k, rates_in.len(), sublength) {
            proof {
                assert forall|n: int| !covers(draws@, n, r, b, length as int) by {
                    if 0 <= n <= draws@.len() && n > i {
                        assert(draws@.take(n)[i as int] == k);
                    } else if 0 <= n <= i {
                        lemma_bootstrap_len_monotone(draws@, n, i as int, r, b);
                    }
                }
                assert(draws@[i as int] == k);
            }
            return Err(SampleError::DrawOutOfRange);
        }
        let ghost before_out = out@;
        append_block(&mut out, rates_in, k, sublength, length);
        proof {
            lemma_append_step(rates_in@, draws@.take(i as int), k, r, b, length as int, before_out, out@);
            assert(draws@.take(i as int).push(k) =~= draws@.take(i + 1));
        }
        i = i + 1;
    }
    proof {
        assert(covers(draws@, i as int, r, b, length as int));
        lemma_bootstrap_len_monotone(draws@, i as int, draws@.len() as int, r, b);
        assert(draws@.take(draws@.len() as int) =~= draws@);
        if i > 0 {
            assert(!covers(draws@, i - 1, r, b, length as int));
        }
    }
    Ok(out)
}


/// Builds a sample of `length` items of `rates_in` with the generator: each
/// draw is uniform in `[0, pool length + sublength - 1)` and adds its block,
/// the last block cut at `length`. Fails with `PreconditionViolation`, and
/// only then, when `sublength` is 0 or longer than the pool.
pub fn generate_rates<T: Copy>(
    rng: rand_pcg::Mcg128Xsl64,
    rates_in: &[T],
    sublength: usize,
    length: usize,
) -> (res: Result<Vec<T>, SampleError>)
    requires
        rates_in@.len() + sublength <= usize::MAX,
    ensures
        res is Err <==> !valid_block(rates_in@.len() as int, sublength as int),
        res is Err ==> res == Err::<Vec<T>, SampleError>(SampleError::PreconditionViolation),
        res matches Ok(v) ==> {
            &&& v@.len() == length
            &&& exists|draws: Seq<usize>|
                {
                    &&& draws_in_range(draws, rates_in@.len() as int, sublength as int)
                    &&& covers(draws, draws.len() as int, rates_in@.len() as int, sublength as int, length as int)
                    &&& v@ == picks(
                        rates_in@,
                        bootstrap(draws, rates_in@.len() as int, sublength as int).take(length as int),
                    )
                }
        },
{
    let ghost r = rates_in@.len() as int;
    let ghost b = sublength as int;
    if sublength == 0 || sublength > rates_in.len() {
        return Err(SampleError::PreconditionViolation);
    }
    let mut rng = rng;
    let bound: usize = rates_in.len() + (sublength - 1);
    let mut out: Vec<T> = Vec::new();
    let ghost mut draws: Seq<usize> = Seq::empty();
    while out.len() < length
        invariant
            valid_block(r, b),
            r == rates_in@.len(),
            b == sublength,
            bound == r + b - 1,
            draws_in_range(draws, r, b),
            out@.len() <= length,
            out@.len() < length ==> bootstrap(draws, r, b).len() == out@.len(),
            out@.len() == length ==> bootstrap(draws, r, b).len() >= length,
            out@ == picks(rates_in@, bootstrap(draws, r, b).take(out@.len() as int)),
        decreases length - out@.len(),
    {
        let k = uniform_below(&mut rng, bound);
        let ghost before_out = out@;
        append_block(&mut out, rates_in, k, sublength, length);
        proof {
            lemma_append_step(rates_in@, draws, k, r, b, length as int, before_out, out@);
            draws = draws.push(k);
        }
    }
    proof {
        assert(draws.take(draws.len() as int) =~= draws);
        assert(covers(draws, draws.len() as int, r, b, length as int));
    }
    Ok(out)
}

/// The three kinds of block at their edges: the first draw takes the first
/// item alone, the last draw takes the last item alone, and draw `b - 1` is
/// the first full block, the first `b` items.
pub proof fn lemma_block_edges(r: int, b: int)
    requires
        valid_block(r, b),
    ensures
        block(0, r, b) == seq![0int],
        block(r + b - 2, r, b) == seq![r - 1],
        block(b - 1, r, b) == Seq::new(b as nat, |j: int| j),
{
    assert(block(0, r, b) =~= seq![0int]);
    assert(block(r + b - 2, r, b) =~= seq![r - 1]);
    assert(block(b - 1, r, b) =~= Seq::new(b as nat, |j: int| j));
}

/// The blocks of fewer draws start the blocks of more draws.
proof fn lemma_bootstrap_prefix(draws: Seq<usize>, m: int, n: int, r: int, b: int)
    requires
        0 <= m <= n <= draws.len(),
    ensures
        bootstrap(draws.take(m), r, b).len() <= bootstrap(draws.take(n), r, b).len(),
        bootstrap(draws.take(n), r, b).take(bootstrap(draws.take(m), r, b).len() as int) == bootstrap(
            draws.take(m),
            r,
            b,
        ),
    decreases n - m,
{
    let small = bootstrap(draws.take(m), r, b);
    if m == n {
        assert(small.take(small.len() as int) =~= small);
    } else {
        lemma_bootstrap_prefix(draws, m, n - 1, r, b);
        assert(draws.take(n).drop_last() =~= draws.take(n - 1));
        let mid = bootstrap(draws.take(n - 1), r, b);
        assert((mid + block(draws[n - 1] as int, r, b)).take(small.len() as int) =~= mid.take(small.len() as int));
    }
}

/// The block edges as a sample shows them: a sample whose first draw is 0
/// starts with the first pool item, one whose first draw is
/// `r + b - 2` starts with the last pool item, and in both cases the block of
/// the second draw starts at the second item; a sample whose first draw is
/// `b - 1` starts with the first `b` pool items, as far as its length reaches.
pub proof fn lemma_sample_edges<T>(pool: Seq<T>, draws: Seq<usize>, n: int, b: int, length: int)
    requires
        valid_block(pool.len() as int, b),
        covers(draws, n, pool.len() as int, b, length),
        length >= 1,
    ensures
        n >= 1,
        draws[0] == 0 ==> picks(pool, bootstrap(draws.take(n), pool.len() as int, b).take(length))[0]
            == pool[0],
        draws[0] == pool.len() + b - 2 ==> picks(
            pool,
            bootstrap(draws.take(n), pool.len() as int, b).take(length),
        )[0] == pool[pool.len() - 1],
        (draws[0] == 0 || draws[0] == pool.len() + b - 2) && length >= 2 ==> n >= 2 && picks(
            pool,
            bootstrap(draws.take(n), pool.len() as int, b).take(length),
        )[1] == pool[block(draws[1] as int, pool.len() as int, b)[0]],
        draws[0] == b - 1 ==> forall|j: int|
            0 <= j < b && j < length ==> #[trigger] picks(
                pool,
                bootstrap(draws.take(n), pool.len() as int, b).take(length),
            )[j] == pool[j],
{
    let r = pool.len() as int;
    let all = bootstrap(draws.take(n), r, b);
    if n == 0 {
        assert(bootstrap(draws.take(0), r, b) == Seq::<int>::empty());
        assert(false);
    }
    assert(draws.take(n)[0] == draws[0]);
    let k0 = draws[0] as int;
    lemma_block_in_pool(k0, r, b);
    lemma_block_edges(r, b);
    assert(draws.take(1).drop_last() =~= Seq::<usize>::empty());
    assert(bootstrap(Seq::<usize>::empty(), r, b) == Seq::<int>::empty());
    assert(draws.take(1).last() == draws[0]);
    assert(bootstrap(draws.take(1), r, b) =~= block(k0, r, b));
    lemma_bootstrap_prefix(draws, 1, n, r, b);
    assert(all[0] == block(k0, r, b)[0]);
    if draws[0] == b - 1 {
        assert forall|j: int| 0 <= j < b && j < length implies #[trigger] picks(pool, all.take(length))[j]
            == pool[j] by {
            assert(all[j] == block(k0, r, b)[j]);
        }
    }
    if (draws[0] == 0 || draws[0] == r + b - 2) && length >= 2 {
        assert(block(k0, r, b).len() == 1);
        if n == 1 {
            assert(all.len() == 1);
        }
        assert(draws.take(n)[1] == draws[1]);
        let k1 = draws[1] as int;
        lemma_block_in_pool(k1, r, b);
        assert(draws.take(2).drop_last() =~= draws.take(1));
        assert(bootstrap(draws.take(2), r, b) == block(k0, r, b) + block(k1, r, b));
        lemma_bootstrap_prefix(draws, 2, n, r, b);
        assert(all[1] == bootstrap(draws.take(2), r, b)[1]);
    }
}

/// Equal draws give equal samples: of all the prefixes of the draws that
/// cover a length, only one is the shortest, so the sample that
/// `generate_rates_from_draws` returns is fixed by its arguments.
pub proof fn lemma_shortest_cover_unique(draws: Seq<usize>, n1: int, n2: int, r: int, b: int, length: int)
    requires
        covers(draws, n1, r, b, length),
        n1 == 0 || !covers(draws, n1 - 1, r, b, length),
        covers(draws, n2, r, b, length),
        n2 == 0 || !covers(draws, n2 - 1, r, b, length),
    ensures
        n1 == n2,
{
    if n1 < n2 {
        lemma_prefix_covers(draws, n1, n2 - 1, n2, r, b, length);
    } else if n2 < n1 {
        lemma_prefix_covers(draws, n2, n1 - 1, n1, r, b, length);
    }
}

proof fn lemma_prefix_covers(draws: Seq<usize>, n: int, m: int, p: int, r: int, b: int, length: int)
    requires
        covers(draws, n, r, b, length),
        covers(draws, p, r, b, length),
        n <= m < p,
    ensures
        covers(draws, m, r, b, length),
{
    lemma_bootstrap_len_monotone(draws, n, m, r, b);
    assert forall|j: int| 0 <= j < m implies draw_in_range(#[trigger] draws.take(m)[j] as int, r, b) by {
        assert(draws.take(m)[j] == draws.take(p)[j]);
    }
}

} // verus!
