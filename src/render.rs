use vstd::arithmetic::div_mod::{lemma_fundamental_div_mod, lemma_fundamental_div_mod_converse};
use vstd::prelude::*;

verus! {

/// A run of consecutive pixel indices, `start` included, `end` excluded.
#[derive(Clone, Copy, Debug, PartialEq, Eq, Structural)]
pub struct PixelRange {
    pub start: usize,
    pub end: usize,
}

/// Range `i` when `total` pixels are cut into runs of `size`: the last run may be shorter.
pub open spec fn pixel_range(total: nat, size: nat, i: nat) -> PixelRange {
    PixelRange {
        start: (i * size) as usize,
        end: (if (i + 1) * size <= total {
            (i + 1) * size
        } else {
            total
        }) as usize,
    }
}

/// The number of runs of `size` needed to hold `total` pixels.
pub open spec fn range_count(total: nat, size: nat) -> nat {
    if size == 0 {
        0
    } else {
        ((total + size - 1) / size as int) as nat
    }
}

pub open spec fn pixel_ranges_of(total: nat, size: nat) -> Seq<PixelRange> {
    Seq::new(range_count(total, size), |i: int| pixel_range(total, size, i as nat))
}

/// Cuts the pixels `0 .. total` into consecutive runs of `size` (the last
/// maybe shorter), so that each rendering task writes a part of the image
/// that no other task touches.
pub fn pixel_ranges(total: usize, size: usize) -> (ranges: Vec<PixelRange>)
    requires
        size > 0,
    ensures
        ranges@ == pixel_ranges_of(total as nat, size as nat),
{
    let mut ranges: Vec<PixelRange> = Vec::new();
    let mut start: usize = 0;
    proof {
        assert(0 * size == 0);
        if total == 0 {
            lemma_fundamental_div_mod_converse(size - 1, size as int, 0, size - 1);
        }
    }
    while start < total
        invariant
            size > 0,
            start <= total,
            start < total ==> start == ranges@.len() * size,
            start >= total ==> ranges@.len() == range_count(total as nat, size as nat),
            ranges@ =~= Seq::new(
                ranges@.len(),
                |i: int| pixel_range(total as nat, size as nat, i as nat),
            ),
        decreases total - start,
    {
        let ghost k = ranges@.len();
        let end = if total - start > size {
            start + size
        } else {
            total
        };
        ranges.push(PixelRange { start, end });
        proof {
            assert((k + 1) * size == k * size + size) by (nonlinear_arith);
            lemma_count_step(total as nat, size as nat, k);
        }
        start = end;
    }
    ranges
}

proof fn lemma_count_step(total: nat, size: nat, k: nat)
    requires
        size > 0,
        k * size < total,
    ensures
        (k + 1) * size < total ==> k + 1 < range_count(total, size),
        (k + 1) * size >= total ==> k + 1 == range_count(total, size),
{
    let t = total as int;
    let s = size as int;
    let k = k as int;
    let c = range_count(total, size) as int;
    lemma_fundamental_div_mod(t + s - 1, s);
    let r = (t + s - 1) % s;
    assert(t + s - 1 == s * c + r);
    assert(c * s == s * c) by (nonlinear_arith);
    assert((k + 1) * s == k * s + s) by (nonlinear_arith);
    if (k + 1) * s < t {
        assert(k + 1 < c) by (nonlinear_arith)
            requires
                (k + 1) * s < t,
                t + s - 1 == c * s + r,
                0 <= r < s,
        ;
    } else {
        assert(k + 1 == c) by (nonlinear_arith)
            requires
                (k + 1) * s >= t,
                k * s < t,
                t + s - 1 == c * s + r,
                0 <= r < s,
        ;
    }
}

/// The runs cover the image exactly once: every pixel below `total` lies in
/// run `p / size` and in no other run.
pub proof fn lemma_pixel_ranges_partition(total: nat, size: nat, p: nat)
    requires
        size > 0,
        total <= usize::MAX,
        p < total,
    ensures
        p / size < range_count(total, size),
        pixel_ranges_of(total, size)[(p / size) as int].start <= p
            < pixel_ranges_of(total, size)[(p / size) as int].end,
        forall|j: int|
            0 <= j < range_count(total, size) && j != p / size ==> !(
            #[trigger] pixel_ranges_of(total, size)[j].start <= p
                < pixel_ranges_of(total, size)[j].end),
{
    let t = total as int;
    let s = size as int;
    let q = p as int;
    let i = q / s;
    let c = range_count(total, size) as int;
    lemma_fundamental_div_mod(q, s);
    lemma_fundamental_div_mod(t + s - 1, s);
    let m = q % s;
    let r = (t + s - 1) % s;
    assert(c * s == s * c) by (nonlinear_arith);
    assert(i * s == s * i) by (nonlinear_arith);
    assert(q == i * s + m);
    assert(0 <= i) by (nonlinear_arith)
        requires
            q == i * s + m,
            0 <= q,
            0 <= m < s,
    ;
    assert(i < c) by (nonlinear_arith)
        requires
            q == i * s + m,
            0 <= m < s,
            q < t,
            t + s - 1 == c * s + r,
            0 <= r < s,
    ;
    assert((i + 1) * s == i * s + s) by (nonlinear_arith);
    assert(i * s <= t);
    assert forall|j: int|
        0 <= j < c && j != i implies !(#[trigger] pixel_ranges_of(total, size)[j].start <= p
        < pixel_ranges_of(total, size)[j].end) by {
        assert(j * s <= t) by (nonlinear_arith)
            requires
                0 <= j < c,
                t + s - 1 == c * s + r,
                0 <= r < s,
        ;
        assert((j + 1) * s == j * s + s) by (nonlinear_arith);
        if j < i {
            assert((j + 1) * s <= i * s) by (nonlinear_arith)
                requires
                    j + 1 <= i,
                    s > 0,
            ;
        } else {
            assert((i + 1) * s <= j * s) by (nonlinear_arith)
                requires
                    i + 1 <= j,
                    s > 0,
            ;
        }
    }
}

} // verus!
