use vstd::arithmetic::div_mod::lemma_fundamental_div_mod_converse;
use vstd::prelude::*;

verus! {

/// How many points within each pixel are traced and averaged.
#[derive(Clone, Copy, Debug, PartialEq, Eq, Structural)]
pub enum SubPixelSampling {
    /// One sample, at the centre of the pixel.
    Centre,
    /// An `n` by `n` grid of samples, each at the centre of its sub-cell.
    Square(u8),
}

/// A point within a pixel, measured from its top-left corner in units of the
/// pixel's side: `(x / denominator, y / denominator)`.
#[derive(Clone, Copy, Debug, PartialEq, Eq, Structural)]
pub struct PixelOffset {
    pub x: u32,
    pub y: u32,
    pub denominator: u32,
}

/// The centre of sub-cell `(k / n, k % n)` of an `n` by `n` grid over the pixel.
pub open spec fn grid_offset(n: nat, k: nat) -> PixelOffset {
    PixelOffset {
        x: (2 * (k / n) + 1) as u32,
        y: (2 * (k % n) + 1) as u32,
        denominator: (2 * n) as u32,
    }
}

/// The offsets that a sampling traces, in order.
pub open spec fn offsets_of(sampling: SubPixelSampling) -> Seq<PixelOffset> {
    match sampling {
        SubPixelSampling::Centre => seq![PixelOffset { x: 1, y: 1, denominator: 2 }],
        SubPixelSampling::Square(n) => Seq::new(
            (n * n) as nat,
            |k: int| grid_offset(n as nat, k as nat),
        ),
    }
}

/// The offset lies strictly inside the pixel.
pub open spec fn inside_pixel(o: PixelOffset) -> bool {
    0 < o.x < o.denominator && 0 < o.y < o.denominator
}

/// The point opposite `o` through the centre of the pixel.
pub open spec fn mirrored(o: PixelOffset) -> PixelOffset {
    PixelOffset {
        x: (o.denominator - o.x) as u32,
        y: (o.denominator - o.y) as u32,
        denominator: o.denominator,
    }
}

impl SubPixelSampling {
    /// The points within a pixel at which it is sampled, the same for every pixel.
    pub fn pixel_offsets(&self) -> (offsets: Vec<PixelOffset>)
        ensures
            offsets@ == offsets_of(*self),
    {
        match self {
            SubPixelSampling::Centre => {
                let offsets = vec![PixelOffset { x: 1, y: 1, denominator: 2 }];
                assert(offsets@ =~= offsets_of(*self));
                offsets
            },
            SubPixelSampling::Square(n) => {
                let n = *n;
                assert(n as usize * n as usize <= 255 * 255) by (nonlinear_arith)
                    requires
                        n <= 255,
                ;
                let mut offsets: Vec<PixelOffset> = Vec::with_capacity(n as usize * n as usize);
                let mut x: u8 = 0;
                while x < n
                    invariant
                        x <= n,
                        offsets@ =~= Seq::new(
                            (x * n) as nat,
                            |k: int| grid_offset(n as nat, k as nat),
                        ),
                    decreases n - x,
                {
                    let mut y: u8 = 0;
                    while y < n
                        invariant
                            x < n,
                            y <= n,
                            offsets@ =~= Seq::new(
                                (x * n + y) as nat,
                                |k: int| grid_offset(n as nat, k as nat),
                            ),
                        decreases n - y,
                    {
                        proof {
                            lemma_fundamental_div_mod_converse(x * n + y, n as int, x as int, y as int);
                        }
                        offsets.push(
                            PixelOffset {
                                x: 2 * x as u32 + 1,
                                y: 2 * y as u32 + 1,
                                denominator: 2 * n as u32,
                            },
                        );
                        y += 1;
                    }
                    assert(x * n + n == (x + 1) * n) by (nonlinear_arith);
                    x += 1;
                }
                offsets
            },
        }
    }
}

/// A square grid of side `n` yields exactly `n * n` offsets, each strictly
/// inside the pixel, and the set is symmetric about the pixel's centre.
pub proof fn lemma_square_offsets(n: u8)
    ensures
        offsets_of(SubPixelSampling::Square(n)).len() == n * n,
        forall|k: int|
            0 <= k < n * n ==> inside_pixel(#[trigger] offsets_of(SubPixelSampling::Square(n))[k]),
        forall|k: int|
            0 <= k < n * n ==> offsets_of(SubPixelSampling::Square(n)).contains(
                mirrored(#[trigger] offsets_of(SubPixelSampling::Square(n))[k]),
            ),
{
    let offsets = offsets_of(SubPixelSampling::Square(n));
    assert forall|k: int| 0 <= k < n * n implies inside_pixel(#[trigger] offsets[k])
        && offsets.contains(mirrored(offsets[k])) by {
        let i = k / n as int;
        let j = k % n as int;
        assert(0 <= i < n && 0 <= j < n) by (nonlinear_arith)
            requires
                0 <= k < n * n,
                i == k / n as int,
                j == k % n as int,
                n > 0,
        ;
        let m = (n - 1 - i) * n + (n - 1 - j);
        assert(0 <= m < n * n) by (nonlinear_arith)
            requires
                0 <= i < n,
                0 <= j < n,
                m == (n - 1 - i) * n + (n - 1 - j),
        ;
        lemma_fundamental_div_mod_converse(m, n as int, n - 1 - i, n - 1 - j);
        assert(offsets[m] == mirrored(offsets[k]));
    }
}

/// A one-by-one grid samples the pixel exactly where no sub-pixel sampling does.
pub proof fn lemma_single_square_is_centre()
    ensures
        offsets_of(SubPixelSampling::Square(1)) == offsets_of(SubPixelSampling::Centre),
{
    assert(offsets_of(SubPixelSampling::Square(1)) =~= offsets_of(SubPixelSampling::Centre));
}

} // verus!
