use vstd::prelude::*;

verus! {

/// How the sample points of a spherical light are placed.
#[derive(Clone, Copy, Debug, PartialEq, Eq, Structural)]
pub enum LightSampling {
    /// Fresh independent points, uniformly distributed over the sphere, at every use.
    Random,
    /// A fixed low-discrepancy spiral of points: the same at every use.
    Uniform,
}

/// The `index`-th point of the uniform spiral over a sphere. Its latitude is
/// the arcsine of `sine_numerator / sine_denominator`; its longitude is
/// `index` times the golden angle.
#[derive(Clone, Copy, Debug, PartialEq, Eq, Structural)]
pub struct UniformSample {
    pub index: usize,
    pub sine_numerator: i128,
    pub sine_denominator: u128,
}

/// Point `k` (counting from zero) of a spiral of `count` points: index `k + 1`,
/// latitude sine `2 (k + 1) / (count + 1) - 1`.
pub open spec fn uniform_sample(count: nat, k: nat) -> UniformSample {
    UniformSample {
        index: (k + 1) as usize,
        sine_numerator: (2 * (k + 1) - (count + 1)) as i128,
        sine_denominator: (count + 1) as u128,
    }
}

/// The spiral of `count` points, from the southern pole upwards.
pub open spec fn uniform_samples(count: nat) -> Seq<UniformSample> {
    Seq::new(count, |k: int| uniform_sample(count, k as nat))
}

impl LightSampling {
    /// Whether a light keeps its sample points when nothing says otherwise:
    /// only a uniform spiral, which never changes, is worth keeping.
    pub fn caches_by_default(&self) -> (r: bool)
        ensures
            r == (*self == LightSampling::Uniform),
    {
        match self {
            LightSampling::Random => false,
            LightSampling::Uniform => true,
        }
    }
}

/// The latitudes and longitudes of `count` points spread evenly over a sphere.
pub fn uniform_surface_points(count: usize) -> (samples: Vec<UniformSample>)
    ensures
        samples@ == uniform_samples(count as nat),
{
    let mut samples: Vec<UniformSample> = Vec::with_capacity(count);
    let mut k: usize = 0;
    while k < count
        invariant
            k <= count,
            samples@ =~= Seq::new(k as nat, |j: int| uniform_sample(count as nat, j as nat)),
        decreases count - k,
    {
        samples.push(
            UniformSample {
                index: k + 1,
                sine_numerator: 2 * (k as i128 + 1) - (count as i128 + 1),
                sine_denominator: count as u128 + 1,
            },
        );
        k += 1;
    }
    samples
}

/// The uniform spiral depends on the number of points alone: two placements
/// of the same number of points are identical.
pub proof fn lemma_uniform_sampling_deterministic(
    first: Seq<UniformSample>,
    second: Seq<UniformSample>,
    count: nat,
)
    requires
        first == uniform_samples(count),
        second == uniform_samples(count),
    ensures
        first == second,
{
}

/// Every point of the uniform spiral has a latitude sine strictly between -1
/// and 1 (so its arcsine is defined and no two points sit on a pole), the
/// sines rise strictly from one point to the next, and the spiral is
/// symmetric about the equator.
pub proof fn lemma_uniform_samples_spread(count: nat)
    requires
        count <= usize::MAX,
    ensures
        forall|k: int|
            0 <= k < count ==> -(#[trigger] uniform_samples(count)[k]).sine_denominator
                < uniform_samples(count)[k].sine_numerator
                < uniform_samples(count)[k].sine_denominator,
        forall|k: int|
            0 <= k < count - 1 ==> (#[trigger] uniform_samples(count)[k]).sine_numerator
                < uniform_samples(count)[k + 1].sine_numerator,
        forall|k: int|
            0 <= k < count ==> (#[trigger] uniform_samples(count)[k]).sine_numerator
                == -uniform_samples(count)[count - 1 - k].sine_numerator,
{
    assert forall|k: int| 0 <= k < count implies -(#[trigger] uniform_samples(count)[k]).sine_denominator
        < uniform_samples(count)[k].sine_numerator
        < uniform_samples(count)[k].sine_denominator by {
        assert(uniform_samples(count)[k].sine_numerator == 2 * (k + 1) - (count + 1));
        assert(uniform_samples(count)[k].sine_denominator == count + 1);
    }
    assert forall|k: int| 0 <= k < count - 1 implies (#[trigger] uniform_samples(count)[k]).sine_numerator
        < uniform_samples(count)[k + 1].sine_numerator by {
        assert(uniform_samples(count)[k].sine_numerator == 2 * (k + 1) - (count + 1));
        assert(uniform_samples(count)[k + 1].sine_numerator == 2 * (k + 2) - (count + 1));
    }
}

} // verus!
