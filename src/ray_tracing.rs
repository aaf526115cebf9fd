use vstd::prelude::*;

verus! {

/// Deepest level of recursive reflection: a ray spawned at this depth is not traced.
pub const RECURSION_DEPTH: usize = 10;

/// A stable handle for an object of a scene, assigned when the scene is built.
#[derive(Clone, Copy, Debug, PartialEq, Eq, Structural, Hash)]
pub struct ObjectHandle {
    pub index: usize,
}

/// What a single light sample contributes to a surface point.
#[derive(Clone, Copy, Debug, PartialEq, Eq, Structural)]
pub enum SampleOutcome {
    /// The attenuated intensity is below what an 8-bit channel can show.
    Faint,
    /// Another object lies between the sample point and the surface.
    Occluded,
    /// The light reaches the back of the surface.
    BackFacing,
    /// The sample adds diffuse (and, for a shiny material, specular) light.
    Lit,
}

/// The outcome of a light sample at a surface point of `surface`.
/// `blocker` is the first object that the sample ray hits, if any; hitting
/// `surface` itself does not block the light.
pub open spec fn sample_outcome(
    intensity_visible: bool,
    blocker: Option<ObjectHandle>,
    surface: ObjectHandle,
    faces_light: bool,
) -> SampleOutcome {
    if !intensity_visible {
        SampleOutcome::Faint
    } else if blocker is Some && blocker->0 != surface {
        SampleOutcome::Occluded
    } else if !faces_light {
        SampleOutcome::BackFacing
    } else {
        SampleOutcome::Lit
    }
}

/// The depth of the reflection ray spawned from a surface hit at `depth`, if one is spawned.
pub open spec fn reflection_step(depth: nat, reflective: bool, saturated: bool) -> Option<nat> {
    if depth < RECURSION_DEPTH && reflective && !saturated {
        Some(depth + 1)
    } else {
        None
    }
}

/// A hit at depth `from` can spawn a reflection whose hit is shaded at depth `to`.
pub open spec fn reflects_to(from: nat, to: nat) -> bool {
    exists|reflective: bool, saturated: bool|
        #[trigger] reflection_step(from, reflective, saturated) == Some(to)
}

/// `depths` is a chain of shading evaluations started by a camera ray: the
/// first at depth zero, each next one a reflection spawned by the one before.
pub open spec fn is_reflection_chain(depths: Seq<nat>) -> bool {
    &&& depths.len() > 0
    &&& depths[0] == 0
    &&& forall|i: int|
        0 <= i < depths.len() - 1 ==> #[trigger] reflects_to(depths[i], depths[i + 1])
}

/// The recursive ray-tracing algorithm: direct lighting with shadows, plus
/// reflections traced to a bounded depth.
pub struct RayTracing {}

impl RayTracing {
    pub fn new() -> (r: RayTracing)
        ensures
            r == (RayTracing {}),
    {
        RayTracing {}
    }

    /// Decides whether a light sample lights a surface point, and if not, why.
    pub fn classify_sample(
        &self,
        intensity_visible: bool,
        blocker: Option<ObjectHandle>,
        surface: ObjectHandle,
        faces_light: bool,
    ) -> (r: SampleOutcome)
        ensures
            r == sample_outcome(intensity_visible, blocker, surface, faces_light),
    {
        if !intensity_visible {
            return SampleOutcome::Faint;
        }
        match blocker {
            Some(other) => {
                if other != surface {
                    return SampleOutcome::Occluded;
                }
            },
            None => {},
        }
        if !faces_light {
            SampleOutcome::BackFacing
        } else {
            SampleOutcome::Lit
        }
    }

    /// The depth at which to trace the reflection of a hit at `depth`, or
    /// `None` when the reflection is not traced: the depth cap is reached, the
    /// material reflects too little to show, or the colour is already white.
    pub fn reflection_depth(&self, depth: usize, reflective: bool, saturated: bool) -> (r: Option<
        usize,
    >)
        ensures
            r matches Some(d) ==> reflection_step(depth as nat, reflective, saturated) == Some(
                d as nat,
            ),
            r is None <==> reflection_step(depth as nat, reflective, saturated) is None,
    {
        if depth < RECURSION_DEPTH && reflective && !saturated {
            Some(depth + 1)
        } else {
            None
        }
    }
}

/// An object between a light sample and a surface point takes that sample's
/// diffuse and specular light away: only an unobstructed sample (or one whose
/// ray meets the lit object itself) is lit.
pub proof fn lemma_occluder_removes_light(
    intensity_visible: bool,
    occluder: ObjectHandle,
    surface: ObjectHandle,
    faces_light: bool,
)
    requires
        occluder != surface,
    ensures
        sample_outcome(intensity_visible, Some(occluder), surface, faces_light)
            != SampleOutcome::Lit,
        sample_outcome(intensity_visible, None, surface, faces_light) == SampleOutcome::Lit
            <==> intensity_visible && faces_light,
        sample_outcome(intensity_visible, Some(surface), surface, faces_light)
            == sample_outcome(intensity_visible, None, surface, faces_light),
{
}

/// Recursion through reflections terminates: a chain of reflections started by
/// a camera ray holds at most `RECURSION_DEPTH + 1` shading evaluations, the
/// `i`-th at depth `i`, whatever the materials.
pub proof fn lemma_reflection_chain_bounded(depths: Seq<nat>)
    requires
        is_reflection_chain(depths),
    ensures
        depths.len() <= RECURSION_DEPTH + 1,
        forall|i: int| 0 <= i < depths.len() ==> depths[i] == i,
{
    assert forall|i: int| 0 <= i < depths.len() implies depths[i] == i && depths[i]
        <= RECURSION_DEPTH by {
        lemma_chain_prefix(depths, i);
    }
    if depths.len() > RECURSION_DEPTH + 1 {
        let last = RECURSION_DEPTH as int;
        lemma_chain_prefix(depths, last);
        assert(reflects_to(depths[last], depths[last + 1]));
        let (reflective, saturated) = choose|reflective: bool, saturated: bool|
            #[trigger] reflection_step(depths[last], reflective, saturated) == Some(
                depths[last + 1],
            );
        assert(reflection_step(depths[last], reflective, saturated) is None);
    }
}

proof fn lemma_chain_prefix(depths: Seq<nat>, i: int)
    requires
        is_reflection_chain(depths),
        0 <= i < depths.len(),
    ensures
        depths[i] == i,
        depths[i] <= RECURSION_DEPTH,
    decreases i,
{
    if i > 0 {
        lemma_chain_prefix(depths, i - 1);
        assert(reflects_to(depths[i - 1], depths[i]));
        let (reflective, saturated) = choose|reflective: bool, saturated: bool|
            #[trigger] reflection_step(depths[i - 1], reflective, saturated) == Some(depths[i]);
    }
}

} // verus!
