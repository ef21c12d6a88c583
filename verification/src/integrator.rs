//! The rule that decides how a light path goes on.
//!
//! A path starts with a camera ray at depth zero. At each step the ray is
//! traced into the scene, and what it met decides what follows: a ray that
//! met nothing takes the colour of the sky; a ray that was scattered is
//! followed one level deeper, as long as the depth limit allows; every other
//! ray contributes black.

use vstd::prelude::*;

verus! {

/// The depth at which a path is cut off.
pub const MAX_DEPTH: i64 = 50;

/// What a ray met in the scene.
#[derive(Debug, Clone, Copy, PartialEq, Eq, Structural)]
pub enum Encounter {
    /// Nothing: the ray left the scene.
    Miss,
    /// A surface whose material swallowed the ray.
    Absorbed,
    /// A surface whose material sent a new ray out.
    Scattered,
}

/// How a path goes on after one ray.
#[derive(Debug, Clone, Copy, PartialEq, Eq, Structural)]
pub enum Step {
    /// The path ends with the colour of the sky.
    Sky,
    /// The path ends in black.
    Black,
    /// The scattered ray is followed at the given depth, and what it
    /// returns is attenuated by the material.
    Bounce(i64),
}

/// How a path goes on after a ray at `depth` that met `encounter`.
pub open spec fn next_step(depth: i64, encounter: Encounter) -> Step {
    match encounter {
        Encounter::Miss => Step::Sky,
        Encounter::Absorbed => Step::Black,
        Encounter::Scattered => if depth < MAX_DEPTH {
            Step::Bounce((depth + 1) as i64)
        } else {
            Step::Black
        },
    }
}

/// The depth at which a path ends that starts at `depth` and meets
/// `encounters` in turn, for as long as it is followed.
pub open spec fn final_depth(depth: i64, encounters: Seq<Encounter>) -> i64
    decreases encounters.len(),
{
    if encounters.len() == 0 {
        depth
    } else {
        match next_step(depth, encounters[0]) {
            Step::Bounce(deeper) => final_depth(deeper, encounters.skip(1)),
            _ => depth,
        }
    }
}

/// The number of rays that are followed on such a path beyond the first.
pub open spec fn bounces(depth: i64, encounters: Seq<Encounter>) -> nat
    decreases encounters.len(),
{
    if encounters.len() == 0 {
        0
    } else {
        match next_step(depth, encounters[0]) {
            Step::Bounce(deeper) => 1 + bounces(deeper, encounters.skip(1)),
            _ => 0,
        }
    }
}

/// Decides how the path goes on after a ray at `depth`.
pub fn advance(depth: i64, encounter: Encounter) -> (step: Step)
    ensures
        step == next_step(depth, encounter),
{
    match encounter {
        Encounter::Miss => Step::Sky,
        Encounter::Absorbed => Step::Black,
        Encounter::Scattered => {
            if depth < MAX_DEPTH {
                Step::Bounce(depth + 1)
            } else {
                Step::Black
            }
        },
    }
}

/// Whatever a path meets, it never goes deeper than the limit, and it
/// follows no more rays than there are levels left below the limit.
pub proof fn lemma_depth_is_bounded(depth: i64, encounters: Seq<Encounter>)
    requires
        depth <= MAX_DEPTH,
    ensures
        depth <= final_depth(depth, encounters) <= MAX_DEPTH,
        bounces(depth, encounters) == final_depth(depth, encounters) - depth,
    decreases encounters.len(),
{
    if encounters.len() > 0 && encounters[0] == Encounter::Scattered && depth < MAX_DEPTH {
        lemma_depth_is_bounded((depth + 1) as i64, encounters.skip(1));
    }
}

/// A ray that hits a surface at or beyond the depth limit contributes black,
/// whatever the material does with it.
pub proof fn lemma_exhausted_path_is_black(depth: i64, encounter: Encounter)
    requires
        depth >= MAX_DEPTH,
        encounter != Encounter::Miss,
    ensures
        next_step(depth, encounter) == Step::Black,
{
}

/// A ray that meets nothing takes the colour of the sky at every depth.
pub proof fn lemma_miss_is_sky(depth: i64)
    ensures
        next_step(depth, Encounter::Miss) == Step::Sky,
{
}

} // verus!
