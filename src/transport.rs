//! What the radiance estimator does after a ray has been traced: whether the
//! path ends, and if not, how it bounces.
use vstd::prelude::*;

verus! {

/// Path depth from which Russian roulette may end a path.
pub const ROULETTE_DEPTH: u32 = 5;

/// Surface material of a sphere.
#[derive(Clone, Copy, Debug, PartialEq, Eq, Structural)]
pub enum Reflection {
    /// Ideal diffuse (Lambertian) reflection.
    Diffuse,
    /// Ideal mirror reflection.
    Specular,
    /// Recognised but without transport: the estimator returns a fixed
    /// placeholder radiance for it.
    Refractive,
}

/// What the estimator does with a traced ray.
#[derive(Clone, Copy, Debug, PartialEq, Eq, Structural)]
pub enum Step {
    /// The ray hit nothing: the radiance is black.
    Miss,
    /// Russian roulette ended the path: the radiance is the emission of the
    /// surface hit.
    Absorb,
    /// Bounce in a cosine-weighted direction above the surface. With
    /// `rescale`, the albedo is divided by the continuation probability.
    Diffuse { rescale: bool },
    /// Bounce in the mirror direction. With `rescale`, the albedo is divided
    /// by the continuation probability.
    Specular { rescale: bool },
    /// The material has no transport: the radiance is the fixed placeholder.
    Placeholder,
}

/// Whether Russian roulette is played on a path at `depth` bounces.
pub open spec fn roulette_spec(depth: nat) -> bool {
    depth + 1 > ROULETTE_DEPTH
}

/// The step taken on a hit of `hit` (none on a miss) at `depth`, where
/// `survived` says whether the roulette draw fell below the continuation
/// probability; it only counts where roulette is played.
pub open spec fn step_spec(hit: Option<Reflection>, depth: nat, survived: bool) -> Step {
    match hit {
        None => Step::Miss,
        Some(reflection) => {
            if roulette_spec(depth) && !survived {
                Step::Absorb
            } else {
                let rescale = roulette_spec(depth);
                match reflection {
                    Reflection::Diffuse => Step::Diffuse { rescale },
                    Reflection::Specular => Step::Specular { rescale },
                    Reflection::Refractive => Step::Placeholder,
                }
            }
        }
    }
}

/// Whether Russian roulette is played on a path at `depth` bounces.
pub fn roulette_applies(depth: u32) -> (r: bool)
    ensures
        r == roulette_spec(depth as nat),
{
    depth >= ROULETTE_DEPTH
}

/// Decides what the estimator does with a ray at `depth` bounces that hit a
/// surface of material `hit` (or nothing), given the outcome of the roulette
/// draw.
pub fn path_step(hit: Option<Reflection>, depth: u32, survived: bool) -> (r: Step)
    ensures
        r == step_spec(hit, depth as nat, survived),
{
    match hit {
        None => Step::Miss,
        Some(reflection) => {
            let rescale = roulette_applies(depth);
            if rescale && !survived {
                Step::Absorb
            } else {
                match reflection {
                    Reflection::Diffuse => Step::Diffuse { rescale },
                    Reflection::Specular => Step::Specular { rescale },
                    Reflection::Refractive => Step::Placeholder,
                }
            }
        }
    }
}

/// `a` times what a step contributes to the estimate for a surface whose
/// reflected radiance is `f`, with continuation probability `a / b`: a bounce
/// passes `f` on, divided by `a / b` where rescaled; an absorbed path passes
/// nothing on.
pub open spec fn scaled_contribution(step: Step, a: int, b: int, f: int) -> int {
    match step {
        Step::Diffuse { rescale } | Step::Specular { rescale } => if rescale {
            f * b
        } else {
            a * f
        },
        _ => 0,
    }
}

/// Sum of `scaled_contribution` over the first `n` of `b` equally likely
/// roulette draws, where draw `i` falls below the continuation probability
/// `a / b` exactly when `i < a`.
pub open spec fn roulette_total(reflection: Reflection, depth: nat, a: int, b: int, f: int, n: nat) -> int
    decreases n,
{
    if n == 0 {
        0
    } else {
        roulette_total(reflection, depth, a, b, f, (n - 1) as nat) + scaled_contribution(
            step_spec(Some(reflection), depth, n - 1 < a),
            a,
            b,
            f,
        )
    }
}

proof fn lemma_roulette_prefix(reflection: Reflection, depth: nat, a: int, b: int, f: int, n: nat)
    requires
        0 < a <= b,
        reflection != Reflection::Refractive,
    ensures
        roulette_total(reflection, depth, a, b, f, n) == if roulette_spec(depth) {
            if n <= a {
                n * f * b
            } else {
                a * f * b
            }
        } else {
            n * a * f
        },
    decreases n,
{
    if n > 0 {
        lemma_roulette_prefix(reflection, depth, a, b, f, (n - 1) as nat);
        let m = (n - 1) as int;
        let step = step_spec(Some(reflection), depth, m < a);
        if roulette_spec(depth) {
            if m < a {
                assert(scaled_contribution(step, a, b, f) == f * b);
            } else {
                assert(step == Step::Absorb);
            }
        } else {
            assert(scaled_contribution(step, a, b, f) == a * f);
        }
        assert(n * f * b == m * f * b + f * b) by (nonlinear_arith)
            requires
                m == n - 1,
        ;
        assert(n * a * f == m * a * f + a * f) by (nonlinear_arith)
            requires
                m == n - 1,
        ;
    } else {
        assert(n * f * b == 0 && n * a * f == 0) by (nonlinear_arith)
            requires
                n == 0,
        ;
    }
}

/// Russian roulette leaves the estimate unbiased: with continuation
/// probability `a / b`, the mean over `b` equally likely draws of what a step
/// contributes for a surface of reflected radiance `f` is `f` itself, at every
/// depth (in `scaled_contribution`'s units, `a` times that mean, summed over
/// the `b` draws, is `a * b * f`).
pub proof fn lemma_roulette_unbiased(reflection: Reflection, depth: nat, a: int, b: int, f: int)
    requires
        0 < a <= b,
        reflection != Reflection::Refractive,
    ensures
        roulette_total(reflection, depth, a, b, f, b as nat) == a * b * f,
{
    lemma_roulette_prefix(reflection, depth, a, b, f, b as nat);
    assert(a * f * b == a * b * f) by (nonlinear_arith);
    assert(b * a * f == a * b * f) by (nonlinear_arith);
}

} // verus!
