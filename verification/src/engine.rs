use vstd::prelude::*;
use crate::complex::Complex;
use crate::complex::complex_fuzzy_eq_spec;
use crate::complex::lemma_fuzzy_eq_reflexive;

verus! {

/// One value of the orbit stream `z -> z*z + c`, as the caller computed
/// it in floating point: the bit patterns of the value, and whether its
/// squared magnitude was found to exceed the escape threshold of 4.
#[derive(Clone, Copy, Debug)]
pub struct OrbitPoint {
    pub z: Complex,
    pub escaped: bool,
}

/// How the cycle-detection checkpoint refreshes: every 16th iteration
/// the checkpoint is reset to the current orbit value before advancing.
pub const CHECKPOINT_INTERVAL: u32 = 16;

/// How many extra advances past the loop's stopping point refine the
/// final orbit value for the smooth coloring formula.
pub const REFINEMENT_ADVANCES: u32 = 4;

/// Result of one engine transition.
#[derive(Clone, Copy, Debug)]
pub struct StepResult {
    /// The iteration counter after the step.
    pub n: u32,
    /// The cycle-detection checkpoint after the step.
    pub z_old: Complex,
    /// Whether a cycle was detected, which ends the loop.
    pub cycled: bool,
}

/// The escape-time loop as a function of the orbit stream: starting from
/// counter `n` and checkpoint `z_old`, the pair of the reported iteration
/// count and the index of the orbit value at which the loop stopped.
///
/// The loop stops when the current value has escaped or the budget is
/// spent; a detected cycle reports the full budget, the mark of a point
/// inside the set.
pub open spec fn engine_loop(
    orbit: Seq<OrbitPoint>,
    max_iterations: nat,
    n: nat,
    z_old: Complex,
) -> (nat, nat)
    decreases max_iterations - n,
{
    if n >= max_iterations || orbit[n as int].escaped {
        (n, n)
    } else {
        let checkpoint = if n % (CHECKPOINT_INTERVAL as nat) == 0 {
            orbit[n as int].z
        } else {
            z_old
        };
        if complex_fuzzy_eq_spec(orbit[n as int + 1].z, checkpoint) {
            (max_iterations, n + 1)
        } else {
            engine_loop(orbit, max_iterations, n + 1, checkpoint)
        }
    }
}

/// Whatever the orbit, the engine never reports more than the iteration
/// budget, never less than the counter it started from, and stops at an
/// orbit index no later than the budget.
pub proof fn lemma_engine_loop_bounds(
    orbit: Seq<OrbitPoint>,
    max_iterations: nat,
    n: nat,
    z_old: Complex,
)
    requires
        n <= max_iterations,
    ensures
        ({
            let r = engine_loop(orbit, max_iterations, n, z_old);
            n <= r.0 <= max_iterations && n <= r.1 <= max_iterations
        }),
    decreases max_iterations - n,
{
    if n >= max_iterations || orbit[n as int].escaped {
    } else {
        let checkpoint = if n % (CHECKPOINT_INTERVAL as nat) == 0 {
            orbit[n as int].z
        } else {
            z_old
        };
        if complex_fuzzy_eq_spec(orbit[n as int + 1].z, checkpoint) {
        } else {
            lemma_engine_loop_bounds(orbit, max_iterations, n + 1, checkpoint);
        }
    }
}

/// A count below the budget is reported only by escaping: the loop then
/// stopped at the orbit value with the reported index, and that value's
/// escape test is what ended it. Cycle detection and an exhausted budget
/// both report the full budget.
pub proof fn lemma_short_report_means_escape(
    orbit: Seq<OrbitPoint>,
    max_iterations: nat,
    n: nat,
    z_old: Complex,
)
    requires
        n <= max_iterations,
    ensures
        ({
            let r = engine_loop(orbit, max_iterations, n, z_old);
            r.0 < max_iterations ==> r.1 == r.0 && orbit[r.0 as int].escaped
        }),
    decreases max_iterations - n,
{
    if n >= max_iterations || orbit[n as int].escaped {
    } else {
        let checkpoint = if n % (CHECKPOINT_INTERVAL as nat) == 0 {
            orbit[n as int].z
        } else {
            z_old
        };
        if complex_fuzzy_eq_spec(orbit[n as int + 1].z, checkpoint) {
        } else {
            lemma_short_report_means_escape(orbit, max_iterations, n + 1, checkpoint);
        }
    }
}

/// An orbit that starts by repeating itself and has not escaped at its
/// first value is judged bounded at once: the engine reports the full
/// iteration budget, the mark of a point inside the set. The orbit of
/// `c = 0 + 0i` stays at the origin forever, so this covers it for every
/// positive budget.
pub proof fn lemma_constant_orbit_reports_max(orbit: Seq<OrbitPoint>, max_iterations: nat)
    requires
        1 <= max_iterations,
        2 <= orbit.len(),
        orbit[1].z == orbit[0].z,
        !orbit[0].escaped,
    ensures
        engine_loop(orbit, max_iterations, 0, orbit[0].z).0 == max_iterations,
{
    lemma_fuzzy_eq_reflexive(orbit[0].z);
}

/// An orbit whose first advanced value has already escaped, and is no
/// fuzzy match for the start, is reported after a single iteration.
pub proof fn lemma_immediate_escape_reports_one(orbit: Seq<OrbitPoint>, max_iterations: nat)
    requires
        1 <= max_iterations,
        2 <= orbit.len(),
        !orbit[0].escaped,
        orbit[1].escaped,
        !complex_fuzzy_eq_spec(orbit[1].z, orbit[0].z),
    ensures
        engine_loop(orbit, max_iterations, 0, orbit[0].z).0 == 1,
{
    assert(engine_loop(orbit, max_iterations, 1, orbit[0].z) == ((1nat, 1nat)));
}

/// One transition of the escape-time loop. `z_cur` is the orbit value
/// before the advance, `z_next` the value after it. Every 16th iteration
/// the checkpoint is refreshed from `z_cur` before the advance is judged;
/// a fuzzy match of `z_next` against the checkpoint is a detected cycle,
/// which forces the counter to the full budget and ends the loop.
pub fn engine_step(
    n: u32,
    z_old: Complex,
    z_cur: Complex,
    z_next: Complex,
    max_iterations: u32,
) -> (r: StepResult)
    requires
        n < max_iterations,
    ensures
        ({
            let checkpoint = if n % CHECKPOINT_INTERVAL == 0 {
                z_cur
            } else {
                z_old
            };
            &&& r.z_old == checkpoint
            &&& r.cycled == complex_fuzzy_eq_spec(z_next, checkpoint)
            &&& r.cycled ==> r.n == max_iterations
            &&& !r.cycled ==> r.n == n + 1
        }),
{
    let checkpoint = if n % CHECKPOINT_INTERVAL == 0 {
        z_cur
    } else {
        z_old
    };
    if z_next.fuzzy_eq(checkpoint) {
        StepResult { n: max_iterations, z_old: checkpoint, cycled: true }
    } else {
        StepResult { n: n + 1, z_old: checkpoint, cycled: false }
    }
}

/// Runs the escape-time loop over a precomputed orbit prefix and returns
/// the reported iteration count together with the orbit value four
/// advances past the stopping point — the refinement that the smooth
/// coloring formula reads. The count is what `engine_loop` says of the
/// stream, and never exceeds the budget.
#[verifier::loop_isolation(false)]
pub fn run_engine(orbit: &Vec<OrbitPoint>, max_iterations: u32) -> (r: (u32, Complex))
    requires
        orbit@.len() >= max_iterations + REFINEMENT_ADVANCES + 1,
    ensures
        ({
            let s = engine_loop(orbit@, max_iterations as nat, 0, orbit@[0].z);
            &&& r.0 == s.0
            &&& r.0 <= max_iterations
            &&& r.1 == orbit@[s.1 as int + REFINEMENT_ADVANCES].z
        }),
{
    let ghost target = engine_loop(orbit@, max_iterations as nat, 0, orbit@[0].z);
    proof {
        lemma_engine_loop_bounds(orbit@, max_iterations as nat, 0, orbit@[0].z);
    }
    let mut n: u32 = 0;
    let mut end: u32 = 0;
    let mut z_old: Complex = orbit[0].z;
    let mut cycled: bool = false;
    while !cycled && n < max_iterations && !orbit[n as usize].escaped
        invariant
            n <= max_iterations,
            end <= max_iterations,
            !cycled ==> end == n && engine_loop(orbit@, max_iterations as nat, n as nat, z_old)
                == target,
            cycled ==> n == max_iterations && target == ((max_iterations as nat, end as nat)),
        decreases max_iterations - n,
    {
        let ghost n0: u32 = n;
        let ghost z_old0: Complex = z_old;
        let z_cur = orbit[n as usize].z;
        let z_next = orbit[(n + 1) as usize].z;
        let step = engine_step(n, z_old, z_cur, z_next, max_iterations);
        z_old = step.z_old;
        if step.cycled {
            end = n + 1;
            n = max_iterations;
            cycled = true;
        } else {
            n = step.n;
            end = n;
        }
        proof {
            assert(engine_loop(orbit@, max_iterations as nat, n0 as nat, z_old0) == if step.cycled {
                (max_iterations as nat, (n0 + 1) as nat)
            } else {
                engine_loop(orbit@, max_iterations as nat, (n0 + 1) as nat, step.z_old)
            });
        }
    }
    proof {
        if !cycled {
            assert(engine_loop(orbit@, max_iterations as nat, n as nat, z_old) == ((
                n as nat,
                n as nat,
            )));
        }
    }
    let olen: usize = orbit.len();
    assert(end as int + REFINEMENT_ADVANCES < olen as int);
    let z_final = orbit[end as usize + REFINEMENT_ADVANCES as usize].z;
    (n, z_final)
}

} // verus!
