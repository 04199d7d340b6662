//! The discrete side of intra-cell redistribution: the layout of the
//! `(variable, force)` channels in the flattened energy vector, the check of a
//! coupling against the transfer mask, and the sub-step schedule of the
//! adaptive integrator.

use vstd::prelude::*;
use vstd::arithmetic::power2::{
    lemma_pow2_adds,
    lemma_pow2_pos,
    lemma_pow2_strictly_increases,
    lemma_pow2_unfold,
    pow2,
};
use crate::types::{FORCES, N_FLATTENED, TransferMask, VARS};

verus! {

/// Said of a coupling between channels that the transfer mask does not allow.
pub const TRANSFER_NOT_ALLOWED: &'static str = "TransferNotAllowed";

/// Said when the adaptive integrator cannot refine its sub-steps any further.
pub const STIFF_INTEGRATION_FAILED: &'static str = "StiffIntegrationFailed";

/// Position of the channel `(var, force)` in the flattened energy vector:
/// the forces of one variable lie next to each other.
pub open spec fn channel_index(var: int, force: int) -> int {
    var * FORCES + force
}

/// Position of the channel `(var, force)` in the flattened energy vector.
pub fn flatten_index(var: usize, force: usize) -> (n: usize)
    requires
        var < VARS,
        force < FORCES,
    ensures
        n == channel_index(var as int, force as int),
        n < N_FLATTENED,
{
    var * FORCES + force
}

/// The channel `(var, force)` that lies at position `n` of the flattened
/// energy vector.
pub fn unflatten_index(n: usize) -> (channel: (usize, usize))
    requires
        n < N_FLATTENED,
    ensures
        channel.0 == n / FORCES,
        channel.1 == n % FORCES,
        channel.0 < VARS,
        channel.1 < FORCES,
        channel_index(channel.0 as int, channel.1 as int) == n,
{
    (n / FORCES, n % FORCES)
}

/// Flattening a channel and taking the position apart again gives the channel
/// back, and no two channels share a position.
pub proof fn law_channel_roundtrip(var: int, force: int)
    requires
        0 <= var < VARS,
        0 <= force < FORCES,
    ensures
        0 <= channel_index(var, force) < N_FLATTENED,
        channel_index(var, force) / (FORCES as int) == var,
        channel_index(var, force) % (FORCES as int) == force,
{
}

impl TransferMask {
    /// Whether energy may flow from the channel at position `from` to the
    /// channel at position `to`: both positions name a channel, the mask
    /// allows the pair of their variables and the pair of their forces.
    pub open spec fn permits_spec(&self, from: int, to: int) -> bool {
        &&& 0 <= from < N_FLATTENED
        &&& 0 <= to < N_FLATTENED
        &&& self.allow_var_to_var[from / (FORCES as int)][to / (FORCES as int)]
        &&& self.allow_force_to_force[from % (FORCES as int)][to % (FORCES as int)]
    }

    /// Whether energy may flow from the channel at position `from` to the
    /// channel at position `to`.
    pub fn permits(&self, from: usize, to: usize) -> (allowed: bool)
        ensures
            allowed == self.permits_spec(from as int, to as int),
    {
        if from >= N_FLATTENED || to >= N_FLATTENED {
            return false;
        }
        let (from_var, from_force) = unflatten_index(from);
        let (to_var, to_force) = unflatten_index(to);
        self.allow_var_to_var[from_var][to_var] && self.allow_force_to_force[from_force][to_force]
    }
}

/// Decides whether a coupling from position `from` to position `to` may be
/// written into a redistribution matrix: `Ok` when the mask permits it,
/// `TRANSFER_NOT_ALLOWED` otherwise.
pub fn check_transfer(mask: &TransferMask, from: usize, to: usize) -> (verdict: Result<
    (),
    &'static str,
>)
    ensures
        verdict is Ok <==> mask.permits_spec(from as int, to as int),
        verdict matches Err(reason) ==> reason == TRANSFER_NOT_ALLOWED,
{
    if mask.permits(from, to) {
        Ok(())
    } else {
        Err(TRANSFER_NOT_ALLOWED)
    }
}

/// How many times the adaptive integrator may halve its sub-step: a full
/// step is never cut into more than `2^MAX_HALVINGS` parts.
pub const MAX_HALVINGS: u32 = 20;

/// What the integrator found when it tried the sub-step that the schedule
/// offered.
#[derive(Clone, Copy, Debug, PartialEq, Eq, Structural)]
pub enum SubstepOutcome {
    /// The error estimate was within tolerance; the sub-step was applied.
    Accepted,
    /// The error estimate was too large; the state was left as it was.
    Rejected,
}

/// Where an adaptive integration of one full step stands.
///
/// The step is cut into `parts` equal sub-steps, `parts` a power of two, of
/// which the first `done` have been applied. The next trial covers one more
/// part.
#[derive(Clone, Copy, Debug)]
pub struct SubstepSchedule {
    depth: u32,
    parts: u64,
    done: u64,
}

impl SubstepSchedule {
    /// How often the full step has been halved to get the present sub-step.
    pub closed spec fn depth_spec(&self) -> nat {
        self.depth as nat
    }

    /// How many sub-steps of the present width have been applied.
    pub closed spec fn done_spec(&self) -> nat {
        self.done as nat
    }

    /// Into how many sub-steps of the present width the full step is cut.
    pub closed spec fn parts_spec(&self) -> nat {
        self.parts as nat
    }

    /// The schedule is consistent: the number of parts is
    /// `2^depth`, the depth is within `MAX_HALVINGS`, and no more parts are
    /// done than there are.
    pub open spec fn wf(&self) -> bool {
        &&& self.depth_spec() <= MAX_HALVINGS
        &&& self.parts_spec() == pow2(self.depth_spec())
        &&& self.done_spec() <= self.parts_spec()
    }

    /// Width of the present sub-step, in units of `1 / 2^MAX_HALVINGS` of the
    /// full step.
    pub open spec fn width(&self) -> nat {
        pow2((MAX_HALVINGS - self.depth_spec()) as nat)
    }

    /// The part of the full step that has been integrated, in units of
    /// `1 / 2^MAX_HALVINGS` of the full step.
    pub open spec fn covered(&self) -> nat {
        self.done_spec() * self.width()
    }

    /// The whole step in the units of `covered`.
    pub open spec fn whole() -> nat {
        pow2(MAX_HALVINGS as nat)
    }

    /// Whether the whole step has been integrated.
    pub open spec fn finished(&self) -> bool {
        self.done_spec() == self.parts_spec()
    }

    /// The schedule after the outcome `outcome` of the present sub-step, as
    /// `(depth, done)`; `None` when the sub-step was rejected at the greatest
    /// depth.
    ///
    /// A finished schedule stays as it is. An accepted sub-step counts as
    /// done, and where that leaves an even number of parts done, two parts
    /// are merged into one, so that the next trial is twice as wide. A
    /// rejected sub-step halves the width and leaves the integrated part
    /// untouched.
    pub open spec fn after(&self, outcome: SubstepOutcome) -> Option<(nat, nat)> {
        if self.finished() {
            Some((self.depth_spec(), self.done_spec()))
        } else {
            match outcome {
                SubstepOutcome::Accepted => {
                    if self.depth_spec() > 0 && (self.done_spec() + 1) % 2 == 0 {
                        Some(((self.depth_spec() - 1) as nat, (self.done_spec() + 1) / 2))
                    } else {
                        Some((self.depth_spec(), self.done_spec() + 1))
                    }
                },
                SubstepOutcome::Rejected => {
                    if self.depth_spec() < MAX_HALVINGS {
                        Some((self.depth_spec() + 1, self.done_spec() * 2))
                    } else {
                        None
                    }
                },
            }
        }
    }

    /// What is left to do, as a number that every outcome short of failure
    /// makes smaller.
    pub open spec fn budget(&self) -> nat {
        ((Self::whole() - self.covered()) * (MAX_HALVINGS + 2) + (MAX_HALVINGS
            - self.depth_spec())) as nat
    }

    /// The schedule of a step of which nothing is integrated yet: one
    /// sub-step as wide as the step.
    pub fn new() -> (schedule: SubstepSchedule)
        ensures
            schedule.wf(),
            schedule.depth_spec() == 0,
            schedule.done_spec() == 0,
            schedule.parts_spec() == 1,
            !schedule.finished(),
    {
        proof {
            lemma_pow2_zero();
        }
        SubstepSchedule { depth: 0, parts: 1, done: 0 }
    }

    /// How often the full step has been halved to get the present sub-step.
    pub fn depth(&self) -> (depth: u32)
        ensures
            depth == self.depth_spec(),
    {
        self.depth
    }

    /// Into how many sub-steps of the present width the full step is cut:
    /// the present sub-step is the full step divided by this number.
    pub fn parts(&self) -> (parts: u64)
        ensures
            parts == self.parts_spec(),
    {
        self.parts
    }

    /// How many sub-steps of the present width have been applied.
    pub fn done(&self) -> (done: u64)
        ensures
            done == self.done_spec(),
    {
        self.done
    }

    /// Whether the whole step has been integrated.
    pub fn is_finished(&self) -> (finished: bool)
        ensures
            finished == self.finished(),
    {
        self.done == self.parts
    }
}

impl Default for SubstepSchedule {
    fn default() -> (schedule: SubstepSchedule)
        ensures
            schedule.wf(),
            schedule.depth_spec() == 0,
            schedule.done_spec() == 0,
    {
        SubstepSchedule::new()
    }
}

proof fn lemma_pow2_zero()
    ensures
        pow2(0) == 1,
{
    vstd::arithmetic::power2::lemma2_to64();
}

/// `2^MAX_HALVINGS` and all smaller powers of two fit a `u64` with room to
/// double.
proof fn lemma_pow2_bounded(e: nat)
    requires
        e <= MAX_HALVINGS,
    ensures
        0 < pow2(e) <= 0x10_0000,
{
    vstd::arithmetic::power2::lemma2_to64();
    lemma_pow2_pos(e);
    if e < MAX_HALVINGS {
        lemma_pow2_strictly_increases(e, MAX_HALVINGS as nat);
    }
}

/// Moves the sub-step schedule of an adaptive integration on by the outcome
/// of the sub-step it offered.
///
/// The caller integrates one sub-step of width `step / schedule.parts()`,
/// estimates its error, applies it or not, and reports which. On
/// `Accepted` the integrated part grows by that sub-step, and the next one
/// is twice as wide where the integrated part allows it. On `Rejected` the
/// next sub-step is half as wide; when the width cannot be halved any more
/// the integration has failed, `STIFF_INTEGRATION_FAILED` is returned and the
/// schedule stays as it was. A finished schedule is left alone.
pub fn evolve_adaptive(schedule: &mut SubstepSchedule, outcome: SubstepOutcome) -> (verdict: Result<
    (),
    &'static str,
>)
    requires
        old(schedule).wf(),
    ensures
        final(schedule).wf(),
        verdict is Ok <==> old(schedule).after(outcome) is Some,
        verdict is Ok ==> old(schedule).after(outcome) == Some(
            (final(schedule).depth_spec(), final(schedule).done_spec()),
        ),
        verdict matches Err(reason) ==> reason == STIFF_INTEGRATION_FAILED && *final(schedule)
            == *old(schedule),
{
    if schedule.done == schedule.parts {
        return Ok(());
    }
    proof {
        lemma_pow2_bounded(schedule.depth as nat);
    }
    match outcome {
        SubstepOutcome::Accepted => {
            let done: u64 = schedule.done + 1;
            if schedule.depth > 0 && done % 2 == 0 {
                proof {
                    lemma_pow2_unfold(schedule.depth as nat);
                }
                schedule.depth = schedule.depth - 1;
                schedule.parts = schedule.parts / 2;
                schedule.done = done / 2;
            } else {
                schedule.done = done;
            }
            Ok(())
        },
        SubstepOutcome::Rejected => {
            if schedule.depth < MAX_HALVINGS {
                proof {
                    lemma_pow2_unfold((schedule.depth + 1) as nat);
                }
                schedule.depth = schedule.depth + 1;
                schedule.parts = schedule.parts * 2;
                schedule.done = schedule.done * 2;
                Ok(())
            } else {
                Err(STIFF_INTEGRATION_FAILED)
            }
        },
    }
}

/// In the units of `covered`, the parts of a consistent schedule make up the
/// whole step: `parts * width == whole`.
proof fn lemma_parts_fill_whole(schedule: SubstepSchedule)
    requires
        schedule.wf(),
    ensures
        schedule.parts_spec() * schedule.width() == SubstepSchedule::whole(),
        schedule.width() > 0,
        schedule.covered() <= SubstepSchedule::whole(),
        schedule.finished() <==> schedule.covered() == SubstepSchedule::whole(),
{
    let d = schedule.depth_spec();
    let rest = (MAX_HALVINGS - d) as nat;
    lemma_pow2_adds(d, rest);
    lemma_pow2_pos(rest);
    let w = schedule.width() as int;
    let n = schedule.done_spec() as int;
    let p = schedule.parts_spec() as int;
    assert(n * w <= p * w) by (nonlinear_arith)
        requires
            0 <= n <= p,
            0 < w,
    ;
    assert(n * w == p * w ==> n == p) by (nonlinear_arith)
        requires
            0 <= n <= p,
            0 < w,
    ;
}

/// What one outcome does to a schedule that is under way. An accepted sub-step adds
/// exactly its width to the integrated part. A rejected one leaves the
/// integrated part as it is and halves the width. Either way the integrated
/// part never exceeds the whole step, the schedule is finished exactly when
/// the whole step is integrated, and `budget` has become smaller: so a driver
/// that keeps reporting outcomes finishes or fails after finitely many.
pub proof fn law_schedule_advances(
    before: SubstepSchedule,
    after: SubstepSchedule,
    outcome: SubstepOutcome,
)
    requires
        before.wf(),
        after.wf(),
        !before.finished(),
        before.after(outcome) == Some((after.depth_spec(), after.done_spec())),
    ensures
        outcome == SubstepOutcome::Accepted ==> after.covered() == before.covered()
            + before.width(),
        outcome == SubstepOutcome::Rejected ==> after.covered() == before.covered() && 2
            * after.width() == before.width(),
        after.covered() <= SubstepSchedule::whole(),
        after.finished() <==> after.covered() == SubstepSchedule::whole(),
        after.budget() < before.budget(),
{
    lemma_parts_fill_whole(before);
    lemma_parts_fill_whole(after);
    let d = before.depth_spec();
    let n = before.done_spec() as int;
    let w = before.width() as int;
    let w2 = after.width() as int;
    let n2 = after.done_spec() as int;
    let whole = SubstepSchedule::whole() as int;
    let k = (MAX_HALVINGS + 2) as int;
    match outcome {
        SubstepOutcome::Accepted => {
            if d > 0 && (n + 1) % 2 == 0 {
                lemma_pow2_unfold((MAX_HALVINGS - d + 1) as nat);
                assert(n2 * w2 == (n + 1) * w) by (nonlinear_arith)
                    requires
                        w2 == 2 * w,
                        n2 == (n + 1) / 2,
                        (n + 1) % 2 == 0,
                ;
            }
            assert((n + 1) * w == n * w + w) by (nonlinear_arith);
            assert((whole - (n * w + w)) * k == (whole - n * w) * k - w * k) by (nonlinear_arith);
            assert(w * k >= k) by (nonlinear_arith)
                requires
                    w >= 1,
                    k >= 0,
            ;
        },
        SubstepOutcome::Rejected => {
            lemma_pow2_unfold((MAX_HALVINGS - d) as nat);
            assert(n2 * w2 == n * w) by (nonlinear_arith)
                requires
                    w == 2 * w2,
                    n2 == n * 2,
            ;
        },
    }
}

} // verus!
