//! Control smoothing: the bridge between raw per-tick input and the
//! continuous control surfaces the flight integrator consumes.
//!
//! Raw intent is discrete (a pressed key contributes a whole unit on an
//! axis). Each tick the pitch, roll and yaw surfaces close a tenth of the
//! remaining gap toward the intent, which feels frame-rate independent;
//! the thrust intent is a desired change, accumulated onto the running
//! throttle and clamped into its working band.

use vstd::prelude::*;
use crate::fixed::{
    clamp, clamp_spec, fix_ok, lemma_lerp_bounds, lerp, lerp_spec, FIX_BOUND, SCALE,
};

verus! {

/// Lowest throttle setting.
pub const MINIMUM_THRUST: i64 = 0;

/// Highest throttle setting, in thousandths.
pub const MAXIMUM_THRUST: i64 = 80_000;

/// Fraction of the gap toward the intent closed per tick, in thousandths.
pub const SMOOTH_RATE: i64 = 100;

/// Throttle setting a fresh set of controls starts from.
pub const INITIAL_THRUST: i64 = 50_000;

/// Raw control intent sampled once per tick by the input collaborator:
/// pitch, roll and yaw each a whole unit at most in either direction, and
/// a desired thrust change.
#[derive(Clone, Copy, PartialEq, Eq, Structural, Debug)]
pub struct ControlIntent {
    pub pitch: i64,
    pub roll: i64,
    pub yaw: i64,
    pub thrust: i64,
}

/// The intent's axes stay within one unit; the thrust delta is any
/// representable scalar.
pub open spec fn intent_ok(i: ControlIntent) -> bool {
    -(SCALE as int) <= i.pitch <= SCALE as int && -(SCALE as int) <= i.roll <= SCALE as int
        && -(SCALE as int) <= i.yaw <= SCALE as int && fix_ok(i.thrust as int)
}

/// The smoothed control surfaces, persistent across ticks: written once
/// per tick by `smooth`, read once per tick by the flight integrator.
#[derive(Clone, Copy, PartialEq, Eq, Structural, Debug)]
pub struct Controls {
    pub pitch: i64,
    pub yaw: i64,
    pub roll: i64,
    pub thrust: i64,
    pub airbrakes: bool,
}

/// Smoothed axes stay within one unit and the throttle stays inside its
/// working band.
pub open spec fn controls_ok(c: Controls) -> bool {
    -(SCALE as int) <= c.pitch <= SCALE as int && -(SCALE as int) <= c.yaw <= SCALE as int
        && -(SCALE as int) <= c.roll <= SCALE as int && MINIMUM_THRUST as int <= c.thrust
        <= MAXIMUM_THRUST as int
}

/// The controls a run starts with: level surfaces at a mid throttle.
pub open spec fn default_controls_spec() -> Controls {
    Controls { pitch: 0, yaw: 0, roll: 0, thrust: INITIAL_THRUST, airbrakes: false }
}

impl Default for Controls {
    /// Level control surfaces and a mid throttle.
    fn default() -> (r: Controls)
        ensures
            r == default_controls_spec(),
            controls_ok(r),
    {
        Controls { pitch: 0, yaw: 0, roll: 0, thrust: INITIAL_THRUST, airbrakes: false }
    }
}

impl Controls {
    /// One smoothing step: each axis closes `SMOOTH_RATE` thousandths of
    /// the gap toward the intent; the thrust delta is accumulated and the
    /// throttle clamped into its band, so it never leaves
    /// `[MINIMUM_THRUST, MAXIMUM_THRUST]` however long any intent is
    /// held.
    pub fn smooth(&mut self, intent: &ControlIntent)
        requires
            controls_ok(*old(self)),
            intent_ok(*intent),
        ensures
            final(self).pitch as int == lerp_spec(
                old(self).pitch as int,
                intent.pitch as int,
                SMOOTH_RATE as int,
            ),
            final(self).roll as int == lerp_spec(
                old(self).roll as int,
                intent.roll as int,
                SMOOTH_RATE as int,
            ),
            final(self).yaw as int == lerp_spec(
                old(self).yaw as int,
                intent.yaw as int,
                SMOOTH_RATE as int,
            ),
            final(self).thrust as int == clamp_spec(
                old(self).thrust + intent.thrust,
                MINIMUM_THRUST as int,
                MAXIMUM_THRUST as int,
            ),
            final(self).airbrakes == old(self).airbrakes,
            controls_ok(*final(self)),
    {
        proof {
            lemma_lerp_bounds(
                self.pitch as int,
                intent.pitch as int,
                SMOOTH_RATE as int,
                -(SCALE as int),
                SCALE as int,
            );
            lemma_lerp_bounds(
                self.roll as int,
                intent.roll as int,
                SMOOTH_RATE as int,
                -(SCALE as int),
                SCALE as int,
            );
            lemma_lerp_bounds(
                self.yaw as int,
                intent.yaw as int,
                SMOOTH_RATE as int,
                -(SCALE as int),
                SCALE as int,
            );
        }
        self.pitch = lerp(self.pitch, intent.pitch, SMOOTH_RATE);
        self.roll = lerp(self.roll, intent.roll, SMOOTH_RATE);
        self.yaw = lerp(self.yaw, intent.yaw, SMOOTH_RATE);
        self.thrust = clamp(self.thrust + intent.thrust, MINIMUM_THRUST, MAXIMUM_THRUST);
    }
}

/// However many smoothing steps run and whatever intents they carry, a
/// throttle that starts inside its working band never leaves it — in
/// particular it never drops below `MINIMUM_THRUST`. One step is stated
/// here; the band being both the step's precondition and its conclusion
/// carries it across any run of ticks.
pub proof fn lemma_thrust_stays_in_band(thrust: int, delta: int)
    requires
        MINIMUM_THRUST as int <= thrust <= MAXIMUM_THRUST as int,
    ensures
        MINIMUM_THRUST as int <= clamp_spec(
            thrust + delta,
            MINIMUM_THRUST as int,
            MAXIMUM_THRUST as int,
        ) <= MAXIMUM_THRUST as int,
{
}

} // verus!
