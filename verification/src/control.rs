//! The per-tick decisions of the control loop: derive the duty to
//! command from the temperature reading and the previous command,
//! append it to the history, and run the anomaly detector when the
//! window is full and no lockout is in force. The caller performs the
//! hardware work (commanding zones, reading RPM, requesting a reset,
//! sleeping) and hands plain values back in.

use vstd::prelude::*;
use crate::anomaly::AnomalyDetector;
use crate::anomaly::evaluate_model;
use crate::anomaly::tick_model;
use crate::curve::curve_spec;
use crate::curve::fan_curve;
use crate::history::HISTORY_CAPACITY;
use crate::history::RateHistory;
use crate::history::push_model;
use crate::smoother::smooth;
use crate::smoother::smooth_spec;

verus! {

/// Duty commanded when the temperature cannot be read: full speed,
/// bypassing curve and smoother.
pub const FAILSAFE_RATE: u8 = 255;

/// The duty one tick commands: the fail-safe maximum when the
/// temperature read failed, otherwise the curved target smoothed
/// against the most recent commanded duty.
pub open spec fn tick_duty_model(h: Seq<u8>, temp: Option<i32>) -> int {
    match temp {
        Option::Some(t) => smooth_spec(
            if h.len() == 0 {
                Option::None
            } else {
                Option::Some(h.last())
            },
            curve_spec(t as int) as u8,
        ),
        Option::None => FAILSAFE_RATE as int,
    }
}

/// The loop-local state: the history of commanded duties and the
/// anomaly detector with its lockout.
pub struct ControlLoop {
    pub history: RateHistory,
    pub detector: AnomalyDetector,
}

impl ControlLoop {
    /// Internal consistency of the held history.
    pub open spec fn wf(&self) -> bool {
        self.history.wf()
    }

    /// Fresh state: empty history, no lockout.
    pub fn new() -> (c: ControlLoop)
        ensures
            c.wf(),
            c.history@ == Seq::<u8>::empty(),
            c.detector.lockout == 0,
    {
        ControlLoop { history: RateHistory::new(), detector: AnomalyDetector::new() }
    }

    /// Decide the duty to command this tick and record it in the
    /// history. `temp` is the tick's temperature reading, `None` when
    /// the read failed.
    pub fn duty_for_tick(&mut self, temp: Option<i32>) -> (duty: u8)
        requires
            old(self).wf(),
        ensures
            final(self).wf(),
            duty == tick_duty_model(old(self).history@, temp),
            final(self).history@ == push_model(old(self).history@, duty),
            final(self).detector == old(self).detector,
    {
        let duty: u8 = match temp {
            Option::Some(t) => {
                let target = fan_curve(t);
                let previous = self.history.last();
                smooth(previous, target)
            },
            Option::None => FAILSAFE_RATE,
        };
        self.history.push(duty);
        duty
    }

    /// Whether this tick should observe the fans at all: the window
    /// is full and no lockout is in force. Only then is RPM read.
    pub fn should_check(&self) -> (b: bool)
        requires
            self.wf(),
        ensures
            b == (self.history@.len() == HISTORY_CAPACITY && self.detector.lockout == 0),
    {
        self.history.full() && self.detector.lockout == 0
    }

    /// Evaluate this tick's RPM observations against the commanded
    /// history; returns whether a hardware reset should be requested.
    pub fn observe(&mut self, rpms: &[u64; 8]) -> (reset: bool)
        requires
            old(self).wf(),
        ensures
            final(self).wf(),
            final(self).history == old(self).history,
            (reset, final(self).detector.lockout) == evaluate_model(
                old(self).detector.lockout,
                old(self).history@,
                rpms@,
            ),
    {
        self.detector.evaluate(&self.history, rpms)
    }

    /// End of tick: one tick of lockout cooldown elapses.
    pub fn end_tick(&mut self)
        requires
            old(self).wf(),
        ensures
            final(self).wf(),
            final(self).history == old(self).history,
            final(self).detector.lockout == tick_model(old(self).detector.lockout),
    {
        self.detector.tick()
    }
}

} // verus!
