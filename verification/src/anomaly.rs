//! Detection of a fan subsystem that is not responding to commanded
//! duty: either commanded high while spinning low, or commanded low
//! while spinning high, sustained over the whole history window. On a
//! hit the detector requests a hardware reset and enters a lockout
//! (cooldown) during which it will not fire again.

use vstd::prelude::*;
use crate::history::HISTORY_CAPACITY;
use crate::history::RateHistory;

verus! {

/// Cooldown, in ticks, imposed after each reset request.
pub const LOCKOUT_TICKS: u8 = 15;

/// A window whose every duty exceeds this counts as "commanded high".
pub const HIGH_DUTY: u8 = 80;

/// A window whose every duty is below this counts as "commanded low".
pub const LOW_DUTY: u8 = 50;

/// Observed RPM below this counts as "spinning low"; above it, as
/// "spinning high".
pub const RPM_THRESHOLD: u64 = 10000;

/// Commanded high, spinning low: every retained duty is above
/// HIGH_DUTY while every observed RPM is below RPM_THRESHOLD.
pub open spec fn stuck_low(duties: Seq<u8>, rpms: Seq<u64>) -> bool {
    &&& forall|i: int| 0 <= i < duties.len() ==> duties[i] > HIGH_DUTY
    &&& forall|j: int| 0 <= j < rpms.len() ==> rpms[j] < RPM_THRESHOLD
}

/// Commanded low, spinning high: every retained duty is below
/// LOW_DUTY while every observed RPM is above RPM_THRESHOLD.
pub open spec fn stuck_high(duties: Seq<u8>, rpms: Seq<u64>) -> bool {
    &&& forall|i: int| 0 <= i < duties.len() ==> duties[i] < LOW_DUTY
    &&& forall|j: int| 0 <= j < rpms.len() ==> rpms[j] > RPM_THRESHOLD
}

/// The anomaly condition over one window of duties and one round of
/// RPM observations.
pub open spec fn anomaly_spec(duties: Seq<u8>, rpms: Seq<u64>) -> bool {
    stuck_low(duties, rpms) || stuck_high(duties, rpms)
}

/// One evaluation, abstractly: whether a reset is requested, and the
/// lockout counter afterwards. A reset is requested exactly when the
/// window is full, no lockout is in force, and the anomaly condition
/// holds; it starts a fresh lockout.
pub open spec fn evaluate_model(lockout: u8, duties: Seq<u8>, rpms: Seq<u64>) -> (bool, u8) {
    if duties.len() == HISTORY_CAPACITY && lockout == 0 && anomaly_spec(duties, rpms) {
        (true, LOCKOUT_TICKS)
    } else {
        (false, lockout)
    }
}

/// The lockout after one tick elapses: decremented, saturating at
/// zero.
pub open spec fn tick_model(lockout: u8) -> u8 {
    if lockout == 0 {
        0
    } else {
        (lockout - 1) as u8
    }
}

/// The reset-request state machine: a lockout counter of remaining
/// cooldown ticks. Zero means evaluation is permitted.
pub struct AnomalyDetector {
    /// Remaining cooldown ticks; no reset may be requested while
    /// nonzero.
    pub lockout: u8,
}

impl AnomalyDetector {
    /// A detector with no cooldown in force.
    pub fn new() -> (d: AnomalyDetector)
        ensures
            d.lockout == 0,
    {
        AnomalyDetector { lockout: 0 }
    }

    /// Evaluate one round of observations against the commanded-duty
    /// window. Returns whether a hardware reset should be requested;
    /// on a request the lockout is set to LOCKOUT_TICKS, otherwise
    /// the detector is unchanged.
    pub fn evaluate(&mut self, history: &RateHistory, rpms: &[u64; 8]) -> (reset: bool)
        requires
            history.wf(),
        ensures
            (reset, final(self).lockout) == evaluate_model(
                old(self).lockout,
                history@,
                rpms@,
            ),
    {
        if !history.full() || self.lockout != 0 {
            return false;
        }
        let duties = history.rates();
        let hit = check_anomaly(&duties, rpms);
        if hit {
            self.lockout = LOCKOUT_TICKS;
        }
        hit
    }

    /// Let one tick of cooldown elapse.
    pub fn tick(&mut self)
        ensures
            final(self).lockout == tick_model(old(self).lockout),
    {
        if self.lockout > 0 {
            self.lockout = self.lockout - 1;
        }
    }
}

/// Decide the anomaly condition for one window of duties and one
/// round of RPM observations.
pub fn check_anomaly(duties: &Vec<u8>, rpms: &[u64; 8]) -> (b: bool)
    ensures
        b == anomaly_spec(duties@, rpms@),
{
    let commanded_high = all_duties_above(duties, HIGH_DUTY);
    let commanded_low = all_duties_below(duties, LOW_DUTY);
    let spinning_low = all_rpms_below(rpms, RPM_THRESHOLD);
    let spinning_high = all_rpms_above(rpms, RPM_THRESHOLD);
    (commanded_high && spinning_low) || (commanded_low && spinning_high)
}

fn all_duties_above(duties: &Vec<u8>, bound: u8) -> (b: bool)
    ensures
        b == forall|i: int| 0 <= i < duties@.len() ==> duties@[i] > bound,
{
    let mut k: usize = 0;
    while k < duties.len()
        invariant
            k <= duties@.len(),
            forall|i: int| 0 <= i < k ==> duties@[i] > bound,
        decreases duties@.len() - k,
    {
        if duties[k] <= bound {
            return false;
        }
        k = k + 1;
    }
    true
}

fn all_duties_below(duties: &Vec<u8>, bound: u8) -> (b: bool)
    ensures
        b == forall|i: int| 0 <= i < duties@.len() ==> duties@[i] < bound,
{
    let mut k: usize = 0;
    while k < duties.len()
        invariant
            k <= duties@.len(),
            forall|i: int| 0 <= i < k ==> duties@[i] < bound,
        decreases duties@.len() - k,
    {
        if duties[k] >= bound {
            return false;
        }
        k = k + 1;
    }
    true
}

fn all_rpms_below(rpms: &[u64; 8], bound: u64) -> (b: bool)
    ensures
        b == forall|j: int| 0 <= j < rpms@.len() ==> rpms@[j] < bound,
{
    let mut k: usize = 0;
    while k < 8
        invariant
            k <= 8,
            forall|j: int| 0 <= j < k ==> rpms@[j] < bound,
        decreases 8 - k,
    {
        if rpms[k] >= bound {
            return false;
        }
        k = k + 1;
    }
    true
}

fn all_rpms_above(rpms: &[u64; 8], bound: u64) -> (b: bool)
    ensures
        b == forall|j: int| 0 <= j < rpms@.len() ==> rpms@[j] > bound,
{
    let mut k: usize = 0;
    while k < 8
        invariant
            k <= 8,
            forall|j: int| 0 <= j < k ==> rpms@[j] > bound,
        decreases 8 - k,
    {
        if rpms[k] <= bound {
            return false;
        }
        k = k + 1;
    }
    true
}

/// A full window of high commanded duties answered by uniformly low
/// observed RPM triggers a reset request and a fresh lockout; on the
/// immediately following tick the lockout is still in force, so no
/// further reset is requested, whatever is then retained or observed.
pub proof fn lemma_anomaly_triggers_then_locks_out(
    duties: Seq<u8>,
    rpms: Seq<u64>,
    later_duties: Seq<u8>,
    later_rpms: Seq<u64>,
)
    requires
        duties.len() == HISTORY_CAPACITY,
        forall|i: int| 0 <= i < duties.len() ==> duties[i] > HIGH_DUTY,
        forall|j: int| 0 <= j < rpms.len() ==> rpms[j] < RPM_THRESHOLD,
    ensures
        evaluate_model(0, duties, rpms) == (true, LOCKOUT_TICKS),
        !evaluate_model(tick_model(LOCKOUT_TICKS), later_duties, later_rpms).0,
{
}

} // verus!
