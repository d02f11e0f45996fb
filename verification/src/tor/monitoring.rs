//! Watching the Tor daemon.

use vstd::prelude::*;
use crate::text::same_text;

verus! {

/// How often the daemon is asked, in seconds.
pub const TOR_MONITORING_INTERVAL_SECS: u64 = 10;

/// How long bootstrapping may take before it counts as stalled, in nanoseconds.
pub const TOR_BOOTSTRAP_STALL: u64 = 60_000_000_000;

/// What the daemon says of itself.
#[derive(Debug)]
pub struct TorMonitoringInfo {
    /// How far bootstrapping is, in percent.
    pub bootstrap: u8,
    pub network_liveness: String,
    pub dormant: bool,
}

/// What is worth reporting after the daemon was asked.
#[derive(Debug)]
pub struct MonitoringReport {
    /// The bootstrap milestones that were reached, in ascending order.
    pub milestones: Vec<u8>,
    pub stalled: bool,
    pub liveness_changed: bool,
    pub became_dormant: bool,
}

/// What was last heard of the daemon.
#[derive(Debug)]
pub struct TorMonitor {
    pub last_bootstrap: u8,
    pub last_liveness: String,
    pub was_dormant: bool,
    pub stall_warned: bool,
}

/// Whether a milestone was reached since the last time.
pub open spec fn milestone_reached(milestone: int, before: u8, now: u8) -> bool {
    now >= milestone && before < milestone
}

/// The milestones that were reached since the last time.
pub open spec fn milestones_reached(before: u8, now: u8) -> Seq<u8> {
    let quarter = if milestone_reached(25, before, now) {
        seq![25u8]
    } else {
        Seq::empty()
    };
    let half = if milestone_reached(50, before, now) {
        seq![50u8]
    } else {
        Seq::empty()
    };
    let most = if milestone_reached(75, before, now) {
        seq![75u8]
    } else {
        Seq::empty()
    };
    let whole = if milestone_reached(100, before, now) {
        seq![100u8]
    } else {
        Seq::empty()
    };
    quarter + half + most + whole
}

impl TorMonitor {
    pub fn new() -> (monitor: TorMonitor)
        ensures
            monitor.last_bootstrap == 0,
            monitor.last_liveness@ == Seq::<char>::empty(),
            !monitor.was_dormant,
            !monitor.stall_warned,
    {
        let last_liveness = String::new();
        TorMonitor { last_bootstrap: 0, last_liveness, was_dormant: false, stall_warned: false }
    }

    /// Whether bootstrapping is now reported as stalled: once, when it takes too
    /// long. `elapsed` are nanoseconds since the watch began.
    pub open spec fn reports_stall(self, info: TorMonitoringInfo, elapsed: u64) -> bool {
        info.bootstrap < 100 && elapsed > TOR_BOOTSTRAP_STALL && !self.stall_warned
    }

    /// Whether a report says what is new in what the daemon said.
    pub open spec fn reports(
        self,
        info: TorMonitoringInfo,
        elapsed: u64,
        report: MonitoringReport,
    ) -> bool {
        &&& report.milestones@ == milestones_reached(self.last_bootstrap, info.bootstrap)
        &&& report.stalled == self.reports_stall(info, elapsed)
        &&& report.liveness_changed == (self.last_liveness@.len() > 0 && info.network_liveness@
            != self.last_liveness@)
        &&& report.became_dormant == (info.dormant && !self.was_dormant)
    }

    /// Whether `after` is what is remembered after the daemon answered.
    pub open spec fn observed(
        self,
        info: TorMonitoringInfo,
        elapsed: u64,
        after: TorMonitor,
    ) -> bool {
        &&& after.last_bootstrap == info.bootstrap
        &&& after.last_liveness@ == info.network_liveness@
        &&& after.was_dormant == info.dormant
        &&& after.stall_warned == (info.bootstrap != 100 && (self.stall_warned
            || self.reports_stall(info, elapsed)))
    }

    /// Takes over what the daemon said, and says what of it is worth reporting.
    pub fn observe(&mut self, info: &TorMonitoringInfo, elapsed: u64) -> (report: MonitoringReport)
        ensures
            old(self).reports(*info, elapsed, report),
            old(self).observed(*info, elapsed, *final(self)),
    {
        let mut milestones: Vec<u8> = Vec::new();
        if info.bootstrap >= 25 && self.last_bootstrap < 25 {
            milestones.push(25);
        }
        if info.bootstrap >= 50 && self.last_bootstrap < 50 {
            milestones.push(50);
        }
        if info.bootstrap >= 75 && self.last_bootstrap < 75 {
            milestones.push(75);
        }
        if info.bootstrap >= 100 && self.last_bootstrap < 100 {
            milestones.push(100);
        }
        assert(milestones@ =~= milestones_reached(self.last_bootstrap, info.bootstrap));
        let stalled = info.bootstrap < 100 && elapsed > TOR_BOOTSTRAP_STALL && !self.stall_warned;
        if stalled {
            self.stall_warned = true;
        }
        if info.bootstrap == 100 {
            self.stall_warned = false;
        }
        self.last_bootstrap = info.bootstrap;
        let had_liveness = !same_text(self.last_liveness.as_str(), "");
        let liveness_changed = had_liveness && !same_text(
            info.network_liveness.as_str(),
            self.last_liveness.as_str(),
        );
        proof {
            reveal_strlit("");
            assert((self.last_liveness@ == ""@) == (self.last_liveness@.len() == 0)) by {
                if self.last_liveness@.len() == 0 {
                    assert(self.last_liveness@ =~= ""@);
                }
            }
        }
        self.last_liveness = info.network_liveness.clone();
        let became_dormant = info.dormant && !self.was_dormant;
        self.was_dormant = info.dormant;
        MonitoringReport { milestones, stalled, liveness_changed, became_dormant }
    }
}

// ---------------------------------------------------------------------------
// Laws
// ---------------------------------------------------------------------------

/// While a daemon stays below full bootstrap, a stall is reported at most once.
pub proof fn stalls_are_reported_once(
    monitor: TorMonitor,
    first: TorMonitoringInfo,
    first_elapsed: u64,
    between: TorMonitor,
    second: TorMonitoringInfo,
    second_elapsed: u64,
)
    requires
        first.bootstrap != 100,
        monitor.reports_stall(first, first_elapsed),
        monitor.observed(first, first_elapsed, between),
    ensures
        !between.reports_stall(second, second_elapsed),
{
}

/// A daemon that says the same twice reports no milestone the second time.
pub proof fn milestones_are_reported_once(percent: u8)
    ensures
        milestones_reached(percent, percent) == Seq::<u8>::empty(),
{
    assert(milestones_reached(percent, percent) =~= Seq::<u8>::empty());
}

/// From nothing to everything in one step, every milestone is reported.
pub proof fn every_milestone_is_reported(percent: u8)
    requires
        percent >= 100,
    ensures
        milestones_reached(0, percent) == seq![25u8, 50u8, 75u8, 100u8],
{
    assert(milestones_reached(0, percent) =~= seq![25u8, 50u8, 75u8, 100u8]);
}

/// The milestones are the quarters of the way, and each that lies between what was
/// heard before and what is heard now is reported, in ascending order.
pub proof fn milestones_between_are_reported(before: u8, now: u8, milestone: u8)
    ensures
        milestones_reached(before, now).contains(milestone) <==> (milestone == 25 || milestone == 50
            || milestone == 75 || milestone == 100) && before < milestone <= now,
        forall|i: int, j: int|
            0 <= i < j < milestones_reached(before, now).len() ==> #[trigger] milestones_reached(
                before,
                now,
            )[i] < #[trigger] milestones_reached(before, now)[j],
{
    let all = milestones_reached(before, now);
    let quarter = if milestone_reached(25, before, now) {
        seq![25u8]
    } else {
        Seq::empty()
    };
    let half = if milestone_reached(50, before, now) {
        seq![50u8]
    } else {
        Seq::empty()
    };
    let most = if milestone_reached(75, before, now) {
        seq![75u8]
    } else {
        Seq::empty()
    };
    let whole = if milestone_reached(100, before, now) {
        seq![100u8]
    } else {
        Seq::empty()
    };
    if milestone == 25 && milestone_reached(25, before, now) {
        assert(all[0] == quarter[0]);
    }
    if milestone == 50 && milestone_reached(50, before, now) {
        assert(all[quarter.len() as int] == half[0]);
    }
    if milestone == 75 && milestone_reached(75, before, now) {
        assert(all[(quarter.len() + half.len()) as int] == most[0]);
    }
    if milestone == 100 && milestone_reached(100, before, now) {
        assert(all[(quarter.len() + half.len() + most.len()) as int] == whole[0]);
    }
}

/// A stall is reported where bootstrapping is not complete, takes longer than it
/// should and was not reported before, and only there.
pub proof fn stalls_are_reported(monitor: TorMonitor, info: TorMonitoringInfo, elapsed: u64)
    ensures
        monitor.reports_stall(info, elapsed) <==> info.bootstrap < 100 && elapsed
            > TOR_BOOTSTRAP_STALL && !monitor.stall_warned,
{
}

/// What a report says is new: what differs from what was remembered.
pub proof fn reports_say_what_changed(
    monitor: TorMonitor,
    info: TorMonitoringInfo,
    elapsed: u64,
    report: MonitoringReport,
    after: TorMonitor,
)
    requires
        monitor.reports(info, elapsed, report),
        monitor.observed(info, elapsed, after),
    ensures
        report.liveness_changed ==> info.network_liveness@ != monitor.last_liveness@,
        monitor.last_liveness@.len() > 0 && info.network_liveness@ != monitor.last_liveness@
            ==> report.liveness_changed,
        monitor.last_liveness@.len() == 0 ==> !report.liveness_changed,
        report.became_dormant <==> info.dormant && !monitor.was_dormant,
        after.last_bootstrap == info.bootstrap,
        after.last_liveness@ == info.network_liveness@,
        after.was_dormant == info.dormant,
        report.stalled && info.bootstrap < 100 ==> after.stall_warned,
        info.bootstrap == 100 ==> !after.stall_warned,
        monitor.stall_warned && info.bootstrap < 100 ==> after.stall_warned && !report.stalled,
{
}

/// A report holds each quarter of the way that was passed since the last time, in
/// ascending order, and no other; it tells a stall once, behind a minute without
/// completion; and the warning is remembered until the bootstrap is complete.
pub proof fn reports_hold_what_was_passed(
    monitor: TorMonitor,
    info: TorMonitoringInfo,
    elapsed: u64,
    report: MonitoringReport,
    after: TorMonitor,
    quarter: u8,
    i: int,
    j: int,
)
    requires
        monitor.reports(info, elapsed, report),
        monitor.observed(info, elapsed, after),
    ensures
        report.milestones@.contains(quarter) <==> (quarter == 25 || quarter == 50 || quarter == 75
            || quarter == 100) && monitor.last_bootstrap < quarter <= info.bootstrap,
        0 <= i < j < report.milestones@.len() ==> report.milestones@[i] < report.milestones@[j],
        report.stalled <==> info.bootstrap < 100 && elapsed > 60_000_000_000
            && !monitor.stall_warned,
        after.stall_warned <==> info.bootstrap != 100 && (monitor.stall_warned || report.stalled),
{
    let (before, now) = (monitor.last_bootstrap, info.bootstrap);
    let all = milestones_reached(before, now);
    let a = if milestone_reached(25, before, now) {
        1int
    } else {
        0
    };
    let b = if milestone_reached(50, before, now) {
        1int
    } else {
        0
    };
    let c = if milestone_reached(75, before, now) {
        1int
    } else {
        0
    };
    if milestone_reached(25, before, now) {
        assert(all[0] == 25);
    }
    if milestone_reached(50, before, now) {
        assert(all[a] == 50);
    }
    if milestone_reached(75, before, now) {
        assert(all[a + b] == 75);
    }
    if milestone_reached(100, before, now) {
        assert(all[a + b + c] == 100);
    }
}

} // verus!
