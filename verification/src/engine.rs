//! The sampling engine of one monitored process: a state machine from
//! snapshots to report rows.
//!
//! The engine does no I/O and does not wait. Its caller asks it whether the
//! run is over, reads the texts of the next tick, hands them over, waits for
//! the interval and asks again. Time is nominal: each tick advances it by
//! the interval, whatever the clock says.

use crate::error::TraceError;
use crate::record::{difference, Record};
use crate::snapshot::{lemma_snapshot_stamp, snapshot_of, take_snapshot, Snapshot, TickSources};
use vstd::prelude::*;

verus! {

/// Where a run stands.
#[derive(Clone, Copy, Debug, PartialEq, Eq)]
pub enum Phase {
    /// No snapshot was taken yet: the next one only seeds the run.
    Seeding,
    /// A snapshot was taken: the next one is diffed against it.
    Steady,
    /// The time of the run is used up.
    Finished,
}

/// What a run leaves behind: the process it watched and the rows it made,
/// oldest first.
#[derive(Debug)]
pub struct MonitorRun {
    pub pid: i32,
    pub records: Vec<Record>,
}

/// `t` held to the range of `i64`.
pub open spec fn clamp(t: int) -> int {
    if t > i64::MAX {
        i64::MAX as int
    } else if t < i64::MIN {
        i64::MIN as int
    } else {
        t
    }
}

/// A run as a mathematical value.
pub struct RunModel {
    /// The process that is watched.
    pub pid: int,
    /// The number of seconds that the run lasts.
    pub duration: int,
    /// The number of seconds between two ticks.
    pub interval: int,
    /// The nominal time of the next tick.
    pub elapsed: int,
    /// The snapshot of the last tick, if there was a tick.
    pub previous: Option<Snapshot>,
    /// The rows made so far, oldest first.
    pub records: Seq<Record>,
}

impl RunModel {
    /// A run that has not taken a tick yet.
    pub open spec fn start(pid: int, duration: int, interval: int) -> RunModel {
        RunModel { pid, duration, interval, elapsed: 0, previous: None, records: Seq::empty() }
    }

    /// The time of the run is used up.
    pub open spec fn finished(self) -> bool {
        self.elapsed >= self.duration
    }

    /// Where the run stands: over when its time is used up, else seeding
    /// until its first tick and steady after it.
    pub open spec fn phase(self) -> Phase {
        if self.finished() {
            Phase::Finished
        } else if self.previous is None {
            Phase::Seeding
        } else {
            Phase::Steady
        }
    }

    /// The number of ticks taken.
    pub open spec fn ticks(self) -> nat {
        if self.previous is None {
            0
        } else {
            self.records.len() + 1
        }
    }

    /// The row that a snapshot makes when it is handed to the run: none when
    /// the run is over or has no snapshot to diff against.
    pub open spec fn emits(self, snapshot: Snapshot) -> Option<Record> {
        if self.finished() {
            None
        } else {
            match self.previous {
                Some(previous) => Some(difference(previous, snapshot)),
                None => None,
            }
        }
    }

    /// The run after a snapshot was handed to it: the row that the snapshot
    /// makes is added, the snapshot is kept for the next tick, and the
    /// nominal time advances by the interval, held to the range of `i64`.
    /// A run that is over stays as it is.
    pub open spec fn step(self, snapshot: Snapshot) -> RunModel {
        if self.finished() {
            self
        } else {
            RunModel {
                elapsed: clamp(self.elapsed + self.interval),
                previous: Some(snapshot),
                records: match self.emits(snapshot) {
                    Some(record) => self.records.push(record),
                    None => self.records,
                },
                ..self
            }
        }
    }

    /// The run after the snapshots were handed to it one by one, in order.
    pub open spec fn after(self, snapshots: Seq<Snapshot>) -> RunModel
        decreases snapshots.len(),
    {
        if snapshots.len() == 0 {
            self
        } else {
            self.after(snapshots.drop_last()).step(snapshots.last())
        }
    }

    /// The run after one tick was taken from the texts read for it: the
    /// snapshot that the texts make, stamped with the nominal time of the
    /// tick, is handed to the run. Texts that make no snapshot leave the run
    /// as it is, and so does a tick of a run that is over.
    pub open spec fn tick_step(self, sources: TickSources) -> RunModel {
        if self.finished() {
            self
        } else {
            match snapshot_of(self.elapsed as i64, sources) {
                Ok(snapshot) => self.step(snapshot),
                Err(_) => self,
            }
        }
    }

    /// The run after one tick was taken from each of the texts, in order.
    pub open spec fn ticked(self, all: Seq<TickSources>) -> RunModel
        decreases all.len(),
    {
        if all.len() == 0 {
            self
        } else {
            self.ticked(all.drop_last()).tick_step(all.last())
        }
    }
}

/// The texts of tick `k` of a run, counted from zero, make a snapshot when
/// they are read at the nominal time of that tick; and so for every tick.
pub open spec fn all_read(interval: int, all: Seq<TickSources>) -> bool {
    forall|k: int|
        0 <= k < all.len() ==> (#[trigger] snapshot_of(clamp(k * interval) as i64, all[k])) is Ok
}

/// The snapshots that the texts of the ticks of a run make, each read at
/// the nominal time of its tick.
pub open spec fn stamped(interval: int, all: Seq<TickSources>) -> Seq<Snapshot> {
    Seq::new(all.len(), |k: int| snapshot_of(clamp(k * interval) as i64, all[k])->Ok_0)
}

/// How a run stands to the snapshots `s` that were handed to it since its
/// start: it took them in order until its time was used up, the first
/// seeded it, every later one made the row of its difference to the one
/// before, and its nominal time is the interval times the number of ticks.
pub open spec fn follows(run: RunModel, s: Seq<Snapshot>) -> bool {
    &&& run.ticks() <= s.len()
    &&& run.previous is None ==> run.records.len() == 0
    &&& run.ticks() > 0 ==> run.previous == Some(s[run.ticks() - 1])
    &&& forall|k: int|
        0 <= k < run.records.len() ==> #[trigger] run.records[k] == difference(s[k], s[k + 1])
    &&& run.elapsed == clamp(run.ticks() * run.interval)
    &&& run.ticks() > 0 ==> clamp((run.ticks() - 1) * run.interval) < run.duration
    &&& !run.finished() ==> run.ticks() == s.len()
}

/// Every run follows the snapshots that were handed to it, and keeps its
/// parameters.
pub proof fn lemma_run_follows(pid: int, duration: int, interval: int, s: Seq<Snapshot>)
    ensures
        follows(RunModel::start(pid, duration, interval).after(s), s),
        RunModel::start(pid, duration, interval).after(s).pid == pid,
        RunModel::start(pid, duration, interval).after(s).duration == duration,
        RunModel::start(pid, duration, interval).after(s).interval == interval,
    decreases s.len(),
{
    if s.len() > 0 {
        let init = s.drop_last();
        let t = RunModel::start(pid, duration, interval).after(init).ticks() as int;
        lemma_run_follows(pid, duration, interval, init);
        assert((t + 1) * interval == t * interval + interval) by (nonlinear_arith);
        assert(interval <= 0 ==> t * interval <= 0) by (nonlinear_arith)
            requires
                t >= 0,
        ;
    }
}

/// The first tick of a run makes no row.
pub proof fn lemma_first_tick_seeds(pid: int, duration: int, interval: int, snapshot: Snapshot)
    ensures
        RunModel::start(pid, duration, interval).emits(snapshot) is None,
        RunModel::start(pid, duration, interval).step(snapshot).records.len() == 0,
{
}

/// Every tick after the first, while the run is not over, makes exactly one
/// row: the difference of its snapshot to the one before.
pub proof fn lemma_later_tick_emits(run: RunModel, snapshot: Snapshot)
    requires
        run.phase() == Phase::Steady,
    ensures
        run.emits(snapshot) == Some(difference(run.previous->0, snapshot)),
        run.step(snapshot).records == run.records.push(difference(run.previous->0, snapshot)),
{
}

/// Row `k` of a run is the difference of the snapshot of tick `k + 1` to
/// the snapshot of tick `k`: every cumulative field of the row is the
/// current value less the previous one.
pub proof fn lemma_row_is_difference(
    pid: int,
    duration: int,
    interval: int,
    s: Seq<Snapshot>,
    k: int,
)
    requires
        0 <= k < RunModel::start(pid, duration, interval).after(s).records.len(),
    ensures
        k + 1 < s.len(),
        RunModel::start(pid, duration, interval).after(s).records[k] == difference(s[k], s[k + 1]),
{
    lemma_run_follows(pid, duration, interval, s);
}

/// A run makes one row less than it took ticks, and none before its
/// second tick.
pub proof fn lemma_rows_per_tick(pid: int, duration: int, interval: int, s: Seq<Snapshot>)
    ensures
        ({
            let run = RunModel::start(pid, duration, interval).after(s);
            &&& run.ticks() <= s.len()
            &&& run.records.len() == if run.ticks() == 0 {
                0
            } else {
                run.ticks() - 1
            }
            &&& s.len() <= 1 ==> run.records.len() == 0
        }),
{
    lemma_run_follows(pid, duration, interval, s);
}

/// The number of ticks of a run that is over: the least number of
/// intervals that cover the duration.
pub proof fn lemma_finished_ticks(pid: int, duration: int, interval: int, s: Seq<Snapshot>)
    requires
        duration > 0,
        interval > 0,
        RunModel::start(pid, duration, interval).after(s).finished(),
    ensures
        ({
            let run = RunModel::start(pid, duration, interval).after(s);
            &&& run.ticks() > 0
            &&& (run.ticks() - 1) * interval < duration <= run.ticks() * interval
            &&& run.records.len() == run.ticks() - 1
        }),
{
    lemma_run_follows(pid, duration, interval, s);
}

/// A run over a duration that the interval divides makes, once it is over,
/// one row less than the duration holds intervals.
pub proof fn lemma_finished_row_count(pid: int, duration: int, interval: int, s: Seq<Snapshot>)
    requires
        duration > 0,
        interval > 0,
        duration % interval == 0,
        RunModel::start(pid, duration, interval).after(s).finished(),
    ensures
        RunModel::start(pid, duration, interval).after(s).records.len() == duration / interval - 1,
{
    lemma_finished_ticks(pid, duration, interval, s);
    let run = RunModel::start(pid, duration, interval).after(s);
    let t = run.ticks() as int;
    let q = duration / interval;
    vstd::arithmetic::div_mod::lemma_fundamental_div_mod(duration, interval);
    assert(t == q) by (nonlinear_arith)
        requires
            (t - 1) * interval < duration,
            duration <= t * interval,
            duration == interval * q,
            interval > 0,
    ;
}

/// A run is over as soon as it was handed as many snapshots as the
/// duration holds intervals, rounded up.
pub proof fn lemma_enough_ticks_finish(pid: int, duration: int, interval: int, s: Seq<Snapshot>)
    requires
        interval > 0,
        duration <= i64::MAX,
        s.len() * interval >= duration,
    ensures
        RunModel::start(pid, duration, interval).after(s).finished(),
{
    lemma_run_follows(pid, duration, interval, s);
}

/// A run that was handed at least as many snapshots as its duration holds
/// intervals, where the interval divides the duration, has made one row
/// less than the duration holds intervals.
pub proof fn lemma_full_run_row_count(pid: int, duration: int, interval: int, s: Seq<Snapshot>)
    requires
        0 < duration <= i64::MAX,
        interval > 0,
        duration % interval == 0,
        s.len() >= duration / interval,
    ensures
        RunModel::start(pid, duration, interval).after(s).finished(),
        RunModel::start(pid, duration, interval).after(s).records.len() == duration / interval - 1,
{
    let q = duration / interval;
    vstd::arithmetic::div_mod::lemma_fundamental_div_mod(duration, interval);
    assert(s.len() * interval >= duration) by (nonlinear_arith)
        requires
            s.len() >= q,
            duration == interval * q,
            interval > 0,
    ;
    lemma_enough_ticks_finish(pid, duration, interval, s);
    lemma_finished_row_count(pid, duration, interval, s);
}

/// A run that takes its ticks from texts that all make snapshots is the
/// run that is handed those snapshots, each stamped with the nominal time
/// of its tick.
pub proof fn lemma_ticked_is_after(pid: int, duration: int, interval: int, all: Seq<TickSources>)
    requires
        all_read(interval, all),
    ensures
        RunModel::start(pid, duration, interval).ticked(all) == RunModel::start(
            pid,
            duration,
            interval,
        ).after(stamped(interval, all)),
    decreases all.len(),
{
    if all.len() > 0 {
        let begin = RunModel::start(pid, duration, interval);
        let init = all.drop_last();
        let n = init.len() as int;
        assert forall|k: int| 0 <= k < init.len() implies (#[trigger] snapshot_of(
            clamp(k * interval) as i64,
            init[k],
        )) is Ok by {
            assert(init[k] == all[k]);
        }
        lemma_ticked_is_after(pid, duration, interval, init);
        assert(stamped(interval, all).drop_last() =~= stamped(interval, init));
        lemma_run_follows(pid, duration, interval, stamped(interval, init));
        let before = begin.after(stamped(interval, init));
        if !before.finished() {
            assert(before.ticks() == n);
            assert(before.elapsed == clamp(n * interval));
            assert(snapshot_of(clamp(n * interval) as i64, all[n]) is Ok);
            assert(stamped(interval, all).last() == snapshot_of(
                clamp(n * interval) as i64,
                all[n],
            )->Ok_0);
        }
    }
}

/// Row `i` of a run that takes its ticks from texts that all make
/// snapshots carries the nominal time of tick `i + 1`: the interval times
/// `i + 1`. So the time stamps of the rows go up by the interval, and no
/// row carries the time zero.
pub proof fn lemma_row_times(
    pid: int,
    duration: int,
    interval: int,
    all: Seq<TickSources>,
    i: int,
)
    requires
        interval > 0,
        duration <= i64::MAX,
        all_read(interval, all),
        0 <= i < RunModel::start(pid, duration, interval).ticked(all).records.len(),
    ensures
        RunModel::start(pid, duration, interval).ticked(all).records[i].timestamp == (i + 1)
            * interval,
{
    let snaps = stamped(interval, all);
    let run = RunModel::start(pid, duration, interval).after(snaps);
    lemma_ticked_is_after(pid, duration, interval, all);
    lemma_run_follows(pid, duration, interval, snaps);
    let t = run.ticks() as int;
    assert(run.records[i] == difference(snaps[i], snaps[i + 1]));
    lemma_snapshot_stamp(clamp((i + 1) * interval) as i64, all[i + 1]);
    assert(snapshot_of(clamp((i + 1) * interval) as i64, all[i + 1]) is Ok);
    assert(0 <= (i + 1) * interval <= (t - 1) * interval) by (nonlinear_arith)
        requires
            0 <= i + 1 <= t - 1,
            interval > 0,
    ;
}

/// A run over a duration that the interval divides, which takes at least
/// as many ticks as the duration holds intervals from texts that all make
/// snapshots, makes one row less than the duration holds intervals, and row
/// `i` carries the interval times `i + 1`.
pub proof fn lemma_full_run_rows(pid: int, duration: int, interval: int, all: Seq<TickSources>)
    requires
        0 < duration <= i64::MAX,
        interval > 0,
        duration % interval == 0,
        all.len() >= duration / interval,
        all_read(interval, all),
    ensures
        ({
            let run = RunModel::start(pid, duration, interval).ticked(all);
            &&& run.finished()
            &&& run.records.len() == duration / interval - 1
            &&& forall|i: int|
                0 <= i < run.records.len() ==> (#[trigger] run.records[i]).timestamp == (i + 1)
                    * interval
        }),
{
    let run = RunModel::start(pid, duration, interval).ticked(all);
    lemma_ticked_is_after(pid, duration, interval, all);
    lemma_full_run_row_count(pid, duration, interval, stamped(interval, all));
    assert forall|i: int| 0 <= i < run.records.len() implies (#[trigger] run.records[i]).timestamp
        == (i + 1) * interval by {
        lemma_row_times(pid, duration, interval, all, i);
    }
}

/// A run with no time to use is over from the start.
pub proof fn lemma_empty_run(pid: int, duration: int, interval: int)
    requires
        duration <= 0,
    ensures
        RunModel::start(pid, duration, interval).finished(),
{
}

/// The sampling engine of one monitored process.
pub struct SampleEngine {
    duration: i64,
    interval: i64,
    elapsed: i64,
    previous: Option<Snapshot>,
    run: MonitorRun,
}

impl View for SampleEngine {
    type V = RunModel;

    closed spec fn view(&self) -> RunModel {
        RunModel {
            pid: self.run.pid as int,
            duration: self.duration as int,
            interval: self.interval as int,
            elapsed: self.elapsed as int,
            previous: self.previous,
            records: self.run.records@,
        }
    }
}

impl SampleEngine {
    /// An engine for a run of `duration` seconds with a tick every
    /// `interval` seconds, watching the process `pid`.
    pub fn new(pid: i32, duration: i64, interval: i64) -> (engine: SampleEngine)
        ensures
            engine@ == RunModel::start(pid as int, duration as int, interval as int),
    {
        SampleEngine {
            duration,
            interval,
            elapsed: 0,
            previous: None,
            run: MonitorRun { pid, records: Vec::new() },
        }
    }

    /// The process that the engine watches.
    pub fn pid(&self) -> (pid: i32)
        ensures
            pid == self@.pid,
    {
        self.run.pid
    }

    /// The number of seconds that the run lasts.
    pub fn duration(&self) -> (duration: i64)
        ensures
            duration == self@.duration,
    {
        self.duration
    }

    /// The number of seconds between two ticks.
    pub fn interval(&self) -> (interval: i64)
        ensures
            interval == self@.interval,
    {
        self.interval
    }

    /// The nominal time of the next tick, in seconds since the run began.
    pub fn elapsed(&self) -> (elapsed: i64)
        ensures
            elapsed == self@.elapsed,
    {
        self.elapsed
    }

    /// Tells whether the time of the run is used up.
    pub fn is_finished(&self) -> (done: bool)
        ensures
            done == self@.finished(),
    {
        self.elapsed >= self.duration
    }

    /// Where the run stands.
    pub fn phase(&self) -> (phase: Phase)
        ensures
            phase == self@.phase(),
    {
        if self.elapsed >= self.duration {
            Phase::Finished
        } else if self.previous.is_none() {
            Phase::Seeding
        } else {
            Phase::Steady
        }
    }

    /// The rows made so far, oldest first.
    pub fn records(&self) -> (records: &Vec<Record>)
        ensures
            records@ == self@.records,
    {
        &self.run.records
    }

    /// Hands the snapshot of the next tick to the run.
    ///
    /// While the run seeds, the snapshot is kept and no row is made. After
    /// that, the snapshot is diffed against the one before it, the row is
    /// added to the run and returned, and the snapshot takes the place of
    /// the one before. Either way the nominal time advances by the interval.
    /// A run that is over ignores the snapshot.
    pub fn observe(&mut self, snapshot: Snapshot) -> (row: Option<Record>)
        ensures
            final(self)@ == old(self)@.step(snapshot),
            row == old(self)@.emits(snapshot),
    {
        if self.elapsed >= self.duration {
            return None;
        }
        let row = match &self.previous {
            None => None,
            Some(previous) => Some(Record::between(previous, &snapshot)),
        };
        match row {
            Some(record) => {
                self.run.records.push(record);
            },
            None => {},
        }
        self.previous = Some(snapshot);
        self.elapsed = if self.interval > 0 && self.elapsed > i64::MAX - self.interval {
            i64::MAX
        } else if self.interval < 0 && self.elapsed < i64::MIN - self.interval {
            i64::MIN
        } else {
            self.elapsed + self.interval
        };
        row
    }

    /// Takes one tick of the run from the texts read for it.
    ///
    /// The snapshot is made of the texts, stamped with the nominal time of
    /// the tick, and handed to the run. Texts that make no snapshot leave
    /// the run as it was. A run that is over reads nothing.
    pub fn tick(&mut self, sources: &TickSources) -> (r: Result<Option<Record>, TraceError>)
        ensures
            final(self)@ == old(self)@.tick_step(*sources),
            old(self)@.finished() ==> r == Ok::<Option<Record>, TraceError>(None) && final(self)@
                == old(self)@,
            !old(self)@.finished() ==> match snapshot_of(old(self)@.elapsed as i64, *sources) {
                Ok(snapshot) => r == Ok::<Option<Record>, TraceError>(
                    old(self)@.emits(snapshot),
                ) && final(self)@ == old(self)@.step(snapshot),
                Err(e) => r == Err::<Option<Record>, TraceError>(e) && final(self)@ == old(self)@,
            },
    {
        if self.elapsed >= self.duration {
            return Ok(None);
        }
        match take_snapshot(self.elapsed, sources) {
            Ok(snapshot) => Ok(self.observe(snapshot)),
            Err(e) => Err(e),
        }
    }

    /// Ends the run and hands out what it made.
    pub fn finish(self) -> (run: MonitorRun)
        ensures
            run.pid == self@.pid,
            run.records@ == self@.records,
    {
        self.run
    }
}

} // verus!
