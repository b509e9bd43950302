//! The rows of a report: what changed between two snapshots.

use crate::number::{lemma_thousandths_nearest, thousandths};
use crate::snapshot::Snapshot;
use vstd::prelude::*;

verus! {

/// The quotient `num / den` of two whole numbers, held exactly as the two
/// numbers. Nothing is divided and nothing is rounded before the quotient is
/// written out. Where `den` is zero there is no quotient; it is then written
/// as zero.
#[derive(Clone, Copy, Debug, PartialEq, Eq)]
pub struct Ratio {
    pub num: i128,
    pub den: i128,
}

impl Ratio {
    /// The quotient in thousandths, rounded to the nearest whole thousandth:
    /// what a writer with three decimal places makes of it.
    pub open spec fn thousandths(self) -> int {
        occupancy(self.num as int, self.den as int)
    }
}

/// One row of a report: a snapshot diffed against the one before it.
///
/// The switch counts, fault counts and CPU times are what was added since
/// the previous snapshot; time stamp, memory sizes and process attributes
/// are those of the current one. Times are in clock ticks. The occupancy is
/// the quotient of the two total times of the row, held exactly.
#[derive(Clone, Copy, Debug, PartialEq, Eq)]
pub struct Record {
    pub timestamp: i64,
    pub pss: i64,
    pub vm_rss: i64,
    pub vm_anon: i64,
    pub vm_file: i64,
    pub vm_shmem: i64,
    pub vm_swap: i64,
    pub voluntary_ctxt_switches: i128,
    pub nonvoluntary_ctxt_switches: i128,
    pub minflt: i128,
    pub majflt: i128,
    pub utime: i128,
    pub stime: i128,
    pub totalcputime: i128,
    pub global_utime: i128,
    pub global_stime: i128,
    pub global_total_cpu_time: i128,
    pub cpu_occupancy: Ratio,
    pub priority: i64,
    pub nice: i64,
    pub num_threads: i64,
    pub start_time: i64,
}

/// The share of the host's CPU time that the process took, rounded to
/// whole thousandths for writing: the time `process` that the process used
/// over the time `host` that the host used, to the nearest thousandth. It is
/// zero where the host used no time.
pub open spec fn occupancy(process: int, host: int) -> int {
    if host > 0 {
        thousandths(process, host)
    } else if host < 0 {
        thousandths(-process, -host)
    } else {
        0
    }
}

/// The row for the snapshot `cur`, given the snapshot `prev` before it.
pub open spec fn difference(prev: Snapshot, cur: Snapshot) -> Record {
    Record {
        timestamp: cur.timestamp,
        pss: cur.pss,
        vm_rss: cur.vm_rss,
        vm_anon: cur.vm_anon,
        vm_file: cur.vm_file,
        vm_shmem: cur.vm_shmem,
        vm_swap: cur.vm_swap,
        voluntary_ctxt_switches: (cur.voluntary_ctxt_switches - prev.voluntary_ctxt_switches) as i128,
        nonvoluntary_ctxt_switches: (cur.nonvoluntary_ctxt_switches
            - prev.nonvoluntary_ctxt_switches) as i128,
        minflt: (cur.minflt - prev.minflt) as i128,
        majflt: (cur.majflt - prev.majflt) as i128,
        utime: (cur.utime - prev.utime) as i128,
        stime: (cur.stime - prev.stime) as i128,
        totalcputime: (cur.total_cpu() - prev.total_cpu()) as i128,
        global_utime: (cur.global_utime - prev.global_utime) as i128,
        global_stime: (cur.global_stime - prev.global_stime) as i128,
        global_total_cpu_time: (cur.global_total_cpu() - prev.global_total_cpu()) as i128,
        cpu_occupancy: Ratio {
            num: (cur.total_cpu() - prev.total_cpu()) as i128,
            den: (cur.global_total_cpu() - prev.global_total_cpu()) as i128,
        },
        priority: cur.priority,
        nice: cur.nice,
        num_threads: cur.num_threads,
        start_time: cur.start_time,
    }
}

/// A row holds, for every cumulative field, the current value less the
/// previous one, and takes the other fields from the current snapshot. Its
/// occupancy is the quotient of its own two total times, unrounded: the
/// time the process used over the time the host used.
pub proof fn lemma_difference_fields(prev: Snapshot, cur: Snapshot)
    ensures
        ({
            let r = difference(prev, cur);
            &&& r.voluntary_ctxt_switches == cur.voluntary_ctxt_switches
                - prev.voluntary_ctxt_switches
            &&& r.nonvoluntary_ctxt_switches == cur.nonvoluntary_ctxt_switches
                - prev.nonvoluntary_ctxt_switches
            &&& r.minflt == cur.minflt - prev.minflt
            &&& r.majflt == cur.majflt - prev.majflt
            &&& r.utime == cur.utime - prev.utime
            &&& r.stime == cur.stime - prev.stime
            &&& r.totalcputime == r.utime + r.stime
            &&& r.global_utime == cur.global_utime - prev.global_utime
            &&& r.global_stime == cur.global_stime - prev.global_stime
            &&& r.global_total_cpu_time == r.global_utime + r.global_stime
            &&& r.cpu_occupancy.num == r.totalcputime
            &&& r.cpu_occupancy.num == cur.total_cpu() - prev.total_cpu()
            &&& r.cpu_occupancy.den == r.global_total_cpu_time
            &&& r.cpu_occupancy.den == cur.global_total_cpu() - prev.global_total_cpu()
        }),
{
}

/// Counters that did not go back give a row without a negative difference,
/// and an occupancy that is not negative: neither as it is held nor as it
/// is written.
pub proof fn lemma_difference_nonnegative(prev: Snapshot, cur: Snapshot)
    requires
        prev.voluntary_ctxt_switches <= cur.voluntary_ctxt_switches,
        prev.nonvoluntary_ctxt_switches <= cur.nonvoluntary_ctxt_switches,
        prev.minflt <= cur.minflt,
        prev.majflt <= cur.majflt,
        prev.utime <= cur.utime,
        prev.stime <= cur.stime,
        prev.global_utime <= cur.global_utime,
        prev.global_stime <= cur.global_stime,
    ensures
        ({
            let r = difference(prev, cur);
            &&& r.voluntary_ctxt_switches >= 0
            &&& r.nonvoluntary_ctxt_switches >= 0
            &&& r.minflt >= 0
            &&& r.majflt >= 0
            &&& r.utime >= 0
            &&& r.stime >= 0
            &&& r.totalcputime >= 0
            &&& r.global_utime >= 0
            &&& r.global_stime >= 0
            &&& r.global_total_cpu_time >= 0
            &&& r.cpu_occupancy.num >= 0
            &&& r.cpu_occupancy.den >= 0
            &&& r.cpu_occupancy.thousandths() >= 0
        }),
{
}

/// The occupancy as it is written is the nearest thousandth to the ratio
/// of the two times: within half a thousandth of it, and exact where the
/// ratio is a whole number of thousandths.
pub proof fn lemma_occupancy_nearest(process: int, host: int)
    requires
        host > 0,
    ensures
        -host <= 2 * (1000 * process - occupancy(process, host) * host) <= host,
        (1000 * process) % host == 0 ==> occupancy(process, host) * host == 1000 * process,
{
    lemma_thousandths_nearest(process, host);
    if (1000 * process) % host == 0 {
        let n: int = if process >= 0 {
            1000 * process
        } else {
            1000 * (-process)
        };
        assert(n % host == 0) by {
            if process < 0 {
                vstd::arithmetic::div_mod::lemma_fundamental_div_mod(1000 * process, host);
                let q = (1000 * process) / host;
                assert(n == host * (-q)) by (nonlinear_arith)
                    requires
                        1000 * process == host * q,
                        n == -(1000 * process),
                ;
                vstd::arithmetic::div_mod::lemma_fundamental_div_mod_converse(n, host, -q, 0);
            }
        }
        vstd::arithmetic::div_mod::lemma_fundamental_div_mod(n, host);
        assert(host * (n / host) == (n / host) * host) by (nonlinear_arith);
        if process < 0 {
            assert((-(n / host)) * host == -((n / host) * host)) by (nonlinear_arith);
        }
    }
}

impl Record {
    /// The row for the snapshot `cur`, given the snapshot `prev` before it.
    pub fn between(prev: &Snapshot, cur: &Snapshot) -> (r: Record)
        ensures
            r == difference(*prev, *cur),
    {
        let total: i128 = (cur.utime as i128 + cur.stime as i128) - (prev.utime as i128
            + prev.stime as i128);
        let global: i128 = (cur.global_utime as i128 + cur.global_stime as i128) - (
        prev.global_utime as i128 + prev.global_stime as i128);
        Record {
            timestamp: cur.timestamp,
            pss: cur.pss,
            vm_rss: cur.vm_rss,
            vm_anon: cur.vm_anon,
            vm_file: cur.vm_file,
            vm_shmem: cur.vm_shmem,
            vm_swap: cur.vm_swap,
            voluntary_ctxt_switches: cur.voluntary_ctxt_switches as i128
                - prev.voluntary_ctxt_switches as i128,
            nonvoluntary_ctxt_switches: cur.nonvoluntary_ctxt_switches as i128
                - prev.nonvoluntary_ctxt_switches as i128,
            minflt: cur.minflt as i128 - prev.minflt as i128,
            majflt: cur.majflt as i128 - prev.majflt as i128,
            utime: cur.utime as i128 - prev.utime as i128,
            stime: cur.stime as i128 - prev.stime as i128,
            totalcputime: total,
            global_utime: cur.global_utime as i128 - prev.global_utime as i128,
            global_stime: cur.global_stime as i128 - prev.global_stime as i128,
            global_total_cpu_time: global,
            cpu_occupancy: Ratio { num: total, den: global },
            priority: cur.priority,
            nice: cur.nice,
            num_threads: cur.num_threads,
            start_time: cur.start_time,
        }
    }
}

} // verus!
