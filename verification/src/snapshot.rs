//! One tick of one process: the texts read for it, the samples of its
//! threads, their sum, and the snapshot made of all of them.

use crate::error::{Field, Source, TraceError};
use crate::fields::{
    cpu_times, parse_cpu_times, parse_process_attributes, parse_pss, parse_stat_counters,
    parse_status, process_attributes, pss_value, stat_counters, status_values, CpuTimes,
    ProcessAttributes, StatCounters, StatusValues,
};
use vstd::prelude::*;

verus! {

/// The two texts read for one thread. `None` stands for a text that could
/// not be read, as happens when the thread ends while the process is sampled.
#[derive(Clone, Debug, PartialEq, Eq)]
pub struct ThreadText {
    pub status: Option<String>,
    pub stat: Option<String>,
}

/// All that was read for one tick. `None` stands for what could not be read.
#[derive(Clone, Debug, PartialEq, Eq)]
pub struct TickSources {
    /// The host's CPU accounting.
    pub global_stat: Option<String>,
    /// The memory map summary of the process.
    pub smaps: Option<String>,
    /// The stat record of the process itself.
    pub process_stat: Option<String>,
    /// The texts of the threads of the process, in the order they were listed.
    pub threads: Option<Vec<ThreadText>>,
}

/// What one thread reports, or the sum of what several report.
#[derive(Clone, Copy, Debug, PartialEq, Eq)]
pub struct ThreadSample {
    pub status: StatusValues,
    pub counters: StatCounters,
}

/// One process at one tick. Times are in clock ticks. The memory sizes,
/// switch counts, fault counts and CPU times are sums over the threads of
/// the process; priority, nice value, number of threads and start time are
/// those of the process itself.
#[derive(Clone, Copy, Debug, PartialEq, Eq)]
pub struct Snapshot {
    pub timestamp: i64,
    pub pss: i64,
    pub vm_rss: i64,
    pub vm_anon: i64,
    pub vm_file: i64,
    pub vm_shmem: i64,
    pub vm_swap: i64,
    pub voluntary_ctxt_switches: u64,
    pub nonvoluntary_ctxt_switches: u64,
    pub minflt: u64,
    pub majflt: u64,
    pub utime: u64,
    pub stime: u64,
    pub global_utime: u64,
    pub global_stime: u64,
    pub priority: i64,
    pub nice: i64,
    pub num_threads: i64,
    pub start_time: i64,
}

impl Snapshot {
    /// User and system time of the process together.
    pub open spec fn total_cpu(self) -> int {
        self.utime + self.stime
    }

    /// User and system time of the host together.
    pub open spec fn global_total_cpu(self) -> int {
        self.global_utime + self.global_stime
    }
}

/// The sample of one thread. A thread of which a text could not be read has
/// none; it is passed over.
pub open spec fn sample_of(t: ThreadText) -> Result<Option<ThreadSample>, TraceError> {
    match (t.status, t.stat) {
        (Some(status), Some(stat)) => match status_values(status@) {
            Ok(values) => match stat_counters(stat@) {
                Ok(counters) => Ok(Some(ThreadSample { status: values, counters })),
                Err(e) => Err(e),
            },
            Err(e) => Err(e),
        },
        _ => Ok(None),
    }
}

/// The samples of the threads `ts`, in order, after the samples `acc`. The
/// first thread whose text fails decides.
pub open spec fn samples_from(ts: Seq<ThreadText>, acc: Seq<ThreadSample>) -> Result<
    Seq<ThreadSample>,
    TraceError,
>
    decreases ts.len(),
{
    if ts.len() == 0 {
        Ok(acc)
    } else {
        match sample_of(ts[0]) {
            Ok(Some(sample)) => samples_from(ts.skip(1), acc.push(sample)),
            Ok(None) => samples_from(ts.skip(1), acc),
            Err(e) => Err(e),
        }
    }
}

/// The samples of the threads of a process.
pub open spec fn thread_samples(ts: Seq<ThreadText>) -> Result<Seq<ThreadSample>, TraceError> {
    samples_from(ts, Seq::empty())
}

/// The field is a memory size of a thread.
pub open spec fn is_size(f: Field) -> bool {
    f == Field::VmRss || f == Field::RssAnon || f == Field::RssFile || f == Field::RssShmem || f
        == Field::VmSwap
}

/// What a sample holds for a field that is summed over threads.
pub open spec fn sample_value(t: ThreadSample, f: Field) -> int {
    match f {
        Field::VmRss => t.status.vm_rss as int,
        Field::RssAnon => t.status.vm_anon as int,
        Field::RssFile => t.status.vm_file as int,
        Field::RssShmem => t.status.vm_shmem as int,
        Field::VmSwap => t.status.vm_swap as int,
        Field::VoluntaryCtxtSwitches => t.status.voluntary_ctxt_switches as int,
        Field::NonvoluntaryCtxtSwitches => t.status.nonvoluntary_ctxt_switches as int,
        Field::Minflt => t.counters.minflt as int,
        Field::Majflt => t.counters.majflt as int,
        Field::Utime => t.counters.utime as int,
        Field::Stime => t.counters.stime as int,
        _ => 0,
    }
}

/// The sum of a field over samples.
pub open spec fn field_total(samples: Seq<ThreadSample>, f: Field) -> int
    decreases samples.len(),
{
    if samples.len() == 0 {
        0
    } else {
        field_total(samples.drop_last(), f) + sample_value(samples.last(), f)
    }
}

/// The sum `v` of field `f` fits the type of the field.
pub open spec fn total_fits(f: Field, v: int) -> bool {
    if is_size(f) {
        i64::MIN <= v <= i64::MAX
    } else {
        0 <= v <= u64::MAX
    }
}

/// The first field, in the order of the report, whose sum over the samples
/// does not fit its type.
pub open spec fn first_overflow(samples: Seq<ThreadSample>) -> Option<Field> {
    if !total_fits(Field::VmRss, field_total(samples, Field::VmRss)) {
        Some(Field::VmRss)
    } else if !total_fits(Field::RssAnon, field_total(samples, Field::RssAnon)) {
        Some(Field::RssAnon)
    } else if !total_fits(Field::RssFile, field_total(samples, Field::RssFile)) {
        Some(Field::RssFile)
    } else if !total_fits(Field::RssShmem, field_total(samples, Field::RssShmem)) {
        Some(Field::RssShmem)
    } else if !total_fits(Field::VmSwap, field_total(samples, Field::VmSwap)) {
        Some(Field::VmSwap)
    } else if !total_fits(
        Field::VoluntaryCtxtSwitches,
        field_total(samples, Field::VoluntaryCtxtSwitches),
    ) {
        Some(Field::VoluntaryCtxtSwitches)
    } else if !total_fits(
        Field::NonvoluntaryCtxtSwitches,
        field_total(samples, Field::NonvoluntaryCtxtSwitches),
    ) {
        Some(Field::NonvoluntaryCtxtSwitches)
    } else if !total_fits(Field::Minflt, field_total(samples, Field::Minflt)) {
        Some(Field::Minflt)
    } else if !total_fits(Field::Majflt, field_total(samples, Field::Majflt)) {
        Some(Field::Majflt)
    } else if !total_fits(Field::Utime, field_total(samples, Field::Utime)) {
        Some(Field::Utime)
    } else if !total_fits(Field::Stime, field_total(samples, Field::Stime)) {
        Some(Field::Stime)
    } else {
        None
    }
}

/// The samples summed field by field.
pub open spec fn totals(samples: Seq<ThreadSample>) -> Result<ThreadSample, TraceError> {
    match first_overflow(samples) {
        Some(f) => Err(TraceError::Overflow(f)),
        None => Ok(
            ThreadSample {
                status: StatusValues {
                    vm_rss: field_total(samples, Field::VmRss) as i64,
                    vm_anon: field_total(samples, Field::RssAnon) as i64,
                    vm_file: field_total(samples, Field::RssFile) as i64,
                    vm_shmem: field_total(samples, Field::RssShmem) as i64,
                    vm_swap: field_total(samples, Field::VmSwap) as i64,
                    voluntary_ctxt_switches: field_total(
                        samples,
                        Field::VoluntaryCtxtSwitches,
                    ) as u64,
                    nonvoluntary_ctxt_switches: field_total(
                        samples,
                        Field::NonvoluntaryCtxtSwitches,
                    ) as u64,
                },
                counters: StatCounters {
                    minflt: field_total(samples, Field::Minflt) as u64,
                    majflt: field_total(samples, Field::Majflt) as u64,
                    utime: field_total(samples, Field::Utime) as u64,
                    stime: field_total(samples, Field::Stime) as u64,
                },
            },
        ),
    }
}

/// The snapshot made of the parts read for one tick.
pub open spec fn assemble(
    timestamp: i64,
    cpu: CpuTimes,
    pss: i64,
    attributes: ProcessAttributes,
    sum: ThreadSample,
) -> Snapshot {
    Snapshot {
        timestamp,
        pss,
        vm_rss: sum.status.vm_rss,
        vm_anon: sum.status.vm_anon,
        vm_file: sum.status.vm_file,
        vm_shmem: sum.status.vm_shmem,
        vm_swap: sum.status.vm_swap,
        voluntary_ctxt_switches: sum.status.voluntary_ctxt_switches,
        nonvoluntary_ctxt_switches: sum.status.nonvoluntary_ctxt_switches,
        minflt: sum.counters.minflt,
        majflt: sum.counters.majflt,
        utime: sum.counters.utime,
        stime: sum.counters.stime,
        global_utime: cpu.user,
        global_stime: cpu.system,
        priority: attributes.priority,
        nice: attributes.nice,
        num_threads: attributes.num_threads,
        start_time: attributes.start_time,
    }
}

/// The snapshot that the texts of one tick amount to. The texts are taken
/// in a fixed order: the host's CPU accounting, the memory map summary, the
/// stat record of the process, the threads. The first that is missing or
/// fails decides; a thread's text that is missing only leaves the thread out.
pub open spec fn snapshot_of(timestamp: i64, sources: TickSources) -> Result<Snapshot, TraceError> {
    match sources.global_stat {
        None => Err(TraceError::Read(Source::GlobalStat)),
        Some(global) => match cpu_times(global@) {
            Err(e) => Err(e),
            Ok(cpu) => match sources.smaps {
                None => Err(TraceError::Read(Source::Smaps)),
                Some(smaps) => match pss_value(smaps@) {
                    Err(e) => Err(e),
                    Ok(pss) => match sources.process_stat {
                        None => Err(TraceError::Read(Source::ProcessStat)),
                        Some(stat) => match process_attributes(stat@) {
                            Err(e) => Err(e),
                            Ok(attributes) => match sources.threads {
                                None => Err(TraceError::Read(Source::TaskList)),
                                Some(threads) => match thread_samples(threads@) {
                                    Err(e) => Err(e),
                                    Ok(samples) => match totals(samples) {
                                        Err(e) => Err(e),
                                        Ok(sum) => Ok(
                                            assemble(timestamp, cpu, pss, attributes, sum),
                                        ),
                                    },
                                },
                            },
                        },
                    },
                },
            },
        },
    }
}

/// A snapshot carries the time stamp it was taken with.
pub proof fn lemma_snapshot_stamp(timestamp: i64, sources: TickSources)
    ensures
        snapshot_of(timestamp, sources) matches Ok(snapshot) ==> snapshot.timestamp == timestamp,
{
}

/// Adding a sample adds its value to the sum of every field.
pub proof fn lemma_total_push(samples: Seq<ThreadSample>, sample: ThreadSample, f: Field)
    ensures
        field_total(samples.push(sample), f) == field_total(samples, f) + sample_value(sample, f),
{
    assert(samples.push(sample).drop_last() =~= samples);
}

/// The sum of a field over two samples is what the one holds and what the
/// other holds, added.
pub proof fn lemma_total_of_two(a: ThreadSample, b: ThreadSample, f: Field)
    ensures
        field_total(seq![a, b], f) == sample_value(a, f) + sample_value(b, f),
{
    lemma_total_push(seq![a], b, f);
    lemma_total_push(Seq::empty(), a, f);
    assert(seq![a].push(b) =~= seq![a, b]);
    assert(Seq::<ThreadSample>::empty().push(a) =~= seq![a]);
}

/// The sum of a field over samples is bounded by their number.
pub proof fn lemma_total_bound(samples: Seq<ThreadSample>, f: Field)
    ensures
        is_size(f) ==> -(samples.len() * 0x8000_0000_0000_0000) <= field_total(samples, f)
            <= samples.len() * 0x8000_0000_0000_0000,
        !is_size(f) ==> 0 <= field_total(samples, f) <= samples.len() * 0xffff_ffff_ffff_ffff,
    decreases samples.len(),
{
    if samples.len() > 0 {
        lemma_total_bound(samples.drop_last(), f);
    }
}

/// What the sums of all fields become when the next sample is taken in,
/// and how large they are before.
proof fn lemma_totals_step(samples: Seq<ThreadSample>, i: int)
    requires
        0 <= i < samples.len(),
    ensures
        forall|f: Field| #[trigger]
            field_total(samples.take(i + 1), f) == field_total(samples.take(i), f) + sample_value(
                samples[i],
                f,
            ),
        forall|f: Field|
            is_size(f) ==> -(i * 0x8000_0000_0000_0000) <= #[trigger] field_total(
                samples.take(i),
                f,
            ) <= i * 0x8000_0000_0000_0000,
        forall|f: Field|
            !is_size(f) ==> 0 <= #[trigger] field_total(samples.take(i), f) <= i
                * 0xffff_ffff_ffff_ffff,
{
    assert(samples.take(i).push(samples[i]) =~= samples.take(i + 1));
    assert forall|f: Field| #[trigger]
        field_total(samples.take(i + 1), f) == field_total(samples.take(i), f) + sample_value(
            samples[i],
            f,
        ) by {
        lemma_total_push(samples.take(i), samples[i], f);
    }
    assert forall|f: Field|
        is_size(f) implies -(i * 0x8000_0000_0000_0000) <= #[trigger] field_total(
        samples.take(i),
        f,
    ) <= i * 0x8000_0000_0000_0000 by {
        lemma_total_bound(samples.take(i), f);
    }
    assert forall|f: Field|
        !is_size(f) implies 0 <= #[trigger] field_total(samples.take(i), f) <= i
        * 0xffff_ffff_ffff_ffff by {
        lemma_total_bound(samples.take(i), f);
    }
}

/// Reads the two texts of one thread.
pub fn read_thread(t: &ThreadText) -> (r: Result<Option<ThreadSample>, TraceError>)
    ensures
        r == sample_of(*t),
{
    match (&t.status, &t.stat) {
        (Some(status), Some(stat)) => {
            let values = match parse_status(status.as_str()) {
                Ok(v) => v,
                Err(e) => {
                    return Err(e);
                },
            };
            let counters = match parse_stat_counters(stat.as_str()) {
                Ok(c) => c,
                Err(e) => {
                    return Err(e);
                },
            };
            Ok(Some(ThreadSample { status: values, counters }))
        },
        _ => Ok(None),
    }
}

/// Reads the texts of the threads of a process, in order.
pub fn read_threads(threads: &Vec<ThreadText>) -> (r: Result<Vec<ThreadSample>, TraceError>)
    ensures
        match r {
            Ok(samples) => thread_samples(threads@) == Ok::<Seq<ThreadSample>, TraceError>(
                samples@,
            ),
            Err(e) => thread_samples(threads@) == Err::<Seq<ThreadSample>, TraceError>(e),
        },
{
    let mut samples: Vec<ThreadSample> = Vec::new();
    let mut i: usize = 0;
    proof {
        assert(threads@.skip(0) =~= threads@);
    }
    while i < threads.len()
        invariant
            i <= threads.len(),
            thread_samples(threads@) == samples_from(threads@.skip(i as int), samples@),
        decreases threads.len() - i,
    {
        proof {
            assert(threads@.skip(i as int).skip(1) =~= threads@.skip(i + 1));
        }
        match read_thread(&threads[i]) {
            Ok(Some(sample)) => {
                samples.push(sample);
            },
            Ok(None) => {},
            Err(e) => {
                return Err(e);
            },
        }
        i = i + 1;
    }
    Ok(samples)
}

/// Sums samples field by field.
pub fn sum_threads(samples: &Vec<ThreadSample>) -> (r: Result<ThreadSample, TraceError>)
    ensures
        r == totals(samples@),
{
    let mut vm_rss: i128 = 0;
    let mut vm_anon: i128 = 0;
    let mut vm_file: i128 = 0;
    let mut vm_shmem: i128 = 0;
    let mut vm_swap: i128 = 0;
    let mut voluntary: u128 = 0;
    let mut nonvoluntary: u128 = 0;
    let mut minflt: u128 = 0;
    let mut majflt: u128 = 0;
    let mut utime: u128 = 0;
    let mut stime: u128 = 0;
    let mut i: usize = 0;
    while i < samples.len()
        invariant
            i <= samples.len(),
            vm_rss == field_total(samples@.take(i as int), Field::VmRss),
            vm_anon == field_total(samples@.take(i as int), Field::RssAnon),
            vm_file == field_total(samples@.take(i as int), Field::RssFile),
            vm_shmem == field_total(samples@.take(i as int), Field::RssShmem),
            vm_swap == field_total(samples@.take(i as int), Field::VmSwap),
            voluntary == field_total(samples@.take(i as int), Field::VoluntaryCtxtSwitches),
            nonvoluntary == field_total(samples@.take(i as int), Field::NonvoluntaryCtxtSwitches),
            minflt == field_total(samples@.take(i as int), Field::Minflt),
            majflt == field_total(samples@.take(i as int), Field::Majflt),
            utime == field_total(samples@.take(i as int), Field::Utime),
            stime == field_total(samples@.take(i as int), Field::Stime),
        decreases samples.len() - i,
    {
        proof {
            lemma_totals_step(samples@, i as int);
        }
        let t = samples[i];
        vm_rss = vm_rss + t.status.vm_rss as i128;
        vm_anon = vm_anon + t.status.vm_anon as i128;
        vm_file = vm_file + t.status.vm_file as i128;
        vm_shmem = vm_shmem + t.status.vm_shmem as i128;
        vm_swap = vm_swap + t.status.vm_swap as i128;
        voluntary = voluntary + t.status.voluntary_ctxt_switches as u128;
        nonvoluntary = nonvoluntary + t.status.nonvoluntary_ctxt_switches as u128;
        minflt = minflt + t.counters.minflt as u128;
        majflt = majflt + t.counters.majflt as u128;
        utime = utime + t.counters.utime as u128;
        stime = stime + t.counters.stime as u128;
        i = i + 1;
    }
    proof {
        assert(samples@.take(samples@.len() as int) =~= samples@);
    }
    if vm_rss < i64::MIN as i128 || vm_rss > i64::MAX as i128 {
        return Err(TraceError::Overflow(Field::VmRss));
    }
    if vm_anon < i64::MIN as i128 || vm_anon > i64::MAX as i128 {
        return Err(TraceError::Overflow(Field::RssAnon));
    }
    if vm_file < i64::MIN as i128 || vm_file > i64::MAX as i128 {
        return Err(TraceError::Overflow(Field::RssFile));
    }
    if vm_shmem < i64::MIN as i128 || vm_shmem > i64::MAX as i128 {
        return Err(TraceError::Overflow(Field::RssShmem));
    }
    if vm_swap < i64::MIN as i128 || vm_swap > i64::MAX as i128 {
        return Err(TraceError::Overflow(Field::VmSwap));
    }
    if voluntary > u64::MAX as u128 {
        return Err(TraceError::Overflow(Field::VoluntaryCtxtSwitches));
    }
    if nonvoluntary > u64::MAX as u128 {
        return Err(TraceError::Overflow(Field::NonvoluntaryCtxtSwitches));
    }
    if minflt > u64::MAX as u128 {
        return Err(TraceError::Overflow(Field::Minflt));
    }
    if majflt > u64::MAX as u128 {
        return Err(TraceError::Overflow(Field::Majflt));
    }
    if utime > u64::MAX as u128 {
        return Err(TraceError::Overflow(Field::Utime));
    }
    if stime > u64::MAX as u128 {
        return Err(TraceError::Overflow(Field::Stime));
    }
    Ok(
        ThreadSample {
            status: StatusValues {
                vm_rss: vm_rss as i64,
                vm_anon: vm_anon as i64,
                vm_file: vm_file as i64,
                vm_shmem: vm_shmem as i64,
                vm_swap: vm_swap as i64,
                voluntary_ctxt_switches: voluntary as u64,
                nonvoluntary_ctxt_switches: nonvoluntary as u64,
            },
            counters: StatCounters {
                minflt: minflt as u64,
                majflt: majflt as u64,
                utime: utime as u64,
                stime: stime as u64,
            },
        },
    )
}

/// Makes the snapshot of one tick out of the texts read for it.
///
/// A text of the process or of the host that is missing ends the tick with
/// `Read`; a text of a thread that is missing leaves the thread out of the
/// sums. A field that is present and holds no number ends it with `Parse`,
/// a sum that does not fit with `Overflow`.
pub fn take_snapshot(timestamp: i64, sources: &TickSources) -> (r: Result<Snapshot, TraceError>)
    ensures
        r == snapshot_of(timestamp, *sources),
{
    let cpu = match &sources.global_stat {
        None => {
            return Err(TraceError::Read(Source::GlobalStat));
        },
        Some(text) => match parse_cpu_times(text.as_str()) {
            Ok(cpu) => cpu,
            Err(e) => {
                return Err(e);
            },
        },
    };
    let pss = match &sources.smaps {
        None => {
            return Err(TraceError::Read(Source::Smaps));
        },
        Some(text) => match parse_pss(text.as_str()) {
            Ok(pss) => pss,
            Err(e) => {
                return Err(e);
            },
        },
    };
    let attributes = match &sources.process_stat {
        None => {
            return Err(TraceError::Read(Source::ProcessStat));
        },
        Some(text) => match parse_process_attributes(text.as_str()) {
            Ok(attributes) => attributes,
            Err(e) => {
                return Err(e);
            },
        },
    };
    let samples = match &sources.threads {
        None => {
            return Err(TraceError::Read(Source::TaskList));
        },
        Some(threads) => match read_threads(threads) {
            Ok(samples) => samples,
            Err(e) => {
                return Err(e);
            },
        },
    };
    let sum = match sum_threads(&samples) {
        Ok(sum) => sum,
        Err(e) => {
            return Err(e);
        },
    };
    Ok(
        Snapshot {
            timestamp,
            pss,
            vm_rss: sum.status.vm_rss,
            vm_anon: sum.status.vm_anon,
            vm_file: sum.status.vm_file,
            vm_shmem: sum.status.vm_shmem,
            vm_swap: sum.status.vm_swap,
            voluntary_ctxt_switches: sum.status.voluntary_ctxt_switches,
            nonvoluntary_ctxt_switches: sum.status.nonvoluntary_ctxt_switches,
            minflt: sum.counters.minflt,
            majflt: sum.counters.majflt,
            utime: sum.counters.utime,
            stime: sum.counters.stime,
            global_utime: cpu.user,
            global_stime: cpu.system,
            priority: attributes.priority,
            nice: attributes.nice,
            num_threads: attributes.num_threads,
            start_time: attributes.start_time,
        },
    )
}

} // verus!
