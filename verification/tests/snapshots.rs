use procutils::error::{Field, Source, TraceError};
use procutils::fields::{StatCounters, StatusValues};
use procutils::snapshot::{
    read_thread, read_threads, sum_threads, take_snapshot, Snapshot, ThreadSample, ThreadText,
    TickSources,
};

fn status_text(rss: i64, switches: u64) -> String {
    format!(
        "Name:\tworker\nVmRSS:\t{} kB\nRssAnon:\t{} kB\nRssFile:\t{} kB\nRssShmem:\t{} kB\n\
         VmSwap:\t{} kB\nvoluntary_ctxt_switches:\t{}\nnonvoluntary_ctxt_switches:\t{}\n",
        rss,
        rss + 1,
        rss + 2,
        rss + 3,
        rss + 4,
        switches,
        switches + 1
    )
}

fn stat_text(minflt: u64, majflt: u64, utime: u64, stime: u64, priority: i64) -> String {
    format!(
        "77 (worker) S 1 77 77 0 -1 4194560 {} 0 {} 0 {} {} 0 0 {} -5 2 0 4242 1000 250",
        minflt, majflt, utime, stime, priority
    )
}

fn thread(status: &str, stat: &str) -> ThreadText {
    ThreadText { status: Some(String::from(status)), stat: Some(String::from(stat)) }
}

fn sample(rss: i64, minflt: u64) -> ThreadSample {
    ThreadSample {
        status: StatusValues {
            vm_rss: rss,
            vm_anon: 0,
            vm_file: 0,
            vm_shmem: 0,
            vm_swap: 0,
            voluntary_ctxt_switches: 0,
            nonvoluntary_ctxt_switches: 0,
        },
        counters: StatCounters { minflt, majflt: 0, utime: 0, stime: 0 },
    }
}

fn sources(threads: Vec<ThreadText>) -> TickSources {
    TickSources {
        global_stat: Some(String::from("cpu  1000 5 300 9000\ncpu0 1000 5 300 9000\n")),
        smaps: Some(String::from("Pss:\t40 kB\nPss:\t2 kB\n")),
        process_stat: Some(stat_text(0, 0, 0, 0, 20)),
        threads: Some(threads),
    }
}

#[test]
fn two_threads_with_resident_sets_of_100_and_250_sum_to_350() {
    let threads = vec![
        thread("VmRSS:\t100 kB\n", ""),
        thread("VmRSS:\t250 kB\n", ""),
    ];
    let snapshot = take_snapshot(0, &sources(threads)).unwrap();
    assert_eq!(snapshot.vm_rss, 350);
}

#[test]
fn a_snapshot_sums_the_threads_and_takes_the_rest_from_the_process() {
    let threads = vec![
        thread(&status_text(100, 10), &stat_text(5, 1, 30, 10, 1)),
        thread(&status_text(250, 20), &stat_text(7, 2, 40, 20, 2)),
        thread(&status_text(1, 1), &stat_text(1, 1, 1, 1, 3)),
    ];
    assert_eq!(
        take_snapshot(30, &sources(threads)),
        Ok(Snapshot {
            timestamp: 30,
            pss: 42,
            vm_rss: 351,
            vm_anon: 354,
            vm_file: 357,
            vm_shmem: 360,
            vm_swap: 363,
            voluntary_ctxt_switches: 31,
            nonvoluntary_ctxt_switches: 34,
            minflt: 13,
            majflt: 4,
            utime: 71,
            stime: 31,
            global_utime: 1000,
            global_stime: 300,
            priority: 20,
            nice: -5,
            num_threads: 2,
            start_time: 4242,
        })
    );
}

#[test]
fn a_process_without_threads_has_zero_sums() {
    let snapshot = take_snapshot(5, &sources(Vec::new())).unwrap();
    assert_eq!(snapshot.timestamp, 5);
    assert_eq!(snapshot.vm_rss, 0);
    assert_eq!(snapshot.minflt, 0);
    assert_eq!(snapshot.utime, 0);
    assert_eq!(snapshot.pss, 42);
    assert_eq!(snapshot.priority, 20);
}

#[test]
fn a_thread_that_vanished_is_left_out() {
    let gone_status = ThreadText { status: None, stat: Some(stat_text(100, 100, 100, 100, 0)) };
    let gone_stat = ThreadText { status: Some(status_text(1000, 1000)), stat: None };
    let gone = ThreadText { status: None, stat: None };
    let threads = vec![
        gone_status,
        thread(&status_text(100, 10), &stat_text(5, 1, 30, 10, 1)),
        gone_stat,
        gone,
    ];
    let snapshot = take_snapshot(0, &sources(threads)).unwrap();
    assert_eq!(snapshot.vm_rss, 100);
    assert_eq!(snapshot.voluntary_ctxt_switches, 10);
    assert_eq!(snapshot.minflt, 5);
    assert_eq!(snapshot.utime, 30);
}

#[test]
fn a_thread_that_vanished_is_not_read() {
    let t = ThreadText { status: Some(String::from("VmRSS:\tbroken")), stat: None };
    assert_eq!(read_thread(&t), Ok(None));
    let t = ThreadText { status: None, stat: Some(String::from("1 2 3 4 5 6 7 8 9 x 11 12 13 14 15")) };
    assert_eq!(read_thread(&t), Ok(None));
}

#[test]
fn a_missing_text_of_the_process_ends_the_tick() {
    let mut s = sources(Vec::new());
    s.global_stat = None;
    assert_eq!(take_snapshot(0, &s), Err(TraceError::Read(Source::GlobalStat)));
    let mut s = sources(Vec::new());
    s.smaps = None;
    assert_eq!(take_snapshot(0, &s), Err(TraceError::Read(Source::Smaps)));
    let mut s = sources(Vec::new());
    s.process_stat = None;
    assert_eq!(take_snapshot(0, &s), Err(TraceError::Read(Source::ProcessStat)));
    let mut s = sources(Vec::new());
    s.threads = None;
    assert_eq!(take_snapshot(0, &s), Err(TraceError::Read(Source::TaskList)));
}

#[test]
fn the_texts_are_taken_in_a_fixed_order() {
    let s = TickSources { global_stat: None, smaps: None, process_stat: None, threads: None };
    assert_eq!(take_snapshot(0, &s), Err(TraceError::Read(Source::GlobalStat)));
    let s = TickSources {
        global_stat: Some(String::from("cpu  x")),
        smaps: None,
        process_stat: None,
        threads: None,
    };
    assert_eq!(take_snapshot(0, &s), Err(TraceError::Parse(Field::GlobalUtime)));
    let s = TickSources {
        global_stat: Some(String::new()),
        smaps: Some(String::from("Pss:\tx")),
        process_stat: None,
        threads: None,
    };
    assert_eq!(take_snapshot(0, &s), Err(TraceError::Parse(Field::Pss)));
    let s = TickSources {
        global_stat: Some(String::new()),
        smaps: Some(String::new()),
        process_stat: Some(String::from("1 2 3 4 5 6 7 8 9 10 11 12 13 14 15")),
        threads: None,
    };
    assert_eq!(take_snapshot(0, &s), Err(TraceError::Parse(Field::Priority)));
}

#[test]
fn a_malformed_thread_text_ends_the_tick() {
    let threads = vec![
        thread("VmRSS:\t100 kB\n", ""),
        thread("VmRSS:\tnone kB\n", ""),
    ];
    assert_eq!(take_snapshot(0, &sources(threads)), Err(TraceError::Parse(Field::VmRss)));
    let threads = vec![thread("", "1 2 3 4 5 6 7 8 9 10 11 12 13 14 x")];
    assert_eq!(take_snapshot(0, &sources(threads)), Err(TraceError::Parse(Field::Stime)));
}

#[test]
fn the_first_malformed_thread_decides() {
    let threads = vec![
        thread("VmSwap:\tx", ""),
        thread("VmRSS:\tx", ""),
    ];
    assert_eq!(read_threads(&threads), Err(TraceError::Parse(Field::VmSwap)));
}

#[test]
fn threads_are_read_in_order() {
    let threads = vec![
        thread("VmRSS:\t1 kB", ""),
        ThreadText { status: None, stat: None },
        thread("VmRSS:\t2 kB", ""),
    ];
    let samples = read_threads(&threads).unwrap();
    assert_eq!(samples.len(), 2);
    assert_eq!(samples[0].status.vm_rss, 1);
    assert_eq!(samples[1].status.vm_rss, 2);
}

#[test]
fn sums_of_no_samples_are_zero() {
    assert_eq!(sum_threads(&Vec::new()), Ok(sample(0, 0)));
}

#[test]
fn a_sum_that_does_not_fit_is_refused() {
    let samples = vec![sample(i64::MAX, 0), sample(1, 0)];
    assert_eq!(sum_threads(&samples), Err(TraceError::Overflow(Field::VmRss)));
    let samples = vec![sample(i64::MIN, 0), sample(-1, 0)];
    assert_eq!(sum_threads(&samples), Err(TraceError::Overflow(Field::VmRss)));
    let samples = vec![sample(0, u64::MAX), sample(0, 1)];
    assert_eq!(sum_threads(&samples), Err(TraceError::Overflow(Field::Minflt)));
    let samples = vec![sample(i64::MAX, u64::MAX), sample(1, 1)];
    assert_eq!(sum_threads(&samples), Err(TraceError::Overflow(Field::VmRss)));
}

#[test]
fn a_sum_that_fits_in_the_end_is_accepted() {
    let samples = vec![sample(i64::MAX, u64::MAX), sample(1, 0), sample(-1, 0)];
    assert_eq!(sum_threads(&samples), Ok(sample(i64::MAX, u64::MAX)));
}

#[test]
fn every_summed_field_is_checked() {
    let zero = sample(0, 0);
    let check = |a: ThreadSample, b: ThreadSample, f: Field| {
        assert_eq!(sum_threads(&vec![a, b]), Err(TraceError::Overflow(f)));
    };
    let mut a = zero;
    let mut b = zero;
    a.status.vm_anon = i64::MAX;
    b.status.vm_anon = 1;
    check(a, b, Field::RssAnon);
    let mut a = zero;
    let mut b = zero;
    a.status.vm_file = i64::MAX;
    b.status.vm_file = 1;
    check(a, b, Field::RssFile);
    let mut a = zero;
    let mut b = zero;
    a.status.vm_shmem = i64::MAX;
    b.status.vm_shmem = 1;
    check(a, b, Field::RssShmem);
    let mut a = zero;
    let mut b = zero;
    a.status.vm_swap = i64::MAX;
    b.status.vm_swap = 1;
    check(a, b, Field::VmSwap);
    let mut a = zero;
    let mut b = zero;
    a.status.voluntary_ctxt_switches = u64::MAX;
    b.status.voluntary_ctxt_switches = 1;
    check(a, b, Field::VoluntaryCtxtSwitches);
    let mut a = zero;
    let mut b = zero;
    a.status.nonvoluntary_ctxt_switches = u64::MAX;
    b.status.nonvoluntary_ctxt_switches = 1;
    check(a, b, Field::NonvoluntaryCtxtSwitches);
    let mut a = zero;
    let mut b = zero;
    a.counters.majflt = u64::MAX;
    b.counters.majflt = 1;
    check(a, b, Field::Majflt);
    let mut a = zero;
    let mut b = zero;
    a.counters.utime = u64::MAX;
    b.counters.utime = 1;
    check(a, b, Field::Utime);
    let mut a = zero;
    let mut b = zero;
    a.counters.stime = u64::MAX;
    b.counters.stime = 1;
    check(a, b, Field::Stime);
}
