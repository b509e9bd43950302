use procutils::engine::{Phase, SampleEngine};
use procutils::error::{Source, TraceError};
use procutils::record::{Ratio, Record};
use procutils::snapshot::{Snapshot, ThreadText, TickSources};

fn snapshot(timestamp: i64, minflt: u64, utime: u64, host: u64) -> Snapshot {
    Snapshot {
        timestamp,
        pss: 1,
        vm_rss: 2,
        vm_anon: 3,
        vm_file: 4,
        vm_shmem: 5,
        vm_swap: 6,
        voluntary_ctxt_switches: 7,
        nonvoluntary_ctxt_switches: 8,
        minflt,
        majflt: 0,
        utime,
        stime: 0,
        global_utime: host,
        global_stime: 0,
        priority: 20,
        nice: 0,
        num_threads: 1,
        start_time: 9,
    }
}

fn sources(minflt: u64, utime: u64, host: u64) -> TickSources {
    TickSources {
        global_stat: Some(format!("cpu  {} 0 0 0\n", host)),
        smaps: Some(String::from("Pss:\t12 kB\n")),
        process_stat: Some(String::from("1 (p) S 0 0 0 0 0 0 0 0 0 0 0 0 0 0 20 0 1 0 9")),
        threads: Some(vec![ThreadText {
            status: Some(String::from("VmRSS:\t64 kB\n")),
            stat: Some(format!("1 (p) S 0 0 0 0 0 0 {} 0 0 0 {} 0 0 0 20 0 1 0 9", minflt, utime)),
        }]),
    }
}

fn run_to_the_end(duration: i64, interval: i64) -> (usize, Vec<Record>) {
    let mut engine = SampleEngine::new(1, duration, interval);
    let mut ticks = 0;
    while !engine.is_finished() {
        let tick = ticks as u64;
        let stamp = engine.elapsed();
        engine.observe(snapshot(stamp, 10 * tick, tick, 100 * tick));
        ticks += 1;
        assert!(ticks < 10_000);
    }
    (ticks, engine.finish().records)
}

#[test]
fn a_new_engine_seeds() {
    let engine = SampleEngine::new(42, 60, 10);
    assert_eq!(engine.pid(), 42);
    assert_eq!(engine.duration(), 60);
    assert_eq!(engine.interval(), 10);
    assert_eq!(engine.elapsed(), 0);
    assert_eq!(engine.phase(), Phase::Seeding);
    assert!(!engine.is_finished());
    assert!(engine.records().is_empty());
}

#[test]
fn the_first_tick_makes_no_row() {
    let mut engine = SampleEngine::new(1, 60, 10);
    assert_eq!(engine.observe(snapshot(0, 5, 5, 5)), None);
    assert!(engine.records().is_empty());
    assert_eq!(engine.phase(), Phase::Steady);
    assert_eq!(engine.elapsed(), 10);
}

#[test]
fn every_later_tick_makes_the_row_of_its_difference() {
    let mut engine = SampleEngine::new(1, 60, 10);
    let a = snapshot(0, 100, 10, 1000);
    let b = snapshot(10, 130, 12, 1020);
    let c = snapshot(20, 135, 12, 1040);
    assert_eq!(engine.observe(a), None);
    assert_eq!(engine.observe(b), Some(Record::between(&a, &b)));
    assert_eq!(engine.observe(c), Some(Record::between(&b, &c)));
    let rows = engine.records();
    assert_eq!(rows.len(), 2);
    assert_eq!(rows[0].minflt, 30);
    assert_eq!(rows[0].utime, 2);
    assert_eq!(rows[0].cpu_occupancy, Ratio { num: 2, den: 20 });
    assert_eq!(rows[0].timestamp, 10);
    assert_eq!(rows[1].minflt, 5);
    assert_eq!(rows[1].utime, 0);
    assert_eq!(rows[1].cpu_occupancy, Ratio { num: 0, den: 20 });
    assert_eq!(rows[1].timestamp, 20);
    assert_eq!(engine.elapsed(), 30);
}

#[test]
fn sixty_seconds_at_ten_second_ticks_make_five_rows() {
    let (ticks, rows) = run_to_the_end(60, 10);
    assert_eq!(ticks, 6);
    assert_eq!(rows.len(), 5);
    let stamps: Vec<i64> = rows.iter().map(|r| r.timestamp).collect();
    assert_eq!(stamps, vec![10, 20, 30, 40, 50]);
    for row in rows {
        assert_eq!(row.minflt, 10);
        assert_eq!(row.utime, 1);
        assert_eq!(row.global_utime, 100);
        assert_eq!(row.cpu_occupancy, Ratio { num: 1, den: 100 });
    }
}

#[test]
fn an_interval_that_divides_the_duration_gives_one_row_less_than_intervals() {
    let cases: [(i64, i64); 6] = [(1, 1), (10, 1), (10, 5), (10, 10), (99, 33), (1000, 8)];
    for (duration, interval) in cases {
        let (ticks, rows) = run_to_the_end(duration, interval);
        assert_eq!(ticks as i64, duration / interval);
        assert_eq!(rows.len() as i64, duration / interval - 1);
    }
}

#[test]
fn an_interval_that_does_not_divide_the_duration_rounds_the_ticks_up() {
    let (ticks, rows) = run_to_the_end(5, 2);
    assert_eq!(ticks, 3);
    assert_eq!(rows.len(), 2);
    let (ticks, rows) = run_to_the_end(1, 10);
    assert_eq!(ticks, 1);
    assert_eq!(rows.len(), 0);
    let (ticks, rows) = run_to_the_end(61, 10);
    assert_eq!(ticks, 7);
    assert_eq!(rows.len(), 6);
}

#[test]
fn a_run_without_time_takes_no_tick() {
    for duration in [0, -1, i64::MIN] {
        let mut engine = SampleEngine::new(1, duration, 10);
        assert!(engine.is_finished());
        assert_eq!(engine.phase(), Phase::Finished);
        assert_eq!(engine.observe(snapshot(0, 1, 1, 1)), None);
        assert_eq!(engine.elapsed(), 0);
        assert!(engine.finish().records.is_empty());
    }
}

#[test]
fn a_run_that_is_over_ignores_snapshots() {
    let mut engine = SampleEngine::new(1, 20, 10);
    engine.observe(snapshot(0, 0, 0, 0));
    engine.observe(snapshot(10, 1, 1, 10));
    assert!(engine.is_finished());
    assert_eq!(engine.phase(), Phase::Finished);
    assert_eq!(engine.observe(snapshot(20, 2, 2, 20)), None);
    assert_eq!(engine.elapsed(), 20);
    assert_eq!(engine.records().len(), 1);
}

#[test]
fn time_that_would_overflow_ends_the_run() {
    let mut engine = SampleEngine::new(1, i64::MAX, i64::MAX - 1);
    engine.observe(snapshot(0, 0, 0, 0));
    assert_eq!(engine.elapsed(), i64::MAX - 1);
    assert!(!engine.is_finished());
    assert!(engine.observe(snapshot(1, 0, 0, 0)).is_some());
    assert_eq!(engine.elapsed(), i64::MAX);
    assert!(engine.is_finished());
}

#[test]
fn an_interval_that_is_not_positive_never_ends_a_run() {
    let mut engine = SampleEngine::new(1, 1, 0);
    let mut i = 0;
    while i < 50 {
        engine.observe(snapshot(0, 0, 0, 0));
        i += 1;
    }
    assert_eq!(engine.elapsed(), 0);
    assert!(!engine.is_finished());
    assert_eq!(engine.records().len(), 49);
    let mut engine = SampleEngine::new(1, 1, i64::MIN);
    engine.observe(snapshot(0, 0, 0, 0));
    assert_eq!(engine.elapsed(), i64::MIN);
    engine.observe(snapshot(0, 0, 0, 0));
    assert_eq!(engine.elapsed(), i64::MIN);
    assert!(!engine.is_finished());
}

#[test]
fn a_tick_stamps_the_snapshot_with_the_nominal_time() {
    let mut engine = SampleEngine::new(7, 30, 10);
    assert_eq!(engine.tick(&sources(100, 10, 1000)), Ok(None));
    let row = engine.tick(&sources(130, 12, 1020)).unwrap().unwrap();
    assert_eq!(row.timestamp, 10);
    assert_eq!(row.minflt, 30);
    assert_eq!(row.utime, 2);
    assert_eq!(row.totalcputime, 2);
    assert_eq!(row.global_total_cpu_time, 20);
    assert_eq!(row.cpu_occupancy, Ratio { num: 2, den: 20 });
    assert_eq!(row.pss, 12);
    assert_eq!(row.vm_rss, 64);
    assert_eq!(row.priority, 20);
    assert_eq!(row.start_time, 9);
    let row = engine.tick(&sources(130, 12, 1020)).unwrap().unwrap();
    assert_eq!(row.timestamp, 20);
    assert_eq!(row.minflt, 0);
    assert!(engine.is_finished());
    assert_eq!(engine.tick(&sources(999, 99, 9999)), Ok(None));
    let run = engine.finish();
    assert_eq!(run.pid, 7);
    assert_eq!(run.records.len(), 2);
}

#[test]
fn a_tick_that_fails_leaves_the_run_as_it_was() {
    let mut engine = SampleEngine::new(7, 30, 10);
    assert_eq!(engine.tick(&sources(100, 10, 1000)), Ok(None));
    let mut broken = sources(130, 12, 1020);
    broken.smaps = None;
    assert_eq!(engine.tick(&broken), Err(TraceError::Read(Source::Smaps)));
    assert_eq!(engine.elapsed(), 10);
    assert_eq!(engine.phase(), Phase::Steady);
    assert!(engine.records().is_empty());
    let row = engine.tick(&sources(130, 12, 1020)).unwrap().unwrap();
    assert_eq!(row.timestamp, 10);
    assert_eq!(row.minflt, 30);
}

#[test]
fn a_run_that_is_over_reads_nothing() {
    let mut engine = SampleEngine::new(7, 0, 10);
    let nothing = TickSources { global_stat: None, smaps: None, process_stat: None, threads: None };
    assert_eq!(engine.tick(&nothing), Ok(None));
}

#[test]
fn two_engines_do_not_touch_each_other() {
    let mut one = SampleEngine::new(1, 30, 10);
    let mut two = SampleEngine::new(2, 30, 10);
    one.tick(&sources(0, 0, 0)).unwrap();
    let nothing = TickSources { global_stat: None, smaps: None, process_stat: None, threads: None };
    assert!(two.tick(&nothing).is_err());
    let row = one.tick(&sources(5, 1, 10)).unwrap().unwrap();
    assert_eq!(row.minflt, 5);
    assert_eq!(one.records().len(), 1);
    assert_eq!(two.records().len(), 0);
    assert_eq!(two.elapsed(), 0);
}

#[test]
fn the_rows_of_a_run_taken_from_texts_carry_the_nominal_times() {
    let cases: [(i64, i64); 4] = [(60, 10), (10, 1), (99, 33), (7, 7)];
    for (duration, interval) in cases {
        let mut engine = SampleEngine::new(3, duration, interval);
        let mut ticks: u64 = 0;
        while !engine.is_finished() {
            engine.tick(&sources(10 * ticks, ticks, 100 * ticks)).unwrap();
            ticks += 1;
            assert!(ticks < 1000);
        }
        let run = engine.finish();
        assert_eq!(run.records.len() as i64, duration / interval - 1);
        for (i, row) in run.records.iter().enumerate() {
            assert_eq!(row.timestamp, (i as i64 + 1) * interval);
            assert_eq!(row.minflt, 10);
        }
    }
}
