use procutils::record::{Ratio, Record};
use procutils::report::{render_row, TickRate};
use procutils::snapshot::Snapshot;

fn base() -> Snapshot {
    Snapshot {
        timestamp: 10,
        pss: 500,
        vm_rss: 4000,
        vm_anon: 1000,
        vm_file: 2000,
        vm_shmem: 300,
        vm_swap: 16,
        voluntary_ctxt_switches: 1000,
        nonvoluntary_ctxt_switches: 100,
        minflt: 5000,
        majflt: 50,
        utime: 300,
        stime: 100,
        global_utime: 70000,
        global_stime: 30000,
        priority: 20,
        nice: 0,
        num_threads: 4,
        start_time: 123456,
    }
}

fn later() -> Snapshot {
    Snapshot {
        timestamp: 20,
        pss: 510,
        vm_rss: 4100,
        vm_anon: 1100,
        vm_file: 1900,
        vm_shmem: 310,
        vm_swap: 0,
        voluntary_ctxt_switches: 1025,
        nonvoluntary_ctxt_switches: 103,
        minflt: 5400,
        majflt: 51,
        utime: 301,
        stime: 101,
        global_utime: 70015,
        global_stime: 30005,
        priority: 19,
        nice: -1,
        num_threads: 5,
        start_time: 123456,
    }
}

#[test]
fn a_row_holds_differences_of_counters_and_current_values_of_the_rest() {
    assert_eq!(
        Record::between(&base(), &later()),
        Record {
            timestamp: 20,
            pss: 510,
            vm_rss: 4100,
            vm_anon: 1100,
            vm_file: 1900,
            vm_shmem: 310,
            vm_swap: 0,
            voluntary_ctxt_switches: 25,
            nonvoluntary_ctxt_switches: 3,
            minflt: 400,
            majflt: 1,
            utime: 1,
            stime: 1,
            totalcputime: 2,
            global_utime: 15,
            global_stime: 5,
            global_total_cpu_time: 20,
            cpu_occupancy: Ratio { num: 2, den: 20 },
            priority: 19,
            nice: -1,
            num_threads: 5,
            start_time: 123456,
        }
    );
}

fn written_occupancy(row: &Record) -> String {
    let text = render_row(row, TickRate::new(100).unwrap());
    let cells: Vec<&str> = text.split(',').collect();
    String::from(cells[17])
}

fn quotient(ratio: Ratio) -> f64 {
    ratio.num as f64 / ratio.den as f64
}

#[test]
fn two_hundredths_of_a_second_over_two_tenths_is_a_tenth() {
    let row = Record::between(&base(), &later());
    assert_eq!(row.totalcputime, 2);
    assert_eq!(row.global_total_cpu_time, 20);
    assert_eq!(row.cpu_occupancy, Ratio { num: 2, den: 20 });
    let process = row.totalcputime as f64 / 100.0;
    let host = row.global_total_cpu_time as f64 / 100.0;
    assert!((process - 0.020).abs() < 1e-12);
    assert!((host - 0.200).abs() < 1e-12);
    assert!((quotient(row.cpu_occupancy) - process / host).abs() < 1e-15);
    assert!((quotient(row.cpu_occupancy) - 0.100).abs() < 1e-15);
    assert_eq!(written_occupancy(&row), "0.100");
}

#[test]
fn the_occupancy_is_the_quotient_of_the_two_times_of_the_row() {
    let mut a = base();
    let mut b = base();
    a.utime = 0;
    a.stime = 0;
    a.global_utime = 0;
    a.global_stime = 0;
    b.stime = 0;
    b.global_stime = 0;
    let mut p: u64 = 0;
    while p <= 400 {
        let mut h: u64 = 1;
        while h <= 400 {
            b.utime = p;
            b.global_utime = h;
            let row = Record::between(&a, &b);
            assert_eq!(row.cpu_occupancy, Ratio { num: p as i128, den: h as i128 });
            assert_eq!(row.cpu_occupancy.num, row.totalcputime);
            assert_eq!(row.cpu_occupancy.den, row.global_total_cpu_time);
            let share = quotient(row.cpu_occupancy);
            assert_eq!(share, row.totalcputime as f64 / row.global_total_cpu_time as f64);
            assert_eq!(share, p as f64 / h as f64);
            assert!(share.is_finite());
            assert!(share >= 0.0);
            h += 13;
        }
        p += 7;
    }
}

#[test]
fn a_third_is_held_as_a_third_and_written_to_the_nearest_thousandth() {
    let mut a = base();
    let mut b = base();
    a.utime = 0;
    a.stime = 0;
    a.global_utime = 0;
    a.global_stime = 0;
    b.utime = 1;
    b.stime = 0;
    b.global_utime = 3;
    b.global_stime = 0;
    let row = Record::between(&a, &b);
    assert_eq!(row.cpu_occupancy, Ratio { num: 1, den: 3 });
    assert!((quotient(row.cpu_occupancy) - 1.0 / 3.0).abs() < 1e-16);
    assert_eq!(written_occupancy(&row), "0.333");
    b.utime = 2;
    assert_eq!(written_occupancy(&Record::between(&a, &b)), "0.667");
    b.utime = 3;
    assert_eq!(written_occupancy(&Record::between(&a, &b)), "1.000");
    b.utime = 1;
    b.global_utime = 2000;
    assert_eq!(written_occupancy(&Record::between(&a, &b)), "0.000");
    b.utime = 3;
    assert_eq!(written_occupancy(&Record::between(&a, &b)), "0.002");
}

#[test]
fn the_written_occupancy_is_within_half_a_thousandth() {
    let mut a = base();
    let mut b = base();
    a.utime = 0;
    a.stime = 0;
    a.global_utime = 0;
    a.global_stime = 0;
    b.stime = 0;
    b.global_stime = 0;
    let mut p: u64 = 0;
    while p <= 400 {
        let mut h: u64 = 1;
        while h <= 400 {
            b.utime = p;
            b.global_utime = h;
            let row = Record::between(&a, &b);
            let written: f64 = written_occupancy(&row).parse().unwrap();
            assert!((written - quotient(row.cpu_occupancy)).abs() <= 0.0005 + 1e-9);
            h += 13;
        }
        p += 7;
    }
}

#[test]
fn a_host_that_used_no_time_gives_no_occupancy() {
    let mut b = later();
    b.global_utime = base().global_utime;
    b.global_stime = base().global_stime;
    let row = Record::between(&base(), &b);
    assert_eq!(row.global_total_cpu_time, 0);
    assert_eq!(row.totalcputime, 2);
    assert_eq!(row.cpu_occupancy, Ratio { num: 2, den: 0 });
    assert_eq!(written_occupancy(&row), "0.000");
}

#[test]
fn counters_that_went_back_give_negative_differences() {
    let row = Record::between(&later(), &base());
    assert_eq!(row.minflt, -400);
    assert_eq!(row.majflt, -1);
    assert_eq!(row.voluntary_ctxt_switches, -25);
    assert_eq!(row.nonvoluntary_ctxt_switches, -3);
    assert_eq!(row.utime, -1);
    assert_eq!(row.stime, -1);
    assert_eq!(row.totalcputime, -2);
    assert_eq!(row.global_total_cpu_time, -20);
    assert_eq!(row.cpu_occupancy, Ratio { num: -2, den: -20 });
    assert_eq!(written_occupancy(&row), "0.100");
    assert_eq!(row.timestamp, 10);
    assert_eq!(row.vm_rss, 4000);
}

#[test]
fn a_process_that_went_back_on_a_host_that_went_on_has_negative_occupancy() {
    let mut b = base();
    b.global_utime += 20;
    b.utime -= 2;
    let row = Record::between(&base(), &b);
    assert_eq!(row.totalcputime, -2);
    assert_eq!(row.global_total_cpu_time, 20);
    assert_eq!(row.cpu_occupancy, Ratio { num: -2, den: 20 });
    assert_eq!(written_occupancy(&row), "-0.100");
}

#[test]
fn the_widest_counters_are_diffed_without_overflow() {
    let mut a = base();
    let mut b = base();
    a.minflt = 0;
    b.minflt = u64::MAX;
    a.utime = u64::MAX;
    a.stime = u64::MAX;
    b.utime = 0;
    b.stime = 0;
    a.global_utime = 0;
    a.global_stime = 0;
    b.global_utime = u64::MAX;
    b.global_stime = u64::MAX;
    let row = Record::between(&a, &b);
    assert_eq!(row.minflt, u64::MAX as i128);
    assert_eq!(row.utime, -(u64::MAX as i128));
    assert_eq!(row.totalcputime, -2 * (u64::MAX as i128));
    assert_eq!(row.global_total_cpu_time, 2 * (u64::MAX as i128));
    assert_eq!(
        row.cpu_occupancy,
        Ratio { num: -2 * (u64::MAX as i128), den: 2 * (u64::MAX as i128) }
    );
    assert_eq!(written_occupancy(&row), "-1.000");
}

#[test]
fn a_snapshot_diffed_against_itself_is_all_zero_in_its_counters() {
    let row = Record::between(&base(), &base());
    assert_eq!(row.minflt, 0);
    assert_eq!(row.majflt, 0);
    assert_eq!(row.voluntary_ctxt_switches, 0);
    assert_eq!(row.nonvoluntary_ctxt_switches, 0);
    assert_eq!(row.utime, 0);
    assert_eq!(row.stime, 0);
    assert_eq!(row.totalcputime, 0);
    assert_eq!(row.global_utime, 0);
    assert_eq!(row.global_stime, 0);
    assert_eq!(row.global_total_cpu_time, 0);
    assert_eq!(row.cpu_occupancy, Ratio { num: 0, den: 0 });
    assert_eq!(written_occupancy(&row), "0.000");
    assert_eq!(row.pss, 500);
}
