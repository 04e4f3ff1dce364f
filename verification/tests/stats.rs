use cpu_stats::CPUStatsContext;
use cpu_stats::CoreSnapshot;
use cpu_stats::CoreStats;
use cpu_stats::parse_u64;
use cpu_stats::render_u64;

fn feed() -> Vec<String> {
    vec![
        String::from("cpu  10 0 20 300 5 0 0 0 0 0"),
        String::from("cpu0 10 0 20 300 5 0 0 0 0 0"),
    ]
}

#[test]
fn refresh_stats() {
    let mut stats_context = CPUStatsContext::new(&feed(), 0);

    assert!(stats_context.read(&feed(), 10).len() == 2)
}

#[test]
fn parse_per_core_line() {
    let rec = CoreStats::from_str("cpu0 1 2 3 4 5 6 7 8 9 10").unwrap();
    assert_eq!(rec.name, "cpu0");
    assert!(!rec.is_aggregate());
    assert_eq!(rec.user_processes, 1);
    assert_eq!(rec.nice_processes, 2);
    assert_eq!(rec.system_processes, 3);
    assert_eq!(rec.idle_time, 4);
    assert_eq!(rec.io_wait, 5);
    assert_eq!(rec.irq, 6);
    assert_eq!(rec.soft_irq, 7);
    assert_eq!(rec.steal_time, 8);
    assert_eq!(rec.guest, 9);
    assert_eq!(rec.guest_nice, 10);
}

#[test]
fn aggregate_placeholder_does_not_shift_fields() {
    // The aggregate row carries an empty placeholder field between the two
    // consecutive spaces; the counters must start after it, unshifted.
    let rec = CoreStats::from_str("cpu  5 1 2 100 3 0 0 0 0 0").unwrap();
    assert_eq!(rec.name, "cpu");
    assert!(rec.is_aggregate());
    assert_eq!(rec.user_processes, 5);
    assert_eq!(rec.nice_processes, 1);
    assert_eq!(rec.system_processes, 2);
    assert_eq!(rec.idle_time, 100);
    assert_eq!(rec.io_wait, 3);
}

#[test]
fn aggregate_row_consumes_a_placeholder() {
    // With a single space the first counter is taken as the placeholder,
    // leaving only nine counter tokens: the line is rejected.
    assert!(CoreStats::from_str("cpu 1 2 3 4 5 6 7 8 9 10").is_none());
}

#[test]
fn nine_fields_rejected_not_defaulted() {
    assert!(CoreStats::from_str("cpu0 1 2 3 4 5 6 7 8 9").is_none());
}

#[test]
fn non_numeric_field_rejected() {
    assert!(CoreStats::from_str("cpu0 1 2 x 4 5 6 7 8 9 10").is_none());
}

#[test]
fn empty_and_blank_lines_rejected() {
    assert!(CoreStats::from_str("").is_none());
    assert!(CoreStats::from_str("   ").is_none());
}

#[test]
fn extra_trailing_fields_ignored() {
    let rec = CoreStats::from_str("cpu1 1 2 3 4 5 6 7 8 9 10 11 12").unwrap();
    assert_eq!(rec.name, "cpu1");
    assert_eq!(rec.guest_nice, 10);
}

#[test]
fn parse_u64_bounds() {
    let max: Vec<char> = "18446744073709551615".chars().collect();
    assert_eq!(parse_u64(&max), Some(u64::MAX));
    let over: Vec<char> = "18446744073709551616".chars().collect();
    assert_eq!(parse_u64(&over), None);
    let empty: Vec<char> = Vec::new();
    assert_eq!(parse_u64(&empty), None);
    let signed: Vec<char> = "+12".chars().collect();
    assert_eq!(parse_u64(&signed), None);
}

#[test]
fn render_u64_digits() {
    assert_eq!(render_u64(0), vec!['0']);
    assert_eq!(render_u64(7), vec!['7']);
    assert_eq!(render_u64(1234567890), "1234567890".chars().collect::<Vec<char>>());
}

#[test]
fn counters_round_trip() {
    // Parsing a valid ten-field line and re-serializing the ten counters in
    // the same field order reproduces the original integer tokens exactly.
    let tokens = ["12", "0", "340", "999", "5", "66", "7", "800", "9", "10"];
    let line = format!("cpu7 {}", tokens.join(" "));
    let rec = CoreStats::from_str(&line).unwrap();
    let rendered = rec.render_counters();
    assert_eq!(rendered.len(), 10);
    for (rendered_token, original) in rendered.iter().zip(tokens.iter()) {
        let expected: Vec<char> = original.chars().collect();
        assert_eq!(rendered_token, &expected);
    }
}

#[test]
fn unchanged_counters_give_zero_delta() {
    let mut ctx = CPUStatsContext::new(&feed(), 0);
    let snaps = ctx.read(&feed(), 500);
    assert_eq!(snaps.len(), 2);
    for snap in snaps.iter() {
        assert_eq!(snap.period_ms, 500);
        assert_eq!(snap.stats.user_processes, 0);
        assert_eq!(snap.stats.nice_processes, 0);
        assert_eq!(snap.stats.system_processes, 0);
        assert_eq!(snap.stats.idle_time, 0);
        // io_wait is carried verbatim from the newer read, not differenced
        assert_eq!(snap.stats.io_wait, 5);
        assert_eq!(snap.stats.irq, 0);
        assert_eq!(snap.stats.soft_irq, 0);
        assert_eq!(snap.stats.steal_time, 0);
        assert_eq!(snap.stats.guest, 0);
        assert_eq!(snap.stats.guest_nice, 0);
        assert_eq!(snap.idle_percent(), 0);
    }
}

fn record(name: &str, idle_time: u64, io_wait: u64) -> CoreStats {
    CoreStats {
        name: String::from(name),
        user_processes: 0,
        nice_processes: 0,
        system_processes: 0,
        idle_time,
        io_wait,
        irq: 0,
        soft_irq: 0,
        steal_time: 0,
        guest: 0,
        guest_nice: 0,
    }
}

#[test]
fn idle_percent_from_idle_delta() {
    // idle 100 before, 150 after, over 500 ms: (50 * 1000) / 500 = 100
    let before = record("cpu0", 100, 0);
    let after = record("cpu0", 150, 0);
    let snap = CoreSnapshot { stats: before.diff(&after), period_ms: 500 };
    assert_eq!(snap.stats.idle_time, 50);
    assert_eq!(snap.idle_percent(), 100);
}

#[test]
fn percent_busy_complements_idle() {
    // idle delta of 20 ticks over 1000 ms: idle-percent 20, busy 80
    let snap = CoreSnapshot { stats: record("cpu3", 20, 0).diff(&record("cpu3", 40, 0)), period_ms: 1000 };
    assert_eq!(snap.idle_percent(), 20);
    assert_eq!(100 - snap.idle_percent(), 80);
}

#[test]
fn counter_regression_saturates_at_zero() {
    let before = record("cpu0", 100, 0);
    let after = record("cpu0", 60, 0);
    let delta = before.diff(&after);
    assert_eq!(delta.idle_time, 0);
}

#[test]
fn io_wait_carried_from_newer_read() {
    let before = record("cpu0", 0, 9);
    let after = record("cpu0", 0, 3);
    let delta = before.diff(&after);
    assert_eq!(delta.io_wait, 3);
}

#[test]
fn malformed_lines_do_not_halt_parsing() {
    let lines = vec![
        String::from("intr 123 456"),
        String::from("cpu  1 2 3 4 5 6 7 8 9 10"),
        String::from("cpu0 not numeric 4 5 6 7 8 9 10 11"),
        String::from("cpu1 9 8 7 6 5 4 3 2 1 0"),
        String::from("cpu2 1 2 3"),
        String::from("ctxt 789"),
        String::from(""),
    ];
    let ctx = CPUStatsContext::new(&lines, 0);
    let names: Vec<&str> = ctx.last_stats.iter().map(|r| r.name.as_str()).collect();
    assert_eq!(names, vec!["cpu", "cpu1"]);
    assert_eq!(ctx.last_stats[1].user_processes, 9);
}

#[test]
fn consecutive_reads_measure_back_to_back_intervals() {
    let mut ctx = CPUStatsContext::new(&feed(), 1000);
    let first = ctx.read(&feed(), 1500);
    assert!(first.iter().all(|s| s.period_ms == 500));
    let second = ctx.read(&feed(), 2600);
    assert!(second.iter().all(|s| s.period_ms == 1100));
}

#[test]
fn shrinking_feed_truncates_to_overlap() {
    let mut ctx = CPUStatsContext::new(&feed(), 0);
    let shorter = vec![String::from("cpu  10 0 20 300 5 0 0 0 0 0")];
    let snaps = ctx.read(&shorter, 100);
    assert_eq!(snaps.len(), 1);
    // the next read diffs against the replaced, shorter baseline
    let snaps = ctx.read(&feed(), 200);
    assert_eq!(snaps.len(), 1);
}
