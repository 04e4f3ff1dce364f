//! The stats context: owns the last observed counter records and the
//! timestamp of that observation, and turns each fresh read of the feed into
//! per-core snapshots covering the interval since the previous read.

use crate::record::CoreStats;
use crate::record::CoreStatsView;
use crate::record::line_parses;
use crate::record::parsed_record;
use crate::record::spec_diff;
use crate::record::starts_with_cpu;
use crate::snapshot::CoreSnapshot;
use crate::snapshot::CoreSnapshotView;
use vstd::prelude::*;
use vstd::string::StrSliceExecFns;

verus! {

/// The records parsed from the feed's lines: every line that starts with the
/// `cpu` prefix and is well formed contributes one record, in feed order;
/// all other lines are skipped.
pub open spec fn spec_parse_feed(lines: Seq<Seq<char>>) -> Seq<CoreStatsView>
    decreases lines.len(),
{
    if lines.len() == 0 {
        Seq::empty()
    } else {
        let rest = spec_parse_feed(lines.drop_last());
        let l = lines.last();
        if starts_with_cpu(l) && line_parses(l) {
            rest.push(parsed_record(l))
        } else {
            rest
        }
    }
}

/// One snapshot per overlapping pair of old and new records, paired
/// positionally, each tagged with the elapsed interval.
pub open spec fn spec_snapshots(
    older: Seq<CoreStatsView>,
    newer: Seq<CoreStatsView>,
    period_ms: u64,
) -> Seq<CoreSnapshotView> {
    Seq::new(
        if older.len() <= newer.len() {
            older.len()
        } else {
            newer.len()
        },
        |i: int| CoreSnapshotView { stats: spec_diff(older[i], newer[i]), period_ms },
    )
}

/// True iff the line opens with the core/aggregate prefix `cpu`.
fn line_has_cpu_prefix(s: &str) -> (b: bool)
    ensures
        b == starts_with_cpu(s@),
{
    proof {
        reveal_strlit("cpu");
    }
    if s.unicode_len() < 3 {
        return false;
    }
    let b = s.get_char(0) == 'c' && s.get_char(1) == 'p' && s.get_char(2) == 'u';
    proof {
        if b {
            assert(s@.take(3) =~= "cpu"@);
        } else {
            if starts_with_cpu(s@) {
                assert(s@[0] == s@.take(3)[0]);
                assert(s@[1] == s@.take(3)[1]);
                assert(s@[2] == s@.take(3)[2]);
            }
        }
    }
    b
}

/// Parse every relevant line of the feed, in order: lines without the `cpu`
/// prefix and malformed lines are skipped, never halting the scan.
pub fn parse_feed(lines: &Vec<String>) -> (r: Vec<CoreStats>)
    ensures
        r.deep_view() == spec_parse_feed(lines.deep_view()),
{
    let mut r: Vec<CoreStats> = Vec::new();
    let mut i: usize = 0;
    proof {
        assert(lines.deep_view().take(0) =~= Seq::<Seq<char>>::empty());
    }
    while i < lines.len()
        invariant
            0 <= i <= lines.len(),
            r.deep_view() == spec_parse_feed(lines.deep_view().take(i as int)),
        decreases lines.len() - i,
    {
        proof {
            assert(lines.deep_view().take(i + 1 as int).drop_last() =~= lines.deep_view().take(
                i as int,
            ));
            assert(lines.deep_view().take(i + 1 as int).last() == lines@[i as int]@);
        }
        let line: &String = &lines[i];
        if line_has_cpu_prefix(line.as_str()) {
            match CoreStats::from_str(line.as_str()) {
                Some(c) => {
                    r.push(c);
                    proof {
                        assert(r.deep_view() =~~= spec_parse_feed(
                            lines.deep_view().take(i + 1 as int),
                        ));
                    }
                },
                None => {
                    proof {
                        assert(r.deep_view() =~~= spec_parse_feed(
                            lines.deep_view().take(i + 1 as int),
                        ));
                    }
                },
            }
        } else {
            proof {
                assert(r.deep_view() =~~= spec_parse_feed(lines.deep_view().take(i + 1 as int)));
            }
        }
        i = i + 1;
    }
    proof {
        assert(lines.deep_view().take(i as int) =~= lines.deep_view());
    }
    r
}

/// Context for reading CPU statistics: holds the baseline records and the
/// timestamp of the read that produced them.  The embedding application
/// performs the actual feed read and supplies its lines, together with a
/// monotonic millisecond timestamp, to `new` and `read`.
pub struct CPUStatsContext {
    /// Records from the previous read.
    pub last_stats: Vec<CoreStats>,
    /// Millisecond timestamp of the previous read.
    last_ms: u64,
}

impl CPUStatsContext {
    /// Millisecond timestamp of the stored observation.
    pub closed spec fn timestamp_ms(self) -> u64 {
        self.last_ms
    }

    /// The stored baseline records, as their mathematical content.
    pub closed spec fn baseline(self) -> Seq<CoreStatsView> {
        self.last_stats.deep_view()
    }

    /// Seed a context from an initial read of the feed: parse the baseline
    /// records and record the read's timestamp.
    pub fn new(lines: &Vec<String>, now_ms: u64) -> (r: Self)
        ensures
            r.baseline() == spec_parse_feed(lines.deep_view()),
            r.timestamp_ms() == now_ms,
    {
        CPUStatsContext { last_stats: parse_feed(lines), last_ms: now_ms }
    }

    /// Read fresh counters and produce one snapshot per core: the fresh
    /// records are paired positionally with the stored baseline, each pair is
    /// differenced, and every snapshot is tagged with the elapsed time since
    /// the previous read.  Only the overlapping prefix of the two sequences
    /// produces snapshots.  The stored baseline and timestamp are replaced,
    /// so consecutive calls measure disjoint, back-to-back intervals.
    #[verifier::loop_isolation(false)]
    pub fn read(&mut self, lines: &Vec<String>, now_ms: u64) -> (r: Vec<CoreSnapshot>)
        requires
            now_ms >= old(self).timestamp_ms(),
        ensures
            final(self).timestamp_ms() == now_ms,
            final(self).baseline() == spec_parse_feed(lines.deep_view()),
            r.deep_view() == spec_snapshots(
                old(self).baseline(),
                spec_parse_feed(lines.deep_view()),
                (now_ms - old(self).timestamp_ms()) as u64,
            ),
    {
        let period_ms = now_ms - self.last_ms;
        let now_stats = parse_feed(lines);
        let n = if self.last_stats.len() <= now_stats.len() {
            self.last_stats.len()
        } else {
            now_stats.len()
        };
        let ghost target = spec_snapshots(
            self.last_stats.deep_view(),
            now_stats.deep_view(),
            period_ms,
        );
        let mut snaps: Vec<CoreSnapshot> = Vec::new();
        let mut i: usize = 0;
        while i < n
            invariant
                0 <= i <= n,
                snaps.deep_view() == target.take(i as int),
            decreases n - i,
        {
            let snap = CoreSnapshot { stats: self.last_stats[i].diff(&now_stats[i]), period_ms };
            snaps.push(snap);
            proof {
                assert(snaps.deep_view() =~~= target.take(i + 1 as int));
            }
            i = i + 1;
        }
        proof {
            assert(snaps.deep_view() =~~= target);
        }
        self.last_ms = now_ms;
        self.last_stats = now_stats;
        snaps
    }
}

/// Law: a line without the `cpu` prefix, or a malformed one, inserted at any
/// position in the feed leaves the parsed record sequence unchanged.  Bad
/// lines never halt the scan, and the result holds exactly the records of
/// the well-formed lines, in feed order.
pub proof fn lemma_bad_line_ignored(lines: Seq<Seq<char>>, i: int, bad: Seq<char>)
    requires
        0 <= i <= lines.len(),
        !(starts_with_cpu(bad) && line_parses(bad)),
    ensures
        spec_parse_feed(lines.insert(i, bad)) == spec_parse_feed(lines),
    decreases lines.len(),
{
    let ins = lines.insert(i, bad);
    if i == lines.len() {
        assert(ins.drop_last() =~= lines);
        assert(ins.last() == bad);
    } else {
        assert(ins.last() == lines.last());
        assert(ins.drop_last() =~= lines.drop_last().insert(i, bad));
        lemma_bad_line_ignored(lines.drop_last(), i, bad);
    }
}

} // verus!
