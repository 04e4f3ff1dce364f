//! Counter records: one observation of a single core's (or the aggregate's)
//! cumulative tick counters, parsed from one line of the statistics feed.

use crate::decimal::dec_val;
use crate::decimal::is_counter_token;
use crate::decimal::lemma_dec_val_nonneg;
use crate::decimal::lemma_render_parse_round_trip;
use crate::decimal::parse_u64;
use crate::decimal::render_u64;
use crate::decimal::spec_render;
use crate::tokens::chars_of;
use crate::tokens::lemma_split_first_prefix;
use crate::tokens::spec_split;
use crate::tokens::split_spaces;
use vstd::prelude::*;
use vstd::string::StrSliceExecFns;

verus! {

/// Statistics for a single CPU core; all counts are cumulative tick counters
/// since system boot, measured in fixed-rate units (USER_HZ, typically
/// hundredths of a second).
pub struct CoreStats {
    /// Name of the core, or the reserved aggregate identity `cpu`.
    pub name: String,
    /// Normal processes executing in user mode.
    pub user_processes: u64,
    /// Niced processes executing in user mode.
    pub nice_processes: u64,
    /// System processes executing in kernel mode.
    pub system_processes: u64,
    /// Idle time.
    pub idle_time: u64,
    /// I/O waiting to complete.  The kernel documents this counter as
    /// non-monotonic: it can go down between reads.
    pub io_wait: u64,
    /// Servicing interrupts.
    pub irq: u64,
    /// Servicing soft interrupts.
    pub soft_irq: u64,
    /// Time spent servicing virtual hosts.
    pub steal_time: u64,
    /// Guests running.
    pub guest: u64,
    /// Niced guests running.
    pub guest_nice: u64,
}

/// The mathematical content of a [`CoreStats`] record.
pub struct CoreStatsView {
    pub name: Seq<char>,
    pub user_processes: u64,
    pub nice_processes: u64,
    pub system_processes: u64,
    pub idle_time: u64,
    pub io_wait: u64,
    pub irq: u64,
    pub soft_irq: u64,
    pub steal_time: u64,
    pub guest: u64,
    pub guest_nice: u64,
}

impl View for CoreStats {
    type V = CoreStatsView;

    open spec fn view(&self) -> CoreStatsView {
        CoreStatsView {
            name: self.name@,
            user_processes: self.user_processes,
            nice_processes: self.nice_processes,
            system_processes: self.system_processes,
            idle_time: self.idle_time,
            io_wait: self.io_wait,
            irq: self.irq,
            soft_irq: self.soft_irq,
            steal_time: self.steal_time,
            guest: self.guest,
            guest_nice: self.guest_nice,
        }
    }
}

impl DeepView for CoreStats {
    type V = CoreStatsView;

    open spec fn deep_view(&self) -> CoreStatsView {
        self.view()
    }
}

/// True iff the line opens with the core/aggregate prefix `cpu`.
pub open spec fn starts_with_cpu(s: Seq<char>) -> bool {
    s.len() >= 3 && s.take(3) == "cpu"@
}

/// Index of the first counter token of the line.  The aggregate row, whose
/// identity token is exactly `cpu`, carries a placeholder token before its
/// counters; every other row's counters start right after the identity.
pub open spec fn counter_start(s: Seq<char>) -> int {
    if spec_split(s)[0] == "cpu"@ {
        2
    } else {
        1
    }
}

/// True iff the line is a well-formed counter line: after the identity (and
/// the aggregate row's placeholder) it carries at least ten tokens, the first
/// ten of which each denote an unsigned 64-bit counter.
pub open spec fn line_parses(s: Seq<char>) -> bool {
    let toks = spec_split(s);
    let k = counter_start(s);
    &&& toks.len() >= k + 10
    &&& forall|j: int| k <= j < k + 10 ==> is_counter_token(#[trigger] toks[j])
}

/// The record denoted by a well-formed counter line: the identity token,
/// then the ten counters in the fixed field order.
pub open spec fn parsed_record(s: Seq<char>) -> CoreStatsView {
    let toks = spec_split(s);
    let k = counter_start(s);
    CoreStatsView {
        name: toks[0],
        user_processes: dec_val(toks[k]) as u64,
        nice_processes: dec_val(toks[k + 1]) as u64,
        system_processes: dec_val(toks[k + 2]) as u64,
        idle_time: dec_val(toks[k + 3]) as u64,
        io_wait: dec_val(toks[k + 4]) as u64,
        irq: dec_val(toks[k + 5]) as u64,
        soft_irq: dec_val(toks[k + 6]) as u64,
        steal_time: dec_val(toks[k + 7]) as u64,
        guest: dec_val(toks[k + 8]) as u64,
        guest_nice: dec_val(toks[k + 9]) as u64,
    }
}

/// The delta of one counter between an older and a newer read.  A counter
/// that regressed (wraparound or a reset feed) saturates at zero rather than
/// wrapping to a huge positive value.
pub open spec fn counter_delta(older: u64, newer: u64) -> u64 {
    if newer >= older {
        (newer - older) as u64
    } else {
        0
    }
}

/// The per-field difference of two records for one sampling interval: every
/// counter is differenced except `io_wait`, which is carried verbatim from
/// the newer read because the kernel documents it as non-monotonic.
pub open spec fn spec_diff(older: CoreStatsView, newer: CoreStatsView) -> CoreStatsView {
    CoreStatsView {
        name: older.name,
        user_processes: counter_delta(older.user_processes, newer.user_processes),
        nice_processes: counter_delta(older.nice_processes, newer.nice_processes),
        system_processes: counter_delta(older.system_processes, newer.system_processes),
        idle_time: counter_delta(older.idle_time, newer.idle_time),
        io_wait: newer.io_wait,
        irq: counter_delta(older.irq, newer.irq),
        soft_irq: counter_delta(older.soft_irq, newer.soft_irq),
        steal_time: counter_delta(older.steal_time, newer.steal_time),
        guest: counter_delta(older.guest, newer.guest),
        guest_nice: counter_delta(older.guest_nice, newer.guest_nice),
    }
}

/// True iff the token is exactly the reserved aggregate identity `cpu`.
fn token_is_cpu(t: &Vec<char>) -> (b: bool)
    ensures
        b == (t@ == "cpu"@),
{
    proof {
        reveal_strlit("cpu");
    }
    if t.len() != 3 {
        return false;
    }
    let b = t[0] == 'c' && t[1] == 'p' && t[2] == 'u';
    proof {
        if b {
            assert(t@ =~= "cpu"@);
        }
    }
    b
}

impl CoreStats {
    /// Parse one line of the statistics feed.  Returns the record iff the
    /// line is well formed (ten unsigned 64-bit counter tokens after the
    /// identity and, on the aggregate row, its placeholder); a malformed line
    /// is rejected whole, never partially defaulted.
    pub fn from_str(line: &str) -> (r: Option<CoreStats>)
        ensures
            (r is Some) == line_parses(line@),
            r matches Some(c) ==> c@ == parsed_record(line@),
    {
        let cs = chars_of(line);
        let toks = split_spaces(&cs);
        proof {
            assert(toks.deep_view()[0] =~= toks@[0]@);
        }
        let aggregate = token_is_cpu(&toks[0]);
        let k: usize = if aggregate {
            2
        } else {
            1
        };
        proof {
            assert(toks.deep_view().len() == toks@.len());
            assert(k == counter_start(line@));
        }
        if toks.len() < k + 10 {
            return None;
        }
        proof {
            assert forall|j: int| 0 <= j < toks@.len() implies toks.deep_view()[j]
                =~= #[trigger] toks@[j]@ by {}
        }
        let name_len = toks[0].len();
        proof {
            lemma_split_first_prefix(line@);
        }
        let name = line.substring_char(0, name_len).to_owned();
        let user_processes = match parse_u64(&toks[k]) {
            Some(v) => v,
            None => {
                return None;
            },
        };
        let nice_processes = match parse_u64(&toks[k + 1]) {
            Some(v) => v,
            None => {
                return None;
            },
        };
        let system_processes = match parse_u64(&toks[k + 2]) {
            Some(v) => v,
            None => {
                return None;
            },
        };
        let idle_time = match parse_u64(&toks[k + 3]) {
            Some(v) => v,
            None => {
                return None;
            },
        };
        let io_wait = match parse_u64(&toks[k + 4]) {
            Some(v) => v,
            None => {
                return None;
            },
        };
        let irq = match parse_u64(&toks[k + 5]) {
            Some(v) => v,
            None => {
                return None;
            },
        };
        let soft_irq = match parse_u64(&toks[k + 6]) {
            Some(v) => v,
            None => {
                return None;
            },
        };
        let steal_time = match parse_u64(&toks[k + 7]) {
            Some(v) => v,
            None => {
                return None;
            },
        };
        let guest = match parse_u64(&toks[k + 8]) {
            Some(v) => v,
            None => {
                return None;
            },
        };
        let guest_nice = match parse_u64(&toks[k + 9]) {
            Some(v) => v,
            None => {
                return None;
            },
        };
        Some(
            CoreStats {
                name,
                user_processes,
                nice_processes,
                system_processes,
                idle_time,
                io_wait,
                irq,
                soft_irq,
                steal_time,
                guest,
                guest_nice,
            },
        )
    }

    /// True iff this record is the aggregate of all cores.
    pub fn is_aggregate(&self) -> (b: bool)
        ensures
            b == (self@.name == "cpu"@),
    {
        let cs = chars_of(self.name.as_str());
        token_is_cpu(&cs)
    }

    /// The per-field delta from this (older) record to `other` (the newer
    /// one): counters are differenced with saturation at zero, `io_wait` is
    /// carried verbatim from `other`.
    pub fn diff(&self, other: &Self) -> (r: Self)
        ensures
            r@ == spec_diff(self@, other@),
    {
        Self {
            name: self.name.clone(),
            user_processes: sat_sub(self.user_processes, other.user_processes),
            nice_processes: sat_sub(self.nice_processes, other.nice_processes),
            system_processes: sat_sub(self.system_processes, other.system_processes),
            idle_time: sat_sub(self.idle_time, other.idle_time),
            io_wait: other.io_wait,
            irq: sat_sub(self.irq, other.irq),
            soft_irq: sat_sub(self.soft_irq, other.soft_irq),
            steal_time: sat_sub(self.steal_time, other.steal_time),
            guest: sat_sub(self.guest, other.guest),
            guest_nice: sat_sub(self.guest_nice, other.guest_nice),
        }
    }
}

/// The ten counters of a record, in the fixed field order of the feed.
pub open spec fn counter_fields(c: CoreStatsView) -> Seq<u64> {
    seq![
        c.user_processes,
        c.nice_processes,
        c.system_processes,
        c.idle_time,
        c.io_wait,
        c.irq,
        c.soft_irq,
        c.steal_time,
        c.guest,
        c.guest_nice,
    ]
}

impl CoreStats {
    /// Serialize the ten counters back into decimal tokens, in the same
    /// fixed field order the parser reads them in.
    pub fn render_counters(&self) -> (r: Vec<Vec<char>>)
        ensures
            r.deep_view().len() == 10,
            forall|j: int|
                0 <= j < 10 ==> #[trigger] r.deep_view()[j] == spec_render(
                    counter_fields(self@)[j] as int,
                ),
    {
        let mut r: Vec<Vec<char>> = Vec::new();
        r.push(render_u64(self.user_processes));
        r.push(render_u64(self.nice_processes));
        r.push(render_u64(self.system_processes));
        r.push(render_u64(self.idle_time));
        r.push(render_u64(self.io_wait));
        r.push(render_u64(self.irq));
        r.push(render_u64(self.soft_irq));
        r.push(render_u64(self.steal_time));
        r.push(render_u64(self.guest));
        r.push(render_u64(self.guest_nice));
        r
    }
}

/// Law: for any well-formed counter line, parsing it and then re-serializing
/// the ten parsed counters in the same field order reproduces the integers
/// of the original counter tokens exactly (a round trip through the record).
pub proof fn lemma_parse_render_round_trip(s: Seq<char>)
    requires
        line_parses(s),
    ensures
        forall|j: int|
            0 <= j < 10 ==> dec_val(
                spec_render(#[trigger] counter_fields(parsed_record(s))[j] as int),
            ) == dec_val(spec_split(s)[counter_start(s) + j]),
{
    let k = counter_start(s);
    assert forall|j: int|
        0 <= j < 10 implies dec_val(
        spec_render(#[trigger] counter_fields(parsed_record(s))[j] as int),
    ) == dec_val(spec_split(s)[k + j]) by {
        let tok = spec_split(s)[k + j];
        assert(is_counter_token(tok));
        lemma_dec_val_nonneg(tok);
        let v = counter_fields(parsed_record(s))[j];
        assert(v == dec_val(tok) as u64);
        assert(v as int == dec_val(tok));
        lemma_render_parse_round_trip(v);
    }
}

/// `newer - older`, saturating at zero on a counter regression.
fn sat_sub(older: u64, newer: u64) -> (r: u64)
    ensures
        r == counter_delta(older, newer),
{
    if newer >= older {
        newer - older
    } else {
        0
    }
}

} // verus!
