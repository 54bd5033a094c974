//! Cumulative counters and their per-tick deltas: network interfaces and
//! disks keyed by name, processes keyed by PID.
use vstd::prelude::*;
use std::collections::HashMap;
use crate::name_map::NameMap;
use crate::text::{chars_of, contains_chars, seq_contains};
use crate::types::ProcessNetUsage;

verus! {

broadcast use vstd::std_specs::hash::group_hash_axioms;

/// `a - b`, or 0 when `b` exceeds `a`.
pub open spec fn sat_sub(a: u64, b: u64) -> u64 {
    if a >= b {
        (a - b) as u64
    } else {
        0
    }
}

/// How far each of two cumulative counters moved from `previous` to
/// `current`; a counter that went backwards (a reset) counts as no movement.
pub open spec fn spec_delta(previous: (u64, u64), current: (u64, u64)) -> (u64, u64) {
    (sat_sub(current.0, previous.0), sat_sub(current.1, previous.1))
}

/// The movement of a pair of cumulative counters.
pub fn counter_delta(previous: (u64, u64), current: (u64, u64)) -> (r: (u64, u64))
    ensures
        r == spec_delta(previous, current),
{
    let a = if current.0 >= previous.0 {
        current.0 - previous.0
    } else {
        0
    };
    let b = if current.1 >= previous.1 {
        current.1 - previous.1
    } else {
        0
    };
    (a, b)
}

/// Rates start from a baseline: counters compared with themselves moved by
/// nothing, so the first reading of a name yields zero; and a movement never
/// exceeds the current counter value.
pub proof fn law_deltas_from_baseline(previous: (u64, u64), current: (u64, u64))
    ensures
        spec_delta(current, current) == (0u64, 0u64),
        spec_delta(previous, current).0 <= current.0,
        spec_delta(previous, current).1 <= current.1,
        previous.0 <= current.0 ==> spec_delta(previous, current).0 + previous.0 == current.0,
        previous.1 <= current.1 ==> spec_delta(previous, current).1 + previous.1 == current.1,
{
}

/// One named pair of cumulative counters: bytes read and written for a disk,
/// bytes received and sent for a network interface.
#[derive(Clone, Debug)]
pub struct CounterReading {
    pub name: String,
    pub first: u64,
    pub second: u64,
}

/// The last counter values seen for each name.
pub type NamedCounters = NameMap<(u64, u64)>;

impl NameMap<(u64, u64)> {
    /// Advance the counters of `name` to `current` and return how far they
    /// moved since they were last stored; a name seen for the first time
    /// becomes its own baseline and moved by nothing.
    pub fn advance(&mut self, name: &str, current: (u64, u64)) -> (r: (u64, u64))
        requires
            old(self).wf(),
        ensures
            final(self).wf(),
            final(self).view() == old(self).view().insert(name@, current),
            r == spec_delta(
                if old(self).view().contains_key(name@) {
                    old(self).view()[name@]
                } else {
                    current
                },
                current,
            ),
    {
        let previous = match self.get(name) {
            Some(p) => p,
            None => current,
        };
        let r = counter_delta(previous, current);
        self.insert(name, current);
        r
    }
}

/// A reading as a triple of name, first counter and second counter.
pub open spec fn reading_view(r: CounterReading) -> (Seq<char>, u64, u64) {
    (r.name@, r.first, r.second)
}

/// The readings of a sequence as triples.
pub open spec fn readings_view(s: Seq<CounterReading>) -> Seq<(Seq<char>, u64, u64)> {
    s.map_values(|r: CounterReading| reading_view(r))
}

/// For each current reading, in order, whose name has a previous reading:
/// its name and how far its counters moved. Readings without a previous one
/// are left out.
pub open spec fn spec_throughput(
    previous: Map<Seq<char>, (u64, u64)>,
    current: Seq<(Seq<char>, u64, u64)>,
) -> Seq<(Seq<char>, u64, u64)>
    decreases current.len(),
{
    if current.len() == 0 {
        seq![]
    } else {
        let rest = spec_throughput(previous, current.drop_last());
        let c = current.last();
        if previous.contains_key(c.0) {
            let d = spec_delta(previous[c.0], (c.1, c.2));
            rest.push((c.0, d.0, d.1))
        } else {
            rest
        }
    }
}

/// The disk counters that moved between two reads of the I/O statistics:
/// one entry per current device that the previous read also had.
pub fn disk_throughput(previous: &NamedCounters, current: &Vec<CounterReading>) -> (r: Vec<
    CounterReading,
>)
    requires
        previous.wf(),
    ensures
        readings_view(r@) == spec_throughput(previous.view(), readings_view(current@)),
{
    let ghost cur = readings_view(current@);
    let mut out: Vec<CounterReading> = Vec::new();
    let mut i: usize = 0;
    while i < current.len()
        invariant
            previous.wf(),
            cur == readings_view(current@),
            i <= current@.len(),
            readings_view(out@) == spec_throughput(previous.view(), cur.take(i as int)),
        decreases current.len() - i,
    {
        let c = &current[i];
        assert(cur.take(i + 1).drop_last() =~= cur.take(i as int));
        assert(cur.take(i + 1).last() == reading_view(current@[i as int]));
        match previous.get(c.name.as_str()) {
            Some(p) => {
                let d = counter_delta(p, (c.first, c.second));
                let entry = CounterReading { name: c.name.clone(), first: d.0, second: d.1 };
                out.push(entry);
                assert(readings_view(out@) =~= spec_throughput(previous.view(), cur.take(i as int)).push(reading_view(entry)));
            },
            None => {},
        }
        i = i + 1;
    }
    assert(cur.take(current@.len() as int) =~= cur);
    out
}

/// One of the two names is part of the other.
pub open spec fn names_related(a: Seq<char>, b: Seq<char>) -> bool {
    seq_contains(a, b) || seq_contains(b, a)
}

/// The counters of the first entry whose name is related to `name`.
pub open spec fn first_related(name: Seq<char>, s: Seq<(Seq<char>, u64, u64)>) -> Option<(u64, u64)>
    decreases s.len(),
{
    if s.len() == 0 {
        None
    } else if names_related(name, s[0].0) {
        Some((s[0].1, s[0].2))
    } else {
        first_related(name, s.drop_first())
    }
}

/// The throughput of a disk as the first I/O statistics entry whose device
/// name is part of the disk's name, or the other way round; zero when none is.
pub fn matching_throughput(disk_name: &str, throughput: &Vec<CounterReading>) -> (r: (u64, u64))
    ensures
        r == (match first_related(disk_name@, readings_view(throughput@)) {
            Some(x) => x,
            None => (0, 0),
        }),
{
    let ghost all = readings_view(throughput@);
    let name = chars_of(disk_name);
    let mut i: usize = 0;
    assert(all.skip(0) =~= all);
    while i < throughput.len()
        invariant
            all == readings_view(throughput@),
            name@ == disk_name@,
            i <= throughput@.len(),
            first_related(disk_name@, all) == first_related(disk_name@, all.skip(i as int)),
        decreases throughput.len() - i,
    {
        assert(all.skip(i as int).drop_first() =~= all.skip(i + 1));
        assert(all.skip(i as int)[0] == all[i as int]);
        let other = chars_of(throughput[i].name.as_str());
        if contains_chars(&name, &other) || contains_chars(&other, &name) {
            return (throughput[i].first, throughput[i].second);
        }
        i = i + 1;
    }
    assert(all.skip(i as int) =~= Seq::<(Seq<char>, u64, u64)>::empty());
    (0, 0)
}

/// Network interface step: advance each interface's baseline to its current
/// totals and return, per interface in order, how far the totals moved.
pub open spec fn spec_advance_all(
    baselines: Map<Seq<char>, (u64, u64)>,
    readings: Seq<(Seq<char>, u64, u64)>,
) -> Map<Seq<char>, (u64, u64)>
    decreases readings.len(),
{
    if readings.len() == 0 {
        baselines
    } else {
        let r = readings.last();
        spec_advance_all(baselines, readings.drop_last()).insert(r.0, (r.1, r.2))
    }
}

/// The baseline of `name` before a reading with totals `current`.
pub open spec fn baseline_or(
    baselines: Map<Seq<char>, (u64, u64)>,
    name: Seq<char>,
    current: (u64, u64),
) -> (u64, u64) {
    if baselines.contains_key(name) {
        baselines[name]
    } else {
        current
    }
}

/// Advance every interface of one tick, in order, and return the movements.
pub fn interface_deltas(baselines: &mut NamedCounters, readings: &Vec<CounterReading>) -> (r: Vec<(u64, u64)>)
    requires
        old(baselines).wf(),
    ensures
        final(baselines).wf(),
        final(baselines).view() == spec_advance_all(old(baselines).view(), readings_view(readings@)),
        r@.len() == readings@.len(),
        forall|i: int|
            0 <= i < readings@.len() ==> #[trigger] r@[i] == spec_delta(
                baseline_or(
                    spec_advance_all(old(baselines).view(), readings_view(readings@).take(i)),
                    readings@[i].name@,
                    (readings@[i].first, readings@[i].second),
                ),
                (readings@[i].first, readings@[i].second),
            ),
{
    let ghost all = readings_view(readings@);
    let ghost start = baselines.view();
    let mut out: Vec<(u64, u64)> = Vec::new();
    let mut i: usize = 0;
    while i < readings.len()
        invariant
            all == readings_view(readings@),
            start == old(baselines).view(),
            baselines.wf(),
            i <= readings@.len(),
            baselines.view() == spec_advance_all(start, all.take(i as int)),
            out@.len() == i,
            forall|k: int|
                0 <= k < i ==> #[trigger] out@[k] == spec_delta(
                    baseline_or(
                        spec_advance_all(start, all.take(k)),
                        readings@[k].name@,
                        (readings@[k].first, readings@[k].second),
                    ),
                    (readings@[k].first, readings@[k].second),
                ),
        decreases readings.len() - i,
    {
        let reading = &readings[i];
        let d = baselines.advance(reading.name.as_str(), (reading.first, reading.second));
        out.push(d);
        assert(all.take(i + 1).drop_last() =~= all.take(i as int));
        i = i + 1;
    }
    assert(all.take(readings@.len() as int) =~= all);
    out
}

/// The movement of one process's network counters. A process whose counters
/// cannot be read moved by nothing and leaves the baselines as they were;
/// otherwise its baseline becomes the current counters, and a process seen for
/// the first time moved by nothing.
pub fn process_net_delta(
    baselines: &mut HashMap<u32, (u64, u64)>,
    pid: u32,
    usage: Option<ProcessNetUsage>,
) -> (r: (u64, u64))
    ensures
        match usage {
            None => r == (0u64, 0u64) && final(baselines)@ == old(baselines)@,
            Some(u) => {
                &&& final(baselines)@ == old(baselines)@.insert(pid, (u.rx_bytes, u.tx_bytes))
                &&& r == spec_delta(
                    if old(baselines)@.contains_key(pid) {
                        old(baselines)@[pid]
                    } else {
                        (u.rx_bytes, u.tx_bytes)
                    },
                    (u.rx_bytes, u.tx_bytes),
                )
            },
        },
{
    match usage {
        None => (0, 0),
        Some(u) => {
            let current = (u.rx_bytes, u.tx_bytes);
            let previous = match baselines.get(&pid) {
                Some(p) => *p,
                None => current,
            };
            baselines.insert(pid, current);
            counter_delta(previous, current)
        },
    }
}

/// Drop the baselines of processes that are no longer listed.
pub fn retain_active(baselines: &mut HashMap<u32, (u64, u64)>, active: &Vec<u32>)
    ensures
        final(baselines)@ == old(baselines)@.restrict(active@.to_set()),
{
    let mut kept: HashMap<u32, (u64, u64)> = HashMap::new();
    let mut i: usize = 0;
    while i < active.len()
        invariant
            i <= active@.len(),
            kept@ == old(baselines)@.restrict(active@.take(i as int).to_set()),
            baselines@ == old(baselines)@,
        decreases active.len() - i,
    {
        let pid = active[i];
        assert(active@.take(i + 1) =~= active@.take(i as int).push(pid));
        match baselines.get(&pid) {
            Some(v) => {
                let v = *v;
                kept.insert(pid, v);
            },
            None => {},
        }
        proof {
            let s1 = active@.take(i as int);
            let s2 = active@.take(i + 1);
            assert forall|k: u32| s2.contains(k) <==> (s1.contains(k) || k == pid) by {
                if s2.contains(k) {
                    let j = choose|j: int| 0 <= j < s2.len() && s2[j] == k;
                    if j < i {
                        assert(s1[j] == k);
                    }
                }
                if s1.contains(k) {
                    let j = choose|j: int| 0 <= j < s1.len() && s1[j] == k;
                    assert(s2[j] == k);
                }
                if k == pid {
                    assert(s2[i as int] == pid);
                }
            }
            assert(kept@ =~= old(baselines)@.restrict(s2.to_set()));
        }
        i = i + 1;
    }
    assert(active@.take(active@.len() as int) =~= active@);
    *baselines = kept;
}

/// Disk throughput: never more entries than current readings; when every
/// current device was also seen before, there is one entry per device, in
/// order, with the device's name and how far its counters moved since the
/// previous read; when none was, there is no entry.
pub proof fn law_throughput_per_device(
    previous: Map<Seq<char>, (u64, u64)>,
    current: Seq<(Seq<char>, u64, u64)>,
)
    ensures
        spec_throughput(previous, current).len() <= current.len(),
        (forall|i: int| 0 <= i < current.len() ==> previous.contains_key(#[trigger] current[i].0))
            ==> {
            &&& spec_throughput(previous, current).len() == current.len()
            &&& forall|i: int|
                0 <= i < current.len() ==> #[trigger] spec_throughput(previous, current)[i] == (
                    current[i].0,
                    spec_delta(previous[current[i].0], (current[i].1, current[i].2)).0,
                    spec_delta(previous[current[i].0], (current[i].1, current[i].2)).1,
                )
        },
        (forall|i: int| 0 <= i < current.len() ==> !previous.contains_key(#[trigger] current[i].0))
            ==> spec_throughput(previous, current).len() == 0,
    decreases current.len(),
{
    if current.len() > 0 {
        let rest = current.drop_last();
        law_throughput_per_device(previous, rest);
        if forall|i: int| 0 <= i < current.len() ==> previous.contains_key(#[trigger] current[i].0) {
            assert forall|i: int| 0 <= i < rest.len() implies previous.contains_key(
                #[trigger] rest[i].0,
            ) by {
                assert(rest[i] == current[i]);
                assert(previous.contains_key(current[i].0));
            }
            assert(previous.contains_key(current[current.len() - 1].0));
            assert forall|i: int| 0 <= i < current.len() implies #[trigger] spec_throughput(
                previous,
                current,
            )[i] == (
                current[i].0,
                spec_delta(previous[current[i].0], (current[i].1, current[i].2)).0,
                spec_delta(previous[current[i].0], (current[i].1, current[i].2)).1,
            ) by {
                if i < rest.len() {
                    assert(rest[i] == current[i]);
                    assert(spec_throughput(previous, rest)[i] == spec_throughput(previous, current)[i]);
                }
            }
        }
        if forall|i: int| 0 <= i < current.len() ==> !previous.contains_key(#[trigger] current[i].0) {
            assert forall|i: int| 0 <= i < rest.len() implies !previous.contains_key(
                #[trigger] rest[i].0,
            ) by {
                assert(rest[i] == current[i]);
                assert(!previous.contains_key(current[i].0));
            }
            assert(!previous.contains_key(current[current.len() - 1].0));
        }
    }
}

/// Disk matching: there is a match exactly when some entry's name is related
/// to the disk's name, and then it is the counters of the first such entry.
pub proof fn law_first_related(name: Seq<char>, s: Seq<(Seq<char>, u64, u64)>)
    ensures
        first_related(name, s) is Some <==> exists|i: int|
            0 <= i < s.len() && names_related(name, #[trigger] s[i].0),
        first_related(name, s) matches Some(x) ==> exists|i: int|
            0 <= i < s.len() && names_related(name, #[trigger] s[i].0) && x == (s[i].1, s[i].2)
                && forall|j: int| 0 <= j < i ==> !names_related(name, s[j].0),
    decreases s.len(),
{
    if s.len() > 0 {
        let rest = s.drop_first();
        law_first_related(name, rest);
        if names_related(name, s[0].0) {
            assert(names_related(name, s[0].0));
        } else {
            if exists|i: int| 0 <= i < s.len() && names_related(name, #[trigger] s[i].0) {
                let i = choose|i: int| 0 <= i < s.len() && names_related(name, #[trigger] s[i].0);
                assert(rest[i - 1] == s[i]);
            }
            if exists|i: int| 0 <= i < rest.len() && names_related(name, #[trigger] rest[i].0) {
                let i = choose|i: int| 0 <= i < rest.len() && names_related(name, #[trigger] rest[i].0);
                assert(s[i + 1] == rest[i]);
            }
            match first_related(name, rest) {
                Some(x) => {
                    let i = choose|i: int|
                        0 <= i < rest.len() && names_related(name, #[trigger] rest[i].0) && x == (
                            rest[i].1,
                            rest[i].2,
                        ) && forall|j: int| 0 <= j < i ==> !names_related(name, rest[j].0);
                    assert(s[i + 1] == rest[i]);
                    assert forall|j: int| 0 <= j < i + 1 implies !names_related(name, s[j].0) by {
                        if j > 0 {
                            assert(s[j] == rest[j - 1]);
                        }
                    }
                },
                None => {},
            }
        }
    }
}

/// Interface baselines after a tick: each interface read in the tick has the
/// totals of its last reading; every other name keeps what it had.
pub proof fn law_advance_all(
    baselines: Map<Seq<char>, (u64, u64)>,
    readings: Seq<(Seq<char>, u64, u64)>,
    name: Seq<char>,
)
    ensures
        (forall|i: int| 0 <= i < readings.len() ==> #[trigger] readings[i].0 != name) ==> {
            &&& spec_advance_all(baselines, readings).contains_key(name) == baselines.contains_key(
                name,
            )
            &&& baselines.contains_key(name) ==> spec_advance_all(baselines, readings)[name]
                == baselines[name]
        },
        forall|i: int|
            0 <= i < readings.len() && #[trigger] readings[i].0 == name && (forall|j: int|
                i < j < readings.len() ==> readings[j].0 != name) ==> spec_advance_all(
                baselines,
                readings,
            ).contains_key(name) && spec_advance_all(baselines, readings)[name] == (
                readings[i].1,
                readings[i].2,
            ),
    decreases readings.len(),
{
    if readings.len() > 0 {
        let rest = readings.drop_last();
        law_advance_all(baselines, rest, name);
        assert forall|i: int|
            0 <= i < readings.len() && #[trigger] readings[i].0 == name && (forall|j: int|
                i < j < readings.len() ==> readings[j].0 != name) implies spec_advance_all(
            baselines,
            readings,
        ).contains_key(name) && spec_advance_all(baselines, readings)[name] == (
            readings[i].1,
            readings[i].2,
        ) by {
            if i < readings.len() - 1 {
                assert(readings[readings.len() - 1].0 != name);
                assert(rest[i] == readings[i]);
                assert forall|j: int| i < j < rest.len() implies rest[j].0 != name by {
                    assert(rest[j] == readings[j]);
                }
            }
        }
        if forall|i: int| 0 <= i < readings.len() ==> #[trigger] readings[i].0 != name {
            assert forall|i: int| 0 <= i < rest.len() implies #[trigger] rest[i].0 != name by {
                assert(rest[i] == readings[i]);
                assert(readings[i].0 != name);
            }
            assert(readings[readings.len() - 1].0 != name);
        }
    }
}

} // verus!
