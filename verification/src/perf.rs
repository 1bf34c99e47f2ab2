//! The counters of a command, put together from the events that a profiler
//! reports for it.

use vstd::prelude::*;
use vstd::string::*;
use crate::bench::{SingleBench, with_counter, lookup, entry_names, lemma_with_counter};
use crate::counter::BenchCounter;
use crate::names::sorted;
use crate::text::same_text;

verus! {

/// One event of a profiler's report on a command.
#[derive(Debug, Clone, PartialEq, Eq)]
pub struct PerfEvent {
    /// The name of the event.
    pub event: String,
    /// What the profiler wrote for the count: a number, or `<not counted>`
    /// for an event that it could not count.
    pub counter_value: String,
    /// The number that `counter_value` holds, in thousandths; none where it
    /// holds no number.
    pub value: Option<i64>,
    /// The variance over the repetitions, in thousandths.
    pub variance: u64,
    /// The unit of the count.
    pub unit: String,
}

/// Whether a profiler has counted an event at all: in place of a number it
/// reports `<not counted>` for an event that it could not count, and such
/// an event gives no counter.
pub fn was_counted(counter_value: &str) -> (r: bool)
    ensures
        r == (counter_value@ != "<not counted>"@),
{
    !same_text(counter_value, "<not counted>")
}

impl PerfEvent {
    /// Whether the event was counted.
    pub open spec fn counted(&self) -> bool {
        self.counter_value@ != "<not counted>"@
    }

    /// Whether the event was counted, but its count is no number.
    pub open spec fn unreadable(&self) -> bool {
        self.counted() && self.value is None
    }

    /// The counter that a counted event gives.
    pub open spec fn counter(&self, repetitions: u32) -> BenchCounter {
        BenchCounter {
            value: self.value->0,
            variance: self.variance,
            repetitions,
            unit: self.unit,
        }
    }
}

/// The counters that the first `n` events give: each counted event sets the
/// counter of its name, so that of two events of one name the later stays.
pub open spec fn counted_first(events: Seq<PerfEvent>, repetitions: u32, n: nat) -> Seq<
    (String, BenchCounter),
>
    decreases n,
{
    if n == 0 {
        Seq::empty()
    } else {
        let earlier = counted_first(events, repetitions, (n - 1) as nat);
        if events[n - 1].counted() {
            with_counter(earlier, events[n - 1].event, events[n - 1].counter(repetitions))
        } else {
            earlier
        }
    }
}

/// The place of the last counted event of a name among the first `n`.
pub open spec fn last_counted(events: Seq<PerfEvent>, n: nat, name: Seq<char>) -> Option<int>
    decreases n,
{
    if n == 0 {
        None
    } else if events[n - 1].counted() && events[n - 1].event@ == name {
        Some(n - 1)
    } else {
        last_counted(events, (n - 1) as nat, name)
    }
}

/// The counters that events give stand in the order of their names, and
/// under each name stands the counter of the last counted event of that
/// name: there are exactly the counted events, the last of each name.
pub proof fn law_counted_events(events: Seq<PerfEvent>, repetitions: u32, n: nat, name: Seq<char>)
    requires
        n <= events.len(),
    ensures
        sorted(entry_names(counted_first(events, repetitions, n))),
        lookup(counted_first(events, repetitions, n), name) == match last_counted(events, n, name) {
            Some(i) => Some(events[i].counter(repetitions)),
            None => None,
        },
    decreases n,
{
    if n > 0 {
        let earlier = counted_first(events, repetitions, (n - 1) as nat);
        law_counted_events(events, repetitions, (n - 1) as nat, name);
        if events[n - 1].counted() {
            lemma_with_counter(earlier, events[n - 1].event, events[n - 1].counter(repetitions));
        }
    } else {
        assert(entry_names(counted_first(events, repetitions, n)).len() == 0);
    }
}

/// Puts the counters of a command together from the events of a profiler's
/// report. Events that were not counted are left out; of two events of one
/// name the later stays. There is no result where there was no repetition,
/// or where a counted event holds no number.
pub fn counted_events(cmd: Vec<String>, events: Vec<PerfEvent>, repetitions: u32) -> (r: Option<
    SingleBench,
>)
    ensures
        r is None <==> repetitions == 0 || exists|i: int|
            0 <= i < events@.len() && #[trigger] events@[i].unreadable(),
        r matches Some(b) ==> b.cmd == cmd && b.wf() && b.counters@ == counted_first(
            events@,
            repetitions,
            events@.len(),
        ),
{
    if repetitions == 0 {
        return None;
    }
    let mut bench = SingleBench::new(cmd);
    assert(bench.counters@ =~= counted_first(events@, repetitions, 0));
    let mut i: usize = 0;
    while i < events.len()
        invariant
            i <= events@.len(),
            bench.cmd == cmd,
            bench.wf(),
            bench.counters@ == counted_first(events@, repetitions, i as nat),
            forall|j: int| 0 <= j < i ==> !(#[trigger] events@[j].unreadable()),
        decreases events@.len() - i,
    {
        let event = &events[i];
        if was_counted(event.counter_value.as_str()) {
            match event.value {
                Some(value) => {
                    let counter = BenchCounter {
                        value,
                        variance: event.variance,
                        repetitions,
                        unit: event.unit.clone(),
                    };
                    let _ = bench.insert(event.event.clone(), counter);
                },
                None => {
                    assert(events@[i as int].unreadable());
                    return None;
                },
            }
        }
        i = i + 1;
    }
    Some(bench)
}

} // verus!
