//! The results of one run: commands, their counters, and the groups they
//! were run in.

use vstd::prelude::*;
use vstd::string::*;
use indexmap::IndexMap;
use crate::counter::BenchCounter;
use crate::text::same_text;
use crate::names::{
    texts, sorted, with_names, insert_name, lemma_with_names, among_first, stop_at, found_at_stop,
    place_of, Place, lemma_with_name_sorted, lemma_stop_at,
};
use crate::lookup::{
    first_index, is_first_at, lemma_first_index_found, lemma_first_index_absent, lemma_first_index,
    lemma_first_index_insert, distinct,
};

verus! {

/// One benchmarked command with the counters measured for it.
#[derive(Debug, Clone, PartialEq, Eq)]
pub struct SingleBench {
    /// The command line, one argument each.
    pub cmd: Vec<String>,
    /// The counters by name, in the order of the names, no name twice.
    pub counters: Vec<(String, BenchCounter)>,
}

/// `indexmap::IndexMap`: a map that keeps its entries in the order in which
/// their keys were first put in. Nothing of its inside is known here; what
/// a map of groups holds is `group_entries`.
#[verifier::external_type_specification]
#[verifier::external_body]
#[verifier::reject_recursive_types(K)]
#[verifier::reject_recursive_types(V)]
#[verifier::reject_recursive_types(S)]
pub struct ExIndexMap<K, V, S>(IndexMap<K, V, S>);

/// The groups that a map holds, name and benches, in the order of the map.
/// The wrappers of the map's methods below say what each of them does to
/// this list, as the documentation of `IndexMap` has it.
pub uninterp spec fn group_entries(groups: IndexMap<String, Vec<SingleBench>>) -> Seq<(String, Vec<SingleBench>)>;

/// The names of the groups, in order.
pub open spec fn group_names(entries: Seq<(String, Vec<SingleBench>)>) -> Seq<Seq<char>> {
    Seq::new(entries.len(), |i: int| entries[i].0@)
}

/// `IndexMap::len`: the number of groups in the map.
#[verifier::external_body]
fn groups_len(groups: &IndexMap<String, Vec<SingleBench>>) -> (n: usize)
    ensures
        n == group_entries(*groups).len(),
{
    groups.len()
}

/// `IndexMap::get_index`: the group at a place in the order of the map, none
/// from its length on.
#[verifier::external_body]
fn groups_get_index(
    groups: &IndexMap<String, Vec<SingleBench>>,
    index: usize,
) -> (r: Option<(&String, &Vec<SingleBench>)>)
    ensures
        index < group_entries(*groups).len() ==> r == Some(
            (&group_entries(*groups)[index as int].0, &group_entries(*groups)[index as int].1),
        ),
        index >= group_entries(*groups).len() ==> r is None,
{
    groups.get_index(index)
}

/// `IndexMap::get`: the benches of the group with the given name, none where
/// no group has it. A map holds no name twice, so the group is the first
/// with that name.
#[verifier::external_body]
fn groups_get<'a>(
    groups: &'a IndexMap<String, Vec<SingleBench>>,
    name: &str,
) -> (r: Option<&'a Vec<SingleBench>>)
    ensures
        r == match first_index(group_names(group_entries(*groups)), name@) {
            Some(i) => Some(&group_entries(*groups)[i].1),
            None => None,
        },
{
    groups.get(name)
}

/// `IndexMap::new`: a map without groups.
#[verifier::external_body]
fn groups_new() -> (groups: IndexMap<String, Vec<SingleBench>>)
    ensures
        group_entries(groups) == Seq::<(String, Vec<SingleBench>)>::empty(),
{
    IndexMap::new()
}

/// `IndexMap::insert`: where a group has the name already, it keeps its name
/// and its place, takes the new benches and hands back the ones it had; else
/// the new group comes last and nothing is handed back.
#[verifier::external_body]
fn groups_insert(
    groups: &mut IndexMap<String, Vec<SingleBench>>,
    name: String,
    benches: Vec<SingleBench>,
) -> (r: Option<Vec<SingleBench>>)
    ensures
        match first_index(group_names(group_entries(*old(groups))), name@) {
            Some(i) => {
                &&& r == Some(group_entries(*old(groups))[i].1)
                &&& group_entries(*final(groups)) == group_entries(*old(groups)).update(
                    i,
                    (group_entries(*old(groups))[i].0, benches),
                )
            },
            None => {
                &&& r is None
                &&& group_entries(*final(groups)) == group_entries(*old(groups)).push(
                    (name, benches),
                )
            },
        },
{
    groups.insert(name, benches)
}

/// The names of a list of counters, in order.
pub open spec fn entry_names(entries: Seq<(String, BenchCounter)>) -> Seq<Seq<char>> {
    Seq::new(entries.len(), |i: int| entries[i].0@)
}

/// The counter that a list holds under a name: the first of that name.
pub open spec fn lookup(entries: Seq<(String, BenchCounter)>, name: Seq<char>) -> Option<BenchCounter> {
    match first_index(entry_names(entries), name) {
        Some(i) => Some(entries[i].1),
        None => None,
    }
}

/// A list of counters with a counter set under a name. A counter that has
/// the name already is replaced where it stands. A new name is put in
/// before the first name that does not come before it.
pub open spec fn with_counter(
    entries: Seq<(String, BenchCounter)>,
    name: String,
    counter: BenchCounter,
) -> Seq<(String, BenchCounter)> {
    match first_index(entry_names(entries), name@) {
        Some(i) => entries.update(i, (entries[i].0, counter)),
        None => entries.insert(stop_at(entry_names(entries), name@, 0), (name, counter)),
    }
}

/// A list with a counter set under a name holds that counter under the
/// name and every other counter as before, and stays in the order of the
/// names where it was.
pub proof fn lemma_with_counter(entries: Seq<(String, BenchCounter)>, name: String, counter: BenchCounter)
    ensures
        lookup(with_counter(entries, name, counter), name@) == Some(counter),
        forall|other: Seq<char>|
            other != name@ ==> #[trigger] lookup(with_counter(entries, name, counter), other)
                == lookup(entries, other),
        sorted(entry_names(entries)) ==> sorted(entry_names(with_counter(entries, name, counter))),
{
    let before = entry_names(entries);
    let result = with_counter(entries, name, counter);
    let after = entry_names(result);
    lemma_first_index(before, name@);
    match first_index(before, name@) {
        Some(i) => {
            assert(after =~= before);
            assert forall|other: Seq<char>| other != name@ implies #[trigger] lookup(result, other)
                == lookup(entries, other) by {
                lemma_first_index(before, other);
            }
        },
        None => {
            let p = stop_at(before, name@, 0);
            lemma_stop_at(before, name@, 0);
            entries.insert_ensures(p, (name, counter));
            before.insert_ensures(p, name@);
            assert(after =~= before.insert(p, name@)) by {
                assert forall|j: int| 0 <= j < after.len() implies after[j] == before.insert(
                    p,
                    name@,
                )[j] by {
                    if j < p {
                        assert(result[j] == entries[j]);
                    } else if j > p {
                        assert(result[(j - 1) + 1] == entries[j - 1]);
                        assert(before.insert(p, name@)[(j - 1) + 1] == before[j - 1]);
                    }
                }
            }
            assert forall|j: int| 0 <= j < p implies after[j] != name@ by {
                assert(after[j] == before[j]);
            }
            assert(is_first_at(after, name@, p));
            lemma_first_index_found(after, name@, p);
            assert forall|other: Seq<char>| other != name@ implies #[trigger] lookup(result, other)
                == lookup(entries, other) by {
                lemma_first_index_insert(before, name@, p, other);
                lemma_first_index(before, other);
                match first_index(before, other) {
                    Some(i) => {
                        if i >= p {
                            assert(result[i + 1] == entries[i]);
                        } else {
                            assert(result[i] == entries[i]);
                        }
                    },
                    None => {},
                }
            }
            if sorted(before) {
                assert(!found_at_stop(before, name@));
                lemma_with_name_sorted(before, name@);
            }
        },
    }
}

impl SingleBench {
    /// The names of the counters, in the order in which they are held.
    pub open spec fn counter_names(&self) -> Seq<Seq<char>> {
        entry_names(self.counters@)
    }

    /// Whether the counters stand in the order of their names, no name
    /// twice: the order in which a sorted map holds them.
    pub open spec fn wf(&self) -> bool {
        sorted(self.counter_names())
    }

    /// The counter with the given name, if there is one.
    pub open spec fn counter(&self, name: Seq<char>) -> Option<BenchCounter> {
        lookup(self.counters@, name)
    }

    /// A command without counters.
    pub fn new(cmd: Vec<String>) -> (r: Self)
        ensures
            r.cmd == cmd,
            r.counters@.len() == 0,
            r.wf(),
    {
        SingleBench { cmd, counters: Vec::new() }
    }

    /// A command that was run once and measured by the CPU time it used,
    /// given in microseconds: its one counter, `user-time`, holds the time
    /// in milliseconds, without a variance.
    pub fn timed(cmd: Vec<String>, user_micros: i64) -> (r: Self)
        ensures
            r.cmd == cmd,
            r.counters@.len() == 1,
            r.counters@[0].0@ == "user-time"@,
            r.counters@[0].1.value == user_micros,
            r.counters@[0].1.variance == 0,
            r.counters@[0].1.repetitions == 1,
            r.counters@[0].1.unit@ == "msec"@,
            r.wf(),
    {
        let counter = BenchCounter {
            value: user_micros,
            variance: 0,
            repetitions: 1,
            unit: String::from_str("msec"),
        };
        let mut counters: Vec<(String, BenchCounter)> = Vec::new();
        counters.push((String::from_str("user-time"), counter));
        SingleBench { cmd, counters }
    }

    /// The place of the counter with the given name.
    pub fn position(&self, name: &str) -> (r: Option<usize>)
        ensures
            r is Some <==> first_index(self.counter_names(), name@) is Some,
            r matches Some(i) ==> first_index(self.counter_names(), name@) == Some(i as int),
    {
        let mut i: usize = 0;
        while i < self.counters.len()
            invariant
                i <= self.counters@.len(),
                forall|j: int| 0 <= j < i ==> self.counter_names()[j] != name@,
            decreases self.counters@.len() - i,
        {
            if same_text(self.counters[i].0.as_str(), name) {
                proof {
                    assert(self.counter_names()[i as int] == name@);
                    lemma_first_index_found(self.counter_names(), name@, i as int);
                }
                return Some(i);
            }
            i = i + 1;
        }
        proof {
            lemma_first_index_absent(self.counter_names(), name@);
        }
        None
    }

    /// Looks a counter up by its name.
    pub fn get(&self, name: &str) -> (r: Option<&BenchCounter>)
        ensures
            r is Some <==> self.counter(name@) is Some,
            r matches Some(c) ==> self.counter(name@) == Some(*c),
    {
        match self.position(name) {
            Some(i) => Some(&self.counters[i].1),
            None => None,
        }
    }

    /// The place before which a counter of the given name is put in: the
    /// place of the first counter whose name does not come before it.
    pub fn stop_place(&self, name: &str) -> (r: usize)
        ensures
            r == stop_at(self.counter_names(), name@, 0),
            r <= self.counters@.len(),
    {
        let mut i: usize = 0;
        while i < self.counters.len()
            invariant
                i <= self.counters@.len(),
                stop_at(self.counter_names(), name@, 0) == stop_at(
                    self.counter_names(),
                    name@,
                    i as int,
                ),
            decreases self.counters@.len() - i,
        {
            assert(self.counter_names()[i as int] == self.counters@[i as int].0@);
            match place_of(self.counters[i].0.as_str(), name) {
                Place::Before => {
                    i = i + 1;
                },
                _ => {
                    return i;
                },
            }
        }
        i
    }

    /// Sets the counter of the given name. A counter that has the name
    /// already is replaced where it stands and handed back. A new name is
    /// put in before the first name that does not come before it, so that
    /// counters in the order of their names stay in that order. No other
    /// counter changes.
    pub fn insert(&mut self, name: String, counter: BenchCounter) -> (r: Option<BenchCounter>)
        ensures
            final(self).cmd == old(self).cmd,
            r == old(self).counter(name@),
            final(self).counters@ == with_counter(old(self).counters@, name, counter),
            final(self).counter(name@) == Some(counter),
            forall|other: Seq<char>|
                other != name@ ==> #[trigger] final(self).counter(other) == old(self).counter(
                    other,
                ),
            old(self).wf() ==> final(self).wf(),
    {
        proof {
            lemma_with_counter(self.counters@, name, counter);
        }
        match self.position(name.as_str()) {
            Some(i) => {
                let entry = self.counters.remove(i);
                self.counters.insert(i, (entry.0, counter));
                assert(self.counters@ =~= old(self).counters@.update(
                    i as int,
                    (old(self).counters@[i as int].0, counter),
                ));
                Some(entry.1)
            },
            None => {
                let place: usize = self.stop_place(name.as_str());
                self.counters.insert(place, (name, counter));
                None
            },
        }
    }
}

/// A point in time: the seconds since the Unix epoch, and the nanoseconds
/// into the second.
#[derive(Debug, Clone, Copy, PartialEq, Eq)]
pub struct Timestamp {
    pub secs_since_epoch: u64,
    pub nanos_since_epoch: u32,
}

/// One full run: what was measured, when, where, and the results by group.
#[derive(Debug)]
pub struct BenchData {
    /// The commit that was measured; may be empty.
    pub commit_hash: String,
    /// When the commit was made, in seconds since the Unix epoch.
    pub commit_timestamp: u64,
    /// When the run was started.
    pub timestamp: Timestamp,
    pub arch: String,
    pub os: String,
    pub runner: String,
    pub cpu_model: String,
    /// The results by group, in the order in which the groups were added;
    /// in a group, in the order in which the commands were run.
    pub bench_groups: IndexMap<String, Vec<SingleBench>>,
}

/// The command lines of a list of benches, in order.
pub open spec fn commands(benches: Seq<SingleBench>) -> Seq<Seq<Seq<char>>> {
    Seq::new(benches.len(), |i: int| texts(benches[i].cmd@))
}

/// The counter names of the first `m` benches, each once, in rising order.
pub open spec fn metric_names_first(benches: Seq<SingleBench>, m: nat) -> Seq<Seq<char>>
    decreases m,
{
    if m == 0 {
        Seq::empty()
    } else {
        with_names(
            metric_names_first(benches, (m - 1) as nat),
            benches[m - 1].counter_names(),
            benches[m - 1].counter_names().len(),
        )
    }
}

/// The names of all counters that any of the benches has, each once, in
/// rising order.
pub open spec fn metric_names(benches: Seq<SingleBench>) -> Seq<Seq<char>> {
    metric_names_first(benches, benches.len())
}

/// Whether one of the first `m` benches has a counter of the given name.
pub open spec fn measured_by_first(benches: Seq<SingleBench>, m: nat, name: Seq<char>) -> bool {
    exists|i: int| 0 <= i < m && #[trigger] benches[i].counter_names().contains(name)
}

/// The metric names of a list of benches are sorted, and they are the names
/// of the counters that its benches have: no other, and none left out.
pub proof fn law_metric_names(benches: Seq<SingleBench>)
    ensures
        sorted(metric_names(benches)),
        forall|name: Seq<char>| #[trigger]
            metric_names(benches).contains(name) <==> measured_by_first(
                benches,
                benches.len(),
                name,
            ),
{
    lemma_metric_names_first(benches, benches.len());
}

proof fn lemma_metric_names_first(benches: Seq<SingleBench>, m: nat)
    requires
        m <= benches.len(),
    ensures
        sorted(metric_names_first(benches, m)),
        forall|name: Seq<char>| #[trigger]
            metric_names_first(benches, m).contains(name) <==> measured_by_first(benches, m, name),
    decreases m,
{
    if m > 0 {
        let earlier = metric_names_first(benches, (m - 1) as nat);
        let more = benches[m - 1].counter_names();
        let result = metric_names_first(benches, m);
        lemma_metric_names_first(benches, (m - 1) as nat);
        lemma_with_names(earlier, more, more.len());
        assert(result == with_names(earlier, more, more.len()));
        assert forall|name: Seq<char>| #[trigger]
            result.contains(name) <==> measured_by_first(benches, m, name) by {
            assert(result.contains(name) <==> (earlier.contains(name) || among_first(
                more,
                more.len(),
                name,
            )));
            assert(earlier.contains(name) <==> measured_by_first(benches, (m - 1) as nat, name));
            if measured_by_first(benches, (m - 1) as nat, name) {
                let i = choose|i: int|
                    0 <= i < (m - 1) as nat && #[trigger] benches[i].counter_names().contains(name);
                assert(0 <= i < m && benches[i].counter_names().contains(name));
            }
            if among_first(more, more.len(), name) {
                let k = choose|k: int| 0 <= k < more.len() && more[k] == name;
                assert(more.contains(name));
                assert(0 <= m - 1 < m && benches[m - 1].counter_names().contains(name));
            }
            if measured_by_first(benches, m, name) {
                let i = choose|i: int|
                    0 <= i < m && #[trigger] benches[i].counter_names().contains(name);
                if i < m - 1 {
                    assert(0 <= i < (m - 1) as nat && benches[i].counter_names().contains(name));
                } else {
                    assert(more.contains(name));
                    let k = choose|k: int| 0 <= k < more.len() && more[k] == name;
                    assert(0 <= k < more.len() && more[k] == name);
                }
            }
        }
    } else {
        assert forall|name: Seq<char>| !metric_names_first(benches, m).contains(name) by {}
        assert forall|name: Seq<char>| !measured_by_first(benches, m, name) by {}
    }
}

/// Collects the names of all counters of a list of benches, each once, in
/// rising order.
pub fn available_counters(benches: &Vec<SingleBench>) -> (names: Vec<String>)
    ensures
        texts(names@) == metric_names(benches@),
{
    let mut names: Vec<String> = Vec::new();
    let mut i: usize = 0;
    assert(texts(names@) =~= metric_names_first(benches@, 0));
    while i < benches.len()
        invariant
            i <= benches@.len(),
            texts(names@) == metric_names_first(benches@, i as nat),
        decreases benches@.len() - i,
    {
        let bench = &benches[i];
        let ghost earlier = texts(names@);
        let mut k: usize = 0;
        while k < bench.counters.len()
            invariant
                k <= bench.counters@.len(),
                bench == &benches@[i as int],
                texts(names@) == with_names(earlier, bench.counter_names(), k as nat),
            decreases bench.counters@.len() - k,
        {
            insert_name(&mut names, bench.counters[k].0.as_str());
            k = k + 1;
        }
        i = i + 1;
    }
    names
}

/// Whether two command lines have the same arguments.
pub fn same_command(a: &Vec<String>, b: &Vec<String>) -> (r: bool)
    ensures
        r == (texts(a@) == texts(b@)),
{
    if a.len() != b.len() {
        assert(texts(a@).len() != texts(b@).len());
        return false;
    }
    let mut i: usize = 0;
    while i < a.len()
        invariant
            i <= a@.len(),
            a@.len() == b@.len(),
            forall|j: int| 0 <= j < i ==> a@[j]@ == b@[j]@,
        decreases a@.len() - i,
    {
        if !same_text(a[i].as_str(), b[i].as_str()) {
            assert(texts(a@)[i as int] != texts(b@)[i as int]);
            return false;
        }
        i = i + 1;
    }
    assert(texts(a@) =~= texts(b@));
    true
}

/// Finds the first bench that ran the given command line.
pub fn find_command<'a>(
    benches: &'a Vec<SingleBench>,
    cmd: &Vec<String>,
) -> (r: Option<&'a SingleBench>)
    ensures
        r == match first_index(commands(benches@), texts(cmd@)) {
            Some(i) => Some(&benches@[i]),
            None => None,
        },
{
    let mut i: usize = 0;
    while i < benches.len()
        invariant
            i <= benches@.len(),
            forall|j: int| 0 <= j < i ==> commands(benches@)[j] != texts(cmd@),
        decreases benches@.len() - i,
    {
        if same_command(&benches[i].cmd, cmd) {
            proof {
                assert(commands(benches@)[i as int] == texts(cmd@));
                lemma_first_index_found(commands(benches@), texts(cmd@), i as int);
            }
            return Some(&benches[i]);
        }
        i = i + 1;
    }
    proof {
        lemma_first_index_absent(commands(benches@), texts(cmd@));
    }
    None
}

/// The commit hashes of a list of runs, in order.
pub open spec fn commit_hashes(runs: Seq<BenchData>) -> Seq<Seq<char>> {
    Seq::new(runs.len(), |i: int| runs[i].commit_hash@)
}

/// Finds the run to compare with in a history of runs: the first one that
/// measured the given commit. Without such a run there is nothing to
/// compare with.
pub fn find_baseline<'a>(
    history: &'a Vec<BenchData>,
    base_commit: &str,
) -> (r: Option<&'a BenchData>)
    ensures
        r == match first_index(commit_hashes(history@), base_commit@) {
            Some(i) => Some(&history@[i]),
            None => None,
        },
{
    let mut i: usize = 0;
    while i < history.len()
        invariant
            i <= history@.len(),
            forall|j: int| 0 <= j < i ==> commit_hashes(history@)[j] != base_commit@,
        decreases history@.len() - i,
    {
        if history[i].measured(base_commit) {
            proof {
                assert(commit_hashes(history@)[i as int] == base_commit@);
                lemma_first_index_found(commit_hashes(history@), base_commit@, i as int);
            }
            return Some(&history[i]);
        }
        i = i + 1;
    }
    proof {
        lemma_first_index_absent(commit_hashes(history@), base_commit@);
    }
    None
}

impl BenchData {
    /// The groups, in the order in which they were added.
    pub open spec fn groups(&self) -> Seq<(String, Vec<SingleBench>)> {
        group_entries(self.bench_groups)
    }

    /// The benches of the group with the given name, if there is one.
    pub open spec fn group(&self, name: Seq<char>) -> Option<Vec<SingleBench>> {
        match first_index(group_names(self.groups()), name) {
            Some(i) => Some(self.groups()[i].1),
            None => None,
        }
    }

    /// The counter that a reference names: the counter `measure` of the
    /// bench at place `index` of the group `group`. There is none where the
    /// run has no such group, the group no such place, or the bench no such
    /// counter.
    pub open spec fn resolved(
        &self,
        group: Seq<char>,
        index: int,
        measure: Seq<char>,
    ) -> Option<BenchCounter> {
        match self.group(group) {
            Some(benches) => if 0 <= index < benches@.len() {
                benches@[index].counter(measure)
            } else {
                None
            },
            None => None,
        }
    }

    /// Whether no two groups have the same name.
    pub open spec fn wf(&self) -> bool {
        distinct(group_names(self.groups()))
    }

    /// Whether two runs were made in the same environment.
    pub open spec fn same_environment(&self, other: &Self) -> bool {
        &&& self.arch@ == other.arch@
        &&& self.os@ == other.os@
        &&& self.runner@ == other.runner@
        &&& self.cpu_model@ == other.cpu_model@
    }

    /// A run without results yet.
    pub fn new(
        commit_hash: String,
        commit_timestamp: u64,
        timestamp: Timestamp,
        arch: String,
        os: String,
        runner: String,
        cpu_model: String,
    ) -> (r: Self)
        ensures
            r.commit_hash == commit_hash,
            r.commit_timestamp == commit_timestamp,
            r.timestamp == timestamp,
            r.arch == arch,
            r.os == os,
            r.runner == runner,
            r.cpu_model == cpu_model,
            r.groups().len() == 0,
            r.wf(),
    {
        BenchData {
            commit_hash,
            commit_timestamp,
            timestamp,
            arch,
            os,
            runner,
            cpu_model,
            bench_groups: groups_new(),
        }
    }

    /// Adds the results of a group. A group of that name that is there
    /// already keeps its place and takes the new results; a new group comes
    /// last.
    pub fn add_group(&mut self, name: String, benches: Vec<SingleBench>)
        ensures
            final(self).commit_hash == old(self).commit_hash,
            final(self).commit_timestamp == old(self).commit_timestamp,
            final(self).timestamp == old(self).timestamp,
            final(self).arch == old(self).arch,
            final(self).os == old(self).os,
            final(self).runner == old(self).runner,
            final(self).cpu_model == old(self).cpu_model,
            match first_index(group_names(old(self).groups()), name@) {
                Some(i) => final(self).groups() == old(self).groups().update(
                    i,
                    (old(self).groups()[i].0, benches),
                ),
                None => final(self).groups() == old(self).groups().push((name, benches)),
            },
            final(self).group(name@) == Some(benches),
            old(self).wf() ==> final(self).wf(),
    {
        let ghost before = group_names(self.groups());
        let _ = groups_insert(&mut self.bench_groups, name, benches);
        proof {
            let after = group_names(self.groups());
            lemma_first_index(before, name@);
            match first_index(before, name@) {
                Some(i) => {
                    assert(after =~= before);
                },
                None => {
                    assert(after =~= before.push(name@));
                    assert(is_first_at(after, name@, before.len() as int));
                    lemma_first_index_found(after, name@, before.len() as int);
                },
            }
        }
    }

    /// The number of groups.
    pub fn group_count(&self) -> (n: usize)
        ensures
            n == self.groups().len(),
    {
        groups_len(&self.bench_groups)
    }

    /// The name and the benches of the group at a place in the order.
    pub fn group_at(&self, index: usize) -> (r: Option<(&String, &Vec<SingleBench>)>)
        ensures
            index < self.groups().len() ==> r == Some(
                (&self.groups()[index as int].0, &self.groups()[index as int].1),
            ),
            index >= self.groups().len() ==> r is None,
    {
        groups_get_index(&self.bench_groups, index)
    }

    /// Looks a group up by its name.
    pub fn get_group(&self, name: &str) -> (r: Option<&Vec<SingleBench>>)
        ensures
            r is Some <==> self.group(name@) is Some,
            r matches Some(benches) ==> self.group(name@) == Some(*benches),
    {
        groups_get(&self.bench_groups, name)
    }

    /// Follows a reference to the counter that it names.
    pub fn resolve(&self, group: &str, index: usize, measure: &str) -> (r: Option<&BenchCounter>)
        ensures
            r is Some <==> self.resolved(group@, index as int, measure@) is Some,
            r matches Some(c) ==> self.resolved(group@, index as int, measure@) == Some(*c),
    {
        match self.get_group(group) {
            Some(benches) => {
                if index < benches.len() {
                    benches[index].get(measure)
                } else {
                    None
                }
            },
            None => None,
        }
    }

    /// Whether the run measured the given commit.
    pub fn measured(&self, commit: &str) -> (r: bool)
        ensures
            r == (self.commit_hash@ == commit@),
    {
        same_text(self.commit_hash.as_str(), commit)
    }

    /// Compares the environments of two runs.
    pub fn in_same_environment(&self, other: &Self) -> (r: bool)
        ensures
            r == self.same_environment(other),
    {
        self.arch == other.arch && self.os == other.os && self.runner == other.runner
            && self.cpu_model == other.cpu_model
    }
}

} // verus!
