use bench_compare::bench::{
    available_counters, find_baseline, find_command, same_command, BenchData, SingleBench,
    Timestamp,
};
use bench_compare::compare::repetitions_for_group;
use bench_compare::counter::BenchCounter;
use bench_compare::perf::{counted_events, was_counted, PerfEvent};

fn words(text: &str) -> Vec<String> {
    text.split(' ').map(|word| word.to_string()).collect()
}

fn counter(value: i64, unit: &str) -> BenchCounter {
    BenchCounter { value, variance: 0, repetitions: 20, unit: unit.to_string() }
}

fn bench(cmd: &str, counters: &[(&str, i64)]) -> SingleBench {
    let mut bench = SingleBench::new(words(cmd));
    for (name, value) in counters {
        bench.insert(name.to_string(), counter(*value, "cycles"));
    }
    bench
}

fn run(commit: &str) -> BenchData {
    BenchData::new(
        commit.to_string(),
        1_700_000_000,
        Timestamp { secs_since_epoch: 1_700_000_100, nanos_since_epoch: 5 },
        "X64".to_string(),
        "Linux".to_string(),
        "runner-1".to_string(),
        "Some CPU".to_string(),
    )
}

#[test]
fn a_new_bench_has_no_counters() {
    let bench = SingleBench::new(words("echo hi"));
    assert_eq!(bench.cmd, words("echo hi"));
    assert!(bench.counters.is_empty());
    assert_eq!(bench.get("cycles"), None);
    assert_eq!(bench.position("cycles"), None);
}

#[test]
fn counters_are_found_by_name() {
    let bench = bench("echo hi", &[("task-clock", 3), ("cycles", 1), ("instructions", 2)]);
    assert_eq!(bench.position("cycles"), Some(0));
    assert_eq!(bench.position("instructions"), Some(1));
    assert_eq!(bench.position("task-clock"), Some(2));
    assert_eq!(bench.position("cycle"), None);
    assert_eq!(bench.get("instructions"), Some(&counter(2, "cycles")));
    assert_eq!(bench.get("Instructions"), None);
}

#[test]
fn inserting_a_name_again_replaces_the_counter_in_place() {
    let mut bench = bench("echo hi", &[("cycles", 1), ("instructions", 2)]);
    let earlier = bench.insert("cycles".to_string(), counter(9, "cycles"));
    assert_eq!(earlier, Some(counter(1, "cycles")));
    assert_eq!(bench.counters.len(), 2);
    assert_eq!(bench.counters[0], ("cycles".to_string(), counter(9, "cycles")));
    assert_eq!(bench.counters[1], ("instructions".to_string(), counter(2, "cycles")));
    let none = bench.insert("branches".to_string(), counter(4, "cycles"));
    assert_eq!(none, None);
    assert_eq!(bench.counters[0], ("branches".to_string(), counter(4, "cycles")));
    assert_eq!(bench.counters[1], ("cycles".to_string(), counter(9, "cycles")));
    assert_eq!(bench.counters[2], ("instructions".to_string(), counter(2, "cycles")));
}

#[test]
fn counters_stand_in_the_order_of_their_names() {
    let words = ["task-clock", "cycles", "user-time", "branches", "instructions", "cycles", ""];
    let mut bench = SingleBench::new(Vec::new());
    let mut expected = std::collections::BTreeMap::new();
    for (i, word) in words.iter().enumerate() {
        bench.insert(word.to_string(), counter(i as i64, "cycles"));
        expected.insert(word.to_string(), counter(i as i64, "cycles"));
        let held: Vec<(String, BenchCounter)> =
            expected.iter().map(|(name, c)| (name.clone(), c.clone())).collect();
        assert_eq!(bench.counters, held);
        assert_eq!(bench.stop_place(word), held.iter().position(|(name, _)| name == word).unwrap());
    }
    assert_eq!(bench.stop_place("zzz"), bench.counters.len());
    assert_eq!(bench.stop_place("cyc"), 2);
}

#[test]
fn benches_with_the_same_counters_are_equal() {
    let one = bench("echo hi", &[("cycles", 1), ("instructions", 2), ("branches", 3)]);
    let other = bench("echo hi", &[("branches", 3), ("instructions", 2), ("cycles", 1)]);
    assert_eq!(one, other);
}

fn event(name: &str, text: &str, value: Option<i64>) -> PerfEvent {
    PerfEvent {
        event: name.to_string(),
        counter_value: text.to_string(),
        value,
        variance: 250,
        unit: "u".to_string(),
    }
}

fn measured(value: i64, repetitions: u32) -> BenchCounter {
    BenchCounter { value, variance: 250, repetitions, unit: "u".to_string() }
}

#[test]
fn counted_events_give_the_counters() {
    let events = vec![
        event("task-clock", "12.5", Some(12_500)),
        event("cycles", "<not counted>", None),
        event("instructions", "7", Some(7_000)),
        event("cycles", "1000", Some(1_000_000)),
        event("branches", "<not counted>", Some(5)),
        event("instructions", "9", Some(9_000)),
    ];
    let bench = counted_events(words("gzip -1"), events, 20).unwrap();
    assert_eq!(bench.cmd, words("gzip -1"));
    assert_eq!(
        bench.counters,
        vec![
            ("cycles".to_string(), measured(1_000_000, 20)),
            ("instructions".to_string(), measured(9_000, 20)),
            ("task-clock".to_string(), measured(12_500, 20)),
        ]
    );
    let none = counted_events(words("true"), Vec::new(), 1).unwrap();
    assert!(none.counters.is_empty());
}

#[test]
fn events_without_a_number_or_a_repetition_give_nothing() {
    let good = vec![event("cycles", "1000", Some(1_000_000))];
    assert_eq!(counted_events(words("a"), good.clone(), 0), None);
    assert!(counted_events(words("a"), good, 1).is_some());
    let bad = vec![event("cycles", "1000", Some(1_000_000)), event("instructions", "many", None)];
    assert_eq!(counted_events(words("a"), bad, 20), None);
    let uncounted = vec![event("cycles", "<not counted>", None)];
    assert!(counted_events(words("a"), uncounted, 20).unwrap().counters.is_empty());
    assert_eq!(counted_events(words("a"), Vec::new(), 0), None);
}


#[test]
fn a_timed_bench_holds_the_user_time_in_milliseconds() {
    let bench = SingleBench::timed(words("sleep 1"), 12_345);
    assert_eq!(bench.cmd, words("sleep 1"));
    assert_eq!(
        bench.counters,
        vec![(
            "user-time".to_string(),
            BenchCounter { value: 12_345, variance: 0, repetitions: 1, unit: "msec".to_string() }
        )]
    );
}

#[test]
fn command_lines_are_compared_argument_by_argument() {
    assert!(same_command(&words("a b c"), &words("a b c")));
    assert!(!same_command(&words("a b c"), &words("a b")));
    assert!(!same_command(&words("a b"), &words("a b c")));
    assert!(!same_command(&words("a b c"), &words("a b d")));
    assert!(!same_command(&vec!["a b".to_string()], &words("a b")));
    assert!(same_command(&Vec::new(), &Vec::new()));
}

#[test]
fn the_first_bench_of_a_command_line_is_found() {
    let benches = vec![
        bench("gzip -1", &[("cycles", 1)]),
        bench("gzip -2", &[("cycles", 2)]),
        bench("gzip -1", &[("cycles", 3)]),
    ];
    assert_eq!(find_command(&benches, &words("gzip -2")), Some(&benches[1]));
    assert_eq!(find_command(&benches, &words("gzip -1")), Some(&benches[0]));
    assert_eq!(find_command(&benches, &words("gzip -3")), None);
    assert_eq!(find_command(&Vec::new(), &words("gzip -1")), None);
}

#[test]
fn metric_names_are_the_sorted_union() {
    let benches = vec![
        bench("a", &[("task-clock", 1), ("cycles", 2)]),
        bench("b", &[]),
        bench("c", &[("instructions", 3), ("cycles", 4), ("branches", 5)]),
    ];
    assert_eq!(
        available_counters(&benches),
        vec!["branches", "cycles", "instructions", "task-clock"]
    );
    assert!(available_counters(&Vec::new()).is_empty());
}

#[test]
fn a_new_run_has_no_groups() {
    let data = run("abc");
    assert_eq!(data.commit_hash, "abc");
    assert_eq!(data.commit_timestamp, 1_700_000_000);
    assert_eq!(data.timestamp, Timestamp { secs_since_epoch: 1_700_000_100, nanos_since_epoch: 5 });
    assert_eq!(data.arch, "X64");
    assert_eq!(data.os, "Linux");
    assert_eq!(data.runner, "runner-1");
    assert_eq!(data.cpu_model, "Some CPU");
    assert_eq!(data.group_count(), 0);
    assert_eq!(data.group_at(0), None);
    assert_eq!(data.get_group("compress"), None);
}

#[test]
fn groups_keep_the_order_in_which_they_were_added() {
    let mut data = run("abc");
    data.add_group("zeta".to_string(), vec![bench("z", &[("cycles", 1)])]);
    data.add_group("alpha".to_string(), vec![bench("a", &[("cycles", 2)])]);
    data.add_group("mid".to_string(), vec![]);
    assert_eq!(data.group_count(), 3);
    let (name, benches) = data.group_at(0).unwrap();
    assert_eq!(name, "zeta");
    assert_eq!(benches, &vec![bench("z", &[("cycles", 1)])]);
    assert_eq!(data.group_at(1).unwrap().0, "alpha");
    assert_eq!(data.group_at(2).unwrap().0, "mid");
    assert_eq!(data.group_at(3), None);
    assert_eq!(data.get_group("alpha"), Some(&vec![bench("a", &[("cycles", 2)])]));
    assert_eq!(data.get_group("beta"), None);
}

#[test]
fn adding_a_group_again_replaces_it_in_place() {
    let mut data = run("abc");
    data.add_group("one".to_string(), vec![bench("a", &[("cycles", 1)])]);
    data.add_group("two".to_string(), vec![bench("b", &[("cycles", 2)])]);
    data.add_group("one".to_string(), vec![bench("c", &[("cycles", 3)])]);
    assert_eq!(data.group_count(), 2);
    assert_eq!(data.group_at(0).unwrap().0, "one");
    assert_eq!(data.group_at(0).unwrap().1, &vec![bench("c", &[("cycles", 3)])]);
    assert_eq!(data.group_at(1).unwrap().0, "two");
}

#[test]
fn references_are_followed_or_name_nothing() {
    let mut data = run("abc");
    data.add_group(
        "compress".to_string(),
        vec![bench("gzip -1", &[("cycles", 10)]), bench("gzip -2", &[("cycles", 20)])],
    );
    assert_eq!(data.resolve("compress", 1, "cycles"), Some(&counter(20, "cycles")));
    assert_eq!(data.resolve("compress", 0, "cycles"), Some(&counter(10, "cycles")));
    assert_eq!(data.resolve("decompress", 0, "cycles"), None);
    assert_eq!(data.resolve("compress", 2, "cycles"), None);
    assert_eq!(data.resolve("compress", usize::MAX, "cycles"), None);
    assert_eq!(data.resolve("compress", 0, "instructions"), None);
}

#[test]
fn environments_are_compared_field_by_field() {
    let a = run("abc");
    assert!(a.in_same_environment(&run("def")));
    let mut b = run("abc");
    b.arch = "ARM64".to_string();
    assert!(!a.in_same_environment(&b));
    let mut b = run("abc");
    b.os = "macOS".to_string();
    assert!(!a.in_same_environment(&b));
    let mut b = run("abc");
    b.runner = "runner-2".to_string();
    assert!(!a.in_same_environment(&b));
    let mut b = run("abc");
    b.cpu_model = "Other CPU".to_string();
    assert!(!a.in_same_environment(&b));
}

#[test]
fn the_baseline_is_the_first_run_of_the_commit() {
    let mut first = run("base");
    first.commit_timestamp = 1;
    let mut second = run("base");
    second.commit_timestamp = 2;
    let history = vec![run("old"), first, second, run("new")];
    assert!(history[1].measured("base"));
    assert!(!history[1].measured("bas"));
    assert!(!history[0].measured("base"));
    assert_eq!(find_baseline(&history, "base").unwrap().commit_timestamp, 1);
    assert_eq!(find_baseline(&history, "new").unwrap().commit_hash, "new");
    assert!(find_baseline(&history, "missing").is_none());
    assert!(find_baseline(&Vec::new(), "base").is_none());
}

#[test]
fn groups_are_repeated_twenty_times_unless_told_otherwise() {
    let overrides = vec![("slow".to_string(), 3u32), ("fast".to_string(), 100), ("slow".to_string(), 7)];
    assert_eq!(repetitions_for_group(&overrides, "slow"), 3);
    assert_eq!(repetitions_for_group(&overrides, "fast"), 100);
    assert_eq!(repetitions_for_group(&overrides, "other"), 20);
    assert_eq!(repetitions_for_group(&Vec::new(), "slow"), 20);
}

#[test]
fn events_that_were_not_counted_are_told_apart() {
    assert!(!was_counted("<not counted>"));
    assert!(was_counted("1234567"));
    assert!(was_counted("12.34"));
    assert!(was_counted("<not supported>"));
    assert!(was_counted(""));
}
