use indexmap::IndexMap;

use bench_compare::bench::{BenchData, SingleBench, Timestamp};
use bench_compare::compare::{Compare, Reference, VersusOther};
use bench_compare::counter::BenchCounter;
use bench_compare::report::{push_commit_link, push_joined, shorten, strip_decoration, ReportError};

fn words(text: &str) -> Vec<String> {
    text.split(' ').map(|word| word.to_string()).collect()
}

fn counter(value: i64, variance: u64, unit: &str) -> BenchCounter {
    BenchCounter { value, variance, repetitions: 20, unit: unit.to_string() }
}

fn bench(cmd: &str, counters: &[(&str, BenchCounter)]) -> SingleBench {
    let mut bench = SingleBench::new(words(cmd));
    for (name, counter) in counters {
        bench.insert(name.to_string(), counter.clone());
    }
    bench
}

fn run(commit: &str) -> BenchData {
    BenchData::new(
        commit.to_string(),
        1_700_000_000,
        Timestamp { secs_since_epoch: 1_700_000_100, nanos_since_epoch: 0 },
        "X64".to_string(),
        "Linux".to_string(),
        "runner-1".to_string(),
        "Some CPU".to_string(),
    )
}

fn rows(rows: &[(&str, usize)]) -> IndexMap<String, usize> {
    rows.iter().map(|(name, place)| (name.to_string(), *place)).collect()
}

fn table(measure: &str, command: &str, places: &[(&str, usize)]) -> VersusOther {
    VersusOther { measure: measure.to_string(), command: command.to_string(), rows: rows(places) }
}

fn reference(command: &str, index: usize) -> Reference {
    Reference { command: command.to_string(), index }
}

#[test]
fn a_row_shows_both_means_and_the_change() {
    let mut md = String::from("x\n");
    let before = counter(100_000, 1_000, "cycles");
    let after = counter(110_000, 1_000, "cycles");
    BenchCounter::render_markdown_row(&mut md, "level 0", &before, &after);
    assert_eq!(md, "x\n| level 0 | `       100` | `       110` | `💩 +10.00%` |\n");
}

#[test]
fn a_row_marks_what_got_better() {
    let mut md = String::new();
    let before = counter(110_000, 1_000, "cycles");
    let after = counter(100_000, 1_000, "cycles");
    BenchCounter::render_markdown_row(&mut md, "level 1", &before, &after);
    assert_eq!(md, "| level 1 | `       110` | `       100` | `🚀  -9.09%` |\n");
}

#[test]
fn a_row_leaves_noise_unmarked() {
    let mut md = String::new();
    let before = counter(100_000, 1_000, "cycles");
    let after = counter(100_645, 1_000, "cycles");
    BenchCounter::render_markdown_row(&mut md, "noise", &before, &after);
    assert_eq!(md, "| noise | `       100` | `   100.645` | `    +0.65%` |\n");
    let mut md = String::new();
    BenchCounter::render_markdown_row(&mut md, "same", &before, &before);
    assert_eq!(md, "| same | `       100` | `       100` | `    +0.00%` |\n");
}

#[test]
fn a_row_from_zero_has_no_percentage() {
    let mut md = String::new();
    let before = counter(0, 0, "cycles");
    let after = counter(5_000, 0, "cycles");
    BenchCounter::render_markdown_row(&mut md, "zero", &before, &after);
    assert_eq!(md, "| zero | `         0` | `         5` | `n.a.` |\n");
}

#[test]
fn a_row_does_not_cut_long_numbers() {
    let mut md = String::new();
    let before = counter(123_456_789_012_345, 0, "cycles");
    let after = counter(123_456_789_012_345, 0, "cycles");
    BenchCounter::render_markdown_row(&mut md, "long", &before, &after);
    assert_eq!(md, "| long | `123456789012.345` | `123456789012.345` | `    +0.00%` |\n");
}

#[test]
fn commit_links_point_at_the_repository() {
    let mut md = String::new();
    push_commit_link(&mut md, "abc", "owner/repo", "abcdef0123");
    assert_eq!(md, "[`abc`](https://github.com/owner/repo/commit/abcdef0123)");
}

#[test]
fn hashes_are_shortened_to_seven_characters() {
    assert_eq!(shorten("0123456789abcdef"), "0123456");
    assert_eq!(shorten("0123456"), "0123456");
    assert_eq!(shorten("0123"), "0123");
    assert_eq!(shorten(""), "");
    assert_eq!(shorten("ääääääääää"), "äääääää");
}

#[test]
fn decorations_of_counter_names_are_taken_off() {
    assert_eq!(strip_decoration("cpu_core/cycles/"), "cycles");
    assert_eq!(strip_decoration("cycles/"), "cycles");
    assert_eq!(strip_decoration("cycles"), "cycles");
    assert_eq!(strip_decoration("cpu_core/cycles"), "cycles");
    assert_eq!(strip_decoration("cpu_core/"), "");
    assert_eq!(strip_decoration("cpu_core//"), "");
    assert_eq!(strip_decoration("cpu_atom/cycles/"), "cpu_atom/cycles");
    assert_eq!(strip_decoration("/"), "");
    assert_eq!(strip_decoration(""), "");
}

#[test]
fn texts_are_joined_with_a_separator() {
    let mut out = String::from(">");
    push_joined(&mut out, &words("gzip -k -9 file"), " ");
    assert_eq!(out, ">gzip -k -9 file");
    let mut out = String::new();
    push_joined(&mut out, &Vec::new(), ", ");
    assert_eq!(out, "");
    let mut out = String::new();
    push_joined(&mut out, &vec!["one".to_string()], ", ");
    assert_eq!(out, "one");
}

#[test]
fn raw_dump_of_one_command_without_baseline() {
    let mut data = run("abcdef0123456789");
    data.add_group(
        "group".to_string(),
        vec![bench("echo hi", &[("cycles", counter(1_000_000, 0, "cycles"))])],
    );
    let mut md = String::new();
    assert_eq!(data.render_markdown_raw(&mut md, None, "owner/repo"), Ok(()));
    assert_eq!(
        md,
        "## [`abcdef0`](https://github.com/owner/repo/commit/abcdef0123456789) (on Some CPU)\n\
         \n\
         ### group\n\
         \n\
         |command|cycles|cycles Δ|\n\
         |---|---|---|\n\
         |`echo hi`|`1000±0` cycles | `n.a.` |\n"
    );
    let rows: Vec<&str> = md.lines().filter(|line| line.starts_with("|`")).collect();
    assert_eq!(rows.len(), 1);
    assert!(rows[0].contains("`1000±0` cycles"));
    assert!(!md.contains('%'));
}

#[test]
fn raw_dump_against_a_baseline() {
    let mut data = run("new0000111");
    data.add_group(
        "compress".to_string(),
        vec![
            bench(
                "gzip -1",
                &[
                    ("task-clock", counter(12_500, 250, "msec")),
                    ("cpu_core/cycles/", counter(1_100_000, 4_000, "cycles")),
                    ("instructions", counter(900_000, 9_000_000, "")),
                ],
            ),
            bench("gzip -2", &[("instructions", counter(500_000, 0, ""))]),
            bench("gzip -3", &[("task-clock", counter(7, 0, "msec"))]),
        ],
    );
    data.add_group("empty".to_string(), vec![]);
    let mut earlier = run("old0000222");
    earlier.add_group(
        "compress".to_string(),
        vec![
            bench("gzip -2", &[("instructions", counter(500_000, 0, ""))]),
            bench(
                "gzip -1",
                &[
                    ("task-clock", counter(0, 0, "msec")),
                    ("cycles", counter(1_000_000, 0, "cycles")),
                    ("instructions", counter(1_000_000, 0, "")),
                ],
            ),
        ],
    );
    let mut md = String::new();
    assert_eq!(data.render_markdown_raw(&mut md, Some(&earlier), "owner/repo"), Ok(()));
    assert_eq!(
        md,
        "## [`new0000`](https://github.com/owner/repo/commit/new0000111) with parent \
         [`old0000`](https://github.com/owner/repo/commit/old0000222) (on Some CPU)\n\
         \n\
         ### compress\n\
         \n\
         |command|cpu_core/cycles/|cpu_core/cycles/ Δ|instructions|instructions Δ|task-clock|task-clock Δ|\n\
         |---|---|---|---|---|---|---|\n\
         |`gzip -1`|`1100±2` cycles | `+10.0%` |`900±95`  | `-10.0%` |`12.500±1` msec | `n.a.` |\n\
         |`gzip -2`||`500±0`  | `-0.0%` ||\n\
         |`gzip -3`|||`0.007±0` msec | `n.a.` |\n\
         ### empty\n\
         \n\
         |command|\n\
         |---|\n"
    );
}

#[test]
fn raw_dump_matches_a_name_without_its_qualifier() {
    let mut data = run("new0000111");
    data.add_group(
        "g".to_string(),
        vec![bench(
            "b",
            &[
                ("cpu_core/cycles", counter(110_000, 0, "cycles")),
                ("instructions/", counter(90_000, 0, "")),
            ],
        )],
    );
    let mut earlier = run("old0000222");
    earlier.add_group(
        "g".to_string(),
        vec![bench(
            "b",
            &[("cycles", counter(100_000, 0, "cycles")), ("instructions", counter(100_000, 0, ""))],
        )],
    );
    let mut md = String::new();
    assert_eq!(data.render_markdown_raw(&mut md, Some(&earlier), "owner/repo"), Ok(()));
    assert_eq!(md.lines().last(), Some("|`b`|`110±0` cycles | `+10.0%` |`90±0`  | `-10.0%` |"));
}

#[test]
fn raw_dump_refuses_another_environment() {
    let data = run("abc");
    let mut earlier = run("def");
    earlier.cpu_model = "Other CPU".to_string();
    let mut md = String::from("kept");
    assert_eq!(
        data.render_markdown_raw(&mut md, Some(&earlier), "owner/repo"),
        Err(ReportError::EnvironmentMismatch)
    );
    assert_eq!(md, "kept");
}

fn two_runs() -> (BenchData, BenchData) {
    let mut before = run("0123456789abcdef");
    before.add_group(
        "compress".to_string(),
        vec![
            bench("gzip -1", &[("cycles", counter(100_000, 1_000, "cycles"))]),
            bench("gzip -2", &[("cycles", counter(200_000, 1_000, "cycles"))]),
            bench("gzip -3", &[("instructions", counter(1, 0, ""))]),
        ],
    );
    before.add_group("only-before".to_string(), vec![bench("a", &[("cycles", counter(1, 0, ""))])]);
    let mut after = run("fedcba9876543210");
    after.add_group(
        "compress".to_string(),
        vec![
            bench("gzip -1", &[("cycles", counter(110_000, 1_000, "cycles"))]),
            bench("gzip -2", &[("cycles", counter(200_100, 1_000, "cycles"))]),
            bench("gzip -3", &[("cycles", counter(300_000, 1_000, "cycles"))]),
        ],
    );
    (before, after)
}

#[test]
fn comparison_with_an_earlier_run() {
    let (before, after) = two_runs();
    let render: IndexMap<String, VersusOther> = IndexMap::from_iter([
        (
            "compression".to_string(),
            table("cycles", "compress", &[("level 1", 0), ("level 3", 2), ("level 2", 1), ("level 9", 8)]),
        ),
        ("gone".to_string(), table("cycles", "only-before", &[("row", 0)])),
    ]);
    let mut md = String::new();
    assert_eq!(
        BenchData::render_markdown_diff_pretty(&mut md, &render, &before, &after, "owner/repo"),
        Ok(())
    );
    assert_eq!(
        md,
        "## [`fedcba9`](https://github.com/owner/repo/commit/fedcba9876543210) with parent \
         [`0123456`](https://github.com/owner/repo/commit/0123456789abcdef) (on Some CPU)\n\
         ### compression\n\
         \n\
         | name | [before](https://github.com/owner/repo/commit/0123456789abcdef) | \
         [after](https://github.com/owner/repo/commit/fedcba9876543210) | Δ |\n\
         | --- | --- | --- | --- |\n\
         | level 1 | `       100` | `       110` | `💩 +10.00%` |\n\
         | level 2 | `       200` | `     200.1` | `    +0.05%` |\n\
         ### gone\n\
         \n\
         | name | [before](https://github.com/owner/repo/commit/0123456789abcdef) | \
         [after](https://github.com/owner/repo/commit/fedcba9876543210) | Δ |\n\
         | --- | --- | --- | --- |\n"
    );
}

#[test]
fn a_row_of_an_unknown_group_is_left_out() {
    let (before, after) = two_runs();
    let render: IndexMap<String, VersusOther> = IndexMap::from_iter([(
        "table".to_string(),
        table("cycles", "no such group", &[("first", 0), ("second", 1)]),
    )]);
    let mut md = String::new();
    assert_eq!(
        BenchData::render_markdown_diff_pretty(&mut md, &render, &before, &after, "o/r"),
        Ok(())
    );
    assert_eq!(md.lines().count(), 5);
    assert!(md.ends_with("| --- | --- | --- | --- |\n"));
    assert!(!md.contains("first"));
    assert!(!md.contains("second"));
}

#[test]
fn comparison_refuses_another_environment() {
    let (before, mut after) = two_runs();
    after.runner = "runner-2".to_string();
    let mut md = String::from("kept");
    assert_eq!(
        BenchData::render_markdown_diff_pretty(&mut md, &IndexMap::new(), &before, &after, "o/r"),
        Err(ReportError::EnvironmentMismatch)
    );
    assert_eq!(md, "kept");
}

fn self_render() -> IndexMap<String, IndexMap<String, Compare>> {
    IndexMap::from_iter([(
        "first against others".to_string(),
        IndexMap::from_iter([
            (
                "two".to_string(),
                Compare {
                    measure: "cycles".to_string(),
                    before: reference("compress", 0),
                    after: reference("compress", 1),
                },
            ),
            (
                "missing group".to_string(),
                Compare {
                    measure: "cycles".to_string(),
                    before: reference("compress", 0),
                    after: reference("decompress", 0),
                },
            ),
            (
                "missing place".to_string(),
                Compare {
                    measure: "cycles".to_string(),
                    before: reference("compress", 3),
                    after: reference("compress", 0),
                },
            ),
            (
                "missing counter".to_string(),
                Compare {
                    measure: "instructions".to_string(),
                    before: reference("compress", 0),
                    after: reference("compress", 1),
                },
            ),
            (
                "three".to_string(),
                Compare {
                    measure: "cycles".to_string(),
                    before: reference("compress", 2),
                    after: reference("compress", 0),
                },
            ),
        ]),
    )])
}

#[test]
fn comparison_within_one_run() {
    let (_, data) = two_runs();
    let mut md = String::new();
    BenchData::render_markdown_self_diff_pretty(&mut md, &self_render(), &data, "owner/repo");
    assert_eq!(
        md,
        "## [`fedcba9`](https://github.com/owner/repo/commit/fedcba9876543210) (on Some CPU)\n\
         ### first against others\n\
         \n\
         | name | before | after | Δ |\n\
         | --- | --- | --- | --- |\n\
         | two | `       110` | `     200.1` | `💩 +81.91%` |\n\
         | three | `       300` | `       110` | `🚀 -63.33%` |\n"
    );
}

#[test]
fn comparison_of_a_run_with_a_short_hash() {
    let mut data = run("abc");
    data.cpu_model = String::new();
    let mut md = String::new();
    BenchData::render_markdown_self_diff_pretty(&mut md, &IndexMap::new(), &data, "o/r");
    assert_eq!(md, "## [`abc`](https://github.com/o/r/commit/abc) (on )\n");
}

#[test]
fn summary_folds_the_raw_numbers_behind_the_tables() {
    let (before, after) = two_runs();
    let versus_other: IndexMap<String, VersusOther> = IndexMap::from_iter([(
        "compression".to_string(),
        table("cycles", "compress", &[("level 1", 0)]),
    )]);
    let summary = after
        .render_summary(Some(&before), &versus_other, &self_render(), "owner/repo")
        .unwrap();
    let mut tables = String::new();
    BenchData::render_markdown_diff_pretty(&mut tables, &versus_other, &before, &after, "owner/repo")
        .unwrap();
    BenchData::render_markdown_self_diff_pretty(&mut tables, &self_render(), &after, "owner/repo");
    let mut raw = String::new();
    after.render_markdown_raw(&mut raw, Some(&before), "owner/repo").unwrap();
    assert_eq!(
        summary,
        format!("{}<details>\n    <summary>Raw Results</summary>\n\n{}</details>\n", tables, raw)
    );
}

#[test]
fn summary_without_tables_is_the_raw_dump() {
    let (before, after) = two_runs();
    let mut raw = String::new();
    after.render_markdown_raw(&mut raw, Some(&before), "owner/repo").unwrap();
    assert_eq!(
        after.render_summary(Some(&before), &IndexMap::new(), &IndexMap::new(), "owner/repo"),
        Ok(raw)
    );
}

#[test]
fn summary_without_an_earlier_run_compares_within_the_run_only() {
    let (_, after) = two_runs();
    let versus_other: IndexMap<String, VersusOther> = IndexMap::from_iter([(
        "compression".to_string(),
        table("cycles", "compress", &[("level 1", 0)]),
    )]);
    let summary = after.render_summary(None, &versus_other, &self_render(), "owner/repo").unwrap();
    let mut tables = String::new();
    BenchData::render_markdown_self_diff_pretty(&mut tables, &self_render(), &after, "owner/repo");
    let mut raw = String::new();
    after.render_markdown_raw(&mut raw, None, "owner/repo").unwrap();
    assert_eq!(
        summary,
        format!("{}<details>\n    <summary>Raw Results</summary>\n\n{}</details>\n", tables, raw)
    );
    let plain = after.render_summary(None, &versus_other, &IndexMap::new(), "owner/repo").unwrap();
    assert_eq!(plain, raw);
}

#[test]
fn summary_refuses_another_environment() {
    let (mut before, after) = two_runs();
    before.os = "macOS".to_string();
    assert_eq!(
        after.render_summary(Some(&before), &IndexMap::new(), &self_render(), "owner/repo"),
        Err(ReportError::EnvironmentMismatch)
    );
}
