//! Reports in Markdown: the table of a comparison, row by row, and the raw
//! numbers of a run.

use vstd::prelude::*;
use vstd::string::*;
use crate::bench::{
    BenchData, SingleBench, commands, metric_names, available_counters, find_command,
};
use indexmap::IndexMap;
use crate::compare::{
    Compare, VersusOther, place_entries, versus_other_entries, compare_entries,
    versus_self_entries, places_len, places_get_index, versus_other_len, versus_other_get_index,
    compares_len, compares_get_index, versus_self_len, versus_self_get_index,
};
use crate::counter::{BenchCounter, Verdict};
use crate::display::{
    value_text, value_text_fixed, deviation_text, delta_text, percent_text, push_value,
    push_value_fixed, push_deviation, push_delta, push_percent,
};
use crate::lookup::first_index;
use crate::names::texts;
use crate::text::{pad_left, push_padded, concat, concat_first, joined, same_text};

verus! {

/// Why a report was not written.
#[derive(Debug, Clone, Copy, PartialEq, Eq)]
pub enum ReportError {
    /// The two runs differ in architecture, operating system, runner or CPU
    /// model, so their numbers cannot be compared.
    EnvironmentMismatch,
}

/// A link to a commit of a repository, shown as `label`.
pub open spec fn commit_link(
    label: Seq<char>,
    repository: Seq<char>,
    commit: Seq<char>,
) -> Seq<char> {
    "[`"@ + label + "`](https://github.com/"@ + repository + "/commit/"@ + commit + ")"@
}

/// Appends a link to a commit.
pub fn push_commit_link(out: &mut String, label: &str, repository: &str, commit: &str)
    ensures
        final(out)@ == old(out)@ + commit_link(label@, repository@, commit@),
{
    out.append("[`");
    out.append(label);
    out.append("`](https://github.com/");
    out.append(repository);
    out.append("/commit/");
    out.append(commit);
    out.append(")");
    assert(out@ =~= old(out)@ + commit_link(label@, repository@, commit@));
}

/// The short form of a commit hash: its first seven characters, or all of
/// it where it has no more.
pub open spec fn short_hash(hash: Seq<char>) -> Seq<char> {
    if hash.len() <= 7 {
        hash
    } else {
        hash.subrange(0, 7)
    }
}

/// Shortens a commit hash to seven characters.
pub fn shorten(hash: &str) -> (r: &str)
    ensures
        r@ == short_hash(hash@),
{
    if hash.unicode_len() <= 7 {
        hash
    } else {
        hash.substring_char(0, 7)
    }
}

/// The sign that stands for a verdict in a row: `💩` where the metric got
/// worse, `🚀` where it got better, two spaces where it did neither.
pub open spec fn mark(verdict: Verdict) -> Seq<char> {
    match verdict {
        Verdict::Worse => "💩"@,
        Verdict::Better => "🚀"@,
        Verdict::Neutral => "  "@,
    }
}

/// The last cell of a row: the mark of the verdict and the change in
/// percent, or `n.a.` where the mean before is zero and the change has no
/// percentage.
pub open spec fn change_cell(before: BenchCounter, after: BenchCounter) -> Seq<char> {
    match BenchCounter::change(&before, &after) {
        Some(p) => mark(BenchCounter::verdict(&before, &after)) + " "@ + percent_text(p) + "%"@,
        None => "n.a."@,
    }
}

/// A mean as a row shows it: in its shortest form, set to the right in ten
/// characters.
pub open spec fn row_value(v: int) -> Seq<char> {
    pad_left(value_text(v), 10)
}

/// One row of a comparison: the name, the mean before, the mean after, and
/// the change.
#[verifier::opaque]
pub open spec fn row_text(name: Seq<char>, before: BenchCounter, after: BenchCounter) -> Seq<char> {
    "| "@ + name + " | `"@ + row_value(before.value as int) + "` | `"@ + row_value(
        after.value as int,
    ) + "` | `"@ + change_cell(before, after) + "` |\n"@
}

/// Appends a mean as a row shows it.
fn push_row_value(md: &mut String, v: i64)
    ensures
        final(md)@ == old(md)@ + row_value(v as int),
{
    let mut shown = String::new();
    push_value(&mut shown, v);
    push_padded(md, shown.as_str(), 10);
}

/// Appends the sign that stands for a verdict.
fn push_mark(md: &mut String, verdict: Verdict)
    ensures
        final(md)@ == old(md)@ + mark(verdict),
{
    match verdict {
        Verdict::Worse => {
            md.append("💩");
        },
        Verdict::Better => {
            md.append("🚀");
        },
        Verdict::Neutral => {
            md.append("  ");
        },
    }
}

/// Appends the last cell of a row.
fn push_change_cell(md: &mut String, before: &BenchCounter, after: &BenchCounter)
    ensures
        final(md)@ == old(md)@ + change_cell(*before, *after),
{
    match BenchCounter::improvement_percentage(before, after) {
        Some(p) => {
            push_mark(md, BenchCounter::compare(before, after));
            md.append(" ");
            push_percent(md, &p);
            md.append("%");
        },
        None => {
            md.append("n.a.");
        },
    }
    assert(md@ =~= old(md)@ + change_cell(*before, *after));
}

impl BenchCounter {
    /// Appends the row of a comparison of two counters.
    pub fn render_markdown_row(md: &mut String, name: &str, before: &Self, after: &Self)
        ensures
            final(md)@ == old(md)@ + row_text(name@, *before, *after),
    {
        reveal(row_text);
        md.append("| ");
        md.append(name);
        md.append(" | `");
        push_row_value(md, before.value);
        md.append("` | `");
        push_row_value(md, after.value);
        md.append("` | `");
        push_change_cell(md, before, after);
        md.append("` |\n");
        assert(md@ =~= old(md)@ + row_text(name@, *before, *after));
    }
}

/// The heading of a report on one run: its commit, shown by its short hash,
/// and where it ran.
pub open spec fn run_heading(data: &BenchData, repository: Seq<char>) -> Seq<char> {
    "## "@ + commit_link(short_hash(data.commit_hash@), repository, data.commit_hash@) + " (on "@
        + data.cpu_model@ + ")\n"@
}

/// The heading of a report on two runs: the commit of the later run, the
/// commit of the earlier one, each shown by its short hash, and where the
/// later one ran. Runs that are compared ran in the same place.
pub open spec fn versus_heading(
    before: &BenchData,
    after: &BenchData,
    repository: Seq<char>,
) -> Seq<char> {
    "## "@ + commit_link(short_hash(after.commit_hash@), repository, after.commit_hash@)
        + " with parent "@ + commit_link(
        short_hash(before.commit_hash@),
        repository,
        before.commit_hash@,
    ) + " (on "@ + after.cpu_model@ + ")\n"@
}

/// The row of a comparison within one run; nothing where one of its two
/// references names no counter of the run.
#[verifier::opaque]
pub open spec fn self_row_text(data: &BenchData, name: Seq<char>, row: &Compare) -> Seq<char> {
    match (
        data.resolved(row.before.command@, row.before.index as int, row.measure@),
        data.resolved(row.after.command@, row.after.index as int, row.measure@),
    ) {
        (Some(b), Some(a)) => row_text(name, b, a),
        _ => Seq::empty(),
    }
}

/// The rows of one table of a comparison within one run.
pub open spec fn self_rows(data: &BenchData, rows: Seq<(String, Compare)>) -> Seq<Seq<char>> {
    Seq::new(rows.len(), |i: int| self_row_text(data, rows[i].0@, &rows[i].1))
}

/// One table of a comparison within one run: its title, the head of the
/// table, and its rows.
#[verifier::opaque]
pub open spec fn self_table_text(
    data: &BenchData,
    name: Seq<char>,
    rows: Seq<(String, Compare)>,
) -> Seq<char> {
    table_title(name) + "| name | before | after | Δ |\n"@ + "| --- | --- | --- | --- |\n"@
        + concat(self_rows(data, rows))
}

/// The tables of a comparison within one run.
pub open spec fn self_tables(
    data: &BenchData,
    render: Seq<(String, IndexMap<String, Compare>)>,
) -> Seq<Seq<char>> {
    Seq::new(
        render.len(),
        |g: int| self_table_text(data, render[g].0@, compare_entries(render[g].1)),
    )
}

/// The report on a comparison within one run.
pub open spec fn self_diff_text(
    data: &BenchData,
    render: Seq<(String, IndexMap<String, Compare>)>,
    repository: Seq<char>,
) -> Seq<char> {
    run_heading(data, repository) + concat(self_tables(data, render))
}

/// The row at place `i` of a table that compares two runs; nothing where
/// one of the runs has no counter for it.
#[verifier::opaque]
pub open spec fn versus_row_text(
    before: &BenchData,
    after: &BenchData,
    table: &VersusOther,
    i: int,
) -> Seq<char> {
    match (
        before.resolved(table.command@, place_entries(table.rows)[i].1 as int, table.measure@),
        after.resolved(table.command@, place_entries(table.rows)[i].1 as int, table.measure@),
    ) {
        (Some(b), Some(a)) => row_text(place_entries(table.rows)[i].0@, b, a),
        _ => Seq::empty(),
    }
}

/// The rows of one table that compares two runs.
pub open spec fn versus_rows(
    before: &BenchData,
    after: &BenchData,
    table: &VersusOther,
) -> Seq<Seq<char>> {
    Seq::new(
        place_entries(table.rows).len(),
        |i: int| versus_row_text(before, after, table, i),
    )
}

/// The title of a table, and an empty line.
pub open spec fn table_title(name: Seq<char>) -> Seq<char> {
    "### "@ + name + "\n"@ + "\n"@
}

/// The head of a table that compares two runs, with a link to the commit
/// of each.
pub open spec fn versus_table_head(
    before: &BenchData,
    after: &BenchData,
    repository: Seq<char>,
) -> Seq<char> {
    "| name | [before](https://github.com/"@ + repository + "/commit/"@ + before.commit_hash@
        + ") | [after](https://github.com/"@ + repository + "/commit/"@ + after.commit_hash@
        + ") | Δ |\n"@ + "| --- | --- | --- | --- |\n"@
}

/// One table that compares two runs: its title, its head, and its rows.
#[verifier::opaque]
pub open spec fn versus_table_text(
    before: &BenchData,
    after: &BenchData,
    name: Seq<char>,
    table: &VersusOther,
    repository: Seq<char>,
) -> Seq<char> {
    table_title(name) + versus_table_head(before, after, repository) + concat(
        versus_rows(before, after, table),
    )
}

/// The tables of a comparison of two runs.
pub open spec fn versus_tables(
    before: &BenchData,
    after: &BenchData,
    render: Seq<(String, VersusOther)>,
    repository: Seq<char>,
) -> Seq<Seq<char>> {
    Seq::new(
        render.len(),
        |g: int| versus_table_text(before, after, render[g].0@, &render[g].1, repository),
    )
}

/// The report on a comparison of two runs.
pub open spec fn versus_text(
    before: &BenchData,
    after: &BenchData,
    render: Seq<(String, VersusOther)>,
    repository: Seq<char>,
) -> Seq<char> {
    versus_heading(before, after, repository) + concat(
        versus_tables(before, after, render, repository),
    )
}

/// Appends the title of a table, and an empty line.
fn push_table_title(md: &mut String, name: &str)
    ensures
        final(md)@ == old(md)@ + table_title(name@),
{
    md.append("### ");
    md.append(name);
    md.append("\n");
    md.append("\n");
    assert(md@ =~= old(md)@ + table_title(name@));
}

/// Appends the head of a table that compares two runs.
fn push_versus_table_head(md: &mut String, before: &BenchData, after: &BenchData, repository: &str)
    ensures
        final(md)@ == old(md)@ + versus_table_head(before, after, repository@),
{
    md.append("| name | [before](https://github.com/");
    md.append(repository);
    md.append("/commit/");
    md.append(before.commit_hash.as_str());
    md.append(") | [after](https://github.com/");
    md.append(repository);
    md.append("/commit/");
    md.append(after.commit_hash.as_str());
    md.append(") | Δ |\n");
    md.append("| --- | --- | --- | --- |\n");
    assert(md@ =~= old(md)@ + versus_table_head(before, after, repository@));
}

/// Appends the heading of a report on two runs.
fn push_versus_heading(md: &mut String, before: &BenchData, after: &BenchData, repository: &str)
    ensures
        final(md)@ == old(md)@ + versus_heading(before, after, repository@),
{
    md.append("## ");
    push_commit_link(
        md,
        shorten(after.commit_hash.as_str()),
        repository,
        after.commit_hash.as_str(),
    );
    md.append(" with parent ");
    push_commit_link(
        md,
        shorten(before.commit_hash.as_str()),
        repository,
        before.commit_hash.as_str(),
    );
    md.append(" (on ");
    md.append(after.cpu_model.as_str());
    md.append(")\n");
    assert(md@ =~= old(md)@ + versus_heading(before, after, repository@));
}

/// Appends the heading of a report on one run.
fn push_run_heading(md: &mut String, data: &BenchData, repository: &str)
    ensures
        final(md)@ == old(md)@ + run_heading(data, repository@),
{
    md.append("## ");
    push_commit_link(md, shorten(data.commit_hash.as_str()), repository, data.commit_hash.as_str());
    md.append(" (on ");
    md.append(data.cpu_model.as_str());
    md.append(")\n");
    assert(md@ =~= old(md)@ + run_heading(data, repository@));
}

/// Appends the row of a comparison within one run, if both its references
/// name a counter.
fn push_self_row(md: &mut String, data: &BenchData, name: &str, row: &Compare)
    ensures
        final(md)@ == old(md)@ + self_row_text(data, name@, row),
{
    reveal(self_row_text);
    let before = data.resolve(row.before.command.as_str(), row.before.index, row.measure.as_str());
    let after = data.resolve(row.after.command.as_str(), row.after.index, row.measure.as_str());
    match (before, after) {
        (Some(b), Some(a)) => {
            BenchCounter::render_markdown_row(md, name, b, a);
        },
        _ => {
            assert(md@ =~= old(md)@ + self_row_text(data, name@, row));
        },
    }
}

/// Appends one table of a comparison within one run.
fn push_self_table(md: &mut String, data: &BenchData, name: &str, rows: &IndexMap<String, Compare>)
    ensures
        final(md)@ == old(md)@ + self_table_text(data, name@, compare_entries(*rows)),
{
    reveal(self_table_text);
    push_table_title(md, name);
    md.append("| name | before | after | Δ |\n");
    md.append("| --- | --- | --- | --- |\n");
    let ghost head = md@;
    let ghost parts = self_rows(data, compare_entries(*rows));
    let count: usize = compares_len(rows);
    let mut i: usize = 0;
    while i < count
        invariant
            i <= count,
            count == compare_entries(*rows).len(),
            parts == self_rows(data, compare_entries(*rows)),
            md@ == head + concat_first(parts, i as nat),
        decreases count - i,
    {
        match compares_get_index(rows, i) {
            Some((row_name, row)) => {
                push_self_row(md, data, row_name.as_str(), row);
            },
            None => {},
        }
        i = i + 1;
        assert(md@ =~= head + concat_first(parts, i as nat));
    }
    assert(md@ =~= old(md)@ + self_table_text(data, name@, compare_entries(*rows)));
}

/// Appends the row at place `i` of a table that compares two runs, if both
/// runs have a counter for it.
fn push_versus_row(
    md: &mut String,
    before: &BenchData,
    after: &BenchData,
    table: &VersusOther,
    i: usize,
)
    requires
        i < place_entries(table.rows).len(),
    ensures
        final(md)@ == old(md)@ + versus_row_text(before, after, table, i as int),
{
    reveal(versus_row_text);
    let (name, index) = match places_get_index(&table.rows, i) {
        Some((name, index)) => (name, *index),
        None => {
            return ;
        },
    };
    let b = before.resolve(table.command.as_str(), index, table.measure.as_str());
    let a = after.resolve(table.command.as_str(), index, table.measure.as_str());
    match (b, a) {
        (Some(b), Some(a)) => {
            BenchCounter::render_markdown_row(md, name.as_str(), b, a);
        },
        _ => {
            assert(md@ =~= old(md)@ + versus_row_text(before, after, table, i as int));
        },
    }
}

/// Appends one table that compares two runs.
fn push_versus_table(
    md: &mut String,
    before: &BenchData,
    after: &BenchData,
    name: &str,
    table: &VersusOther,
    repository: &str,
)
    ensures
        final(md)@ == old(md)@ + versus_table_text(before, after, name@, table, repository@),
{
    reveal(versus_table_text);
    push_table_title(md, name);
    push_versus_table_head(md, before, after, repository);
    let ghost head = md@;
    let ghost parts = versus_rows(before, after, table);
    let mut i: usize = 0;
    let count: usize = places_len(&table.rows);
    while i < count
        invariant
            i <= count,
            count == place_entries(table.rows).len(),
            parts == versus_rows(before, after, table),
            md@ == head + concat_first(parts, i as nat),
        decreases count - i,
    {
        push_versus_row(md, before, after, table, i);
        i = i + 1;
        assert(md@ =~= head + concat_first(parts, i as nat));
    }
    assert(md@ =~= old(md)@ + versus_table_text(before, after, name@, table, repository@));
}

impl BenchData {
    /// Appends the report on a comparison of two runs: for each table of
    /// `render` one row for each of its rows that both runs have a counter
    /// for. A row whose group, place or counter one of the runs lacks is
    /// left out. Runs from different environments are not compared: nothing
    /// is appended then.
    pub fn render_markdown_diff_pretty(
        md: &mut String,
        render: &IndexMap<String, VersusOther>,
        before: &Self,
        after: &Self,
        repository: &str,
    ) -> (r: Result<(), ReportError>)
        ensures
            before.same_environment(after) ==> r is Ok && final(md)@ == old(md)@ + versus_text(
                before,
                after,
                versus_other_entries(*render),
                repository@,
            ),
            !before.same_environment(after) ==> r == Err::<(), ReportError>(
                ReportError::EnvironmentMismatch,
            ) && final(md)@ == old(md)@,
    {
        if !before.in_same_environment(after) {
            return Err(ReportError::EnvironmentMismatch);
        }
        push_versus_heading(md, before, after, repository);
        let ghost head = md@;
        let ghost parts = versus_tables(
            before,
            after,
            versus_other_entries(*render),
            repository@,
        );
        let count: usize = versus_other_len(render);
        let mut g: usize = 0;
        while g < count
            invariant
                g <= count,
                count == versus_other_entries(*render).len(),
                parts == versus_tables(
                    before,
                    after,
                    versus_other_entries(*render),
                    repository@,
                ),
                md@ == head + concat_first(parts, g as nat),
            decreases count - g,
        {
            match versus_other_get_index(render, g) {
                Some((name, table)) => {
                    push_versus_table(md, before, after, name.as_str(), table, repository);
                },
                None => {},
            }
            g = g + 1;
            assert(md@ =~= head + concat_first(parts, g as nat));
        }
        assert(md@ =~= old(md)@ + versus_text(
            before,
            after,
            versus_other_entries(*render),
            repository@,
        ));
        Ok(())
    }

    /// Appends the report on a comparison within one run: for each table of
    /// `render` one row for each of its rows whose two references both name
    /// a counter of the run. The other rows are left out.
    pub fn render_markdown_self_diff_pretty(
        md: &mut String,
        render: &IndexMap<String, IndexMap<String, Compare>>,
        data: &Self,
        repository: &str,
    )
        ensures
            final(md)@ == old(md)@ + self_diff_text(
                data,
                versus_self_entries(*render),
                repository@,
            ),
    {
        push_run_heading(md, data, repository);
        let ghost head = md@;
        let ghost parts = self_tables(data, versus_self_entries(*render));
        let count: usize = versus_self_len(render);
        let mut g: usize = 0;
        while g < count
            invariant
                g <= count,
                count == versus_self_entries(*render).len(),
                parts == self_tables(data, versus_self_entries(*render)),
                md@ == head + concat_first(parts, g as nat),
            decreases count - g,
        {
            match versus_self_get_index(render, g) {
                Some((name, rows)) => {
                    push_self_table(md, data, name.as_str(), rows);
                },
                None => {},
            }
            g = g + 1;
            assert(md@ =~= head + concat_first(parts, g as nat));
        }
        assert(md@ =~= old(md)@ + self_diff_text(
            data,
            versus_self_entries(*render),
            repository@,
        ));
    }
}

/// A row that points at a group which the run does not have is not shown.
pub proof fn law_unknown_group_no_self_row(data: &BenchData, name: Seq<char>, row: &Compare)
    requires
        data.group(row.before.command@) is None || data.group(row.after.command@) is None,
    ensures
        self_row_text(data, name, row) == Seq::<char>::empty(),
{
    reveal(self_row_text);
}

/// A row of a table that points at a group which one of the runs does not
/// have is not shown.
pub proof fn law_unknown_group_no_versus_row(
    before: &BenchData,
    after: &BenchData,
    table: &VersusOther,
    i: int,
)
    requires
        before.group(table.command@) is None || after.group(table.command@) is None,
    ensures
        versus_row_text(before, after, table, i) == Seq::<char>::empty(),
{
    reveal(versus_row_text);
}

/// The name under which a counter is looked for in an earlier run: the name
/// without its decoration. A counter that a hybrid CPU reports as
/// `cpu_core/NAME/` is looked for as `NAME`: a leading `cpu_core/` is taken
/// off where there is one, and then a trailing `/` where there is one.
pub open spec fn baseline_name(name: Seq<char>) -> Seq<char> {
    let inner = if "cpu_core/"@.is_prefix_of(name) {
        name.subrange("cpu_core/"@.len() as int, name.len() as int)
    } else {
        name
    };
    if inner.len() > 0 && inner.last() == '/' {
        inner.drop_last()
    } else {
        inner
    }
}

/// The mean of a counter as the raw table shows it: with three decimal
/// places for milliseconds, in its shortest form for every other unit.
pub open spec fn raw_value_text(counter: BenchCounter) -> Seq<char> {
    if counter.unit@ == "msec"@ {
        value_text_fixed(counter.value as int)
    } else {
        value_text(counter.value as int)
    }
}

/// The change of a counter against the earlier run: `n.a.` where the
/// earlier run has no such counter, or a mean of zero for it.
pub open spec fn raw_change_text(
    counter: BenchCounter,
    earlier: Option<BenchCounter>,
) -> Seq<char> {
    match earlier {
        Some(e) => if e.value != 0 {
            delta_text(e.value as int, counter.value as int)
        } else {
            "n.a."@
        },
        None => "n.a."@,
    }
}

/// The counter of the earlier bench that a counter name is compared with.
pub open spec fn baseline_counter(
    earlier: Option<SingleBench>,
    name: Seq<char>,
) -> Option<BenchCounter> {
    match earlier {
        Some(bench) => bench.counter(baseline_name(name)),
        None => None,
    }
}

/// A counter as the raw table shows it: the mean, the rounded standard
/// deviation, and the unit.
pub open spec fn raw_measure(counter: BenchCounter) -> Seq<char> {
    "`"@ + raw_value_text(counter) + "±"@ + deviation_text(counter.variance as nat) + "` "@
        + counter.unit@
}

/// The cells of one counter in the row of a bench: the counter, then its
/// change against the earlier run. A bench that has no such counter gets an
/// empty cell.
#[verifier::opaque]
pub open spec fn raw_cell(
    bench: SingleBench,
    earlier: Option<SingleBench>,
    name: Seq<char>,
) -> Seq<char> {
    match bench.counter(name) {
        Some(counter) => raw_measure(counter) + " | `"@ + raw_change_text(
            counter,
            baseline_counter(earlier, name),
        ) + "` |"@,
        None => "|"@,
    }
}

/// The cells of a bench, one pair for each of `names`.
pub open spec fn raw_cells(
    bench: SingleBench,
    earlier: Option<SingleBench>,
    names: Seq<Seq<char>>,
) -> Seq<Seq<char>> {
    Seq::new(names.len(), |k: int| raw_cell(bench, earlier, names[k]))
}

/// The bench of the earlier group that ran the same command line: the
/// first one with the same arguments.
pub open spec fn baseline_bench(
    earlier: Option<Seq<SingleBench>>,
    cmd: Seq<Seq<char>>,
) -> Option<SingleBench> {
    match earlier {
        Some(benches) => match first_index(commands(benches), cmd) {
            Some(i) => Some(benches[i]),
            None => None,
        },
        None => None,
    }
}

/// The row of a bench in the raw table: its command line, then its cells.
#[verifier::opaque]
pub open spec fn raw_row(
    bench: SingleBench,
    earlier: Option<Seq<SingleBench>>,
    names: Seq<Seq<char>>,
) -> Seq<char> {
    "|`"@ + joined(texts(bench.cmd@), " "@) + "`|"@ + concat(
        raw_cells(bench, baseline_bench(earlier, texts(bench.cmd@)), names),
    ) + "\n"@
}

/// The rows of the benches of a group.
pub open spec fn raw_rows(
    benches: Seq<SingleBench>,
    earlier: Option<Seq<SingleBench>>,
    names: Seq<Seq<char>>,
) -> Seq<Seq<char>> {
    Seq::new(benches.len(), |i: int| raw_row(benches[i], earlier, names))
}

/// The head cells of the raw table: for each counter its name, and its
/// name with a delta sign.
pub open spec fn raw_head_cells(names: Seq<Seq<char>>) -> Seq<Seq<char>> {
    Seq::new(names.len(), |k: int| names[k] + "|"@ + names[k] + " Δ|"@)
}

/// The cells of the line under the head of the raw table.
pub open spec fn raw_rule_cells(names: Seq<Seq<char>>) -> Seq<Seq<char>> {
    Seq::new(names.len(), |k: int| "---|---|"@)
}

/// The head of the raw table: a column for the command and two for each
/// counter, and the line under them.
pub open spec fn raw_table_head(names: Seq<Seq<char>>) -> Seq<char> {
    "|command|"@ + concat(raw_head_cells(names)) + "\n"@ + "|---|"@ + concat(
        raw_rule_cells(names),
    ) + "\n"@
}

/// The raw table of a group: its title, the head with two columns for each
/// counter that any bench of the group has, and one row for each bench.
#[verifier::opaque]
pub open spec fn raw_group_text(
    name: Seq<char>,
    benches: Seq<SingleBench>,
    earlier: Option<Seq<SingleBench>>,
) -> Seq<char> {
    let names = metric_names(benches);
    table_title(name) + raw_table_head(names) + concat(raw_rows(benches, earlier, names))
}

/// The group of the earlier run that a group is compared with: the one of
/// the same name.
pub open spec fn baseline_group(
    earlier: Option<&BenchData>,
    name: Seq<char>,
) -> Option<Seq<SingleBench>> {
    match earlier {
        Some(run) => match run.group(name) {
            Some(benches) => Some(benches@),
            None => None,
        },
        None => None,
    }
}

/// The raw tables of a run, one for each group in the order of the run.
pub open spec fn raw_groups(data: &BenchData, earlier: Option<&BenchData>) -> Seq<Seq<char>> {
    Seq::new(
        data.groups().len(),
        |g: int|
            raw_group_text(
                data.groups()[g].0@,
                data.groups()[g].1@,
                baseline_group(earlier, data.groups()[g].0@),
            ),
    )
}

/// The heading of the raw report: that of a report on two runs where
/// there is an earlier run, else that of a report on one run.
pub open spec fn raw_heading(data: &BenchData, earlier: Option<&BenchData>, repository: Seq<char>) -> Seq<char> {
    match earlier {
        Some(run) => versus_heading(run, data, repository),
        None => run_heading(data, repository),
    }
}

/// The raw report of a run: heading, an empty line, and the raw tables.
pub open spec fn raw_text(
    data: &BenchData,
    earlier: Option<&BenchData>,
    repository: Seq<char>,
) -> Seq<char> {
    raw_heading(data, earlier, repository) + "\n"@ + concat(raw_groups(data, earlier))
}

/// Finds the name under which a counter is looked for in an earlier run.
pub fn strip_decoration(name: &str) -> (r: &str)
    ensures
        r@ == baseline_name(name@),
{
    let prefix = "cpu_core/";
    let len: usize = name.unicode_len();
    let prefix_len: usize = prefix.unicode_len();
    let inner = if prefix_len <= len && same_text(name.substring_char(0, prefix_len), prefix) {
        name.substring_char(prefix_len, len)
    } else {
        name
    };
    let inner_len: usize = inner.unicode_len();
    if inner_len > 0 && inner.get_char(inner_len - 1) == '/' {
        inner.substring_char(0, inner_len - 1)
    } else {
        inner
    }
}

/// Appends texts with a separator between each two.
pub fn push_joined(out: &mut String, parts: &Vec<String>, separator: &str)
    ensures
        final(out)@ == old(out)@ + joined(texts(parts@), separator@),
{
    let ghost pieces = Seq::new(
        texts(parts@).len(),
        |i: int| if i == 0 { texts(parts@)[i] } else { separator@ + texts(parts@)[i] },
    );
    let mut i: usize = 0;
    while i < parts.len()
        invariant
            i <= parts@.len(),
            pieces == Seq::new(
                texts(parts@).len(),
                |i: int| if i == 0 { texts(parts@)[i] } else { separator@ + texts(parts@)[i] },
            ),
            out@ == old(out)@ + concat_first(pieces, i as nat),
        decreases parts@.len() - i,
    {
        if i > 0 {
            out.append(separator);
        }
        out.append(parts[i].as_str());
        i = i + 1;
        assert(out@ =~= old(out)@ + concat_first(pieces, i as nat));
    }
}

/// Appends a counter as the raw table shows it.
fn push_raw_measure(md: &mut String, counter: &BenchCounter)
    ensures
        final(md)@ == old(md)@ + raw_measure(*counter),
{
    md.append("`");
    if same_text(counter.unit.as_str(), "msec") {
        push_value_fixed(md, counter.value);
    } else {
        push_value(md, counter.value);
    }
    md.append("±");
    push_deviation(md, counter.variance);
    md.append("` ");
    md.append(counter.unit.as_str());
    assert(md@ =~= old(md)@ + raw_measure(*counter));
}

/// Appends the change of a counter against the earlier run.
fn push_raw_change(md: &mut String, counter: &BenchCounter, earlier: Option<&BenchCounter>)
    ensures
        final(md)@ == old(md)@ + raw_change_text(
            *counter,
            match earlier {
                Some(e) => Some(*e),
                None => None,
            },
        ),
{
    match earlier {
        Some(e) => {
            if e.value != 0 {
                push_delta(md, e.value, counter.value);
            } else {
                md.append("n.a.");
            }
        },
        None => {
            md.append("n.a.");
        },
    }
}

/// Appends the cells of one counter in the row of a bench.
fn push_raw_cell(md: &mut String, bench: &SingleBench, earlier: Option<&SingleBench>, name: &str)
    ensures
        final(md)@ == old(md)@ + raw_cell(
            *bench,
            match earlier {
                Some(e) => Some(*e),
                None => None,
            },
            name@,
        ),
{
    reveal(raw_cell);
    let ghost earlier_bench: Option<SingleBench> = match earlier {
        Some(e) => Some(*e),
        None => None,
    };
    match bench.get(name) {
        Some(counter) => {
            let before = match earlier {
                Some(e) => e.get(strip_decoration(name)),
                None => None,
            };
            let ghost before_counter: Option<BenchCounter> = match before {
                Some(e) => Some(*e),
                None => None,
            };
            assert(before_counter == baseline_counter(earlier_bench, name@));
            push_raw_measure(md, counter);
            md.append(" | `");
            push_raw_change(md, counter, before);
            md.append("` |");
            assert(md@ =~= old(md)@ + raw_cell(*bench, earlier_bench, name@));
        },
        None => {
            md.append("|");
        },
    }
}

/// Appends the row of a bench in the raw table.
fn push_raw_row(
    md: &mut String,
    bench: &SingleBench,
    earlier: Option<&Vec<SingleBench>>,
    names: &Vec<String>,
)
    ensures
        final(md)@ == old(md)@ + raw_row(
            *bench,
            match earlier {
                Some(e) => Some(e@),
                None => None,
            },
            texts(names@),
        ),
{
    reveal(raw_row);
    let ghost earlier_benches: Option<Seq<SingleBench>> = match earlier {
        Some(e) => Some(e@),
        None => None,
    };
    let before: Option<&SingleBench> = match earlier {
        Some(e) => find_command(e, &bench.cmd),
        None => None,
    };
    let ghost before_bench: Option<SingleBench> = match before {
        Some(e) => Some(*e),
        None => None,
    };
    assert(before_bench == baseline_bench(earlier_benches, texts(bench.cmd@)));
    md.append("|`");
    push_joined(md, &bench.cmd, " ");
    md.append("`|");
    let ghost head = md@;
    let ghost cells = raw_cells(*bench, before_bench, texts(names@));
    let mut k: usize = 0;
    while k < names.len()
        invariant
            k <= names@.len(),
            cells == raw_cells(*bench, before_bench, texts(names@)),
            before_bench == match before {
                Some(e) => Some(*e),
                None => None,
            },
            md@ == head + concat_first(cells, k as nat),
        decreases names@.len() - k,
    {
        push_raw_cell(md, bench, before, names[k].as_str());
        k = k + 1;
        assert(md@ =~= head + concat_first(cells, k as nat));
    }
    md.append("\n");
    assert(md@ =~= old(md)@ + raw_row(*bench, earlier_benches, texts(names@)));
}

/// Appends the head of the raw table.
fn push_raw_table_head(md: &mut String, names: &Vec<String>)
    ensures
        final(md)@ == old(md)@ + raw_table_head(texts(names@)),
{
    md.append("|command|");
    let ghost head = md@;
    let ghost head_cells = raw_head_cells(texts(names@));
    let mut k: usize = 0;
    while k < names.len()
        invariant
            k <= names@.len(),
            head_cells == raw_head_cells(texts(names@)),
            md@ == head + concat_first(head_cells, k as nat),
        decreases names@.len() - k,
    {
        md.append(names[k].as_str());
        md.append("|");
        md.append(names[k].as_str());
        md.append(" Δ|");
        k = k + 1;
        assert(md@ =~= head + concat_first(head_cells, k as nat));
    }
    md.append("\n");
    md.append("|---|");
    let ghost rule = md@;
    let ghost rule_cells = raw_rule_cells(texts(names@));
    let mut k: usize = 0;
    while k < names.len()
        invariant
            k <= names@.len(),
            rule_cells == raw_rule_cells(texts(names@)),
            md@ == rule + concat_first(rule_cells, k as nat),
        decreases names@.len() - k,
    {
        md.append("---|---|");
        k = k + 1;
        assert(md@ =~= rule + concat_first(rule_cells, k as nat));
    }
    md.append("\n");
    assert(md@ =~= old(md)@ + raw_table_head(texts(names@)));
}

/// Appends the raw table of a group.
fn push_raw_group(
    md: &mut String,
    name: &str,
    benches: &Vec<SingleBench>,
    earlier: Option<&Vec<SingleBench>>,
)
    ensures
        final(md)@ == old(md)@ + raw_group_text(
            name@,
            benches@,
            match earlier {
                Some(e) => Some(e@),
                None => None,
            },
        ),
{
    reveal(raw_group_text);
    let ghost earlier_benches: Option<Seq<SingleBench>> = match earlier {
        Some(e) => Some(e@),
        None => None,
    };
    let names = available_counters(benches);
    push_table_title(md, name);
    push_raw_table_head(md, &names);
    let ghost body = md@;
    let ghost rows = raw_rows(benches@, earlier_benches, texts(names@));
    let mut i: usize = 0;
    while i < benches.len()
        invariant
            i <= benches@.len(),
            rows == raw_rows(benches@, earlier_benches, texts(names@)),
            earlier_benches == match earlier {
                Some(e) => Some(e@),
                None => None,
            },
            md@ == body + concat_first(rows, i as nat),
        decreases benches@.len() - i,
    {
        push_raw_row(md, &benches[i], earlier, &names);
        i = i + 1;
        assert(md@ =~= body + concat_first(rows, i as nat));
    }
    assert(md@ =~= old(md)@ + raw_group_text(name@, benches@, earlier_benches));
}

/// Appends the heading of the raw report.
fn push_raw_heading(md: &mut String, data: &BenchData, earlier: Option<&BenchData>, repository: &str)
    ensures
        final(md)@ == old(md)@ + raw_heading(data, earlier, repository@),
{
    match earlier {
        Some(run) => {
            push_versus_heading(md, run, data, repository);
        },
        None => {
            push_run_heading(md, data, repository);
        },
    }
}

/// Appends the raw table of the group at place `g` of a run.
fn push_raw_group_at(md: &mut String, data: &BenchData, earlier: Option<&BenchData>, g: usize)
    requires
        g < data.groups().len(),
    ensures
        final(md)@ == old(md)@ + raw_groups(data, earlier)[g as int],
{
    match data.group_at(g) {
        Some((name, benches)) => {
            let before = match earlier {
                Some(run) => run.get_group(name.as_str()),
                None => None,
            };
            let ghost before_benches: Option<Seq<SingleBench>> = match before {
                Some(e) => Some(e@),
                None => None,
            };
            assert(before_benches == baseline_group(earlier, name@));
            push_raw_group(md, name.as_str(), benches, before);
        },
        None => {},
    }
}

/// Appends the raw report of a run.
fn push_raw_report(md: &mut String, data: &BenchData, earlier: Option<&BenchData>, repository: &str)
    ensures
        final(md)@ == old(md)@ + raw_text(data, earlier, repository@),
{
    push_raw_heading(md, data, earlier, repository);
    md.append("\n");
    let ghost head = md@;
    let ghost tables = raw_groups(data, earlier);
    let count: usize = data.group_count();
    let mut g: usize = 0;
    while g < count
        invariant
            g <= count,
            count == data.groups().len(),
            tables == raw_groups(data, earlier),
            md@ == head + concat_first(tables, g as nat),
        decreases count - g,
    {
        push_raw_group_at(md, data, earlier, g);
        g = g + 1;
        assert(md@ =~= head + concat_first(tables, g as nat));
    }
    assert(md@ =~= old(md)@ + raw_text(data, earlier, repository@));
}

impl BenchData {
    /// Appends the raw numbers of a run: for each group a table with one
    /// row for each bench and two columns for each counter of the group.
    /// With an earlier run, each counter is shown with its change against
    /// the same counter of the bench that ran the same command line in the
    /// group of the same name there. Runs from different environments are
    /// not compared: nothing is appended then.
    pub fn render_markdown_raw(
        &self,
        md: &mut String,
        prev_results: Option<&Self>,
        repository: &str,
    ) -> (r:
        Result<(), ReportError>)
        ensures
            (prev_results matches Some(p) ==> self.same_environment(p)) ==> r is Ok && final(md)@
                == old(md)@ + raw_text(self, prev_results, repository@),
            (prev_results matches Some(p) && !self.same_environment(p)) ==> r == Err::<
                (),
                ReportError,
            >(ReportError::EnvironmentMismatch) && final(md)@ == old(md)@,
    {
        if let Some(p) = prev_results {
            if !self.in_same_environment(p) {
                return Err(ReportError::EnvironmentMismatch);
            }
        }
        push_raw_report(md, self, prev_results, repository);
        Ok(())
    }
}

/// The tables of a summary: the comparison with the earlier run, where
/// there is an earlier run and something to compare, and then the
/// comparison within the run, where there is something to compare.
pub open spec fn summary_tables(
    data: &BenchData,
    earlier: Option<&BenchData>,
    versus_other: Seq<(String, VersusOther)>,
    versus_self: Seq<(String, IndexMap<String, Compare>)>,
    repository: Seq<char>,
) -> Seq<char> {
    (match earlier {
        Some(run) => if versus_other.len() > 0 {
            versus_text(run, data, versus_other, repository)
        } else {
            Seq::empty()
        },
        None => Seq::empty(),
    }) + (if versus_self.len() > 0 {
        self_diff_text(data, versus_self, repository)
    } else {
        Seq::empty()
    })
}

/// The summary of a run: its tables, and the raw numbers, which are folded
/// away where there is a table before them.
pub open spec fn summary_text(
    data: &BenchData,
    earlier: Option<&BenchData>,
    versus_other: Seq<(String, VersusOther)>,
    versus_self: Seq<(String, IndexMap<String, Compare>)>,
    repository: Seq<char>,
) -> Seq<char> {
    let tables = summary_tables(data, earlier, versus_other, versus_self, repository);
    if tables.len() > 0 {
        tables + "<details>\n    <summary>Raw Results</summary>\n\n"@ + raw_text(
            data,
            earlier,
            repository,
        ) + "</details>\n"@
    } else {
        raw_text(data, earlier, repository)
    }
}

impl BenchData {
    /// Writes the summary of a run. Runs from different environments are
    /// not compared: there is no summary then.
    pub fn render_summary(
        &self,
        prev_results: Option<&Self>,
        versus_other: &IndexMap<String, VersusOther>,
        versus_self: &IndexMap<String, IndexMap<String, Compare>>,
        repository: &str,
    ) -> (r: Result<String, ReportError>)
        ensures
            match r {
                Ok(md) => {
                    &&& prev_results matches Some(p) ==> self.same_environment(p)
                    &&& md@ == summary_text(
                        self,
                        prev_results,
                        versus_other_entries(*versus_other),
                        versus_self_entries(*versus_self),
                        repository@,
                    )
                },
                Err(e) => {
                    &&& e == ReportError::EnvironmentMismatch
                    &&& prev_results matches Some(p) && !self.same_environment(p)
                },
            },
    {
        let mut md = String::new();
        if let Some(p) = prev_results {
            if !self.in_same_environment(p) {
                return Err(ReportError::EnvironmentMismatch);
            }
            if versus_other_len(versus_other) > 0 {
                let _ = BenchData::render_markdown_diff_pretty(
                    &mut md,
                    versus_other,
                    p,
                    self,
                    repository,
                );
            }
        }
        if versus_self_len(versus_self) > 0 {
            BenchData::render_markdown_self_diff_pretty(&mut md, versus_self, self, repository);
        }
        assert(md@ =~= summary_tables(
            self,
            prev_results,
            versus_other_entries(*versus_other),
            versus_self_entries(*versus_self),
            repository@,
        ));
        let hide: bool = !md.as_str().is_empty();
        if hide {
            md.append("<details>\n    <summary>Raw Results</summary>\n\n");
        }
        let _ = self.render_markdown_raw(&mut md, prev_results, repository);
        if hide {
            md.append("</details>\n");
        }
        assert(md@ =~= summary_text(
            self,
            prev_results,
            versus_other_entries(*versus_other),
            versus_self_entries(*versus_self),
            repository@,
        ));
        Ok(md)
    }
}

} // verus!
