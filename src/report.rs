//! Rendering of the report: times as `HHhMMm`, the lines of the text report
//! and the records of the CSV export.

use vstd::prelude::*;
use vstd::string::StringExecFns;

use crate::date::{calendar_date, iso_date, iso_date_text, Date};
use crate::menu::texts_view;
use crate::summary::{days_view, DayModel, EntryModel, Summary, SummarizedDay, SummarizedTask, TaskModel};

verus! {

/// The character of a decimal digit.
pub open spec fn digit_char(d: nat) -> char {
    if d == 0 {
        '0'
    } else if d == 1 {
        '1'
    } else if d == 2 {
        '2'
    } else if d == 3 {
        '3'
    } else if d == 4 {
        '4'
    } else if d == 5 {
        '5'
    } else if d == 6 {
        '6'
    } else if d == 7 {
        '7'
    } else if d == 8 {
        '8'
    } else {
        '9'
    }
}

/// The decimal notation of `n`, without leading zeros.
pub open spec fn decimal(n: nat) -> Seq<char>
    decreases n,
{
    if n < 10 {
        seq![digit_char(n)]
    } else {
        decimal(n / 10).push(digit_char(n % 10))
    }
}

/// The decimal notation of `n`, padded with a zero to at least two digits.
pub open spec fn two_digits(n: nat) -> Seq<char> {
    if n < 10 {
        seq!['0', digit_char(n)]
    } else {
        decimal(n)
    }
}

/// A number of minutes as hours and minutes, `HHhMMm`.
pub open spec fn time_text(total: nat) -> Seq<char> {
    two_digits(total / 60) + seq!['h'] + two_digits(total % 60) + seq!['m']
}

/// The value of a decimal digit character.
pub open spec fn digit_value(c: char) -> nat {
    if c == '1' {
        1
    } else if c == '2' {
        2
    } else if c == '3' {
        3
    } else if c == '4' {
        4
    } else if c == '5' {
        5
    } else if c == '6' {
        6
    } else if c == '7' {
        7
    } else if c == '8' {
        8
    } else if c == '9' {
        9
    } else {
        0
    }
}

pub open spec fn is_digit(c: char) -> bool {
    c == '0' || c == '1' || c == '2' || c == '3' || c == '4' || c == '5' || c == '6' || c == '7' || c == '8'
        || c == '9'
}

/// The number that a text of decimal digits reads as.
pub open spec fn digits_value(s: Seq<char>) -> nat
    decreases s.len(),
{
    if s.len() == 0 {
        0
    } else {
        digits_value(s.drop_last()) * 10 + digit_value(s.last())
    }
}

proof fn lemma_decimal_reads_back(n: nat)
    ensures
        digits_value(decimal(n)) == n,
        decimal(n).len() >= 1,
        n >= 10 ==> decimal(n).len() >= 2,
        n < 100 ==> decimal(n).len() <= 2,
        forall|i: int| 0 <= i < decimal(n).len() ==> is_digit(#[trigger] decimal(n)[i]),
    decreases n,
{
    if n < 10 {
        assert(seq![digit_char(n)].drop_last() =~= Seq::<char>::empty());
        assert(digits_value(Seq::<char>::empty()) == 0);
    } else {
        lemma_decimal_reads_back(n / 10);
        let s = decimal(n);
        assert(s.drop_last() =~= decimal(n / 10));
        assert(n == (n / 10) * 10 + n % 10) by (nonlinear_arith);
        assert forall|i: int| 0 <= i < s.len() implies is_digit(#[trigger] s[i]) by {
            if i < s.len() - 1 {
                assert(s[i] == decimal(n / 10)[i]);
            }
        }
    }
}

proof fn lemma_two_digits_read_back(n: nat)
    ensures
        digits_value(two_digits(n)) == n,
        two_digits(n).len() >= 2,
        n < 100 ==> two_digits(n).len() == 2,
        forall|i: int| 0 <= i < two_digits(n).len() ==> is_digit(#[trigger] two_digits(n)[i]),
{
    lemma_decimal_reads_back(n);
    if n < 10 {
        let s = two_digits(n);
        assert(s.drop_last() =~= seq!['0']);
        assert(seq!['0'].drop_last() =~= Seq::<char>::empty());
        assert(digits_value(Seq::<char>::empty()) == 0);
        assert(seq!['0'].last() == '0');
        assert(digits_value(seq!['0']) == digits_value(seq!['0'].drop_last()) * 10 + digit_value('0'));
        assert(digits_value(seq!['0']) == 0);
        assert(decimal(n) =~= seq![digit_char(n)]);
    }
}

/// The text of a number of minutes reads back as that number: hours of at
/// least two digits, `h`, minutes of exactly two digits below 60, and `m`.
pub proof fn lemma_time_text_reads_back(total: nat)
    ensures
        ({
            let h = two_digits(total / 60);
            let m = two_digits(total % 60);
            &&& time_text(total) == h + seq!['h'] + m + seq!['m']
            &&& h.len() >= 2
            &&& m.len() == 2
            &&& forall|i: int| 0 <= i < h.len() ==> is_digit(#[trigger] h[i])
            &&& forall|i: int| 0 <= i < m.len() ==> is_digit(#[trigger] m[i])
            &&& digits_value(m) < 60
            &&& digits_value(h) * 60 + digits_value(m) == total
        }),
{
    lemma_two_digits_read_back(total / 60);
    lemma_two_digits_read_back(total % 60);
}

fn digit_str(d: usize) -> (r: &'static str)
    requires
        d < 10,
    ensures
        r@ == seq![digit_char(d as nat)],
{
    if d == 0 {
        proof { reveal_strlit("0"); }
        "0"
    } else if d == 1 {
        proof { reveal_strlit("1"); }
        "1"
    } else if d == 2 {
        proof { reveal_strlit("2"); }
        "2"
    } else if d == 3 {
        proof { reveal_strlit("3"); }
        "3"
    } else if d == 4 {
        proof { reveal_strlit("4"); }
        "4"
    } else if d == 5 {
        proof { reveal_strlit("5"); }
        "5"
    } else if d == 6 {
        proof { reveal_strlit("6"); }
        "6"
    } else if d == 7 {
        proof { reveal_strlit("7"); }
        "7"
    } else if d == 8 {
        proof { reveal_strlit("8"); }
        "8"
    } else {
        proof { reveal_strlit("9"); }
        "9"
    }
}

/// Appends the decimal notation of `n` to `out`.
pub fn push_decimal(out: &mut String, n: usize)
    ensures
        final(out)@ == old(out)@ + decimal(n as nat),
    decreases n,
{
    if n >= 10 {
        push_decimal(out, n / 10);
    }
    out.append(digit_str(n % 10));
    assert(final(out)@ =~= old(out)@ + decimal(n as nat));
}

/// The decimal notation of `n`.
pub fn decimal_string(n: usize) -> (r: String)
    ensures
        r@ == decimal(n as nat),
{
    let mut r = String::new();
    push_decimal(&mut r, n);
    assert(r@ =~= decimal(n as nat));
    r
}

fn push_two_digits(out: &mut String, n: usize)
    ensures
        final(out)@ == old(out)@ + two_digits(n as nat),
{
    if n < 10 {
        proof { reveal_strlit("0"); }
        out.append("0");
    }
    push_decimal(out, n);
    assert(final(out)@ =~= old(out)@ + two_digits(n as nat));
}

/// Renders a number of minutes as zero-padded hours and minutes: 125 becomes
/// `02h05m`; hours past 99 keep all their digits.
pub fn format_time(time: usize) -> (r: String)
    ensures
        r@ == time_text(time as nat),
{
    let minutes = time % 60;
    let hours = time / 60;
    let mut r = String::new();
    push_two_digits(&mut r, hours);
    proof { reveal_strlit("h"); reveal_strlit("m"); }
    r.append("h");
    push_two_digits(&mut r, minutes);
    r.append("m");
    assert(r@ =~= time_text(time as nat));
    r
}


/// The header of the CSV export; the detailed export adds the entry column.
pub open spec fn csv_header_text(detailed: bool) -> Seq<Seq<char>> {
    let base = seq!["Project"@, "Date"@, "Time Spent (Minutes)"@, "Task"@];
    if detailed {
        base.push("Log Entry"@)
    } else {
        base
    }
}

/// The CSV records of one task: one per entry in the detailed export, and
/// one for the whole task otherwise.
pub open spec fn task_records(project: Seq<char>, date: Seq<char>, t: TaskModel, detailed: bool) -> Seq<Seq<Seq<char>>> {
    if detailed {
        t.entries.map_values(|e: EntryModel| seq![project, date, decimal(e.minutes), t.name, e.name])
    } else {
        seq![seq![project, date, decimal(t.minutes), t.name]]
    }
}

/// The CSV records of a day's tasks, task after task.
pub open spec fn tasks_records(project: Seq<char>, date: Seq<char>, tasks: Seq<TaskModel>, detailed: bool) -> Seq<Seq<Seq<char>>>
    decreases tasks.len(),
{
    if tasks.len() == 0 {
        seq![]
    } else {
        tasks_records(project, date, tasks.drop_last(), detailed) + task_records(project, date, tasks.last(), detailed)
    }
}

/// The CSV records of a project's days, day after day, each dated `YYYY-MM-DD`.
pub open spec fn days_records(project: Seq<char>, days: Seq<DayModel>, detailed: bool) -> Seq<Seq<Seq<char>>>
    decreases days.len(),
{
    if days.len() == 0 {
        seq![]
    } else {
        let d = days.last();
        days_records(project, days.drop_last(), detailed) + tasks_records(
            project,
            iso_date_text(d.date),
            d.tasks,
            detailed,
        )
    }
}

pub open spec fn records_view(records: Seq<Vec<String>>) -> Seq<Seq<Seq<char>>> {
    records.map_values(|r: Vec<String>| texts_view(r@))
}

/// The header row of the CSV export.
pub fn csv_headers(detailed: bool) -> (r: Vec<String>)
    ensures
        texts_view(r@) == csv_header_text(detailed),
{
    let mut r: Vec<String> = Vec::new();
    r.push(String::from_str("Project"));
    r.push(String::from_str("Date"));
    r.push(String::from_str("Time Spent (Minutes)"));
    r.push(String::from_str("Task"));
    if detailed {
        r.push(String::from_str("Log Entry"));
    }
    assert(texts_view(r@) =~= csv_header_text(detailed));
    r
}

fn push_task_records(out: &mut Vec<Vec<String>>, project: &String, date: &String, task: &SummarizedTask, detailed: bool)
    ensures
        records_view(final(out)@) == records_view(old(out)@) + task_records(project@, date@, task@, detailed),
{
    let ghost start = records_view(out@);
    if detailed {
        let ghost all = task_records(project@, date@, task@, detailed);
        assert(all.len() == task.entries@.len());
        let mut k: usize = 0;
        while k < task.entries.len()
            invariant
                0 <= k <= task.entries@.len(),
                all == task_records(project@, date@, task@, detailed),
                all.len() == task.entries@.len(),
                detailed,
                records_view(out@) == start + all.take(k as int),
            decreases task.entries@.len() - k,
        {
            let entry = &task.entries[k];
            let mut record: Vec<String> = Vec::new();
            record.push(project.clone());
            record.push(date.clone());
            record.push(decimal_string(entry.minutes));
            record.push(task.name.clone());
            record.push(entry.name.clone());
            let ghost before = records_view(out@);
            proof {
                assert(task@.entries[k as int] == entry@);
                assert(texts_view(record@) =~= all[k as int]);
            }
            out.push(record);
            proof {
                assert(all.take(k + 1) =~= all.take(k as int).push(all[k as int]));
                assert(records_view(out@) =~= before.push(texts_view(record@)));
            }
            k = k + 1;
        }
        assert(all.take(k as int) =~= all);
    } else {
        let mut record: Vec<String> = Vec::new();
        record.push(project.clone());
        record.push(date.clone());
        record.push(decimal_string(task.minutes));
        record.push(task.name.clone());
        assert(texts_view(record@) =~= seq![project@, date@, decimal(task@.minutes), task@.name]);
        out.push(record);
        assert(records_view(out@) =~= start + task_records(project@, date@, task@, detailed));
    }
}

fn push_day_records(out: &mut Vec<Vec<String>>, project: &String, date: &String, day: &SummarizedDay, detailed: bool)
    ensures
        records_view(final(out)@) == records_view(old(out)@) + tasks_records(project@, date@, day@.tasks, detailed),
{
    let ghost start = records_view(out@);
    let mut j: usize = 0;
    while j < day.tasks.len()
        invariant
            0 <= j <= day.tasks@.len(),
            records_view(out@) == start + tasks_records(project@, date@, day@.tasks.take(j as int), detailed),
        decreases day.tasks@.len() - j,
    {
        let ghost before = records_view(out@);
        push_task_records(out, project, date, &day.tasks[j], detailed);
        proof {
            let ts = day@.tasks;
            assert(ts.take(j + 1).drop_last() =~= ts.take(j as int));
            assert(ts.take(j + 1).last() == day.tasks@[j as int]@);
        }
        j = j + 1;
    }
    assert(day@.tasks.take(j as int) =~= day@.tasks);
}

/// Every day's date is a day of the calendar.
pub open spec fn all_calendar_dates(days: Seq<DayModel>) -> bool {
    forall|i: int| 0 <= i < days.len() ==> calendar_date(#[trigger] days[i].date)
}

/// The data rows of the CSV export of a summary, or `None` where a day's
/// date is not a day of the calendar.
pub fn csv_records(summary: &Summary, detailed: bool) -> (r: Option<Vec<Vec<String>>>)
    ensures
        r.is_some() == all_calendar_dates(days_view(summary.days@)),
        r.is_some() ==> records_view(r.unwrap()@) == days_records(summary.name@, days_view(summary.days@), detailed),
{
    let ghost days = days_view(summary.days@);
    let mut out: Vec<Vec<String>> = Vec::new();
    let mut i: usize = 0;
    while i < summary.days.len()
        invariant
            0 <= i <= summary.days@.len(),
            days == days_view(summary.days@),
            records_view(out@) == days_records(summary.name@, days.take(i as int), detailed),
            all_calendar_dates(days.take(i as int)),
        decreases summary.days@.len() - i,
    {
        let day = &summary.days[i];
        let date = match iso_date(day.date) {
            Some(t) => t,
            None => {
                assert(days[i as int].date == day.date);
                return None;
            },
        };
        push_day_records(&mut out, &summary.name, &date, day, detailed);
        proof {
            assert(days.take(i + 1).drop_last() =~= days.take(i as int));
            assert(days.take(i + 1).last() == day@);
        }
        i = i + 1;
    }
    assert(days.take(i as int) =~= days);
    Some(out)
}


/// One line of the text report.
pub enum SummaryLine {
    /// The header of a day.
    Day(Date),
    /// The name of a task, above its entries.
    TaskTitle(String),
    /// An entry of a task with its time spent.
    Entry { time: String, name: String },
    /// A task with its time spent.
    Task { time: String, name: String },
}

/// What a `SummaryLine` holds.
pub enum LineModel {
    Day(Date),
    TaskTitle(Seq<char>),
    Entry(Seq<char>, Seq<char>),
    Task(Seq<char>, Seq<char>),
}

impl View for SummaryLine {
    type V = LineModel;

    open spec fn view(&self) -> LineModel {
        match self {
            SummaryLine::Day(d) => LineModel::Day(*d),
            SummaryLine::TaskTitle(n) => LineModel::TaskTitle(n@),
            SummaryLine::Entry { time, name } => LineModel::Entry(time@, name@),
            SummaryLine::Task { time, name } => LineModel::Task(time@, name@),
        }
    }
}

pub open spec fn lines_view(lines: Seq<SummaryLine>) -> Seq<LineModel> {
    lines.map_values(|l: SummaryLine| l@)
}

/// The lines of one task: its name then one line per entry in the detailed
/// report, a single line with its time otherwise.
pub open spec fn task_lines(t: TaskModel, detailed: bool) -> Seq<LineModel> {
    if detailed {
        seq![LineModel::TaskTitle(t.name)] + t.entries.map_values(
            |e: EntryModel| LineModel::Entry(time_text(e.minutes), e.name),
        )
    } else {
        seq![LineModel::Task(time_text(t.minutes), t.name)]
    }
}

pub open spec fn tasks_lines(tasks: Seq<TaskModel>, detailed: bool) -> Seq<LineModel>
    decreases tasks.len(),
{
    if tasks.len() == 0 {
        seq![]
    } else {
        tasks_lines(tasks.drop_last(), detailed) + task_lines(tasks.last(), detailed)
    }
}

/// The lines of the text report: each day's header followed by its tasks.
pub open spec fn days_lines(days: Seq<DayModel>, detailed: bool) -> Seq<LineModel>
    decreases days.len(),
{
    if days.len() == 0 {
        seq![]
    } else {
        days_lines(days.drop_last(), detailed) + seq![LineModel::Day(days.last().date)] + tasks_lines(
            days.last().tasks,
            detailed,
        )
    }
}

fn push_task_lines(out: &mut Vec<SummaryLine>, task: &SummarizedTask, detailed: bool)
    ensures
        lines_view(final(out)@) == lines_view(old(out)@) + task_lines(task@, detailed),
{
    let ghost start = lines_view(out@);
    if detailed {
        out.push(SummaryLine::TaskTitle(task.name.clone()));
        let ghost all = task_lines(task@, detailed);
        assert(lines_view(out@) =~= start + all.take(1));
        let mut k: usize = 0;
        while k < task.entries.len()
            invariant
                0 <= k <= task.entries@.len(),
                detailed,
                all == task_lines(task@, detailed),
                all.len() == task.entries@.len() + 1,
                lines_view(out@) == start + all.take(k + 1),
            decreases task.entries@.len() - k,
        {
            let entry = &task.entries[k];
            let line = SummaryLine::Entry { time: format_time(entry.minutes), name: entry.name.clone() };
            let ghost before = lines_view(out@);
            proof {
                assert(task@.entries[k as int] == entry@);
                assert(line@ == all[k + 1]);
            }
            out.push(line);
            proof {
                assert(all.take(k + 2) =~= all.take(k + 1).push(all[k + 1]));
                assert(lines_view(out@) =~= before.push(line@));
            }
            k = k + 1;
        }
        assert(all.take(k + 1) =~= all);
    } else {
        out.push(SummaryLine::Task { time: format_time(task.minutes), name: task.name.clone() });
        assert(lines_view(out@) =~= start + task_lines(task@, detailed));
    }
}

/// The lines of the text report of a summary, each day's header followed by
/// its tasks.
pub fn summary_lines(summary: &Summary, detailed: bool) -> (r: Vec<SummaryLine>)
    ensures
        lines_view(r@) == days_lines(days_view(summary.days@), detailed),
{
    let ghost days = days_view(summary.days@);
    let mut out: Vec<SummaryLine> = Vec::new();
    let mut i: usize = 0;
    while i < summary.days.len()
        invariant
            0 <= i <= summary.days@.len(),
            days == days_view(summary.days@),
            lines_view(out@) == days_lines(days.take(i as int), detailed),
        decreases summary.days@.len() - i,
    {
        let day = &summary.days[i];
        let ghost day_start = lines_view(out@);
        out.push(SummaryLine::Day(day.date));
        assert(lines_view(out@) =~= day_start + seq![LineModel::Day(day.date)]);
        let mut j: usize = 0;
        while j < day.tasks.len()
            invariant
                0 <= j <= day.tasks@.len(),
                lines_view(out@) == day_start + seq![LineModel::Day(day.date)] + tasks_lines(day@.tasks.take(j as int), detailed),
            decreases day.tasks@.len() - j,
        {
            push_task_lines(&mut out, &day.tasks[j], detailed);
            proof {
                let ts = day@.tasks;
                assert(ts.take(j + 1).drop_last() =~= ts.take(j as int));
                assert(ts.take(j + 1).last() == day.tasks@[j as int]@);
            }
            j = j + 1;
        }
        proof {
            assert(day@.tasks.take(j as int) =~= day@.tasks);
            assert(days.take(i + 1).drop_last() =~= days.take(i as int));
            assert(days.take(i + 1).last() == day@);
        }
        i = i + 1;
    }
    assert(days.take(i as int) =~= days);
    out
}

} // verus!
