//! The report of a project's logged time: rows folded into days, tasks and
//! entries, with the laws that the folding obeys.

use vstd::prelude::*;

use crate::date::Date;
use crate::records::Project;

verus! {

/// One stored time entry, joined with its task and carrying the total of
/// minutes logged on that task for the entry's date.
pub struct LogRow {
    pub task_id: usize,
    pub task_name: String,
    pub entry_name: String,
    pub entry_minutes: usize,
    pub entry_date: Date,
    pub day_total_minutes: usize,
}

/// A single log entry inside a summarized task.
pub struct SummarizedTaskEntry {
    pub name: String,
    pub minutes: usize,
}

/// The entries of one task on one day, with their minutes added up.
pub struct SummarizedTask {
    pub id: usize,
    pub name: String,
    pub minutes: usize,
    pub entries: Vec<SummarizedTaskEntry>,
}

/// The tasks worked on during one day.
pub struct SummarizedDay {
    pub date: Date,
    pub minutes: usize,
    pub tasks: Vec<SummarizedTask>,
}

/// The report of one project: its days, most recent first.
pub struct Summary {
    pub id: usize,
    pub name: String,
    pub days: Vec<SummarizedDay>,
}

/// What a `LogRow` holds, with minutes and ids as natural numbers.
pub struct RowModel {
    pub task_id: nat,
    pub task_name: Seq<char>,
    pub entry_name: Seq<char>,
    pub entry_minutes: nat,
    pub entry_date: Date,
    pub day_total_minutes: nat,
}

/// What a `SummarizedTaskEntry` holds.
pub struct EntryModel {
    pub name: Seq<char>,
    pub minutes: nat,
}

/// What a `SummarizedTask` holds.
pub struct TaskModel {
    pub id: nat,
    pub name: Seq<char>,
    pub minutes: nat,
    pub entries: Seq<EntryModel>,
}

/// What a `SummarizedDay` holds.
pub struct DayModel {
    pub date: Date,
    pub minutes: nat,
    pub tasks: Seq<TaskModel>,
}

impl View for LogRow {
    type V = RowModel;

    open spec fn view(&self) -> RowModel {
        RowModel {
            task_id: self.task_id as nat,
            task_name: self.task_name@,
            entry_name: self.entry_name@,
            entry_minutes: self.entry_minutes as nat,
            entry_date: self.entry_date,
            day_total_minutes: self.day_total_minutes as nat,
        }
    }
}

impl View for SummarizedTaskEntry {
    type V = EntryModel;

    open spec fn view(&self) -> EntryModel {
        EntryModel { name: self.name@, minutes: self.minutes as nat }
    }
}

impl View for SummarizedTask {
    type V = TaskModel;

    open spec fn view(&self) -> TaskModel {
        TaskModel {
            id: self.id as nat,
            name: self.name@,
            minutes: self.minutes as nat,
            entries: self.entries@.map_values(|e: SummarizedTaskEntry| e@),
        }
    }
}

impl View for SummarizedDay {
    type V = DayModel;

    open spec fn view(&self) -> DayModel {
        DayModel {
            date: self.date,
            minutes: self.minutes as nat,
            tasks: self.tasks@.map_values(|t: SummarizedTask| t@),
        }
    }
}

pub open spec fn rows_view(rows: Seq<LogRow>) -> Seq<RowModel> {
    rows.map_values(|r: LogRow| r@)
}

pub open spec fn days_view(days: Seq<SummarizedDay>) -> Seq<DayModel> {
    days.map_values(|d: SummarizedDay| d@)
}

/// The entry that a row becomes.
pub open spec fn entry_of(r: RowModel) -> EntryModel {
    EntryModel { name: r.entry_name, minutes: r.entry_minutes }
}

/// The task opened for a row: the row's task holding the row's entry alone.
pub open spec fn task_of(r: RowModel) -> TaskModel {
    TaskModel {
        id: r.task_id,
        name: r.task_name,
        minutes: r.entry_minutes,
        entries: seq![entry_of(r)],
    }
}

/// Adds a row to a day that has the row's date: the row joins the day's last
/// task when that task is the row's, and opens a new task otherwise. The day's
/// minutes grow by the row's day total.
pub open spec fn add_to_day(d: DayModel, r: RowModel) -> DayModel {
    let tasks = if d.tasks.len() > 0 && d.tasks.last().id == r.task_id {
        let t = d.tasks.last();
        d.tasks.update(
            d.tasks.len() - 1,
            TaskModel {
                id: t.id,
                name: t.name,
                minutes: t.minutes + r.entry_minutes,
                entries: t.entries.push(entry_of(r)),
            },
        )
    } else {
        d.tasks.push(task_of(r))
    };
    DayModel { date: d.date, minutes: d.minutes + r.day_total_minutes, tasks }
}

/// Folds one more row into the days built so far: a row whose date differs
/// from the last day's (or that comes first) opens a new day.
pub open spec fn fold_row(days: Seq<DayModel>, r: RowModel) -> Seq<DayModel> {
    if days.len() == 0 || days.last().date != r.entry_date {
        days.push(DayModel { date: r.entry_date, minutes: r.day_total_minutes, tasks: seq![task_of(r)] })
    } else {
        days.update(days.len() - 1, add_to_day(days.last(), r))
    }
}

/// The days that a sequence of rows summarizes to, folding the rows in order.
pub open spec fn summarize(rows: Seq<RowModel>) -> Seq<DayModel>
    decreases rows.len(),
{
    if rows.len() == 0 {
        seq![]
    } else {
        fold_row(summarize(rows.drop_last()), rows.last())
    }
}

pub open spec fn tasks_view(tasks: Seq<SummarizedTask>) -> Seq<TaskModel> {
    tasks.map_values(|t: SummarizedTask| t@)
}

/// Every day of `days` has at most `day_cap` minutes and each of its tasks at
/// most `task_cap`.
pub open spec fn minutes_within(days: Seq<DayModel>, day_cap: nat, task_cap: nat) -> bool {
    forall|d: int| 0 <= d < days.len() ==> {
        &&& #[trigger] days[d].minutes <= day_cap
        &&& forall|t: int| 0 <= t < days[d].tasks.len() ==> #[trigger] days[d].tasks[t].minutes <= task_cap
    }
}

/// No day total and no task total of the report of these rows exceeds a
/// `usize`.
pub open spec fn totals_fit(rows: Seq<RowModel>) -> bool {
    minutes_within(summarize(rows), usize::MAX as nat, usize::MAX as nat)
}

/// Folding a row changes only the last day and its last task: the totals of
/// the result stay within a bound exactly when those of the days before did
/// and the last day and its last task do.
proof fn lemma_within_fold(s: Seq<DayModel>, r: RowModel, c: nat)
    ensures
        fold_row(s, r).len() > 0,
        fold_row(s, r).last().tasks.len() > 0,
        minutes_within(fold_row(s, r), c, c) == (minutes_within(s, c, c) && fold_row(s, r).last().minutes <= c
            && fold_row(s, r).last().tasks.last().minutes <= c),
{
    let out = fold_row(s, r);
    let n = out.len() - 1;
    if minutes_within(out, c, c) {
        assert(out[n].minutes <= c);
        assert(out[n].tasks[out[n].tasks.len() - 1].minutes <= c);
        assert forall|d: int| 0 <= d < s.len() implies {
            &&& #[trigger] s[d].minutes <= c
            &&& forall|t: int| 0 <= t < s[d].tasks.len() ==> #[trigger] s[d].tasks[t].minutes <= c
        } by {
            assert(out[d].minutes <= c);
            assert forall|t: int| 0 <= t < s[d].tasks.len() implies #[trigger] s[d].tasks[t].minutes <= c by {
                assert(out[d].tasks[t].minutes <= c);
            }
        }
    }
    if minutes_within(s, c, c) && out.last().minutes <= c && out.last().tasks.last().minutes <= c {
        assert forall|d: int| 0 <= d < out.len() implies {
            &&& #[trigger] out[d].minutes <= c
            &&& forall|t: int| 0 <= t < out[d].tasks.len() ==> #[trigger] out[d].tasks[t].minutes <= c
        } by {
            if d < n {
                assert(out[d] == s[d]);
            } else {
                assert forall|t: int| 0 <= t < out[d].tasks.len() implies #[trigger] out[d].tasks[t].minutes <= c by {
                    if t < out[d].tasks.len() - 1 {
                        assert(out[d].tasks[t] == s[d].tasks[t]);
                    }
                }
            }
        }
    }
}

/// Totals within a bound for all rows are within it for every prefix of them.
proof fn lemma_within_prefix(rows: Seq<RowModel>, k: int, c: nat)
    requires
        0 <= k <= rows.len(),
        minutes_within(summarize(rows), c, c),
    ensures
        minutes_within(summarize(rows.take(k)), c, c),
    decreases rows.len(),
{
    if k == rows.len() {
        assert(rows.take(k) =~= rows);
    } else {
        lemma_within_fold(summarize(rows.drop_last()), rows.last(), c);
        assert(rows.drop_last().take(k) =~= rows.take(k));
        lemma_within_prefix(rows.drop_last(), k, c);
    }
}

fn process_summary_task_entry(row: &LogRow) -> (r: SummarizedTaskEntry)
    ensures
        r@ == entry_of(row@),
{
    SummarizedTaskEntry { name: row.entry_name.clone(), minutes: row.entry_minutes }
}

fn process_summary_task(row: &LogRow) -> (r: SummarizedTask)
    ensures
        r@ == task_of(row@),
{
    let entry = process_summary_task_entry(row);
    let entries = vec![entry];
    let r = SummarizedTask { id: row.task_id, name: row.task_name.clone(), minutes: row.entry_minutes, entries };
    assert(r@.entries =~= seq![entry_of(row@)]);
    r
}

fn process_summary_day(row: &LogRow) -> (r: SummarizedDay)
    ensures
        r@ == (DayModel { date: row.entry_date, minutes: row.day_total_minutes as nat, tasks: seq![] }),
{
    let r = SummarizedDay { date: row.entry_date, minutes: row.day_total_minutes, tasks: Vec::new() };
    assert(r@.tasks =~= seq![]);
    r
}

/// The day being built, holding its finished tasks, with the task being built
/// placed after them.
pub open spec fn open_day(day: SummarizedDay, task: SummarizedTask) -> DayModel {
    DayModel { date: day.date, minutes: day.minutes as nat, tasks: tasks_view(day.tasks@).push(task@) }
}

/// Folds rows, ordered by date with each task's rows of a date together, into
/// days of tasks of entries.
pub fn process_summary(rows: &Vec<LogRow>) -> (days: Vec<SummarizedDay>)
    requires
        totals_fit(rows_view(rows@)),
    ensures
        days_view(days@) == summarize(rows_view(rows@)),
{
    let ghost rv = rows_view(rows@);
    let mut days: Vec<SummarizedDay> = Vec::new();
    let mut has_day = false;
    let mut day = SummarizedDay { date: Date { year: 0, month: 1, day: 1 }, minutes: 0, tasks: Vec::new() };
    let mut task = SummarizedTask { id: 0, name: String::new(), minutes: 0, entries: Vec::new() };
    let mut i: usize = 0;
    while i < rows.len()
        invariant
            0 <= i <= rows.len(),
            rv == rows_view(rows@),
            totals_fit(rv),
            has_day == (i > 0),
            has_day ==> summarize(rv.take(i as int)) == days_view(days@).push(open_day(day, task)),
            !has_day ==> days@.len() == 0,
        decreases rows.len() - i,
    {
        let row = &rows[i];
        let ghost prefix = rv.take(i as int);
        let ghost before = summarize(prefix);
        proof {
            assert(rv.take(i + 1).drop_last() =~= prefix);
            assert(rv[i as int] == row@);
            lemma_within_prefix(rv, i + 1, usize::MAX as nat);
            lemma_within_fold(before, row@, usize::MAX as nat);
        }
        if has_day && row.entry_date == day.date {
            let ghost before = days_view(days@).push(open_day(day, task));
            assert(summarize(rv.take(i + 1)) == fold_row(before, row@));
            day.minutes = day.minutes + row.day_total_minutes;
            if task.id == row.task_id {
                task.minutes = task.minutes + row.entry_minutes;
                let entry = process_summary_task_entry(row);
                task.entries.push(entry);
                proof {
                    assert(task@.entries =~= before.last().tasks.last().entries.push(entry_of(row@)));
                }
            } else {
                day.tasks.push(task);
                task = process_summary_task(row);
            }
            assert(tasks_view(day.tasks@).push(task@) =~= add_to_day(before.last(), row@).tasks);
            assert(days_view(days@).push(open_day(day, task)) =~= fold_row(before, row@));
        } else {
            if has_day {
                let ghost od = open_day(day, task);
                day.tasks.push(task);
                assert(day@.tasks =~= od.tasks);
                days.push(day);
                assert(days_view(days@) =~= before);
            } else {
                assert(prefix.len() == 0);
                assert(before =~= seq![]);
            }
            day = process_summary_day(row);
            task = process_summary_task(row);
            has_day = true;
            assert(tasks_view(day.tasks@).push(task@) =~= seq![task_of(row@)]);
            assert(days_view(days@).push(open_day(day, task)) =~= summarize(rv.take(i + 1)));
        }
        i = i + 1;
    }
    assert(rv.take(i as int) =~= rv);
    if has_day {
        let ghost od = open_day(day, task);
        day.tasks.push(task);
        assert(day@.tasks =~= od.tasks);
        days.push(day);
        assert(days_view(days@) =~= summarize(rv));
    } else {
        assert(days_view(days@) =~= summarize(rv));
    }
    days
}


/// Tells whether every day total and task total of the report of these rows
/// fits a `usize`, following the fold without building it.
pub fn minutes_fit(rows: &Vec<LogRow>) -> (r: bool)
    ensures
        r == totals_fit(rows_view(rows@)),
{
    let ghost rv = rows_view(rows@);
    let ghost c = usize::MAX as nat;
    let mut has_day = false;
    let mut day_date = Date { year: 0, month: 1, day: 1 };
    let mut day_minutes: usize = 0;
    let mut task_id: usize = 0;
    let mut task_minutes: usize = 0;
    let mut i: usize = 0;
    while i < rows.len()
        invariant
            0 <= i <= rows.len(),
            rv == rows_view(rows@),
            c == usize::MAX as nat,
            has_day == (i > 0),
            has_day ==> {
                let s = summarize(rv.take(i as int));
                &&& s.len() > 0
                &&& s.last().date == day_date
                &&& s.last().minutes == day_minutes
                &&& s.last().tasks.len() > 0
                &&& s.last().tasks.last().id == task_id
                &&& s.last().tasks.last().minutes == task_minutes
            },
            minutes_within(summarize(rv.take(i as int)), c, c),
        decreases rows.len() - i,
    {
        let row = &rows[i];
        let ghost before = summarize(rv.take(i as int));
        let ghost after = summarize(rv.take(i + 1));
        proof {
            assert(rv.take(i + 1).drop_last() =~= rv.take(i as int));
            assert(rv[i as int] == row@);
            assert(after == fold_row(before, row@));
            lemma_within_fold(before, row@, c);
            if !has_day {
                assert(before =~= seq![]);
            }
        }
        if has_day && row.entry_date == day_date {
            match day_minutes.checked_add(row.day_total_minutes) {
                Some(v) => day_minutes = v,
                None => {
                    proof {
                        lemma_not_within_rest(rv, i + 1, c);
                    }
                    return false;
                },
            }
            if task_id == row.task_id {
                match task_minutes.checked_add(row.entry_minutes) {
                    Some(v) => task_minutes = v,
                    None => {
                        proof {
                            lemma_not_within_rest(rv, i + 1, c);
                        }
                        return false;
                    },
                }
            } else {
                task_id = row.task_id;
                task_minutes = row.entry_minutes;
            }
        } else {
            has_day = true;
            day_date = row.entry_date;
            day_minutes = row.day_total_minutes;
            task_id = row.task_id;
            task_minutes = row.entry_minutes;
        }
        i = i + 1;
    }
    assert(rv.take(i as int) =~= rv);
    true
}

/// Where the totals of a prefix of the rows leave a bound, so do those of all
/// the rows.
proof fn lemma_not_within_rest(rows: Seq<RowModel>, k: int, c: nat)
    requires
        0 <= k <= rows.len(),
        !minutes_within(summarize(rows.take(k)), c, c),
    ensures
        !minutes_within(summarize(rows), c, c),
{
    if minutes_within(summarize(rows), c, c) {
        lemma_within_prefix(rows, k, c);
    }
}

/// The report of a project from its logged rows, or `None` where a day total
/// or a task total would not fit a `usize`.
pub fn for_project(project: &Project, rows: &Vec<LogRow>) -> (r: Option<Summary>)
    ensures
        r.is_some() == totals_fit(rows_view(rows@)),
        r.is_some() ==> {
            let s = r.unwrap();
            &&& s.id == project.id
            &&& s.name@ == project.name@
            &&& days_view(s.days@) == summarize(rows_view(rows@))
        },
{
    if !minutes_fit(rows) {
        return None;
    }
    let days = process_summary(rows);
    Some(Summary { id: project.id, name: project.name.clone(), days })
}

/// The entries of a sequence of tasks, task after task.
pub open spec fn task_entries(tasks: Seq<TaskModel>) -> Seq<EntryModel>
    decreases tasks.len(),
{
    if tasks.len() == 0 {
        seq![]
    } else {
        task_entries(tasks.drop_last()) + tasks.last().entries
    }
}

/// The entries of a sequence of days, day after day.
pub open spec fn day_entries(days: Seq<DayModel>) -> Seq<EntryModel>
    decreases days.len(),
{
    if days.len() == 0 {
        seq![]
    } else {
        day_entries(days.drop_last()) + task_entries(days.last().tasks)
    }
}

proof fn lemma_day_entries_fold(days: Seq<DayModel>, r: RowModel)
    ensures
        day_entries(fold_row(days, r)) == day_entries(days).push(entry_of(r)),
{
    let out = fold_row(days, r);
    if days.len() == 0 || days.last().date != r.entry_date {
        let t = task_of(r);
        assert(seq![t].drop_last() =~= Seq::<TaskModel>::empty());
        assert(task_entries(Seq::<TaskModel>::empty()) == Seq::<EntryModel>::empty());
        assert(task_entries(seq![t]) =~= seq![entry_of(r)]);
        assert(out.drop_last() =~= days);
    } else {
        let d = days.last();
        let nd = add_to_day(d, r);
        assert(out.drop_last() =~= days.drop_last());
        if d.tasks.len() > 0 && d.tasks.last().id == r.task_id {
            assert(nd.tasks.drop_last() =~= d.tasks.drop_last());
            assert(task_entries(nd.tasks) =~= task_entries(d.tasks).push(entry_of(r)));
        } else {
            assert(nd.tasks.drop_last() =~= d.tasks);
            assert(task_entries(nd.tasks) =~= task_entries(d.tasks).push(entry_of(r)));
        }
        assert(day_entries(out) =~= day_entries(days).push(entry_of(r)));
    }
}

/// Every row becomes exactly one entry: reading the entries of the report day
/// by day and task by task gives back each row's message and minutes, in the
/// order of the rows.
pub proof fn lemma_entries_conserved(rows: Seq<RowModel>)
    ensures
        day_entries(summarize(rows)) == rows.map_values(|r: RowModel| entry_of(r)),
        day_entries(summarize(rows)).len() == rows.len(),
    decreases rows.len(),
{
    if rows.len() > 0 {
        lemma_entries_conserved(rows.drop_last());
        lemma_day_entries_fold(summarize(rows.drop_last()), rows.last());
        assert(rows.map_values(|r: RowModel| entry_of(r)) =~= rows.drop_last().map_values(
            |r: RowModel| entry_of(r),
        ).push(entry_of(rows.last())));
    }
}

/// The minutes of a sequence of entries added up.
pub open spec fn entries_minutes(entries: Seq<EntryModel>) -> nat
    decreases entries.len(),
{
    if entries.len() == 0 {
        0
    } else {
        entries_minutes(entries.drop_last()) + entries.last().minutes
    }
}

/// Each task of each day holds as many minutes as its entries together.
pub open spec fn tasks_consistent(days: Seq<DayModel>) -> bool {
    forall|d: int, t: int|
        0 <= d < days.len() && 0 <= t < days[d].tasks.len() ==> #[trigger] days[d].tasks[t].minutes
            == entries_minutes(days[d].tasks[t].entries)
}

/// The minutes of every task of the report are the sum of its entries' minutes.
pub proof fn lemma_task_minutes_consistent(rows: Seq<RowModel>)
    ensures
        tasks_consistent(summarize(rows)),
    decreases rows.len(),
{
    if rows.len() > 0 {
        let s = summarize(rows.drop_last());
        let r = rows.last();
        lemma_task_minutes_consistent(rows.drop_last());
        let out = summarize(rows);
        let t0 = task_of(r);
        assert(t0.entries.drop_last() =~= Seq::<EntryModel>::empty());
        assert(entries_minutes(Seq::<EntryModel>::empty()) == 0);
        assert(entries_minutes(t0.entries) == r.entry_minutes);
        assert forall|d: int, t: int| 0 <= d < out.len() && 0 <= t < out[d].tasks.len() implies #[trigger] out[d].tasks[t].minutes
            == entries_minutes(out[d].tasks[t].entries) by {
            if s.len() > 0 && s.last().date == r.entry_date && d == s.len() - 1 {
                let od = s.last();
                if od.tasks.len() > 0 && od.tasks.last().id == r.task_id && t == od.tasks.len() - 1 {
                    let ot = od.tasks.last();
                    assert(out[d].tasks[t].entries.drop_last() =~= ot.entries);
                    assert(s[d].tasks[t] == ot);
                }
            }
        }
    }
}

/// The number of maximal runs of rows sharing a date.
pub open spec fn date_runs(rows: Seq<RowModel>) -> nat
    decreases rows.len(),
{
    if rows.len() == 0 {
        0
    } else if rows.len() == 1 || rows[rows.len() - 2].entry_date != rows.last().entry_date {
        date_runs(rows.drop_last()) + 1
    } else {
        date_runs(rows.drop_last())
    }
}

/// Rows that share a date stand together: no row of another date comes
/// between two rows of one date.
pub open spec fn dates_contiguous(rows: Seq<RowModel>) -> bool {
    forall|i: int, j: int, k: int|
        0 <= i < j < k < rows.len() && #[trigger] rows[i].entry_date == #[trigger] rows[k].entry_date
            ==> #[trigger] rows[j].entry_date == rows[i].entry_date
}

proof fn lemma_days_follow_rows(rows: Seq<RowModel>)
    ensures
        summarize(rows).len() == date_runs(rows),
        rows.len() > 0 ==> summarize(rows).last().date == rows.last().entry_date,
        forall|d: int| 0 <= d < summarize(rows).len() ==> exists|j: int|
            0 <= j < rows.len() && rows[j].entry_date == #[trigger] summarize(rows)[d].date,
    decreases rows.len(),
{
    if rows.len() > 0 {
        let prev = rows.drop_last();
        lemma_days_follow_rows(prev);
        let s = summarize(prev);
        let out = summarize(rows);
        assert forall|d: int| 0 <= d < out.len() implies exists|j: int|
            0 <= j < rows.len() && rows[j].entry_date == #[trigger] out[d].date by {
            if d < s.len() {
                let j = choose|j: int| 0 <= j < prev.len() && prev[j].entry_date == s[d].date;
                assert(rows[j] == prev[j]);
                assert(out[d].date == s[d].date);
            } else {
                assert(rows[rows.len() - 1].entry_date == out[d].date);
            }
        }
    }
}

/// The report has one day for each maximal run of rows sharing a date; when
/// the rows of each date stand together, no two days have the same date, so
/// the number of distinct dates in the report is the number of such runs.
pub proof fn lemma_day_grouping(rows: Seq<RowModel>)
    ensures
        summarize(rows).len() == date_runs(rows),
        dates_contiguous(rows) ==> forall|a: int, b: int|
            0 <= a < b < summarize(rows).len() ==> #[trigger] summarize(rows)[a].date != #[trigger] summarize(rows)[b].date,
    decreases rows.len(),
{
    lemma_days_follow_rows(rows);
    if rows.len() > 0 && dates_contiguous(rows) {
        let prev = rows.drop_last();
        let n = rows.len() - 1;
        assert(dates_contiguous(prev)) by {
            assert forall|i: int, j: int, k: int|
                0 <= i < j < k < prev.len() && #[trigger] prev[i].entry_date == #[trigger] prev[k].entry_date
                    implies #[trigger] prev[j].entry_date == prev[i].entry_date by {
                assert(rows[i].entry_date == rows[k].entry_date);
                assert(rows[j].entry_date == rows[i].entry_date);
            }
        }
        lemma_day_grouping(prev);
        lemma_days_follow_rows(prev);
        let s = summarize(prev);
        let out = summarize(rows);
        assert forall|a: int, b: int| 0 <= a < b < out.len() implies #[trigger] out[a].date != #[trigger] out[b].date by {
            if b < s.len() {
                assert(out[a].date == s[a].date);
                assert(out[b].date == s[b].date);
            } else if b == s.len() - 1 {
                assert(out[a].date == s[a].date);
                assert(out[b].date == s[b].date);
            } else {
                // a new day was opened for the last row
                assert(out[a] == s[a]);
                assert(s.len() > 0);
                let j = choose|j: int| 0 <= j < prev.len() && prev[j].entry_date == s[a].date;
                assert(prev.last().entry_date == s.last().date);
                assert(s.last().date != rows[n].entry_date);
                if out[a].date == out[b].date {
                    assert(rows[j].entry_date == rows[n].entry_date);
                    if j < n - 1 {
                        assert(rows[n - 1].entry_date == rows[j].entry_date);
                    }
                }
            }
        }
    }
}


/// Within each day, two neighbouring tasks never share an id: the rows of
/// one task that follow each other on a date always land in one task.
pub open spec fn neighbour_tasks_differ(days: Seq<DayModel>) -> bool {
    forall|d: int, t: int|
        0 <= d < days.len() && 0 < t < days[d].tasks.len() ==> #[trigger] days[d].tasks[t].id != days[d].tasks[t
            - 1].id
}

/// No day of the report holds the same task twice in a row.
pub proof fn lemma_neighbour_tasks_differ(rows: Seq<RowModel>)
    ensures
        neighbour_tasks_differ(summarize(rows)),
    decreases rows.len(),
{
    if rows.len() > 0 {
        let s = summarize(rows.drop_last());
        let r = rows.last();
        lemma_neighbour_tasks_differ(rows.drop_last());
        let out = summarize(rows);
        assert forall|d: int, t: int| 0 <= d < out.len() && 0 < t < out[d].tasks.len() implies #[trigger] out[d].tasks[t].id
            != out[d].tasks[t - 1].id by {
            if s.len() > 0 && s.last().date == r.entry_date && d == s.len() - 1 {
                let od = s.last();
                if od.tasks.len() > 0 && od.tasks.last().id == r.task_id {
                    assert(out[d].tasks[t].id == od.tasks[t].id);
                    assert(out[d].tasks[t - 1].id == od.tasks[t - 1].id);
                } else if t < od.tasks.len() {
                    assert(out[d].tasks[t] == od.tasks[t]);
                    assert(out[d].tasks[t - 1] == od.tasks[t - 1]);
                }
            } else if d < s.len() {
                assert(out[d] == s[d]);
            }
        }
    }
}


/// The rows of one task on one date stand together: no other row comes
/// between two rows that share both the date and the task.
pub open spec fn task_rows_contiguous(rows: Seq<RowModel>) -> bool {
    forall|i: int, j: int, k: int|
        0 <= i < j < k < rows.len() && #[trigger] rows[i].entry_date == #[trigger] rows[k].entry_date
            && rows[i].task_id == rows[k].task_id ==> #[trigger] rows[j].entry_date == rows[i].entry_date
            && rows[j].task_id == rows[i].task_id
}

/// A row of `rows` carries the given date and task id.
pub open spec fn has_row(rows: Seq<RowModel>, date: Date, task_id: nat) -> bool {
    exists|j: int| 0 <= j < rows.len() && rows[j].entry_date == date && rows[j].task_id == task_id
}

proof fn lemma_tasks_follow_rows(rows: Seq<RowModel>)
    ensures
        rows.len() > 0 ==> {
            &&& summarize(rows).last().tasks.len() > 0
            &&& summarize(rows).last().tasks.last().id == rows.last().task_id
        },
        forall|d: int, t: int|
            0 <= d < summarize(rows).len() && 0 <= t < summarize(rows)[d].tasks.len() ==> #[trigger] has_row(
                rows,
                summarize(rows)[d].date,
                summarize(rows)[d].tasks[t].id,
            ),
    decreases rows.len(),
{
    if rows.len() > 0 {
        let prev = rows.drop_last();
        lemma_tasks_follow_rows(prev);
        let s = summarize(prev);
        let r = rows.last();
        let n = rows.len() - 1;
        let out = summarize(rows);
        assert forall|d: int, t: int| 0 <= d < out.len() && 0 <= t < out[d].tasks.len() implies #[trigger] has_row(
            rows,
            out[d].date,
            out[d].tasks[t].id,
        ) by {
            if d < s.len() && t < s[d].tasks.len() && out[d].date == s[d].date && out[d].tasks[t].id == s[d].tasks[t].id {
                assert(has_row(prev, s[d].date, s[d].tasks[t].id));
                let j = choose|j: int|
                    0 <= j < prev.len() && prev[j].entry_date == s[d].date && prev[j].task_id == s[d].tasks[t].id;
                assert(rows[j] == prev[j]);
            } else {
                assert(rows[n].entry_date == out[d].date && rows[n].task_id == out[d].tasks[t].id);
            }
        }
    }
}

/// When the rows of each task on a date stand together, no day of the report
/// holds the same task twice: each task of a day forms a single block.
pub proof fn lemma_day_tasks_distinct(rows: Seq<RowModel>)
    requires
        task_rows_contiguous(rows),
    ensures
        forall|d: int, a: int, b: int|
            0 <= d < summarize(rows).len() && 0 <= a < b < summarize(rows)[d].tasks.len() ==> #[trigger] summarize(
                rows,
            )[d].tasks[a].id != #[trigger] summarize(rows)[d].tasks[b].id,
    decreases rows.len(),
{
    if rows.len() > 0 {
        let prev = rows.drop_last();
        assert(task_rows_contiguous(prev)) by {
            assert forall|i: int, j: int, k: int|
                0 <= i < j < k < prev.len() && #[trigger] prev[i].entry_date == #[trigger] prev[k].entry_date
                    && prev[i].task_id == prev[k].task_id implies #[trigger] prev[j].entry_date == prev[i].entry_date
                    && prev[j].task_id == prev[i].task_id by {
                assert(rows[i] == prev[i] && rows[j] == prev[j] && rows[k] == prev[k]);
            }
        }
        lemma_day_tasks_distinct(prev);
        lemma_tasks_follow_rows(prev);
        let s = summarize(prev);
        let r = rows.last();
        let n = rows.len() - 1;
        let out = summarize(rows);
        assert forall|d: int, a: int, b: int| 0 <= d < out.len() && 0 <= a < b < out[d].tasks.len() implies #[trigger] out[d].tasks[a].id
            != #[trigger] out[d].tasks[b].id by {
            if s.len() > 0 && s.last().date == r.entry_date && d == s.len() - 1 {
                let od = s.last();
                if od.tasks.len() > 0 && od.tasks.last().id == r.task_id {
                    assert(out[d].tasks[a].id == od.tasks[a].id);
                    assert(out[d].tasks[b].id == od.tasks[b].id);
                } else if b < od.tasks.len() {
                    assert(out[d].tasks[a] == od.tasks[a]);
                    assert(out[d].tasks[b] == od.tasks[b]);
                } else {
                    // the last row opened a new task after the day's earlier ones
                    assert(out[d].tasks[a] == od.tasks[a]);
                    assert(out[d].tasks[b] == task_of(r));
                    if od.tasks[a].id == r.task_id {
                        assert(has_row(prev, s[d].date, od.tasks[a].id));
                        let j = choose|j: int|
                            0 <= j < prev.len() && prev[j].entry_date == s[d].date && prev[j].task_id == od.tasks[a].id;
                        assert(rows[j] == prev[j]);
                        assert(prev.last() == rows[n - 1]);
                        if j < n - 1 {
                            assert(rows[j].entry_date == rows[n].entry_date);
                            assert(rows[n - 1].task_id == rows[j].task_id);
                        }
                        assert(od.tasks.last().id == rows[n - 1].task_id);
                    }
                }
            } else if d < s.len() {
                assert(out[d] == s[d]);
            } else {
                assert(out[d].tasks.len() == 1);
            }
        }
    }
}

} // verus!
