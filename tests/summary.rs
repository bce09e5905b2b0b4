use timecop::date::{DateTime, Date};
use timecop::records::Project;
use timecop::summary::{for_project, minutes_fit, process_summary, LogRow, SummarizedDay};

fn d(year: i32, month: u32, day: u32) -> Date {
    Date { year, month, day }
}

fn row(task_id: usize, task: &str, entry: &str, minutes: usize, date: Date, day_total: usize) -> LogRow {
    LogRow {
        task_id,
        task_name: task.to_string(),
        entry_name: entry.to_string(),
        entry_minutes: minutes,
        entry_date: date,
        day_total_minutes: day_total,
    }
}

fn entries_of(days: &Vec<SummarizedDay>) -> Vec<(String, usize)> {
    let mut out = Vec::new();
    for day in days {
        for task in &day.tasks {
            for e in &task.entries {
                out.push((e.name.clone(), e.minutes));
            }
        }
    }
    out
}

#[test]
fn empty_input_gives_no_days() {
    let days = process_summary(&Vec::new());
    assert!(days.is_empty());
}

#[test]
fn one_task_two_entries_same_day() {
    let d1 = d(2021, 3, 5);
    let rows = vec![row(1, "T", "A", 30, d1, 30), row(1, "T", "B", 15, d1, 45)];
    let days = process_summary(&rows);
    assert_eq!(days.len(), 1);
    assert_eq!(days[0].date, d1);
    assert_eq!(days[0].minutes, 75);
    assert_eq!(days[0].tasks.len(), 1);
    let t = &days[0].tasks[0];
    assert_eq!(t.id, 1);
    assert_eq!(t.name, "T");
    assert_eq!(t.minutes, 45);
    assert_eq!(t.entries.len(), 2);
    assert_eq!((t.entries[0].name.as_str(), t.entries[0].minutes), ("A", 30));
    assert_eq!((t.entries[1].name.as_str(), t.entries[1].minutes), ("B", 15));
}

#[test]
fn two_tasks_same_day() {
    let d1 = d(2021, 3, 5);
    let rows = vec![row(1, "T1", "A", 20, d1, 20), row(2, "T2", "B", 10, d1, 10)];
    let days = process_summary(&rows);
    assert_eq!(days.len(), 1);
    assert_eq!(days[0].minutes, 30);
    assert_eq!(days[0].tasks.len(), 2);
    assert_eq!(days[0].tasks[0].id, 1);
    assert_eq!(days[0].tasks[0].entries.len(), 1);
    assert_eq!(days[0].tasks[0].minutes, 20);
    assert_eq!(days[0].tasks[1].id, 2);
    assert_eq!(days[0].tasks[1].entries.len(), 1);
    assert_eq!(days[0].tasks[1].minutes, 10);
}

#[test]
fn two_dates_give_two_days_in_input_order() {
    let d1 = d(2021, 3, 6);
    let d2 = d(2021, 3, 5);
    let rows = vec![row(1, "T", "A", 20, d1, 20), row(1, "T", "B", 40, d2, 40)];
    let days = process_summary(&rows);
    assert_eq!(days.len(), 2);
    assert_eq!(days[0].date, d1);
    assert_eq!(days[0].minutes, 20);
    assert_eq!(days[0].tasks[0].minutes, 20);
    assert_eq!(days[1].date, d2);
    assert_eq!(days[1].minutes, 40);
    assert_eq!(days[1].tasks[0].minutes, 40);
}

#[test]
fn every_row_becomes_one_entry_in_order() {
    let d1 = d(2021, 3, 6);
    let d2 = d(2021, 3, 5);
    let rows = vec![
        row(2, "T2", "a", 5, d1, 12),
        row(2, "T2", "b", 7, d1, 12),
        row(1, "T1", "c", 0, d1, 0),
        row(1, "T1", "d", 9, d2, 9),
        row(3, "T3", "e", 11, d2, 11),
    ];
    let days = process_summary(&rows);
    let got = entries_of(&days);
    let want: Vec<(String, usize)> = rows.iter().map(|r| (r.entry_name.clone(), r.entry_minutes)).collect();
    assert_eq!(got, want);
}

#[test]
fn task_minutes_are_sum_of_entries() {
    let d1 = d(2021, 3, 6);
    let rows = vec![
        row(2, "T2", "a", 5, d1, 12),
        row(2, "T2", "b", 7, d1, 12),
        row(1, "T1", "c", 3, d1, 3),
    ];
    let days = process_summary(&rows);
    for day in &days {
        for t in &day.tasks {
            let sum: usize = t.entries.iter().map(|e| e.minutes).sum();
            assert_eq!(t.minutes, sum);
        }
    }
    assert_eq!(days[0].tasks[0].minutes, 12);
    assert_eq!(days[0].minutes, 27);
}

#[test]
fn days_match_runs_of_dates() {
    let rows = vec![
        row(1, "T", "a", 1, d(2021, 3, 7), 1),
        row(1, "T", "b", 1, d(2021, 3, 6), 2),
        row(1, "T", "c", 1, d(2021, 3, 6), 2),
        row(2, "U", "d", 1, d(2021, 3, 5), 1),
    ];
    let days = process_summary(&rows);
    assert_eq!(days.len(), 3);
    assert_eq!(days[1].date, d(2021, 3, 6));
    assert_eq!(days[1].minutes, 4);
}

#[test]
fn interleaved_task_rows_give_separate_task_blocks() {
    let d1 = d(2021, 3, 6);
    let rows = vec![row(1, "T1", "a", 1, d1, 2), row(2, "T2", "b", 1, d1, 1), row(1, "T1", "c", 1, d1, 2)];
    let days = process_summary(&rows);
    assert_eq!(days.len(), 1);
    assert_eq!(days[0].tasks.len(), 3);
    assert_eq!(days[0].tasks[0].id, 1);
    assert_eq!(days[0].tasks[2].id, 1);
}

fn project() -> Project {
    let t = DateTime { date: d(2021, 1, 1), hour: 0, minute: 0, second: 0 };
    Project { id: 7, name: "timecop".to_string(), inserted_at: t, updated_at: t }
}

#[test]
fn for_project_carries_project_fields() {
    let rows = vec![row(1, "T", "A", 30, d(2021, 3, 5), 30)];
    let s = for_project(&project(), &rows).unwrap();
    assert_eq!(s.id, 7);
    assert_eq!(s.name, "timecop");
    assert_eq!(s.days.len(), 1);
}

#[test]
fn for_project_refuses_overflowing_totals() {
    let rows = vec![row(1, "T", "A", 1, d(2021, 3, 5), usize::MAX), row(1, "T", "B", 1, d(2021, 3, 5), 1)];
    assert!(!minutes_fit(&rows));
    assert!(for_project(&project(), &rows).is_none());
    let fine = vec![row(1, "T", "A", 1, d(2021, 3, 5), usize::MAX)];
    assert!(minutes_fit(&fine));
}

#[test]
fn for_project_accepts_large_totals_on_separate_days() {
    let half = usize::MAX / 2 + 1;
    let rows = vec![row(1, "T", "A", 1, d(2021, 3, 6), half), row(1, "T", "B", 1, d(2021, 3, 5), half)];
    assert!(minutes_fit(&rows));
    let s = for_project(&project(), &rows).unwrap();
    assert_eq!(s.days.len(), 2);
    assert_eq!(s.days[0].minutes, half);
    assert_eq!(s.days[1].minutes, half);
}

#[test]
fn minutes_fit_refuses_task_total_overflow() {
    let d1 = d(2021, 3, 5);
    let rows = vec![row(1, "T", "A", usize::MAX, d1, 0), row(1, "T", "B", 1, d1, 0)];
    assert!(!minutes_fit(&rows));
    let split = vec![row(1, "T", "A", usize::MAX, d1, 0), row(2, "U", "B", 1, d1, 0)];
    assert!(minutes_fit(&split));
}

