use timecop::date::Date;
use timecop::report::{csv_headers, csv_records, decimal_string, format_time, summary_lines, SummaryLine};
use timecop::summary::{process_summary, LogRow, Summary};

#[test]
fn format_time_pads_hours_and_minutes() {
    assert_eq!(format_time(125), "02h05m");
    assert_eq!(format_time(0), "00h00m");
    assert_eq!(format_time(600), "10h00m");
    assert_eq!(format_time(59), "00h59m");
    assert_eq!(format_time(6001), "100h01m");
}

#[test]
fn decimal_string_writes_digits() {
    assert_eq!(decimal_string(0), "0");
    assert_eq!(decimal_string(1234), "1234");
    assert_eq!(decimal_string(usize::MAX), usize::MAX.to_string());
}

fn sample() -> Summary {
    let d1 = Date { year: 2021, month: 3, day: 5 };
    let rows = vec![
        LogRow { task_id: 1, task_name: "T".to_string(), entry_name: "A".to_string(), entry_minutes: 30, entry_date: d1, day_total_minutes: 30 },
        LogRow { task_id: 1, task_name: "T".to_string(), entry_name: "B".to_string(), entry_minutes: 15, entry_date: d1, day_total_minutes: 45 },
    ];
    Summary { id: 1, name: "proj".to_string(), days: process_summary(&rows) }
}

#[test]
fn csv_header_columns() {
    assert_eq!(csv_headers(false), vec!["Project", "Date", "Time Spent (Minutes)", "Task"]);
    assert_eq!(csv_headers(true), vec!["Project", "Date", "Time Spent (Minutes)", "Task", "Log Entry"]);
}

#[test]
fn csv_compact_has_one_record_per_task() {
    let r = csv_records(&sample(), false).unwrap();
    assert_eq!(r, vec![vec!["proj", "2021-03-05", "45", "T"]]);
}

#[test]
fn csv_detailed_has_one_record_per_entry() {
    let r = csv_records(&sample(), true).unwrap();
    assert_eq!(r, vec![vec!["proj", "2021-03-05", "30", "T", "A"], vec!["proj", "2021-03-05", "15", "T", "B"]]);
}

#[test]
fn csv_refuses_day_outside_calendar() {
    let mut s = sample();
    s.days[0].date = Date { year: 2021, month: 2, day: 30 };
    assert!(csv_records(&s, false).is_none());
}

#[test]
fn text_report_lines() {
    let compact = summary_lines(&sample(), false);
    assert_eq!(compact.len(), 2);
    assert!(matches!(compact[0], SummaryLine::Day(Date { year: 2021, month: 3, day: 5 })));
    match &compact[1] {
        SummaryLine::Task { time, name } => {
            assert_eq!(time, "00h45m");
            assert_eq!(name, "T");
        }
        _ => panic!("expected a task line"),
    }
    let detailed = summary_lines(&sample(), true);
    assert_eq!(detailed.len(), 4);
    assert!(matches!(&detailed[1], SummaryLine::TaskTitle(n) if n == "T"));
    assert!(matches!(&detailed[2], SummaryLine::Entry { time, name } if time == "00h30m" && name == "A"));
    assert!(matches!(&detailed[3], SummaryLine::Entry { time, name } if time == "00h15m" && name == "B"));
}
