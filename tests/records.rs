use timecop::context::{get_branch, get_last_commit_message, get_remote_branch};
use timecop::date::{day_heading, iso_date, sql_to_date, sql_to_datetime, Date, DateParseError};
use timecop::menu::{project_menu_choice, project_menu_options, task_menu_choice, task_menu_options, ProjectChoice, TaskChoice};
use timecop::migrations::{maybe_open_db, migration_query, run_migrations, MIGRATION_COUNT, SCHEMA};
use timecop::records::{row_to_log_row, row_to_project, row_to_task, Cell};

#[test]
fn sql_to_date_reads_timestamp() {
    assert_eq!(sql_to_date(Some("2021-03-05 10:20:30")), Ok(Date { year: 2021, month: 3, day: 5 }));
    assert_eq!(sql_to_date(Some("2021-02-30 10:20:30")), Err(DateParseError));
    assert_eq!(sql_to_date(None), Err(DateParseError));
}

#[test]
fn sql_to_datetime_reads_timestamp() {
    let t = sql_to_datetime(Some("2021-03-05 10:20:30")).unwrap();
    assert_eq!(t.date, Date { year: 2021, month: 3, day: 5 });
    assert_eq!((t.hour, t.minute, t.second), (10, 20, 30));
    assert!(sql_to_datetime(Some("yesterday")).is_err());
}

#[test]
fn dates_render() {
    let d = Date { year: 2021, month: 3, day: 5 };
    assert_eq!(iso_date(d).unwrap(), "2021-03-05");
    assert_eq!(day_heading(d).unwrap(), ("Friday".to_string(), "(5 March, 2021)".to_string()));
    assert!(day_heading(Date { year: 2021, month: 13, day: 1 }).is_none());
    assert!(iso_date(Date { year: 2021, month: 2, day: 29 }).is_none());
    assert_eq!(iso_date(Date { year: 2020, month: 2, day: 29 }).unwrap(), "2020-02-29");
    assert!(iso_date(Date { year: 1900, month: 2, day: 29 }).is_none());
    assert_eq!(iso_date(Date { year: 2000, month: 2, day: 29 }).unwrap(), "2000-02-29");
    assert_eq!(iso_date(Date { year: 33, month: 1, day: 9 }).unwrap(), "0033-01-09");
    assert_eq!(iso_date(Date { year: -5, month: 12, day: 31 }).unwrap(), "-0005-12-31");
    assert_eq!(iso_date(Date { year: 12345, month: 6, day: 30 }).unwrap(), "+12345-06-30");
    assert!(iso_date(Date { year: 262143, month: 1, day: 1 }).is_none());
    assert!(iso_date(Date { year: 262142, month: 1, day: 1 }).is_some());
    assert!(iso_date(Date { year: -262143, month: 1, day: 1 }).is_some());
    assert!(iso_date(Date { year: -262144, month: 1, day: 1 }).is_none());
    assert!(iso_date(Date { year: 2021, month: 4, day: 31 }).is_none());
}

#[test]
fn remote_branch_key() {
    assert_eq!(get_remote_branch("git@host:me/repo.git", "main"), "git@host:me/repo.git#main");
}

#[test]
fn branch_of_remote_and_branch() {
    assert_eq!(get_branch(Some(("r".to_string(), "dev".to_string()))), Some("dev".to_string()));
    assert_eq!(get_branch(None), None);
}

#[test]
fn commit_message_is_trimmed() {
    assert_eq!(get_last_commit_message(Some("  Fix parser\n\n")), Some("Fix parser".to_string()));
    assert_eq!(get_last_commit_message(None), None);
}

fn text(s: &str) -> Cell {
    Cell::Text(s.to_string())
}

#[test]
fn project_and_task_rows() {
    let cols = vec![Cell::Integer(3), text("proj"), text("2021-03-05 10:20:30"), text("2021-03-06 11:00:00")];
    let p = row_to_project(&cols).unwrap();
    assert_eq!(p.id, 3);
    assert_eq!(p.name, "proj");
    assert_eq!(p.updated_at.date, Date { year: 2021, month: 3, day: 6 });
    assert_eq!(p.updated_at.hour, 11);
    let t = row_to_task(&cols).unwrap();
    assert_eq!(t.id, 3);
    let bad = vec![Cell::Integer(-3), text("proj"), text("2021-03-05 10:20:30"), text("2021-03-06 11:00:00")];
    assert!(row_to_project(&bad).is_none());
    let short = vec![Cell::Integer(3), text("proj")];
    assert!(row_to_task(&short).is_none());
    let null_time = vec![Cell::Integer(3), text("proj"), Cell::Null, text("2021-03-06 11:00:00")];
    assert!(row_to_project(&null_time).is_none());
}

#[test]
fn log_rows() {
    let cols = vec![Cell::Integer(2), text("task"), text("entry"), Cell::Integer(25), text("2021-03-05 23:59:59"), Cell::Integer(40)];
    let r = row_to_log_row(&cols).unwrap();
    assert_eq!(r.task_id, 2);
    assert_eq!(r.task_name, "task");
    assert_eq!(r.entry_name, "entry");
    assert_eq!(r.entry_minutes, 25);
    assert_eq!(r.entry_date, Date { year: 2021, month: 3, day: 5 });
    assert_eq!(r.day_total_minutes, 40);
    let other = vec![Cell::Integer(2), text("task"), text("entry"), Cell::Other, text("2021-03-05 23:59:59"), Cell::Integer(40)];
    assert!(row_to_log_row(&other).is_none());
}

#[test]
fn migrations_to_run() {
    assert_eq!(MIGRATION_COUNT, 1);
    assert_eq!(run_migrations(None), vec![0]);
    assert_eq!(run_migrations(Some(-1)), vec![0]);
    assert_eq!(run_migrations(Some(0)), Vec::<usize>::new());
    assert_eq!(run_migrations(Some(5)), Vec::<usize>::new());
    assert_eq!(run_migrations(Some(-7)), vec![0]);
    assert!(migration_query(0).unwrap().contains("CREATE TABLE IF NOT EXISTS task_logs"));
    assert_eq!(migration_query(0), Some(SCHEMA));
    assert!(migration_query(1).is_none());
    assert!(maybe_open_db(false));
    assert!(!maybe_open_db(true));
}

#[test]
fn task_menu() {
    assert_eq!(task_menu_options(false, "dev"), vec!["Create your first task", "Nothing, thanks timecop!", "Ignore this branch (dev)"]);
    assert_eq!(task_menu_options(true, "dev").len(), 4);
    assert_eq!(task_menu_choice(true, Some(0)), TaskChoice::Create);
    assert_eq!(task_menu_choice(true, Some(1)), TaskChoice::Select);
    assert_eq!(task_menu_choice(true, Some(2)), TaskChoice::Exit);
    assert_eq!(task_menu_choice(true, Some(3)), TaskChoice::Ignore);
    assert_eq!(task_menu_choice(false, Some(1)), TaskChoice::Exit);
    assert_eq!(task_menu_choice(false, Some(2)), TaskChoice::Ignore);
    assert_eq!(task_menu_choice(false, None), TaskChoice::Exit);
}

#[test]
fn project_menu() {
    assert_eq!(project_menu_options(false), vec!["Create your first project", "Nothing, thanks timecop!"]);
    assert_eq!(project_menu_options(true), vec!["Create a new project", "Select an existing project", "Nothing, thanks timecop!"]);
    assert_eq!(project_menu_choice(true, Some(1)), ProjectChoice::Select);
    assert_eq!(project_menu_choice(false, Some(1)), ProjectChoice::Exit);
    assert_eq!(project_menu_choice(false, Some(0)), ProjectChoice::Create);
    assert_eq!(project_menu_choice(true, None), ProjectChoice::Exit);
}
