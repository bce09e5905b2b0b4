use vstd::prelude::*;

use crate::date::{sql_to_date, sql_to_datetime, stored_date, stored_date_time, Date, DateTime};
use crate::summary::LogRow;

verus! {

/// One column value of a stored row.
pub enum Cell {
    Integer(i64),
    Text(String),
    Null,
    Other,
}

/// A unit of work bound to a git remote.
pub struct Project {
    pub id: usize,
    pub name: String,
    pub inserted_at: DateTime,
    pub updated_at: DateTime,
}

/// A unit of work within a project, bound to a branch.
pub struct Task {
    pub id: usize,
    pub name: String,
    pub inserted_at: DateTime,
    pub updated_at: DateTime,
}

/// The integer held by a cell, if it holds one.
pub open spec fn cell_int(c: Cell) -> Option<int> {
    match c {
        Cell::Integer(i) => Some(i as int),
        _ => None,
    }
}

/// The text held by a cell, if it holds text.
pub open spec fn cell_text(c: Cell) -> Option<Seq<char>> {
    match c {
        Cell::Text(s) => Some(s@),
        _ => None,
    }
}

/// A cell's text, or empty text where it holds none.
pub open spec fn cell_text_or_empty(c: Cell) -> Seq<char> {
    match c {
        Cell::Text(s) => s@,
        _ => Seq::empty(),
    }
}

/// A cell that holds an integer that fits a `usize`.
pub open spec fn cell_count(c: Cell) -> bool {
    match c {
        Cell::Integer(i) => 0 <= i <= usize::MAX,
        _ => false,
    }
}

/// A cell whose text reads as a timestamp.
pub open spec fn cell_timestamp(c: Cell) -> bool {
    stored_date_time(cell_text_or_empty(c)).is_some()
}

/// The columns `id, name, inserted_at, updated_at` of a project or a task.
pub open spec fn record_readable(cols: Seq<Cell>) -> bool {
    &&& cols.len() >= 4
    &&& cell_count(cols[0])
    &&& cell_text(cols[1]).is_some()
    &&& cell_timestamp(cols[2])
    &&& cell_timestamp(cols[3])
}

/// The columns `task id, task name, entry name, entry minutes, entry
/// timestamp, day total` of a logged row.
pub open spec fn log_row_readable(cols: Seq<Cell>) -> bool {
    &&& cols.len() >= 6
    &&& cell_count(cols[0])
    &&& cell_text(cols[1]).is_some()
    &&& cell_text(cols[2]).is_some()
    &&& cell_count(cols[3])
    &&& stored_date(cell_text_or_empty(cols[4])).is_some()
    &&& cell_count(cols[5])
}

fn cell_as_integer(c: &Cell) -> (r: Option<i64>)
    ensures
        r.is_some() == cell_int(*c).is_some(),
        r.is_some() ==> r.unwrap() as int == cell_int(*c).unwrap(),
{
    match c {
        Cell::Integer(i) => Some(*i),
        _ => None,
    }
}

fn cell_as_str(c: &Cell) -> (r: Option<&str>)
    ensures
        r.is_some() == cell_text(*c).is_some(),
        r.is_some() ==> r.unwrap()@ == cell_text(*c).unwrap(),
        crate::date::text_or_empty(r) == cell_text_or_empty(*c),
{
    match c {
        Cell::Text(s) => Some(s.as_str()),
        _ => None,
    }
}

fn cell_as_count(c: &Cell) -> (r: Option<usize>)
    ensures
        r.is_some() == cell_count(*c),
        r.is_some() ==> r.unwrap() as int == cell_int(*c).unwrap(),
{
    match cell_as_integer(c) {
        Some(i) => {
            if i >= 0 && i as u64 <= usize::MAX as u64 {
                Some(i as usize)
            } else {
                None
            }
        },
        None => None,
    }
}

fn cell_as_timestamp(c: &Cell) -> (r: Option<DateTime>)
    ensures
        r.is_some() == cell_timestamp(*c),
        r.is_some() ==> Some(r.unwrap().fields()) == stored_date_time(cell_text_or_empty(*c)),
{
    match sql_to_datetime(cell_as_str(c)) {
        Ok(t) => Some(t),
        Err(_) => None,
    }
}

/// The fields of a project or a task read from its columns.
pub open spec fn record_matches(cols: Seq<Cell>, id: usize, name: Seq<char>, inserted_at: DateTime, updated_at: DateTime) -> bool {
    &&& id as int == cell_int(cols[0]).unwrap()
    &&& name == cell_text(cols[1]).unwrap()
    &&& Some(inserted_at.fields()) == stored_date_time(cell_text_or_empty(cols[2]))
    &&& Some(updated_at.fields()) == stored_date_time(cell_text_or_empty(cols[3]))
}

/// Reads a project from its columns, or `None` where they do not read.
pub fn row_to_project(columns: &Vec<Cell>) -> (r: Option<Project>)
    ensures
        r.is_some() == record_readable(columns@),
        r.is_some() ==> record_matches(columns@, r.unwrap().id, r.unwrap().name@, r.unwrap().inserted_at, r.unwrap().updated_at),
{
    if columns.len() < 4 {
        return None;
    }
    let id = match cell_as_count(&columns[0]) {
        Some(id) => id,
        None => return None,
    };
    let name = match cell_as_str(&columns[1]) {
        Some(s) => s.to_owned(),
        None => return None,
    };
    let inserted_at = match cell_as_timestamp(&columns[2]) {
        Some(t) => t,
        None => return None,
    };
    let updated_at = match cell_as_timestamp(&columns[3]) {
        Some(t) => t,
        None => return None,
    };
    Some(Project { id, name, inserted_at, updated_at })
}

/// Reads a task from its columns, or `None` where they do not read.
pub fn row_to_task(columns: &Vec<Cell>) -> (r: Option<Task>)
    ensures
        r.is_some() == record_readable(columns@),
        r.is_some() ==> record_matches(columns@, r.unwrap().id, r.unwrap().name@, r.unwrap().inserted_at, r.unwrap().updated_at),
{
    match row_to_project(columns) {
        Some(p) => Some(Task { id: p.id, name: p.name, inserted_at: p.inserted_at, updated_at: p.updated_at }),
        None => None,
    }
}

/// Reads a logged row from its columns, or `None` where they do not read.
/// The entry's date is the date of its timestamp.
pub fn row_to_log_row(columns: &Vec<Cell>) -> (r: Option<LogRow>)
    ensures
        r.is_some() == log_row_readable(columns@),
        r.is_some() ==> {
            let row = r.unwrap();
            &&& row.task_id as int == cell_int(columns@[0]).unwrap()
            &&& row.task_name@ == cell_text(columns@[1]).unwrap()
            &&& row.entry_name@ == cell_text(columns@[2]).unwrap()
            &&& row.entry_minutes as int == cell_int(columns@[3]).unwrap()
            &&& Some(row.entry_date.fields()) == stored_date(cell_text_or_empty(columns@[4]))
            &&& row.day_total_minutes as int == cell_int(columns@[5]).unwrap()
        },
{
    if columns.len() < 6 {
        return None;
    }
    let task_id = match cell_as_count(&columns[0]) {
        Some(v) => v,
        None => return None,
    };
    let task_name = match cell_as_str(&columns[1]) {
        Some(s) => s.to_owned(),
        None => return None,
    };
    let entry_name = match cell_as_str(&columns[2]) {
        Some(s) => s.to_owned(),
        None => return None,
    };
    let entry_minutes = match cell_as_count(&columns[3]) {
        Some(v) => v,
        None => return None,
    };
    let entry_date: Date = match sql_to_date(cell_as_str(&columns[4])) {
        Ok(d) => d,
        Err(_) => return None,
    };
    let day_total_minutes = match cell_as_count(&columns[5]) {
        Some(v) => v,
        None => return None,
    };
    Some(LogRow { task_id, task_name, entry_name, entry_minutes, entry_date, day_total_minutes })
}

} // verus!
