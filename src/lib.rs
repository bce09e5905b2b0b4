//! Time tracking bound to git repositories: projects, tasks and time logs,
//! and the day / task / entry report built from the logged rows.

pub mod context;
pub mod date;
pub mod menu;
pub mod migrations;
pub mod records;
pub mod report;
pub mod summary;
