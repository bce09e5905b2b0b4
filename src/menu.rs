use vstd::prelude::*;
use vstd::string::StringExecFns;

verus! {

/// What the user picked in the menu shown when a branch has no task yet.
#[derive(Clone, Copy, Debug, PartialEq, Eq, Structural)]
pub enum TaskChoice {
    Create,
    Select,
    Exit,
    Ignore,
}

/// What the user picked in the menu shown when a repository has no project yet.
#[derive(Clone, Copy, Debug, PartialEq, Eq, Structural)]
pub enum ProjectChoice {
    Create,
    Select,
    Exit,
}

pub open spec fn texts_view(v: Seq<String>) -> Seq<Seq<char>> {
    v.map_values(|s: String| s@)
}

/// The entries of the task menu: creating a task (the first one, where there
/// is none yet), selecting one where some exist, leaving, and ignoring the
/// branch.
pub open spec fn task_menu_text(has_tasks: bool, branch: Seq<char>) -> Seq<Seq<char>> {
    let first = if has_tasks {
        seq!["Create a new task"@, "Select an existing task"@]
    } else {
        seq!["Create your first task"@]
    };
    first + seq!["Nothing, thanks timecop!"@, "Ignore this branch ("@ + branch + ")"@]
}

/// The entries of the project menu: creating a project (the first one, where
/// there is none yet), selecting one where some exist, and leaving.
pub open spec fn project_menu_text(has_projects: bool) -> Seq<Seq<char>> {
    let first = if has_projects {
        seq!["Create a new project"@, "Select an existing project"@]
    } else {
        seq!["Create your first project"@]
    };
    first + seq!["Nothing, thanks timecop!"@]
}

/// The action for the entry picked in the task menu; `None` where the menu
/// was dismissed.
pub open spec fn task_choice_of(has_tasks: bool, selection: Option<usize>) -> TaskChoice {
    match selection {
        None => TaskChoice::Exit,
        Some(n) => if n == 0 {
            TaskChoice::Create
        } else if n == 1 && has_tasks {
            TaskChoice::Select
        } else if (has_tasks && n == 3) || (!has_tasks && n == 2) {
            TaskChoice::Ignore
        } else {
            TaskChoice::Exit
        },
    }
}

/// The action for the entry picked in the project menu; `None` where the
/// menu was dismissed.
pub open spec fn project_choice_of(has_projects: bool, selection: Option<usize>) -> ProjectChoice {
    match selection {
        Some(n) => if n == 0 {
            ProjectChoice::Create
        } else if n == 1 && has_projects {
            ProjectChoice::Select
        } else {
            ProjectChoice::Exit
        },
        None => ProjectChoice::Exit,
    }
}

/// The entries of the menu shown when the current branch has no task.
pub fn task_menu_options(has_tasks: bool, branch: &str) -> (r: Vec<String>)
    ensures
        texts_view(r@) == task_menu_text(has_tasks, branch@),
{
    let mut r: Vec<String> = Vec::new();
    if has_tasks {
        r.push(String::from_str("Create a new task"));
        r.push(String::from_str("Select an existing task"));
    } else {
        r.push(String::from_str("Create your first task"));
    }
    r.push(String::from_str("Nothing, thanks timecop!"));
    let mut ignore = String::from_str("Ignore this branch (");
    ignore.append(branch);
    ignore.append(")");
    r.push(ignore);
    assert(texts_view(r@) =~= task_menu_text(has_tasks, branch@));
    r
}

/// The entries of the menu shown when the current repository has no project.
pub fn project_menu_options(has_projects: bool) -> (r: Vec<String>)
    ensures
        texts_view(r@) == project_menu_text(has_projects),
{
    let mut r: Vec<String> = Vec::new();
    if has_projects {
        r.push(String::from_str("Create a new project"));
        r.push(String::from_str("Select an existing project"));
    } else {
        r.push(String::from_str("Create your first project"));
    }
    r.push(String::from_str("Nothing, thanks timecop!"));
    assert(texts_view(r@) =~= project_menu_text(has_projects));
    r
}

/// Decides what to do with the entry picked in the task menu.
pub fn task_menu_choice(has_tasks: bool, selection: Option<usize>) -> (r: TaskChoice)
    ensures
        r == task_choice_of(has_tasks, selection),
{
    match selection {
        None => TaskChoice::Exit,
        Some(n) => {
            if n == 0 {
                TaskChoice::Create
            } else if n == 1 && has_tasks {
                TaskChoice::Select
            } else if (has_tasks && n == 3) || (!has_tasks && n == 2) {
                TaskChoice::Ignore
            } else {
                TaskChoice::Exit
            }
        },
    }
}

/// Decides what to do with the entry picked in the project menu.
pub fn project_menu_choice(has_projects: bool, selection: Option<usize>) -> (r: ProjectChoice)
    ensures
        r == project_choice_of(has_projects, selection),
{
    match selection {
        Some(n) => {
            if n == 0 {
                ProjectChoice::Create
            } else if n == 1 && has_projects {
                ProjectChoice::Select
            } else {
                ProjectChoice::Exit
            }
        },
        None => ProjectChoice::Exit,
    }
}

} // verus!
