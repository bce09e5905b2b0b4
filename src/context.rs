use vstd::prelude::*;
use vstd::string::StringExecFns;

verus! {

/// A text with its leading and trailing whitespace removed.
pub uninterp spec fn trimmed(s: Seq<char>) -> Seq<char>;

/// `part` is a contiguous piece of `whole`.
pub open spec fn is_slice_of(part: Seq<char>, whole: Seq<char>) -> bool {
    exists|i: int, j: int| 0 <= i <= j <= whole.len() && part == whole.subrange(i, j)
}

/// Relies on `str::trim`: the result is the text with leading and trailing
/// whitespace removed, so a slice of it that depends on the text alone.
#[verifier::external_body]
fn trim_text(s: &str) -> (r: &str)
    ensures
        r@ == trimmed(s@),
        is_slice_of(r@, s@),
{
    s.trim()
}

/// The key under which a branch of a remote is remembered: `remote#branch`.
pub open spec fn remote_branch_key(remote: Seq<char>, branch: Seq<char>) -> Seq<char> {
    remote + seq!['#'] + branch
}

/// Joins a remote and a branch into the key that binds a task to them.
pub fn get_remote_branch(remote: &str, branch: &str) -> (r: String)
    ensures
        r@ == remote_branch_key(remote@, branch@),
{
    let mut r = String::from_str(remote);
    proof {
        reveal_strlit("#");
    }
    r.append("#");
    r.append(branch);
    r
}

/// The branch of a repository's remote and branch, where both were found.
pub fn get_branch(remote_and_branch: Option<(String, String)>) -> (r: Option<String>)
    ensures
        match remote_and_branch {
            Some(p) => r.is_some() && r.unwrap()@ == p.1@,
            None => r.is_none(),
        },
{
    match remote_and_branch {
        Some(p) => Some(p.1),
        None => None,
    }
}

/// The message of the last commit with surrounding whitespace removed, where
/// the commit has a readable message.
pub fn get_last_commit_message(message: Option<&str>) -> (r: Option<String>)
    ensures
        match message {
            Some(m) => r.is_some() && r.unwrap()@ == trimmed(m@),
            None => r.is_none(),
        },
{
    match message {
        Some(m) => Some(trim_text(m).to_owned()),
        None => None,
    }
}

} // verus!
