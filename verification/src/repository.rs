//! The rules the program applies around the version-control tool that keeps
//! the notes. Running the tool is the caller's part.

use vstd::prelude::*;

verus! {

/// What every commit message starts with.
pub open spec fn commit_prefix() -> Seq<char> {
    seq!['C', 'h', 'a', 'n', 'g', 'e', ':', ' ']
}

/// The message of the commit that records a change to the note with the
/// stem `stem`.
pub fn commit_message(stem: &str) -> (message: String)
    ensures
        message@ == commit_prefix() + stem@,
{
    proof {
        reveal_strlit("Change: ");
        assert("Change: "@ =~= commit_prefix());
    }
    "Change: ".to_owned().concat(stem)
}

/// Whether the exit code of a comparison of a note with its committed state
/// says that the note was changed: the code is 1 for a difference, 0 for
/// none, and anything else for trouble.
pub fn diff_reports_change(exit_code: i32) -> (changed: bool)
    ensures
        changed == (exit_code == 1),
{
    exit_code == 1
}

} // verus!
