//! Which files of a workspace hold instructions for the assistant.

use vstd::prelude::*;
use crate::text::{ends_with, occurs_at, same_text};

verus! {

/// Whether a directory is passed over when instruction files are looked
/// for: the directories of version control and of build output are.
pub fn should_skip_dir(name: &str) -> (r: bool)
    ensures
        r == (name@ == ".git"@ || name@ == "target"@),
{
    same_text(name, ".git") || same_text(name, "target")
}

/// The files that hold instructions wherever a workspace has them, by
/// their paths below the workspace.
pub fn known_instruction_files() -> (r: Vec<&'static str>)
    ensures
        r@ == seq![".github/copilot-instructions.md", "AGENTS.md"],
{
    let mut files: Vec<&'static str> = Vec::new();
    files.push(".github/copilot-instructions.md");
    files.push("AGENTS.md");
    assert(files@ =~= seq![".github/copilot-instructions.md", "AGENTS.md"]);
    files
}

/// Whether a file of this name holds instructions: its name ends in
/// `.instructions.md`.
pub open spec fn names_instructions(name: Seq<char>) -> bool {
    occurs_at(name, ".instructions.md"@, name.len() - ".instructions.md"@.len())
}

/// Whether a file of this name holds instructions.
pub fn is_instruction_file(name: &str) -> (r: bool)
    ensures
        r == names_instructions(name@),
{
    ends_with(name, ".instructions.md")
}

} // verus!
