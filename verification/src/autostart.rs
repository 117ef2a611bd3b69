//! Autostart via the HKCU Run key, asserted on every launch.
//!
//! Windows can disable Run entries behind your back (Task Manager writes a veto into
//! `StartupApproved`), so the entry is re-asserted at startup instead of trusting that a one-time
//! write survived.
use vstd::prelude::*;

verus! {

pub const RUN_KEY: &'static str = "Software\\Microsoft\\Windows\\CurrentVersion\\Run";

pub const NAME: &'static str = "dictate";

/// What is to become of the Run entry.
#[derive(Clone, Copy, Debug, PartialEq, Eq, Structural)]
pub enum RunEntry {
    /// It has to hold the [`run_value`] of the executable.
    Present,
    /// It has to go.
    Absent,
}

/// What came of removing the entry.
#[derive(Clone, Copy, Debug, PartialEq, Eq, Structural)]
pub enum Removal {
    Removed,
    NotFound,
    Failed,
}

/// What the config asks for.
pub open spec fn wanted(enabled: bool) -> RunEntry {
    if enabled {
        RunEntry::Present
    } else {
        RunEntry::Absent
    }
}

/// `exe` in quotes.
pub open spec fn quoted(exe: Seq<char>) -> Seq<char> {
    seq!['"'] + exe + seq!['"']
}

/// The value of the entry, if there is one, once it was made to be what it has to be.
pub open spec fn entry_after(entry: RunEntry, exe: Seq<char>) -> Option<Seq<char>> {
    match entry {
        RunEntry::Present => Some(quoted(exe)),
        RunEntry::Absent => None,
    }
}

/// The entry ends up as the config has it, in either direction and whatever was there before: it
/// names the executable in quotes when enabled, and is gone when not.
pub proof fn law_entry_matches_the_config(enabled: bool, exe: Seq<char>)
    ensures
        enabled ==> entry_after(wanted(enabled), exe) == Some(seq!['"'] + exe + seq!['"']),
        !enabled ==> entry_after(wanted(enabled), exe) is None,
{
}

/// Make the Run entry match the config: present when enabled, absent when not.
pub fn apply(enabled: bool) -> (r: RunEntry)
    ensures
        r == wanted(enabled),
{
    if enabled {
        RunEntry::Present
    } else {
        RunEntry::Absent
    }
}

/// The value of the entry. Quoted, because the path may contain spaces and the shell parses this
/// value.
pub fn run_value(exe: &str) -> (r: String)
    ensures
        r@ == quoted(exe@),
{
    let mut out = "\"".to_string();
    out.append(exe);
    out.append("\"");
    proof {
        reveal_strlit("\"");
    }
    assert("\""@ =~= seq!['"']);
    out
}

/// The value that the entry has to have, or `None` where it has to go.
pub fn entry_value(enabled: bool, exe: &str) -> (r: Option<String>)
    ensures
        entry_after(wanted(enabled), exe@) == match r {
            Some(value) => Some(value@),
            None => None,
        },
{
    match apply(enabled) {
        RunEntry::Present => Some(run_value(exe)),
        RunEntry::Absent => None,
    }
}

/// Whether the entry is gone. Absent is fine; only a real failure to delete is an error.
pub fn is_gone(removal: Removal) -> (r: bool)
    ensures
        r <==> removal != Removal::Failed,
{
    match removal {
        Removal::Removed => true,
        Removal::NotFound => true,
        Removal::Failed => false,
    }
}

/// Whatever the path, it stands between two quotes and is otherwise as it is.
pub proof fn law_the_path_is_quoted(exe: Seq<char>)
    ensures
        quoted(exe).len() == exe.len() + 2,
        quoted(exe).first() == '"',
        quoted(exe).last() == '"',
        quoted(exe).subrange(1, 1 + exe.len() as int) == exe,
        wanted(true) == RunEntry::Present,
        wanted(false) == RunEntry::Absent,
{
    assert(quoted(exe).subrange(1, 1 + exe.len() as int) =~= exe);
}

} // verus!
