//! Finding the Codex executable, and the processes that belong to it.
use crate::failure::Failure;
use crate::text::{joined, same_text};
use vstd::prelude::*;

verus! {

/// What is known of a path that may be the Codex executable.
pub struct Candidate {
    /// The path as users are shown it.
    pub shown: String,
    pub is_file: bool,
    /// What stands behind the last dot of its name, where that is text.
    pub extension: Option<String>,
}

/// Whether a path leads to a native Windows program.
pub open spec fn native_program(candidate: Candidate) -> bool {
    candidate.extension is Some && candidate.extension->0@ == "exe"@
}

fn is_native_program(candidate: &Candidate) -> (native: bool)
    ensures
        native == native_program(*candidate),
{
    match &candidate.extension {
        Some(extension) => same_text(extension.as_str(), "exe"),
        None => false,
    }
}

/// Whether a path that was given can be used: it must lead to a file, and on Windows to
/// a native program.
pub fn accept_explicit(candidate: &Candidate, windows: bool) -> (outcome: Result<(), Failure>)
    ensures
        match outcome {
            Ok(()) => candidate.is_file && (windows ==> native_program(*candidate)),
            Err(failure) => !(candidate.is_file && (windows ==> native_program(*candidate)))
                && failure@ == if !candidate.is_file {
                "Codex executable not found: "@ + candidate.shown@
            } else {
                "On Windows --codex must point to codex.exe, not a .cmd/.ps1 wrapper"@
            },
        },
{
    if !candidate.is_file {
        let reason = joined("Codex executable not found: ", candidate.shown.as_str());
        return Err(Failure::new(reason.as_str()));
    }
    if windows && !is_native_program(candidate) {
        return Err(
            Failure::new("On Windows --codex must point to codex.exe, not a .cmd/.ps1 wrapper"),
        );
    }
    Ok(())
}

/// Where the Codex executable comes from.
#[derive(PartialEq, Eq, Structural)]
pub enum Source {
    /// The path that was given.
    Given,
    /// The search path.
    Search,
}

/// Where the Codex executable comes from. A path that was given is used or refused; the
/// search path is never used in its place.
pub fn source(explicit: Option<&Candidate>, windows: bool) -> (source: Result<Source, Failure>)
    ensures
        match explicit {
            None => source is Ok && source->Ok_0 == Source::Search,
            Some(candidate) => match source {
                Ok(s) => s == Source::Given && candidate.is_file && (windows ==> native_program(
                    *candidate,
                )),
                Err(failure) => !(candidate.is_file && (windows ==> native_program(*candidate)))
                    && failure@ == if !candidate.is_file {
                    "Codex executable not found: "@ + candidate.shown@
                } else {
                    "On Windows --codex must point to codex.exe, not a .cmd/.ps1 wrapper"@
                },
            },
        },
{
    match explicit {
        None => Ok(Source::Search),
        Some(candidate) => match accept_explicit(candidate, windows) {
            Ok(()) => Ok(Source::Given),
            Err(failure) => Err(failure),
        },
    }
}

/// Whether what was found on the search path is the program itself. On Windows it may be
/// a wrapper, which is never run: the program that it stands for is looked up.
pub fn accept_found(candidate: &Candidate, windows: bool) -> (usable: bool)
    ensures
        usable == (windows ==> native_program(*candidate)),
{
    !windows || is_native_program(candidate)
}

/// Why a wrapper is of no use.
pub fn unresolved(candidate: &Candidate) -> (failure: Failure)
    ensures
        failure@ == "Cannot resolve native codex.exe from "@ + candidate.shown@
            + ". Pass --codex <path-to-codex.exe>"@,
{
    let mut reason = joined("Cannot resolve native codex.exe from ", candidate.shown.as_str());
    reason.append(". Pass --codex <path-to-codex.exe>");
    Failure::new(reason.as_str())
}

// ---------------------------------------------------------------------------
// Looking for the program behind a wrapper

/// Something in a directory.
pub enum Entry {
    /// A directory with what is in it; one that cannot be read holds nothing.
    Directory(Vec<Entry>),
    /// A file with its path and its name.
    File(std::path::PathBuf, String),
    /// Something of which nothing is known.
    Unknown,
}

/// How deep the program is looked for.
pub const SEARCH_DEPTH: u8 = 8;

/// The program that is found first among entries and below them, at most `depth`
/// directories deep. The search of a directory ends at an entry of which nothing is
/// known.
pub open spec fn native_in(entries: Seq<Entry>, depth: nat) -> Option<std::path::PathBuf>
    decreases depth, entries.len(),
{
    if depth == 0 || entries.len() == 0 {
        None
    } else {
        match entries[0] {
            Entry::Unknown => None,
            Entry::File(path, name) => if name@ == "codex.exe"@ {
                Some(path)
            } else {
                native_in(entries.skip(1), depth)
            },
            Entry::Directory(inner) => match native_in(inner@, (depth - 1) as nat) {
                Some(path) => Some(path),
                None => native_in(entries.skip(1), depth),
            },
        }
    }
}

/// Looks for the native program among entries and below them.
pub fn find_native(entries: &Vec<Entry>, depth: u8) -> (found: Option<&std::path::PathBuf>)
    ensures
        match found {
            Some(path) => native_in(entries@, depth as nat) == Some(*path),
            None => native_in(entries@, depth as nat) is None,
        },
    decreases depth,
{
    if depth == 0 {
        return None;
    }
    let mut i: usize = 0;
    assert(entries@.skip(0) == entries@);
    while i < entries.len()
        invariant
            i <= entries.len(),
            depth > 0,
            native_in(entries@, depth as nat) == native_in(entries@.skip(i as int), depth as nat),
        decreases entries.len() - i,
    {
        assert(entries@.skip(i as int).skip(1) == entries@.skip(i + 1));
        match &entries[i] {
            Entry::Unknown => {
                return None;
            },
            Entry::File(path, name) => {
                if same_text(name.as_str(), "codex.exe") {
                    return Some(path);
                }
            },
            Entry::Directory(inner) => {
                match find_native(inner, depth - 1) {
                    Some(path) => {
                        return Some(path);
                    },
                    None => {},
                }
            },
        }
        i = i + 1;
    }
    None
}

/// Whether a file with that path and the program's name stands among entries or below
/// them, at most `depth` directories deep.
pub open spec fn holds_native(entries: Seq<Entry>, path: std::path::PathBuf, depth: nat) -> bool
    decreases depth,
{
    depth > 0 && exists|i: int|
        0 <= i < entries.len() && match #[trigger] entries[i] {
            Entry::Unknown => false,
            Entry::File(own, name) => own == path && name@ == "codex.exe"@,
            Entry::Directory(inner) => holds_native(inner@, path, (depth - 1) as nat),
        }
}

/// What the search finds is there, under the program's own name.
pub proof fn law_found_program_is_there(entries: Seq<Entry>, depth: nat)
    requires
        native_in(entries, depth) is Some,
    ensures
        holds_native(entries, native_in(entries, depth)->0, depth),
    decreases depth, entries.len(),
{
    let path = native_in(entries, depth)->0;
    let rest = entries.skip(1);
    let here = match entries[0] {
        Entry::Unknown => false,
        Entry::File(own, name) => own == path && name@ == "codex.exe"@,
        Entry::Directory(inner) => native_in(inner@, (depth - 1) as nat) is Some,
    };
    if here {
        match entries[0] {
            Entry::Directory(inner) => {
                law_found_program_is_there(inner@, (depth - 1) as nat);
            },
            _ => {},
        }
        assert(match entries[0] {
            Entry::Unknown => false,
            Entry::File(own, name) => own == path && name@ == "codex.exe"@,
            Entry::Directory(inner) => holds_native(inner@, path, (depth - 1) as nat),
        });
    } else {
        law_found_program_is_there(rest, depth);
        let i = choose|i: int|
            0 <= i < rest.len() && match #[trigger] rest[i] {
                Entry::Unknown => false,
                Entry::File(own, name) => own == path && name@ == "codex.exe"@,
                Entry::Directory(inner) => holds_native(inner@, path, (depth - 1) as nat),
            };
        assert(entries[i + 1] == rest[i]);
    }
}

// ---------------------------------------------------------------------------
// The process tree

/// Stands for the processes that a request started; they end with the request.
pub struct TreeGuard {
    pub pid: u32,
}

impl TreeGuard {
    /// Takes charge of a process that was just started and leads a group of its own.
    pub fn attach(pid: Option<u32>) -> (guard: Result<TreeGuard, Failure>)
        ensures
            match guard {
                Ok(g) => pid == Some(g.pid),
                Err(failure) => pid is None && failure@ == "Codex process already exited"@,
            },
    {
        match pid {
            Some(pid) => Ok(TreeGuard { pid }),
            None => Err(Failure::new("Codex process already exited")),
        }
    }

    /// Whom a signal to the whole group is addressed to: the negated number of the
    /// process, as thirty-two bits with a sign hold it.
    pub fn group(&self) -> (target: i32)
        requires
            self.pid != 0x8000_0000,
        ensures
            target == if self.pid < 0x8000_0000 {
                -(self.pid as int)
            } else {
                0x1_0000_0000 - self.pid
            },
    {
        if self.pid < 0x8000_0000 {
            -(self.pid as i32)
        } else {
            (0x1_0000_0000u64 - self.pid as u64) as i32
        }
    }
}

// ---------------------------------------------------------------------------
// How the search goes

/// Whether all of what the search goes through is known.
pub open spec fn all_known(entries: Seq<Entry>, depth: nat) -> bool
    decreases depth,
{
    depth > 0 ==> forall|i: int|
        0 <= i < entries.len() ==> match #[trigger] entries[i] {
            Entry::Unknown => false,
            Entry::File(_, _) => true,
            Entry::Directory(inner) => all_known(inner@, (depth - 1) as nat),
        }
}

/// The search goes through entries in their order: what comes first is taken, and what stands
/// behind is looked at only where nothing was found before it.
pub proof fn law_search_goes_in_order(first: Seq<Entry>, rest: Seq<Entry>, depth: nat)
    requires
        forall|i: int| 0 <= i < first.len() ==> !((#[trigger] first[i]) is Unknown),
    ensures
        native_in(first + rest, depth) == match native_in(first, depth) {
            Some(path) => Some(path),
            None => native_in(rest, depth),
        },
    decreases first.len(),
{
    let whole = first + rest;
    if first.len() == 0 {
        assert(whole =~= rest);
    } else {
        let behind = first.skip(1);
        assert forall|i: int| 0 <= i < behind.len() implies !((#[trigger] behind[i]) is Unknown) by {
            assert(behind[i] == first[i + 1]);
        }
        law_search_goes_in_order(behind, rest, depth);
        assert(whole[0] == first[0]);
        assert(whole.skip(1) =~= behind + rest);
        assert(!(first[0] is Unknown));
    }
}

/// A file is taken where it has the program's name, a directory is searched one level less deep,
/// and at an entry of which nothing is known the search of a directory ends. Eight levels are
/// searched.
pub proof fn law_search_takes_the_program(
    path: std::path::PathBuf,
    name: String,
    inner: Vec<Entry>,
    rest: Seq<Entry>,
    depth: nat,
)
    requires
        depth > 0,
    ensures
        native_in(seq![Entry::File(path, name)], depth) == if name@ == "codex.exe"@ {
            Some(path)
        } else {
            None
        },
        native_in(seq![Entry::Directory(inner)], depth) == native_in(inner@, (depth - 1) as nat),
        native_in(seq![Entry::Unknown] + rest, depth) is None,
        native_in(rest, 0) is None,
        SEARCH_DEPTH == 8,
{
    let nothing = Seq::<Entry>::empty();
    assert(seq![Entry::File(path, name)].skip(1) =~= nothing);
    assert(seq![Entry::Directory(inner)].skip(1) =~= nothing);
    assert(native_in(nothing, depth) is None);
    assert((seq![Entry::Unknown] + rest)[0] == Entry::Unknown);
}

/// Where all is known, a program that is there is found.
pub proof fn law_program_that_is_there_is_found(
    entries: Seq<Entry>,
    path: std::path::PathBuf,
    depth: nat,
)
    requires
        all_known(entries, depth),
        holds_native(entries, path, depth),
    ensures
        native_in(entries, depth) is Some,
    decreases depth,
{
    let i = choose|i: int|
        0 <= i < entries.len() && match #[trigger] entries[i] {
            Entry::Unknown => false,
            Entry::File(own, name) => own == path && name@ == "codex.exe"@,
            Entry::Directory(inner) => holds_native(inner@, path, (depth - 1) as nat),
        };
    match entries[i] {
        Entry::Directory(inner) => {
            law_program_that_is_there_is_found(inner@, path, (depth - 1) as nat);
        },
        _ => {},
    }
    let first = entries.take(i);
    let rest = entries.skip(i);
    assert forall|j: int| 0 <= j < first.len() implies !((#[trigger] first[j]) is Unknown) by {
        assert(first[j] == entries[j]);
    }
    law_search_goes_in_order(first, rest, depth);
    assert(first + rest =~= entries);
    assert(rest[0] == entries[i]);
    assert(native_in(rest, depth) is Some);
}

/// A native program is a path whose name ends in a dot and `exe`, in small letters.
pub proof fn law_native_program_by_its_extension(candidate: Candidate)
    ensures
        native_program(candidate) <==> candidate.extension is Some && candidate.extension->0@ == seq![
            'e',
            'x',
            'e',
        ],
{
    reveal_strlit("exe");
    assert("exe"@ =~= seq!['e', 'x', 'e']);
}

} // verus!
