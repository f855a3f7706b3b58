//! The command that handles jobs: whether it can be run.

use crate::failure::Failure;
use vstd::prelude::*;
use vstd::string::*;

verus! {

/// Where the executable of a command is looked for.
#[derive(Clone, Copy, Debug, PartialEq, Eq, Structural)]
pub enum HandlerLookup {
    /// At the path that the command gives.
    Direct,
    /// In each directory of the search path.
    SearchPath,
}

/// Says where an executable is looked for whose path has `component_count` components: a bare
/// name is searched for, and a longer path is taken as it is.
pub fn handler_lookup(component_count: usize) -> (lookup: HandlerLookup)
    ensures
        lookup == (if component_count > 1 {
            HandlerLookup::Direct
        } else {
            HandlerLookup::SearchPath
        }),
{
    if component_count > 1 {
        HandlerLookup::Direct
    } else {
        HandlerLookup::SearchPath
    }
}

/// What the file system says of an entry that exists.
#[derive(Clone, Copy, Debug, PartialEq, Eq, Structural)]
pub struct FileFacts {
    /// Whether it is a regular file.
    pub is_file: bool,
    /// Its permission bits, on systems that have them.
    pub mode: Option<u32>,
}

/// Whether the permission bits let the owner, the group or others execute.
pub open spec fn may_execute(mode: u32) -> bool {
    (mode / 64) % 2 == 1 || (mode / 8) % 2 == 1 || mode % 2 == 1
}

/// Whether an entry can be executed: a regular file that someone may execute. Where there are no
/// permission bits every file counts.
pub open spec fn executable(facts: Option<FileFacts>) -> bool {
    match facts {
        Some(entry) => entry.is_file && (entry.mode matches Some(mode) ==> may_execute(mode)),
        None => false,
    }
}

/// Whether an entry of the file system, if it exists at all, can be executed.
pub fn is_executable_file(facts: Option<FileFacts>) -> (found: bool)
    ensures
        found == executable(facts),
{
    let entry = match facts {
        Some(entry) => entry,
        None => {
            return false;
        },
    };
    if !entry.is_file {
        return false;
    }
    match entry.mode {
        Some(mode) => {
            assert((mode & 0o111 != 0) == ((mode / 64) % 2 == 1 || (mode / 8) % 2 == 1 || mode % 2
                == 1)) by (bit_vector);
            mode & 0o111 != 0
        },
        None => true,
    }
}

/// Whether any of the entries can be executed.
pub open spec fn any_executable(candidates: Seq<Option<FileFacts>>) -> bool {
    exists|i: int| 0 <= i < candidates.len() && executable(#[trigger] candidates[i])
}

/// Whether any of the entries can be executed.
fn find_executable(candidates: &Vec<Option<FileFacts>>) -> (found: bool)
    ensures
        found == any_executable(candidates@),
{
    let mut i: usize = 0;
    while i < candidates.len()
        invariant
            i <= candidates.len(),
            forall|k: int| 0 <= k < i ==> !executable(#[trigger] candidates@[k]),
        decreases candidates.len() - i,
    {
        if is_executable_file(candidates[i]) {
            assert(executable(candidates@[i as int]));
            return true;
        }
        i = i + 1;
    }
    false
}

/// What is wrong with a handler command whose executable is shown as `shown` and may stand at
/// any of `candidates`.
pub open spec fn command_complaint(
    shown: Option<Seq<char>>,
    candidates: Seq<Option<FileFacts>>,
) -> Option<Seq<char>> {
    match shown {
        None => Some("handler command is empty"@),
        Some(name) => if any_executable(candidates) {
            None
        } else {
            Some("handler executable was not found or is not executable: "@ + name)
        },
    }
}

/// Accepts a handler command that has an executable and finds it at one of the places where it
/// may stand.
pub fn validate_handler_command(
    shown: Option<&str>,
    candidates: &Vec<Option<FileFacts>>,
) -> (checked: Result<(), Failure>)
    ensures
        match command_complaint(
            match shown {
                Some(name) => Some(name@),
                None => None,
            },
            candidates@,
        ) {
            None => checked is Ok,
            Some(message) => checked is Err && checked->Err_0.says(message),
        },
{
    let name = match shown {
        Some(name) => name,
        None => {
            return Err(Failure::new("handler command is empty".to_owned()));
        },
    };
    if find_executable(candidates) {
        return Ok(());
    }
    let mut message = "handler executable was not found or is not executable: ".to_owned();
    message.append(name);
    Err(Failure::new(message))
}

/// A file can be executed exactly where it is a regular one with an execute bit, of the owner, the
/// group or the others. Where there are no such bits every regular file can.
pub proof fn law_execute_bits_decide(facts: Option<FileFacts>, found: bool)
    requires
        call_ensures(is_executable_file, (facts,), found),
    ensures
        facts is None ==> !found,
        facts matches Some(entry) && !entry.is_file ==> !found,
        facts matches Some(entry) && entry.is_file && entry.mode is None ==> found,
        facts matches Some(FileFacts { is_file: true, mode: Some(mode) }) ==> (found <==> mode
            & 0o100 != 0 || mode & 0o010 != 0 || mode & 0o001 != 0),
{
    if let Some(FileFacts { is_file: true, mode: Some(mode) }) = facts {
        assert((mode & 0o100 != 0) == ((mode / 64) % 2 == 1)) by (bit_vector);
        assert((mode & 0o010 != 0) == ((mode / 8) % 2 == 1)) by (bit_vector);
        assert((mode & 0o001 != 0) == (mode % 2 == 1)) by (bit_vector);
    }
}

/// A command is accepted exactly where it names an executable and one of the places where that may
/// stand holds an executable file. Otherwise the complaint names what was looked for.
pub proof fn law_commands_need_an_executable(
    shown: Option<&str>,
    candidates: &Vec<Option<FileFacts>>,
    found: Seq<bool>,
    checked: Result<(), Failure>,
)
    requires
        call_ensures(validate_handler_command, (shown, candidates), checked),
        found.len() == candidates.len(),
        forall|i: int|
            0 <= i < found.len() ==> call_ensures(
                is_executable_file,
                (candidates@[i],),
                #[trigger] found[i],
            ),
    ensures
        checked is Ok <==> shown is Some && found.contains(true),
        shown is None ==> checked is Err && checked->Err_0.message@ == "handler command is empty"@,
        shown is Some && checked is Err ==> checked->Err_0.message@
            == "handler executable was not found or is not executable: "@ + shown->0@,
        checked is Err ==> checked->Err_0.cause is None,
{
    if any_executable(candidates@) {
        let i = choose|i: int| 0 <= i < candidates.len() && executable(#[trigger] candidates@[i]);
        assert(found[i]);
    }
    if found.contains(true) {
        let i = choose|i: int| 0 <= i < found.len() && found[i] == true;
        assert(executable(candidates@[i]));
    }
}

/// A bare name, which is a path of one component, is looked for in the search path, and a path of
/// several components only where it points.
pub proof fn law_bare_names_are_searched_for(component_count: usize, lookup: HandlerLookup)
    requires
        call_ensures(handler_lookup, (component_count,), lookup),
    ensures
        component_count <= 1 ==> lookup is SearchPath,
        component_count >= 2 ==> lookup is Direct,
{
}

} // verus!
