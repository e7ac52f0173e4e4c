//! One invocation of the tool: the request it was given, what it does to
//! the store, and what it has to tell.

use crate::command_map::views_of;
use crate::commands::{
    list_commands, outcome_result, remove_command, run_command, save_command, show_command,
    RunError, ShellOutcome,
};
use crate::model::{FileJson, StoreModel};
use crate::name_order::ascending;
use vstd::prelude::*;

verus! {

/// What the user asked for.
#[derive(Debug, PartialEq, Eq)]
pub enum Commands {
    /// Save the words of `cmd`, joined by single spaces, under `name`.
    Save { name: String, cmd: Vec<String> },
    /// Run what is saved under `name`.
    Run { name: String },
    /// List all aliases.
    List,
    /// Show what is saved under `name`.
    Show { name: String },
    /// Remove `name`.
    Remove { name: String },
}

/// What an invocation has to tell the user.
#[derive(Debug, PartialEq, Eq)]
pub enum Report {
    /// `cmd` now stands under `name`.
    Saved { name: String, cmd: String },
    /// The command under `name` was handed to the shell, with this result.
    Ran { name: String, result: Result<(), RunError> },
    /// The aliases of the store, in ascending order.
    Listed(Vec<String>),
    /// `cmd` stands under `name`.
    Shown { name: String, cmd: String },
    /// `cmd` stood under `name` and was removed.
    Removed { name: String, cmd: String },
    /// Nothing stands under `name`.
    NotFound { name: String },
}

/// The exit code that a report stands for: zero, but for a command that
/// did not run to a successful end. Such a command hands on its own exit
/// code where it has one that is not zero, and one otherwise.
pub open spec fn exit_code_of(report: Report) -> i32 {
    match report {
        Report::Ran { name, result } => match result {
            Ok(_) => 0i32,
            Err(RunError::CommandFailed(Some(code))) => if code != 0 {
                code
            } else {
                1i32
            },
            Err(_) => 1i32,
        },
        _ => 0i32,
    }
}

/// The exit code with which an invocation that tells `report` ends.
pub fn exit_code(report: &Report) -> (code: i32)
    ensures
        code == exit_code_of(*report),
{
    match report {
        Report::Ran { name: _, result } => match result {
            Ok(_) => 0,
            Err(RunError::CommandFailed(Some(code))) => {
                if *code != 0 {
                    *code
                } else {
                    1
                }
            },
            Err(_) => 1,
        },
        _ => 0,
    }
}

/// The words joined by single spaces.
pub open spec fn joined(words: Seq<Seq<char>>) -> Seq<char>
    decreases words.len(),
{
    if words.len() == 0 {
        Seq::empty()
    } else if words.len() == 1 {
        words[0]
    } else {
        joined(words.drop_last()) + seq![' '] + words.last()
    }
}

/// Joins the words by single spaces into one command line.
pub fn join_words(words: &Vec<String>) -> (line: String)
    ensures
        line@ == joined(views_of(words@)),
{
    let mut line = String::new();
    let mut i: usize = 0;
    while i < words.len()
        invariant
            i <= words@.len(),
            line@ == joined(views_of(words@).take(i as int)),
        decreases words@.len() - i,
    {
        proof {
            reveal_strlit(" ");
            let next = views_of(words@).take(i + 1);
            assert(next.drop_last() =~= views_of(words@).take(i as int));
            assert(next.last() == words@[i as int]@);
            assert(" "@ =~= seq![' ']);
        }
        if i > 0 {
            line.append(" ");
        }
        line.append(words[i].as_str());
        i += 1;
    }
    proof {
        assert(views_of(words@).take(i as int) =~= views_of(words@));
    }
    line
}

/// What `run` owes for the request `command` on a store that held `before`:
/// the store holds `after`, the user is told `report`, and `is_dirty` says
/// whether the store has to be written back.
pub open spec fn run_post<F: FnOnce(&str) -> ShellOutcome>(
    before: StoreModel,
    command: Commands,
    shell: F,
    after: StoreModel,
    report: Report,
    is_dirty: bool,
) -> bool {
    match command {
        Commands::Save { name, cmd } => {
            &&& after.version == before.version
            &&& after.commands == before.commands.insert(name@, joined(views_of(cmd@)))
            &&& is_dirty
            &&& report matches Report::Saved { name: told, cmd: line }
            &&& told@ == name@
            &&& line@ == joined(views_of(cmd@))
        },
        Commands::Run { name } => {
            &&& after == before
            &&& !is_dirty
            &&& report matches Report::Ran { name: told, result }
            &&& told@ == name@
            &&& !before.commands.dom().contains(name@) ==> result == Err::<(), RunError>(
                RunError::NotFound,
            )
            &&& before.commands.dom().contains(name@) ==> exists|t: &str, o: ShellOutcome|
                t@ == before.commands[name@] && #[trigger] call_ensures(shell, (t,), o) && result
                    == outcome_result(o)
        },
        Commands::List => {
            &&& after == before
            &&& !is_dirty
            &&& report matches Report::Listed(names)
            &&& ascending(views_of(names@))
            &&& forall|k: Seq<char>|
                before.commands.dom().contains(k) <==> views_of(names@).contains(k)
        },
        Commands::Show { name } => {
            &&& after == before
            &&& !is_dirty
            &&& if before.commands.dom().contains(name@) {
                &&& report matches Report::Shown { name: told, cmd }
                &&& told@ == name@
                &&& cmd@ == before.commands[name@]
            } else {
                &&& report matches Report::NotFound { name: told }
                &&& told@ == name@
            }
        },
        Commands::Remove { name } => {
            &&& after.version == before.version
            &&& after.commands == before.commands.remove(name@)
            &&& is_dirty == before.commands.dom().contains(name@)
            &&& if before.commands.dom().contains(name@) {
                &&& report matches Report::Removed { name: told, cmd }
                &&& told@ == name@
                &&& cmd@ == before.commands[name@]
            } else {
                &&& after == before
                &&& report matches Report::NotFound { name: told }
                &&& told@ == name@
            }
        },
    }
}

/// Carries out one request on the store. A command that is to be run is
/// handed to `shell`. The second result says whether the store was changed
/// and has to be written back.
pub fn run<F: FnOnce(&str) -> ShellOutcome>(json: &mut FileJson, command: Commands, shell: F) -> (r:
    (Report, bool))
    requires
        forall|t: &str|
            (command matches Commands::Run { name } && old(json)@.commands.dom().contains(name@)
                && t@ == old(json)@.commands[name@]) ==> #[trigger] call_requires(shell, (t,)),
    ensures
        run_post(old(json)@, command, shell, final(json)@, r.0, r.1),
{
    match command {
        Commands::Save { name, cmd } => {
            let line = join_words(&cmd);
            save_command(json, name.as_str(), line.as_str());
            (Report::Saved { name, cmd: line }, true)
        },
        Commands::Run { name } => {
            let result = run_command(json, name.as_str(), shell);
            (Report::Ran { name, result }, false)
        },
        Commands::List => {
            let names = list_commands(json);
            (Report::Listed(names), false)
        },
        Commands::Show { name } => {
            match show_command(json, name.as_str()) {
                Some(text) => {
                    let cmd = text.to_owned();
                    (Report::Shown { name, cmd }, false)
                },
                None => (Report::NotFound { name }, false),
            }
        },
        Commands::Remove { name } => {
            match remove_command(json, name.as_str()) {
                Some(cmd) => (Report::Removed { name, cmd }, true),
                None => (Report::NotFound { name }, false),
            }
        },
    }
}

} // verus!
