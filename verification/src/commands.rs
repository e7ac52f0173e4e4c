//! The operations on a store: save, remove, show, list and run.

use crate::command_map::views_of;
use crate::model::FileJson;
use crate::name_order::ascending;
use vstd::prelude::*;

verus! {

/// What became of an attempt to hand a command line to the host shell.
#[derive(Debug, PartialEq, Eq)]
pub enum ShellOutcome {
    /// The shell could not be started; the text says why.
    LaunchFailed(String),
    /// The shell ran and ended with this exit code, or with none where a
    /// signal ended it.
    Exited(Option<i32>),
}

/// Why a saved command did not run to a successful end.
#[derive(Debug, PartialEq, Eq)]
pub enum RunError {
    /// Nothing is saved under the alias.
    NotFound,
    /// The shell could not be started.
    Launch(String),
    /// The command ran and reported this status, which is not success.
    CommandFailed(Option<i32>),
}

/// The result that a shell outcome stands for: success on exit code zero,
/// and otherwise the error that carries what was observed.
pub open spec fn outcome_result(outcome: ShellOutcome) -> Result<(), RunError> {
    match outcome {
        ShellOutcome::LaunchFailed(msg) => Err(RunError::Launch(msg)),
        ShellOutcome::Exited(Some(code)) => if code == 0 {
            Ok(())
        } else {
            Err(RunError::CommandFailed(Some(code)))
        },
        ShellOutcome::Exited(None) => Err(RunError::CommandFailed(None)),
    }
}

/// Classifies what the shell reported.
pub fn classify_outcome(outcome: ShellOutcome) -> (r: Result<(), RunError>)
    ensures
        r == outcome_result(outcome),
{
    match outcome {
        ShellOutcome::LaunchFailed(msg) => Err(RunError::Launch(msg)),
        ShellOutcome::Exited(Some(code)) => {
            if code == 0 {
                Ok(())
            } else {
                Err(RunError::CommandFailed(Some(code)))
            }
        },
        ShellOutcome::Exited(None) => Err(RunError::CommandFailed(None)),
    }
}

/// Removes the alias `cmd_name` and hands back the text that was saved
/// under it. Where nothing was saved under it the store stays as it is.
pub fn remove_command(json: &mut FileJson, cmd_name: &str) -> (r: Option<String>)
    ensures
        final(json)@.version == old(json)@.version,
        final(json)@.commands == old(json)@.commands.remove(cmd_name@),
        old(json)@.commands.dom().contains(cmd_name@) ==> r.is_some() && r.unwrap()@ == old(
            json,
        )@.commands[cmd_name@],
        !old(json)@.commands.dom().contains(cmd_name@) ==> r.is_none() && final(json)@ == old(
            json,
        )@,
{
    json.commands.remove(cmd_name)
}

/// To remove an alias that is not there changes nothing; once removed, an
/// alias is not there, so that a second removal finds nothing and changes
/// nothing.
pub proof fn lemma_removal_idempotent(commands: Map<Seq<char>, Seq<char>>, name: Seq<char>)
    ensures
        !commands.dom().contains(name) ==> commands.remove(name) == commands,
        !commands.remove(name).dom().contains(name),
        commands.remove(name).remove(name) == commands.remove(name),
{
    if !commands.dom().contains(name) {
        assert(commands.remove(name) =~= commands);
    }
    assert(commands.remove(name).remove(name) =~= commands.remove(name));
}

/// Saves `cmd` under the alias `cmd_name`, in place of what was saved there.
pub fn save_command(json: &mut FileJson, cmd_name: &str, cmd: &str)
    ensures
        final(json)@.version == old(json)@.version,
        final(json)@.commands == old(json)@.commands.insert(cmd_name@, cmd@),
{
    json.commands.insert(cmd_name, cmd);
}

/// The text saved under the alias `cmd_name`.
pub fn show_command<'a>(json: &'a FileJson, cmd_name: &str) -> (r: Option<&'a str>)
    ensures
        json@.commands.dom().contains(cmd_name@) ==> r.is_some() && r.unwrap()@
            == json@.commands[cmd_name@],
        !json@.commands.dom().contains(cmd_name@) ==> r.is_none(),
{
    json.commands.get(cmd_name)
}

/// All aliases of the store, each once, in ascending order.
pub fn list_commands(json: &FileJson) -> (names: Vec<String>)
    ensures
        ascending(views_of(names@)),
        forall|k: Seq<char>| json@.commands.dom().contains(k) <==> views_of(names@).contains(k),
        names@.len() == json@.commands.dom().len(),
{
    json.commands.names()
}

/// Runs the command saved under `cmd_name`: hands its text to `shell`, once,
/// and classifies what `shell` reports. Where nothing is saved under the
/// alias, `shell` is not called.
pub fn run_command<F: FnOnce(&str) -> ShellOutcome>(
    json: &FileJson,
    cmd_name: &str,
    shell: F,
) -> (r: Result<(), RunError>)
    requires
        forall|t: &str|
            json@.commands.dom().contains(cmd_name@) && t@ == json@.commands[cmd_name@]
                ==> #[trigger] call_requires(shell, (t,)),
    ensures
        !json@.commands.dom().contains(cmd_name@) ==> r == Err::<(), RunError>(
            RunError::NotFound,
        ),
        json@.commands.dom().contains(cmd_name@) ==> exists|t: &str, o: ShellOutcome|
            t@ == json@.commands[cmd_name@] && #[trigger] call_ensures(shell, (t,), o) && r
                == outcome_result(o),
{
    match json.commands.get(cmd_name) {
        None => Err(RunError::NotFound),
        Some(text) => {
            let outcome = shell(text);
            classify_outcome(outcome)
        },
    }
}

} // verus!
