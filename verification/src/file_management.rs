//! Replacing the store's file without ever leaving a half-written one:
//! write a temporary sibling, drop the old backup, move the current file to
//! the backup, move the temporary file into place.

use vstd::prelude::*;

verus! {

/// The four steps of a replacement, in the order in which they are taken.
#[derive(Clone, Copy, Debug, PartialEq, Eq)]
pub enum Stage {
    /// Write the new contents to the temporary sibling and force them to disk.
    WriteTemp,
    /// Delete the backup sibling of an earlier replacement.
    DropBackup,
    /// Move the current file to the backup sibling.
    KeepBackup,
    /// Move the temporary sibling to the file's own path.
    Promote,
}

/// One operation that is asked of the file system.
#[derive(Debug, PartialEq, Eq)]
pub enum FileAction {
    /// Create or truncate `path`, write `contents`, force them to disk.
    Write { path: String, contents: String },
    /// Delete `path`.
    Delete { path: String },
    /// Move `from` to `to`, replacing what is there.
    Rename { from: String, to: String },
    /// Create the directory `path` and every missing directory above it.
    CreateDirs { path: String },
    /// Look whether anything exists at `path`: `Done` where it does.
    Probe { path: String },
}

/// A file operation over plain sequences of characters.
pub enum ActionView {
    Write { path: Seq<char>, contents: Seq<char> },
    Delete { path: Seq<char> },
    Rename { from: Seq<char>, to: Seq<char> },
    CreateDirs { path: Seq<char> },
    Probe { path: Seq<char> },
}

impl View for FileAction {
    type V = ActionView;

    open spec fn view(&self) -> ActionView {
        match *self {
            FileAction::Write { path, contents } => ActionView::Write {
                path: path@,
                contents: contents@,
            },
            FileAction::Delete { path } => ActionView::Delete { path: path@ },
            FileAction::Rename { from, to } => ActionView::Rename { from: from@, to: to@ },
            FileAction::CreateDirs { path } => ActionView::CreateDirs { path: path@ },
            FileAction::Probe { path } => ActionView::Probe { path: path@ },
        }
    }
}

/// What the file system reported of one operation.
#[derive(Debug, PartialEq, Eq)]
pub enum FileEvent {
    /// It was carried out.
    Done,
    /// The file to delete or to move does not exist.
    Missing,
    /// It failed for another reason, which the text gives.
    Failed(String),
}

/// A replacement that was given up: the step that failed and what the file
/// system reported of it.
#[derive(Debug, PartialEq, Eq)]
pub struct UpdateError {
    pub stage: Stage,
    pub event: FileEvent,
}

/// The suffix of the temporary sibling.
pub open spec fn temp_suffix() -> Seq<char> {
    seq!['.', 't', 'm', 'p']
}

/// The suffix of the backup sibling.
pub open spec fn backup_suffix() -> Seq<char> {
    seq!['.', 'b', 'a', 'k']
}

/// The path of the temporary sibling of `path`.
pub open spec fn temp_of(path: Seq<char>) -> Seq<char> {
    path + temp_suffix()
}

/// The path of the backup sibling of `path`.
pub open spec fn backup_of(path: Seq<char>) -> Seq<char> {
    path + backup_suffix()
}

/// The step with the given number, counted from zero.
pub open spec fn stage_at(n: nat) -> Stage {
    if n == 0 {
        Stage::WriteTemp
    } else if n == 1 {
        Stage::DropBackup
    } else if n == 2 {
        Stage::KeepBackup
    } else {
        Stage::Promote
    }
}

/// The operation that a step asks for when `contents` is to replace `path`.
pub open spec fn action_of(path: Seq<char>, contents: Seq<char>, stage: Stage) -> ActionView {
    match stage {
        Stage::WriteTemp => ActionView::Write { path: temp_of(path), contents },
        Stage::DropBackup => ActionView::Delete { path: backup_of(path) },
        Stage::KeepBackup => ActionView::Rename { from: path, to: backup_of(path) },
        Stage::Promote => ActionView::Rename { from: temp_of(path), to: path },
    }
}

/// Whether a step counts as taken after the file system reported `event`.
/// A missing file is no failure where an old backup is dropped or the
/// current file is moved aside: there may be none yet.
pub open spec fn passes(stage: Stage, event: FileEvent) -> bool {
    match event {
        FileEvent::Done => true,
        FileEvent::Missing => stage == Stage::DropBackup || stage == Stage::KeepBackup,
        FileEvent::Failed(_) => false,
    }
}

/// `perform` can be handed each operation that replacing `path` by
/// `contents` asks for.
pub open spec fn accepts<F: Fn(&FileAction) -> FileEvent>(
    perform: F,
    path: Seq<char>,
    contents: Seq<char>,
) -> bool {
    forall|a: FileAction|
        (a@ == action_of(path, contents, Stage::WriteTemp) || a@ == action_of(
            path,
            contents,
            Stage::DropBackup,
        ) || a@ == action_of(path, contents, Stage::KeepBackup) || a@ == action_of(
            path,
            contents,
            Stage::Promote,
        )) ==> #[trigger] call_requires(perform, (&a,))
}

/// What follows a step of which the file system reported `event`: the
/// error of that step where it does not pass, else the step to take next,
/// and none after the last one.
pub open spec fn next_of(stage: Stage, event: FileEvent) -> Result<Option<Stage>, UpdateError> {
    if !passes(stage, event) {
        Err(UpdateError { stage, event })
    } else {
        match stage {
            Stage::WriteTemp => Ok(Some(Stage::DropBackup)),
            Stage::DropBackup => Ok(Some(Stage::KeepBackup)),
            Stage::KeepBackup => Ok(Some(Stage::Promote)),
            Stage::Promote => Ok(None),
        }
    }
}

/// The number of steps that are still to take, `stage` among them.
pub open spec fn steps_left(stage: Option<Stage>) -> nat {
    match stage {
        Some(Stage::WriteTemp) => 4,
        Some(Stage::DropBackup) => 3,
        Some(Stage::KeepBackup) => 2,
        Some(Stage::Promote) => 1,
        None => 0,
    }
}

/// `r` is what a replacement that has come to `stage` ends with, when the
/// operation of each step is handed to `perform` and `next_of` says what
/// follows it.
pub open spec fn ends_with<F: Fn(&FileAction) -> FileEvent>(
    perform: F,
    path: Seq<char>,
    contents: Seq<char>,
    stage: Option<Stage>,
    r: Result<(), UpdateError>,
) -> bool
    decreases steps_left(stage),
{
    match stage {
        None => r == Ok::<(), UpdateError>(()),
        Some(s) => exists|a: FileAction, e: FileEvent|
            a@ == action_of(path, contents, s) && #[trigger] call_ensures(perform, (&a,), e)
                && match next_of(s, e) {
                Err(err) => r == Err::<(), UpdateError>(err),
                Ok(next) => steps_left(next) < steps_left(stage) && ends_with(
                    perform,
                    path,
                    contents,
                    next,
                    r,
                ),
            },
    }
}

/// The path of the temporary sibling of `path`.
pub fn temp_path(path: &str) -> (r: String)
    ensures
        r@ == temp_of(path@),
{
    proof {
        reveal_strlit(".tmp");
        assert(".tmp"@ =~= temp_suffix());
    }
    path.to_owned().concat(".tmp")
}

/// The path of the backup sibling of `path`.
pub fn backup_path(path: &str) -> (r: String)
    ensures
        r@ == backup_of(path@),
{
    proof {
        reveal_strlit(".bak");
        assert(".bak"@ =~= backup_suffix());
    }
    path.to_owned().concat(".bak")
}

/// The operation that `stage` asks for when `contents` is to replace `path`.
pub fn stage_action(path: &str, contents: &str, stage: Stage) -> (a: FileAction)
    ensures
        a@ == action_of(path@, contents@, stage),
{
    match stage {
        Stage::WriteTemp => FileAction::Write {
            path: temp_path(path),
            contents: contents.to_owned(),
        },
        Stage::DropBackup => FileAction::Delete { path: backup_path(path) },
        Stage::KeepBackup => FileAction::Rename { from: path.to_owned(), to: backup_path(path) },
        Stage::Promote => FileAction::Rename { from: temp_path(path), to: path.to_owned() },
    }
}

/// Whether `stage` counts as taken after the file system reported `event`.
pub fn stage_passes(stage: Stage, event: &FileEvent) -> (r: bool)
    ensures
        r == passes(stage, *event),
{
    match event {
        FileEvent::Done => true,
        FileEvent::Missing => match stage {
            Stage::DropBackup => true,
            Stage::KeepBackup => true,
            _ => false,
        },
        FileEvent::Failed(_) => false,
    }
}

/// Says what follows a step of which the file system reported `event`.
pub fn next_stage(stage: Stage, event: FileEvent) -> (r: Result<Option<Stage>, UpdateError>)
    ensures
        r == next_of(stage, event),
{
    if !stage_passes(stage, &event) {
        return Err(UpdateError { stage, event });
    }
    match stage {
        Stage::WriteTemp => Ok(Some(Stage::DropBackup)),
        Stage::DropBackup => Ok(Some(Stage::KeepBackup)),
        Stage::KeepBackup => Ok(Some(Stage::Promote)),
        Stage::Promote => Ok(None),
    }
}

/// Takes the steps from `stage` on.
fn update_from<F: Fn(&FileAction) -> FileEvent>(
    path: &str,
    contents: &str,
    perform: &F,
    stage: Stage,
) -> (r: Result<(), UpdateError>)
    requires
        accepts(*perform, path@, contents@),
    ensures
        ends_with(*perform, path@, contents@, Some(stage), r),
    decreases steps_left(Some(stage)),
{
    let action = stage_action(path, contents, stage);
    let event = perform(&action);
    let ghost seen = event;
    let r = match next_stage(stage, event) {
        Err(err) => Err(err),
        Ok(None) => Ok(()),
        Ok(Some(next)) => update_from(path, contents, perform, next),
    };
    proof {
        assert(call_ensures(*perform, (&action,), seen));
        if next_of(stage, seen) == Ok::<Option<Stage>, UpdateError>(None) {
            assert(ends_with(*perform, path@, contents@, None, r));
        }
    }
    r
}

/// Replaces the file at `path` by one that holds `contents`, handing each
/// file operation to `perform`: the new contents are written to the
/// temporary sibling, the old backup is deleted, the current file becomes
/// the backup, and the temporary file takes its place. After each
/// operation `next_stage` decides what follows: the first step that does
/// not pass ends the replacement with its error.
pub fn update_file<F: Fn(&FileAction) -> FileEvent>(path: &str, contents: &str, perform: F) -> (r:
    Result<(), UpdateError>)
    requires
        accepts(perform, path@, contents@),
    ensures
        ends_with(perform, path@, contents@, Some(Stage::WriteTemp), r),
{
    update_from(path, contents, &perform, Stage::WriteTemp)
}

/// The files of one directory: what each path that exists holds.
pub type Files = Map<Seq<char>, Seq<char>>;

/// What an operation leaves of `files` once it is carried out. To delete or
/// to move a file that does not exist changes nothing, and neither do
/// directories or a look at a path.
pub open spec fn carried_out(files: Files, action: ActionView) -> Files {
    match action {
        ActionView::Write { path, contents } => files.insert(path, contents),
        ActionView::Delete { path } => files.remove(path),
        ActionView::Rename { from, to } => if files.dom().contains(from) {
            files.remove(from).insert(to, files[from])
        } else {
            files
        },
        ActionView::CreateDirs { path } => files,
        ActionView::Probe { path } => files,
    }
}

/// The files after the first `n` steps of replacing `path` by `contents`
/// were carried out on `files`.
pub open spec fn after_steps(files: Files, path: Seq<char>, contents: Seq<char>, n: nat) -> Files
    decreases n,
{
    if n == 0 {
        files
    } else {
        carried_out(
            after_steps(files, path, contents, (n - 1) as nat),
            action_of(path, contents, stage_at((n - 1) as nat)),
        )
    }
}

/// `after` differs from `before` at most in what stands at `path`.
pub open spec fn same_but_at(before: Files, after: Files, path: Seq<char>) -> bool {
    forall|p: Seq<char>|
        p != path ==> (before.dom().contains(p) <==> #[trigger] after.dom().contains(p)) && (
        before.dom().contains(p) ==> after[p] == before[p])
}

/// A file, its temporary sibling and its backup sibling are three
/// different paths.
pub proof fn lemma_siblings_differ(path: Seq<char>)
    ensures
        temp_of(path) != path,
        backup_of(path) != path,
        temp_of(path) != backup_of(path),
{
    assert(temp_of(path).len() == path.len() + 4);
    assert(backup_of(path).len() == path.len() + 4);
    assert(temp_of(path)[path.len() as int + 3] == 'p');
    assert(backup_of(path)[path.len() as int + 3] == 'k');
}

/// Where the first step does not pass, the replacement ends there, with
/// the error of that step.
pub proof fn lemma_failed_write_ends_update<F: Fn(&FileAction) -> FileEvent>(
    perform: F,
    path: Seq<char>,
    contents: Seq<char>,
    r: Result<(), UpdateError>,
)
    requires
        ends_with(perform, path, contents, Some(Stage::WriteTemp), r),
        forall|a: FileAction, e: FileEvent|
            a@ == action_of(path, contents, Stage::WriteTemp) && #[trigger] call_ensures(
                perform,
                (&a,),
                e,
            ) ==> !passes(Stage::WriteTemp, e),
    ensures
        r.is_err(),
        r.unwrap_err().stage == Stage::WriteTemp,
{
}

/// Where the file system carries out whatever it is asked, the
/// replacement succeeds.
pub proof fn lemma_all_done_ends_ok<F: Fn(&FileAction) -> FileEvent>(
    perform: F,
    path: Seq<char>,
    contents: Seq<char>,
    r: Result<(), UpdateError>,
)
    requires
        ends_with(perform, path, contents, Some(Stage::WriteTemp), r),
        forall|a: FileAction, e: FileEvent| #[trigger]
            call_ensures(perform, (&a,), e) ==> e == FileEvent::Done,
    ensures
        r.is_ok(),
{
    reveal_with_fuel(ends_with, 5);
}

/// Between the third and the fourth step the temporary sibling holds the
/// new contents, nothing stands at the file's own path, and the backup
/// sibling holds what the file held before the replacement, if it existed.
pub proof fn lemma_between_backup_and_promote(files: Files, path: Seq<char>, contents: Seq<char>)
    ensures
        ({
            let halted = after_steps(files, path, contents, 3);
            &&& halted.dom().contains(temp_of(path))
            &&& halted[temp_of(path)] == contents
            &&& !halted.dom().contains(path)
            &&& files.dom().contains(path) ==> halted.dom().contains(backup_of(path))
                && halted[backup_of(path)] == files[path]
            &&& !files.dom().contains(path) ==> !halted.dom().contains(backup_of(path))
        }),
{
    lemma_siblings_differ(path);
    reveal_with_fuel(after_steps, 4);
}

/// After all four steps the file holds the new contents, the backup
/// sibling holds what the file held before, if it existed, the temporary
/// sibling is gone, and every other path is as it was.
pub proof fn lemma_all_steps_replace(files: Files, path: Seq<char>, contents: Seq<char>)
    ensures
        ({
            let replaced = after_steps(files, path, contents, 4);
            &&& replaced.dom().contains(path)
            &&& replaced[path] == contents
            &&& !replaced.dom().contains(temp_of(path))
            &&& files.dom().contains(path) ==> replaced.dom().contains(backup_of(path))
                && replaced[backup_of(path)] == files[path]
            &&& !files.dom().contains(path) ==> !replaced.dom().contains(backup_of(path))
            &&& forall|p: Seq<char>|
                p != path && p != temp_of(path) && p != backup_of(path) ==> (files.dom().contains(
                    p,
                ) <==> #[trigger] replaced.dom().contains(p)) && (files.dom().contains(p)
                    ==> replaced[p] == files[p])
        }),
{
    lemma_siblings_differ(path);
    reveal_with_fuel(after_steps, 5);
}

/// The steps counted from zero are the steps in the order in which
/// `next_of` lets them follow each other.
pub proof fn lemma_steps_follow_next(n: nat)
    requires
        n < 4,
    ensures
        stage_at(0) == Stage::WriteTemp,
        n < 3 ==> next_of(stage_at(n), FileEvent::Done) == Ok::<Option<Stage>, UpdateError>(
            Some(stage_at(n + 1)),
        ),
        n == 3 ==> next_of(stage_at(n), FileEvent::Done) == Ok::<Option<Stage>, UpdateError>(None),
{
}

/// The operations that are asked for from `stage` on while the file system
/// reports `events` in turn, as `next_of` lets the steps follow each other.
pub open spec fn asked(
    path: Seq<char>,
    contents: Seq<char>,
    stage: Option<Stage>,
    events: Seq<FileEvent>,
) -> Seq<ActionView>
    decreases events.len(),
{
    match stage {
        None => Seq::empty(),
        Some(s) => if events.len() == 0 {
            Seq::empty()
        } else {
            seq![action_of(path, contents, s)] + match next_of(s, events[0]) {
                Err(_) => Seq::empty(),
                Ok(next) => asked(path, contents, next, events.drop_first()),
            }
        },
    }
}

/// What a replacement that has come to `stage` ends with when the file
/// system reports exactly `events` in turn: nothing where the events end
/// before the steps do, or go on after them.
pub open spec fn outcome(stage: Option<Stage>, events: Seq<FileEvent>) -> Option<
    Result<(), UpdateError>,
>
    decreases events.len(),
{
    match stage {
        None => if events.len() == 0 {
            Some(Ok(()))
        } else {
            None
        },
        Some(s) => if events.len() == 0 {
            None
        } else {
            match next_of(s, events[0]) {
                Err(err) => if events.len() == 1 {
                    Some(Err(err))
                } else {
                    None
                },
                Ok(next) => outcome(next, events.drop_first()),
            }
        },
    }
}

/// `perform` was handed the operation `op` and answered with `event`.
pub open spec fn answers<F: Fn(&FileAction) -> FileEvent>(
    perform: F,
    op: ActionView,
    event: FileEvent,
) -> bool {
    exists|a: FileAction| a@ == op && #[trigger] call_ensures(perform, (&a,), event)
}

/// `perform` answered each operation of `ops` with the event at its place.
pub open spec fn answered<F: Fn(&FileAction) -> FileEvent>(
    perform: F,
    ops: Seq<ActionView>,
    events: Seq<FileEvent>,
) -> bool {
    &&& ops.len() == events.len()
    &&& forall|i: int| 0 <= i < ops.len() ==> #[trigger] answers(perform, ops[i], events[i])
}

/// The result of a replacement is the result of a run of the steps: there
/// are events with which `perform` answered the operations that `asked`
/// gives for them, one after the other, and for which `outcome` gives `r`.
pub proof fn lemma_update_follows_the_steps<F: Fn(&FileAction) -> FileEvent>(
    perform: F,
    path: Seq<char>,
    contents: Seq<char>,
    stage: Option<Stage>,
    r: Result<(), UpdateError>,
)
    requires
        ends_with(perform, path, contents, stage, r),
    ensures
        exists|events: Seq<FileEvent>| #[trigger]
            outcome(stage, events) == Some(r) && answered(
                perform,
                asked(path, contents, stage, events),
                events,
            ),
    decreases steps_left(stage),
{
    match stage {
        None => {
            let events = Seq::<FileEvent>::empty();
            assert(outcome(stage, events) == Some(r));
            assert(answered(perform, asked(path, contents, stage, events), events));
        },
        Some(s) => {
            let (a, e) = choose|a: FileAction, e: FileEvent|
                a@ == action_of(path, contents, s) && #[trigger] call_ensures(perform, (&a,), e)
                    && match next_of(s, e) {
                    Err(err) => r == Err::<(), UpdateError>(err),
                    Ok(next) => steps_left(next) < steps_left(stage) && ends_with(
                        perform,
                        path,
                        contents,
                        next,
                        r,
                    ),
                };
            let op = action_of(path, contents, s);
            assert(answers(perform, op, e));
            match next_of(s, e) {
                Err(err) => {
                    let events = seq![e];
                    assert(asked(path, contents, stage, events) =~= seq![op]);
                    assert(outcome(stage, events) == Some(r));
                    assert(answered(perform, asked(path, contents, stage, events), events));
                },
                Ok(next) => {
                    lemma_update_follows_the_steps(perform, path, contents, next, r);
                    let rest = choose|events: Seq<FileEvent>| #[trigger]
                        outcome(next, events) == Some(r) && answered(
                            perform,
                            asked(path, contents, next, events),
                            events,
                        );
                    let events = seq![e] + rest;
                    assert(events.drop_first() =~= rest);
                    assert(events[0] == e);
                    let ops = asked(path, contents, stage, events);
                    let later = asked(path, contents, next, rest);
                    assert(ops =~= seq![op] + later);
                    assert(outcome(stage, events) == Some(r));
                    assert forall|i: int| 0 <= i < ops.len() implies #[trigger] answers(
                        perform,
                        ops[i],
                        events[i],
                    ) by {
                        if i > 0 {
                            assert(answers(perform, later[i - 1], rest[i - 1]));
                        }
                    }
                    assert(answered(perform, ops, events));
                },
            }
        },
    }
}

/// What one operation leaves of `files` when the file system reports
/// `event` of it. One that was carried out has its effect, one whose file
/// is missing has none. One that failed has none either, but for a write:
/// that may leave at its own path nothing, or a file that holds `residue`.
pub open spec fn left_by(
    files: Files,
    action: ActionView,
    event: FileEvent,
    residue: Option<Seq<char>>,
) -> Files {
    match event {
        FileEvent::Done => carried_out(files, action),
        FileEvent::Missing => files,
        FileEvent::Failed(_) => match action {
            ActionView::Write { path, contents } => match residue {
                Some(held) => files.insert(path, held),
                None => files.remove(path),
            },
            _ => files,
        },
    }
}

/// The files at the moment at which the steps from `stage` on have been
/// asked for as far as `events` reach.
pub open spec fn files_after(
    files: Files,
    path: Seq<char>,
    contents: Seq<char>,
    stage: Option<Stage>,
    events: Seq<FileEvent>,
    residue: Option<Seq<char>>,
) -> Files
    decreases events.len(),
{
    match stage {
        None => files,
        Some(s) => if events.len() == 0 {
            files
        } else {
            let now = left_by(files, action_of(path, contents, s), events[0], residue);
            match next_of(s, events[0]) {
                Err(_) => now,
                Ok(next) => files_after(now, path, contents, next, events.drop_first(), residue),
            }
        },
    }
}

/// After a first step that did not pass nothing else is asked for, and
/// every path but that of the temporary sibling is as it was: the file and
/// its backup among them.
pub proof fn lemma_failed_write_changes_nothing(
    files: Files,
    path: Seq<char>,
    contents: Seq<char>,
    events: Seq<FileEvent>,
    residue: Option<Seq<char>>,
)
    requires
        events.len() > 0,
        !passes(Stage::WriteTemp, events[0]),
    ensures
        asked(path, contents, Some(Stage::WriteTemp), events) == seq![
            ActionView::Write { path: temp_of(path), contents },
        ],
        same_but_at(
            files,
            files_after(files, path, contents, Some(Stage::WriteTemp), events, residue),
            temp_of(path),
        ),
        temp_of(path) != path,
        temp_of(path) != backup_of(path),
{
    lemma_siblings_differ(path);
    assert(asked(path, contents, Some(Stage::WriteTemp), events) =~= seq![
        ActionView::Write { path: temp_of(path), contents },
    ]);
}

/// After a second or third step that failed nothing else is asked for:
/// the file holds what it held, and the temporary sibling holds the new
/// contents.
pub proof fn lemma_failure_ends_the_steps(
    files: Files,
    path: Seq<char>,
    contents: Seq<char>,
    events: Seq<FileEvent>,
    residue: Option<Seq<char>>,
    k: int,
)
    requires
        1 <= k <= 2,
        k < events.len(),
        forall|i: int| 0 <= i < k ==> passes(stage_at(i as nat), #[trigger] events[i]),
        events[k] is Failed,
        files.dom().contains(path),
    ensures
        asked(path, contents, Some(Stage::WriteTemp), events).len() == k + 1,
        ({
            let end = files_after(files, path, contents, Some(Stage::WriteTemp), events, residue);
            &&& end.dom().contains(path)
            &&& end[path] == files[path]
            &&& end.dom().contains(temp_of(path))
            &&& end[temp_of(path)] == contents
        }),
{
    lemma_siblings_differ(path);
    reveal_with_fuel(asked, 4);
    reveal_with_fuel(files_after, 4);
    assert(passes(stage_at(0), events[0]));
    let rest = events.drop_first();
    assert(rest[0] == events[1]);
    if k == 2 {
        assert(passes(stage_at(1), events[1]));
        assert(rest.drop_first()[0] == events[2]);
    }
}

/// At every moment of a replacement what the file held before stands at
/// the file's own path or at the backup sibling, and once the first step
/// is taken the new contents stand at the temporary sibling or at the
/// file's own path. A file that is there is not reported missing when it
/// is moved aside.
pub proof fn lemma_content_is_never_lost(
    files: Files,
    path: Seq<char>,
    contents: Seq<char>,
    events: Seq<FileEvent>,
    residue: Option<Seq<char>>,
)
    requires
        files.dom().contains(path),
        events.len() > 2 ==> events[2] != FileEvent::Missing,
    ensures
        ({
            let now = files_after(files, path, contents, Some(Stage::WriteTemp), events, residue);
            &&& (now.dom().contains(path) && now[path] == files[path]) || (now.dom().contains(
                backup_of(path),
            ) && now[backup_of(path)] == files[path])
            &&& events.len() > 0 && events[0] == FileEvent::Done ==> (now.dom().contains(
                temp_of(path),
            ) && now[temp_of(path)] == contents) || (now.dom().contains(path) && now[path]
                == contents)
        }),
{
    lemma_siblings_differ(path);
    reveal_with_fuel(files_after, 6);
    if events.len() > 0 {
        let e1 = events.drop_first();
        if e1.len() > 0 {
            assert(e1[0] == events[1]);
            let e2 = e1.drop_first();
            if e2.len() > 0 {
                assert(e2[0] == events[2]);
                let e3 = e2.drop_first();
                if e3.len() > 0 {
                    assert(e3[0] == events[3]);
                }
            }
        }
    }
}

} // verus!
