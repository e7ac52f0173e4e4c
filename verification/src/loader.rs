//! Locating the store's file in the user's data directory, and creating it
//! with its first contents where it does not exist yet.

use crate::file_management::{
    accepts, action_of, answered, answers, carried_out, next_of, next_stage, stage_action,
    steps_left, ActionView, FileAction, FileEvent, Files, Stage, UpdateError,
};
use crate::command_map::{pair_views, pairs_map};
use crate::model::FileJson;
use directories_next::ProjectDirs;
use vstd::prelude::*;

verus! {

/// The directories that the platform assigns to one application.
#[verifier::external_type_specification]
#[verifier::external_body]
pub struct ExProjectDirs(directories_next::ProjectDirs);

/// `directories_next::ProjectDirs::from`: the directories of the
/// application with these identifiers, or nothing where the platform names
/// no home directory. The answer depends on the user's system, so nothing is
/// claimed of it.
pub assume_specification[ directories_next::ProjectDirs::from ](
    qualifier: &str,
    organization: &str,
    application: &str,
) -> (dirs: Option<ProjectDirs>)
;

/// `directories_next::ProjectDirs::data_dir`, as text: the application's
/// data directory, or nothing where its path is not valid Unicode. Nothing
/// is claimed of the path.
#[verifier::external_body]
fn data_dir_text(dirs: &ProjectDirs) -> (dir: Option<String>) {
    dirs.data_dir().to_str().map(str::to_owned)
}

/// `s` ends with `t`.
pub open spec fn ends_in(s: Seq<char>, t: Seq<char>) -> bool {
    s.len() >= t.len() && s.subrange(s.len() - t.len(), s.len() as int) == t
}

/// `name` is the plain name of one file: it holds no character that
/// separates the parts of a path and no colon, and it is neither of the two
/// names of dots that stand for a directory itself and for the one above.
pub open spec fn plain_name(name: Seq<char>) -> bool {
    &&& forall|i: int|
        0 <= i < name.len() ==> name[i] != '/' && name[i] != '\\' && name[i] != ':'
    &&& name != seq!['.']
    &&& name != seq!['.', '.']
}

/// `std::path::Path::join`, on text: the path of `name` inside `dir`. The
/// separator is the platform's, so of the result only this is claimed: the
/// plain name of a file, which is no path of its own and which no platform
/// resolves away, is adjoined as it is, and the path ends with it.
#[verifier::external_body]
fn child_path(dir: &str, name: &str) -> (path: String)
    requires
        plain_name(name@),
    ensures
        ends_in(path@, name@),
{
    std::path::Path::new(dir).join(name).to_string_lossy().into_owned()
}

/// Why the store's file could not be made ready.
#[derive(Debug, PartialEq, Eq)]
pub enum InitError {
    /// The platform names no data directory for the application.
    NoDataDir,
    /// The platform names a data directory whose path is not valid Unicode,
    /// so that it cannot be held as text.
    DataDirNotText,
    /// The data directory could not be created; the event says why.
    CreateDirs(FileEvent),
    /// The first contents could not be written.
    Write(UpdateError),
}

/// The qualifier under which the platform files this tool.
pub open spec fn qualifier() -> Seq<char> {
    seq!['c', 'o', 'm']
}

/// The organization under which the platform files this tool.
pub open spec fn organization() -> Seq<char> {
    seq!['Q', 'u', 'i', 'c', 'k', 'C', 'm', 'd']
}

/// The name under which the platform files this tool.
pub open spec fn application() -> Seq<char> {
    seq!['q', 'c']
}

/// The name of the store's file inside the data directory.
pub open spec fn file_name() -> Seq<char> {
    seq!['c', 'm', 'd', 's', '.', 'j', 's', 'o', 'n']
}

/// The qualifier, the organization and the name by which the platform is
/// asked for this tool's directories.
pub fn application_ids() -> (ids: (&'static str, &'static str, &'static str))
    ensures
        ids.0@ == qualifier(),
        ids.1@ == organization(),
        ids.2@ == application(),
{
    proof {
        reveal_strlit("com");
        reveal_strlit("QuickCmd");
        reveal_strlit("qc");
        assert("com"@ =~= qualifier());
        assert("QuickCmd"@ =~= organization());
        assert("qc"@ =~= application());
    }
    ("com", "QuickCmd", "qc")
}

/// The name of the store's file inside the data directory.
pub fn store_file_name() -> (name: &'static str)
    ensures
        name@ == file_name(),
        plain_name(name@),
{
    proof {
        reveal_strlit("cmds.json");
        assert("cmds.json"@ =~= file_name());
        assert(file_name().len() == 9);
    }
    "cmds.json"
}

/// The steps of making the store's file ready.
#[derive(Clone, Copy, Debug, PartialEq, Eq)]
pub enum SetupStage {
    /// Create the data directory and every missing directory above it.
    MakeDirs,
    /// Look whether the file exists.
    Probe,
    /// Write the first contents, by this step of a replacement.
    Write(Stage),
}

/// The operation that a step of the setup asks for.
pub open spec fn setup_action_of(
    dir: Seq<char>,
    file: Seq<char>,
    initial: Seq<char>,
    stage: SetupStage,
) -> ActionView {
    match stage {
        SetupStage::MakeDirs => ActionView::CreateDirs { path: dir },
        SetupStage::Probe => ActionView::Probe { path: file },
        SetupStage::Write(s) => action_of(file, initial, s),
    }
}

/// What follows a step of the setup of which the file system reported
/// `event`. A directory that cannot be created ends the setup with its
/// error. A file that is found ends it with success: nothing is written.
/// A file that is not found is written by the steps of a replacement.
pub open spec fn next_setup_of(stage: SetupStage, event: FileEvent) -> Result<
    Option<SetupStage>,
    InitError,
> {
    match stage {
        SetupStage::MakeDirs => if event == FileEvent::Done {
            Ok(Some(SetupStage::Probe))
        } else {
            Err(InitError::CreateDirs(event))
        },
        SetupStage::Probe => if event == FileEvent::Done {
            Ok(None)
        } else {
            Ok(Some(SetupStage::Write(Stage::WriteTemp)))
        },
        SetupStage::Write(s) => match next_of(s, event) {
            Err(err) => Err(InitError::Write(err)),
            Ok(Some(next)) => Ok(Some(SetupStage::Write(next))),
            Ok(None) => Ok(None),
        },
    }
}

/// The number of steps of the setup that may still be taken.
pub open spec fn setup_left(stage: Option<SetupStage>) -> nat {
    match stage {
        Some(SetupStage::MakeDirs) => 6,
        Some(SetupStage::Probe) => 5,
        Some(SetupStage::Write(s)) => steps_left(Some(s)),
        None => 0,
    }
}

/// `perform` can be handed each operation that making `file` ready inside
/// `dir` asks for.
pub open spec fn accepts_setup<F: Fn(&FileAction) -> FileEvent>(
    perform: F,
    dir: Seq<char>,
    file: Seq<char>,
    initial: Seq<char>,
) -> bool {
    &&& accepts(perform, file, initial)
    &&& forall|a: FileAction|
        (a@ == (ActionView::CreateDirs { path: dir }) || a@ == (ActionView::Probe { path: file }))
            ==> #[trigger] call_requires(perform, (&a,))
}

/// `r` is what a setup that has come to `stage` ends with, when the
/// operation of each step is handed to `perform` and `next_setup_of` says
/// what follows it.
pub open spec fn setup_ends<F: Fn(&FileAction) -> FileEvent>(
    perform: F,
    dir: Seq<char>,
    file: Seq<char>,
    initial: Seq<char>,
    stage: Option<SetupStage>,
    r: Result<(), InitError>,
) -> bool
    decreases setup_left(stage),
{
    match stage {
        None => r == Ok::<(), InitError>(()),
        Some(s) => exists|a: FileAction, e: FileEvent|
            a@ == setup_action_of(dir, file, initial, s) && #[trigger] call_ensures(
                perform,
                (&a,),
                e,
            ) && match next_setup_of(s, e) {
                Err(err) => r == Err::<(), InitError>(err),
                Ok(next) => setup_left(next) < setup_left(stage) && setup_ends(
                    perform,
                    dir,
                    file,
                    initial,
                    next,
                    r,
                ),
            },
    }
}

/// `r` is what making `file` ready inside `dir` ends with: the path of the
/// file where the setup succeeds, and its error where it does not.
pub open spec fn prepared<F: Fn(&FileAction) -> FileEvent>(
    perform: F,
    dir: Seq<char>,
    file: Seq<char>,
    initial: Seq<char>,
    r: Result<String, InitError>,
) -> bool {
    exists|w: Result<(), InitError>| #[trigger]
        setup_ends(perform, dir, file, initial, Some(SetupStage::MakeDirs), w) && match w {
            Ok(_) => r is Ok && r->Ok_0@ == file,
            Err(err) => r == Err::<String, InitError>(err),
        }
}

/// The operation that `stage` asks for.
pub fn setup_action(dir: &str, file: &str, initial: &str, stage: SetupStage) -> (a: FileAction)
    ensures
        a@ == setup_action_of(dir@, file@, initial@, stage),
{
    match stage {
        SetupStage::MakeDirs => FileAction::CreateDirs { path: dir.to_owned() },
        SetupStage::Probe => FileAction::Probe { path: file.to_owned() },
        SetupStage::Write(s) => stage_action(file, initial, s),
    }
}

/// Says what follows a step of the setup of which the file system
/// reported `event`.
pub fn next_setup(stage: SetupStage, event: FileEvent) -> (r: Result<Option<SetupStage>, InitError>)
    ensures
        r == next_setup_of(stage, event),
{
    match stage {
        SetupStage::MakeDirs => match event {
            FileEvent::Done => Ok(Some(SetupStage::Probe)),
            _ => Err(InitError::CreateDirs(event)),
        },
        SetupStage::Probe => match event {
            FileEvent::Done => Ok(None),
            _ => Ok(Some(SetupStage::Write(Stage::WriteTemp))),
        },
        SetupStage::Write(s) => match next_stage(s, event) {
            Err(err) => Err(InitError::Write(err)),
            Ok(Some(next)) => Ok(Some(SetupStage::Write(next))),
            Ok(None) => Ok(None),
        },
    }
}

/// Takes the steps of the setup from `stage` on.
fn setup_from<F: Fn(&FileAction) -> FileEvent>(
    dir: &str,
    file: &str,
    initial: &str,
    perform: &F,
    stage: SetupStage,
) -> (r: Result<(), InitError>)
    requires
        accepts_setup(*perform, dir@, file@, initial@),
    ensures
        setup_ends(*perform, dir@, file@, initial@, Some(stage), r),
    decreases setup_left(Some(stage)),
{
    let action = setup_action(dir, file, initial, stage);
    let event = perform(&action);
    let ghost seen = event;
    let r = match next_setup(stage, event) {
        Err(err) => Err(err),
        Ok(None) => Ok(()),
        Ok(Some(next)) => setup_from(dir, file, initial, perform, next),
    };
    proof {
        assert(call_ensures(*perform, (&action,), seen));
        if next_setup_of(stage, seen) == Ok::<Option<SetupStage>, InitError>(None) {
            assert(setup_ends(*perform, dir@, file@, initial@, None, r));
        }
    }
    r
}

/// Makes `file` ready inside `dir`: creates the directory and all missing
/// ones above it, and writes `initial` to the file unless it exists. After
/// each operation `next_setup` decides what follows. On success the result
/// is `file`.
pub fn prepare_file<F: Fn(&FileAction) -> FileEvent>(
    dir: &str,
    file: String,
    initial: &str,
    perform: &F,
) -> (r: Result<String, InitError>)
    requires
        accepts_setup(*perform, dir@, file@, initial@),
    ensures
        prepared(*perform, dir@, file@, initial@, r),
{
    let done = setup_from(dir, file.as_str(), initial, perform, SetupStage::MakeDirs);
    match done {
        Ok(_) => Ok(file),
        Err(err) => Err(err),
    }
}

/// Makes the store's file ready at the place that the platform gave: with
/// no place there is nothing to do but to say so, and `perform` is not
/// needed; with a directory and the file's path in it, the file is made
/// ready there.
pub fn locate_file<F: Fn(&FileAction) -> FileEvent>(
    place: Option<(String, String)>,
    initial: &str,
    perform: &F,
) -> (r: Result<String, InitError>)
    requires
        place matches Some(p) ==> accepts_setup(*perform, p.0@, p.1@, initial@),
    ensures
        place is None ==> r == Err::<String, InitError>(InitError::NoDataDir),
        place matches Some(p) ==> prepared(*perform, p.0@, p.1@, initial@, r),
{
    match place {
        None => Err(InitError::NoDataDir),
        Some(p) => prepare_file(p.0.as_str(), p.1, initial, perform),
    }
}

/// Finds the store's file in the data directory that the platform assigns
/// to this tool and makes it ready, with `initial` as its first contents.
/// The platform is asked with the identifiers of `application_ids`, and the
/// file carries the name of `store_file_name`. Where the platform names no
/// directory the result is `NoDataDir`, and where it names one that cannot
/// be held as text, `DataDirNotText`.
pub fn check_or_create_file<F: Fn(&FileAction) -> FileEvent>(initial: &str, perform: F) -> (r:
    Result<String, InitError>)
    requires
        forall|a: FileAction| call_requires(perform, (&a,)),
    ensures
        r == Err::<String, InitError>(InitError::NoDataDir) || r == Err::<String, InitError>(
            InitError::DataDirNotText,
        ) || exists|dir: Seq<char>, file: Seq<char>|
            ends_in(file, file_name()) && #[trigger] prepared(perform, dir, file, initial@, r),
{
    let ids = application_ids();
    match ProjectDirs::from(ids.0, ids.1, ids.2) {
        None => locate_file(None, initial, &perform),
        Some(dirs) => match data_dir_text(&dirs) {
            None => Err(InitError::DataDirNotText),
            Some(dir) => {
                let file = child_path(dir.as_str(), store_file_name());
                locate_file(Some((dir, file)), initial, &perform)
            },
        },
    }
}

/// The operations that the setup asks for from `stage` on while the file
/// system reports `events` in turn, as `next_setup_of` lets the steps follow
/// each other.
pub open spec fn setup_asked(
    dir: Seq<char>,
    file: Seq<char>,
    initial: Seq<char>,
    stage: Option<SetupStage>,
    events: Seq<FileEvent>,
) -> Seq<ActionView>
    decreases events.len(),
{
    match stage {
        None => Seq::empty(),
        Some(s) => if events.len() == 0 {
            Seq::empty()
        } else {
            seq![setup_action_of(dir, file, initial, s)] + match next_setup_of(s, events[0]) {
                Err(_) => Seq::empty(),
                Ok(next) => setup_asked(dir, file, initial, next, events.drop_first()),
            }
        },
    }
}

/// What a setup that has come to `stage` ends with when the file system
/// reports exactly `events` in turn: nothing where the events end before
/// the steps do, or go on after them.
pub open spec fn setup_outcome(stage: Option<SetupStage>, events: Seq<FileEvent>) -> Option<
    Result<(), InitError>,
>
    decreases events.len(),
{
    match stage {
        None => if events.len() == 0 {
            Some(Ok(()))
        } else {
            None
        },
        Some(s) => if events.len() == 0 {
            None
        } else {
            match next_setup_of(s, events[0]) {
                Err(err) => if events.len() == 1 {
                    Some(Err(err))
                } else {
                    None
                },
                Ok(next) => setup_outcome(next, events.drop_first()),
            }
        },
    }
}

/// The result of a setup is the result of a run of its steps: there are
/// events with which `perform` answered the operations that `setup_asked`
/// gives for them, one after the other, and for which `setup_outcome`
/// gives `r`.
pub proof fn lemma_setup_follows_the_steps<F: Fn(&FileAction) -> FileEvent>(
    perform: F,
    dir: Seq<char>,
    file: Seq<char>,
    initial: Seq<char>,
    stage: Option<SetupStage>,
    r: Result<(), InitError>,
)
    requires
        setup_ends(perform, dir, file, initial, stage, r),
    ensures
        exists|events: Seq<FileEvent>| #[trigger]
            setup_outcome(stage, events) == Some(r) && answered(
                perform,
                setup_asked(dir, file, initial, stage, events),
                events,
            ),
    decreases setup_left(stage),
{
    match stage {
        None => {
            let events = Seq::<FileEvent>::empty();
            assert(setup_outcome(stage, events) == Some(r));
            assert(answered(perform, setup_asked(dir, file, initial, stage, events), events));
        },
        Some(s) => {
            let (a, e) = choose|a: FileAction, e: FileEvent|
                a@ == setup_action_of(dir, file, initial, s) && #[trigger] call_ensures(
                    perform,
                    (&a,),
                    e,
                ) && match next_setup_of(s, e) {
                    Err(err) => r == Err::<(), InitError>(err),
                    Ok(next) => setup_left(next) < setup_left(stage) && setup_ends(
                        perform,
                        dir,
                        file,
                        initial,
                        next,
                        r,
                    ),
                };
            let op = setup_action_of(dir, file, initial, s);
            assert(answers(perform, op, e));
            match next_setup_of(s, e) {
                Err(err) => {
                    let events = seq![e];
                    assert(setup_asked(dir, file, initial, stage, events) =~= seq![op]);
                    assert(setup_outcome(stage, events) == Some(r));
                    assert(answered(
                        perform,
                        setup_asked(dir, file, initial, stage, events),
                        events,
                    ));
                },
                Ok(next) => {
                    lemma_setup_follows_the_steps(perform, dir, file, initial, next, r);
                    let rest = choose|events: Seq<FileEvent>| #[trigger]
                        setup_outcome(next, events) == Some(r) && answered(
                            perform,
                            setup_asked(dir, file, initial, next, events),
                            events,
                        );
                    let events = seq![e] + rest;
                    assert(events.drop_first() =~= rest);
                    assert(events[0] == e);
                    let ops = setup_asked(dir, file, initial, stage, events);
                    let later = setup_asked(dir, file, initial, next, rest);
                    assert(ops =~= seq![op] + later);
                    assert(setup_outcome(stage, events) == Some(r));
                    assert forall|i: int| 0 <= i < ops.len() implies #[trigger] answers(
                        perform,
                        ops[i],
                        events[i],
                    ) by {
                        if i > 0 {
                            assert(answers(perform, later[i - 1], rest[i - 1]));
                        }
                    }
                    assert(answered(perform, ops, events));
                },
            }
        },
    }
}

/// Where the directory can be created and the file is found, the setup
/// ends with the look at the file: no write, delete or move is asked for,
/// and the two operations that were asked for leave every file as it was.
pub proof fn lemma_found_file_is_kept(
    files: Files,
    dir: Seq<char>,
    file: Seq<char>,
    initial: Seq<char>,
)
    ensures
        next_setup_of(SetupStage::MakeDirs, FileEvent::Done) == Ok::<
            Option<SetupStage>,
            InitError,
        >(Some(SetupStage::Probe)),
        next_setup_of(SetupStage::Probe, FileEvent::Done) == Ok::<Option<SetupStage>, InitError>(
            None,
        ),
        carried_out(
            carried_out(files, setup_action_of(dir, file, initial, SetupStage::MakeDirs)),
            setup_action_of(dir, file, initial, SetupStage::Probe),
        ) == files,
        forall|events: Seq<FileEvent>|
            events.len() >= 2 && events[0] == FileEvent::Done && events[1] == FileEvent::Done
                ==> #[trigger] setup_asked(
                dir,
                file,
                initial,
                Some(SetupStage::MakeDirs),
                events,
            ) == seq![
                ActionView::CreateDirs { path: dir },
                ActionView::Probe { path: file },
            ],
{
    assert forall|events: Seq<FileEvent>|
        events.len() >= 2 && events[0] == FileEvent::Done && events[1]
            == FileEvent::Done implies #[trigger] setup_asked(
        dir,
        file,
        initial,
        Some(SetupStage::MakeDirs),
        events,
    ) == seq![ActionView::CreateDirs { path: dir }, ActionView::Probe { path: file }] by {
        reveal_with_fuel(setup_asked, 3);
        assert(events.drop_first()[0] == events[1]);
        assert(setup_asked(dir, file, initial, Some(SetupStage::MakeDirs), events) =~= seq![
            ActionView::CreateDirs { path: dir },
            ActionView::Probe { path: file },
        ]);
    }
}

/// Why the store could not be read from its file.
#[derive(Debug, PartialEq, Eq)]
pub enum LoadError {
    /// The file could not be read; the text says why.
    Io(String),
    /// The file does not hold a store; the text says why.
    Parse(String),
}

/// `r` is what reading a store ends with when `parse` is handed `text`.
pub open spec fn parsed_as<P: FnOnce(&str) -> Result<(u8, Vec<(String, String)>), String>>(
    parse: P,
    text: Seq<char>,
    r: Result<FileJson, LoadError>,
) -> bool {
    exists|t: &str, parsed: Result<(u8, Vec<(String, String)>), String>|
        t@ == text && #[trigger] call_ensures(parse, (t,), parsed) && match parsed {
            Err(why) => r == Err::<FileJson, LoadError>(LoadError::Parse(why)),
            Ok(plain) => r is Ok && r->Ok_0@.version == plain.0 && r->Ok_0@.commands == pairs_map(
                pair_views(plain.1@),
            ),
        }
}

/// Reads the store from the file at `path`: `read` fetches the file's
/// text and `parse` takes it apart into a version and pairs of alias and
/// command text. A failure of either is handed on as it is; nothing is
/// repaired.
pub fn read_cmd_file_contents<
    R: FnOnce(&str) -> Result<String, String>,
    P: FnOnce(&str) -> Result<(u8, Vec<(String, String)>), String>,
>(path: &str, read: R, parse: P) -> (r: Result<FileJson, LoadError>)
    requires
        forall|t: &str| t@ == path@ ==> #[trigger] call_requires(read, (t,)),
        forall|t: &str| #[trigger] call_requires(parse, (t,)),
    ensures
        exists|p: &str, got: Result<String, String>|
            p@ == path@ && #[trigger] call_ensures(read, (p,), got) && match got {
                Err(why) => r == Err::<FileJson, LoadError>(LoadError::Io(why)),
                Ok(text) => parsed_as(parse, text@, r),
            },
{
    match read(path) {
        Err(why) => Err(LoadError::Io(why)),
        Ok(text) => {
            let r = match parse(text.as_str()) {
                Err(why) => Err(LoadError::Parse(why)),
                Ok(plain) => Ok(FileJson::from_pairs(plain.0, &plain.1)),
            };
            proof {
                assert(parsed_as(parse, text@, r));
            }
            r
        },
    }
}

} // verus!
