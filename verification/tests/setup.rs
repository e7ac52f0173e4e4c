use quickcmd::file_management::{FileAction, FileEvent, Stage, UpdateError};
use quickcmd::loader::{
    check_or_create_file, next_setup, prepare_file, setup_action, InitError, SetupStage,
};
use std::cell::RefCell;
use std::collections::HashMap;

struct Disk {
    files: RefCell<HashMap<String, String>>,
    dirs: RefCell<Vec<String>>,
    asked: RefCell<usize>,
}

fn disk(pairs: &[(&str, &str)]) -> Disk {
    Disk {
        files: RefCell::new(pairs.iter().map(|(p, c)| (p.to_string(), c.to_string())).collect()),
        dirs: RefCell::new(Vec::new()),
        asked: RefCell::new(0),
    }
}

fn serve(disk: &Disk, action: &FileAction) -> FileEvent {
    *disk.asked.borrow_mut() += 1;
    let mut files = disk.files.borrow_mut();
    match action {
        FileAction::Write { path, contents } => {
            files.insert(path.clone(), contents.clone());
            FileEvent::Done
        }
        FileAction::Delete { path } => match files.remove(path) {
            Some(_) => FileEvent::Done,
            None => FileEvent::Missing,
        },
        FileAction::Rename { from, to } => match files.remove(from) {
            Some(held) => {
                files.insert(to.clone(), held);
                FileEvent::Done
            }
            None => FileEvent::Missing,
        },
        FileAction::CreateDirs { path } => {
            disk.dirs.borrow_mut().push(path.clone());
            FileEvent::Done
        }
        FileAction::Probe { path } => {
            if files.contains_key(path) {
                FileEvent::Done
            } else {
                FileEvent::Missing
            }
        }
    }
}

#[test]
fn a_missing_file_is_written_with_the_first_contents() {
    let d = disk(&[]);
    let perform = |a: &FileAction| serve(&d, a);
    let r = prepare_file("/data/qc", "/data/qc/cmds.json".to_string(), "{}", &perform);
    assert_eq!(r, Ok("/data/qc/cmds.json".to_string()));
    assert_eq!(*d.dirs.borrow(), vec!["/data/qc".to_string()]);
    let files = d.files.borrow();
    assert_eq!(files.get("/data/qc/cmds.json").map(String::as_str), Some("{}"));
    assert_eq!(files.len(), 1);
}

#[test]
fn an_existing_file_is_left_as_it_is() {
    let d = disk(&[("/data/qc/cmds.json", "kept")]);
    let perform = |a: &FileAction| serve(&d, a);
    let r = prepare_file("/data/qc", "/data/qc/cmds.json".to_string(), "{}", &perform);
    assert_eq!(r, Ok("/data/qc/cmds.json".to_string()));
    assert_eq!(*d.asked.borrow(), 2);
    let files = d.files.borrow();
    assert_eq!(files.get("/data/qc/cmds.json").map(String::as_str), Some("kept"));
    assert_eq!(files.len(), 1);
}

#[test]
fn a_directory_that_cannot_be_created_ends_the_setup() {
    let d = disk(&[]);
    let perform = |a: &FileAction| match a {
        FileAction::CreateDirs { .. } => FileEvent::Failed("read-only".to_string()),
        _ => serve(&d, a),
    };
    let r = prepare_file("/data/qc", "/data/qc/cmds.json".to_string(), "{}", &perform);
    assert_eq!(r, Err(InitError::CreateDirs(FileEvent::Failed("read-only".to_string()))));
    assert_eq!(*d.asked.borrow(), 0);
    assert!(d.files.borrow().is_empty());
}

#[test]
fn a_failed_first_write_is_reported_with_its_stage() {
    let d = disk(&[]);
    let perform = |a: &FileAction| match a {
        FileAction::Write { .. } => FileEvent::Failed("disk full".to_string()),
        _ => serve(&d, a),
    };
    let r = prepare_file("/data/qc", "/data/qc/cmds.json".to_string(), "{}", &perform);
    assert_eq!(
        r,
        Err(InitError::Write(UpdateError {
            stage: Stage::WriteTemp,
            event: FileEvent::Failed("disk full".to_string())
        }))
    );
    assert!(d.files.borrow().is_empty());
}

#[test]
fn the_store_file_is_sought_in_the_data_directory() {
    let d = disk(&[]);
    let r = check_or_create_file("first", |a: &FileAction| serve(&d, a));
    match r {
        Ok(path) => {
            assert!(path.ends_with("cmds.json"));
            assert_eq!(d.dirs.borrow().len(), 1);
            assert!(path.starts_with(d.dirs.borrow()[0].as_str()));
            assert_eq!(d.files.borrow().get(&path).map(String::as_str), Some("first"));
        }
        Err(e) => {
            assert!(e == InitError::NoDataDir || e == InitError::DataDirNotText);
            assert_eq!(*d.asked.borrow(), 0);
        }
    }
}

#[test]
fn a_file_that_cannot_be_read_is_an_io_error() {
    let r = quickcmd::loader::read_cmd_file_contents(
        "cmds.json",
        |_path: &str| Err("permission denied".to_string()),
        |_text: &str| panic!("nothing to parse"),
    );
    assert_eq!(
        r.err(),
        Some(quickcmd::loader::LoadError::Io("permission denied".to_string()))
    );
}

#[test]
fn a_file_that_holds_no_store_is_a_parse_error() {
    let r = quickcmd::loader::read_cmd_file_contents(
        "cmds.json",
        |path: &str| {
            assert_eq!(path, "cmds.json");
            Ok("{".to_string())
        },
        |text: &str| {
            assert_eq!(text, "{");
            Err("EOF while parsing".to_string())
        },
    );
    assert_eq!(
        r.err(),
        Some(quickcmd::loader::LoadError::Parse("EOF while parsing".to_string()))
    );
}

#[test]
fn a_parsed_file_becomes_a_store() {
    let r = quickcmd::loader::read_cmd_file_contents(
        "cmds.json",
        |_path: &str| Ok("text".to_string()),
        |_text: &str| {
            Ok((
                7,
                vec![
                    ("z".to_string(), "last".to_string()),
                    ("a".to_string(), "first".to_string()),
                ],
            ))
        },
    );
    let store = r.ok().unwrap();
    assert_eq!(store.version, 7);
    assert_eq!(
        store.to_pairs().1,
        vec![
            ("a".to_string(), "first".to_string()),
            ("z".to_string(), "last".to_string()),
        ]
    );
}

#[test]
fn the_platform_is_asked_with_the_tools_identifiers() {
    assert_eq!(quickcmd::loader::application_ids(), ("com", "QuickCmd", "qc"));
    assert_eq!(quickcmd::loader::store_file_name(), "cmds.json");
}

#[test]
fn without_a_place_nothing_is_asked_of_the_disk() {
    let d = disk(&[]);
    let perform = |a: &FileAction| serve(&d, a);
    let r = quickcmd::loader::locate_file(None, "{}", &perform);
    assert_eq!(r, Err(InitError::NoDataDir));
    assert_eq!(*d.asked.borrow(), 0);
    assert!(d.dirs.borrow().is_empty());
    assert!(d.files.borrow().is_empty());
}

#[test]
fn with_a_place_the_file_is_made_ready_there() {
    let d = disk(&[]);
    let perform = |a: &FileAction| serve(&d, a);
    let place = Some(("/data/qc".to_string(), "/data/qc/cmds.json".to_string()));
    let r = quickcmd::loader::locate_file(place, "{}", &perform);
    assert_eq!(r, Ok("/data/qc/cmds.json".to_string()));
    assert_eq!(d.files.borrow().get("/data/qc/cmds.json").map(String::as_str), Some("{}"));
    let again = quickcmd::loader::locate_file(
        Some(("/data/qc".to_string(), "/data/qc/cmds.json".to_string())),
        "other",
        &perform,
    );
    assert_eq!(again, Ok("/data/qc/cmds.json".to_string()));
    assert_eq!(d.files.borrow().get("/data/qc/cmds.json").map(String::as_str), Some("{}"));
    assert_eq!(d.files.borrow().len(), 1);
}

#[test]
fn the_setup_steps_follow_each_other() {
    assert_eq!(next_setup(SetupStage::MakeDirs, FileEvent::Done), Ok(Some(SetupStage::Probe)));
    assert_eq!(
        next_setup(SetupStage::MakeDirs, FileEvent::Missing),
        Err(InitError::CreateDirs(FileEvent::Missing))
    );
    assert_eq!(next_setup(SetupStage::Probe, FileEvent::Done), Ok(None));
    assert_eq!(
        next_setup(SetupStage::Probe, FileEvent::Missing),
        Ok(Some(SetupStage::Write(Stage::WriteTemp)))
    );
    assert_eq!(
        next_setup(SetupStage::Probe, FileEvent::Failed("io".to_string())),
        Ok(Some(SetupStage::Write(Stage::WriteTemp)))
    );
    assert_eq!(
        next_setup(SetupStage::Write(Stage::KeepBackup), FileEvent::Missing),
        Ok(Some(SetupStage::Write(Stage::Promote)))
    );
    assert_eq!(next_setup(SetupStage::Write(Stage::Promote), FileEvent::Done), Ok(None));
    assert_eq!(
        next_setup(SetupStage::Write(Stage::Promote), FileEvent::Missing),
        Err(InitError::Write(UpdateError { stage: Stage::Promote, event: FileEvent::Missing }))
    );
    assert_eq!(
        setup_action("/d", "/d/f", "x", SetupStage::MakeDirs),
        FileAction::CreateDirs { path: "/d".to_string() }
    );
    assert_eq!(
        setup_action("/d", "/d/f", "x", SetupStage::Probe),
        FileAction::Probe { path: "/d/f".to_string() }
    );
    assert_eq!(
        setup_action("/d", "/d/f", "x", SetupStage::Write(Stage::WriteTemp)),
        FileAction::Write { path: "/d/f.tmp".to_string(), contents: "x".to_string() }
    );
}
