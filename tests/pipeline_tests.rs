use std::collections::HashSet;

use media_organizer::{
    build_media_info, copy_start, copy_step, process_result, CopyAction, CopyEvent, CopyState,
    ExifInfo, FileFacts, LocalDateTime, MediaInfo, MediaType,
};

fn record(path: &str, d: LocalDateTime) -> MediaInfo {
    let name = path.rsplit('/').next().unwrap().to_string();
    let facts = FileFacts {
        original_path: path.to_string(),
        file_name: name,
        created: Some(d),
        modified: None,
        file_size: 1,
    };
    let exif = ExifInfo { date: None, subsec: None, timezone: None, orientation: None, width: None, height: None };
    build_media_info(facts, MediaType::Photo, exif).unwrap()
}

/// Runs the copy stage of one record against an in-memory directory.
/// `fail_copy` makes the copy itself fail.
fn drive(m: &MediaInfo, backup: bool, taken: &mut HashSet<String>, fail_copy: bool) -> Result<String, String> {
    let (mut state, mut action) = copy_start(m, backup);
    loop {
        let event = match action {
            CopyAction::Backup => CopyEvent::Done,
            CopyAction::MakeDirs(_) => CopyEvent::Done,
            CopyAction::Probe(name) => CopyEvent::Exists(taken.contains(&name)),
            CopyAction::CopyTo(name) => {
                if fail_copy {
                    CopyEvent::Failed("permission denied".to_string())
                } else {
                    taken.insert(name);
                    CopyEvent::Done
                }
            }
            CopyAction::Finish(outcome) => return outcome,
        };
        let next = copy_step(m, state, event);
        state = next.0;
        action = next.1;
    }
}

#[test]
fn start_with_and_without_backup() {
    let m = record("/in/a.jpg", LocalDateTime::new(2021, 4, 3, 2, 1, 0));
    let (state, action) = copy_start(&m, true);
    assert_eq!(state, CopyState::BackingUp);
    assert!(matches!(action, CopyAction::Backup));
    let (state, action) = copy_start(&m, false);
    assert_eq!(state, CopyState::MakingDirs);
    match action {
        CopyAction::MakeDirs(d) => assert_eq!(d, vec!["2021", "2021-04", "2021-04-03"]),
        _ => panic!("expected directories"),
    }
}

#[test]
fn colliding_records_get_suffixed_names() {
    let d = LocalDateTime::new(2021, 4, 3, 2, 1, 0);
    let first = record("/in/one/a.jpg", d);
    let second = record("/in/two/a.jpg", d);
    assert_eq!(first.new_name, second.new_name);
    let mut taken = HashSet::new();
    assert_eq!(drive(&first, false, &mut taken, false), Ok("2021-04-03_02-01-00.jpg".to_string()));
    assert_eq!(drive(&second, true, &mut taken, false), Ok("2021-04-03_02-01-00_01.jpg".to_string()));
    let third = record("/in/three/a.jpg", d);
    assert_eq!(drive(&third, false, &mut taken, false), Ok("2021-04-03_02-01-00_02.jpg".to_string()));
    assert_eq!(taken.len(), 3);
}

#[test]
fn failures_name_the_original() {
    let m = record("/in/a.jpg", LocalDateTime::new(2021, 4, 3, 2, 1, 0));
    let (_, action) = copy_step(&m, CopyState::BackingUp, CopyEvent::Failed("disk full".to_string()));
    match action {
        CopyAction::Finish(Err(e)) => assert_eq!(e, "Failed to backup /in/a.jpg: disk full"),
        _ => panic!("expected a failure"),
    }
    let (state, action) = copy_step(&m, CopyState::MakingDirs, CopyEvent::Failed("denied".to_string()));
    assert_eq!(state, CopyState::Finished);
    match action {
        CopyAction::Finish(Err(e)) => assert_eq!(e, "Failed to create directory for /in/a.jpg: denied"),
        _ => panic!("expected a failure"),
    }
    let mut taken = HashSet::new();
    assert_eq!(
        drive(&m, false, &mut taken, true),
        Err("Failed to copy /in/a.jpg: permission denied".to_string())
    );
}

#[test]
fn one_failure_is_isolated() {
    let d = |s| LocalDateTime::new(2021, 4, 3, 2, 1, s);
    let media = vec![record("/in/a.jpg", d(0)), record("/in/b.jpg", d(10)), record("/in/c.jpg", d(20))];
    let mut taken = HashSet::new();
    let outcomes: Vec<Result<String, String>> = media
        .iter()
        .enumerate()
        .map(|(i, m)| drive(m, false, &mut taken, i == 1).map(|n| format!("/out/{}", n)))
        .collect();
    let r = process_result(media, outcomes);
    assert!(r.success);
    assert_eq!(r.total_files, 3);
    assert_eq!(r.processed_files, 2);
    assert_eq!(r.errors.len(), 1);
    assert!(r.errors[0].contains("/in/b.jpg"));
    assert_eq!(r.media[0].new_path, "/out/2021-04-03_02-01-00.jpg");
    assert_eq!(r.media[1].new_path, "");
    assert_eq!(r.media[2].new_path, "/out/2021-04-03_02-01-20.jpg");
}

#[test]
fn nothing_copied_is_no_success() {
    let media = vec![record("/in/a.jpg", LocalDateTime::new(2021, 4, 3, 2, 1, 0))];
    let r = process_result(media, vec![Err("Failed to copy /in/a.jpg: gone".to_string())]);
    assert!(!r.success);
    assert_eq!(r.processed_files, 0);
    assert_eq!(r.errors, vec!["Failed to copy /in/a.jpg: gone".to_string()]);
    let empty = process_result(Vec::new(), Vec::new());
    assert!(!empty.success);
    assert_eq!(empty.total_files, 0);
}
