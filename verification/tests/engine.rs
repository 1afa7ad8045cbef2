use detox::{
    classify_step, decide_file, plan_rename, Announcement, Effect, Options, PathKind, StepAction,
    WorkQueue,
};

fn options(dry_run: bool, verbose: bool, hidden: bool, move_to: Option<&str>) -> Options {
    Options { dry_run, verbose, hidden, move_to: move_to.map(|s| s.to_string()) }
}

/// Run the worker loop against a directory held in memory: `files` are
/// (name, content) pairs, `moved` receives what goes to the move
/// destination.  Returns the announcements, oldest first.
fn process_directory(
    files: &mut Vec<(String, String)>,
    moved: &mut Vec<(String, String)>,
    opts: &Options,
) -> Vec<String> {
    let mut queue = WorkQueue::new();
    for (name, _) in files.iter() {
        queue.push(name.clone());
    }
    let mut log: Vec<String> = Vec::new();
    while let Some(name) = queue.pop() {
        if classify_step(&name, PathKind::File, opts) != StepAction::ProcessFile {
            continue;
        }
        let target_exists = match plan_rename(&name) {
            Some(new_name) => files.iter().any(|(f, _)| *f == new_name),
            None => false,
        };
        let decision = decide_file(&name, target_exists, opts);
        match &decision.announcement {
            Some(Announcement::WillRename { new_name }) => {
                log.push(format!("\"{}\" -> \"{}\"", name, new_name));
            }
            Some(Announcement::MoveConflict { new_name }) => {
                log.push(format!("Moving \"{}\" since \"{}\" already exists.", name, new_name));
            }
            Some(Announcement::RenameFailed { new_name }) => {
                log.push(format!(
                    "Failed to rename \"{}\" since \"{}\" already exists.",
                    name, new_name
                ));
            }
            None => {}
        }
        match decision.effect {
            Some(Effect::RenameTo { new_name }) => {
                for entry in files.iter_mut() {
                    if entry.0 == name {
                        entry.0 = new_name.clone();
                    }
                }
            }
            Some(Effect::MoveToDestination) => {
                let at = files.iter().position(|(f, _)| *f == name).unwrap();
                moved.push(files.remove(at));
            }
            None => {}
        }
    }
    log
}

fn contains(files: &[(String, String)], name: &str) -> bool {
    files.iter().any(|(f, _)| f == name)
}

fn content_of<'a>(files: &'a [(String, String)], name: &str) -> &'a str {
    &files.iter().find(|(f, _)| f == name).unwrap().1
}

#[test]
fn renames_files() {
    let mut files = vec![
        ("---bad__-file     name____-.mp4".to_string(), "bad file".to_string()),
        ("good-file.jpeg".to_string(), "good file".to_string()),
    ];
    let mut moved = Vec::new();
    let opts = options(false, true, true, None);
    process_directory(&mut files, &mut moved, &opts);

    assert_eq!(true, contains(&files, "bad-file-name.mp4"));
    assert_eq!(false, contains(&files, "---bad__-file-name____-.mp4"));
    assert_eq!(true, contains(&files, "good-file.jpeg"));
    assert_eq!(false, contains(&files, "---bad__-file     name____-.mp4"));
    assert_eq!("bad file", content_of(&files, "bad-file-name.mp4"));
    assert!(moved.is_empty());
}

#[test]
fn does_not_rename_with_dry_run() {
    let mut files = vec![
        ("---bad__-file     name____-.mp4".to_string(), "bad file".to_string()),
        ("good-file.jpeg".to_string(), "good file".to_string()),
    ];
    let mut moved = Vec::new();
    let opts = options(true, true, true, None);
    process_directory(&mut files, &mut moved, &opts);

    assert_eq!(true, contains(&files, "---bad__-file     name____-.mp4"));
    assert_eq!(true, contains(&files, "good-file.jpeg"));
    assert_eq!(false, contains(&files, "bad-file-name.mp4"));
    assert!(moved.is_empty());
}

#[test]
fn moves_overlapping_files() {
    let mut files = vec![
        ("overlapping-file.mp4".to_string(), "keep\n".to_string()),
        ("overlapping file.mp4".to_string(), "ahhh! I should be moved\n".to_string()),
    ];
    let mut moved = Vec::new();
    let opts = options(false, true, true, Some("moved"));
    process_directory(&mut files, &mut moved, &opts);

    assert_eq!(true, contains(&files, "overlapping-file.mp4"));
    assert_eq!("keep\n", content_of(&files, "overlapping-file.mp4"));
    assert_eq!(true, contains(&moved, "overlapping file.mp4"));
    assert_eq!("ahhh! I should be moved\n", content_of(&moved, "overlapping file.mp4"));
    assert_eq!(false, contains(&files, "overlapping file.mp4"));
}

#[test]
fn does_not_move_overlapping_files_when_dry_run() {
    let mut files = vec![
        ("overlapping-file.mp4".to_string(), "keep\n".to_string()),
        ("overlapping file.mp4".to_string(), "ahhh! I should be moved\n".to_string()),
    ];
    let mut moved = Vec::new();
    let opts = options(true, true, true, Some("moved"));
    process_directory(&mut files, &mut moved, &opts);

    assert_eq!(true, contains(&files, "overlapping-file.mp4"));
    assert_eq!("keep\n", content_of(&files, "overlapping-file.mp4"));
    assert_eq!(false, contains(&moved, "overlapping file.mp4"));
    assert_eq!(true, contains(&files, "overlapping file.mp4"));
}

#[test]
fn dry_run_produces_the_same_announcements() {
    for move_to in [None, Some("moved")] {
        let originals = vec![
            ("---bad__-file     name____-.mp4".to_string(), "a".to_string()),
            ("overlapping-file.mp4".to_string(), "b".to_string()),
            ("overlapping file.mp4".to_string(), "c".to_string()),
            ("good-file.jpeg".to_string(), "d".to_string()),
        ];
        let mut wet_files = originals.clone();
        let mut wet_moved = Vec::new();
        let wet_log = process_directory(
            &mut wet_files,
            &mut wet_moved,
            &options(false, true, true, move_to),
        );
        let mut dry_files = originals.clone();
        let mut dry_moved = Vec::new();
        let dry_log = process_directory(
            &mut dry_files,
            &mut dry_moved,
            &options(true, true, true, move_to),
        );
        assert_eq!(wet_log, dry_log);
        assert_eq!(dry_files, originals);
        assert!(dry_moved.is_empty());
    }
}

#[test]
fn collision_without_move_keeps_both_files() {
    let mut files = vec![
        ("b a.txt".to_string(), "first".to_string()),
        ("b  a.txt".to_string(), "second".to_string()),
    ];
    let mut moved = Vec::new();
    let log = process_directory(&mut files, &mut moved, &options(false, false, true, None));

    assert_eq!(files.len(), 2);
    assert!(moved.is_empty());
    // Exactly one file sits at the sanitized name; the other keeps its own.
    assert_eq!(files.iter().filter(|(f, _)| f == "b-a.txt").count(), 1);
    let survivor: Vec<&(String, String)> =
        files.iter().filter(|(f, _)| f != "b-a.txt").collect();
    assert_eq!(survivor.len(), 1);
    assert!(survivor[0].0 == "b a.txt" || survivor[0].0 == "b  a.txt");
    assert_eq!(log.len(), 1);
    assert!(log[0].starts_with("Failed to rename"));
}

#[test]
fn skips_hidden_files_by_default() {
    let mut files = vec![(".hidden  file.txt".to_string(), "x".to_string())];
    let mut moved = Vec::new();
    process_directory(&mut files, &mut moved, &options(false, true, false, None));
    assert_eq!(true, contains(&files, ".hidden  file.txt"));

    process_directory(&mut files, &mut moved, &options(false, true, true, None));
    assert_eq!(true, contains(&files, ".hidden-file.txt"));
}

#[test]
fn classifies_steps() {
    let opts = options(false, false, false, None);
    assert_eq!(classify_step("a/.x", PathKind::File, &opts), StepAction::Skip);
    assert_eq!(classify_step("a/.x", PathKind::Directory, &opts), StepAction::Skip);
    assert_eq!(classify_step("a/b", PathKind::Directory, &opts), StepAction::ExpandDirectory);
    assert_eq!(classify_step("a/b", PathKind::File, &opts), StepAction::ProcessFile);
    assert_eq!(classify_step("a/b", PathKind::Other, &opts), StepAction::Skip);

    let all = options(false, false, true, None);
    assert_eq!(classify_step("a/.x", PathKind::File, &all), StepAction::ProcessFile);
    assert_eq!(classify_step("a/.x", PathKind::Directory, &all), StepAction::ExpandDirectory);
}

#[test]
fn decides_quietly_without_verbose() {
    let d = decide_file("b a.txt", false, &options(false, false, true, None));
    assert_eq!(d.announcement, None);
    assert_eq!(d.effect, Some(Effect::RenameTo { new_name: "b-a.txt".to_string() }));
}

#[test]
fn decides_nothing_for_a_clean_name() {
    let d = decide_file("good-file.jpeg", false, &options(false, true, true, None));
    assert_eq!(d.announcement, None);
    assert_eq!(d.effect, None);
}

#[test]
fn queue_pops_in_reverse_order_of_pushes() {
    let mut q = WorkQueue::new();
    assert_eq!(q.len(), 0);
    assert_eq!(q.pop(), None);
    q.push("a".to_string());
    q.push("b".to_string());
    assert_eq!(q.len(), 2);
    assert_eq!(q.pop(), Some("b".to_string()));
    assert_eq!(q.pop(), Some("a".to_string()));
    assert_eq!(q.pop(), None);
}
