use folder_to_ai::classify::Probe;
use folder_to_ai::controller::{Controller, IngestionState, Outcome, Work};
use folder_to_ai::folder_info::ScannedFile;
use folder_to_ai::ignore_list::default_ignored_subfolders;

fn entry(dirs: &[&str], name: &str, size: Option<usize>) -> ScannedFile {
    ScannedFile {
        dirs: dirs.iter().map(|d| d.to_string()).collect(),
        name: name.to_string(),
        size,
    }
}

fn probe_of(bytes: Option<&Vec<u8>>) -> Probe {
    match bytes {
        None => Probe::Unopenable,
        Some(b) => {
            let head = b.iter().take(8).cloned().collect();
            let sample = b.iter().take(10240).cloned().collect();
            Probe::Read { head, rewound: true, sample: Some(sample) }
        }
    }
}

/// Drives the controller to its end over an in-memory tree; returns every
/// piece of work it asked for.
fn drive(
    c: &mut Controller,
    listing: Option<Vec<ScannedFile>>,
    contents: &[(&str, Vec<u8>)],
) -> Vec<Work> {
    let mut listing = Some(listing);
    let mut asked = Vec::new();
    let find = |path: &str| contents.iter().find(|(p, _)| *p == path).map(|(_, b)| b.clone());
    for _ in 0..10000 {
        let state = c.state();
        if state == IngestionState::Ready || state == IngestionState::Failed {
            break;
        }
        let work = c.pending_work();
        asked.push(work);
        let outcome = match work {
            Work::Nothing => Outcome::Done,
            Work::ScanTree => Outcome::Scanned(listing.take().unwrap()),
            Work::ProbeFile(i) => Outcome::Probed(probe_of(find(c.file_path(i).as_str()).as_ref())),
            Work::ReadFile(i) => Outcome::Read(find(c.file_path(i).as_str())),
        };
        c.advance(outcome);
    }
    asked
}

fn sample_tree() -> (Vec<ScannedFile>, Vec<(&'static str, Vec<u8>)>) {
    let listing = vec![
        entry(&[], "a.txt", Some(5)),
        entry(&["node_modules"], "lib.js", Some(7)),
        entry(&["src"], "blob", Some(4)),
        entry(&["src"], "big.txt", Some(200)),
        entry(&["src"], "gone.md", None),
        entry(&["src"], "missing.rs", Some(3)),
    ];
    let contents = vec![
        ("a.txt", b"hello".to_vec()),
        ("node_modules/lib.js", b"let x=1".to_vec()),
        ("src/blob", vec![0x89, 0x50, 0x4E, 0x47, 0, 0, 0, 0]),
        ("src/big.txt", vec![b'z'; 200]),
    ];
    (listing, contents)
}

#[test]
fn ignored_file_is_flagged_counted_and_never_touched() {
    let (listing, contents) = sample_tree();
    let mut c = Controller::new("root".to_string(), default_ignored_subfolders(), 100);
    let asked = drive(&mut c, Some(listing), &contents);
    assert_eq!(c.state(), IngestionState::Ready);
    let folder = c.folder_info();
    assert_eq!(folder.file_infos.len(), 5);
    assert_eq!(folder.file_infos[1].filepath, "node_modules/lib.js");
    assert!(folder.file_infos[1].should_be_ignored);
    assert!(!folder.file_infos[1].is_binary);
    assert!(folder.file_infos[1].file_content.is_none());
    assert_eq!(folder.size_in_bytes, 5 + 7 + 4 + 200 + 3);
    assert!(!asked.contains(&Work::ProbeFile(1)));
    assert!(!asked.contains(&Work::ReadFile(1)));
    assert!(c.messages().iter().all(|m| !m.contains("lib.js")));
}

#[test]
fn too_large_file_is_never_read() {
    let (listing, contents) = sample_tree();
    let mut c = Controller::new("root".to_string(), default_ignored_subfolders(), 100);
    let asked = drive(&mut c, Some(listing), &contents);
    let folder = c.folder_info();
    assert_eq!(folder.file_infos[3].filepath, "src/big.txt");
    assert!(folder.file_infos[3].file_too_large);
    assert!(!asked.contains(&Work::ReadFile(3)));
    assert!(folder.file_infos[3].file_content.is_none());
    assert!(c.messages()[1].contains("[This file is too large to be loaded]"));
}

#[test]
fn known_extensions_are_never_probed() {
    let (listing, contents) = sample_tree();
    let mut c = Controller::new("root".to_string(), default_ignored_subfolders(), 100);
    let asked = drive(&mut c, Some(listing), &contents);
    let probes: Vec<Work> = asked.into_iter().filter(|w| matches!(w, Work::ProbeFile(_))).collect();
    assert_eq!(probes, vec![Work::ProbeFile(2)]);
    assert!(c.folder_info().file_infos[2].is_binary);
}

#[test]
fn counters_after_ingestion() {
    let (listing, contents) = sample_tree();
    let mut c = Controller::new("root".to_string(), default_ignored_subfolders(), 100);
    drive(&mut c, Some(listing), &contents);
    assert_eq!(c.total_n_files(), 5);
    assert_eq!(c.n_files_classified(), 5);
    assert_eq!(c.n_files_attempted(), 5);
    assert_eq!(c.n_binary_files(), 1);
    assert_eq!(c.total_n_files_to_load(), 2);
    assert_eq!(c.n_files_loaded(), 2);
    assert_eq!(c.n_files_that_could_not_be_loaded(), 1);
    assert_eq!(
        c.current_state_info_string(),
        "Not all relevant files could be loaded (1/2); perhaps they're being used somehow?"
    );
    let folder = c.folder_info();
    assert_eq!(folder.file_infos[0].file_content.as_deref(), Some("hello"));
    assert!(c.messages()[1].contains("[File content could not be loaded]"));
    assert!(c.messages()[1].contains("[Binary file]"));
}

#[test]
fn unreadable_root_fails() {
    let mut c = Controller::new("root".to_string(), Vec::new(), 100);
    drive(&mut c, None, &[]);
    assert_eq!(c.state(), IngestionState::Failed);
    assert!(c.messages().is_empty());
}

#[test]
fn states_advance_in_order() {
    let listing = vec![entry(&[], "a.txt", Some(5))];
    let contents = vec![("a.txt", b"hello".to_vec())];
    let mut c = Controller::new("root".to_string(), Vec::new(), 100);
    assert_eq!(c.state(), IngestionState::Initializing);
    assert_eq!(c.current_state_info_string(), "Obtaining initial info...");
    c.advance(Outcome::Done);
    assert_eq!(c.state(), IngestionState::ScanningTree);
    assert_eq!(c.pending_work(), Work::ScanTree);
    c.advance(Outcome::Done);
    assert_eq!(c.state(), IngestionState::ScanningTree);
    c.advance(Outcome::Scanned(Some(listing)));
    assert_eq!(c.state(), IngestionState::ClassifyingBinary);
    assert_eq!(c.current_state_info_string(), "Determining binary files... (0/1)");
    c.advance(Outcome::Done);
    assert_eq!(c.state(), IngestionState::FilteringSize);
    c.advance(Outcome::Done);
    assert_eq!(c.state(), IngestionState::LoadingContent);
    assert_eq!(c.current_state_info_string(), "Loading contents... (0/1)");
    assert_eq!(c.pending_work(), Work::ReadFile(0));
    c.advance(Outcome::Read(Some(contents[0].1.clone())));
    assert_eq!(c.state(), IngestionState::BuildingMessages);
    assert_eq!(c.current_state_info_string(), "Loading process in execution, please wait...");
    c.advance(Outcome::Done);
    assert_eq!(c.state(), IngestionState::Ready);
    assert_eq!(
        c.current_state_info_string(),
        "All relevant files have been successfully loaded (1/1)"
    );
    assert_eq!(c.messages().len(), 2);
}

#[test]
fn running_twice_gives_the_same_messages() {
    let (listing, contents) = sample_tree();
    let mut first = Controller::new("root".to_string(), default_ignored_subfolders(), 100);
    drive(&mut first, Some(listing), &contents);
    let (listing, contents) = sample_tree();
    let mut second = Controller::new("root".to_string(), default_ignored_subfolders(), 100);
    drive(&mut second, Some(listing), &contents);
    assert_eq!(first.messages(), second.messages());
    assert!(!first.messages().is_empty());
}

#[test]
fn folder_of_ignored_files_gives_one_message() {
    let listing = vec![entry(&["target"], "out.txt", Some(3)), entry(&[".git", "refs"], "HEAD", Some(4))];
    let mut c = Controller::new("proj".to_string(), default_ignored_subfolders(), 100);
    let asked = drive(&mut c, Some(listing), &[]);
    assert_eq!(c.state(), IngestionState::Ready);
    assert!(asked.iter().all(|w| !matches!(w, Work::ProbeFile(_) | Work::ReadFile(_))));
    assert_eq!(c.messages().len(), 1);
    assert_eq!(
        c.messages()[0],
        "[FolderToAI]\n\nMessage 1/1\n\nThis message will provide you relevant information about the files within the folder proj.\n\nThe folder contains no relevant files."
    );
}

#[test]
fn invalid_utf8_is_decoded_lossily() {
    let listing = vec![entry(&[], "odd.txt", Some(3))];
    let contents = vec![("odd.txt", vec![b'a', 0xFF, b'b'])];
    let mut c = Controller::new("root".to_string(), Vec::new(), 100);
    drive(&mut c, Some(listing), &contents);
    assert_eq!(c.folder_info().file_infos[0].file_content.as_deref(), Some("a\u{FFFD}b"));
}
