use folder_to_ai::file_info::FileInfo;
use folder_to_ai::folder_info::{FolderInfo, ScannedFile};
use folder_to_ai::ignore_list::{default_ignored_subfolders, is_valid_folder_name};
use folder_to_ai::install_paths::{
    context_menu_command_key, context_menu_command_value, context_menu_icon_value,
    context_menu_key, is_being_executed_from_installation_location, settings_file_path, setup_executable_path, setup_icon_path, setup_path,
};
use folder_to_ai::text::{decimal, same_text};

#[test]
fn decimal_digits() {
    assert_eq!(decimal(0), "0");
    assert_eq!(decimal(7), "7");
    assert_eq!(decimal(4096), "4096");
    assert_eq!(decimal(usize::MAX), usize::MAX.to_string());
}

#[test]
fn text_comparison() {
    assert!(same_text("héllo", "héllo"));
    assert!(!same_text("héllo", "hello"));
    assert!(!same_text("a", "ab"));
}

#[test]
fn new_file_info_is_unclassified() {
    let f = FileInfo::new("a/b.txt".to_string(), 12, false);
    assert!(f.content_should_be_loaded());
    assert!(!f.has_content_loaded());
    let g = FileInfo::new("bin/b.txt".to_string(), 12, true);
    assert!(!g.content_should_be_loaded());
}

#[test]
fn scan_builds_relative_paths_and_flags() {
    let ignored = vec!["build".to_string()];
    let listing = vec![
        ScannedFile { dirs: vec!["src".into(), "build".into()], name: "gen.c".into(), size: Some(10) },
        ScannedFile { dirs: vec!["src".into()], name: "main.c".into(), size: Some(20) },
        ScannedFile { dirs: vec![], name: "build".into(), size: Some(1) },
        ScannedFile { dirs: vec![], name: "lost".into(), size: None },
    ];
    let folder = FolderInfo::new(&"/p".to_string(), Some(listing), &ignored).unwrap();
    assert_eq!(folder.get_number_of_files(), 3);
    assert_eq!(folder.file_infos[0].filepath, "src/build/gen.c");
    assert!(folder.file_infos[0].should_be_ignored);
    assert_eq!(folder.file_infos[1].filepath, "src/main.c");
    assert!(!folder.file_infos[1].should_be_ignored);
    // a file named like an ignored directory is not below it
    assert!(!folder.file_infos[2].should_be_ignored);
    assert_eq!(folder.size_in_bytes, 31);
    assert!(folder.contains_at_least_one_file_that_should_not_be_ignored());
    assert_eq!(folder.get_number_of_files_whose_contents_should_be_loaded(), 2);
    assert_eq!(folder.number_of_binary_files(), 0);
    assert_eq!(folder.number_of_files_that_could_not_be_loaded(), 2);
    assert!(FolderInfo::new(&"/p".to_string(), None, &ignored).is_err());
}

#[test]
fn scan_rejects_a_total_size_beyond_usize() {
    let listing = vec![
        ScannedFile { dirs: vec![], name: "a".into(), size: Some(usize::MAX) },
        ScannedFile { dirs: vec![], name: "b".into(), size: Some(1) },
    ];
    assert!(FolderInfo::new(&"/p".to_string(), Some(listing), &Vec::new()).is_err());
}

#[test]
fn too_large_filter_skips_ignored_files() {
    let listing = vec![
        ScannedFile { dirs: vec!["tmp".into()], name: "a.txt".into(), size: Some(500) },
        ScannedFile { dirs: vec![], name: "b.txt".into(), size: Some(500) },
        ScannedFile { dirs: vec![], name: "c.txt".into(), size: Some(100) },
    ];
    let mut folder = FolderInfo::new(&"/p".to_string(), Some(listing), &default_ignored_subfolders()).unwrap();
    folder.determine_files_too_large(100);
    assert!(!folder.file_infos[0].file_too_large);
    assert!(folder.file_infos[1].file_too_large);
    assert!(!folder.file_infos[2].file_too_large);
    assert_eq!(folder.get_number_of_files_whose_contents_should_be_loaded(), 1);
}

#[test]
fn default_ignore_list() {
    let names = default_ignored_subfolders();
    assert_eq!(names.len(), 22);
    assert!(names.contains(&"node_modules".to_string()));
    assert!(names.contains(&"__pycache__".to_string()));
    assert!(names.contains(&".git".to_string()));
}

#[test]
fn folder_name_validity() {
    assert!(is_valid_folder_name("node_modules"));
    assert!(is_valid_folder_name(".venv"));
    assert!(!is_valid_folder_name(""));
    assert!(!is_valid_folder_name("a/b"));
    assert!(!is_valid_folder_name("a*"));
    assert!(!is_valid_folder_name("trailing "));
    assert!(!is_valid_folder_name("trailing."));
}

#[test]
fn install_locations() {
    assert_eq!(setup_path("C:\\Users\\me"), "C:\\Users\\me\\FolderToAI");
    assert_eq!(setup_executable_path("C:\\Users\\me"), "C:\\Users\\me\\FolderToAI\\FolderToAI.exe");
    assert_eq!(setup_icon_path("C:\\Users\\me"), "C:\\Users\\me\\FolderToAI\\FolderToAI.ico");
    assert_eq!(settings_file_path("C:\\Users\\me"), "C:\\Users\\me\\FolderToAI\\settings.json");
    assert_eq!(setup_path(""), "");
    assert_eq!(settings_file_path(""), "");
    assert_eq!(context_menu_key(), "Software\\Classes\\Directory\\Background\\shell\\FolderToAI");
    assert_eq!(
        context_menu_command_key(),
        "Software\\Classes\\Directory\\Background\\shell\\FolderToAI\\command"
    );
    assert_eq!(context_menu_icon_value("C:\\x.exe"), "\"C:\\x.exe\"");
    assert_eq!(context_menu_command_value("C:\\x.exe"), "\"C:\\x.exe\" \"%V\"");
}

#[test]
fn installation_location_compares_whole_components() {
    let profile = "C:\\Users\\me";
    assert!(is_being_executed_from_installation_location(
        "C:\\Users\\me\\FolderToAI\\FolderToAI.exe",
        profile
    ));
    assert!(is_being_executed_from_installation_location("C:/Users/me/FolderToAI", profile));
    assert!(!is_being_executed_from_installation_location(
        "C:\\Users\\me\\FolderToAIx\\FolderToAI.exe",
        profile
    ));
    assert!(!is_being_executed_from_installation_location("C:\\Users\\me", profile));
    assert!(!is_being_executed_from_installation_location("D:\\tools\\FolderToAI.exe", profile));
    // an unknown profile gives an empty directory, which every path starts with
    assert!(is_being_executed_from_installation_location("D:\\tools\\FolderToAI.exe", ""));
}
