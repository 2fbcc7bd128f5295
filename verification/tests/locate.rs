use minishell::locate::{
    find_in_directory, find_path, is_executable, split_paths, Directory, Entry, Metadata,
};

fn entry(directory: &str, name: &str, metadata: Option<Metadata>) -> Entry {
    Entry { name: name.to_string(), path: format!("{}/{}", directory, name), metadata }
}

fn file(mode: u32) -> Option<Metadata> {
    Some(Metadata { is_file: true, is_symlink: false, mode })
}

fn link(mode: u32) -> Option<Metadata> {
    Some(Metadata { is_file: false, is_symlink: true, mode })
}

fn folder(mode: u32) -> Option<Metadata> {
    Some(Metadata { is_file: false, is_symlink: false, mode })
}

fn readable(entries: Vec<Entry>) -> Directory {
    Directory { entries: Some(entries) }
}

fn unreadable() -> Directory {
    Directory { entries: None }
}

#[test]
fn is_executable_file_with_any_execute_bit() {
    assert!(is_executable(&entry("/bin", "a", file(0o100))));
    assert!(is_executable(&entry("/bin", "a", file(0o010))));
    assert!(is_executable(&entry("/bin", "a", file(0o001))));
    assert!(is_executable(&entry("/bin", "a", file(0o755))));
    assert!(is_executable(&entry("/bin", "a", file(0o100755))));
}

#[test]
fn is_executable_needs_an_execute_bit() {
    assert!(!is_executable(&entry("/bin", "a", file(0))));
    assert!(!is_executable(&entry("/bin", "a", file(0o644))));
    assert!(!is_executable(&entry("/bin", "a", file(0o666))));
    assert!(!is_executable(&entry("/bin", "a", file(0o100644))));
    assert!(!is_executable(&entry("/bin", "a", link(0o600))));
}

#[test]
fn is_executable_symlink() {
    assert!(is_executable(&entry("/bin", "a", link(0o777))));
    assert!(is_executable(&entry("/bin", "a", link(0o120777))));
}

#[test]
fn is_executable_not_a_directory() {
    assert!(!is_executable(&entry("/bin", "a", folder(0o755))));
    assert!(!is_executable(&entry("/bin", "a", folder(0o40755))));
}

#[test]
fn is_executable_without_metadata() {
    assert!(!is_executable(&entry("/bin", "a", None)));
}

#[test]
fn split_paths_usual_value() {
    assert_eq!(
        split_paths("/usr/local/bin:/usr/bin:/bin"),
        vec!["/usr/local/bin".to_string(), "/usr/bin".to_string(), "/bin".to_string()]
    );
}

#[test]
fn split_paths_single_directory() {
    assert_eq!(split_paths("/bin"), vec!["/bin".to_string()]);
}

#[test]
fn split_paths_keeps_empty_names() {
    assert_eq!(split_paths(""), vec![String::new()]);
    assert_eq!(
        split_paths(":/bin::"),
        vec![String::new(), "/bin".to_string(), String::new(), String::new()]
    );
}

#[test]
fn find_in_directory_first_of_several() {
    let entries = vec![
        entry("/bin", "cat", file(0o644)),
        entry("/bin", "ls", file(0o755)),
        entry("/bin", "cat", file(0o755)),
        entry("/bin", "cat", link(0o777)),
    ];
    assert_eq!(find_in_directory("cat", &entries), Some(2));
    assert_eq!(find_in_directory("ls", &entries), Some(1));
}

#[test]
fn find_in_directory_none() {
    let entries = vec![entry("/bin", "cat", file(0o644)), entry("/bin", "ls", folder(0o755))];
    assert_eq!(find_in_directory("cat", &entries), None);
    assert_eq!(find_in_directory("ls", &entries), None);
    assert_eq!(find_in_directory("grep", &entries), None);
    assert_eq!(find_in_directory("cat", &Vec::new()), None);
}

#[test]
fn find_in_directory_name_is_exact() {
    let entries = vec![entry("/bin", "cat", file(0o755))];
    assert_eq!(find_in_directory("ca", &entries), None);
    assert_eq!(find_in_directory("cats", &entries), None);
    assert_eq!(find_in_directory("Cat", &entries), None);
    assert_eq!(find_in_directory("cat", &entries), Some(0));
}

#[test]
fn find_path_unset_search_path() {
    assert_eq!(find_path("ls", &None), None);
}

#[test]
fn find_path_empty_search_path() {
    assert_eq!(find_path("ls", &Some(Vec::new())), None);
}

#[test]
fn find_path_first_directory_wins() {
    let search = Some(vec![
        readable(vec![entry("/usr/local/bin", "cat", file(0o755))]),
        readable(vec![entry("/usr/bin", "cat", file(0o755)), entry("/usr/bin", "ls", file(0o755))]),
    ]);
    assert_eq!(find_path("cat", &search), Some("/usr/local/bin/cat".to_string()));
    assert_eq!(find_path("ls", &search), Some("/usr/bin/ls".to_string()));
}

#[test]
fn find_path_passes_over_unreadable_directories() {
    let search = Some(vec![
        unreadable(),
        readable(Vec::new()),
        unreadable(),
        readable(vec![entry("/bin", "ls", file(0o755))]),
    ]);
    assert_eq!(find_path("ls", &search), Some("/bin/ls".to_string()));
    assert_eq!(find_path("cat", &search), None);
}

#[test]
fn find_path_passes_over_what_cannot_be_executed() {
    let search = Some(vec![
        readable(vec![entry("/a", "tool", file(0o644)), entry("/a", "tool", folder(0o755))]),
        readable(vec![entry("/b", "tool", None)]),
        readable(vec![entry("/c", "other", file(0o755)), entry("/c", "tool", link(0o777))]),
        readable(vec![entry("/d", "tool", file(0o755))]),
    ]);
    assert_eq!(find_path("tool", &search), Some("/c/tool".to_string()));
}

#[test]
fn find_path_returns_the_entry_path_not_the_name() {
    let search = Some(vec![readable(vec![Entry {
        name: "ls".to_string(),
        path: "/opt/tools/../bin/ls".to_string(),
        metadata: file(0o755),
    }])]);
    assert_eq!(find_path("ls", &search), Some("/opt/tools/../bin/ls".to_string()));
}
