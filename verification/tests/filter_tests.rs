use fstree::{setup_gitignore, Config, FileFilter, NodeType, RawEntry};

fn cfg(root: &str) -> Config {
    let mut c = Config::default();
    c.root = root.to_string();
    c
}

fn plain_filter(c: &Config) -> FileFilter {
    let ignorer = setup_gitignore(c.root.as_str(), &c.ignore);
    FileFilter::new(c, ignorer).unwrap()
}

#[test]
fn directory_only_with_include_keeps_matching_directory() {
    // Directory-only mode plus an include pattern: a directory named like
    // the pattern stays (directories are exempt from the include gate),
    // while a file of the very same name falls to the directory-only gate.
    let mut c = cfg("/r");
    c.directory = true;
    c.include_pattern = Some("*.txt".to_string());
    let f = plain_filter(&c);
    assert!(f.should_include(Some(NodeType::Directory), "notes.txt", "notes.txt"));
    assert!(!f.should_include(Some(NodeType::File), "notes.txt", "notes.txt"));
}

#[test]
fn include_gate_admits_only_matching_files() {
    let mut c = cfg("/r");
    c.include_pattern = Some("*.txt".to_string());
    let f = plain_filter(&c);
    assert!(f.should_include(Some(NodeType::File), "a.txt", "a.txt"));
    assert!(!f.should_include(Some(NodeType::File), "a.log", "a.log"));
    // directories pass regardless of the pattern
    assert!(f.should_include(Some(NodeType::Directory), "a.log", "a.log"));
}

#[test]
fn exclude_gate_rejects_matching_files_but_not_directories() {
    let mut c = cfg("/r");
    c.exclude_pattern = Some("*.log".to_string());
    let f = plain_filter(&c);
    assert!(!f.should_include(Some(NodeType::File), "a.log", "a.log"));
    assert!(f.should_include(Some(NodeType::File), "a.txt", "a.txt"));
    assert!(f.should_include(Some(NodeType::Directory), "a.log", "a.log"));
}

#[test]
fn unknown_entry_type_is_always_rejected() {
    let c = cfg("/r");
    let f = plain_filter(&c);
    assert!(!f.should_include(None, "whatever", "whatever"));
}

#[test]
fn ignored_file_excluded_unless_show_all() {
    let mut c = cfg("/r");
    c.ignore = vec![];
    let ignorer = setup_gitignore("/r", &vec!["*.log".to_string()]);
    let f = FileFilter::new(&c, ignorer).unwrap();
    assert!(!f.should_include(Some(NodeType::File), "x.log", "x.log"));
    assert!(f.should_include(Some(NodeType::File), "x.txt", "x.txt"));

    let mut c2 = cfg("/r");
    c2.show_all = true;
    let ignorer2 = setup_gitignore("/r", &vec!["*.log".to_string()]);
    let f2 = FileFilter::new(&c2, ignorer2).unwrap();
    assert!(f2.should_include(Some(NodeType::File), "x.log", "x.log"));
}

#[test]
fn git_directory_is_ignored_by_default() {
    let c = cfg("/r");
    let f = plain_filter(&c);
    assert!(!f.should_include(Some(NodeType::Directory), ".git", ".git"));
    let mut c2 = cfg("/r");
    c2.show_all = true;
    let f2 = plain_filter(&c2);
    assert!(f2.should_include(Some(NodeType::Directory), ".git", ".git"));
}

#[test]
fn nested_ignored_path_is_excluded() {
    let c = cfg("/r");
    let ignorer = setup_gitignore("/r", &vec!["build/".to_string()]);
    let f = FileFilter::new(&c, ignorer).unwrap();
    assert!(!f.should_include(Some(NodeType::Directory), "build", "sub/build"));
    assert!(f.should_include(Some(NodeType::File), "build", "sub/build"));
}

#[test]
fn unparsable_ignore_line_falls_back_to_permissive_rules() {
    // A lone backslash is not a parsable rule line: the whole rule set
    // falls back to an empty one and nothing is ignored — not even .git.
    let c = cfg("/r");
    let ignorer = setup_gitignore("/r", &vec!["\\".to_string(), "*.log".to_string()]);
    let f = FileFilter::new(&c, ignorer).unwrap();
    assert!(f.should_include(Some(NodeType::File), "x.log", "x.log"));
    assert!(f.should_include(Some(NodeType::Directory), ".git", ".git"));
}

#[test]
fn filter_entries_keeps_admitted_entries_in_listing_order() {
    let mut c = cfg("/r");
    c.exclude_pattern = Some("*.tmp".to_string());
    let f = plain_filter(&c);
    let entries = vec![
        RawEntry {
            name: "z.tmp".to_string(),
            kind: Some(NodeType::File),
        },
        RawEntry {
            name: "a".to_string(),
            kind: Some(NodeType::File),
        },
        RawEntry {
            name: "m".to_string(),
            kind: None,
        },
        RawEntry {
            name: "k".to_string(),
            kind: Some(NodeType::Directory),
        },
    ];
    let kept = f.filter_entries(&entries, "");
    let names: Vec<&str> = kept.iter().map(|e| e.name.as_str()).collect();
    assert_eq!(names, vec!["a", "k"]);
}

#[test]
fn invalid_glob_is_a_construction_error() {
    let mut c = cfg("/r");
    c.exclude_pattern = Some("a{".to_string());
    let ignorer = setup_gitignore("/r", &Vec::new());
    assert!(FileFilter::new(&c, ignorer).is_err());
}
