use fstree::{
    setup_gitignore, Action, Config, EntryMeta, Event, NodeType, RawEntry, Statistics,
    TreeBuilder, TreeNode,
};

struct FakeDir {
    path: String,
    canon: u64,
    entries: Vec<(String, NodeType)>,
}

struct FakeFile {
    path: String,
    kind: NodeType,
    size: u64,
    link: Option<String>,
}

struct FakeFs {
    dirs: Vec<FakeDir>,
    files: Vec<FakeFile>,
}

impl FakeFs {
    fn meta(&self, path: &str) -> Option<EntryMeta> {
        for d in &self.dirs {
            if d.path == path {
                return Some(EntryMeta {
                    kind: NodeType::Directory,
                    size: 0,
                    canon: Some(d.canon),
                    link_target: None,
                });
            }
        }
        for f in &self.files {
            if f.path == path {
                return Some(EntryMeta {
                    kind: f.kind,
                    size: f.size,
                    canon: None,
                    link_target: f.link.clone(),
                });
            }
        }
        None
    }

    fn list(&self, path: &str) -> Option<Vec<RawEntry>> {
        for d in &self.dirs {
            if d.path == path {
                return Some(
                    d.entries
                        .iter()
                        .map(|(n, k)| RawEntry {
                            name: n.clone(),
                            kind: Some(*k),
                        })
                        .collect(),
                );
            }
        }
        None
    }
}

fn cfg(root: &str) -> Config {
    let mut c = Config::default();
    c.root = root.to_string();
    c
}

fn run(c: &Config, fs: &FakeFs) -> (Option<TreeNode>, Statistics) {
    let ignorer = setup_gitignore(c.root.as_str(), &Vec::new());
    let mut b = TreeBuilder::new(c, ignorer).unwrap();
    let mut action = b.next_action();
    let mut steps = 0usize;
    loop {
        assert!(steps < 100_000, "build did not terminate");
        steps += 1;
        match action {
            Action::Probe(p) => {
                action = b.step(Event::Meta(fs.meta(&p)));
            }
            Action::List(p) => {
                action = b.step(Event::Entries(fs.list(&p)));
            }
            Action::Done | Action::Fail => break,
        }
    }
    let stats = *b.get_stats();
    (b.into_tree(), stats)
}

fn tree_eq(a: &TreeNode, b: &TreeNode) -> bool {
    a.name == b.name
        && a.path == b.path
        && a.node_type == b.node_type
        && a.size == b.size
        && a.link_target == b.link_target
        && a.children.len() == b.children.len()
        && a
            .children
            .iter()
            .zip(b.children.iter())
            .all(|(x, y)| tree_eq(x, y))
}

fn dir(path: &str, canon: u64, entries: &[(&str, NodeType)]) -> FakeDir {
    FakeDir {
        path: path.to_string(),
        canon,
        entries: entries
            .iter()
            .map(|(n, k)| (n.to_string(), *k))
            .collect(),
    }
}

fn file(path: &str, size: u64) -> FakeFile {
    FakeFile {
        path: path.to_string(),
        kind: NodeType::File,
        size,
        link: None,
    }
}

#[test]
fn cycle_repeat_canonical_path_gets_empty_children() {
    // The subdirectory resolves to the same canonical identity as the root:
    // it must appear with no children and must not be counted again.
    let fs = FakeFs {
        dirs: vec![
            dir("/r", 1, &[("sub", NodeType::Directory)]),
            dir("/r/sub", 1, &[("sub", NodeType::Directory)]),
        ],
        files: vec![],
    };
    let (tree, stats) = run(&cfg("/r"), &fs);
    let tree = tree.unwrap();
    assert_eq!(tree.name, "r");
    assert_eq!(tree.children.len(), 1);
    assert_eq!(tree.children[0].name, "sub");
    assert!(tree.children[0].children.is_empty());
    assert_eq!(stats.dirs, 1);
    assert_eq!(stats.files, 0);
}

#[test]
fn symlink_to_ancestor_is_never_traversed() {
    let fs = FakeFs {
        dirs: vec![dir("/r", 1, &[("loop", NodeType::SymbolicLink)])],
        files: vec![FakeFile {
            path: "/r/loop".to_string(),
            kind: NodeType::SymbolicLink,
            size: 3,
            link: Some("/r".to_string()),
        }],
    };
    let (tree, stats) = run(&cfg("/r"), &fs);
    let tree = tree.unwrap();
    assert_eq!(tree.children.len(), 1);
    let l = &tree.children[0];
    assert_eq!(l.node_type, NodeType::SymbolicLink);
    assert!(l.children.is_empty());
    assert_eq!(l.link_target.as_deref(), Some("/r"));
    assert_eq!(l.size, Some(3));
    // the link counts as a file and is never listed as a directory
    assert_eq!(stats.dirs, 1);
    assert_eq!(stats.files, 1);
    assert_eq!(stats.bytes, 3);
}

fn depth_fixture() -> FakeFs {
    FakeFs {
        dirs: vec![
            dir("/r", 1, &[("a", NodeType::Directory)]),
            dir("/r/a", 2, &[("b", NodeType::Directory)]),
            dir("/r/a/b", 3, &[("f", NodeType::File)]),
        ],
        files: vec![file("/r/a/b/f", 7)],
    }
}

#[test]
fn depth_one_lists_a_without_children() {
    let mut c = cfg("/r");
    c.max_depth = Some(1);
    let (tree, _) = run(&c, &depth_fixture());
    let tree = tree.unwrap();
    assert_eq!(tree.children.len(), 1);
    let a = &tree.children[0];
    assert_eq!(a.name, "a");
    assert!(a.children.is_empty());
}

#[test]
fn depth_two_reaches_b_with_empty_children() {
    let mut c = cfg("/r");
    c.max_depth = Some(2);
    let (tree, _) = run(&c, &depth_fixture());
    let tree = tree.unwrap();
    let a = &tree.children[0];
    assert_eq!(a.children.len(), 1);
    let b = &a.children[0];
    assert_eq!(b.name, "b");
    assert!(b.children.is_empty());
}

#[test]
fn no_depth_limit_yields_full_chain() {
    let (tree, _) = run(&cfg("/r"), &depth_fixture());
    let tree = tree.unwrap();
    let a = &tree.children[0];
    let b = &a.children[0];
    assert_eq!(b.children.len(), 1);
    let f = &b.children[0];
    assert_eq!(f.name, "f");
    assert_eq!(f.node_type, NodeType::File);
    assert_eq!(f.size, Some(7));
}

#[test]
fn statistics_count_two_dirs_three_files_sixty_bytes() {
    let fs = FakeFs {
        dirs: vec![
            dir(
                "/r",
                1,
                &[
                    ("a.txt", NodeType::File),
                    ("b.txt", NodeType::File),
                    ("sub", NodeType::Directory),
                ],
            ),
            dir("/r/sub", 2, &[("c.txt", NodeType::File)]),
        ],
        files: vec![
            file("/r/a.txt", 10),
            file("/r/b.txt", 20),
            file("/r/sub/c.txt", 30),
        ],
    };
    let (tree, stats) = run(&cfg("/r"), &fs);
    assert!(tree.is_some());
    assert_eq!(stats.dirs, 2);
    assert_eq!(stats.files, 3);
    assert_eq!(stats.bytes, 60);
}

#[test]
fn building_twice_from_one_fixture_is_identical() {
    let fs = depth_fixture();
    let c = cfg("/r");
    let (t1, s1) = run(&c, &fs);
    let (t2, s2) = run(&c, &fs);
    assert!(tree_eq(&t1.unwrap(), &t2.unwrap()));
    assert_eq!(s1, s2);
}

#[test]
fn unreadable_root_fails_the_build() {
    let fs = FakeFs {
        dirs: vec![],
        files: vec![],
    };
    let (tree, _) = run(&cfg("/nowhere"), &fs);
    assert!(tree.is_none());
}

#[test]
fn unreadable_child_is_skipped_silently() {
    // "ghost" appears in the listing but its metadata cannot be read.
    let fs = FakeFs {
        dirs: vec![dir(
            "/r",
            1,
            &[("ghost", NodeType::File), ("ok", NodeType::File)],
        )],
        files: vec![file("/r/ok", 5)],
    };
    let (tree, stats) = run(&cfg("/r"), &fs);
    let tree = tree.unwrap();
    assert_eq!(tree.children.len(), 1);
    assert_eq!(tree.children[0].name, "ok");
    assert_eq!(stats.files, 1);
    assert_eq!(stats.bytes, 5);
}

#[test]
fn unlistable_directory_is_dropped_from_parent() {
    // "broken" probes as a directory but its listing fails.
    let fs = FakeFs {
        dirs: vec![
            dir(
                "/r",
                1,
                &[("broken", NodeType::Directory), ("ok", NodeType::File)],
            ),
            // note: no entry for /r/broken listings; give it metadata only
        ],
        files: vec![file("/r/ok", 5)],
    };
    // metadata for /r/broken is answered inline below: it probes as a
    // directory, but its listing request is answered with a failure.
    let c = cfg("/r");
    let ignorer = setup_gitignore(c.root.as_str(), &Vec::new());
    let mut b = TreeBuilder::new(&c, ignorer).unwrap();
    let mut action = b.next_action();
    let mut steps = 0usize;
    loop {
        assert!(steps < 100_000);
        steps += 1;
        match action {
            Action::Probe(p) => {
                let ev = if p == "/r/broken" {
                    Some(EntryMeta {
                        kind: NodeType::Directory,
                        size: 0,
                        canon: Some(99),
                        link_target: None,
                    })
                } else {
                    fs.meta(&p)
                };
                action = b.step(Event::Meta(ev));
            }
            Action::List(p) => {
                let ev = if p == "/r/broken" { None } else { fs.list(&p) };
                action = b.step(Event::Entries(ev));
            }
            Action::Done | Action::Fail => break,
        }
    }
    let stats = *b.get_stats();
    let tree = b.into_tree().unwrap();
    assert_eq!(tree.children.len(), 1);
    assert_eq!(tree.children[0].name, "ok");
    // the broken directory was counted when it was entered, then dropped
    assert_eq!(stats.dirs, 2);
}

#[test]
fn listing_order_is_preserved() {
    let fs = FakeFs {
        dirs: vec![dir(
            "/r",
            1,
            &[
                ("zeta", NodeType::File),
                ("alpha", NodeType::File),
                ("mid", NodeType::File),
            ],
        )],
        files: vec![file("/r/zeta", 1), file("/r/alpha", 2), file("/r/mid", 3)],
    };
    let (tree, _) = run(&cfg("/r"), &fs);
    let tree = tree.unwrap();
    let names: Vec<&str> = tree.children.iter().map(|c| c.name.as_str()).collect();
    assert_eq!(names, vec!["zeta", "alpha", "mid"]);
}

#[test]
fn invalid_include_pattern_fails_construction() {
    let mut c = cfg("/r");
    c.include_pattern = Some("a{".to_string());
    let ignorer = setup_gitignore(c.root.as_str(), &Vec::new());
    assert!(TreeBuilder::new(&c, ignorer).is_err());
}

#[test]
fn trailing_slash_root_keeps_single_separators() {
    let fs = FakeFs {
        dirs: vec![dir("/r/", 1, &[("a", NodeType::File)])],
        files: vec![file("/r/a", 4)],
    };
    let (tree, _) = run(&cfg("/r/"), &fs);
    let tree = tree.unwrap();
    assert_eq!(tree.name, "r");
    assert_eq!(tree.children.len(), 1);
    assert_eq!(tree.children[0].path, "/r/a");
}

#[test]
fn dot_dot_root_displays_as_the_whole_path() {
    let fs = FakeFs {
        dirs: vec![dir("a/..", 1, &[])],
        files: vec![],
    };
    let (tree, _) = run(&cfg("a/.."), &fs);
    assert_eq!(tree.unwrap().name, "a/..");
}

#[test]
fn trailing_dot_segment_is_skipped_in_the_display_name() {
    let fs = FakeFs {
        dirs: vec![dir("x/.", 1, &[])],
        files: vec![],
    };
    let (tree, _) = run(&cfg("x/."), &fs);
    assert_eq!(tree.unwrap().name, "x");
}
