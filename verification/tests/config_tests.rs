use fstree::{resolve_config, Config, ConfigBuilder, FileConfig, Format, OutputFormat};

fn builder() -> ConfigBuilder {
    ConfigBuilder::default()
}

#[test]
fn defaults_fill_unset_options() {
    let c: Config = builder().build();
    assert_eq!(c.root, ".");
    assert_eq!(c.prefix, "\u{251c}\u{2500}\u{2500} ");
    assert_eq!(c.last_prefix, "\u{2514}\u{2500}\u{2500} ");
    assert_eq!(c.child_prefix, "\u{2502}   ");
    assert!(!c.show_all);
    assert!(c.include_pattern.is_none());
    assert!(c.max_depth.is_none());
    assert!(matches!(c.size_format, Format::Bytes));
    assert_eq!(c.format, OutputFormat::Text);
    assert!(!c.no_color);
}

#[test]
fn merge_prefers_the_first_source() {
    let mut a = builder();
    a.root = Some("/a".to_string());
    a.show_all = true;
    let mut b = builder();
    b.root = Some("/b".to_string());
    b.max_depth = Some(4);
    b.directory = true;
    let m = a.merge(b);
    assert_eq!(m.root.as_deref(), Some("/a"));
    assert!(m.show_all);
    assert!(m.directory);
    assert_eq!(m.max_depth, Some(4));
}

#[test]
fn merged_flags_are_or_combined() {
    let mut a = builder();
    a.no_color = true;
    let mut b = builder();
    b.summary = true;
    let m = a.merge(b);
    assert!(m.no_color);
    assert!(m.summary);
    assert!(!m.size);
}

#[test]
fn file_config_cannot_set_root() {
    let mut fc = FileConfig {
        full_path: None,
        prefix: None,
        last_prefix: None,
        child_prefix: None,
        show_all: Some(true),
        include_pattern: None,
        exclude_pattern: None,
        ignore: None,
        directory: None,
        summary: None,
        size: None,
        size_format: None,
        max_depth: Some(3),
        format: None,
        no_color: None,
    };
    fc.include_pattern = Some("*.rs".to_string());
    let b = fc.into_builder();
    assert!(b.root.is_none());
    assert!(b.show_all);
    assert_eq!(b.max_depth, Some(3));
    assert_eq!(b.include_pattern.as_deref(), Some("*.rs"));
    assert!(!b.directory);
}

#[test]
fn cli_overrides_file_settings() {
    let mut cli = builder();
    cli.max_depth = Some(1);
    let fc = FileConfig {
        full_path: Some(true),
        prefix: Some("+ ".to_string()),
        last_prefix: None,
        child_prefix: None,
        show_all: None,
        include_pattern: None,
        exclude_pattern: None,
        ignore: None,
        directory: None,
        summary: None,
        size: None,
        size_format: None,
        max_depth: Some(9),
        format: None,
        no_color: None,
    };
    let c = cli.merge(fc.into_builder()).build();
    assert_eq!(c.max_depth, Some(1));
    assert!(c.full_path);
    assert_eq!(c.prefix, "+ ");
}

#[test]
fn resolve_config_merges_only_when_asked() {
    let mut cli = builder();
    cli.max_depth = Some(1);
    let mut file = builder();
    file.max_depth = Some(9);
    file.show_all = true;
    let c = resolve_config(cli, file, true);
    assert_eq!(c.max_depth, Some(1));
    assert!(c.show_all);

    let mut cli2 = builder();
    cli2.max_depth = Some(1);
    let mut file2 = builder();
    file2.show_all = true;
    let c2 = resolve_config(cli2, file2, false);
    assert_eq!(c2.max_depth, Some(1));
    assert!(!c2.show_all);
    assert_eq!(c2.root, ".");
}
