use fstree::{
    Ansi, AnsiString, Config, Format, Formatter, NodeType, OutputFormat, Statistics,
    TextFormatter, TreeNode,
};

fn leaf(name: &str, path: &str, size: u64) -> TreeNode {
    TreeNode {
        name: name.to_string(),
        path: path.to_string(),
        node_type: NodeType::File,
        size: Some(size),
        link_target: None,
        children: Vec::new(),
    }
}

fn directory(name: &str, path: &str, children: Vec<TreeNode>) -> TreeNode {
    TreeNode {
        name: name.to_string(),
        path: path.to_string(),
        node_type: NodeType::Directory,
        size: None,
        link_target: None,
        children,
    }
}

fn plain_cfg() -> Config {
    let mut c = Config::default();
    c.no_color = true;
    c
}

#[test]
fn one_mebibyte_formats_as_one_unit() {
    assert_eq!(fstree::bytes::format(1_048_576, &Format::MegaBytes), "1.00MB");
}

#[test]
fn byte_formatting_examples() {
    assert_eq!(fstree::bytes::format(0, &Format::Bytes), "0.00B");
    assert_eq!(fstree::bytes::format(123, &Format::Bytes), "123.00B");
    assert_eq!(fstree::bytes::format(1536, &Format::KiloBytes), "1.50KB");
    // 896 / 1024 = 0.875 exactly: the tie rounds to the even hundredth
    assert_eq!(fstree::bytes::format(896, &Format::KiloBytes), "0.88KB");
    assert_eq!(fstree::bytes::format(1035, &Format::KiloBytes), "1.01KB");
    assert_eq!(fstree::bytes::format(1_073_741_824, &Format::GigaBytes), "1.00GB");
    assert_eq!(fstree::bytes::format(1_152_921_504_606_846_976, &Format::ExaBytes), "1.00EB");
}

#[test]
fn unit_suffixes() {
    assert_eq!(Format::Bytes.unit(), "B");
    assert_eq!(Format::KiloBytes.unit(), "KB");
    assert_eq!(Format::MegaBytes.unit(), "MB");
    assert_eq!(Format::GigaBytes.unit(), "GB");
    assert_eq!(Format::TeraBytes.unit(), "TB");
    assert_eq!(Format::PetaBytes.unit(), "PB");
    assert_eq!(Format::ExaBytes.unit(), "EB");
}

#[test]
fn parse_size_format_keywords() {
    assert!(matches!(Format::parse("kb"), Some(Format::KiloBytes)));
    assert!(matches!(Format::parse("KB"), Some(Format::KiloBytes)));
    assert!(matches!(Format::parse("MegaBytes"), Some(Format::MegaBytes)));
    assert!(matches!(Format::parse("b"), Some(Format::Bytes)));
    assert!(matches!(Format::parse("exa"), Some(Format::ExaBytes)));
    assert!(Format::parse("parsec").is_none());
}

#[test]
fn parse_output_format_keywords() {
    assert_eq!(OutputFormat::parse("text"), Some(OutputFormat::Text));
    assert_eq!(OutputFormat::parse("JSON"), Some(OutputFormat::Json));
    assert_eq!(OutputFormat::parse("xml"), None);
}

#[test]
fn parsing_folds_unicode_case() {
    // The Kelvin sign lowercases to a plain k, so it spells kilobytes.
    assert!(matches!(Format::parse("\u{212a}b"), Some(Format::KiloBytes)));
    assert!(matches!(Format::parse("\u{212a}"), Some(Format::KiloBytes)));
    // A capital with no keyword under its lowercase stays rejected.
    assert!(Format::parse("\u{212a}x").is_none());
}

#[test]
fn plain_text_tree_rendering() {
    let tree = directory(
        "r",
        "/r",
        vec![
            leaf("a", "/r/a", 10),
            directory("s", "/r/s", vec![leaf("b", "/r/s/b", 20)]),
        ],
    );
    let cfg = plain_cfg();
    let stats = Statistics::default();
    let out = TextFormatter.format(&tree, &cfg, &stats);
    let expected = "r/\n\u{251c}\u{2500}\u{2500} a\n\u{2514}\u{2500}\u{2500} s/\n    \u{2514}\u{2500}\u{2500} b\n";
    assert_eq!(out, expected);
}

#[test]
fn sizes_and_summary_are_appended_on_request() {
    let tree = directory("r", "/r", vec![leaf("a", "/r/a", 10)]);
    let mut cfg = plain_cfg();
    cfg.size = true;
    cfg.summary = true;
    let mut stats = Statistics::default();
    stats.add_dirs(1);
    stats.add_files(1);
    stats.add_byte_size(10);
    let out = TextFormatter.format(&tree, &cfg, &stats);
    let expected =
        "r/\n\u{2514}\u{2500}\u{2500} a (10.00B)\n\n1 directories, 1 files (10 bytes)";
    assert_eq!(out, expected);
}

#[test]
fn full_path_mode_uses_paths() {
    let tree = directory("r", "/r", vec![leaf("a", "/r/a", 1)]);
    let mut cfg = plain_cfg();
    cfg.full_path = true;
    let out = TextFormatter.format(&tree, &cfg, &Statistics::default());
    assert_eq!(out, "/r/\n\u{2514}\u{2500}\u{2500} /r/a\n");
}

#[test]
fn symlink_renders_target_or_placeholder() {
    let mut link = leaf("l", "/r/l", 0);
    link.node_type = NodeType::SymbolicLink;
    link.link_target = Some("/elsewhere".to_string());
    let mut broken = leaf("m", "/r/m", 0);
    broken.node_type = NodeType::SymbolicLink;
    let tree = directory("r", "/r", vec![link, broken]);
    let out = TextFormatter.format(&tree, &plain_cfg(), &Statistics::default());
    let expected = "r/\n\u{251c}\u{2500}\u{2500} l -> /elsewhere\n\u{2514}\u{2500}\u{2500} m -> <unreadable>\n";
    assert_eq!(out, expected);
}

#[test]
fn colored_rendering_wraps_names_in_sgr_codes() {
    let tree = directory("r", "/r", vec![leaf("a", "/r/a", 1)]);
    let mut cfg = Config::default();
    cfg.no_color = false;
    let out = TextFormatter.format(&tree, &cfg, &Statistics::default());
    let expected = format!(
        "\u{1b}[1;43m r \u{1b}[0m\n\u{2514}\u{2500}\u{2500} \u{1b}[97ma\u{1b}[0m\n"
    );
    assert_eq!(out, expected);
}

#[test]
fn ansi_wrapping_joins_codes_with_semicolons() {
    assert_eq!("x".ansi(&[Ansi::Red]), "\u{1b}[31mx\u{1b}[0m");
    assert_eq!(
        "hi".ansi(&[Ansi::Bold, Ansi::BgYellow]),
        "\u{1b}[1;43mhi\u{1b}[0m"
    );
    assert_eq!("e".ansi(&[]), "\u{1b}[me\u{1b}[0m");
    assert_eq!(
        "s".ansi(&[Ansi::BgBrightWhite]),
        "\u{1b}[107ms\u{1b}[0m"
    );
}

#[test]
fn ansi_codes_match_sgr_numbers() {
    assert_eq!(Ansi::Reset.code(), 0);
    assert_eq!(Ansi::Bold.code(), 1);
    assert_eq!(Ansi::BgYellow.code(), 43);
    assert_eq!(Ansi::BrightWhite.code(), 97);
    assert_eq!(Ansi::BrightCyan.code(), 96);
    assert_eq!(Ansi::BgBrightWhite.code(), 107);
}

#[test]
fn statistics_summary_line() {
    let mut s = Statistics::default();
    s.add_dirs(2);
    s.add_files(3);
    s.add_byte_size(60);
    assert_eq!(s.summary(), "2 directories, 3 files (60 bytes)");
}

#[test]
fn statistics_saturate_instead_of_overflowing() {
    let mut s = Statistics::default();
    s.add_byte_size(u64::MAX);
    s.add_byte_size(10);
    assert_eq!(s.bytes, u64::MAX);
    s.add_dirs(usize::MAX);
    s.add_dirs(1);
    assert_eq!(s.dirs, usize::MAX);
    assert_eq!(s.files, 0);
}
