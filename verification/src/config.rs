use vstd::prelude::*;
use vstd::string::StringExecFns;
use crate::bytes::Format;
use crate::text::{eq_str, lower_of, to_lowercase};

verus! {

/// The supported output formats for the rendered tree.
#[derive(Clone, Copy, Debug, PartialEq, Eq, Structural)]
pub enum OutputFormat {
    Text,
    Json,
}

/// Which output format a user-supplied keyword selects: its Unicode
/// lowercase form must spell one of the accepted names.
pub open spec fn spec_parse_output_format(s: Seq<char>) -> Option<OutputFormat> {
    if lower_of(s) == "text"@ {
        Some(OutputFormat::Text)
    } else if lower_of(s) == "json"@ {
        Some(OutputFormat::Json)
    } else {
        None
    }
}

impl OutputFormat {
    /// Parses an output-format keyword, ignoring case: the input's
    /// Unicode lowercase form is matched against the accepted names.
    pub fn parse(s: &str) -> (r: Option<OutputFormat>)
        ensures
            r == spec_parse_output_format(s@),
    {
        let low = to_lowercase(s);
        if eq_str(low.as_str(), "text") {
            Some(OutputFormat::Text)
        } else if eq_str(low.as_str(), "json") {
            Some(OutputFormat::Json)
        } else {
            None
        }
    }
}

/// The final, merged configuration from all sources.
pub struct Config {
    /// The root directory to start the tree from.
    pub root: String,
    /// Whether to show the full path for each entry.
    pub full_path: bool,
    /// The prefix string to use for each level of the tree.
    pub prefix: String,
    /// The prefix string to use for the last entry of each branch.
    pub last_prefix: String,
    /// The prefix string to use for child entries.
    pub child_prefix: String,
    /// Whether to show all files and directories, including ignored ones.
    pub show_all: bool,
    /// A pattern to include files that match the glob syntax.
    pub include_pattern: Option<String>,
    /// A pattern to exclude files that match the glob syntax.
    pub exclude_pattern: Option<String>,
    /// Custom ignore files.
    pub ignore: Vec<String>,
    /// Whether to show only directories.
    pub directory: bool,
    /// Whether to show a summary of directory and file counts.
    pub summary: bool,
    /// Whether to show the file size next to the name.
    pub size: bool,
    /// The unit to use for the file size.
    pub size_format: Format,
    /// The maximum depth to traverse the directory tree.
    pub max_depth: Option<usize>,
    /// The output format for the tree.
    pub format: OutputFormat,
    /// Whether to disable ANSI colors in the output.
    pub no_color: bool,
}

impl Default for Config {
    /// The base configuration: the current directory, default branch
    /// prefixes, nothing hidden shown, no patterns, no depth limit, plain
    /// text output in bytes, colors enabled.
    fn default() -> (r: Self)
        ensures
            r.root@ == "."@,
            !r.full_path,
            r.prefix@ == "\u{251c}\u{2500}\u{2500} "@,
            r.last_prefix@ == "\u{2514}\u{2500}\u{2500} "@,
            r.child_prefix@ == "\u{2502}   "@,
            !r.show_all,
            r.include_pattern is None,
            r.exclude_pattern is None,
            r.ignore@.len() == 0,
            !r.directory,
            !r.summary,
            !r.size,
            r.size_format is Bytes,
            r.max_depth is None,
            r.format is Text,
            !r.no_color,
    {
        Config {
            root: ".".to_owned(),
            full_path: false,
            prefix: "\u{251c}\u{2500}\u{2500} ".to_owned(),
            last_prefix: "\u{2514}\u{2500}\u{2500} ".to_owned(),
            child_prefix: "\u{2502}   ".to_owned(),
            show_all: false,
            include_pattern: None,
            exclude_pattern: None,
            ignore: Vec::new(),
            directory: false,
            summary: false,
            size: false,
            size_format: Format::Bytes,
            max_depth: None,
            format: OutputFormat::Text,
            no_color: false,
        }
    }
}

/// A builder for constructing a `Config`.
///
/// Settings from several sources can be merged, with earlier sources taking
/// precedence, before defaults fill the gaps.
pub struct ConfigBuilder {
    pub root: Option<String>,
    pub full_path: bool,
    pub prefix: Option<String>,
    pub last_prefix: Option<String>,
    pub child_prefix: Option<String>,
    pub show_all: bool,
    pub include_pattern: Option<String>,
    pub exclude_pattern: Option<String>,
    pub ignore: Option<Vec<String>>,
    pub directory: bool,
    pub summary: bool,
    pub size: bool,
    pub size_format: Option<Format>,
    pub max_depth: Option<usize>,
    pub format: Option<OutputFormat>,
    pub no_color: bool,
}

impl Default for ConfigBuilder {
    /// A builder with nothing set.
    fn default() -> (r: Self)
        ensures
            r.root is None,
            !r.full_path,
            r.prefix is None,
            r.last_prefix is None,
            r.child_prefix is None,
            !r.show_all,
            r.include_pattern is None,
            r.exclude_pattern is None,
            r.ignore is None,
            !r.directory,
            !r.summary,
            !r.size,
            r.size_format is None,
            r.max_depth is None,
            r.format is None,
            !r.no_color,
    {
        ConfigBuilder {
            root: None,
            full_path: false,
            prefix: None,
            last_prefix: None,
            child_prefix: None,
            show_all: false,
            include_pattern: None,
            exclude_pattern: None,
            ignore: None,
            directory: false,
            summary: false,
            size: false,
            size_format: None,
            max_depth: None,
            format: None,
            no_color: false,
        }
    }
}

/// The merge of two builders: an option keeps the first builder's value
/// unless it is unset there, and a flag is on if it is on in either.
pub open spec fn spec_merge(a: ConfigBuilder, b: ConfigBuilder) -> ConfigBuilder {
    ConfigBuilder {
        root: if a.root is Some {
            a.root
        } else {
            b.root
        },
        full_path: a.full_path || b.full_path,
        prefix: if a.prefix is Some {
            a.prefix
        } else {
            b.prefix
        },
        last_prefix: if a.last_prefix is Some {
            a.last_prefix
        } else {
            b.last_prefix
        },
        child_prefix: if a.child_prefix is Some {
            a.child_prefix
        } else {
            b.child_prefix
        },
        show_all: a.show_all || b.show_all,
        include_pattern: if a.include_pattern is Some {
            a.include_pattern
        } else {
            b.include_pattern
        },
        exclude_pattern: if a.exclude_pattern is Some {
            a.exclude_pattern
        } else {
            b.exclude_pattern
        },
        ignore: if a.ignore is Some {
            a.ignore
        } else {
            b.ignore
        },
        directory: a.directory || b.directory,
        summary: a.summary || b.summary,
        size: a.size || b.size,
        size_format: if a.size_format is Some {
            a.size_format
        } else {
            b.size_format
        },
        max_depth: if a.max_depth is Some {
            a.max_depth
        } else {
            b.max_depth
        },
        format: if a.format is Some {
            a.format
        } else {
            b.format
        },
        no_color: a.no_color || b.no_color,
    }
}

/// That a configuration is the given builder with every unset option
/// filled by its default.
pub open spec fn spec_built_from(b: ConfigBuilder, r: Config) -> bool {
    &&& (b.root is Some ==> r.root == b.root->0) && (b.root is None ==> r.root@ == "."@)
    &&& r.full_path == b.full_path
    &&& (b.prefix is Some ==> r.prefix == b.prefix->0) && (b.prefix is None ==> r.prefix@
        == "\u{251c}\u{2500}\u{2500} "@)
    &&& (b.last_prefix is Some ==> r.last_prefix == b.last_prefix->0) && (b.last_prefix is None
        ==> r.last_prefix@ == "\u{2514}\u{2500}\u{2500} "@)
    &&& (b.child_prefix is Some ==> r.child_prefix == b.child_prefix->0) && (
    b.child_prefix is None ==> r.child_prefix@ == "\u{2502}   "@)
    &&& r.show_all == b.show_all
    &&& r.include_pattern == b.include_pattern
    &&& r.exclude_pattern == b.exclude_pattern
    &&& (b.ignore is Some ==> r.ignore == b.ignore->0) && (b.ignore is None ==> r.ignore@.len()
        == 0)
    &&& r.directory == b.directory
    &&& r.summary == b.summary
    &&& r.size == b.size
    &&& (b.size_format is Some ==> r.size_format == b.size_format->0) && (b.size_format is None
        ==> r.size_format is Bytes)
    &&& r.max_depth == b.max_depth
    &&& (b.format is Some ==> r.format == b.format->0) && (b.format is None ==> r.format
        is Text)
    &&& r.no_color == b.no_color
}

impl ConfigBuilder {
    /// Merges another builder into this one. Values already set here win:
    /// an option keeps its own value unless it is unset, and a flag is on if
    /// it is on in either builder.
    pub fn merge(self, other: ConfigBuilder) -> (r: Self)
        ensures
            r == spec_merge(self, other),
    {
        ConfigBuilder {
            root: match self.root {
                Some(v) => Some(v),
                None => other.root,
            },
            full_path: self.full_path || other.full_path,
            prefix: match self.prefix {
                Some(v) => Some(v),
                None => other.prefix,
            },
            last_prefix: match self.last_prefix {
                Some(v) => Some(v),
                None => other.last_prefix,
            },
            child_prefix: match self.child_prefix {
                Some(v) => Some(v),
                None => other.child_prefix,
            },
            show_all: self.show_all || other.show_all,
            include_pattern: match self.include_pattern {
                Some(v) => Some(v),
                None => other.include_pattern,
            },
            exclude_pattern: match self.exclude_pattern {
                Some(v) => Some(v),
                None => other.exclude_pattern,
            },
            ignore: match self.ignore {
                Some(v) => Some(v),
                None => other.ignore,
            },
            directory: self.directory || other.directory,
            summary: self.summary || other.summary,
            size: self.size || other.size,
            size_format: match self.size_format {
                Some(v) => Some(v),
                None => other.size_format,
            },
            max_depth: match self.max_depth {
                Some(v) => Some(v),
                None => other.max_depth,
            },
            format: match self.format {
                Some(v) => Some(v),
                None => other.format,
            },
            no_color: self.no_color || other.no_color,
        }
    }

    /// Builds the final `Config`, filling every unset option with its
    /// default.
    pub fn build(self) -> (r: Config)
        ensures
            spec_built_from(self, r),
    {
        let defaults = Config::default();
        Config {
            root: match self.root {
                Some(v) => v,
                None => defaults.root,
            },
            full_path: self.full_path,
            prefix: match self.prefix {
                Some(v) => v,
                None => defaults.prefix,
            },
            last_prefix: match self.last_prefix {
                Some(v) => v,
                None => defaults.last_prefix,
            },
            child_prefix: match self.child_prefix {
                Some(v) => v,
                None => defaults.child_prefix,
            },
            show_all: self.show_all,
            include_pattern: self.include_pattern,
            exclude_pattern: self.exclude_pattern,
            ignore: match self.ignore {
                Some(v) => v,
                None => defaults.ignore,
            },
            directory: self.directory,
            summary: self.summary,
            size: self.size,
            size_format: match self.size_format {
                Some(v) => v,
                None => defaults.size_format,
            },
            max_depth: self.max_depth,
            format: match self.format {
                Some(v) => v,
                None => defaults.format,
            },
            no_color: self.no_color,
        }
    }
}

/// Composes the resolved configuration from its two sources: the primary
/// builder (the command line) merged over the secondary one (the
/// configuration file) unless file settings are disabled, then built with
/// every unset option filled by its default.
pub fn resolve_config(primary: ConfigBuilder, secondary: ConfigBuilder, use_secondary: bool) -> (r:
    Config)
    ensures
        spec_built_from(
            if use_secondary {
                spec_merge(primary, secondary)
            } else {
                primary
            },
            r,
        ),
{
    if use_secondary {
        primary.merge(secondary).build()
    } else {
        primary.build()
    }
}

/// The settings a configuration file may carry. Every field is optional, so
/// users only state what they want to override.
pub struct FileConfig {
    pub full_path: Option<bool>,
    pub prefix: Option<String>,
    pub last_prefix: Option<String>,
    pub child_prefix: Option<String>,
    pub show_all: Option<bool>,
    pub include_pattern: Option<String>,
    pub exclude_pattern: Option<String>,
    pub ignore: Option<Vec<String>>,
    pub directory: Option<bool>,
    pub summary: Option<bool>,
    pub size: Option<bool>,
    pub size_format: Option<Format>,
    pub max_depth: Option<usize>,
    pub format: Option<OutputFormat>,
    pub no_color: Option<bool>,
}

impl FileConfig {
    /// Turns file-based settings into a builder. A file cannot set the
    /// root; an absent flag counts as off.
    pub fn into_builder(self) -> (r: ConfigBuilder)
        ensures
            r.root is None,
            r.full_path == (self.full_path == Some(true)),
            r.prefix == self.prefix,
            r.last_prefix == self.last_prefix,
            r.child_prefix == self.child_prefix,
            r.show_all == (self.show_all == Some(true)),
            r.include_pattern == self.include_pattern,
            r.exclude_pattern == self.exclude_pattern,
            r.ignore == self.ignore,
            r.directory == (self.directory == Some(true)),
            r.summary == (self.summary == Some(true)),
            r.size == (self.size == Some(true)),
            r.size_format == self.size_format,
            r.max_depth == self.max_depth,
            r.format == self.format,
            r.no_color == (self.no_color == Some(true)),
    {
        ConfigBuilder {
            root: None,
            full_path: match self.full_path {
                Some(b) => b,
                None => false,
            },
            prefix: self.prefix,
            last_prefix: self.last_prefix,
            child_prefix: self.child_prefix,
            show_all: match self.show_all {
                Some(b) => b,
                None => false,
            },
            include_pattern: self.include_pattern,
            exclude_pattern: self.exclude_pattern,
            ignore: self.ignore,
            directory: match self.directory {
                Some(b) => b,
                None => false,
            },
            summary: match self.summary {
                Some(b) => b,
                None => false,
            },
            size: match self.size {
                Some(b) => b,
                None => false,
            },
            size_format: self.size_format,
            max_depth: self.max_depth,
            format: self.format,
            no_color: match self.no_color {
                Some(b) => b,
                None => false,
            },
        }
    }
}

} // verus!
