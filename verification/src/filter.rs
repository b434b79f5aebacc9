use vstd::prelude::*;
use crate::config::Config;
use crate::gitignore::{ignore_match, IgnoreSet};
use crate::glob::{glob_match, glob_pattern_ok, GlobPattern};
use crate::text::{join_rel, spec_join_rel};
use crate::tree::{NodeType, TreeError};

verus! {

/// One raw directory entry as the host read it: the entry's base name and
/// its type, or `None` where the type could not be determined.
#[derive(Debug)]
pub struct RawEntry {
    pub name: String,
    pub kind: Option<NodeType>,
}

/// The mathematical shape of a raw directory entry.
pub ghost struct RawModel {
    pub name: Seq<char>,
    pub kind: Option<NodeType>,
}

impl View for RawEntry {
    type V = RawModel;

    open spec fn view(&self) -> RawModel {
        RawModel { name: self.name@, kind: self.kind }
    }
}

/// The abstract values of a sequence of raw entries, in order.
pub open spec fn raws_view(s: Seq<RawEntry>) -> Seq<RawModel> {
    Seq::new(s.len(), |i: int| s[i]@)
}

impl RawEntry {
    fn duplicate(&self) -> (r: RawEntry)
        ensures
            r@ == self@,
    {
        RawEntry { name: self.name.clone(), kind: self.kind }
    }
}

/// The mathematical shape of an entry filter: the flags and patterns that
/// decide which directory entries appear in the tree.
pub ghost struct FilterModel {
    pub only_directories: bool,
    pub show_all: bool,
    pub include_pattern: Option<Seq<char>>,
    pub exclude_pattern: Option<Seq<char>>,
    pub ignore_root: Seq<char>,
    pub ignore_lines: Seq<Seq<char>>,
}

/// Whether one directory entry passes every gate of the filter, in order:
/// the type gate (directory-only mode rejects non-directories), the include
/// gate and the exclude gate (glob matches on the base name, from which
/// directories are exempt), and the ignore gate (gitignore rules on the
/// root-relative path, unless show-all is set). An entry whose type is
/// unknown is always rejected.
pub open spec fn spec_admits(
    f: FilterModel,
    kind: Option<NodeType>,
    name: Seq<char>,
    rel: Seq<char>,
) -> bool {
    match kind {
        None => false,
        Some(k) => {
            let is_dir = k is Directory;
            &&& !(f.only_directories && !is_dir)
            &&& !(!is_dir && f.include_pattern is Some && !glob_match(
                f.include_pattern->0,
                name,
            ))
            &&& !(!is_dir && f.exclude_pattern is Some && glob_match(
                f.exclude_pattern->0,
                name,
            ))
            &&& !(!f.show_all && ignore_match(f.ignore_root, f.ignore_lines, rel, is_dir))
        },
    }
}

/// The raw entries of one directory that the filter admits, in listing
/// order. Each entry's relative path is the directory's relative path
/// extended by the entry's name.
pub open spec fn spec_filter_entries(
    f: FilterModel,
    entries: Seq<RawModel>,
    dir_rel: Seq<char>,
) -> Seq<RawModel>
    decreases entries.len(),
{
    if entries.len() == 0 {
        Seq::empty()
    } else {
        let rest = spec_filter_entries(f, entries.drop_last(), dir_rel);
        let e = entries.last();
        if spec_admits(f, e.kind, e.name, spec_join_rel(dir_rel, e.name)) {
            rest.push(e)
        } else {
            rest
        }
    }
}

/// Filter composition: directories are exempt from the include and exclude
/// gates — a directory entry is admitted exactly as it would be with no
/// patterns set at all — while in directory-only mode a non-directory
/// entry is rejected whatever the patterns say of its name.
pub proof fn lemma_filter_composition(
    f: FilterModel,
    kind: Option<NodeType>,
    name: Seq<char>,
    rel: Seq<char>,
)
    ensures
        kind == Some(NodeType::Directory) ==> spec_admits(f, kind, name, rel) == spec_admits(
            FilterModel { include_pattern: None, exclude_pattern: None, ..f },
            kind,
            name,
            rel,
        ),
        (f.only_directories && kind is Some && !(kind->0 is Directory)) ==> !spec_admits(
            f,
            kind,
            name,
            rel,
        ),
{
}

/// Ignore precedence: with show-all set the ignore rules are never
/// consulted, and without it they decide last — an entry is admitted
/// exactly when it would be admitted under show-all and its relative path
/// is not ignored.
pub proof fn lemma_ignore_precedence(
    f: FilterModel,
    kind: NodeType,
    name: Seq<char>,
    rel: Seq<char>,
)
    ensures
        ({
            let shown = FilterModel { show_all: true, ..f };
            let hidden = FilterModel { show_all: false, ..f };
            spec_admits(hidden, Some(kind), name, rel) == (spec_admits(shown, Some(kind), name, rel)
                && !ignore_match(f.ignore_root, f.ignore_lines, rel, kind is Directory))
        }),
{
}

/// The filter model a configuration and an ignore-rule set call for.
pub open spec fn spec_filter_model(
    cfg: Config,
    ignore_root: Seq<char>,
    ignore_lines: Seq<Seq<char>>,
) -> FilterModel {
    FilterModel {
        only_directories: cfg.directory,
        show_all: cfg.show_all,
        include_pattern: match cfg.include_pattern {
            Some(s) => Some(s@),
            None => None,
        },
        exclude_pattern: match cfg.exclude_pattern {
            Some(s) => Some(s@),
            None => None,
        },
        ignore_root,
        ignore_lines,
    }
}

/// A filter for file system entries: the single source of truth for whether
/// a directory entry appears in the tree. Immutable after construction.
pub struct FileFilter {
    only_directories: bool,
    show_all: bool,
    include_pattern: Option<GlobPattern>,
    exclude_pattern: Option<GlobPattern>,
    ignorer: IgnoreSet,
}

impl View for FileFilter {
    type V = FilterModel;

    closed spec fn view(&self) -> FilterModel {
        FilterModel {
            only_directories: self.only_directories,
            show_all: self.show_all,
            include_pattern: match self.include_pattern {
                Some(p) => Some(p.pattern()),
                None => None,
            },
            exclude_pattern: match self.exclude_pattern {
                Some(p) => Some(p.pattern()),
                None => None,
            },
            ignore_root: self.ignorer.root_view(),
            ignore_lines: self.ignorer.lines_view(),
        }
    }
}

impl FileFilter {
    /// Creates a filter from the configuration's flags and patterns and a
    /// prepared ignore-rule set. Fails exactly when a supplied glob pattern
    /// is not well-formed.
    pub fn new(cfg: &Config, ignorer: IgnoreSet) -> (r: Result<FileFilter, TreeError>)
        ensures
            (r is Ok) == ((cfg.include_pattern is Some ==> glob_pattern_ok(
                cfg.include_pattern->0@,
            )) && (cfg.exclude_pattern is Some ==> glob_pattern_ok(cfg.exclude_pattern->0@))),
            r matches Ok(f) ==> f@ == spec_filter_model(
                *cfg,
                ignorer.root_view(),
                ignorer.lines_view(),
            ),
            r matches Err(e) ==> e is InvalidGlob,
    {
        let include_pattern = match &cfg.include_pattern {
            Some(text) => match GlobPattern::compile(text.as_str()) {
                Some(p) => Some(p),
                None => {
                    return Err(TreeError::InvalidGlob);
                },
            },
            None => None,
        };
        let exclude_pattern = match &cfg.exclude_pattern {
            Some(text) => match GlobPattern::compile(text.as_str()) {
                Some(p) => Some(p),
                None => {
                    return Err(TreeError::InvalidGlob);
                },
            },
            None => None,
        };
        Ok(
            FileFilter {
                only_directories: cfg.directory,
                show_all: cfg.show_all,
                include_pattern,
                exclude_pattern,
                ignorer,
            },
        )
    }

    /// Decides whether one directory entry should appear in the tree, as
    /// `spec_admits` describes: `kind` is the entry's type if it could be
    /// read, `name` its base name, and `rel` its path relative to the
    /// traversal root.
    pub fn should_include(&self, kind: Option<NodeType>, name: &str, rel: &str) -> (r: bool)
        ensures
            r == spec_admits(self@, kind, name@, rel@),
    {
        let k = match kind {
            Some(k) => k,
            None => {
                return false;
            },
        };
        let is_dir = matches!(k, NodeType::Directory);
        if self.only_directories && !is_dir {
            return false;
        }
        if !is_dir {
            if let Some(p) = &self.include_pattern {
                if !p.is_match(name) {
                    return false;
                }
            }
            if let Some(p) = &self.exclude_pattern {
                if p.is_match(name) {
                    return false;
                }
            }
        }
        if !self.show_all {
            if self.ignorer.is_ignored(rel, is_dir) {
                return false;
            }
        }
        true
    }

    /// Filters one directory's raw entries, keeping exactly the admitted
    /// ones in listing order. `dir_rel` is the directory's own path
    /// relative to the traversal root.
    pub fn filter_entries(&self, entries: &Vec<RawEntry>, dir_rel: &str) -> (r: Vec<RawEntry>)
        ensures
            raws_view(r@) == spec_filter_entries(self@, raws_view(entries@), dir_rel@),
    {
        let mut out: Vec<RawEntry> = Vec::new();
        let n = entries.len();
        let mut i: usize = 0;
        proof {
            assert(raws_view(entries@.take(0)) =~= Seq::<RawModel>::empty());
            assert(raws_view(out@) =~= spec_filter_entries(
                self@,
                raws_view(entries@.take(0)),
                dir_rel@,
            ));
        }
        while i < n
            invariant
                i <= n,
                n == entries@.len(),
                raws_view(out@) == spec_filter_entries(
                    self@,
                    raws_view(entries@.take(i as int)),
                    dir_rel@,
                ),
            decreases n - i,
        {
            let e = &entries[i];
            let rel = join_rel(dir_rel, e.name.as_str());
            let keep = self.should_include(e.kind, e.name.as_str(), rel.as_str());
            proof {
                let prev = raws_view(entries@.take(i as int));
                let cur = raws_view(entries@.take(i + 1));
                assert(cur.drop_last() =~= prev);
                assert(cur.last() == entries@[i as int]@);
            }
            if keep {
                out.push(e.duplicate());
                proof {
                    assert(raws_view(out@) =~= spec_filter_entries(
                        self@,
                        raws_view(entries@.take(i + 1)),
                        dir_rel@,
                    ));
                }
            } else {
                proof {
                    assert(raws_view(out@) =~= spec_filter_entries(
                        self@,
                        raws_view(entries@.take(i + 1)),
                        dir_rel@,
                    ));
                }
            }
            i = i + 1;
        }
        proof {
            assert(entries@.take(n as int) =~= entries@);
        }
        out
    }
}

} // verus!
