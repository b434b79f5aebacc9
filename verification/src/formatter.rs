use vstd::prelude::*;
use vstd::string::StringExecFns;
use crate::ansi::{spec_ansi_wrap, Ansi, AnsiString};
use crate::bytes::spec_format_bytes;
use crate::config::Config;
use crate::stats::{spec_summary, Statistics};
use crate::tree::{NodeModel, NodeType, TreeNode};

verus! {

broadcast use vstd::std_specs::vec::group_vec_axioms, vstd::seq::group_seq_axioms;

/// The display text of one node: the path in full-path mode, otherwise the
/// base name; a plain directory gets a trailing separator, a colored one a
/// padded yellow badge; a symbolic link shows its target, or a placeholder
/// where the target could not be read.
pub open spec fn spec_display_name(n: NodeModel, cfg: Config, ansi: bool) -> Seq<char> {
    let name = if cfg.full_path {
        n.path
    } else {
        n.name
    };
    match n.node_type {
        NodeType::File => if ansi {
            spec_ansi_wrap(name, seq![Ansi::BrightWhite])
        } else {
            name
        },
        NodeType::Directory => if ansi {
            spec_ansi_wrap(seq![' '] + name + seq![' '], seq![Ansi::Bold, Ansi::BgYellow])
        } else {
            name + seq!['/']
        },
        NodeType::SymbolicLink => {
            let target = match n.link_target {
                Some(t) => t,
                None => "<unreadable>"@,
            };
            let txt = name + " -> "@ + target;
            if ansi {
                spec_ansi_wrap(txt, seq![Ansi::BrightCyan])
            } else {
                txt
            }
        },
    }
}

/// The size annotation appended to a line when sizes are shown and the
/// node has one.
pub open spec fn spec_size_suffix(n: NodeModel, cfg: Config) -> Seq<char> {
    if cfg.size && n.size is Some {
        " ("@ + spec_format_bytes(n.size->0, cfg.size_format) + seq![')']
    } else {
        Seq::empty()
    }
}

/// One rendered tree line below the root: indentation, the branch string
/// (the last child of a parent gets the closing one), the display name and
/// the size annotation — followed by the node's rendered children.
pub open spec fn spec_format_node(
    n: NodeModel,
    prefix: Seq<char>,
    is_last: bool,
    cfg: Config,
) -> Seq<char>
    decreases n, 0int,
{
    let branch = if is_last {
        cfg.last_prefix@
    } else {
        cfg.prefix@
    };
    let line = prefix + branch + spec_display_name(n, cfg, !cfg.no_color) + spec_size_suffix(
        n,
        cfg,
    ) + seq!['\n'];
    let child_prefix = if is_last {
        prefix + "    "@
    } else {
        prefix + cfg.child_prefix@
    };
    line + spec_format_children(n.children, 0, child_prefix, cfg)
}

/// The rendered children of a node from index `i` on, each knowing whether
/// it is the last.
pub open spec fn spec_format_children(
    children: Seq<NodeModel>,
    i: int,
    prefix: Seq<char>,
    cfg: Config,
) -> Seq<char>
    decreases children, children.len() - i,
{
    if 0 <= i < children.len() {
        proof {
            assert(decreases_to!(children => children[i]));
        }
        spec_format_node(children[i], prefix, i == children.len() - 1, cfg)
            + spec_format_children(children, i + 1, prefix, cfg)
    } else {
        Seq::empty()
    }
}

/// The whole text rendering: the root line without indentation or branch,
/// its children below it, and — when a summary is asked for — a blank line
/// and the statistics report.
pub open spec fn spec_text_format(n: NodeModel, cfg: Config, stats: Statistics) -> Seq<char> {
    let head = spec_display_name(n, cfg, !cfg.no_color) + spec_size_suffix(n, cfg) + seq!['\n'];
    let body = head + spec_format_children(n.children, 0, Seq::empty(), cfg);
    if cfg.summary {
        body + seq!['\n'] + spec_summary(stats)
    } else {
        body
    }
}

/// The interface of an output formatter: it turns the finished tree and
/// statistics into text, and says in its specification exactly which text.
pub trait Formatter {
    /// The exact text this formatter produces.
    spec fn spec_format(&self, node: NodeModel, cfg: Config, stats: Statistics) -> Seq<char>;

    /// Formats the given tree and statistics under the configuration.
    fn format(&self, node: &TreeNode, cfg: &Config, stats: &Statistics) -> (r: String)
        ensures
            r@ == self.spec_format(node.model(), *cfg, *stats),
    ;
}

/// Renders the tree as indented text lines.
pub struct TextFormatter;

fn one_code(a: Ansi) -> (v: Vec<Ansi>)
    ensures
        v@ == seq![a],
{
    let mut v: Vec<Ansi> = Vec::new();
    v.push(a);
    proof {
        assert(v@ =~= seq![a]);
    }
    v
}

fn two_codes(a: Ansi, b: Ansi) -> (v: Vec<Ansi>)
    ensures
        v@ == seq![a, b],
{
    let mut v: Vec<Ansi> = Vec::new();
    v.push(a);
    v.push(b);
    proof {
        assert(v@ =~= seq![a, b]);
    }
    v
}

impl TextFormatter {
    /// The display name of one node, as `spec_display_name` describes.
    fn format_display_name(&self, node: &TreeNode, cfg: &Config, ansi: bool) -> (r: String)
        ensures
            r@ == spec_display_name(node.model(), *cfg, ansi),
    {
        let name: String = if cfg.full_path {
            node.path.clone()
        } else {
            node.name.clone()
        };
        match node.node_type {
            NodeType::File => {
                if ansi {
                    let codes = one_code(Ansi::BrightWhite);
                    name.as_str().ansi(codes.as_slice())
                } else {
                    name
                }
            },
            NodeType::Directory => {
                if ansi {
                    let mut padded = " ".to_owned();
                    padded.append(name.as_str());
                    padded.append(" ");
                    let codes = two_codes(Ansi::Bold, Ansi::BgYellow);
                    proof {
                        reveal_strlit(" ");
                        assert(" "@ =~= seq![' ']);
                        assert(padded@ =~= seq![' '] + name@ + seq![' ']);
                    }
                    padded.as_str().ansi(codes.as_slice())
                } else {
                    let ghost namem = if cfg.full_path {
                        node.model().path
                    } else {
                        node.model().name
                    };
                    let mut r = name;
                    r.append("/");
                    proof {
                        reveal_strlit("/");
                        assert(r@ =~= namem + seq!['/']);
                    }
                    r
                }
            },
            NodeType::SymbolicLink => {
                let mut txt = name;
                txt.append(" -> ");
                match &node.link_target {
                    Some(t) => txt.append(t.as_str()),
                    None => txt.append("<unreadable>"),
                };
                if ansi {
                    let codes = one_code(Ansi::BrightCyan);
                    txt.as_str().ansi(codes.as_slice())
                } else {
                    txt
                }
            },
        }
    }

    /// The size annotation of one line, as `spec_size_suffix` describes.
    fn size_suffix(&self, node: &TreeNode, cfg: &Config) -> (r: String)
        ensures
            r@ == spec_size_suffix(node.model(), *cfg),
    {
        if cfg.size {
            if let Some(sz) = node.size {
                let mut r = " (".to_owned();
                let fs = crate::bytes::format(sz, &cfg.size_format);
                r.append(fs.as_str());
                r.append(")");
                proof {
                    reveal_strlit(" (");
                    reveal_strlit(")");
                    assert(r@ =~= spec_size_suffix(node.model(), *cfg));
                }
                return r;
            }
        }
        let r = String::new();
        proof {
            assert(r@ =~= spec_size_suffix(node.model(), *cfg));
        }
        r
    }

    /// Renders one node and its subtree, as `spec_format_node` describes.
    /// `prefix` is the indentation of the current level and `is_last` says
    /// whether the node is its parent's final child.
    pub fn format_node(&self, node: &TreeNode, prefix: &str, is_last: bool, cfg: &Config) -> (r:
        String)
        ensures
            r@ == spec_format_node(node.model(), prefix@, is_last, *cfg),
        decreases *node,
    {
        let mut out = prefix.to_owned();
        if is_last {
            out.append(cfg.last_prefix.as_str());
        } else {
            out.append(cfg.prefix.as_str());
        }
        let dn = self.format_display_name(node, cfg, !cfg.no_color);
        out.append(dn.as_str());
        let sz = self.size_suffix(node, cfg);
        out.append(sz.as_str());
        out.append("\n");
        let mut child_prefix = prefix.to_owned();
        if is_last {
            child_prefix.append("    ");
        } else {
            child_prefix.append(cfg.child_prefix.as_str());
        }
        proof {
            reveal_strlit("\n");
            assert("\n"@ =~= seq!['\n']);
        }
        let ghost nm = node.model();
        let ghost cpm = child_prefix@;
        let ghost line = prefix@ + (if is_last {
            cfg.last_prefix@
        } else {
            cfg.prefix@
        }) + spec_display_name(nm, *cfg, !cfg.no_color) + spec_size_suffix(nm, *cfg) + seq!['\n'];
        proof {
            assert(out@ =~= line);
        }
        let n = node.children.len();
        let mut i: usize = 0;
        #[verifier::loop_isolation(false)]
        while i < n
            invariant
                i <= n,
                n == node.children@.len(),
                out@ + spec_format_children(nm.children, i as int, cpm, *cfg) == spec_format_node(
                    nm,
                    prefix@,
                    is_last,
                    *cfg,
                ),
            decreases n - i,
        {
            proof {
                assert(decreases_to!(*node => node.children));
                assert(decreases_to!(node.children => node.children@));
                assert(decreases_to!(node.children@ => node.children@[i as int]));
            }
            let c = self.format_node(&node.children[i], child_prefix.as_str(), i == n - 1, cfg);
            out.append(c.as_str());
            proof {
                crate::tree::lemma_models_index(node.children@, i as int);
                assert(nm.children[i as int] == node.children@[i as int].model());
                assert((i as int == nm.children.len() - 1) == (i == n - 1));
                assert(out@ + spec_format_children(nm.children, i + 1, cpm, *cfg)
                    =~= spec_format_node(nm, prefix@, is_last, *cfg));
            }
            i = i + 1;
        }
        proof {
            crate::tree::lemma_models_len(node.children@);
            assert(out@ + spec_format_children(nm.children, n as int, cpm, *cfg) =~= out@);
        }
        out
    }
}

impl Formatter for TextFormatter {
    open spec fn spec_format(&self, node: NodeModel, cfg: Config, stats: Statistics) -> Seq<
        char,
    > {
        spec_text_format(node, cfg, stats)
    }

    /// Formats the whole tree: the root line carries no indentation and no
    /// branch string; a summary line follows when asked for.
    fn format(&self, node: &TreeNode, cfg: &Config, stats: &Statistics) -> (r: String)
        ensures
            r@ == spec_text_format(node.model(), *cfg, *stats),
    {
        let mut out = self.format_display_name(node, cfg, !cfg.no_color);
        let sz = self.size_suffix(node, cfg);
        out.append(sz.as_str());
        out.append("\n");
        proof {
            reveal_strlit("\n");
            assert("\n"@ =~= seq!['\n']);
        }
        let ghost nm = node.model();
        let ghost head = spec_display_name(nm, *cfg, !cfg.no_color) + spec_size_suffix(nm, *cfg)
            + seq!['\n'];
        proof {
            assert(out@ =~= head);
        }
        let n = node.children.len();
        let mut i: usize = 0;
        let empty_prefix = String::new();
        #[verifier::loop_isolation(false)]
        while i < n
            invariant
                i <= n,
                n == node.children@.len(),
                empty_prefix@ == Seq::<char>::empty(),
                out@ + spec_format_children(nm.children, i as int, Seq::empty(), *cfg) == head
                    + spec_format_children(nm.children, 0, Seq::empty(), *cfg),
            decreases n - i,
        {
            proof {
                assert(decreases_to!(*node => node.children));
                assert(decreases_to!(node.children => node.children@));
                assert(decreases_to!(node.children@ => node.children@[i as int]));
            }
            let c = self.format_node(&node.children[i], empty_prefix.as_str(), i == n - 1, cfg);
            out.append(c.as_str());
            proof {
                crate::tree::lemma_models_index(node.children@, i as int);
                assert(nm.children[i as int] == node.children@[i as int].model());
                assert((i as int == nm.children.len() - 1) == (i == n - 1));
                assert(out@ + spec_format_children(nm.children, i + 1, Seq::empty(), *cfg) =~= head
                    + spec_format_children(nm.children, 0, Seq::empty(), *cfg));
            }
            i = i + 1;
        }
        proof {
            crate::tree::lemma_models_len(node.children@);
            assert(out@ + spec_format_children(nm.children, n as int, Seq::empty(), *cfg)
                =~= out@);
        }
        if cfg.summary {
            out.append("\n");
            let rep = stats.summary();
            out.append(rep.as_str());
            proof {
                assert(out@ =~= spec_text_format(nm, *cfg, *stats));
            }
            out
        } else {
            proof {
                assert(out@ =~= spec_text_format(nm, *cfg, *stats));
            }
            out
        }
    }
}

} // verus!
