use vstd::prelude::*;
use crate::config::Config;
use crate::filter::{
    raws_view, spec_filter_entries, FileFilter, FilterModel, RawEntry, RawModel,
};
use crate::gitignore::IgnoreSet;
use crate::glob::glob_pattern_ok;
use crate::stats::{sat_add_u64, sat_add_usize, Statistics};
use crate::text::{base_name, join_path, join_rel, spec_base_name, spec_join_path, spec_join_rel};

verus! {

broadcast use vstd::std_specs::vec::group_vec_axioms, vstd::seq::group_seq_axioms;

/// The type of a file system node. A symbolic link is never followed for
/// typing: it reports as `SymbolicLink` whatever it points at.
#[derive(Clone, Copy, Debug, PartialEq, Eq, Structural)]
pub enum NodeType {
    File,
    Directory,
    SymbolicLink,
}

/// The error that stops a build before it starts: a user-supplied glob
/// pattern that does not parse.
#[derive(Clone, Copy, Debug, PartialEq, Eq, Structural)]
pub enum TreeError {
    InvalidGlob,
}

/// A node in the file system tree: one entry, with its display name, path,
/// type, size (for non-directories) and children (for directories).
#[derive(Debug)]
pub struct TreeNode {
    pub name: String,
    pub path: String,
    pub node_type: NodeType,
    pub size: Option<u64>,
    /// Where a symbolic link points, read purely for display; `None` when
    /// the node is no link or its target could not be read.
    pub link_target: Option<String>,
    pub children: Vec<TreeNode>,
}

/// The mathematical shape of a tree node.
pub ghost struct NodeModel {
    pub name: Seq<char>,
    pub path: Seq<char>,
    pub node_type: NodeType,
    pub size: Option<u64>,
    pub link_target: Option<Seq<char>>,
    pub children: Seq<NodeModel>,
}

impl TreeNode {
    /// The abstract value of this node and all its descendants.
    pub open spec fn model(self) -> NodeModel
        decreases self,
    {
        NodeModel {
            name: self.name@,
            path: self.path@,
            node_type: self.node_type,
            size: self.size,
            link_target: match self.link_target {
                Some(t) => Some(t@),
                None => None,
            },
            children: TreeNode::models_of(self.children),
        }
    }

    /// The abstract values of a vector of nodes, in order.
    pub open spec fn models_of(v: Vec<TreeNode>) -> Seq<NodeModel>
        decreases v,
    {
        TreeNode::models_of_seq(v@)
    }

    /// The abstract values of a sequence of nodes, in order.
    pub open spec fn models_of_seq(s: Seq<TreeNode>) -> Seq<NodeModel>
        decreases s,
    {
        if s.len() == 0 {
            Seq::empty()
        } else {
            proof {
                assert(decreases_to!(s => s.subrange(0, s.len() - 1)));
                assert(decreases_to!(s => s[s.len() - 1]));
            }
            TreeNode::models_of_seq(s.drop_last()).push(s.last().model())
        }
    }
}

/// The abstract values of a node sequence line up with it one for one.
pub proof fn lemma_models_len(s: Seq<TreeNode>)
    ensures
        TreeNode::models_of_seq(s).len() == s.len(),
    decreases s.len(),
{
    if s.len() > 0 {
        lemma_models_len(s.drop_last());
    }
}

/// Each abstract value in a node sequence's model is the model of the node
/// at the same index.
pub proof fn lemma_models_index(s: Seq<TreeNode>, i: int)
    requires
        0 <= i < s.len(),
    ensures
        TreeNode::models_of_seq(s).len() == s.len(),
        TreeNode::models_of_seq(s)[i] == s[i].model(),
    decreases s.len(),
{
    lemma_models_len(s);
    if i == s.len() - 1 {
    } else {
        lemma_models_index(s.drop_last(), i);
        assert(s.drop_last()[i] == s[i]);
    }
}

proof fn lemma_models_push(s: Seq<TreeNode>, x: TreeNode)
    ensures
        TreeNode::models_of_seq(s.push(x)) == TreeNode::models_of_seq(s).push(x.model()),
{
    assert(s.push(x).drop_last() =~= s);
    assert(s.push(x).last() == x);
}

/// What the host reports of one probed entry: its type and size from a
/// metadata read that does not follow symbolic links; for a directory, its
/// canonical identity (`None` where canonicalization failed); for a
/// symbolic link, its target as read for display (`None` where unreadable).
#[derive(Debug)]
pub struct EntryMeta {
    pub kind: NodeType,
    pub size: u64,
    pub canon: Option<u64>,
    pub link_target: Option<String>,
}

/// The mathematical shape of a probed entry's metadata.
pub ghost struct MetaModel {
    pub kind: NodeType,
    pub size: u64,
    pub canon: Option<u64>,
    pub link_target: Option<Seq<char>>,
}

impl View for EntryMeta {
    type V = MetaModel;

    open spec fn view(&self) -> MetaModel {
        MetaModel {
            kind: self.kind,
            size: self.size,
            canon: self.canon,
            link_target: match self.link_target {
                Some(t) => Some(t@),
                None => None,
            },
        }
    }
}

/// One filesystem reply handed back to the builder by the host.
#[derive(Debug)]
pub enum Event {
    /// The reply to `Action::Probe`: the entry's metadata, or `None` where
    /// it could not be read.
    Meta(Option<EntryMeta>),
    /// The reply to `Action::List`: the directory's raw entries in listing
    /// order, or `None` where the directory could not be read.
    Entries(Option<Vec<RawEntry>>),
}

/// The mathematical shape of a filesystem reply.
pub ghost enum EventModel {
    Meta(Option<MetaModel>),
    Entries(Option<Seq<RawModel>>),
}

impl View for Event {
    type V = EventModel;

    open spec fn view(&self) -> EventModel {
        match self {
            Event::Meta(om) => EventModel::Meta(
                match om {
                    Some(m) => Some(m@),
                    None => None,
                },
            ),
            Event::Entries(oe) => EventModel::Entries(
                match oe {
                    Some(v) => Some(raws_view(v@)),
                    None => None,
                },
            ),
        }
    }
}

/// What the builder asks the host to do next.
#[derive(Debug)]
pub enum Action {
    /// Read the metadata of this path without following symbolic links,
    /// canonicalize it if it is a directory, read its link target if it is
    /// a symbolic link, and reply with `Event::Meta`.
    Probe(String),
    /// Read this directory's entries and reply with `Event::Entries`.
    List(String),
    /// The build is finished; the tree is available.
    Done,
    /// The build failed: the root itself could not be probed,
    /// canonicalized, or listed.
    Fail,
}

/// The mathematical shape of a request to the host.
pub ghost enum ActionModel {
    Probe(Seq<char>),
    List(Seq<char>),
    Done,
    Fail,
}

impl View for Action {
    type V = ActionModel;

    open spec fn view(&self) -> ActionModel {
        match self {
            Action::Probe(p) => ActionModel::Probe(p@),
            Action::List(p) => ActionModel::List(p@),
            Action::Done => ActionModel::Done,
            Action::Fail => ActionModel::Fail,
        }
    }
}

/// An admitted directory entry waiting to be probed: its display name, its
/// path, its path relative to the traversal root, and its depth below the
/// root.
struct PendingChild {
    name: String,
    path: String,
    rel: String,
    depth: usize,
}

/// The mathematical shape of a pending entry.
pub ghost struct PendingModel {
    pub name: Seq<char>,
    pub path: Seq<char>,
    pub rel: Seq<char>,
    pub depth: usize,
}

impl View for PendingChild {
    type V = PendingModel;

    closed spec fn view(&self) -> PendingModel {
        PendingModel { name: self.name@, path: self.path@, rel: self.rel@, depth: self.depth }
    }
}

impl PendingChild {
    fn duplicate(&self) -> (r: PendingChild)
        ensures
            r@ == self@,
    {
        PendingChild {
            name: self.name.clone(),
            path: self.path.clone(),
            rel: self.rel.clone(),
            depth: self.depth,
        }
    }
}

spec fn pendings_view(s: Seq<PendingChild>) -> Seq<PendingModel> {
    Seq::new(s.len(), |i: int| s[i]@)
}

/// One suspended directory: its node under construction, its admitted
/// children in listing order, and how many of them are dealt with.
struct Frame {
    node: TreeNode,
    pending: Vec<PendingChild>,
    next: usize,
}

/// The mathematical shape of a suspended directory.
pub ghost struct FrameModel {
    pub node: NodeModel,
    pub pending: Seq<PendingModel>,
    pub next: int,
}

impl View for Frame {
    type V = FrameModel;

    closed spec fn view(&self) -> FrameModel {
        FrameModel {
            node: self.node.model(),
            pending: pendings_view(self.pending@),
            next: self.next as int,
        }
    }
}

/// Where the build stands: waiting for an entry's metadata, waiting for a
/// directory's listing, finished with the root's node, or failed because
/// the root itself could not be read.
enum Mode {
    Probing(PendingChild),
    Listing { node: TreeNode, rel: String, depth: usize },
    Done(TreeNode),
    Failed,
}

/// The mathematical shape of the build's position.
pub ghost enum ModeModel {
    Probing(PendingModel),
    Listing { node: NodeModel, rel: Seq<char>, depth: usize },
    Done(NodeModel),
    Failed,
}

spec fn mode_view(m: Mode) -> ModeModel {
    match m {
        Mode::Probing(p) => ModeModel::Probing(p@),
        Mode::Listing { node, rel, depth } => ModeModel::Listing {
            node: node.model(),
            rel: rel@,
            depth: depth,
        },
        Mode::Done(n) => ModeModel::Done(n.model()),
        Mode::Failed => ModeModel::Failed,
    }
}

/// The mathematical shape of the whole builder: the filter and depth limit
/// it was configured with, the canonical identities already visited, the
/// statistics so far, the suspended directories, and the current position.
pub ghost struct BuilderModel {
    pub filter: FilterModel,
    pub max_depth: Option<usize>,
    pub visited: Seq<u64>,
    pub stats: Statistics,
    pub stack: Seq<FrameModel>,
    pub mode: ModeModel,
}

/// Whether a directory at the given depth may be expanded.
pub open spec fn within_depth(max_depth: Option<usize>, depth: usize) -> bool {
    match max_depth {
        None => true,
        Some(m) => depth < m,
    }
}

/// The depth of a directory's children, one more than its own (saturating
/// at the top of `usize`).
pub open spec fn next_depth(d: usize) -> usize {
    if d < usize::MAX {
        (d + 1) as usize
    } else {
        d
    }
}

/// The childless node a probed entry turns into: directories carry no size,
/// only symbolic links carry a link target.
pub open spec fn spec_node_of(p: PendingModel, m: MetaModel) -> NodeModel {
    NodeModel {
        name: p.name,
        path: p.path,
        node_type: m.kind,
        size: if m.kind is Directory {
            None
        } else {
            Some(m.size)
        },
        link_target: if m.kind is SymbolicLink {
            m.link_target
        } else {
            None
        },
        children: Seq::empty(),
    }
}

/// Hands a finished node to its suspended parent. The node is attached as
/// the parent's next child; if the parent still has pending children the
/// next one is probed, otherwise the parent itself finishes and is handed
/// up in turn. A finished node with no parent is the root: the build is
/// done.
pub open spec fn spec_complete(b: BuilderModel, node: NodeModel) -> BuilderModel
    decreases b.stack.len(),
{
    if b.stack.len() == 0 {
        BuilderModel { mode: ModeModel::Done(node), ..b }
    } else {
        let fr = b.stack.last();
        let node2 = NodeModel { children: fr.node.children.push(node), ..fr.node };
        let next2 = fr.next + 1;
        if next2 < fr.pending.len() {
            let fr2 = FrameModel { node: node2, pending: fr.pending, next: next2 };
            BuilderModel {
                stack: b.stack.update(b.stack.len() - 1, fr2),
                mode: ModeModel::Probing(fr.pending[next2]),
                ..b
            }
        } else {
            spec_complete(BuilderModel { stack: b.stack.drop_last(), ..b }, node2)
        }
    }
}

/// Drops the entry being dealt with (its build failed) and moves on: the
/// parent skips to its next pending child, or finishes if none are left.
/// Dropping the root itself fails the build.
pub open spec fn spec_skip(b: BuilderModel) -> BuilderModel {
    if b.stack.len() == 0 {
        BuilderModel { mode: ModeModel::Failed, ..b }
    } else {
        let fr = b.stack.last();
        let next2 = fr.next + 1;
        if next2 < fr.pending.len() {
            let fr2 = FrameModel { node: fr.node, pending: fr.pending, next: next2 };
            BuilderModel {
                stack: b.stack.update(b.stack.len() - 1, fr2),
                mode: ModeModel::Probing(fr.pending[next2]),
                ..b
            }
        } else {
            spec_complete(BuilderModel { stack: b.stack.drop_last(), ..b }, fr.node)
        }
    }
}

/// The pending entry an admitted raw entry turns into, under a directory
/// with the given path and root-relative path.
pub open spec fn spec_pending_of(
    e: RawModel,
    dir_path: Seq<char>,
    dir_rel: Seq<char>,
    depth: usize,
) -> PendingModel {
    PendingModel {
        name: e.name,
        path: spec_join_path(dir_path, e.name),
        rel: spec_join_rel(dir_rel, e.name),
        depth,
    }
}

/// The pending entries of a whole admitted listing, in order.
pub open spec fn spec_pendings(
    kept: Seq<RawModel>,
    dir_path: Seq<char>,
    dir_rel: Seq<char>,
    depth: usize,
) -> Seq<PendingModel> {
    Seq::new(kept.len(), |i: int| spec_pending_of(kept[i], dir_path, dir_rel, depth))
}

/// Whether the builder expects this kind of reply: metadata answers a
/// probe, a listing answers a list request, and a finished or failed build
/// expects nothing.
pub open spec fn accepts(b: BuilderModel, ev: EventModel) -> bool {
    match b.mode {
        ModeModel::Probing(_) => ev is Meta,
        ModeModel::Listing { .. } => ev is Entries,
        _ => false,
    }
}

/// How one filesystem reply advances the build.
///
/// A probed entry that could not be read is skipped. A probed
/// non-directory is counted (one more file, its size added) and finished
/// at once. A probed directory whose canonicalization failed is skipped; one
/// whose canonical identity was already visited finishes at once with no
/// children and no counting (the cycle guard); otherwise it is recorded as
/// visited, counted, and — within the depth limit — its listing is
/// requested, else it finishes with no children. A listing that could not
/// be read drops the directory; otherwise the admitted entries become the
/// directory's pending children and the first of them is probed (a
/// directory with no admitted children finishes at once).
///
/// The counters report what the traversal observed, not what the finished
/// tree holds: a directory is counted the moment it is entered, so if its
/// listing then fails its node is dropped while its count stays. Dropping
/// the root this way fails the build, like an unreadable root probe.
pub open spec fn spec_step(b: BuilderModel, ev: EventModel) -> BuilderModel {
    match b.mode {
        ModeModel::Probing(p) => match ev {
            EventModel::Meta(om) => match om {
                None => spec_skip(b),
                Some(m) => if !(m.kind is Directory) {
                    let stats2 = Statistics {
                        dirs: b.stats.dirs,
                        files: sat_add_usize(b.stats.files, 1),
                        bytes: sat_add_u64(b.stats.bytes, m.size),
                    };
                    spec_complete(BuilderModel { stats: stats2, ..b }, spec_node_of(p, m))
                } else {
                    match m.canon {
                        None => spec_skip(b),
                        Some(id) => if b.visited.contains(id) {
                            spec_complete(b, spec_node_of(p, m))
                        } else {
                            let b1 = BuilderModel {
                                visited: b.visited.push(id),
                                stats: Statistics {
                                    dirs: sat_add_usize(b.stats.dirs, 1),
                                    files: b.stats.files,
                                    bytes: b.stats.bytes,
                                },
                                ..b
                            };
                            if within_depth(b.max_depth, p.depth) {
                                BuilderModel {
                                    mode: ModeModel::Listing {
                                        node: spec_node_of(p, m),
                                        rel: p.rel,
                                        depth: p.depth,
                                    },
                                    ..b1
                                }
                            } else {
                                spec_complete(b1, spec_node_of(p, m))
                            }
                        },
                    }
                },
            },
            _ => b,
        },
        ModeModel::Listing { node, rel, depth } => match ev {
            EventModel::Entries(oe) => match oe {
                None => spec_skip(b),
                Some(raws) => {
                    let kept = spec_filter_entries(b.filter, raws, rel);
                    let pend = spec_pendings(kept, node.path, rel, next_depth(depth));
                    if pend.len() == 0 {
                        spec_complete(b, node)
                    } else {
                        BuilderModel {
                            stack: b.stack.push(FrameModel { node, pending: pend, next: 0 }),
                            mode: ModeModel::Probing(pend[0]),
                            ..b
                        }
                    }
                },
            },
            _ => b,
        },
        _ => b,
    }
}

/// What the builder asks of the host in each position.
pub open spec fn spec_action(b: BuilderModel) -> ActionModel {
    match b.mode {
        ModeModel::Probing(p) => ActionModel::Probe(p.path),
        ModeModel::Listing { node, .. } => ActionModel::List(node.path),
        ModeModel::Done(_) => ActionModel::Done,
        ModeModel::Failed => ActionModel::Fail,
    }
}

/// Every suspended directory still has a pending child to deal with.
pub open spec fn frames_wf(b: BuilderModel) -> bool {
    forall|i: int| 0 <= i < b.stack.len() ==> 0 <= #[trigger] b.stack[i].next < b.stack[
        i
    ].pending.len()
}

/// The builder's invariant: suspended directories are well-formed, and a
/// finished or failed build suspends nothing.
pub open spec fn wf(b: BuilderModel) -> bool {
    &&& frames_wf(b)
    &&& (b.mode is Done || b.mode is Failed) ==> b.stack.len() == 0
}

proof fn lemma_complete_mode_irrelevant(b1: BuilderModel, b2: BuilderModel, node: NodeModel)
    requires
        b1.filter == b2.filter,
        b1.max_depth == b2.max_depth,
        b1.visited == b2.visited,
        b1.stats == b2.stats,
        b1.stack == b2.stack,
    ensures
        spec_complete(b1, node) == spec_complete(b2, node),
    decreases b1.stack.len(),
{
    if b1.stack.len() == 0 {
    } else {
        let fr = b1.stack.last();
        let node2 = NodeModel { children: fr.node.children.push(node), ..fr.node };
        if fr.next + 1 < fr.pending.len() {
        } else {
            lemma_complete_mode_irrelevant(
                BuilderModel { stack: b1.stack.drop_last(), ..b1 },
                BuilderModel { stack: b2.stack.drop_last(), ..b2 },
                node2,
            );
        }
    }
}

proof fn lemma_skip_mode_irrelevant(b1: BuilderModel, b2: BuilderModel)
    requires
        b1.filter == b2.filter,
        b1.max_depth == b2.max_depth,
        b1.visited == b2.visited,
        b1.stats == b2.stats,
        b1.stack == b2.stack,
    ensures
        spec_skip(b1) == spec_skip(b2),
{
    if b1.stack.len() == 0 {
    } else {
        let fr = b1.stack.last();
        if fr.next + 1 < fr.pending.len() {
        } else {
            lemma_complete_mode_irrelevant(
                BuilderModel { stack: b1.stack.drop_last(), ..b1 },
                BuilderModel { stack: b2.stack.drop_last(), ..b2 },
                fr.node,
            );
        }
    }
}

/// Handing a node up only rearranges the suspended directories and the
/// position: the filter, the depth limit, the visited set and the counters
/// stay as they are, and the result is never waiting for a listing and
/// never failed.
proof fn lemma_complete_preserves(b: BuilderModel, node: NodeModel)
    ensures
        ({
            let b2 = spec_complete(b, node);
            &&& b2.filter == b.filter
            &&& b2.max_depth == b.max_depth
            &&& b2.visited == b.visited
            &&& b2.stats == b.stats
            &&& !(b2.mode is Listing)
            &&& !(b2.mode is Failed)
        }),
    decreases b.stack.len(),
{
    if b.stack.len() == 0 {
    } else {
        let fr = b.stack.last();
        let node2 = NodeModel { children: fr.node.children.push(node), ..fr.node };
        if fr.next + 1 < fr.pending.len() {
        } else {
            lemma_complete_preserves(BuilderModel { stack: b.stack.drop_last(), ..b }, node2);
        }
    }
}

spec fn frames_view(s: Seq<Frame>) -> Seq<FrameModel> {
    Seq::new(s.len(), |i: int| s[i]@)
}

fn contains_id(v: &Vec<u64>, id: u64) -> (r: bool)
    ensures
        r == v@.contains(id),
{
    let n = v.len();
    let mut i: usize = 0;
    while i < n
        invariant
            i <= n,
            n == v@.len(),
            forall|k: int| 0 <= k < i ==> v@[k] != id,
        decreases n - i,
    {
        if v[i] == id {
            return true;
        }
        i = i + 1;
    }
    proof {
        assert(!v@.contains(id));
    }
    false
}

/// Builds the tree one filesystem reply at a time. The host performs the
/// reads the builder asks for — nothing more — and hands back the replies;
/// the builder does everything else: entry filtering, the cycle guard,
/// depth accounting, node assembly and statistics.
pub struct TreeBuilder {
    filter: FileFilter,
    max_depth: Option<usize>,
    visited: Vec<u64>,
    stats: Statistics,
    stack: Vec<Frame>,
    mode: Mode,
}

impl View for TreeBuilder {
    type V = BuilderModel;

    closed spec fn view(&self) -> BuilderModel {
        BuilderModel {
            filter: self.filter@,
            max_depth: self.max_depth,
            visited: self.visited@,
            stats: self.stats,
            stack: frames_view(self.stack@),
            mode: mode_view(self.mode),
        }
    }
}

/// The builder a fresh configuration yields: nothing visited, nothing
/// counted, nothing suspended, about to probe the root at depth zero.
pub open spec fn spec_new_builder(
    filter: FilterModel,
    max_depth: Option<usize>,
    root: Seq<char>,
) -> BuilderModel {
    BuilderModel {
        filter,
        max_depth,
        visited: Seq::empty(),
        stats: Statistics { dirs: 0, files: 0, bytes: 0 },
        stack: Seq::empty(),
        mode: ModeModel::Probing(
            PendingModel {
                name: spec_base_name(root),
                path: root,
                rel: Seq::empty(),
                depth: 0,
            },
        ),
    }
}

impl TreeBuilder {
    /// The builder's invariant; `new` establishes it and `step` keeps it.
    pub open spec fn inv(&self) -> bool {
        wf(self@)
    }

    /// Creates a builder rooted at the configuration's root path, with the
    /// given ignore-rule set. Fails exactly when a supplied glob pattern is
    /// not well-formed. The first request to the host is a probe of the
    /// root itself.
    pub fn new(cfg: &Config, ignorer: IgnoreSet) -> (r: Result<TreeBuilder, TreeError>)
        ensures
            (r is Ok) == ((cfg.include_pattern is Some ==> glob_pattern_ok(
                cfg.include_pattern->0@,
            )) && (cfg.exclude_pattern is Some ==> glob_pattern_ok(cfg.exclude_pattern->0@))),
            r matches Ok(b) ==> b.inv() && b@ == spec_new_builder(
                crate::filter::spec_filter_model(
                    *cfg,
                    ignorer.root_view(),
                    ignorer.lines_view(),
                ),
                cfg.max_depth,
                cfg.root@,
            ),
            r matches Err(e) ==> e is InvalidGlob,
    {
        let filter = match FileFilter::new(cfg, ignorer) {
            Ok(f) => f,
            Err(e) => {
                return Err(e);
            },
        };
        let name = base_name(cfg.root.as_str());
        let b = TreeBuilder {
            filter,
            max_depth: cfg.max_depth,
            visited: Vec::new(),
            stats: Statistics { dirs: 0, files: 0, bytes: 0 },
            stack: Vec::new(),
            mode: Mode::Probing(
                PendingChild { name, path: cfg.root.clone(), rel: String::new(), depth: 0 },
            ),
        };
        proof {
            assert(b@.visited =~= Seq::<u64>::empty());
            assert(b@.stack =~= Seq::<FrameModel>::empty());
            assert(b@.mode->Probing_0.rel =~= Seq::<char>::empty());
        }
        Ok(b)
    }

    /// What the builder is asking the host to do now.
    pub fn next_action(&self) -> (a: Action)
        ensures
            a@ == spec_action(self@),
    {
        match &self.mode {
            Mode::Probing(p) => Action::Probe(p.path.clone()),
            Mode::Listing { node, .. } => Action::List(node.path.clone()),
            Mode::Done(_) => Action::Done,
            Mode::Failed => Action::Fail,
        }
    }

    /// The statistics accumulated so far; final once `step` has answered
    /// with `Action::Done`.
    pub fn get_stats(&self) -> (r: &Statistics)
        ensures
            *r == self@.stats,
    {
        &self.stats
    }

    /// The finished tree, if the build is done.
    pub fn into_tree(self) -> (r: Option<TreeNode>)
        ensures
            self@.mode matches ModeModel::Done(n) ==> r matches Some(t) && t.model() == n,
            !(self@.mode is Done) ==> r is None,
    {
        match self.mode {
            Mode::Done(n) => Some(n),
            _ => None,
        }
    }

    fn complete_from(&mut self, node: TreeNode) -> (a: Action)
        requires
            frames_wf(old(self)@),
        ensures
            final(self)@ == spec_complete(old(self)@, node.model()),
            wf(final(self)@),
            a@ == spec_action(final(self)@),
    {
        let ghost orig = self@;
        let ghost onode = node.model();
        let mut node = node;
        #[verifier::loop_isolation(false)]
        loop
            invariant
                frames_wf(self@),
                spec_complete(self@, node.model()) == spec_complete(orig, onode),
            decreases self@.stack.len(),
        {
            let ghost cur0 = self@;
            let ghost nm0 = node.model();
            let slen = self.stack.len();
            if slen == 0 {
                self.mode = Mode::Done(node);
                proof {
                    assert(self@ == spec_complete(cur0, nm0));
                }
                return Action::Done;
            }
            let ghost vpre = self.stack@;
            let mut fr = self.stack.pop().unwrap();
            proof {
                assert(cur0.stack.len() == slen);
                assert(fr == vpre[slen - 1]);
                assert(cur0.stack[slen - 1] == vpre[slen - 1]@);
                assert(fr@ == cur0.stack.last());
                assert(frames_view(self.stack@) =~= cur0.stack.drop_last());
                assert(0 <= cur0.stack[slen - 1].next < cur0.stack[slen - 1].pending.len());
                assert(fr@.pending.len() == fr.pending@.len());
            }
            let ghost frm = fr@;
            proof {
                lemma_models_push(fr.node.children@, node);
            }
            fr.node.children.push(node);
            proof {
                assert(fr.node.model().children == frm.node.children.push(nm0));
            }
            let plen = fr.pending.len();
            proof {
                assert(fr.next as int == frm.next);
                assert(fr.next < plen);
            }
            fr.next = fr.next + 1;
            if fr.next < plen {
                let p = fr.pending[fr.next].duplicate();
                let path = p.path.clone();
                proof {
                    assert(p@ == frm.pending[frm.next + 1]);
                }
                self.stack.push(fr);
                self.mode = Mode::Probing(p);
                proof {
                    let node2 = NodeModel {
                        children: frm.node.children.push(nm0),
                        ..frm.node
                    };
                    let fr2 = FrameModel {
                        node: node2,
                        pending: frm.pending,
                        next: frm.next + 1,
                    };
                    assert(frames_view(self.stack@) =~= cur0.stack.update(
                        cur0.stack.len() - 1,
                        fr2,
                    ));
                    assert(self@ == spec_complete(cur0, nm0));
                }
                return Action::Probe(path);
            } else {
                proof {
                    let node2 = NodeModel {
                        children: frm.node.children.push(nm0),
                        ..frm.node
                    };
                    assert(spec_complete(cur0, nm0) == spec_complete(
                        BuilderModel { stack: cur0.stack.drop_last(), ..cur0 },
                        node2,
                    ));
                }
                node = fr.node;
                proof {
                    assert(self@ == BuilderModel { stack: cur0.stack.drop_last(), ..cur0 });
                }
            }
        }
    }

    fn skip_current(&mut self) -> (a: Action)
        requires
            frames_wf(old(self)@),
        ensures
            final(self)@ == spec_skip(old(self)@),
            wf(final(self)@),
            a@ == spec_action(final(self)@),
    {
        let ghost orig = self@;
        let slen = self.stack.len();
        if slen == 0 {
            self.mode = Mode::Failed;
            return Action::Fail;
        }
        let ghost vpre = self.stack@;
        let mut fr = self.stack.pop().unwrap();
        proof {
            assert(orig.stack.len() == slen);
            assert(fr == vpre[slen - 1]);
            assert(orig.stack[slen - 1] == vpre[slen - 1]@);
            assert(fr@ == orig.stack.last());
            assert(frames_view(self.stack@) =~= orig.stack.drop_last());
            assert(0 <= orig.stack[slen - 1].next < orig.stack[slen - 1].pending.len());
            assert(fr@.pending.len() == fr.pending@.len());
        }
        let ghost frm = fr@;
        let plen = fr.pending.len();
        proof {
            assert(fr.next as int == frm.next);
            assert(fr.next < plen);
        }
        fr.next = fr.next + 1;
        if fr.next < plen {
            let p = fr.pending[fr.next].duplicate();
            let path = p.path.clone();
            proof {
                assert(p@ == frm.pending[frm.next + 1]);
            }
            self.stack.push(fr);
            self.mode = Mode::Probing(p);
            proof {
                let fr2 = FrameModel {
                    node: frm.node,
                    pending: frm.pending,
                    next: frm.next + 1,
                };
                assert(frames_view(self.stack@) =~= orig.stack.update(
                    orig.stack.len() - 1,
                    fr2,
                ));
                assert(self@ == spec_skip(orig));
            }
            Action::Probe(path)
        } else {
            let node = fr.node;
            let ghost mid = self@;
            let ghost nm = node.model();
            let a = self.complete_from(node);
            proof {
                assert(mid == BuilderModel { stack: orig.stack.drop_last(), ..orig });
                assert(self@ == spec_skip(orig));
            }
            a
        }
    }

    /// Advances the build by one filesystem reply, as `spec_step`
    /// describes, and returns the next request. The reply must answer the
    /// request the builder last asked for.
    pub fn step(&mut self, ev: Event) -> (a: Action)
        requires
            old(self).inv(),
            accepts(old(self)@, ev@),
        ensures
            final(self).inv(),
            final(self)@ == spec_step(old(self)@, ev@),
            a@ == spec_action(final(self)@),
    {
        let ghost orig = self@;
        let ghost evm = ev@;
        let mut mode = Mode::Failed;
        core::mem::swap(&mut mode, &mut self.mode);
        proof {
            assert(self@ == BuilderModel { mode: ModeModel::Failed, ..orig });
        }
        match mode {
            Mode::Probing(p) => {
                let ghost pm = p@;
                match ev {
                    Event::Meta(om) => {
                        match om {
                            None => {
                                let ghost mid = self@;
                                let a = self.skip_current();
                                proof {
                                    lemma_skip_mode_irrelevant(mid, orig);
                                }
                                a
                            },
                            Some(m) => {
                                let ghost mm = m@;
                                if !matches!(m.kind, NodeType::Directory) {
                                    self.stats.add_files(1);
                                    self.stats.add_byte_size(m.size);
                                    let is_link = matches!(m.kind, NodeType::SymbolicLink);
                                    let node = TreeNode {
                                        name: p.name,
                                        path: p.path,
                                        node_type: m.kind,
                                        size: Some(m.size),
                                        link_target: if is_link {
                                            m.link_target
                                        } else {
                                            None
                                        },
                                        children: Vec::new(),
                                    };
                                    let ghost nm = node.model();
                                    let ghost mid = self@;
                                    let a = self.complete_from(node);
                                    proof {
                                        assert(TreeNode::models_of_seq(Seq::<TreeNode>::empty())
                                            =~= Seq::<NodeModel>::empty());
                                        assert(nm == spec_node_of(pm, mm));
                                        let stats2 = Statistics {
                                            dirs: orig.stats.dirs,
                                            files: sat_add_usize(orig.stats.files, 1),
                                            bytes: sat_add_u64(orig.stats.bytes, mm.size),
                                        };
                                        lemma_complete_mode_irrelevant(
                                            mid,
                                            BuilderModel { stats: stats2, ..orig },
                                            nm,
                                        );
                                    }
                                    a
                                } else {
                                    match m.canon {
                                        None => {
                                            let ghost mid = self@;
                                            let a = self.skip_current();
                                            proof {
                                                lemma_skip_mode_irrelevant(mid, orig);
                                            }
                                            a
                                        },
                                        Some(id) => {
                                            if contains_id(&self.visited, id) {
                                                let node = TreeNode {
                                                    name: p.name,
                                                    path: p.path,
                                                    node_type: m.kind,
                                                    size: None,
                                                    link_target: None,
                                                    children: Vec::new(),
                                                };
                                                let ghost nm = node.model();
                                                let ghost mid = self@;
                                                let a = self.complete_from(node);
                                                proof {
                                                    assert(TreeNode::models_of_seq(
                                                        Seq::<TreeNode>::empty(),
                                                    ) =~= Seq::<NodeModel>::empty());
                                                    assert(nm == spec_node_of(pm, mm));
                                                    lemma_complete_mode_irrelevant(
                                                        mid,
                                                        orig,
                                                        nm,
                                                    );
                                                }
                                                a
                                            } else {
                                                self.visited.push(id);
                                                self.stats.add_dirs(1);
                                                let within = match self.max_depth {
                                                    None => true,
                                                    Some(md) => p.depth < md,
                                                };
                                                let node = TreeNode {
                                                    name: p.name,
                                                    path: p.path,
                                                    node_type: m.kind,
                                                    size: None,
                                                    link_target: None,
                                                    children: Vec::new(),
                                                };
                                                let ghost nm = node.model();
                                                let ghost b1 = BuilderModel {
                                                    visited: orig.visited.push(id),
                                                    stats: Statistics {
                                                        dirs: sat_add_usize(orig.stats.dirs, 1),
                                                        files: orig.stats.files,
                                                        bytes: orig.stats.bytes,
                                                    },
                                                    ..orig
                                                };
                                                proof {
                                                    assert(TreeNode::models_of_seq(
                                                        Seq::<TreeNode>::empty(),
                                                    ) =~= Seq::<NodeModel>::empty());
                                                    assert(nm == spec_node_of(pm, mm));
                                                    assert(within == within_depth(
                                                        orig.max_depth,
                                                        pm.depth,
                                                    ));
                                                }
                                                if within {
                                                    let depth = p.depth;
                                                    self.mode = Mode::Listing {
                                                        node,
                                                        rel: p.rel,
                                                        depth,
                                                    };
                                                    let a = self.next_action();
                                                    proof {
                                                        assert(self@ == BuilderModel {
                                                            mode: ModeModel::Listing {
                                                                node: nm,
                                                                rel: pm.rel,
                                                                depth: pm.depth,
                                                            },
                                                            ..b1
                                                        });
                                                        assert(self@ == spec_step(orig, evm));
                                                    }
                                                    a
                                                } else {
                                                    let ghost mid = self@;
                                                    let a = self.complete_from(node);
                                                    proof {
                                                        lemma_complete_mode_irrelevant(
                                                            mid,
                                                            b1,
                                                            nm,
                                                        );
                                                    }
                                                    a
                                                }
                                            }
                                        },
                                    }
                                }
                            },
                        }
                    },
                    Event::Entries(_) => {
                        proof {
                            assert(false);
                        }
                        Action::Fail
                    },
                }
            },
            Mode::Listing { node, rel, depth } => {
                let ghost nm = node.model();
                let ghost relm = rel@;
                match ev {
                    Event::Entries(oe) => {
                        match oe {
                            None => {
                                let ghost mid = self@;
                                let a = self.skip_current();
                                proof {
                                    lemma_skip_mode_irrelevant(mid, orig);
                                }
                                a
                            },
                            Some(entries) => {
                                let kept = self.filter.filter_entries(&entries, rel.as_str());
                                let ghost keptm = raws_view(kept@);
                                let child_depth = if depth < usize::MAX {
                                    depth + 1
                                } else {
                                    depth
                                };
                                proof {
                                    assert(child_depth == next_depth(depth));
                                }
                                let mut pending: Vec<PendingChild> = Vec::new();
                                let kn = kept.len();
                                let mut j: usize = 0;
                                proof {
                                    assert(pendings_view(pending@) =~= spec_pendings(
                                        keptm.take(0),
                                        nm.path,
                                        relm,
                                        child_depth,
                                    ));
                                }
                                while j < kn
                                    invariant
                                        j <= kn,
                                        kn == kept@.len(),
                                        keptm == raws_view(kept@),
                                        pendings_view(pending@) == spec_pendings(
                                            keptm.take(j as int),
                                            nm.path,
                                            relm,
                                            child_depth,
                                        ),
                                        nm.path == node.path@,
                                        relm == rel@,
                                    decreases kn - j,
                                {
                                    let e = &kept[j];
                                    let path2 = join_path(node.path.as_str(), e.name.as_str());
                                    let rel2 = join_rel(rel.as_str(), e.name.as_str());
                                    let np = PendingChild {
                                        name: e.name.clone(),
                                        path: path2,
                                        rel: rel2,
                                        depth: child_depth,
                                    };
                                    let ghost npm = np@;
                                    let ghost prevp = pending@;
                                    pending.push(np);
                                    proof {
                                        assert(keptm.len() == kn as int);
                                        assert(npm == spec_pending_of(
                                            keptm[j as int],
                                            nm.path,
                                            relm,
                                            child_depth,
                                        ));
                                        let prev_spec = spec_pendings(
                                            keptm.take(j as int),
                                            nm.path,
                                            relm,
                                            child_depth,
                                        );
                                        assert(pendings_view(prevp).len() == prevp.len());
                                        assert(prev_spec.len() == j as int);
                                        assert(prevp.len() == j as int);
                                        let cur = spec_pendings(
                                            keptm.take(j + 1),
                                            nm.path,
                                            relm,
                                            child_depth,
                                        );
                                        assert forall|i: int| 0 <= i < j + 1 implies pendings_view(
                                            pending@,
                                        )[i] == cur[i] by {
                                            assert(keptm.take(j + 1)[i] == keptm[i]);
                                            if i < j {
                                                assert(pending@[i] == prevp[i]);
                                                assert(pendings_view(prevp)[i] == prev_spec[i]);
                                                assert(keptm.take(j as int)[i] == keptm[i]);
                                            } else {
                                                assert(pending@[i]@ == npm);
                                            }
                                        }
                                        assert(pendings_view(pending@) =~= cur);
                                    }
                                    j = j + 1;
                                }
                                proof {
                                    assert(keptm.take(kn as int) =~= keptm);
                                }
                                let ghost pend = spec_pendings(keptm, nm.path, relm, child_depth);
                                if pending.len() == 0 {
                                    proof {
                                        assert(pend.len() == 0);
                                    }
                                    let ghost mid = self@;
                                    let a = self.complete_from(node);
                                    proof {
                                        lemma_complete_mode_irrelevant(mid, orig, nm);
                                    }
                                    a
                                } else {
                                    let p0 = pending[0].duplicate();
                                    let path0 = p0.path.clone();
                                    proof {
                                        assert(p0@ == pend[0]);
                                    }
                                    let ghost vpre = self.stack@;
                                    self.stack.push(Frame { node, pending, next: 0 });
                                    self.mode = Mode::Probing(p0);
                                    proof {
                                        assert(frames_view(self.stack@) =~= orig.stack.push(
                                            FrameModel { node: nm, pending: pend, next: 0 },
                                        ));
                                        assert(self@ == spec_step(orig, evm));
                                    }
                                    Action::Probe(path0)
                                }
                            },
                        }
                    },
                    Event::Meta(_) => {
                        proof {
                            assert(false);
                        }
                        Action::Fail
                    },
                }
            },
            Mode::Done(n) => {
                proof {
                    assert(false);
                }
                self.mode = Mode::Done(n);
                Action::Done
            },
            Mode::Failed => {
                proof {
                    assert(false);
                }
                Action::Fail
            },
        }
    }
}

proof fn lemma_skip_preserves(b: BuilderModel)
    ensures
        ({
            let b2 = spec_skip(b);
            &&& b2.filter == b.filter
            &&& b2.max_depth == b.max_depth
            &&& b2.visited == b.visited
            &&& b2.stats == b.stats
            &&& !(b2.mode is Listing)
        }),
{
    if b.stack.len() == 0 {
    } else {
        let fr = b.stack.last();
        if fr.next + 1 < fr.pending.len() {
        } else {
            lemma_complete_preserves(BuilderModel { stack: b.stack.drop_last(), ..b }, fr.node);
        }
    }
}

/// Cycle safety: probing a directory whose canonical identity was already
/// visited finishes it at once with no children — its listing is never
/// requested, no counter changes, and nothing new is recorded. Every
/// listing request therefore consumes a canonical identity not seen
/// before, which bounds the build on any finite filesystem.
pub proof fn lemma_cycle_guard(b: BuilderModel, p: PendingModel, m: MetaModel)
    requires
        b.mode == ModeModel::Probing(p),
        m.kind is Directory,
        m.canon is Some,
        b.visited.contains(m.canon->0),
    ensures
        ({
            let b2 = spec_step(b, EventModel::Meta(Some(m)));
            &&& b2.visited == b.visited
            &&& b2.stats == b.stats
            &&& !(b2.mode is Listing)
            &&& b2 == spec_complete(b, spec_node_of(p, m))
            &&& spec_node_of(p, m).children == Seq::<NodeModel>::empty()
        }),
{
    lemma_complete_preserves(b, spec_node_of(p, m));
}

/// Depth boundary: a directory not seen before is expanded — its listing
/// requested — exactly when no depth limit is set or its root-relative
/// depth lies strictly below the limit; either way it is recorded as
/// visited and counted exactly once.
pub proof fn lemma_depth_boundary(b: BuilderModel, p: PendingModel, m: MetaModel)
    requires
        b.mode == ModeModel::Probing(p),
        m.kind is Directory,
        m.canon is Some,
        !b.visited.contains(m.canon->0),
    ensures
        ({
            let b2 = spec_step(b, EventModel::Meta(Some(m)));
            &&& (b2.mode is Listing) == within_depth(b.max_depth, p.depth)
            &&& b2.visited == b.visited.push(m.canon->0)
            &&& b2.stats.dirs == sat_add_usize(b.stats.dirs, 1)
            &&& b2.stats.files == b.stats.files
            &&& b2.stats.bytes == b.stats.bytes
        }),
{
    let b1 = BuilderModel {
        visited: b.visited.push(m.canon->0),
        stats: Statistics {
            dirs: sat_add_usize(b.stats.dirs, 1),
            files: b.stats.files,
            bytes: b.stats.bytes,
        },
        ..b
    };
    if within_depth(b.max_depth, p.depth) {
    } else {
        lemma_complete_preserves(b1, spec_node_of(p, m));
    }
}

/// Statistics only grow: no filesystem reply ever decreases a counter.
pub proof fn lemma_stats_monotone(b: BuilderModel, ev: EventModel)
    ensures
        ({
            let b2 = spec_step(b, ev);
            &&& b2.stats.dirs >= b.stats.dirs
            &&& b2.stats.files >= b.stats.files
            &&& b2.stats.bytes >= b.stats.bytes
        }),
{
    match b.mode {
        ModeModel::Probing(p) => match ev {
            EventModel::Meta(om) => match om {
                None => lemma_skip_preserves(b),
                Some(m) => if !(m.kind is Directory) {
                    let stats2 = Statistics {
                        dirs: b.stats.dirs,
                        files: sat_add_usize(b.stats.files, 1),
                        bytes: sat_add_u64(b.stats.bytes, m.size),
                    };
                    lemma_complete_preserves(
                        BuilderModel { stats: stats2, ..b },
                        spec_node_of(p, m),
                    );
                } else {
                    match m.canon {
                        None => lemma_skip_preserves(b),
                        Some(id) => if b.visited.contains(id) {
                            lemma_complete_preserves(b, spec_node_of(p, m));
                        } else {
                            let b1 = BuilderModel {
                                visited: b.visited.push(id),
                                stats: Statistics {
                                    dirs: sat_add_usize(b.stats.dirs, 1),
                                    files: b.stats.files,
                                    bytes: b.stats.bytes,
                                },
                                ..b
                            };
                            if within_depth(b.max_depth, p.depth) {
                            } else {
                                lemma_complete_preserves(b1, spec_node_of(p, m));
                            }
                        },
                    }
                },
            },
            _ => {},
        },
        ModeModel::Listing { node, rel, depth } => match ev {
            EventModel::Entries(oe) => match oe {
                None => lemma_skip_preserves(b),
                Some(raws) => {
                    let kept = spec_filter_entries(b.filter, raws, rel);
                    let pend = spec_pendings(kept, node.path, rel, next_depth(depth));
                    if pend.len() == 0 {
                        lemma_complete_preserves(b, node);
                    }
                },
            },
            _ => {},
        },
        _ => {},
    }
}

/// Every directory listing costs a fresh canonical identity: a step that
/// moves the builder into waiting for a listing has just recorded an
/// identity that was not visited before, and no step ever forgets one. On a
/// filesystem with finitely many directories the build can therefore open
/// only finitely many listings, however the links loop.
pub proof fn lemma_listing_needs_fresh_identity(b: BuilderModel, ev: EventModel)
    ensures
        ({
            let b2 = spec_step(b, ev);
            &&& (b2.mode is Listing && !(b.mode is Listing)) ==> ({
                &&& ev is Meta
                &&& ev->Meta_0 is Some
                &&& ev->Meta_0->0.canon is Some
                &&& !b.visited.contains(ev->Meta_0->0.canon->0)
                &&& b2.visited == b.visited.push(ev->Meta_0->0.canon->0)
            })
            &&& (b2.visited == b.visited || b2.visited.len() == b.visited.len() + 1)
        }),
{
    match b.mode {
        ModeModel::Probing(p) => match ev {
            EventModel::Meta(om) => match om {
                None => lemma_skip_preserves(b),
                Some(m) => if !(m.kind is Directory) {
                    let stats2 = Statistics {
                        dirs: b.stats.dirs,
                        files: sat_add_usize(b.stats.files, 1),
                        bytes: sat_add_u64(b.stats.bytes, m.size),
                    };
                    lemma_complete_preserves(
                        BuilderModel { stats: stats2, ..b },
                        spec_node_of(p, m),
                    );
                } else {
                    match m.canon {
                        None => lemma_skip_preserves(b),
                        Some(id) => if b.visited.contains(id) {
                            lemma_complete_preserves(b, spec_node_of(p, m));
                        } else {
                            let b1 = BuilderModel {
                                visited: b.visited.push(id),
                                stats: Statistics {
                                    dirs: sat_add_usize(b.stats.dirs, 1),
                                    files: b.stats.files,
                                    bytes: b.stats.bytes,
                                },
                                ..b
                            };
                            if within_depth(b.max_depth, p.depth) {
                            } else {
                                lemma_complete_preserves(b1, spec_node_of(p, m));
                            }
                        },
                    }
                },
            },
            _ => {},
        },
        ModeModel::Listing { node, rel, depth } => match ev {
            EventModel::Entries(oe) => match oe {
                None => lemma_skip_preserves(b),
                Some(raws) => {
                    let kept = spec_filter_entries(b.filter, raws, rel);
                    let pend = spec_pendings(kept, node.path, rel, next_depth(depth));
                    if pend.len() == 0 {
                        lemma_complete_preserves(b, node);
                    }
                },
            },
            _ => {},
        },
        _ => {},
    }
}

/// A whole build: the builder after a sequence of filesystem replies.
pub open spec fn spec_run(b: BuilderModel, evs: Seq<EventModel>) -> BuilderModel
    decreases evs.len(),
{
    if evs.len() == 0 {
        b
    } else {
        spec_run(spec_step(b, evs[0]), evs.subrange(1, evs.len() as int))
    }
}

/// How many steps of a run move the builder into waiting for a listing.
pub open spec fn spec_listings_opened(b: BuilderModel, evs: Seq<EventModel>) -> int
    decreases evs.len(),
{
    if evs.len() == 0 {
        0
    } else {
        let b2 = spec_step(b, evs[0]);
        (if b2.mode is Listing && !(b.mode is Listing) {
            1int
        } else {
            0int
        }) + spec_listings_opened(b2, evs.subrange(1, evs.len() as int))
    }
}

/// Over a whole build the visited set only grows, and every listing opened
/// is paid for by a newly recorded canonical identity. A filesystem with
/// finitely many directories can therefore supply only finitely many
/// listings to any one build, however its links loop.
pub proof fn lemma_run_listings_bounded(b: BuilderModel, evs: Seq<EventModel>)
    ensures
        spec_listings_opened(b, evs) >= 0,
        spec_run(b, evs).visited.len() >= b.visited.len() + spec_listings_opened(b, evs),
    decreases evs.len(),
{
    if evs.len() > 0 {
        let b2 = spec_step(b, evs[0]);
        lemma_listing_needs_fresh_identity(b, evs[0]);
        lemma_run_listings_bounded(b2, evs.subrange(1, evs.len() as int));
    }
}

/// Idempotence: the build is a function of its starting state and the
/// filesystem replies alone. Two builds from equal configurations that
/// receive equal replies — the same immutable filesystem read twice — end
/// in equal states: identical trees (same names, types, sizes and child
/// order) and identical statistics.
pub proof fn lemma_build_deterministic(
    b1: BuilderModel,
    b2: BuilderModel,
    e1: Seq<EventModel>,
    e2: Seq<EventModel>,
)
    requires
        b1 == b2,
        e1 == e2,
    ensures
        spec_run(b1, e1) == spec_run(b2, e2),
{
}

} // verus!

