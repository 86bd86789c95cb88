//! Locating the root of a must-gather bundle and building scope paths.
//!
//! A genuine root contains either a file named `version`, or both a
//! `namespaces` directory and a `cluster-scoped-resources` directory. A bundle
//! may sit under wrapper directories: the search descends through a chain of
//! sole subdirectories until it meets the markers, and refuses to guess when a
//! level holds zero or several subdirectories.

use vstd::prelude::*;

use crate::errors::MgError;
use crate::fs_tree::{
    clone_path, find_child, has_dir_entry, has_file_entry, lemma_lookup_unique,
    lemma_resolve_append, lemma_resolve_wf, resolve, resolve_node, wf_node,
    FsEntry, FsNode,
};

verus! {

/// How many wrapper directories the root search is willing to descend
/// through. A genuine bundle sits under a handful at most; the bound guards
/// against pathological trees.
pub const MAX_ROOT_SEARCH_DEPTH: usize = 64;

/// Whether a directory with these entries is a bundle root: it holds a
/// `version` file, or both marker directories.
pub open spec fn is_bundle_root(entries: Seq<FsEntry>) -> bool {
    has_file_entry(entries, "version"@) || (has_dir_entry(entries, "namespaces"@)
        && has_dir_entry(entries, "cluster-scoped-resources"@))
}

/// How many of these entries are directories.
pub open spec fn subdir_count(entries: Seq<FsEntry>) -> nat
    decreases entries.len(),
{
    if entries.len() == 0 {
        0
    } else {
        subdir_count(entries.drop_last()) + if entries.last().node is Dir {
            1nat
        } else {
            0nat
        }
    }
}

/// The last directory among these entries, if any. When `subdir_count` is 1,
/// this is the sole subdirectory.
pub open spec fn last_subdir(entries: Seq<FsEntry>) -> Option<FsEntry>
    decreases entries.len(),
{
    if entries.len() == 0 {
        None
    } else if entries.last().node is Dir {
        Some(entries.last())
    } else {
        last_subdir(entries.drop_last())
    }
}

/// What a root search ends in: the path of the root, or the way it failed.
pub enum RootSearch {
    /// The root was found at this path.
    Found(Seq<Seq<char>>),
    /// The search path does not lead to a directory.
    NotADirectory,
    /// A level without markers held zero or several subdirectories.
    Ambiguous,
    /// The chain of sole subdirectories outran the depth bound.
    DepthExceeded,
}

/// The outcome of searching for a bundle root from a directory with these
/// entries, with leave to descend `fuel` more levels. A found root is given
/// by its path relative to that directory.
pub open spec fn find_root_spec(entries: Seq<FsEntry>, fuel: nat) -> RootSearch
    decreases fuel,
{
    if is_bundle_root(entries) {
        RootSearch::Found(Seq::empty())
    } else if subdir_count(entries) == 1 {
        if fuel == 0 {
            RootSearch::DepthExceeded
        } else {
            match last_subdir(entries) {
                Some(e) => match e.node {
                    FsNode::Dir { entries: sub } => prefix_search(
                        seq![e.name@],
                        find_root_spec(sub@, (fuel - 1) as nat),
                    ),
                    // the sole subdirectory is a directory; this arm is never taken
                    FsNode::File { .. } => RootSearch::Ambiguous,
                },
                // subdir_count is 1; this arm is never taken
                None => RootSearch::Ambiguous,
            }
        }
    } else {
        RootSearch::Ambiguous
    }
}

/// Prepends `prefix` to the path of a found root; failures pass through.
pub open spec fn prefix_search(prefix: Seq<Seq<char>>, r: RootSearch) -> RootSearch {
    match r {
        RootSearch::Found(rel) => RootSearch::Found(prefix + rel),
        _ => r,
    }
}

/// The outcome of the whole root search: resolve `start` inside `fs`, then
/// search downward from there. A found root is given by its absolute path.
pub open spec fn locate_root_spec(fs: FsNode, start: Seq<Seq<char>>, fuel: nat) -> RootSearch {
    match resolve(fs, start) {
        Some(FsNode::Dir { entries }) => prefix_search(start, find_root_spec(entries@, fuel)),
        _ => RootSearch::NotADirectory,
    }
}

/// The validated top-level directory of a must-gather bundle, by its absolute
/// path. Immutable once constructed.
#[derive(Clone)]
pub struct MustGatherRoot {
    path: Vec<String>,
}

impl View for MustGatherRoot {
    type V = Seq<Seq<char>>;

    closed spec fn view(&self) -> Seq<Seq<char>> {
        self.path.deep_view()
    }
}

/// Whether a directory with these entries is a bundle root.
fn is_root_dir(entries: &Vec<FsEntry>) -> (r: bool)
    ensures
        r == is_bundle_root(entries@),
{
    let has_version = match find_child(entries, "version") {
        Some(FsNode::File { .. }) => true,
        _ => false,
    };
    if has_version {
        return true;
    }
    let has_ns = match find_child(entries, "namespaces") {
        Some(FsNode::Dir { .. }) => true,
        _ => false,
    };
    if !has_ns {
        return false;
    }
    match find_child(entries, "cluster-scoped-resources") {
        Some(FsNode::Dir { .. }) => true,
        _ => false,
    }
}

/// Counts the directories among these entries and finds the last one.
fn scan_subdirs(entries: &Vec<FsEntry>) -> (r: (usize, usize))
    ensures
        r.0 == subdir_count(entries@),
        r.0 > 0 ==> r.1 < entries@.len() && last_subdir(entries@) == Some(entries@[r.1 as int])
            && entries@[r.1 as int].node is Dir,
{
    let mut count: usize = 0;
    let mut last: usize = 0;
    let mut i: usize = 0;
    proof {
        assert(entries@.take(0).len() == 0);
    }
    while i < entries.len()
        invariant
            0 <= i <= entries@.len(),
            count <= i,
            count == subdir_count(entries@.take(i as int)),
            count > 0 ==> last < i && last_subdir(entries@.take(i as int)) == Some(
                entries@[last as int],
            ) && entries@[last as int].node is Dir,
        decreases entries@.len() - i,
    {
        proof {
            assert(entries@.take(i + 1).drop_last() =~= entries@.take(i as int));
            assert(entries@.take(i + 1).last() == entries@[i as int]);
        }
        let is_dir = match &entries[i] {
            FsEntry { node: FsNode::Dir { .. }, .. } => true,
            _ => false,
        };
        if is_dir {
            count += 1;
            last = i;
        }
        i += 1;
    }
    proof {
        assert(entries@.take(entries@.len() as int) =~= entries@);
    }
    (count, last)
}

impl MustGatherRoot {
    /// Searches for the root of a must-gather bundle inside the tree `fs`,
    /// starting at `start`.
    ///
    /// The search first looks for a `version` file at the current level, then
    /// for the `namespaces` and `cluster-scoped-resources` directory pair; if
    /// neither is there, it descends into the sole subdirectory, and fails
    /// when the level holds zero or several, or when the descent exceeds
    /// [`MAX_ROOT_SEARCH_DEPTH`] levels.
    pub fn new(fs: &FsNode, start: &Vec<String>) -> (r: Result<MustGatherRoot, MgError>)
        ensures
            ({
                let out = locate_root_spec(*fs, start.deep_view(), MAX_ROOT_SEARCH_DEPTH as nat);
                match r {
                    Ok(root) => out == RootSearch::Found(root@),
                    Err(e) => match e {
                        MgError::NotADirectory { path } => out is NotADirectory
                            && path.deep_view() == start.deep_view(),
                        MgError::AmbiguousOrMissingRoot => out is Ambiguous,
                        MgError::DepthLimitExceeded => out is DepthExceeded,
                        _ => false,
                    },
                }
            }),
    {
        let mut cur: &Vec<FsEntry> = match resolve_node(fs, start) {
            Some(FsNode::Dir { entries }) => entries,
            _ => {
                return Err(MgError::NotADirectory { path: clone_path(start) });
            },
        };
        let mut path: Vec<String> = clone_path(start);
        let mut depth: usize = 0;
        loop
            invariant
                depth <= MAX_ROOT_SEARCH_DEPTH,
                resolve(*fs, start.deep_view()) matches Some(n) && n is Dir,
                locate_root_spec(*fs, start.deep_view(), MAX_ROOT_SEARCH_DEPTH as nat)
                    == prefix_search(
                    path.deep_view(),
                    find_root_spec(cur@, (MAX_ROOT_SEARCH_DEPTH - depth) as nat),
                ),
            decreases MAX_ROOT_SEARCH_DEPTH - depth,
        {
            if is_root_dir(cur) {
                proof {
                    assert(path.deep_view() + Seq::<Seq<char>>::empty() =~= path.deep_view());
                }
                return Ok(MustGatherRoot { path });
            }
            let (count, last) = scan_subdirs(cur);
            if count != 1 {
                return Err(MgError::AmbiguousOrMissingRoot);
            }
            if depth == MAX_ROOT_SEARCH_DEPTH {
                return Err(MgError::DepthLimitExceeded);
            }
            let entry = &cur[last];
            let ghost old_path = path.deep_view();
            let ghost old_fuel = (MAX_ROOT_SEARCH_DEPTH - depth) as nat;
            match &entry.node {
                FsNode::Dir { entries: sub } => {
                    path.push(entry.name.clone());
                    proof {
                        assert(path.deep_view() =~= old_path + seq![entry.name@]);
                        assert(find_root_spec(cur@, old_fuel) == prefix_search(
                            seq![entry.name@],
                            find_root_spec(sub@, (old_fuel - 1) as nat),
                        ));
                        assert forall|rel: Seq<Seq<char>>|
                            true implies (old_path + seq![entry.name@]) + rel =~= old_path + (seq![
                            entry.name@,
                        ] + rel) by {}
                    }
                    cur = sub;
                    depth += 1;
                },
                FsNode::File { .. } => {
                    proof {
                        assert(false);
                    }
                    return Err(MgError::AmbiguousOrMissingRoot);
                },
            }
        }
    }

    /// The scope for one namespace of this bundle.
    pub fn new_namespace(&self, ns: String) -> (r: Namespace)
        ensures
            r.spec_path() == self@ + seq!["namespaces"@, ns@],
    {
        let r = Namespace {
            root: MustGatherRoot { path: clone_path(&self.path) },
            namespace: Some(ns),
        };
        r
    }

    /// The cluster-wide scope of this bundle.
    pub fn new_cluster_scoped(&self) -> (r: Namespace)
        ensures
            r.spec_path() == self@ + seq!["cluster-scoped-resources"@],
    {
        Namespace { root: MustGatherRoot { path: clone_path(&self.path) }, namespace: None }
    }
}

/// Whether a directory with these entries sits atop a chain of sole
/// subdirectories that meets the bundle markers after exactly `d` descents:
/// no level before the last carries the markers or a second subdirectory.
pub open spec fn is_single_chain(entries: Seq<FsEntry>, d: nat) -> bool
    decreases d,
{
    if d == 0 {
        is_bundle_root(entries)
    } else {
        &&& !is_bundle_root(entries)
        &&& subdir_count(entries) == 1
        &&& (last_subdir(entries) matches Some(e) && (e.node matches FsNode::Dir { entries: sub }
            && is_single_chain(sub@, (d - 1) as nat)))
    }
}

/// The path walked by descending such a chain for `d` levels.
pub open spec fn chain_path(entries: Seq<FsEntry>, d: nat) -> Seq<Seq<char>>
    decreases d,
{
    if d == 0 {
        Seq::empty()
    } else {
        match last_subdir(entries) {
            Some(e) => match e.node {
                FsNode::Dir { entries: sub } => seq![e.name@] + chain_path(sub@, (d - 1) as nat),
                FsNode::File { .. } => Seq::empty(),
            },
            None => Seq::empty(),
        }
    }
}

/// Root-finding follows a chain of sole subdirectories down to the marked
/// directory and returns that directory, whatever the depth `d` of the chain,
/// as long as the depth bound leaves room for it.
pub proof fn lemma_chain_is_found(entries: Seq<FsEntry>, d: nat, fuel: nat)
    requires
        is_single_chain(entries, d),
        d <= fuel,
    ensures
        find_root_spec(entries, fuel) == RootSearch::Found(chain_path(entries, d)),
    decreases d,
{
    if d > 0 {
        let e = last_subdir(entries)->Some_0;
        let sub = e.node->Dir_entries;
        lemma_chain_is_found(sub@, (d - 1) as nat, (fuel - 1) as nat);
    }
}

/// The whole search follows such a chain: when the start path resolves to a
/// directory atop a single chain of depth `d`, within the bound, the located
/// root is the start path extended by the chain's path.
pub proof fn lemma_locate_follows_chain(
    fs: FsNode,
    start: Seq<Seq<char>>,
    dir_entries: Seq<FsEntry>,
    d: nat,
    fuel: nat,
)
    requires
        (resolve(fs, start) matches Some(FsNode::Dir { entries }) && entries@ == dir_entries),
        is_single_chain(dir_entries, d),
        d <= fuel,
    ensures
        locate_root_spec(fs, start, fuel) == RootSearch::Found(start + chain_path(dir_entries, d)),
{
    lemma_chain_is_found(dir_entries, d, fuel);
}

/// A directory that carries no marker and holds zero or several
/// subdirectories stops the search as ambiguous, whatever depth remains; so
/// in particular does every tree shaped like that at each level.
pub proof fn lemma_no_sole_subdir_is_ambiguous(entries: Seq<FsEntry>, fuel: nat)
    requires
        !is_bundle_root(entries),
        subdir_count(entries) != 1,
    ensures
        find_root_spec(entries, fuel) == RootSearch::Ambiguous,
{
}

/// The last subdirectory is one of the entries.
proof fn lemma_last_subdir_member(s: Seq<FsEntry>) -> (k: int)
    requires
        subdir_count(s) > 0,
    ensures
        0 <= k < s.len(),
        last_subdir(s) == Some(s[k]),
    decreases s.len(),
{
    if s.last().node is Dir {
        s.len() - 1
    } else {
        lemma_last_subdir_member(s.drop_last())
    }
}

/// A root the search finds really carries the markers: following the found
/// path from the searched directory reaches a directory that is a bundle
/// root. The tree must be well-formed, so that the path leads where the
/// search went.
pub proof fn lemma_found_root_is_marked(node: FsNode, fuel: nat, rel: Seq<Seq<char>>)
    requires
        wf_node(node),
        (node matches FsNode::Dir { entries } && find_root_spec(entries@, fuel)
            == RootSearch::Found(rel)),
    ensures
        (resolve(node, rel) matches Some(FsNode::Dir { entries }) && is_bundle_root(entries@)),
    decreases fuel,
{
    let entries = node->Dir_entries;
    if !is_bundle_root(entries@) {
        let e = last_subdir(entries@)->Some_0;
        let k = lemma_last_subdir_member(entries@);
        let sub = e.node->Dir_entries;
        let inner = find_root_spec(sub@, (fuel - 1) as nat);
        let rel_tail = inner->Found_0;
        assert(rel == seq![e.name@] + rel_tail);
        lemma_lookup_unique(entries@, k);
        assert(wf_node(entries@[k].node));
        assert(rel[0] == e.name@);
        assert(rel.drop_first() =~= rel_tail);
        lemma_found_root_is_marked(e.node, (fuel - 1) as nat, rel_tail);
    }
}

/// The invariant of a located bundle root: inside a well-formed tree, the
/// path the whole search returns resolves to a directory that carries the
/// markers.
pub proof fn lemma_located_root_is_marked(
    fs: FsNode,
    start: Seq<Seq<char>>,
    fuel: nat,
    root: Seq<Seq<char>>,
)
    requires
        wf_node(fs),
        locate_root_spec(fs, start, fuel) == RootSearch::Found(root),
    ensures
        (resolve(fs, root) matches Some(FsNode::Dir { entries }) && is_bundle_root(entries@)),
{
    let d = resolve(fs, start)->Some_0;
    let entries = d->Dir_entries;
    let rel = find_root_spec(entries@, fuel)->Found_0;
    assert(root == start + rel);
    lemma_resolve_wf(fs, start);
    lemma_found_root_is_marked(d, fuel, rel);
    lemma_resolve_append(fs, start, rel);
}

/// A queryable area of a bundle, named by its filesystem path.
pub trait MustGatherSubPath {
    /// The path of the area, as a sequence of components.
    spec fn spec_path(&self) -> Seq<Seq<char>>;

    /// Returns the path of the area.
    fn get_path(&self) -> (r: Vec<String>)
        ensures
            r.deep_view() == self.spec_path(),
    ;
}

/// One namespace of a bundle, or its cluster-scoped area when no namespace
/// name is carried.
pub struct Namespace {
    root: MustGatherRoot,
    namespace: Option<String>,
}

impl MustGatherSubPath for Namespace {
    closed spec fn spec_path(&self) -> Seq<Seq<char>> {
        match self.namespace {
            Some(ns) => self.root@ + seq!["namespaces"@, ns@],
            None => self.root@ + seq!["cluster-scoped-resources"@],
        }
    }

    /// Namespaced areas live under `namespaces/<name>`; the cluster-scoped
    /// area lives under `cluster-scoped-resources`.
    fn get_path(&self) -> (r: Vec<String>) {
        let mut path = clone_path(&self.root.path);
        let ghost root_path = path.deep_view();
        match &self.namespace {
            Some(ns) => {
                path.push("namespaces".to_owned());
                path.push(ns.clone());
                proof {
                    assert(path.deep_view() =~= root_path + seq!["namespaces"@, ns@]);
                }
            },
            None => {
                path.push("cluster-scoped-resources".to_owned());
                proof {
                    assert(path.deep_view() =~= root_path + seq!["cluster-scoped-resources"@]);
                }
            },
        }
        path
    }
}

} // verus!
