//! An in-memory model of a read-only directory tree.
//!
//! All queries against a bundle work on this model; the caller is expected to
//! load the relevant part of the real filesystem into it. Paths are sequences
//! of entry names, resolved from the node they are relative to.

use vstd::prelude::*;
use vstd::pervasive::cloned;

verus! {

/// A named entry of a directory.
pub struct FsEntry {
    pub name: String,
    pub node: FsNode,
}

/// A node of the tree: a regular file with its text content, or a directory
/// with its entries in listing order.
pub enum FsNode {
    File { content: String },
    Dir { entries: Vec<FsEntry> },
}

/// The node under `name` among `entries`: the first entry carrying that name,
/// if any.
pub open spec fn lookup_entry(entries: Seq<FsEntry>, name: Seq<char>) -> Option<FsNode>
    decreases entries.len(),
{
    if entries.len() == 0 {
        None
    } else if entries[0].name@ == name {
        Some(entries[0].node)
    } else {
        lookup_entry(entries.drop_first(), name)
    }
}

/// The node reached from `node` by following `path`, component by component.
pub open spec fn resolve(node: FsNode, path: Seq<Seq<char>>) -> Option<FsNode>
    decreases path.len(),
{
    if path.len() == 0 {
        Some(node)
    } else {
        match node {
            FsNode::File { .. } => None,
            FsNode::Dir { entries } => match lookup_entry(entries@, path[0]) {
                None => None,
                Some(child) => resolve(child, path.drop_first()),
            },
        }
    }
}

/// Whether these entries carry pairwise distinct names, as the entries of a
/// real directory do.
pub open spec fn unique_names(entries: Seq<FsEntry>) -> bool {
    forall|i: int, j: int|
        0 <= i < j < entries.len() ==> (#[trigger] entries[i]).name@ != (
        #[trigger] entries[j]).name@
}

/// Whether a tree is shaped like a real filesystem: every directory's entries
/// carry pairwise distinct names.
pub open spec fn wf_node(node: FsNode) -> bool
    decreases node,
{
    match node {
        FsNode::File { .. } => true,
        FsNode::Dir { entries } => unique_names(entries@) && (forall|i: int|
            0 <= i < entries@.len() ==> wf_node(#[trigger] entries@[i].node)),
    }
}

/// In a directory with distinct names, looking up the name of entry `k`
/// finds exactly that entry.
pub proof fn lemma_lookup_unique(s: Seq<FsEntry>, k: int)
    requires
        unique_names(s),
        0 <= k < s.len(),
    ensures
        lookup_entry(s, s[k].name@) == Some(s[k].node),
    decreases s.len(),
{
    if k > 0 {
        assert(s.drop_first()[k - 1] == s[k]);
        assert forall|i: int, j: int|
            0 <= i < j < s.drop_first().len() implies (#[trigger] s.drop_first()[i]).name@ != (
        #[trigger] s.drop_first()[j]).name@ by {
            assert(s.drop_first()[i] == s[i + 1]);
            assert(s.drop_first()[j] == s[j + 1]);
        }
        lemma_lookup_unique(s.drop_first(), k - 1);
    }
}

/// A successful lookup returns the node of one of the entries.
pub proof fn lemma_lookup_member(s: Seq<FsEntry>, name: Seq<char>) -> (k: int)
    requires
        lookup_entry(s, name) is Some,
    ensures
        0 <= k < s.len(),
        s[k].name@ == name,
        lookup_entry(s, name) == Some(s[k].node),
    decreases s.len(),
{
    if s[0].name@ == name {
        0
    } else {
        1 + lemma_lookup_member(s.drop_first(), name)
    }
}

/// Resolving a concatenated path resolves the first part, then the second
/// from where the first led.
pub proof fn lemma_resolve_append(node: FsNode, p1: Seq<Seq<char>>, p2: Seq<Seq<char>>)
    ensures
        resolve(node, p1 + p2) == (match resolve(node, p1) {
            Some(n) => resolve(n, p2),
            None => None::<FsNode>,
        }),
    decreases p1.len(),
{
    if p1.len() == 0 {
        assert(p1 + p2 =~= p2);
    } else {
        assert((p1 + p2)[0] == p1[0]);
        assert((p1 + p2).drop_first() =~= p1.drop_first() + p2);
        match node {
            FsNode::File { .. } => {},
            FsNode::Dir { entries } => {
                match lookup_entry(entries@, p1[0]) {
                    None => {},
                    Some(child) => {
                        lemma_resolve_append(child, p1.drop_first(), p2);
                    },
                }
            },
        }
    }
}

/// Every node reached inside a well-formed tree is well-formed.
pub proof fn lemma_resolve_wf(node: FsNode, path: Seq<Seq<char>>)
    requires
        wf_node(node),
        resolve(node, path) is Some,
    ensures
        wf_node(resolve(node, path)->Some_0),
    decreases path.len(),
{
    if path.len() > 0 {
        match node {
            FsNode::File { .. } => {},
            FsNode::Dir { entries } => {
                match lookup_entry(entries@, path[0]) {
                    None => {},
                    Some(child) => {
                        let k = lemma_lookup_member(entries@, path[0]);
                        assert(wf_node(entries@[k].node));
                        lemma_resolve_wf(child, path.drop_first());
                    },
                }
            },
        }
    }
}

/// Whether `entries` hold a regular file named `name`.
pub open spec fn has_file_entry(entries: Seq<FsEntry>, name: Seq<char>) -> bool {
    lookup_entry(entries, name) matches Some(FsNode::File { .. })
}

/// Whether `entries` hold a directory named `name`.
pub open spec fn has_dir_entry(entries: Seq<FsEntry>, name: Seq<char>) -> bool {
    lookup_entry(entries, name) matches Some(FsNode::Dir { .. })
}

/// Finds the first entry named `name` and returns its node.
pub fn find_child<'a>(entries: &'a Vec<FsEntry>, name: &str) -> (r: Option<&'a FsNode>)
    ensures
        match r {
            Some(n) => lookup_entry(entries@, name@) == Some(*n),
            None => lookup_entry(entries@, name@) is None,
        },
{
    let owned: String = name.to_owned();
    let mut i: usize = 0;
    proof {
        assert(entries@.skip(0) =~= entries@);
    }
    while i < entries.len()
        invariant
            0 <= i <= entries.len(),
            owned@ == name@,
            lookup_entry(entries@, name@) == lookup_entry(entries@.skip(i as int), name@),
        decreases entries.len() - i,
    {
        proof {
            assert(entries@.skip(i as int)[0] == entries@[i as int]);
            assert(entries@.skip(i as int).drop_first() =~= entries@.skip(i + 1));
        }
        if entries[i].name == owned {
            return Some(&entries[i].node);
        }
        i += 1;
    }
    proof {
        assert(entries@.skip(entries@.len() as int).len() == 0);
    }
    None
}

/// Copies a path, component by component.
pub fn clone_path(v: &Vec<String>) -> (r: Vec<String>)
    ensures
        r@ == v@,
        r.deep_view() == v.deep_view(),
{
    let r = v.clone();
    proof {
        assert forall|i: int| 0 <= i < v@.len() implies r@[i] == v@[i] by {
            assert(cloned::<String>(v@[i], r@[i]));
        }
        assert(r@ =~= v@);
    }
    r
}

/// A copy of `path` with one more component at its end.
pub fn push_component(path: &Vec<String>, name: &String) -> (r: Vec<String>)
    ensures
        r.deep_view() == path.deep_view().push(name@),
{
    let mut r = clone_path(path);
    r.push(name.clone());
    proof {
        assert(r.deep_view() =~= path.deep_view().push(name@));
    }
    r
}

/// Follows `path` downward from `node` and returns the node it reaches.
pub fn resolve_node<'a>(node: &'a FsNode, path: &Vec<String>) -> (r: Option<&'a FsNode>)
    ensures
        match r {
            Some(n) => resolve(*node, path.deep_view()) == Some(*n),
            None => resolve(*node, path.deep_view()) is None,
        },
{
    let mut cur: &FsNode = node;
    let mut i: usize = 0;
    proof {
        assert(path.deep_view().skip(0) =~= path.deep_view());
    }
    while i < path.len()
        invariant
            0 <= i <= path.len(),
            resolve(*node, path.deep_view()) == resolve(*cur, path.deep_view().skip(i as int)),
        decreases path.len() - i,
    {
        proof {
            assert(path.deep_view().skip(i as int)[0] == path.deep_view()[i as int]);
            assert(path.deep_view().skip(i as int).drop_first() =~= path.deep_view().skip(i + 1));
        }
        match cur {
            FsNode::File { .. } => {
                return None;
            },
            FsNode::Dir { entries } => {
                match find_child(entries, path[i].as_str()) {
                    Some(child) => {
                        cur = child;
                    },
                    None => {
                        return None;
                    },
                }
            },
        }
        i += 1;
    }
    proof {
        assert(path.deep_view().skip(path@.len() as int).len() == 0);
    }
    Some(cur)
}

} // verus!
