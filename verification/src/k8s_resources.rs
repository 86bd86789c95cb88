//! The resource extractor: given a resource type and a scope path, it finds
//! the on-disk representation of that type and returns the parsed instances.
//!
//! Two layouts exist. The primary one is a directory
//! `<scope>/<group>/<plural>/` holding one yaml file per instance. When that
//! directory is absent, the fallback is a single list-type document beside
//! where it would stand, `<scope>/<group>/<plural>.yaml`, whose top-level
//! `items` array embeds the instances. Note the fallback keeps the group
//! component only because it is the candidate directory's parent; the file
//! name itself is derived from the plural kind alone.

use vstd::prelude::*;
use vstd::string::StrSliceExecFns;
use vstd::string::StringExecFns;

use yaml_rust::Yaml;

use crate::errors::MgError;
use crate::fs_tree::{clone_path, push_component, resolve, resolve_node, FsEntry, FsNode};
use crate::mustgather::MustGatherSubPath;
use crate::yaml_doc::{
    load_items_array, load_yaml_documents, yaml_docs_of, yaml_input_ok, yaml_input_within_bounds,
    yaml_items_of,
};

verus! {

/// One extracted resource instance: the file it was read from, the raw text
/// where the file was dedicated to it alone, and the parsed document.
pub struct K8sManifest {
    /// The path of the file the instance was read from.
    pub source_path: Vec<String>,
    /// The file's text, when the file held exactly this one document; absent
    /// when the instance was sliced out of a list-type document.
    pub raw: Option<String>,
    /// The parsed document.
    pub yaml: Yaml,
}

/// Where instances of a resource type live.
pub enum K8sResourceScope {
    Namespaced,
    Cluster,
    ClusterSingleton,
}

/// The text of a file node; a directory has none.
pub open spec fn file_content(n: FsNode) -> Seq<char> {
    match n {
        FsNode::File { content } => content@,
        FsNode::Dir { .. } => Seq::empty(),
    }
}

/// Whether a name carries the `yaml` extension: it ends in `.yaml` with a
/// nonempty stem before it.
pub open spec fn has_yaml_ext(name: Seq<char>) -> bool {
    name.len() > 5 && name.subrange(name.len() - 5, name.len() as int) == ".yaml"@
}

/// Whether an entry is a candidate resource file: a regular file with the
/// `yaml` extension. Everything else in the directory is silently skipped,
/// files without any extension included.
pub open spec fn is_yaml_file_entry(e: FsEntry) -> bool {
    e.node is File && has_yaml_ext(e.name@)
}

/// The candidate resource files among a directory's entries, in listing order.
pub open spec fn yaml_file_entries(entries: Seq<FsEntry>) -> Seq<FsEntry>
    decreases entries.len(),
{
    if entries.len() == 0 {
        Seq::empty()
    } else {
        let rest = yaml_file_entries(entries.drop_last());
        if is_yaml_file_entry(entries.last()) {
            rest.push(entries.last())
        } else {
            rest
        }
    }
}

/// Whether a file's text parses as exactly one yaml document.
pub open spec fn parses_to_single_doc(e: FsEntry) -> bool {
    yaml_docs_of(file_content(e.node)) matches Some(docs) && docs.len() == 1
}

/// Whether a file's text is within the parser guard bounds on block nesting
/// and anchor count.
pub open spec fn within_parser_bounds(e: FsEntry) -> bool {
    yaml_input_ok(file_content(e.node))
}

/// Whether a candidate file is usable: within the parser guard bounds and
/// parsing as exactly one document.
pub open spec fn file_well_formed(e: FsEntry) -> bool {
    within_parser_bounds(e) && parses_to_single_doc(e)
}

/// The position of the first candidate file that is over the guard bounds or
/// does not parse as exactly one document; the sequence's length when every
/// one is usable.
pub open spec fn first_bad_file(files: Seq<FsEntry>) -> int
    decreases files.len(),
{
    if files.len() == 0 {
        0
    } else if !file_well_formed(files[0]) {
        0
    } else {
        1 + first_bad_file(files.drop_first())
    }
}

/// Whether `m` is the manifest read from the dedicated file `e` inside the
/// directory at `dir`: it carries the file's path, its raw text, and its one
/// parsed document.
pub open spec fn manifest_from_file(m: K8sManifest, dir: Seq<Seq<char>>, e: FsEntry) -> bool {
    &&& m.source_path.deep_view() == dir.push(e.name@)
    &&& (m.raw matches Some(raw) && raw@ == file_content(e.node))
    &&& (yaml_docs_of(file_content(e.node)) matches Some(docs) && docs.len() == 1 && m.yaml
        == docs[0])
}

/// What reading a one-file-per-instance directory returns: one manifest per
/// candidate file when every one holds a single well-formed document, and the
/// error of the first offending file otherwise.
pub open spec fn read_dir_post(
    r: Result<Vec<K8sManifest>, MgError>,
    dir: Seq<Seq<char>>,
    entries: Seq<FsEntry>,
) -> bool {
    let files = yaml_file_entries(entries);
    match r {
        Ok(ms) => {
            &&& first_bad_file(files) == files.len()
            &&& forall|j: int| 0 <= j < files.len() ==> file_well_formed(#[trigger] files[j])
            &&& ms@.len() == files.len()
            &&& forall|j: int|
                0 <= j < files.len() ==> manifest_from_file(#[trigger] ms@[j], dir, files[j])
        },
        Err(e) => {
            let j = first_bad_file(files);
            match e {
                MgError::NestingLimitExceeded { path } => {
                    &&& 0 <= j < files.len()
                    &&& !within_parser_bounds(files[j])
                    &&& path.deep_view() == dir.push(files[j].name@)
                },
                MgError::ParseError { path } => {
                    &&& 0 <= j < files.len()
                    &&& within_parser_bounds(files[j])
                    &&& yaml_docs_of(file_content(files[j].node)) is None
                    &&& path.deep_view() == dir.push(files[j].name@)
                },
                MgError::MultiDocumentFile { path } => {
                    &&& 0 <= j < files.len()
                    &&& within_parser_bounds(files[j])
                    &&& (yaml_docs_of(file_content(files[j].node)) matches Some(docs) && docs.len()
                        != 1)
                    &&& path.deep_view() == dir.push(files[j].name@)
                },
                _ => false,
            }
        },
    }
}

/// What reading a list-type document file returns: one manifest per element
/// of the document's `items` array, without raw text, or the error that says
/// how the file fell short.
pub open spec fn read_file_post(
    r: Result<Vec<K8sManifest>, MgError>,
    fp: Seq<Seq<char>>,
    content: Seq<char>,
) -> bool {
    match r {
        Ok(ms) => {
            &&& yaml_input_ok(content)
            &&& (yaml_docs_of(content) matches Some(docs) && docs.len() == 1 && (yaml_items_of(
                docs[0],
            ) matches Some(items) && {
                &&& ms@.len() == items.len()
                &&& forall|j: int|
                    0 <= j < items.len() ==> {
                        &&& (#[trigger] ms@[j]).source_path.deep_view() == fp
                        &&& ms@[j].raw is None
                        &&& ms@[j].yaml == items[j]
                    }
            }))
        },
        Err(e) => match e {
            MgError::NestingLimitExceeded { path } => {
                &&& !yaml_input_ok(content)
                &&& path.deep_view() == fp
            },
            MgError::ParseError { path } => {
                &&& yaml_input_ok(content)
                &&& yaml_docs_of(content) is None
                &&& path.deep_view() == fp
            },
            MgError::MultiDocumentFile { path } => {
                &&& yaml_input_ok(content)
                &&& (yaml_docs_of(content) matches Some(docs) && docs.len() != 1)
                &&& path.deep_view() == fp
            },
            MgError::UnexpectedShape { path } => {
                &&& yaml_input_ok(content)
                &&& (yaml_docs_of(content) matches Some(docs) && docs.len() == 1 && yaml_items_of(
                    docs[0],
                ) is None)
                &&& path.deep_view() == fp
            },
            _ => false,
        },
    }
}

/// The directory probed first: `<scope>/<group>/<plural>/`.
pub open spec fn candidate_dir_path(
    scope: Seq<Seq<char>>,
    group: Seq<char>,
    plural: Seq<char>,
) -> Seq<Seq<char>> {
    scope + seq![group, plural]
}

/// The fallback list-type document: `<plural>.yaml` in the candidate
/// directory's parent.
pub open spec fn sibling_doc_path(
    scope: Seq<Seq<char>>,
    group: Seq<char>,
    plural: Seq<char>,
) -> Seq<Seq<char>> {
    scope + seq![group, plural + ".yaml"@]
}

/// What an extraction returns, over the whole layout resolution: the
/// candidate directory when it is one, else the sibling list-type document
/// when it is a file, else nothing was found.
pub open spec fn extract_post(
    r: Result<Vec<K8sManifest>, MgError>,
    fs: FsNode,
    scope: Seq<Seq<char>>,
    group: Seq<char>,
    plural: Seq<char>,
) -> bool {
    let cand = candidate_dir_path(scope, group, plural);
    match resolve(fs, cand) {
        Some(FsNode::Dir { entries }) => read_dir_post(r, cand, entries@),
        _ => {
            let sib = sibling_doc_path(scope, group, plural);
            match resolve(fs, sib) {
                Some(FsNode::File { content }) => read_file_post(r, sib, content@),
                _ => (r matches Err(MgError::ResourcesNotFound { path }) && path.deep_view()
                    == cand),
            }
        },
    }
}

/// Whether this name ends in the `.yaml` extension.
fn has_yaml_extension(name: &String) -> (r: bool)
    ensures
        r == has_yaml_ext(name@),
{
    let n = name.as_str().unicode_len();
    if n <= 5 {
        return false;
    }
    let tail = name.as_str().substring_char(n - 5, n);
    let tail_owned: String = tail.to_owned();
    let suffix: String = ".yaml".to_owned();
    tail_owned == suffix
}

/// `yaml_file_entries` distributes over concatenation.
proof fn lemma_yaml_files_concat(a: Seq<FsEntry>, b: Seq<FsEntry>)
    ensures
        yaml_file_entries(a + b) == yaml_file_entries(a) + yaml_file_entries(b),
    decreases b.len(),
{
    if b.len() == 0 {
        assert(a + b =~= a);
        assert(yaml_file_entries(a) + yaml_file_entries(b) =~= yaml_file_entries(a));
    } else {
        lemma_yaml_files_concat(a, b.drop_last());
        assert((a + b).drop_last() =~= a + b.drop_last());
        assert((a + b).last() == b.last());
        if is_yaml_file_entry(b.last()) {
            assert(yaml_file_entries(a) + yaml_file_entries(b) =~= (yaml_file_entries(a)
                + yaml_file_entries(b.drop_last())).push(b.last()));
        } else {
            assert(yaml_file_entries(b) == yaml_file_entries(b.drop_last()));
        }
    }
}

/// How the candidate files of `entries` relate to those of the prefix before
/// the candidate file at position `i`: the prefix's files come first,
/// unchanged, and `entries[i]` follows them.
proof fn lemma_files_prefix(entries: Seq<FsEntry>, i: int)
    requires
        0 <= i < entries.len(),
        is_yaml_file_entry(entries[i]),
    ensures
        ({
            let files = yaml_file_entries(entries);
            let pref = yaml_file_entries(entries.take(i));
            &&& pref.len() < files.len()
            &&& files[pref.len() as int] == entries[i]
            &&& forall|k: int| 0 <= k < pref.len() ==> #[trigger] files[k] == pref[k]
        }),
{
    lemma_yaml_files_concat(entries.take(i + 1), entries.skip(i + 1));
    assert(entries.take(i + 1) + entries.skip(i + 1) =~= entries);
    assert(entries.take(i + 1).drop_last() =~= entries.take(i));
    assert(entries.take(i + 1).last() == entries[i]);
}

/// When every file before position `j` is fine and the one at `j` is not,
/// `j` is the first offender.
proof fn lemma_first_bad_at(files: Seq<FsEntry>, j: int)
    requires
        0 <= j <= files.len(),
        forall|k: int| 0 <= k < j ==> file_well_formed(#[trigger] files[k]),
        j < files.len() ==> !file_well_formed(files[j]),
    ensures
        first_bad_file(files) == j,
    decreases files.len(),
{
    if files.len() == 0 {
    } else if j == 0 {
    } else {
        assert(file_well_formed(files[0]));
        assert(forall|k: int|
            0 <= k < j - 1 ==> #[trigger] files.drop_first()[k] == files[k + 1]);
        lemma_first_bad_at(files.drop_first(), j - 1);
    }
}

impl K8sManifest {
    /// Reads a one-file-per-instance directory: each regular file with the
    /// `yaml` extension must be within the parser guard bounds and hold
    /// exactly one well-formed document, and yields one manifest; other
    /// entries are skipped. The first offending file aborts the whole read.
    fn read_dir(dir_path: &Vec<String>, entries: &Vec<FsEntry>) -> (r: Result<
        Vec<K8sManifest>,
        MgError,
    >)
        ensures
            read_dir_post(r, dir_path.deep_view(), entries@),
    {
        let ghost dir = dir_path.deep_view();
        let mut manifests: Vec<K8sManifest> = Vec::new();
        let mut i: usize = 0;
        proof {
            assert(entries@.take(0).len() == 0);
        }
        while i < entries.len()
            invariant
                0 <= i <= entries@.len(),
                dir == dir_path.deep_view(),
                manifests@.len() == yaml_file_entries(entries@.take(i as int)).len(),
                forall|j: int|
                    0 <= j < manifests@.len() ==> file_well_formed(
                        #[trigger] yaml_file_entries(entries@.take(i as int))[j],
                    ),
                forall|j: int|
                    0 <= j < manifests@.len() ==> manifest_from_file(
                        #[trigger] manifests@[j],
                        dir,
                        yaml_file_entries(entries@.take(i as int))[j],
                    ),
            decreases entries@.len() - i,
        {
            let ghost pref = yaml_file_entries(entries@.take(i as int));
            proof {
                assert(entries@.take(i + 1).drop_last() =~= entries@.take(i as int));
                assert(entries@.take(i + 1).last() == entries@[i as int]);
            }
            match &entries[i] {
                FsEntry { name, node: FsNode::File { content } } => {
                    if has_yaml_extension(name) {
                        proof {
                            lemma_files_prefix(entries@, i as int);
                        }
                        if !yaml_input_within_bounds(content.as_str()) {
                            proof {
                                lemma_first_bad_at(
                                    yaml_file_entries(entries@),
                                    pref.len() as int,
                                );
                            }
                            return Err(
                                MgError::NestingLimitExceeded {
                                    path: push_component(dir_path, name),
                                },
                            );
                        }
                        match load_yaml_documents(content.as_str()) {
                            None => {
                                proof {
                                    lemma_first_bad_at(
                                        yaml_file_entries(entries@),
                                        pref.len() as int,
                                    );
                                }
                                return Err(
                                    MgError::ParseError { path: push_component(dir_path, name) },
                                );
                            },
                            Some(mut docs) => {
                                if docs.len() != 1 {
                                    proof {
                                        lemma_first_bad_at(
                                            yaml_file_entries(entries@),
                                            pref.len() as int,
                                        );
                                    }
                                    return Err(
                                        MgError::MultiDocumentFile {
                                            path: push_component(dir_path, name),
                                        },
                                    );
                                }
                                let y = docs.remove(0);
                                let m = K8sManifest {
                                    source_path: push_component(dir_path, name),
                                    raw: Some(content.clone()),
                                    yaml: y,
                                };
                                manifests.push(m);
                            },
                        }
                    }
                },
                FsEntry { node: FsNode::Dir { .. }, .. } => {},
            }
            i += 1;
        }
        proof {
            assert(entries@.take(entries@.len() as int) =~= entries@);
            lemma_first_bad_at(
                yaml_file_entries(entries@),
                yaml_file_entries(entries@).len() as int,
            );
        }
        Ok(manifests)
    }

    /// Reads a list-type document: the file must hold exactly one well-formed
    /// document whose `items` key carries an array, and each element yields
    /// one manifest without raw text, since an element's original text cannot
    /// be reconstructed from the enclosing document.
    fn read_file(file_path: &Vec<String>, content: &String) -> (r: Result<
        Vec<K8sManifest>,
        MgError,
    >)
        ensures
            read_file_post(r, file_path.deep_view(), content@),
    {
        if !yaml_input_within_bounds(content.as_str()) {
            return Err(MgError::NestingLimitExceeded { path: clone_path(file_path) });
        }
        let docs = match load_yaml_documents(content.as_str()) {
            None => {
                return Err(MgError::ParseError { path: clone_path(file_path) });
            },
            Some(docs) => docs,
        };
        if docs.len() != 1 {
            return Err(MgError::MultiDocumentFile { path: clone_path(file_path) });
        }
        let mut items = match load_items_array(&docs[0]) {
            None => {
                return Err(MgError::UnexpectedShape { path: clone_path(file_path) });
            },
            Some(items) => items,
        };
        let ghost orig = items@;
        let mut manifests: Vec<K8sManifest> = Vec::new();
        while items.len() > 0
            invariant
                manifests@.len() + items@.len() == orig.len(),
                items@ == orig.skip(manifests@.len() as int),
                forall|j: int|
                    0 <= j < manifests@.len() ==> {
                        &&& (#[trigger] manifests@[j]).source_path.deep_view()
                            == file_path.deep_view()
                        &&& manifests@[j].raw is None
                        &&& manifests@[j].yaml == orig[j]
                    },
            decreases items@.len(),
        {
            let ghost k = manifests@.len() as int;
            proof {
                assert(items@[0] == orig.skip(k)[0]);
                assert(items@.remove(0) =~= orig.skip(k + 1));
            }
            let y = items.remove(0);
            let m = K8sManifest {
                source_path: clone_path(file_path),
                raw: None,
                yaml: y,
            };
            manifests.push(m);
        }
        Ok(manifests)
    }
}

/// Extracts every instance of the resource type `<group>/<plural>` under the
/// area at `scope_path` inside the tree `fs`.
///
/// The candidate directory `<scope>/<group>/<plural>/` is probed first; when
/// it is not a directory, the sibling list-type document
/// `<scope>/<group>/<plural>.yaml` is probed; when that is not a file either,
/// the extraction fails naming the candidate directory. Extraction is
/// all-or-nothing: no partial results come back on an error.
pub fn extract_resources(
    fs: &FsNode,
    scope_path: &Vec<String>,
    group: &str,
    plural: &str,
) -> (r: Result<Vec<K8sManifest>, MgError>)
    ensures
        extract_post(r, *fs, scope_path.deep_view(), group@, plural@),
{
    let mut cand: Vec<String> = clone_path(scope_path);
    cand.push(group.to_owned());
    cand.push(plural.to_owned());
    proof {
        assert(cand.deep_view() =~= candidate_dir_path(scope_path.deep_view(), group@, plural@));
    }
    match resolve_node(fs, &cand) {
        Some(FsNode::Dir { entries }) => K8sManifest::read_dir(&cand, entries),
        _ => {
            let mut sib: Vec<String> = clone_path(scope_path);
            sib.push(group.to_owned());
            sib.push(plural.to_owned().concat(".yaml"));
            proof {
                assert(sib.deep_view() =~= sibling_doc_path(
                    scope_path.deep_view(),
                    group@,
                    plural@,
                ));
            }
            match resolve_node(fs, &sib) {
                Some(FsNode::File { content }) => K8sManifest::read_file(&sib, content),
                _ => Err(MgError::ResourcesNotFound { path: cand }),
            }
        },
    }
}

/// Round trip: when the candidate directory is there and each of its
/// candidate files is within the parser guard bounds and holds exactly one
/// well-formed document, extraction succeeds with one manifest per file, in
/// listing order, each carrying the file's raw text and its parsed document.
pub proof fn lemma_dir_extraction_round_trip(
    r: Result<Vec<K8sManifest>, MgError>,
    fs: FsNode,
    scope: Seq<Seq<char>>,
    group: Seq<char>,
    plural: Seq<char>,
    dir_entries: Seq<FsEntry>,
)
    requires
        extract_post(r, fs, scope, group, plural),
        (resolve(fs, candidate_dir_path(scope, group, plural)) matches Some(FsNode::Dir { entries }
        ) && entries@ == dir_entries),
        forall|j: int|
            0 <= j < yaml_file_entries(dir_entries).len() ==> file_well_formed(
                #[trigger] yaml_file_entries(dir_entries)[j],
            ),
    ensures
        (r matches Ok(ms) && {
            let files = yaml_file_entries(dir_entries);
            &&& ms@.len() == files.len()
            &&& forall|j: int|
                0 <= j < files.len() ==> manifest_from_file(
                    #[trigger] ms@[j],
                    candidate_dir_path(scope, group, plural),
                    files[j],
                )
        }),
{
}

/// A list-type document with `m` items extracts to exactly `m` manifests,
/// each without raw text and with the corresponding array element as its
/// parsed document.
pub proof fn lemma_list_extraction(
    r: Result<Vec<K8sManifest>, MgError>,
    fs: FsNode,
    scope: Seq<Seq<char>>,
    group: Seq<char>,
    plural: Seq<char>,
    content: Seq<char>,
    items: Seq<Yaml>,
)
    requires
        extract_post(r, fs, scope, group, plural),
        !(resolve(fs, candidate_dir_path(scope, group, plural)) matches Some(FsNode::Dir { .. })),
        (resolve(fs, sibling_doc_path(scope, group, plural)) matches Some(FsNode::File { content: c }
        ) && c@ == content),
        yaml_input_ok(content),
        (yaml_docs_of(content) matches Some(docs) && docs.len() == 1 && yaml_items_of(docs[0])
            == Some(items)),
    ensures
        (r matches Ok(ms) && {
            &&& ms@.len() == items.len()
            &&& forall|j: int|
                0 <= j < items.len() ==> {
                    &&& (#[trigger] ms@[j]).source_path.deep_view() == sibling_doc_path(
                        scope,
                        group,
                        plural,
                    )
                    &&& ms@[j].raw is None
                    &&& ms@[j].yaml == items[j]
                }
        }),
{
}

/// Whether two manifest sequences agree in everything observable: lengths,
/// source paths, raw texts and parsed documents.
pub open spec fn manifests_equivalent(a: Seq<K8sManifest>, b: Seq<K8sManifest>) -> bool {
    &&& a.len() == b.len()
    &&& forall|j: int|
        0 <= j < a.len() ==> {
            &&& (#[trigger] a[j]).source_path.deep_view() == b[j].source_path.deep_view()
            &&& a[j].raw.deep_view() == b[j].raw.deep_view()
            &&& a[j].yaml == b[j].yaml
        }
}

/// Whether two errors agree: the same kind, about paths that read the same.
pub open spec fn errors_equivalent(a: MgError, b: MgError) -> bool {
    match (a, b) {
        (MgError::NotADirectory { path: p1 }, MgError::NotADirectory { path: p2 }) => p1.deep_view()
            == p2.deep_view(),
        (MgError::AmbiguousOrMissingRoot, MgError::AmbiguousOrMissingRoot) => true,
        (MgError::DepthLimitExceeded, MgError::DepthLimitExceeded) => true,
        (MgError::ReadError { path: p1 }, MgError::ReadError { path: p2 }) => p1.deep_view()
            == p2.deep_view(),
        (
            MgError::NestingLimitExceeded { path: p1 },
            MgError::NestingLimitExceeded { path: p2 },
        ) => p1.deep_view() == p2.deep_view(),
        (MgError::ParseError { path: p1 }, MgError::ParseError { path: p2 }) => p1.deep_view()
            == p2.deep_view(),
        (MgError::MultiDocumentFile { path: p1 }, MgError::MultiDocumentFile { path: p2 }) => p1.deep_view()
            == p2.deep_view(),
        (MgError::UnexpectedShape { path: p1 }, MgError::UnexpectedShape { path: p2 }) => p1.deep_view()
            == p2.deep_view(),
        (MgError::ResourcesNotFound { path: p1 }, MgError::ResourcesNotFound { path: p2 }) => p1.deep_view()
            == p2.deep_view(),
        _ => false,
    }
}

/// Whether two extraction results agree in everything observable.
pub open spec fn results_equivalent(
    a: Result<Vec<K8sManifest>, MgError>,
    b: Result<Vec<K8sManifest>, MgError>,
) -> bool {
    match (a, b) {
        (Ok(x), Ok(y)) => manifests_equivalent(x@, y@),
        (Err(e1), Err(e2)) => errors_equivalent(e1, e2),
        _ => false,
    }
}

/// Idempotence: two extractions of the same resource type from the same
/// scope of an unchanged tree return equal results.
pub proof fn lemma_extract_idempotent(
    r1: Result<Vec<K8sManifest>, MgError>,
    r2: Result<Vec<K8sManifest>, MgError>,
    fs: FsNode,
    scope: Seq<Seq<char>>,
    group: Seq<char>,
    plural: Seq<char>,
)
    requires
        extract_post(r1, fs, scope, group, plural),
        extract_post(r2, fs, scope, group, plural),
    ensures
        results_equivalent(r1, r2),
{
}

/// The default pluralization of a kind name: the singular with `s` appended.
pub open spec fn default_plural(kind: Seq<char>) -> Seq<char> {
    kind + "s"@
}

/// Returns the default plural form of a kind name.
pub fn default_kind_plural(kind: &str) -> (r: String)
    ensures
        r@ == default_plural(kind@),
{
    kind.to_owned().concat("s")
}

/// A kind of resource to extract: its API group, its singular and plural kind
/// names, and its scope. One concrete descriptor is implemented per resource
/// kind, by the caller; the plural is usually [`default_kind_plural`].
pub trait MustGatherK8sResource {
    /// The API group name.
    spec fn spec_group() -> Seq<char>;

    /// The singular kind name.
    spec fn spec_kind() -> Seq<char>;

    /// The plural kind name.
    spec fn spec_kind_plural() -> Seq<char>;

    /// Returns the API group name.
    fn get_group() -> (r: String)
        ensures
            r@ == Self::spec_group(),
    ;

    /// Returns the singular kind name.
    fn get_kind() -> (r: String)
        ensures
            r@ == Self::spec_kind(),
    ;

    /// Returns the plural kind name.
    fn get_kind_plural() -> (r: String)
        ensures
            r@ == Self::spec_kind_plural(),
    ;

    /// How instances of this resource type are scoped.
    fn get_resource_scope() -> K8sResourceScope;

    /// The directory under which instances of this type live in the given
    /// area: `<scope>/<group>/<plural>`.
    fn get_resources_root<S: MustGatherSubPath>(mg: &S) -> (r: Vec<String>)
        ensures
            r.deep_view() == candidate_dir_path(
                mg.spec_path(),
                Self::spec_group(),
                Self::spec_kind_plural(),
            ),
    {
        let mut root = mg.get_path();
        let ghost scope = root.deep_view();
        root.push(Self::get_group());
        root.push(Self::get_kind_plural());
        proof {
            assert(root.deep_view() =~= candidate_dir_path(
                scope,
                Self::spec_group(),
                Self::spec_kind_plural(),
            ));
        }
        root
    }

    /// Extracts every instance of this resource type under the given area of
    /// the tree `fs`.
    fn get_all_resources<S: MustGatherSubPath>(fs: &FsNode, mg: &S) -> (r: Result<
        Vec<K8sManifest>,
        MgError,
    >)
        ensures
            extract_post(r, *fs, mg.spec_path(), Self::spec_group(), Self::spec_kind_plural()),
    {
        let scope = mg.get_path();
        let group = Self::get_group();
        let plural = Self::get_kind_plural();
        extract_resources(fs, &scope, group.as_str(), plural.as_str())
    }
}

} // verus!
