use mustgather::errors::MgError;
use mustgather::fs_tree::{FsEntry, FsNode};
use mustgather::k8s_resources::{
    default_kind_plural, extract_resources, K8sResourceScope, MustGatherK8sResource,
};
use mustgather::kinds::{Deployment, Machine};
use mustgather::mustgather::{MustGatherRoot, MustGatherSubPath};

use yaml_rust::YamlLoader;

fn file(name: &str, content: &str) -> FsEntry {
    FsEntry { name: name.to_string(), node: FsNode::File { content: content.to_string() } }
}

fn dir(name: &str, entries: Vec<FsEntry>) -> FsEntry {
    FsEntry { name: name.to_string(), node: FsNode::Dir { entries } }
}

fn machine_doc(name: &str) -> String {
    format!(
        "apiVersion: machine.openshift.io/v1beta1\nkind: Machine\nmetadata:\n  name: {}\n",
        name
    )
}

const DEPLOYMENT_LIST: &str = "apiVersion: v1\nkind: DeploymentList\nitems:\n- metadata:\n    name: d1\n- metadata:\n    name: d2\n- metadata:\n    name: d3\n- metadata:\n    name: d4\n- metadata:\n    name: d5\n";

fn machine_api_namespace() -> FsEntry {
    dir(
        "openshift-machine-api",
        vec![
            dir(
                "machine.openshift.io",
                vec![dir(
                    "machines",
                    vec![
                        file("machine1.yaml", &machine_doc("m1")),
                        file("machine2.yaml", &machine_doc("m2")),
                        file("machine3.yaml", &machine_doc("m3")),
                    ],
                )],
            ),
            dir("apps", vec![file("deployments.yaml", DEPLOYMENT_LIST)]),
        ],
    )
}

fn valid_mg_fs() -> FsNode {
    FsNode::Dir {
        entries: vec![dir(
            "testdata",
            vec![dir(
                "must-gather-valid",
                vec![dir(
                    "sample-openshift-release",
                    vec![
                        file("version", "4.10.0\n"),
                        dir("namespaces", vec![machine_api_namespace()]),
                        dir("cluster-scoped-resources", vec![]),
                    ],
                )],
            )],
        )],
    }
}

fn get_valid_mg_path() -> Vec<String> {
    vec!["testdata".to_string(), "must-gather-valid".to_string()]
}

#[test]
fn test_resources_in_multiple_files() {
    let fs = valid_mg_fs();
    let root = MustGatherRoot::new(&fs, &get_valid_mg_path()).unwrap();
    let ns = root.new_namespace("openshift-machine-api".to_string());

    let manifests = Machine::get_all_resources(&fs, &ns).unwrap();
    assert_eq!(manifests.len(), 3)
}

#[test]
fn test_resourcelist_in_single_document() {
    let fs = valid_mg_fs();
    let root = MustGatherRoot::new(&fs, &get_valid_mg_path()).unwrap();
    let ns = root.new_namespace("openshift-machine-api".to_string());

    let manifests = Deployment::get_all_resources(&fs, &ns).unwrap();
    assert_eq!(manifests.len(), 5)
}

#[test]
fn test_directory_extraction_round_trip() {
    // each manifest carries the file's raw text and the document parsed from
    // exactly that text
    let fs = valid_mg_fs();
    let root = MustGatherRoot::new(&fs, &get_valid_mg_path()).unwrap();
    let ns = root.new_namespace("openshift-machine-api".to_string());
    let scope = ns.get_path();

    let manifests = extract_resources(&fs, &scope, "machine.openshift.io", "machines").unwrap();
    assert_eq!(manifests.len(), 3);
    for (i, m) in manifests.iter().enumerate() {
        let expected_text = machine_doc(&format!("m{}", i + 1));
        assert_eq!(m.raw.as_deref(), Some(expected_text.as_str()));
        let expected_docs = YamlLoader::load_from_str(&expected_text).unwrap();
        assert_eq!(m.yaml, expected_docs[0]);
        let mut expected_path = scope.clone();
        expected_path.push("machine.openshift.io".to_string());
        expected_path.push("machines".to_string());
        expected_path.push(format!("machine{}.yaml", i + 1));
        assert_eq!(m.source_path, expected_path);
    }
}

#[test]
fn test_list_extraction_elements() {
    // each manifest is the corresponding element of the `items` array, with
    // no raw text
    let fs = valid_mg_fs();
    let root = MustGatherRoot::new(&fs, &get_valid_mg_path()).unwrap();
    let ns = root.new_namespace("openshift-machine-api".to_string());
    let scope = ns.get_path();

    let manifests = extract_resources(&fs, &scope, "apps", "deployments").unwrap();
    assert_eq!(manifests.len(), 5);
    let doc = &YamlLoader::load_from_str(DEPLOYMENT_LIST).unwrap()[0];
    let items = doc["items"].as_vec().unwrap();
    let mut expected_path = scope.clone();
    expected_path.push("apps".to_string());
    expected_path.push("deployments.yaml".to_string());
    for (i, m) in manifests.iter().enumerate() {
        assert_eq!(m.raw, None);
        assert_eq!(m.yaml, items[i]);
        assert_eq!(m.source_path, expected_path);
    }
}

#[test]
fn test_extract_is_idempotent() {
    let fs = valid_mg_fs();
    let root = MustGatherRoot::new(&fs, &get_valid_mg_path()).unwrap();
    let ns = root.new_namespace("openshift-machine-api".to_string());
    let scope = ns.get_path();

    let first = extract_resources(&fs, &scope, "machine.openshift.io", "machines").unwrap();
    let second = extract_resources(&fs, &scope, "machine.openshift.io", "machines").unwrap();
    assert_eq!(first.len(), second.len());
    for (a, b) in first.iter().zip(second.iter()) {
        assert_eq!(a.source_path, b.source_path);
        assert_eq!(a.raw, b.raw);
        assert_eq!(a.yaml, b.yaml);
    }
}

#[test]
fn test_resources_not_found() {
    // neither the directory nor the sibling list file exists
    let fs = valid_mg_fs();
    let root = MustGatherRoot::new(&fs, &get_valid_mg_path()).unwrap();
    let ns = root.new_namespace("openshift-machine-api".to_string());
    let scope = ns.get_path();

    let r = extract_resources(&fs, &scope, "route.openshift.io", "routes");
    match r {
        Err(MgError::ResourcesNotFound { path }) => {
            let mut expected = scope.clone();
            expected.push("route.openshift.io".to_string());
            expected.push("routes".to_string());
            assert_eq!(path, expected);
        },
        _ => panic!("expected ResourcesNotFound"),
    }
}

#[test]
fn test_list_document_is_probed_under_its_group() {
    // the fallback list file lives in the candidate directory's parent, so
    // the group component is kept: a list file directly under the scope is
    // not found
    let fs = FsNode::Dir {
        entries: vec![dir("scope", vec![file("deployments.yaml", DEPLOYMENT_LIST)])],
    };
    let scope = vec!["scope".to_string()];
    let r = extract_resources(&fs, &scope, "apps", "deployments");
    assert!(matches!(r, Err(MgError::ResourcesNotFound { .. })));
}

#[test]
fn test_non_yaml_entries_are_skipped() {
    // files with another extension or with none at all are skipped, not
    // reported as errors
    let fs = FsNode::Dir {
        entries: vec![dir(
            "scope",
            vec![dir(
                "apps",
                vec![dir(
                    "deployments",
                    vec![
                        file("deployment1.yaml", "metadata:\n  name: d1\n"),
                        file("notes.txt", "not yaml"),
                        file("version", "no extension at all"),
                        file(".yaml", "hidden, no stem"),
                        dir("subdir.yaml", vec![]),
                    ],
                )],
            )],
        )],
    };
    let scope = vec!["scope".to_string()];
    let manifests = extract_resources(&fs, &scope, "apps", "deployments").unwrap();
    assert_eq!(manifests.len(), 1);
    assert_eq!(manifests[0].source_path.join("/"), "scope/apps/deployments/deployment1.yaml");
}

#[test]
fn test_malformed_file_aborts_extraction() {
    let fs = FsNode::Dir {
        entries: vec![dir(
            "scope",
            vec![dir(
                "apps",
                vec![dir(
                    "deployments",
                    vec![
                        file("a.yaml", "metadata:\n  name: d1\n"),
                        file("b.yaml", "metadata: [unclosed\n"),
                    ],
                )],
            )],
        )],
    };
    let scope = vec!["scope".to_string()];
    let r = extract_resources(&fs, &scope, "apps", "deployments");
    match r {
        Err(e @ MgError::ParseError { .. }) => {
            assert_eq!(e.path().unwrap().join("/"), "scope/apps/deployments/b.yaml");
            assert_eq!(e.message(), "Expected a well-formed yaml document");
        },
        _ => panic!("expected ParseError"),
    }
}

#[test]
fn test_multi_document_file_is_refused() {
    let fs = FsNode::Dir {
        entries: vec![dir(
            "scope",
            vec![dir(
                "apps",
                vec![dir(
                    "deployments",
                    vec![file("a.yaml", "metadata:\n  name: d1\n---\nmetadata:\n  name: d2\n")],
                )],
            )],
        )],
    };
    let scope = vec!["scope".to_string()];
    let r = extract_resources(&fs, &scope, "apps", "deployments");
    match r {
        Err(e @ MgError::MultiDocumentFile { .. }) => {
            assert_eq!(e.path().unwrap().join("/"), "scope/apps/deployments/a.yaml");
        },
        _ => panic!("expected MultiDocumentFile"),
    }
}

#[test]
fn test_multi_document_list_file_is_refused() {
    let fs = FsNode::Dir {
        entries: vec![dir(
            "scope",
            vec![dir("apps", vec![file("deployments.yaml", "items: []\n---\nitems: []\n")])],
        )],
    };
    let scope = vec!["scope".to_string()];
    let r = extract_resources(&fs, &scope, "apps", "deployments");
    assert!(matches!(r, Err(MgError::MultiDocumentFile { .. })));
}

#[test]
fn test_list_document_without_items_is_refused() {
    let fs = FsNode::Dir {
        entries: vec![dir(
            "scope",
            vec![dir("apps", vec![file("deployments.yaml", "metadata:\n  name: d1\n")])],
        )],
    };
    let scope = vec!["scope".to_string()];
    let r = extract_resources(&fs, &scope, "apps", "deployments");
    match r {
        Err(e @ MgError::UnexpectedShape { .. }) => {
            assert_eq!(e.path().unwrap().join("/"), "scope/apps/deployments.yaml");
            assert_eq!(e.message(), "Does not look like a list type resource");
        },
        _ => panic!("expected UnexpectedShape"),
    }
}

#[test]
fn test_list_document_with_scalar_items_is_refused() {
    let fs = FsNode::Dir {
        entries: vec![dir(
            "scope",
            vec![dir("apps", vec![file("deployments.yaml", "items: 3\n")])],
        )],
    };
    let scope = vec!["scope".to_string()];
    let r = extract_resources(&fs, &scope, "apps", "deployments");
    assert!(matches!(r, Err(MgError::UnexpectedShape { .. })));
}

#[test]
fn test_malformed_list_document() {
    let fs = FsNode::Dir {
        entries: vec![dir(
            "scope",
            vec![dir("apps", vec![file("deployments.yaml", "items: [unclosed\n")])],
        )],
    };
    let scope = vec!["scope".to_string()];
    let r = extract_resources(&fs, &scope, "apps", "deployments");
    assert!(matches!(r, Err(MgError::ParseError { .. })));
}

#[test]
fn test_empty_resource_directory_yields_no_manifests() {
    let fs = FsNode::Dir {
        entries: vec![dir("scope", vec![dir("apps", vec![dir("deployments", vec![])])])],
    };
    let scope = vec!["scope".to_string()];
    let manifests = extract_resources(&fs, &scope, "apps", "deployments").unwrap();
    assert_eq!(manifests.len(), 0);
}

fn scope_with_file(name: &str, content: &str) -> FsNode {
    FsNode::Dir {
        entries: vec![dir("scope", vec![dir("apps", vec![dir("deployments", vec![file(
            name, content,
        )])])])],
    }
}

#[test]
fn test_block_nesting_over_bound_is_refused() {
    // a line opening more block nesting than the guard allows is rejected
    // before it reaches the parser
    let content = format!("{}x\n", "- ".repeat(40));
    let fs = scope_with_file("a.yaml", &content);
    let scope = vec!["scope".to_string()];
    let r = extract_resources(&fs, &scope, "apps", "deployments");
    match r {
        Err(e @ MgError::NestingLimitExceeded { .. }) => {
            assert_eq!(e.path().unwrap().join("/"), "scope/apps/deployments/a.yaml");
            assert_eq!(e.message(), "Exceeds the supported yaml nesting and anchor bounds");
        },
        _ => panic!("expected NestingLimitExceeded"),
    }
}

#[test]
fn test_block_nesting_at_bound_parses() {
    // nesting within the guard is parsed as usual
    let content = format!("{}x\n", "- ".repeat(30));
    let fs = scope_with_file("a.yaml", &content);
    let scope = vec!["scope".to_string()];
    let manifests = extract_resources(&fs, &scope, "apps", "deployments").unwrap();
    assert_eq!(manifests.len(), 1);
    assert_eq!(manifests[0].raw.as_deref(), Some(content.as_str()));
}

#[test]
fn test_nesting_limit_on_list_file() {
    let content = format!("{}x\n", " ".repeat(100));
    let fs = FsNode::Dir {
        entries: vec![dir("scope", vec![dir("apps", vec![file("deployments.yaml", &content)])])],
    };
    let scope = vec!["scope".to_string()];
    let r = extract_resources(&fs, &scope, "apps", "deployments");
    match r {
        Err(e @ MgError::NestingLimitExceeded { .. }) => {
            assert_eq!(e.path().unwrap().join("/"), "scope/apps/deployments.yaml");
        },
        _ => panic!("expected NestingLimitExceeded"),
    }
}

#[test]
fn test_carriage_return_starts_a_guarded_line() {
    // the parser treats a lone carriage return as a line break, so the line
    // it opens is held to the nesting bound like any other
    let content = format!("k: v\r{}x\n", "- ".repeat(40));
    let fs = scope_with_file("a.yaml", &content);
    let scope = vec!["scope".to_string()];
    let r = extract_resources(&fs, &scope, "apps", "deployments");
    assert!(matches!(r, Err(MgError::NestingLimitExceeded { .. })));
}

#[test]
fn test_carriage_return_line_breaks_parse() {
    let content = "a: 1\r\nb: 2\r\nc:\r- x\r- y\r";
    let fs = scope_with_file("a.yaml", content);
    let scope = vec!["scope".to_string()];
    let manifests = extract_resources(&fs, &scope, "apps", "deployments").unwrap();
    assert_eq!(manifests.len(), 1);
    let docs = YamlLoader::load_from_str(content).unwrap();
    assert_eq!(manifests[0].yaml, docs[0]);
}

#[test]
fn test_anchor_count_over_bound_is_refused() {
    let mut content = String::new();
    for k in 0..130 {
        content.push_str(&format!("k{}: &a{} v\n", k, k));
    }
    let fs = scope_with_file("a.yaml", &content);
    let scope = vec!["scope".to_string()];
    let r = extract_resources(&fs, &scope, "apps", "deployments");
    assert!(matches!(r, Err(MgError::NestingLimitExceeded { .. })));
}

#[test]
fn test_shallow_files_may_carry_more_anchors() {
    // a file whose lines open little nesting may carry anchors beyond the
    // deep-tier bound
    let mut content = String::new();
    for k in 0..20 {
        content.push_str(&format!("k{}: &a{} v\n", k, k));
    }
    let fs = scope_with_file("a.yaml", &content);
    let scope = vec!["scope".to_string()];
    let manifests = extract_resources(&fs, &scope, "apps", "deployments").unwrap();
    assert_eq!(manifests.len(), 1);
}

#[test]
fn test_deep_files_keep_the_tight_anchor_bound() {
    // one deeply nesting line puts the file in the deep tier, where the
    // anchor bound is tight
    let mut content = String::new();
    for k in 0..17 {
        content.push_str(&format!("k{}: &a{} v\n", k, k));
    }
    content.push_str(&format!("deep:\n{}x\n", "- ".repeat(20)));
    let fs = scope_with_file("a.yaml", &content);
    let scope = vec!["scope".to_string()];
    let r = extract_resources(&fs, &scope, "apps", "deployments");
    assert!(matches!(r, Err(MgError::NestingLimitExceeded { .. })));
}

#[test]
fn test_anchor_chain_within_bound_parses() {
    // a chain of anchors at the guard bound, each wrapping the previous in
    // further nesting, still parses, clones and drops without trouble
    let mut content = String::from("a0: &a0 v\n");
    for k in 1..16 {
        content.push_str(&format!("a{}: &a{}\n  {}*a{}\n", k, k, "- ".repeat(28), k - 1));
    }
    let fs = scope_with_file("a.yaml", &content);
    let scope = vec!["scope".to_string()];
    let manifests = extract_resources(&fs, &scope, "apps", "deployments").unwrap();
    assert_eq!(manifests.len(), 1);
}

#[test]
fn test_ampersands_in_scalars_are_not_anchors() {
    // `&` inside plain scalar content does not count against the anchor bound
    let mut content = String::from("urls:\n");
    for k in 0..40 {
        content.push_str(&format!("- http://example.com/q?a={}&b={}&c={}\n", k, k, k));
    }
    let fs = scope_with_file("a.yaml", &content);
    let scope = vec!["scope".to_string()];
    let manifests = extract_resources(&fs, &scope, "apps", "deployments").unwrap();
    assert_eq!(manifests.len(), 1);
}

#[test]
fn test_default_kind_plural() {
    assert_eq!(default_kind_plural("machine"), "machines");
    assert_eq!(Machine::get_kind_plural(), "machines");
    assert_eq!(Deployment::get_kind_plural(), "deployments");
}

#[test]
fn test_resources_root_path() {
    let fs = valid_mg_fs();
    let root = MustGatherRoot::new(&fs, &get_valid_mg_path()).unwrap();
    let ns = root.new_namespace("openshift-machine-api".to_string());
    let resources_root = Machine::get_resources_root(&ns);
    assert_eq!(
        resources_root.join("/"),
        "testdata/must-gather-valid/sample-openshift-release/namespaces/openshift-machine-api/machine.openshift.io/machines"
    );
}

#[test]
fn test_resource_scope_classification() {
    assert!(matches!(Machine::get_resource_scope(), K8sResourceScope::Namespaced));
}
