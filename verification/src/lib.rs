//! Locating and extracting resource records from a must-gather bundle:
//! a directory tree that a cluster-diagnostics tool dumps on disk.
//!
//! The bundle is handled as an in-memory directory tree ([`fs_tree::FsNode`]);
//! the caller reads the on-disk tree into that form. On top of it sit the
//! bundle-root locator and scope paths ([`mustgather`]) and the resource
//! extractor ([`k8s_resources`]), which parses the structured document files
//! through `yaml_rust`.

pub mod errors;
pub mod fs_tree;
pub mod k8s_resources;
pub mod kinds;
pub mod mustgather;
pub mod yaml_doc;
