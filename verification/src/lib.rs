//! Reconciliation logic for Kubernetes object graphs: the managed-field merge,
//! the diff plan, rendering of configuration images into workloads, and the
//! rules of the apply step, each stated as a contract and proved.
pub mod apply_diff;
pub mod assoc;
pub mod codec;
pub mod comparable;
pub mod config_image;
pub mod diff;
pub mod ingest;
pub mod json;
pub mod key;
pub mod keymap;
pub mod kubernetes_objects;
pub mod kubernetes_rendering;
pub mod merge;
pub mod merge_laws;
pub mod orchestrate;
pub mod registry_clients;
pub mod resources;
pub mod run_config;
pub mod run_image;
pub mod secrets;
pub mod sisyphus_yaml;
pub mod sql_types;
pub mod text;
pub mod views;
