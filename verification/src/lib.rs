//! Amber Shield scan: a vulnerability and secret heatmap for a source tree.
//!
//! Trivy (dependency/config CVEs) and GitLeaks (secrets) findings are
//! attributed to files, every recognized source file is scored from its
//! branching constructs, its TODO-style markers and its findings, and the
//! worst finding decides whether a CI job fails.

pub mod text;
pub mod paths;
pub mod syntax;
pub mod security;
pub mod severity;
pub mod codemap;
pub mod walk;
pub mod cli;
pub mod sarif;
pub mod report;
