//! Local GitHub configuration files: their kinds, the YAML line reader,
//! Dependabot, Renovate, issue forms, workflows and CODEOWNERS, and the
//! parse outcome of one file from its bytes.

pub mod codeowners;
pub mod documents;
pub mod yaml;
pub mod dependabot;
pub mod issue_form;
pub mod workflow;
pub mod owners_file;
pub mod renovate;
pub mod source;
