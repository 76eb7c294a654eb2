//! Core logic of a Git-over-SSH repository manager: names and keys, access
//! control, the restricted shell, the client's commands, and the repository
//! browser.

pub mod text;
pub mod validate;
pub mod acl;
pub mod shell;
pub mod keys;
pub mod client;
pub mod protocol;
pub mod browser;
pub mod navigator;
pub mod highlight;
