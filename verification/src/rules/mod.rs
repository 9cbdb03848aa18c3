//! The rules a policy can hold. Each judges one repository from what was fetched for it.

pub mod ensure_file;
pub mod file_absent;
pub mod file_matches;
pub mod repo_settings;
pub mod branch_protection;
pub mod ensure_autolink;
pub mod ensure_yaml_key;
pub mod key_path;
