//! Core of a small desktop configuration shell: an INI-style reader and a
//! structure-preserving writer for a single directory setting, together with
//! the extractors (authorization info, announcement, sync log) that feed the
//! user interface.

pub mod advert;
pub mod announce;
pub mod auth;
pub mod ini;
pub mod laws;
pub mod paths;
pub mod settings;
pub mod synclog;
pub mod text;
