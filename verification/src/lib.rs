//! Plugin discovery, identity resolution and load sessions for a removable
//! boot profile with a shared cache of already extracted plugins.

pub mod cache_index;
pub mod catalog;
pub mod extension;
pub mod loader;
pub mod localboost;
pub mod metadata;
pub mod number;
pub mod options;
pub mod profile;
pub mod text;
pub mod tools;
