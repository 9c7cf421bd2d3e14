//! Verified core of a fingerprint-chromium kernel manager: kernel versions,
//! fingerprint profiles and their command lines, the kernel store's list
//! operations and the pool of browser instances.

pub mod text;
pub mod version;
pub mod stamp;
pub mod search;
pub mod config;
pub mod chromium;
pub mod store;
pub mod pool;
pub mod manager;
pub mod presets;
