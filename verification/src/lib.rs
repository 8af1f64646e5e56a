//! Planning and bookkeeping for mirroring a purchased music catalogue into a
//! local directory tree.

pub mod agent;
pub mod archive;
pub mod bandcamp;
pub mod bundle;
pub mod client;
pub mod config;
pub mod download;
pub mod download_laws;
pub mod flow;
pub mod models;
pub mod path;
pub mod pattern;
pub mod plan_laws;
pub mod sync;
pub mod task;
pub mod text;
pub mod transport;
