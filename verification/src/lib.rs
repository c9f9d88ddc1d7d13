//! A verified core for a deferred-delete drop folder (the "Blackhole").
//!
//! The library holds the decision logic of the folder lifecycle protocol:
//! resolving the folder path, admitting new items without name collisions or
//! self-nesting, and planning the purge that stages the folder's contents and
//! hands them to the OS trash. The host process performs the filesystem and
//! shell work and feeds the observed outcomes back into these functions.

pub mod admission;
pub mod decor;
pub mod digits;
pub mod errors;
pub mod host;
pub mod logs;
pub mod manager;
pub mod model;
pub mod ops;
pub mod paths;
pub mod platform;
pub mod purge;
pub mod settings;
pub mod show;
