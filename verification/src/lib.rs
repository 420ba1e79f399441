//! Persistent-record layer for a small multi-tenant content application.
//!
//! The library manages the lifecycle of user-authored posts (create, edit,
//! status change, delete, paginated and filtered query), an owner's private
//! wallet records, and the snapshot mechanism that lets the in-memory record
//! set survive a process restart.  Every operation is specified by a contract
//! over a mathematical view of the record store.

pub mod context;
pub mod error;
pub mod portfolio;
pub mod post;
mod principal;
pub mod store;
pub mod text;
