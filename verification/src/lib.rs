//! Verified core of a menu-bar plugin that reports software updates.
//!
//! The library reconciles version readings from several independent sources
//! (the installed application bundle, the running process, a package-manager
//! feed, and a release feed) into a single [`reconcile::Decision`], and it
//! owns the retry/backoff state machine that absorbs rate limiting on the
//! release-feed API ([`retry`]). Versions are semantic versions with the
//! standard precedence order, modeled and compared in [`version`].
//!
//! All I/O — HTTP requests, sleeping, and reading or writing local files —
//! is left to the surrounding program, which feeds plain values in and
//! carries the returned decisions out.

pub mod numeric;
pub mod ident;
pub mod version;
pub mod parse;
pub mod retry;
pub mod reconcile;
pub mod flavor;
pub mod repo;
