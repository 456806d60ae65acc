//! A pluggable working-copy backend: one interface through which a
//! version-control front end drives either a filesystem-virtualization
//! daemon or a plain checkout managed by the `git` tool.
//!
//! The executable code of this crate performs no I/O. The external engines
//! are reached through the traits [`git::GitEngine`] and
//! [`eden::DaemonSession`], which promise nothing: what the clients do is
//! proved for every engine.
//!
//! * [`client`]: the interface and the vocabulary of its answers.
//! * [`git`], [`git_status`]: the `git` backend and the decoder of the
//!   tool's status report.
//! * [`eden`]: the daemon backend.
//! * [`backend`]: one type for a client of either kind.
//! * [`hgid`], [`path`], [`status`]: identifiers, repository paths, and
//!   the mapping from path to status.
//! * [`split`], [`text`]: byte strings cut at separators; ASCII text.
//! * [`percent`], [`rawbundle2`], [`sql_ext`], [`hostcaps`]: helpers of
//!   the surrounding system.

pub mod backend;
pub mod client;
pub mod eden;
pub mod git;
pub mod git_status;
pub mod hgid;
pub mod hostcaps;
pub mod path;
pub mod percent;
pub mod rawbundle2;
pub mod split;
pub mod sql_ext;
pub mod status;
pub mod text;
