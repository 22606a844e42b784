//! Download orchestration and assembly engine.
//!
//! The library manages background acquisition of large, multi-part assets:
//! scheduling parallel transfers, deduplicating shared pieces across items,
//! supporting pause / resume / cancel, and assembling completed pieces into
//! final artifacts.  All shared state (item registry, chunk reference counts,
//! digest status) lives in a single [`manager::DownloadManager`], the one
//! logical consumer of an ordered event mailbox.  Workers and the UI talk to
//! it exclusively through [`manager::DownloadMsg`] events; every handler
//! returns the list of [`manager::Action`]s the surrounding process must
//! perform (spawn a fetch, delete a temp file, assemble a file, notify).
//!
//! Network and file system work stays outside: the caller runs the mailbox
//! loop, performs the actions, and feeds the resulting events back in.

pub mod seqs;
pub mod table;
pub mod worker;
pub mod assembler;
pub mod manager;
pub mod chunks;
pub mod intake;
pub mod docker;
pub mod progress;
pub mod mailbox;
