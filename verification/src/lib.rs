//! Verified core of a one-way content-replication protocol.
//!
//! A sender pushes local text files to a remote receiver over an
//! unauthenticated network, protected by a pre-shared 256-bit key.
//! This crate holds the pure, verified logic of that protocol: the
//! message codec, the authenticated-encryption layer, the replay
//! guard, and the per-connection receiver and per-file sender steps.
//! The surrounding process (sockets, files, task scheduling) hands
//! plain values in and takes plain values back.
//!
//! Beside the protocol stand the verified helpers the content
//! pipeline around it uses: the page filters and the post search.
pub mod codec;
pub mod filters;
pub mod crypto;
pub mod replay;
pub mod search;
pub mod sync;
