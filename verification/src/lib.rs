//! Verified core of a small control-plane bridge for a media player.
//!
//! The crate translates a fixed set of user-facing commands into the
//! newline-delimited JSON requests the player's control socket expects,
//! parses the player's one-line JSON responses, navigates between the
//! files of a directory in lexicographic order, and maintains a cached
//! view of the player's paused flag and volume level.  All I/O — the
//! HTTP boundary, the socket round trip, the directory listing — lives
//! in the surrounding program; this crate holds the logic and its proofs.

pub mod command;
pub mod navigator;
pub mod request;
pub mod response;
pub mod state;
pub mod text;
