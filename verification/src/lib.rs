//! Verified core of a continuous-integration grading relay.
//!
//! A push notification from the version-control server triggers one grading
//! job per configured step; each job travels to a worker pool over a message
//! broker and its structured result comes back, is rendered as a Markdown
//! report and posted as a commit status.  This crate holds the logic of that
//! relay — path validation for served artifacts, the opaque correlation
//! codec, job dispatch, the two-phase acknowledgment rule and report
//! rendering — with machine-checked contracts.  The surrounding I/O (HTTP,
//! broker, files) lives outside the library.

pub mod decimal;
pub mod pathguard;
pub mod codec;
pub mod config;
pub mod dispatch;
pub mod relay;
pub mod report;
pub mod respond;
pub mod web;
