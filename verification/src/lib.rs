//! Chunking and reporting core of a log inspector.
//!
//! A log file of any size is cut into an ordered sequence of bounded byte
//! ranges that together cover the file exactly once. Each range is analysed on
//! its own by a remote text service; the per-range outcomes are collected in
//! range order and rendered into one report. Everything in this crate is pure:
//! reading files, talking to the service and measuring time are left to the
//! caller, who hands in plain values and gets plain values back.
//!
//! - [`chunk_strategy`]: how large a chunk should be, and where it should end.
//! - [`log_reader`]: the chunks of a file's content.
//! - [`analysis`]: which request is due next, and the outcomes in chunk order.
//! - [`error_types`], [`summary`]: reading the service's answers.
//! - [`report`]: the report of a run.
//! - [`config`], [`chat`]: the service's settings and the shape of a request.
//! - [`byte_search`], [`text`]: searching bytes, trimming and splitting text.

pub mod analysis;
pub mod byte_search;
pub mod chat;
pub mod chunk_strategy;
pub mod config;
pub mod error_types;
pub mod log_reader;
pub mod report;
pub mod summary;
pub mod text;
