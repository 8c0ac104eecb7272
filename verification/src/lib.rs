//! A local-exceptions overlay for routing-security payload streams.
//!
//! The library augments a stream of routing-security payload updates with
//! operator-supplied local policy loaded from on-disk exception files.
//! Each file declares filters that suppress matching payload entries and
//! assertions that unconditionally inject additional entries. An
//! [`set::ExceptionSet`] applies the current policy of every configured
//! file to each incoming update, while a background poller re-reads the
//! files periodically and publishes new content without blocking readers.

pub mod payload;
pub mod rules;
mod slurm;
pub mod content;
mod slot;
pub mod set;
pub mod unit;
