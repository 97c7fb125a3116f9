//! Splits a Slack export archive into balanced chunk archives: the
//! container's entries are indexed and grouped by conversation, the
//! groups are partitioned into chunks, every post record is rewritten so
//! that externally hosted attachments are flagged and queued for
//! download, and each chunk is re-assembled with the shared directories,
//! the rewritten conversations and the fetched attachment bodies.
//!
//! The library holds the verified logic and works on plain values: entry
//! names, entry bytes, download outcomes. Opening the container, the
//! HTTP fetches and the file system belong to the embedding program,
//! which drives the pipeline and carries its plans out.

pub mod downloader;
pub mod split;
