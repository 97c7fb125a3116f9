pub mod codec;
pub mod config;
pub mod directs;
pub mod json;
pub mod laws;
pub mod model;
pub mod partition;
pub mod paths;
pub mod rewrite;
pub mod scan;
pub mod splitter;
pub mod urls;

pub use config::Config;
pub use splitter::Splitter;
