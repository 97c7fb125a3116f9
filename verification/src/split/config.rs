use vstd::prelude::*;

verus! {

/// Resolved settings for one transform run.
///
/// `num_chunks` controls how many output archives each stream is split
/// into; `concurrent` bounds how many downloads run at once.  The three
/// `skip_*` switches suppress the download phase, the direct-message
/// stream and the channel stream independently.
pub struct Config {
    pub slack_archive: String,
    pub output: String,
    pub chunk_size: usize,
    pub num_chunks: usize,
    pub concurrent: usize,

    pub skip_downloading: bool,
    pub skip_directs: bool,
    pub skip_channels: bool,
}

} // verus!
