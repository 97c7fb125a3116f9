use crate::split::codec::{parse_directs, serialize_directs, spec_parse_directs, spec_render_directs};
use crate::split::config::Config;
use crate::split::directs::{
    chunk_key_set, claim_directs, claim_fold, direct_ids, filter_directs, ClaimModel,
};
use crate::split::model::{direct_views, Chunk, Direct, DirectModel, SplitError};
use crate::split::partition::{partition_rel, split_to_chunks};
use crate::split::paths::{
    archive_file_name, basename, basename_str, output_name, spec_archive_name, spec_output_name,
    str_eq,
};
use crate::split::scan::{
    group_views, lemma_shared_find_at, pairs_view, scan_fold, scan_put, shared_find, Group,
    ScanModel,
};
use vstd::prelude::*;
use vstd::string::*;

verus! {

/// Which output stream a chunk belongs to.
#[derive(Clone, Copy)]
pub enum Stream {
    Channels,
    Directs,
}

/// The shared entries a stream copies into each of its chunks: the
/// channel stream takes every global directory but the DM one, the
/// directs stream only the user directory (it writes its own DM list).
pub open spec fn stream_keeps(s: Stream, name: Seq<char>) -> bool {
    match s {
        Stream::Channels => name == "users.json"@ || name == "channels.json"@ || name
            == "groups.json"@ || name == "mpims.json"@,
        Stream::Directs => name == "users.json"@,
    }
}

pub open spec fn spec_filter_shared(shared: Seq<(Seq<char>, int)>, s: Stream) -> Seq<
    (Seq<char>, int),
> {
    shared.filter(|p: (Seq<char>, int)| stream_keeps(s, basename(p.0)))
}

/// Whether this stream copies the shared entry at `path`.
fn stream_keeps_check(stream: Stream, path: &str) -> (r: bool)
    ensures
        r == stream_keeps(stream, basename(path@)),
{
    let base = basename_str(path);
    match stream {
        Stream::Channels => str_eq(base, "users.json") || str_eq(base, "channels.json") || str_eq(
            base,
            "groups.json",
        ) || str_eq(base, "mpims.json"),
        Stream::Directs => str_eq(base, "users.json"),
    }
}

/// The shared entries this stream copies, in index order.
pub fn filter_shared(shared: &Vec<(String, usize)>, stream: Stream) -> (r: Vec<(String, usize)>)
    ensures
        pairs_view(r@) == spec_filter_shared(pairs_view(shared@), stream),
{
    let ghost pred = |p: (Seq<char>, int)| stream_keeps(stream, basename(p.0));
    let mut out: Vec<(String, usize)> = Vec::new();
    let mut i: usize = 0;
    while i < shared.len()
        invariant
            i <= shared@.len(),
            pairs_view(out@) == pairs_view(shared@.take(i as int)).filter(pred),
            pred == (|p: (Seq<char>, int)| stream_keeps(stream, basename(p.0))),
        decreases shared@.len() - i,
    {
        let ghost pre = pairs_view(out@);
        if stream_keeps_check(stream, shared[i].0.as_str()) {
            let path = shared[i].0.clone();
            let idx = shared[i].1;
            out.push((path, idx));
            proof {
                assert(pairs_view(out@) =~= pre.push(pairs_view(shared@)[i as int]));
            }
        }
        proof {
            let s = pairs_view(shared@.take(i as int));
            let p = pairs_view(shared@)[i as int];
            assert(pairs_view(shared@.take(i as int + 1)) =~= s.push(p));
            pair_filter_push(s, p, pred);
        }
        i += 1;
    }
    proof {
        assert(shared@.take(shared@.len() as int) =~= shared@);
        assert(pairs_view(shared@) =~= pairs_view(shared@.take(shared@.len() as int)));
    }
    out
}

/// Filtering a sequence extended by one element keeps the filtered prefix
/// and appends the element exactly when it satisfies the predicate.
proof fn pair_filter_push(
    s: Seq<(Seq<char>, int)>,
    p: (Seq<char>, int),
    pred: spec_fn((Seq<char>, int)) -> bool,
)
    ensures
        s.push(p).filter(pred) == if pred(p) {
            s.filter(pred).push(p)
        } else {
            s.filter(pred)
        },
{
    reveal(Seq::filter);
    assert(s.push(p).drop_last() =~= s);
}

/// The write plan of one output chunk. The caller writes, in this order:
/// the `shared` entries, then every member entry of the chunk's groups
/// (each through the rewrite), then the `extra_entries`, then whatever
/// download artifacts the rewrite's work list produced.
pub struct ExportJob {
    pub output_name: String,
    pub shared: Vec<(String, usize)>,
    pub extra_entries: Vec<(String, Vec<u8>)>,
}

/// The split pipeline's verified state: the index the scan builds, the
/// direct-message records, and the chunk assignment of both streams.
/// Everything that touches the source container, the network or the file
/// system lives with the caller, which feeds entry names and entry bytes
/// in and carries export plans out.
pub struct Splitter {
    pub config: Config,
    pub shared_files_idx: Vec<(String, usize)>,
    pub chunked_files_idx: Vec<Chunk>,
    pub grouped_files_idx: Vec<Group>,
    pub directs: Vec<Direct>,
    pub direct_files_idx: Vec<Group>,
    pub chunked_directs_idx: Vec<Chunk>,
}

impl Splitter {
    /// The scan's index, as the fold model speaks of it.
    pub open spec fn scan_model(&self) -> ScanModel {
        ScanModel {
            shared: pairs_view(self.shared_files_idx@),
            groups: group_views(self.grouped_files_idx@),
        }
    }

    pub fn new(config: Config) -> (r: Self)
        ensures
            r.config == config,
            r.shared_files_idx@.len() == 0,
            r.chunked_files_idx@.len() == 0,
            r.grouped_files_idx@.len() == 0,
            r.directs@.len() == 0,
            r.direct_files_idx@.len() == 0,
            r.chunked_directs_idx@.len() == 0,
    {
        Splitter {
            config,
            shared_files_idx: Vec::new(),
            chunked_files_idx: Vec::new(),
            grouped_files_idx: Vec::new(),
            directs: Vec::new(),
            direct_files_idx: Vec::new(),
            chunked_directs_idx: Vec::new(),
        }
    }

    /// Build the index from the container's entry list: `entries` holds
    /// each entry's path and its ordinal, in archive order.
    pub fn scan_files(&mut self, entries: &Vec<(String, usize)>)
        requires
            old(self).shared_files_idx@.len() == 0,
            old(self).grouped_files_idx@.len() == 0,
        ensures
            final(self).scan_model() == scan_fold(pairs_view(entries@)),
            final(self).config == old(self).config,
            final(self).chunked_files_idx == old(self).chunked_files_idx,
            final(self).directs == old(self).directs,
            final(self).direct_files_idx == old(self).direct_files_idx,
            final(self).chunked_directs_idx == old(self).chunked_directs_idx,
    {
        let ghost ev = pairs_view(entries@);
        let mut i: usize = 0;
        while i < entries.len()
            invariant
                ev == pairs_view(entries@),
                i <= entries@.len(),
                pairs_view(self.shared_files_idx@) == scan_fold(ev.take(i as int)).shared,
                group_views(self.grouped_files_idx@) == scan_fold(ev.take(i as int)).groups,
                self.config == old(self).config,
                self.chunked_files_idx == old(self).chunked_files_idx,
                self.directs == old(self).directs,
                self.direct_files_idx == old(self).direct_files_idx,
                self.chunked_directs_idx == old(self).chunked_directs_idx,
            decreases entries@.len() - i,
        {
            let path = entries[i].0.clone();
            let idx = entries[i].1;
            scan_put(&mut self.shared_files_idx, &mut self.grouped_files_idx, path, idx);
            proof {
                assert(ev.take(i as int + 1).drop_last() =~= ev.take(i as int));
                assert(ev.take(i as int + 1).last() == ev[i as int]);
            }
            i += 1;
        }
        proof {
            assert(ev.take(entries@.len() as int) =~= ev);
        }
    }

    /// The archive ordinal of the DM directory entry, or the fatal error
    /// when the scan found none.
    pub fn dms_index(&self) -> (r: Result<usize, SplitError>)
        ensures
            ({
                let sh = self.scan_model().shared;
                let k = shared_find(sh, "dms.json"@);
                match r {
                    Ok(idx) => k < sh.len() && idx as int == sh[k].1,
                    Err(e) => e == SplitError::MissingDms && k == sh.len(),
                }
            }),
    {
        let ghost sh = pairs_view(self.shared_files_idx@);
        let mut k: usize = 0;
        while k < self.shared_files_idx.len()
            invariant
                sh == pairs_view(self.shared_files_idx@),
                k <= self.shared_files_idx@.len(),
                forall|j: int| 0 <= j < k ==> basename((#[trigger] sh[j]).0) != "dms.json"@,
            decreases self.shared_files_idx@.len() - k,
        {
            if str_eq(basename_str(self.shared_files_idx[k].0.as_str()), "dms.json") {
                proof {
                    lemma_shared_find_at(sh, "dms.json"@, k as int);
                }
                return Ok(self.shared_files_idx[k].1);
            }
            k += 1;
        }
        proof {
            lemma_shared_find_at(sh, "dms.json"@, sh.len() as int);
        }
        Err(SplitError::MissingDms)
    }

    /// Parse the DM directory entry's bytes — the stored records are
    /// exactly what the bytes read as — and claim each direct
    /// conversation's group out of the general grouping. Returns the DM
    /// ids that had no group, for reporting; fails, changing nothing,
    /// exactly when the bytes do not read as DM records.
    pub fn fetch_directs(&mut self, dms_bytes: &[u8]) -> (r: Result<Vec<String>, SplitError>)
        ensures
            final(self).config == old(self).config,
            final(self).shared_files_idx == old(self).shared_files_idx,
            final(self).chunked_files_idx == old(self).chunked_files_idx,
            final(self).chunked_directs_idx == old(self).chunked_directs_idx,
            match r {
                Ok(missing) => ({
                    let m = claim_fold(
                        ClaimModel {
                            remaining: group_views(old(self).grouped_files_idx@),
                            claimed: group_views(old(self).direct_files_idx@),
                            missing: Seq::empty(),
                        },
                        direct_ids(final(self).directs@),
                    );
                    &&& spec_parse_directs(dms_bytes@) == Some(
                        direct_views(final(self).directs@),
                    )
                    &&& group_views(final(self).grouped_files_idx@) == m.remaining
                    &&& group_views(final(self).direct_files_idx@) == m.claimed
                    &&& missing@.map_values(|s: String| s@) == m.missing
                }),
                Err(e) => {
                    &&& e == SplitError::MalformedDms
                    &&& spec_parse_directs(dms_bytes@) is None
                    &&& final(self).directs == old(self).directs
                    &&& final(self).grouped_files_idx == old(self).grouped_files_idx
                    &&& final(self).direct_files_idx == old(self).direct_files_idx
                },
            },
    {
        match parse_directs(dms_bytes) {
            None => Err(SplitError::MalformedDms),
            Some(ds) => {
                self.directs = ds;
                let missing = claim_directs(
                    &self.directs,
                    &mut self.grouped_files_idx,
                    &mut self.direct_files_idx,
                );
                Ok(missing)
            },
        }
    }

    /// Assign the direct conversations to chunks, in grouping order.
    pub fn split_directs_to_chunks(&mut self)
        ensures
            partition_rel(
                group_views(old(self).direct_files_idx@),
                final(self).chunked_directs_idx@,
                old(self).config.num_chunks as int,
            ),
            final(self).config == old(self).config,
            final(self).shared_files_idx == old(self).shared_files_idx,
            final(self).chunked_files_idx == old(self).chunked_files_idx,
            final(self).grouped_files_idx == old(self).grouped_files_idx,
            final(self).directs == old(self).directs,
            final(self).direct_files_idx == old(self).direct_files_idx,
    {
        self.chunked_directs_idx = split_to_chunks(&self.direct_files_idx, self.config.num_chunks);
    }

    /// Assign the channel conversations to chunks, in grouping order.
    pub fn split_files_to_chunks(&mut self)
        ensures
            partition_rel(
                group_views(old(self).grouped_files_idx@),
                final(self).chunked_files_idx@,
                old(self).config.num_chunks as int,
            ),
            final(self).config == old(self).config,
            final(self).shared_files_idx == old(self).shared_files_idx,
            final(self).grouped_files_idx == old(self).grouped_files_idx,
            final(self).directs == old(self).directs,
            final(self).direct_files_idx == old(self).direct_files_idx,
            final(self).chunked_directs_idx == old(self).chunked_directs_idx,
    {
        self.chunked_files_idx = split_to_chunks(&self.grouped_files_idx, self.config.num_chunks);
    }

    /// One export job per channels chunk: named
    /// `channels_{ordinal}_{archive}`, with the channel stream's shared
    /// entries and nothing synthetic.
    pub fn plan_channels_exports(&self) -> (r: Vec<ExportJob>)
        ensures
            r@.len() == self.chunked_files_idx@.len(),
            forall|i: int|
                0 <= i < r@.len() ==> {
                    let job = #[trigger] r@[i];
                    &&& job.output_name@ == spec_output_name(
                        "channels"@,
                        i,
                        spec_archive_name(self.config.slack_archive@, "channels.zip"@),
                    )
                    &&& pairs_view(job.shared@) == spec_filter_shared(
                        self.scan_model().shared,
                        Stream::Channels,
                    )
                    &&& job.extra_entries@.len() == 0
                },
    {
        let archive = archive_file_name(self.config.slack_archive.as_str(), "channels.zip");
        let mut jobs: Vec<ExportJob> = Vec::new();
        let mut i: usize = 0;
        while i < self.chunked_files_idx.len()
            invariant
                i <= self.chunked_files_idx@.len(),
                jobs@.len() == i,
                archive@ == spec_archive_name(self.config.slack_archive@, "channels.zip"@),
                forall|j: int|
                    0 <= j < i ==> {
                        let job = #[trigger] jobs@[j];
                        &&& job.output_name@ == spec_output_name(
                            "channels"@,
                            j,
                            spec_archive_name(self.config.slack_archive@, "channels.zip"@),
                        )
                        &&& pairs_view(job.shared@) == spec_filter_shared(
                            self.scan_model().shared,
                            Stream::Channels,
                        )
                        &&& job.extra_entries@.len() == 0
                    },
            decreases self.chunked_files_idx@.len() - i,
        {
            let name = output_name("channels", i, archive.as_str());
            let shared = filter_shared(&self.shared_files_idx, Stream::Channels);
            jobs.push(ExportJob { output_name: name, shared, extra_entries: Vec::new() });
            i += 1;
        }
        jobs
    }

    /// One export job per directs chunk: named
    /// `directs_{ordinal}_{archive}`, with the user directory as its one
    /// shared entry and, as its one synthetic entry, a fresh DM directory
    /// rendered from exactly the stored records whose conversation the
    /// chunk carries, in their stored order. Planning never fails: the
    /// error arm guards only the rendering, which cannot fail.
    pub fn plan_directs_exports(&self) -> (r: Result<Vec<ExportJob>, SplitError>)
        ensures
            r is Ok,
            match r {
                Ok(jobs) => jobs@.len() == self.chunked_directs_idx@.len() && forall|i: int|
                    0 <= i < jobs@.len() ==> {
                        let job = #[trigger] jobs@[i];
                        &&& job.output_name@ == spec_output_name(
                            "directs"@,
                            i,
                            spec_archive_name(self.config.slack_archive@, "directs.zip"@),
                        )
                        &&& pairs_view(job.shared@) == spec_filter_shared(
                            self.scan_model().shared,
                            Stream::Directs,
                        )
                        &&& job.extra_entries@.len() == 1
                        &&& job.extra_entries@[0].0@ == "dms.json"@
                        &&& job.extra_entries@[0].1@ == spec_render_directs(
                            direct_views(self.directs@).filter(
                                |d: DirectModel|
                                    chunk_key_set(self.chunked_directs_idx@[i]).contains(d.id),
                            ),
                        )
                    },
                Err(e) => e == SplitError::SerializeFailed,
            },
    {
        let archive = archive_file_name(self.config.slack_archive.as_str(), "directs.zip");
        let mut jobs: Vec<ExportJob> = Vec::new();
        let mut i: usize = 0;
        while i < self.chunked_directs_idx.len()
            invariant
                i <= self.chunked_directs_idx@.len(),
                jobs@.len() == i,
                archive@ == spec_archive_name(self.config.slack_archive@, "directs.zip"@),
                forall|j: int|
                    0 <= j < i ==> {
                        let job = #[trigger] jobs@[j];
                        &&& job.output_name@ == spec_output_name(
                            "directs"@,
                            j,
                            spec_archive_name(self.config.slack_archive@, "directs.zip"@),
                        )
                        &&& pairs_view(job.shared@) == spec_filter_shared(
                            self.scan_model().shared,
                            Stream::Directs,
                        )
                        &&& job.extra_entries@.len() == 1
                        &&& job.extra_entries@[0].0@ == "dms.json"@
                        &&& job.extra_entries@[0].1@ == spec_render_directs(
                            direct_views(self.directs@).filter(
                                |d: DirectModel|
                                    chunk_key_set(self.chunked_directs_idx@[j]).contains(d.id),
                            ),
                        )
                    },
            decreases self.chunked_directs_idx@.len() - i,
        {
            let name = output_name("directs", i, archive.as_str());
            let shared = filter_shared(&self.shared_files_idx, Stream::Directs);
            let chunk_directs = filter_directs(&self.directs, &self.chunked_directs_idx[i]);
            let bytes = match serialize_directs(&chunk_directs) {
                Some(bytes) => bytes,
                None => {
                    return Err(SplitError::SerializeFailed);
                },
            };
            let mut extra_entries: Vec<(String, Vec<u8>)> = Vec::new();
            extra_entries.push((String::from_str("dms.json"), bytes));
            jobs.push(ExportJob { output_name: name, shared, extra_entries });
            i += 1;
        }
        Ok(jobs)
    }
}

} // verus!
