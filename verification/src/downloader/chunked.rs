use crate::split::model::download_views;
use vstd::prelude::*;
use vstd::string::*;

verus! {

/// One attachment fetch: a source URL, the archive-relative destination
/// path, and the body once it has been fetched.
///
/// An empty `url` designates a placeholder artifact: it is never fetched
/// and its body stays empty.
#[derive(Debug, Clone)]
pub struct Download {
    pub url: String,
    pub out: String,
    pub data: Vec<u8>,
}

/// What one fetch attempt came back with, after retries were exhausted.
pub enum FetchOutcome {
    Fetched(Vec<u8>),
    Failed,
}

/// The mathematical shape of a `Download`.
pub ghost struct DownloadModel {
    pub url: Seq<char>,
    pub out: Seq<char>,
    pub data: Seq<u8>,
}

impl View for Download {
    type V = DownloadModel;

    open spec fn view(&self) -> DownloadModel {
        DownloadModel { url: self.url@, out: self.out@, data: self.data@ }
    }
}

pub struct DownloaderClient<'a> {
    pub downloads: &'a [Download],
}

impl<'a> DownloaderClient<'a> {
    pub fn new(downloads: &'a [Download]) -> (r: Self)
        ensures
            r.downloads == downloads,
    {
        Self { downloads }
    }
}

/// Whether this download is actually requested: an empty URL designates a
/// placeholder artifact and is never fetched.
pub fn needs_fetch(d: &Download) -> (r: bool)
    ensures
        r == (d.url@.len() > 0),
{
    !d.url.as_str().is_empty()
}

/// How a settled download relates to what it was and what its fetch
/// attempt returned: a fetched body replaces the data, a failure leaves
/// the download as it was — and never aborts anything around it.
pub open spec fn settled(d: DownloadModel, outcome: FetchOutcome, r: DownloadModel) -> bool {
    r.url == d.url && r.out == d.out && match outcome {
        FetchOutcome::Fetched(body) => r.data == body@,
        FetchOutcome::Failed => r.data == d.data,
    }
}

fn copy_bytes(bytes: &Vec<u8>) -> (r: Vec<u8>)
    ensures
        r@ == bytes@,
{
    let mut out: Vec<u8> = Vec::new();
    let mut i: usize = 0;
    while i < bytes.len()
        invariant
            i <= bytes@.len(),
            out@ == bytes@.take(i as int),
        decreases bytes@.len() - i,
    {
        out.push(bytes[i]);
        proof {
            assert(out@ =~= bytes@.take(i as int + 1));
        }
        i += 1;
    }
    proof {
        assert(bytes@.take(bytes@.len() as int) =~= bytes@);
    }
    out
}

/// One download after its fetch attempt settled.
pub fn settle(d: &Download, outcome: FetchOutcome) -> (r: Download)
    ensures
        settled(d@, outcome, r@),
{
    match outcome {
        FetchOutcome::Fetched(body) => Download {
            url: d.url.clone(),
            out: d.out.clone(),
            data: body,
        },
        FetchOutcome::Failed => Download {
            url: d.url.clone(),
            out: d.out.clone(),
            data: copy_bytes(&d.data),
        },
    }
}

/// Settle a whole work list against its outcomes, pairwise. The list
/// order is kept: in which order the fetches completed does not matter.
pub fn collect_results(downloads: &Vec<Download>, outcomes: Vec<FetchOutcome>) -> (r: Vec<
    Download,
>)
    requires
        downloads@.len() == outcomes@.len(),
    ensures
        r@.len() == downloads@.len(),
        forall|i: int|
            0 <= i < r@.len() ==> settled(downloads@[i]@, outcomes@[i], (#[trigger] r@[i])@),
{
    let ghost all_outcomes = outcomes@;
    let mut outcomes = outcomes;
    let mut results: Vec<Download> = Vec::new();
    let mut i: usize = 0;
    while i < downloads.len()
        invariant
            i <= downloads@.len(),
            downloads@.len() == all_outcomes.len(),
            outcomes@ == all_outcomes.skip(i as int),
            results@.len() == i,
            forall|j: int|
                0 <= j < i ==> settled(
                    downloads@[j]@,
                    all_outcomes[j],
                    (#[trigger] results@[j])@,
                ),
        decreases downloads@.len() - i,
    {
        let outcome = outcomes.remove(0);
        proof {
            assert(outcome == all_outcomes[i as int]);
            assert(outcomes@ =~= all_outcomes.skip(i as int + 1));
        }
        let r = settle(&downloads[i], outcome);
        results.push(r);
        i += 1;
    }
    results
}

/// The artifact views of a (name, bytes) list.
pub open spec fn artifact_views(artifacts: Seq<(String, Vec<u8>)>) -> Seq<(Seq<char>, Seq<u8>)> {
    artifacts.map_values(|p: (String, Vec<u8>)| (p.0@, p.1@))
}

/// The artifacts a settled work list stages for the assembler: every
/// fetched body under its destination path, a zero-length artifact for
/// every placeholder, and nothing for a failed fetch.
pub open spec fn spec_artifacts(ds: Seq<DownloadModel>, outcomes: Seq<FetchOutcome>) -> Seq<
    (Seq<char>, Seq<u8>),
>
    decreases ds.len(),
{
    if ds.len() == 0 {
        Seq::empty()
    } else {
        spec_artifacts(ds.drop_last(), outcomes.drop_last()) + ({
            let d = ds.last();
            match outcomes.last() {
                FetchOutcome::Fetched(body) => seq![(d.out, body@)],
                FetchOutcome::Failed => if d.url.len() == 0 {
                    seq![(d.out, Seq::<u8>::empty())]
                } else {
                    Seq::empty()
                },
            }
        })
    }
}

/// Stage the artifacts of a settled work list: one entry per fetched
/// body, a zero-length entry per placeholder, none for a failed fetch —
/// a single failure costs its own artifact and nothing else.
pub fn staged_artifacts(downloads: &Vec<Download>, outcomes: Vec<FetchOutcome>) -> (r: Vec<
    (String, Vec<u8>),
>)
    requires
        downloads@.len() == outcomes@.len(),
    ensures
        artifact_views(r@) == spec_artifacts(download_views(downloads@), outcomes@),
{
    let ghost dv = download_views(downloads@);
    let ghost all_outcomes = outcomes@;
    let mut outcomes = outcomes;
    let mut artifacts: Vec<(String, Vec<u8>)> = Vec::new();
    let mut i: usize = 0;
    while i < downloads.len()
        invariant
            i <= downloads@.len(),
            dv == download_views(downloads@),
            downloads@.len() == all_outcomes.len(),
            outcomes@ == all_outcomes.skip(i as int),
            artifact_views(artifacts@) == spec_artifacts(dv.take(i as int), all_outcomes.take(i as int)),
        decreases downloads@.len() - i,
    {
        let ghost pre = artifact_views(artifacts@);
        let outcome = outcomes.remove(0);
        proof {
            assert(outcome == all_outcomes[i as int]);
            assert(outcomes@ =~= all_outcomes.skip(i as int + 1));
        }
        let d = &downloads[i];
        match outcome {
            FetchOutcome::Fetched(body) => {
                artifacts.push((d.out.clone(), body));
                proof {
                    assert(artifact_views(artifacts@) =~= pre.push((dv[i as int].out, body@)));
                }
            },
            FetchOutcome::Failed => {
                if !needs_fetch(d) {
                    artifacts.push((d.out.clone(), Vec::new()));
                    proof {
                        assert(artifact_views(artifacts@) =~= pre.push((dv[i as int].out, Seq::<u8>::empty())));
                    }
                }
            },
        }
        proof {
            assert(dv.take(i as int + 1).drop_last() =~= dv.take(i as int));
            assert(all_outcomes.take(i as int + 1).drop_last() =~= all_outcomes.take(i as int));
            assert(dv.take(i as int + 1).last() == dv[i as int]);
            assert(all_outcomes.take(i as int + 1).last() == all_outcomes[i as int]);
        }
        i += 1;
    }
    proof {
        assert(dv.take(downloads@.len() as int) =~= dv);
        assert(all_outcomes.take(downloads@.len() as int) =~= all_outcomes);
    }
    artifacts
}

} // verus!
