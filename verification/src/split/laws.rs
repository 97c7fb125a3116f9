use crate::downloader::chunked::DownloadModel;
use crate::split::directs::{chunk_key_set, claim_fold, ClaimModel};
use crate::split::model::{
    all_tasks, eligible, post_tasks, rewritten, rewritten_all, spec_tasks, FileModel, PostModel,
    Chunk,
};
use crate::split::partition::{effective_chunks, item_matches, partition_rel, spec_ceil_div};
use crate::split::scan::{
    group_find, group_insert, lemma_group_find_bounds, scan_fold, scan_step, GroupModel,
};
use vstd::arithmetic::div_mod::{
    lemma_fundamental_div_mod, lemma_mod_bound, lemma_multiply_divide_lt,
};
use vstd::arithmetic::mul::{
    lemma_mul_inequality, lemma_mul_is_commutative, lemma_mul_is_distributive_add_other_way,
};
use vstd::prelude::*;

verus! {

/// The conversation identifiers of a grouping, in order.
pub open spec fn group_ids(groups: Seq<GroupModel>) -> Seq<Seq<char>> {
    groups.map_values(|g: GroupModel| g.id)
}

/// The conversation identifiers of every chunk, concatenated in chunk
/// order.
pub open spec fn all_chunk_ids(chunks: Seq<Chunk>) -> Seq<Seq<char>>
    decreases chunks.len(),
{
    if chunks.len() == 0 {
        Seq::empty()
    } else {
        all_chunk_ids(chunks.drop_last()) + chunk_key_set(chunks.last())
    }
}

/// What ceil division guarantees: enough to cover, never a whole spare
/// divisor.
proof fn lemma_ceil_bounds(k: int, c: int)
    requires
        k >= 1,
        c >= 1,
    ensures
        spec_ceil_div(k, c) >= 1,
        spec_ceil_div(k, c) * c >= k,
        (spec_ceil_div(k, c) - 1) * c < k,
{
    let q = (k - 1) / c;
    let r = (k - 1) % c;
    lemma_fundamental_div_mod(k - 1, c);
    lemma_mod_bound(k - 1, c);
    assert(q >= 0) by {
        if q < 0 {
            assert(c * q <= -c) by {
                lemma_mul_inequality(q, -1, c);
                lemma_mul_is_commutative(q, c);
                lemma_mul_is_commutative(-1, c);
            }
        }
    }
    assert(spec_ceil_div(k, c) == q + 1);
    assert((q + 1) * c == q * c + c) by {
        lemma_mul_is_distributive_add_other_way(c, q, 1);
    }
    assert(q * c == c * q) by {
        lemma_mul_is_commutative(q, c);
    }
}

/// How many of the first `k` groups the first `m` chunks of size `c`
/// cover.
spec fn covered(k: int, c: int, m: int) -> int {
    if m * c > k {
        k
    } else {
        m * c
    }
}

proof fn lemma_chunk_ids_prefix(groups: Seq<GroupModel>, chunks: Seq<Chunk>, n: int, m: int)
    requires
        partition_rel(groups, chunks, n),
        groups.len() >= 1,
        0 <= m <= chunks.len(),
    ensures
        all_chunk_ids(chunks.take(m)) == group_ids(groups).take(
            covered(
                groups.len() as int,
                spec_ceil_div(groups.len() as int, effective_chunks(n)),
                m,
            ),
        ),
    decreases m,
{
    let k = groups.len() as int;
    let c = spec_ceil_div(k, effective_chunks(n));
    lemma_ceil_bounds(k, effective_chunks(n));
    lemma_ceil_bounds(k, c);
    let nch = chunks.len() as int;
    if m == 0 {
        assert(0 * c == 0) by {
            vstd::arithmetic::mul::lemma_mul_by_zero_is_zero(c);
            lemma_mul_is_commutative(0, c);
        }
        assert(covered(k, c, 0) == 0);
        assert(all_chunk_ids(chunks.take(0)) =~= group_ids(groups).take(covered(k, c, 0)));
    } else {
        lemma_chunk_ids_prefix(groups, chunks, n, m - 1);
        // the previous chunks are full: (m-1)*c < k
        assert((m - 1) * c <= (nch - 1) * c) by {
            lemma_mul_inequality(m - 1, nch - 1, c);
        }
        assert((m - 1) * c < k);
        assert(covered(k, c, m - 1) == (m - 1) * c);
        assert(m * c == (m - 1) * c + c) by {
            lemma_mul_is_distributive_add_other_way(c, m - 1, 1);
            lemma_mul_is_commutative(m - 1, c);
            lemma_mul_is_commutative(m, c);
        }
        let size = chunks[m - 1].items@.len() as int;
        assert(covered(k, c, m) == (m - 1) * c + size);
        // the (m-1)-th chunk's keys are the groups it carries
        assert(chunk_key_set(chunks[m - 1]) =~= group_ids(groups).subrange(
            (m - 1) * c,
            (m - 1) * c + size,
        )) by {
            assert forall|j: int| 0 <= j < size implies #[trigger] chunk_key_set(chunks[m - 1])[j]
                == group_ids(groups)[(m - 1) * c + j] by {
                assert(item_matches(chunks[m - 1].items@[j], groups[(m - 1) * c + j]));
            }
        }
        assert(chunks.take(m).drop_last() =~= chunks.take(m - 1));
        assert(chunks.take(m).last() == chunks[m - 1]);
        assert(group_ids(groups).take(covered(k, c, m)) =~= group_ids(groups).take(
            covered(k, c, m - 1),
        ) + group_ids(groups).subrange((m - 1) * c, (m - 1) * c + size));
    }
}

/// Law: partition completeness. The conversation keys of all chunks,
/// concatenated in chunk order, are exactly the grouping's keys: every
/// key lands in a chunk, none is invented — so the union of the chunks'
/// key sets is the full key set, and as long as the grouping's keys are
/// distinct no key appears in two chunks.
pub proof fn lemma_partition_completeness(groups: Seq<GroupModel>, chunks: Seq<Chunk>, n: int)
    requires
        partition_rel(groups, chunks, n),
    ensures
        all_chunk_ids(chunks) == group_ids(groups),
        all_chunk_ids(chunks).to_set() == group_ids(groups).to_set(),
        group_ids(groups).no_duplicates() ==> all_chunk_ids(chunks).no_duplicates(),
{
    if groups.len() == 0 {
        assert(all_chunk_ids(chunks) =~= group_ids(groups));
    } else {
        let k = groups.len() as int;
        let c = spec_ceil_div(k, effective_chunks(n));
        lemma_ceil_bounds(k, effective_chunks(n));
        lemma_ceil_bounds(k, c);
        let nch = chunks.len() as int;
        lemma_chunk_ids_prefix(groups, chunks, n, nch);
        assert(nch * c >= k);
        assert(covered(k, c, nch) == k);
        assert(chunks.take(nch) =~= chunks);
        assert(group_ids(groups).take(k) =~= group_ids(groups));
    }
}

/// Law: partition balance. No chunk holds more than ceil(K/N) keys, every
/// chunk but the last holds exactly ceil(K/N), and there are at most N
/// chunks.
pub proof fn lemma_partition_balance(groups: Seq<GroupModel>, chunks: Seq<Chunk>, n: int)
    requires
        partition_rel(groups, chunks, n),
    ensures
        forall|ci: int|
            0 <= ci < chunks.len() ==> (#[trigger] chunks[ci].items)@.len() <= spec_ceil_div(
                groups.len() as int,
                effective_chunks(n),
            ),
        forall|ci: int|
            0 <= ci < chunks.len() as int - 1 ==> (#[trigger] chunks[ci].items)@.len()
                == spec_ceil_div(groups.len() as int, effective_chunks(n)),
        chunks.len() <= effective_chunks(n),
{
    if groups.len() == 0 {
        assert(chunks.len() == 0);
    } else {
        let k = groups.len() as int;
        let c = spec_ceil_div(k, effective_chunks(n));
        lemma_ceil_bounds(k, effective_chunks(n));
        lemma_ceil_bounds(k, c);
        let nch = chunks.len() as int;
        assert forall|ci: int| 0 <= ci < nch - 1 implies (#[trigger] chunks[ci].items)@.len()
            == c by {
            assert((ci + 1) * c <= (nch - 1) * c) by {
                lemma_mul_inequality(ci + 1, nch - 1, c);
            }
            assert((ci + 1) * c == ci * c + c) by {
                lemma_mul_is_distributive_add_other_way(c, ci, 1);
                lemma_mul_is_commutative(ci, c);
                lemma_mul_is_commutative(ci + 1, c);
            }
        }
        // at most n chunks: k <= c * n, so (k-1)/c < n
        assert(c * effective_chunks(n) >= k) by {
            lemma_mul_is_commutative(c, effective_chunks(n));
        }
        assert((k - 1) / c < effective_chunks(n)) by {
            lemma_multiply_divide_lt(k - 1, c, effective_chunks(n));
        }
    }
}

/// Law: legacy-field migration. The rewrite always clears the legacy
/// single-attachment field; when it was already empty the attachment list
/// is untouched, and when it was populated that file is appended to the
/// list exactly once.
pub proof fn lemma_legacy_migration(p: PostModel)
    ensures
        rewritten(p).file is None,
        p.file is None ==> rewritten(p).files == p.files,
        p.file is Some ==> rewritten(p).files == p.files.push(p.file->0),
{
}

/// Law: download-task exclusion. An attachment that is externally hosted,
/// or whose URL fields are both empty, never produces a download task:
/// dropping it from the list leaves the work items exactly as they were.
pub proof fn lemma_download_task_exclusion(files: Seq<FileModel>, i: int)
    requires
        0 <= i < files.len(),
        files[i].is_external || (files[i].url_private.len() == 0
            && files[i].url_private_download.len() == 0),
    ensures
        spec_tasks(files) == spec_tasks(files.remove(i)),
    decreases files.len(),
{
    assert(!eligible(files[i]));
    if i == files.len() - 1 {
        assert(files.remove(i) =~= files.drop_last());
    } else {
        assert(files.drop_last()[i] == files[i]);
        lemma_download_task_exclusion(files.drop_last(), i);
        assert(files.remove(i).drop_last() =~= files.drop_last().remove(i));
        assert(files.remove(i).last() == files.last());
    }
}

/// Law: attachment-free round trip. A post with no legacy file and no
/// attachments is left exactly as it was by the rewrite — in particular
/// no upload flag appears — and it contributes no download work.
pub proof fn lemma_no_attachment_round_trip(p: PostModel)
    requires
        p.file is None,
        p.files.len() == 0,
    ensures
        rewritten(p) == p,
        post_tasks(p) == Seq::<DownloadModel>::empty(),
{
}

/// Law: the same for a whole post array: rewriting it changes nothing and
/// its download work list is empty.
pub proof fn lemma_no_attachment_round_trip_all(posts: Seq<PostModel>)
    requires
        forall|i: int|
            0 <= i < posts.len() ==> (#[trigger] posts[i]).file is None && posts[i].files.len()
                == 0,
    ensures
        rewritten_all(posts) == posts,
        all_tasks(posts) == Seq::<DownloadModel>::empty(),
    decreases posts.len(),
{
    assert forall|i: int| 0 <= i < posts.len() implies rewritten(#[trigger] posts[i])
        == posts[i] by {
        lemma_no_attachment_round_trip(posts[i]);
    }
    assert(rewritten_all(posts) =~= posts);
    if posts.len() == 0 {
        assert(all_tasks(posts) =~= Seq::<DownloadModel>::empty());
    } else {
        lemma_no_attachment_round_trip_all(posts.drop_last());
        lemma_no_attachment_round_trip(posts.last());
        assert(all_tasks(posts) =~= Seq::<DownloadModel>::empty());
    }
}

/// Law: the DM claim pass moves conversation groups, never copies or
/// drops one — together, the general grouping and the directs grouping
/// hold exactly the groups they held before the pass.
pub proof fn lemma_claim_conserves_groups(m: ClaimModel, ids: Seq<Seq<char>>)
    ensures
        claim_fold(m, ids).remaining.to_multiset().add(claim_fold(m, ids).claimed.to_multiset())
            == m.remaining.to_multiset().add(m.claimed.to_multiset()),
    decreases ids.len(),
{
    if ids.len() == 0 {
    } else {
        lemma_claim_conserves_groups(m, ids.drop_last());
        let mid = claim_fold(m, ids.drop_last());
        let out = claim_fold(m, ids);
        let id = ids.last();
        lemma_group_find_bounds(mid.remaining, id);
        let k = group_find(mid.remaining, id);
        mid.remaining.to_multiset_ensures();
        mid.claimed.to_multiset_ensures();
        if k < mid.remaining.len() {
            let e = mid.remaining[k];
            assert(mid.remaining.contains(e));
            assert(out.remaining.to_multiset() =~= mid.remaining.to_multiset().remove(e));
            assert(out.claimed.to_multiset() =~= mid.claimed.to_multiset().insert(e));
            assert(out.remaining.to_multiset().add(out.claimed.to_multiset())
                =~= mid.remaining.to_multiset().add(mid.claimed.to_multiset()));
        }
    }
}

/// Law: the claim pass keeps both groupings free of duplicate identifiers
/// and mutually disjoint — a claimed conversation is gone from the
/// general grouping, so no conversation ever feeds both streams.
pub proof fn lemma_claim_keeps_distinct(m: ClaimModel, ids: Seq<Seq<char>>)
    requires
        group_ids(m.remaining).no_duplicates(),
        group_ids(m.claimed).no_duplicates(),
        forall|i: int, j: int|
            0 <= i < m.remaining.len() && 0 <= j < m.claimed.len() ==> (
            #[trigger] m.remaining[i]).id != (#[trigger] m.claimed[j]).id,
    ensures
        group_ids(claim_fold(m, ids).remaining).no_duplicates(),
        group_ids(claim_fold(m, ids).claimed).no_duplicates(),
        forall|i: int, j: int|
            0 <= i < claim_fold(m, ids).remaining.len() && 0 <= j < claim_fold(
                m,
                ids,
            ).claimed.len() ==> (#[trigger] claim_fold(m, ids).remaining[i]).id != (
            #[trigger] claim_fold(m, ids).claimed[j]).id,
    decreases ids.len(),
{
    if ids.len() == 0 {
    } else {
        lemma_claim_keeps_distinct(m, ids.drop_last());
        let mid = claim_fold(m, ids.drop_last());
        let out = claim_fold(m, ids);
        let id = ids.last();
        lemma_group_find_bounds(mid.remaining, id);
        let k = group_find(mid.remaining, id);
        if k < mid.remaining.len() {
            let e = mid.remaining[k];
            // the shrunk general grouping keeps distinct ids
            assert forall|i: int, j: int|
                0 <= i < j < out.remaining.len() implies (#[trigger] out.remaining[i]).id != (
            #[trigger] out.remaining[j]).id by {
                let i0 = if i < k {
                    i
                } else {
                    i + 1
                };
                let j0 = if j < k {
                    j
                } else {
                    j + 1
                };
                assert(out.remaining[i] == mid.remaining[i0]);
                assert(out.remaining[j] == mid.remaining[j0]);
                assert(group_ids(mid.remaining)[i0] != group_ids(mid.remaining)[j0]);
            }
            // the claimed id was unique in the general grouping, so it is
            // gone from what remains
            assert forall|i: int| 0 <= i < out.remaining.len() implies (
            #[trigger] out.remaining[i]).id != e.id by {
                let i0 = if i < k {
                    i
                } else {
                    i + 1
                };
                assert(out.remaining[i] == mid.remaining[i0]);
                assert(group_ids(mid.remaining)[i0] != group_ids(mid.remaining)[k]);
            }
            // and it was never in the directs grouping before
            assert forall|i: int, j: int|
                0 <= i < j < out.claimed.len() implies (#[trigger] out.claimed[i]).id != (
            #[trigger] out.claimed[j]).id by {
                if j < out.claimed.len() - 1 {
                    assert(group_ids(mid.claimed)[i] != group_ids(mid.claimed)[j]);
                } else {
                    assert(out.claimed[j] == e);
                    assert(mid.remaining[k].id == (#[trigger] mid.claimed[i]).id ==> false);
                }
            }
        }
    }
}

/// The grouping the scan builds never holds two groups with one
/// identifier, whatever the entry list — the premise the completeness law
/// asks for.
pub proof fn lemma_scan_groups_distinct(entries: Seq<(Seq<char>, int)>)
    ensures
        group_ids(scan_fold(entries).groups).no_duplicates(),
    decreases entries.len(),
{
    if entries.len() == 0 {
    } else {
        lemma_scan_groups_distinct(entries.drop_last());
        let m = scan_fold(entries.drop_last());
        let stepped = scan_step(m, entries.last().0, entries.last().1);
        if stepped.groups != m.groups {
            lemma_group_insert_keeps_distinct(
                m.groups,
                crate::split::paths::first_segment(entries.last().0),
                entries.last().0,
                entries.last().1,
            );
        }
    }
}

proof fn lemma_group_insert_keeps_distinct(
    groups: Seq<GroupModel>,
    id: Seq<char>,
    path: Seq<char>,
    idx: int,
)
    requires
        group_ids(groups).no_duplicates(),
    ensures
        group_ids(group_insert(groups, id, path, idx)).no_duplicates(),
{
    lemma_group_find_bounds(groups, id);
    let k = group_find(groups, id);
    let out = group_insert(groups, id, path, idx);
    if k == groups.len() {
        assert(group_ids(out) =~= group_ids(groups).push(id));
        assert forall|i: int, j: int|
            0 <= i < j < group_ids(out).len() implies group_ids(out)[i] != group_ids(out)[j] by {
            if j == group_ids(out).len() - 1 {
                assert(groups[i].id != id);
            }
        }
    } else {
        assert(group_ids(out) =~= group_ids(groups));
    }
}

} // verus!
