use crate::split::model::{Chunk, ChunkItem};
use crate::split::scan::{group_views, pairs_view, Group, GroupModel};
use vstd::arithmetic::div_mod::lemma_fundamental_div_mod_converse;
use vstd::prelude::*;
use vstd::string::*;

verus! {

/// ceil(k / n) for n >= 1, written so that the matching executable
/// computation cannot overflow.
pub open spec fn spec_ceil_div(k: int, n: int) -> int {
    if k <= 0 {
        0
    } else {
        (k - 1) / n + 1
    }
}

/// The chunk count actually used: a degenerate request for zero chunks is
/// treated as one, never as a division by zero.
pub open spec fn effective_chunks(n: int) -> int {
    if n <= 0 {
        1
    } else {
        n
    }
}

/// One chunk item carries one group: same identifier, same member list.
pub open spec fn item_matches(it: ChunkItem, g: GroupModel) -> bool {
    it.id@ == g.id && pairs_view(it.files@) == g.files
}

/// How `chunks` partitions `groups` when `n` chunks were requested:
/// contiguous runs of c = ceil(len/n) groups, in order, only the last run
/// shorter, and exactly as many runs as that takes.
pub open spec fn partition_rel(groups: Seq<GroupModel>, chunks: Seq<Chunk>, n: int) -> bool {
    let k = groups.len() as int;
    let c = spec_ceil_div(k, effective_chunks(n));
    &&& (k == 0 ==> chunks.len() == 0)
    &&& (k > 0 ==> chunks.len() == spec_ceil_div(k, c))
    &&& (forall|ci: int|
        0 <= ci < chunks.len() ==> (#[trigger] chunks[ci].items)@.len() == (if k - ci * c < c {
            k - ci * c
        } else {
            c
        }))
    &&& (forall|ci: int, j: int|
        0 <= ci < chunks.len() && 0 <= j < chunks[ci].items@.len() ==> item_matches(
            #[trigger] chunks[ci].items@[j],
            groups[ci * c + j],
        ))
}

/// Copy one member list, element for element.
fn copy_pairs(files: &Vec<(String, usize)>) -> (r: Vec<(String, usize)>)
    ensures
        r@ == files@,
{
    let mut out: Vec<(String, usize)> = Vec::new();
    let mut i: usize = 0;
    while i < files.len()
        invariant
            i <= files@.len(),
            out@ == files@.take(i as int),
        decreases files@.len() - i,
    {
        let s = files[i].0.clone();
        let ordinal = files[i].1;
        out.push((s, ordinal));
        proof {
            assert(out@ =~= files@.take(i as int + 1));
        }
        i += 1;
    }
    proof {
        assert(files@.take(files@.len() as int) =~= files@);
    }
    out
}

/// The chunk item carrying one group.
fn chunk_item_of(g: &Group) -> (r: ChunkItem)
    ensures
        item_matches(r, g@),
{
    ChunkItem { id: g.id.clone(), files: copy_pairs(&g.files) }
}

/// Slice the groups, in order, into contiguous chunks of ceil(len/n)
/// each, the last possibly shorter. A request for zero chunks is treated
/// as a request for one.
pub fn split_to_chunks(groups: &Vec<Group>, num_chunks: usize) -> (r: Vec<Chunk>)
    ensures
        partition_rel(group_views(groups@), r@, num_chunks as int),
{
    let ghost gv = group_views(groups@);
    let n: usize = if num_chunks == 0 {
        1
    } else {
        num_chunks
    };
    let k: usize = groups.len();
    let mut chunks: Vec<Chunk> = Vec::new();
    if k == 0 {
        return chunks;
    }
    let c: usize = (k - 1) / n + 1;
    proof {
        assert(gv.len() == k);
        assert(c == spec_ceil_div(k as int, effective_chunks(num_chunks as int)));
    }
    let mut start: usize = 0;
    while start < k
        invariant
            gv == group_views(groups@),
            k == gv.len(),
            k == groups@.len(),
            1 <= k,
            1 <= c,
            c == spec_ceil_div(k as int, effective_chunks(num_chunks as int)),
            start <= k,
            chunks@.len() == spec_ceil_div(start as int, c as int),
            start < k ==> start == chunks@.len() * c,
            forall|ci: int|
                0 <= ci < chunks@.len() ==> (#[trigger] chunks@[ci].items)@.len() == (if k - ci * c
                    < c {
                    k as int - ci * c
                } else {
                    c as int
                }),
            forall|ci: int, j: int|
                0 <= ci < chunks@.len() && 0 <= j < chunks@[ci].items@.len() ==> item_matches(
                    #[trigger] chunks@[ci].items@[j],
                    gv[ci * c + j],
                ),
        decreases k - start,
    {
        let ghost m = chunks@.len() as int;
        let end: usize = if k - start < c {
            k
        } else {
            start + c
        };
        let mut items: Vec<ChunkItem> = Vec::new();
        let mut j: usize = start;
        while j < end
            invariant
                gv == group_views(groups@),
                k == gv.len(),
                k == groups@.len(),
                start <= j <= end,
                end <= k,
                items@.len() == j - start,
                forall|t: int|
                    0 <= t < items@.len() ==> item_matches(
                        #[trigger] items@[t],
                        gv[start as int + t],
                    ),
            decreases end - j,
        {
            let item = chunk_item_of(&groups[j]);
            proof {
                assert(gv[j as int] == groups@[j as int]@);
            }
            items.push(item);
            j += 1;
        }
        chunks.push(Chunk { items });
        proof {
            // the new chunk sits at index m, covering groups [m*c, end)
            assert(start == m * c);
            assert(chunks@[m].items@.len() == (if k as int - m * c < c {
                k as int - m * c
            } else {
                c as int
            }));
            if end < k {
                // a full chunk: end == (m+1)*c, so ceil(end/c) == m+1
                assert(end == (m + 1) * c) by (nonlinear_arith)
                    requires
                        end == m * c + c,
                ;
                lemma_fundamental_div_mod_converse(end - 1, c as int, m, c - 1 as int);
                assert(chunks@.len() == spec_ceil_div(end as int, c as int));
            } else {
                // the final chunk: m*c < k <= m*c + c, so ceil(k/c) == m+1
                assert(k - 1 == m * c + (k - 1 - m * c));
                lemma_fundamental_div_mod_converse(k - 1, c as int, m, k - 1 - m * c);
                assert(chunks@.len() == spec_ceil_div(k as int, c as int));
            }
        }
        start = end;
    }
    proof {
        assert(start == k);
        assert(partition_rel(gv, chunks@, num_chunks as int));
    }
    chunks
}

} // verus!
