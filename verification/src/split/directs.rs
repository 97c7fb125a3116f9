use crate::split::model::{direct_views, Chunk, ChunkItem, Direct, DirectModel};
use crate::split::paths::str_eq;
use crate::split::scan::{group_find, group_views, lemma_group_find_at, Group, GroupModel};
use vstd::prelude::*;
use vstd::string::*;

verus! {

/// The state of the DM claim pass: the groups still in the general
/// grouping, the groups claimed for the directs stream, and the DM ids
/// that had no group.
pub ghost struct ClaimModel {
    pub remaining: Seq<GroupModel>,
    pub claimed: Seq<GroupModel>,
    pub missing: Seq<Seq<char>>,
}

/// Claim one DM id: its group moves wholesale from the general grouping
/// to the directs grouping — removed from one, appended to the other — and
/// an id with no group is recorded as missing instead.
pub open spec fn claim_step(m: ClaimModel, id: Seq<char>) -> ClaimModel {
    let k = group_find(m.remaining, id);
    if k == m.remaining.len() {
        ClaimModel { remaining: m.remaining, claimed: m.claimed, missing: m.missing.push(id) }
    } else {
        ClaimModel {
            remaining: m.remaining.remove(k),
            claimed: m.claimed.push(m.remaining[k]),
            missing: m.missing,
        }
    }
}

/// The claim pass over a whole id list, in order.
pub open spec fn claim_fold(m: ClaimModel, ids: Seq<Seq<char>>) -> ClaimModel
    decreases ids.len(),
{
    if ids.len() == 0 {
        m
    } else {
        claim_step(claim_fold(m, ids.drop_last()), ids.last())
    }
}

pub open spec fn direct_ids(directs: Seq<Direct>) -> Seq<Seq<char>> {
    directs.map_values(|d: Direct| d.id@)
}

/// Index of the group with identifier `id`, when there is one.
fn group_index_of(groups: &Vec<Group>, id: &str) -> (r: Option<usize>)
    ensures
        ({
            let k = group_find(group_views(groups@), id@);
            match r {
                Some(found) => found as int == k && k < groups@.len(),
                None => k == groups@.len(),
            }
        }),
{
    let ghost gv = group_views(groups@);
    let mut k: usize = 0;
    while k < groups.len()
        invariant
            gv == group_views(groups@),
            k <= groups@.len(),
            forall|j: int| 0 <= j < k ==> (#[trigger] gv[j]).id != id@,
        decreases groups@.len() - k,
    {
        if str_eq(groups[k].id.as_str(), id) {
            proof {
                lemma_group_find_at(gv, id@, k as int);
            }
            return Some(k);
        }
        k += 1;
    }
    proof {
        lemma_group_find_at(gv, id@, gv.len() as int);
    }
    None
}

/// Move each DM conversation's group from the general grouping into the
/// directs grouping, in DM-list order; ids without a matching group are
/// handed back for reporting, in that same order.
pub fn claim_directs(directs: &Vec<Direct>, groups: &mut Vec<Group>, claimed: &mut Vec<Group>) -> (missing: Vec<String>)
    ensures
        ({
            let m = claim_fold(
                ClaimModel {
                    remaining: group_views(old(groups)@),
                    claimed: group_views(old(claimed)@),
                    missing: Seq::empty(),
                },
                direct_ids(directs@),
            );
            &&& group_views(final(groups)@) == m.remaining
            &&& group_views(final(claimed)@) == m.claimed
            &&& missing@.map_values(|s: String| s@) == m.missing
        }),
{
    let ghost init = ClaimModel {
        remaining: group_views(old(groups)@),
        claimed: group_views(old(claimed)@),
        missing: Seq::empty(),
    };
    let ghost ids = direct_ids(directs@);
    let mut missing: Vec<String> = Vec::new();
    let mut i: usize = 0;
    while i < directs.len()
        invariant
            ids == direct_ids(directs@),
            i <= directs@.len(),
            ({
                let m = claim_fold(init, ids.take(i as int));
                &&& group_views(groups@) == m.remaining
                &&& group_views(claimed@) == m.claimed
                &&& missing@.map_values(|s: String| s@) == m.missing
            }),
        decreases directs@.len() - i,
    {
        let ghost pre_groups = group_views(groups@);
        let ghost pre_claimed = group_views(claimed@);
        let ghost pre_missing = missing@.map_values(|s: String| s@);
        let id = &directs[i].id;
        match group_index_of(groups, id.as_str()) {
            Some(k) => {
                let g = groups.remove(k);
                claimed.push(g);
                proof {
                    assert(group_views(groups@) =~= pre_groups.remove(k as int));
                    assert(group_views(claimed@) =~= pre_claimed.push(pre_groups[k as int]));
                }
            },
            None => {
                missing.push(id.clone());
                proof {
                    assert(missing@.map_values(|s: String| s@) =~= pre_missing.push(id@));
                }
            },
        }
        proof {
            assert(ids.take(i as int + 1).drop_last() =~= ids.take(i as int));
            assert(ids.take(i as int + 1).last() == ids[i as int]);
        }
        i += 1;
    }
    proof {
        assert(ids.take(directs@.len() as int) =~= ids);
    }
    missing
}

/// The conversation identifiers a chunk carries.
pub open spec fn chunk_key_set(c: Chunk) -> Seq<Seq<char>> {
    c.items@.map_values(|it: ChunkItem| it.id@)
}

/// Whether this chunk carries the conversation named `id`.
pub fn chunk_contains_id(chunk: &Chunk, id: &str) -> (r: bool)
    ensures
        r == chunk_key_set(*chunk).contains(id@),
{
    let mut k: usize = 0;
    while k < chunk.items.len()
        invariant
            k <= chunk.items@.len(),
            forall|j: int| 0 <= j < k ==> (#[trigger] chunk_key_set(*chunk)[j]) != id@,
        decreases chunk.items@.len() - k,
    {
        if str_eq(chunk.items[k].id.as_str(), id) {
            proof {
                assert(chunk_key_set(*chunk)[k as int] == id@);
            }
            return true;
        }
        k += 1;
    }
    proof {
        if chunk_key_set(*chunk).contains(id@) {
            let j = choose|j: int|
                0 <= j < chunk_key_set(*chunk).len() && chunk_key_set(*chunk)[j] == id@;
            assert(chunk_key_set(*chunk)[j] != id@);
        }
    }
    false
}

/// The direct-message records whose conversation belongs to this chunk,
/// in their original order.
pub fn filter_directs(directs: &Vec<Direct>, chunk: &Chunk) -> (r: Vec<Direct>)
    ensures
        direct_views(r@) == direct_views(directs@).filter(
            |d: DirectModel| chunk_key_set(*chunk).contains(d.id),
        ),
{
    let ghost pred = |d: DirectModel| chunk_key_set(*chunk).contains(d.id);
    let mut out: Vec<Direct> = Vec::new();
    let mut i: usize = 0;
    while i < directs.len()
        invariant
            i <= directs@.len(),
            direct_views(out@) == direct_views(directs@.take(i as int)).filter(pred),
            pred == (|d: DirectModel| chunk_key_set(*chunk).contains(d.id)),
        decreases directs@.len() - i,
    {
        let ghost pre = direct_views(out@);
        let keep = chunk_contains_id(chunk, directs[i].id.as_str());
        if keep {
            out.push(directs[i].clone());
            proof {
                assert(direct_views(out@) =~= pre.push(directs@[i as int]@));
            }
        }
        proof {
            let s = direct_views(directs@.take(i as int));
            let d = directs@[i as int]@;
            assert(direct_views(directs@.take(i as int + 1)) =~= s.push(d));
            seq_filter_push(s, d, pred);
        }
        i += 1;
    }
    proof {
        assert(directs@.take(directs@.len() as int) =~= directs@);
    }
    out
}

/// Filtering a sequence extended by one element keeps the filtered prefix
/// and appends the element exactly when it satisfies the predicate.
proof fn seq_filter_push(s: Seq<DirectModel>, d: DirectModel, pred: spec_fn(DirectModel) -> bool)
    ensures
        s.push(d).filter(pred) == if pred(d) {
            s.filter(pred).push(d)
        } else {
            s.filter(pred)
        },
{
    reveal(Seq::filter);
    assert(s.push(d).drop_last() =~= s);
}

} // verus!
