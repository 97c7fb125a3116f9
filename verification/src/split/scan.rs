use crate::split::paths::{
    basename, basename_str, ends_with, first_segment, first_segment_str, str_ends_with, str_eq,
};
use vstd::prelude::*;
use vstd::string::*;

verus! {

/// One conversation group while the index is built: its identifier and
/// its member entries as (path, ordinal) pairs, in archive order.
pub struct Group {
    pub id: String,
    pub files: Vec<(String, usize)>,
}

/// The mathematical shape of a `Group`.
pub ghost struct GroupModel {
    pub id: Seq<char>,
    pub files: Seq<(Seq<char>, int)>,
}

pub open spec fn pairs_view(files: Seq<(String, usize)>) -> Seq<(Seq<char>, int)> {
    files.map_values(|p: (String, usize)| (p.0@, p.1 as int))
}

impl View for Group {
    type V = GroupModel;

    open spec fn view(&self) -> GroupModel {
        GroupModel { id: self.id@, files: pairs_view(self.files@) }
    }
}

pub open spec fn group_views(groups: Seq<Group>) -> Seq<GroupModel> {
    groups.map_values(|g: Group| g@)
}

/// The index the scan builds: the shared entries and the conversation
/// groups, both in first-appearance order.
pub ghost struct ScanModel {
    pub shared: Seq<(Seq<char>, int)>,
    pub groups: Seq<GroupModel>,
}

/// The five well-known global directory entries that every chunk shares.
pub open spec fn is_shared_name(name: Seq<char>) -> bool {
    ||| name == "users.json"@
    ||| name == "channels.json"@
    ||| name == "dms.json"@
    ||| name == "groups.json"@
    ||| name == "mpims.json"@
}

/// Index of the shared entry whose base name is `key`, or the length when
/// there is none.
pub open spec fn shared_find(shared: Seq<(Seq<char>, int)>, key: Seq<char>) -> int
    decreases shared.len(),
{
    if shared.len() == 0 {
        0
    } else if basename(shared[0].0) == key {
        0
    } else {
        1 + shared_find(shared.drop_first(), key)
    }
}

pub proof fn lemma_shared_find_at(shared: Seq<(Seq<char>, int)>, key: Seq<char>, k: int)
    requires
        0 <= k <= shared.len(),
        forall|j: int| 0 <= j < k ==> basename((#[trigger] shared[j]).0) != key,
        k < shared.len() ==> basename(shared[k].0) == key,
    ensures
        shared_find(shared, key) == k,
    decreases shared.len(),
{
    if shared.len() == 0 {
    } else if basename(shared[0].0) == key {
        if k > 0 {
            assert(basename(shared[0].0) != key);
        }
    } else {
        assert(k >= 1) by {
            if k == 0 {
                assert(basename(shared[0].0) == key);
            }
        }
        assert forall|j: int| 0 <= j < k - 1 implies basename(
            (#[trigger] shared.drop_first()[j]).0,
        ) != key by {
            assert(shared.drop_first()[j] == shared[j + 1]);
        }
        if k - 1 < shared.drop_first().len() {
            assert(shared.drop_first()[k - 1] == shared[k]);
        }
        lemma_shared_find_at(shared.drop_first(), key, k - 1);
    }
}

/// Put a shared entry into the set: it replaces the entry with the same
/// base name, or goes to the end when its name is new.
pub open spec fn shared_insert(
    shared: Seq<(Seq<char>, int)>,
    path: Seq<char>,
    idx: int,
) -> Seq<(Seq<char>, int)> {
    let k = shared_find(shared, basename(path));
    if k == shared.len() {
        shared.push((path, idx))
    } else {
        shared.update(k, (path, idx))
    }
}

/// Index of the group with identifier `id`, or the length when there is
/// none.
pub open spec fn group_find(groups: Seq<GroupModel>, id: Seq<char>) -> int
    decreases groups.len(),
{
    if groups.len() == 0 {
        0
    } else if groups[0].id == id {
        0
    } else {
        1 + group_find(groups.drop_first(), id)
    }
}

pub proof fn lemma_group_find_at(groups: Seq<GroupModel>, id: Seq<char>, k: int)
    requires
        0 <= k <= groups.len(),
        forall|j: int| 0 <= j < k ==> (#[trigger] groups[j]).id != id,
        k < groups.len() ==> groups[k].id == id,
    ensures
        group_find(groups, id) == k,
    decreases groups.len(),
{
    if groups.len() == 0 {
    } else if groups[0].id == id {
        if k > 0 {
            assert(groups[0].id != id);
        }
    } else {
        assert(k >= 1) by {
            if k == 0 {
                assert(groups[0].id == id);
            }
        }
        assert forall|j: int| 0 <= j < k - 1 implies (#[trigger] groups.drop_first()[j]).id
            != id by {
            assert(groups.drop_first()[j] == groups[j + 1]);
        }
        if k - 1 < groups.drop_first().len() {
            assert(groups.drop_first()[k - 1] == groups[k]);
        }
        lemma_group_find_at(groups.drop_first(), id, k - 1);
    }
}

pub proof fn lemma_group_find_bounds(groups: Seq<GroupModel>, id: Seq<char>)
    ensures
        0 <= group_find(groups, id) <= groups.len(),
        forall|j: int| 0 <= j < group_find(groups, id) ==> (#[trigger] groups[j]).id != id,
        group_find(groups, id) < groups.len() ==> groups[group_find(groups, id)].id == id,
    decreases groups.len(),
{
    if groups.len() == 0 {
    } else if groups[0].id == id {
    } else {
        lemma_group_find_bounds(groups.drop_first(), id);
        assert forall|j: int| 0 <= j < group_find(groups, id) implies (#[trigger] groups[j]).id
            != id by {
            if j > 0 {
                assert(groups.drop_first()[j - 1] == groups[j]);
            }
        }
        if group_find(groups, id) < groups.len() {
            assert(groups.drop_first()[group_find(groups, id) - 1] == groups[group_find(
                groups,
                id,
            )]);
        }
    }
}

/// Append a member entry to its conversation group, creating the group at
/// the end on its first appearance.
pub open spec fn group_insert(
    groups: Seq<GroupModel>,
    id: Seq<char>,
    path: Seq<char>,
    idx: int,
) -> Seq<GroupModel> {
    let k = group_find(groups, id);
    if k == groups.len() {
        groups.push(GroupModel { id, files: seq![(path, idx)] })
    } else {
        groups.update(k, GroupModel { id: groups[k].id, files: groups[k].files.push((path, idx)) })
    }
}

/// Classify one entry and add it to the index: non-JSON entries are
/// ignored; a JSON entry whose base name is a well-known global name goes
/// to the shared set; every other JSON entry goes to the group named by
/// its first path segment.
pub open spec fn scan_step(m: ScanModel, path: Seq<char>, idx: int) -> ScanModel {
    if !ends_with(path, ".json"@) {
        m
    } else if is_shared_name(basename(path)) {
        ScanModel { shared: shared_insert(m.shared, path, idx), groups: m.groups }
    } else {
        ScanModel { shared: m.shared, groups: group_insert(m.groups, first_segment(path), path, idx) }
    }
}

/// The index of a whole entry list, entry by entry, in archive order.
pub open spec fn scan_fold(entries: Seq<(Seq<char>, int)>) -> ScanModel
    decreases entries.len(),
{
    if entries.len() == 0 {
        ScanModel { shared: Seq::empty(), groups: Seq::empty() }
    } else {
        scan_step(scan_fold(entries.drop_last()), entries.last().0, entries.last().1)
    }
}

/// Whether `name` is one of the five well-known global entry names.
pub fn shared_name_check(name: &str) -> (r: bool)
    ensures
        r == is_shared_name(name@),
{
    str_eq(name, "users.json") || str_eq(name, "channels.json") || str_eq(name, "dms.json")
        || str_eq(name, "groups.json") || str_eq(name, "mpims.json")
}

/// Put one shared entry into the set, replacing the entry with the same
/// base name when there is one.
pub fn shared_put(shared: &mut Vec<(String, usize)>, path: String, idx: usize)
    ensures
        pairs_view(final(shared)@) == shared_insert(pairs_view(old(shared)@), path@, idx as int),
{
    let ghost orig = pairs_view(old(shared)@);
    let key = String::from_str(basename_str(path.as_str()));
    let mut k: usize = 0;
    while k < shared.len()
        invariant
            shared@ == old(shared)@,
            orig == pairs_view(shared@),
            key@ == basename(path@),
            k <= shared@.len(),
            forall|j: int| 0 <= j < k ==> basename((#[trigger] pairs_view(shared@)[j]).0) != key@,
        decreases shared@.len() - k,
    {
        let existing = String::from_str(basename_str(shared[k].0.as_str()));
        if str_eq(existing.as_str(), key.as_str()) {
            proof {
                lemma_shared_find_at(orig, key@, k as int);
            }
            let slot = &mut shared[k];
            *slot = (path, idx);
            proof {
                assert(pairs_view(shared@) =~= orig.update(k as int, (path@, idx as int)));
            }
            return ;
        }
        k += 1;
    }
    proof {
        lemma_shared_find_at(orig, key@, orig.len() as int);
    }
    shared.push((path, idx));
    proof {
        assert(pairs_view(shared@) =~= orig.push((path@, idx as int)));
    }
}

/// Append one member entry to its conversation group, creating the group
/// at the end on its first appearance.
pub fn group_put(groups: &mut Vec<Group>, id: String, path: String, idx: usize)
    ensures
        group_views(final(groups)@) == group_insert(
            group_views(old(groups)@),
            id@,
            path@,
            idx as int,
        ),
{
    let ghost orig = group_views(old(groups)@);
    let mut k: usize = 0;
    while k < groups.len()
        invariant
            groups@ == old(groups)@,
            orig == group_views(groups@),
            k <= groups@.len(),
            forall|j: int| 0 <= j < k ==> (#[trigger] group_views(groups@)[j]).id != id@,
        decreases groups@.len() - k,
    {
        if str_eq(groups[k].id.as_str(), id.as_str()) {
            proof {
                lemma_group_find_at(orig, id@, k as int);
            }
            let g = &mut groups[k];
            g.files.push((path, idx));
            proof {
                assert(pairs_view(groups@[k as int].files@) =~= orig[k as int].files.push(
                    (path@, idx as int),
                ));
                assert(group_views(groups@) =~= orig.update(
                    k as int,
                    GroupModel {
                        id: orig[k as int].id,
                        files: orig[k as int].files.push((path@, idx as int)),
                    },
                ));
            }
            return ;
        }
        k += 1;
    }
    proof {
        lemma_group_find_at(orig, id@, orig.len() as int);
    }
    let mut files: Vec<(String, usize)> = Vec::new();
    files.push((path, idx));
    groups.push(Group { id, files });
    proof {
        assert(pairs_view(groups@.last().files@) =~= seq![(path@, idx as int)]);
        assert(group_views(groups@) =~= orig.push(
            GroupModel { id: id@, files: seq![(path@, idx as int)] },
        ));
    }
}

/// Classify one entry and add it to the live index.
pub fn scan_put(
    shared: &mut Vec<(String, usize)>,
    groups: &mut Vec<Group>,
    path: String,
    idx: usize,
)
    ensures
        ({
            let m = scan_step(
                ScanModel {
                    shared: pairs_view(old(shared)@),
                    groups: group_views(old(groups)@),
                },
                path@,
                idx as int,
            );
            pairs_view(final(shared)@) == m.shared && group_views(final(groups)@) == m.groups
        }),
{
    if str_ends_with(path.as_str(), ".json") {
        let base_is_shared = {
            let base = basename_str(path.as_str());
            shared_name_check(base)
        };
        if base_is_shared {
            shared_put(shared, path, idx);
        } else {
            let seg = first_segment_str(path.as_str());
            group_put(groups, seg, path, idx);
        }
    }
}

} // verus!
