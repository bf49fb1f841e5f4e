//! Duplicate detection in two phases: files are first bucketed by size, so
//! that only files sharing a size need hashing; hashed files are then
//! grouped by size and content hash.

use vstd::prelude::*;
use crate::scanner::{FileInfo, FileInfoView, opt_text};
use crate::text::text_eq;

verus! {

/// The views of a sequence of descriptors.
pub open spec fn views(s: Seq<FileInfo>) -> Seq<FileInfoView> {
    s.map_values(|f: FileInfo| f@)
}

/// A descriptor of the given size whose content hash is `hash`.
pub open spec fn has_key(f: FileInfoView, size: u64, hash: Seq<char>) -> bool {
    f.size == size && f.hash == Some(hash)
}

/// The descriptors of `s` with the given size and hash, in their order.
pub open spec fn members(s: Seq<FileInfo>, size: u64, hash: Seq<char>) -> Seq<FileInfoView>
    decreases s.len(),
{
    if s.len() == 0 {
        Seq::empty()
    } else {
        let rest = members(s.drop_last(), size, hash);
        if has_key(s.last()@, size, hash) {
            rest.push(s.last()@)
        } else {
            rest
        }
    }
}

/// The sum of the sizes in `s`.
pub open spec fn sum_sizes(s: Seq<FileInfoView>) -> int
    decreases s.len(),
{
    if s.len() == 0 {
        0
    } else {
        sum_sizes(s.drop_last()) + s.last().size
    }
}

/// How many descriptors of `s` have the given size.
pub open spec fn size_count(s: Seq<FileInfo>, size: u64) -> nat
    decreases s.len(),
{
    if s.len() == 0 {
        0
    } else {
        size_count(s.drop_last(), size) + if s.last().size == size {
            1nat
        } else {
            0nat
        }
    }
}

/// The descriptors of `prefix` whose size occurs at least twice in `all`.
pub open spec fn size_candidates_of(prefix: Seq<FileInfo>, all: Seq<FileInfo>) -> Seq<
    FileInfoView,
>
    decreases prefix.len(),
{
    if prefix.len() == 0 {
        Seq::empty()
    } else {
        let rest = size_candidates_of(prefix.drop_last(), all);
        if size_count(all, prefix.last().size) >= 2 {
            rest.push(prefix.last()@)
        } else {
            rest
        }
    }
}

/// Files with identical size and content hash.
pub struct DuplicateGroup {
    pub hash: String,
    pub files: Vec<FileInfo>,
    pub count: usize,
    pub total_size: u64,
    pub wasted_space: u64,
}

impl DuplicateGroup {
    /// The size shared by the members.
    pub open spec fn member_size(&self) -> u64 {
        self.files@[0].size
    }

    /// This group holds exactly the descriptors of `files` with its size and
    /// hash, at least two of them, with its totals.
    pub open spec fn is_group_of(&self, files: Seq<FileInfo>) -> bool {
        &&& self.files@.len() >= 2
        &&& self.count == self.files@.len()
        &&& views(self.files@) == members(files, self.member_size(), self.hash@)
        &&& self.total_size == self.member_size() * self.count
        &&& self.wasted_space == self.total_size - self.member_size()
    }
}

/// `groups` are the duplicate groups of `files`: each is a group of `files`,
/// no two share a size and hash, and every hashed descriptor whose size and
/// hash occur at least twice has its group.
pub open spec fn is_grouping_of(groups: Seq<DuplicateGroup>, files: Seq<FileInfo>) -> bool {
    &&& forall|g: int| 0 <= g < groups.len() ==> #[trigger] groups[g].is_group_of(files)
    &&& forall|a: int, b: int|
        0 <= a < b < groups.len() ==> !(groups[a].member_size() == groups[b].member_size()
            && groups[a].hash@ == groups[b].hash@)
    &&& forall|i: int|
        0 <= i < files.len() && (#[trigger] files[i]).hash.is_some() && members(
            files,
            files[i].size,
            files[i]@.hash.unwrap(),
        ).len() >= 2 ==> exists|g: int|
            0 <= g < groups.len() && groups[g].member_size() == files[i].size && groups[g].hash@
                == files[i]@.hash.unwrap()
}

proof fn lemma_views_drop_last(s: Seq<FileInfo>)
    requires
        s.len() > 0,
    ensures
        views(s).drop_last() == views(s.drop_last()),
        views(s).last() == s.last()@,
{
    assert(views(s).drop_last() =~= views(s.drop_last()));
}

/// Every member has the key it was selected by and comes from `s`.
pub proof fn lemma_members_elements(s: Seq<FileInfo>, size: u64, hash: Seq<char>)
    ensures
        forall|k: int|
            0 <= k < members(s, size, hash).len() ==> has_key(
                #[trigger] members(s, size, hash)[k],
                size,
                hash,
            ),
        forall|k: int|
            0 <= k < members(s, size, hash).len() ==> exists|i: int|
                0 <= i < s.len() && #[trigger] members(s, size, hash)[k] == s[i]@,
    decreases s.len(),
{
    if s.len() > 0 {
        lemma_members_elements(s.drop_last(), size, hash);
        let rest = members(s.drop_last(), size, hash);
        assert forall|k: int| 0 <= k < rest.len() implies exists|i: int|
            0 <= i < s.len() && #[trigger] rest[k] == s[i]@ by {
            let i = choose|i: int| 0 <= i < s.drop_last().len() && rest[k] == s.drop_last()[i]@;
            assert(s[i] == s.drop_last()[i]);
        }
        if has_key(s.last()@, size, hash) {
            assert(members(s, size, hash)[rest.len() as int] == s[s.len() - 1]@);
        }
    }
}

/// The members' sizes add up to their number times the size, and to no
/// more than all sizes of `s`.
proof fn lemma_members_sum(s: Seq<FileInfo>, size: u64, hash: Seq<char>)
    ensures
        sum_sizes(members(s, size, hash)) == members(s, size, hash).len() * size,
        sum_sizes(members(s, size, hash)) <= sum_sizes(views(s)),
    decreases s.len(),
{
    if s.len() > 0 {
        lemma_members_sum(s.drop_last(), size, hash);
        lemma_views_drop_last(s);
        let rest = members(s.drop_last(), size, hash);
        if has_key(s.last()@, size, hash) {
            assert(rest.push(s.last()@).drop_last() =~= rest);
            assert((rest.len() + 1) * size == rest.len() * size + size) by (nonlinear_arith);
        }
    }
}

/// The descriptors of `files` with the given size and hash.
fn collect_members(files: &Vec<FileInfo>, size: u64, hash: &str) -> (m: Vec<FileInfo>)
    ensures
        views(m@) == members(files@, size, hash@),
{
    let mut m: Vec<FileInfo> = Vec::new();
    let n = files.len();
    let mut j: usize = 0;
    while j < n
        invariant
            n == files@.len(),
            j <= n,
            views(m@) == members(files@.take(j as int), size, hash@),
        decreases n - j,
    {
        let f = &files[j];
        proof {
            assert(files@.take(j + 1).drop_last() =~= files@.take(j as int));
        }
        let matches = match &f.hash {
            Some(h) => f.size == size && text_eq(h.as_str(), hash),
            None => false,
        };
        if matches {
            m.push(f.duplicate());
            assert(views(m@) =~= views(m@.drop_last()).push(f@));
        }
        j += 1;
    }
    assert(files@.take(n as int) =~= files@);
    m
}

/// Whether a descriptor before index `i` has the given size and hash.
fn key_seen_before(files: &Vec<FileInfo>, i: usize, size: u64, hash: &str) -> (r: bool)
    requires
        i <= files@.len(),
    ensures
        r == exists|t: int| 0 <= t < i && #[trigger] has_key(files@[t]@, size, hash@),
{
    let mut t: usize = 0;
    while t < i
        invariant
            i <= files@.len(),
            t <= i,
            forall|u: int| 0 <= u < t ==> !#[trigger] has_key(files@[u]@, size, hash@),
        decreases i - t,
    {
        let f = &files[t];
        let same = match &f.hash {
            Some(h) => f.size == size && text_eq(h.as_str(), hash),
            None => false,
        };
        if same {
            assert(has_key(files@[t as int]@, size, hash@));
            return true;
        }
        t += 1;
    }
    false
}

/// Whether the descriptor at `t` is hashed and its size and hash occur at
/// least twice in `files`.
pub open spec fn needs_group(files: Seq<FileInfo>, t: int) -> bool {
    files[t].hash.is_some() && members(files, files[t].size, files[t]@.hash.unwrap()).len() >= 2
}

/// Group `g` of `groups` has the size and hash of descriptor `t`.
pub open spec fn group_has_key_of(
    groups: Seq<DuplicateGroup>,
    g: int,
    files: Seq<FileInfo>,
    t: int,
) -> bool {
    0 <= g < groups.len() && groups[g].member_size() == files[t].size && groups[g].hash@
        == files[t]@.hash.unwrap()
}

/// Groups hashed descriptors into duplicate groups: descriptors with equal
/// size and equal content hash, at least two of them. Descriptors without a
/// hash (their file could not be read) are left out. Groups come in the order
/// of their first member, members in input order.
pub fn group_duplicates(files: &Vec<FileInfo>) -> (r: Vec<DuplicateGroup>)
    requires
        sum_sizes(views(files@)) <= u64::MAX,
    ensures
        is_grouping_of(r@, files@),
{
    let mut r: Vec<DuplicateGroup> = Vec::new();
    let ghost mut first: Seq<int> = Seq::empty();
    let ghost mut owner: Seq<int> = Seq::empty();
    let n = files.len();
    let mut i: usize = 0;
    while i < n
        invariant
            n == files@.len(),
            i <= n,
            sum_sizes(views(files@)) <= u64::MAX,
            first.len() == r@.len(),
            owner.len() == i,
            forall|g: int| 0 <= g < r@.len() ==> #[trigger] r@[g].is_group_of(files@),
            forall|a: int, b: int|
                0 <= a < b < r@.len() ==> !(r@[a].member_size() == r@[b].member_size()
                    && r@[a].hash@ == r@[b].hash@),
            forall|g: int|
                0 <= g < r@.len() ==> 0 <= #[trigger] first[g] < i && has_key(
                    files@[first[g]]@,
                    r@[g].member_size(),
                    r@[g].hash@,
                ),
            forall|t: int|
                0 <= t < i && needs_group(files@, t) ==> group_has_key_of(
                    r@,
                    #[trigger] owner[t],
                    files@,
                    t,
                ),
        decreases n - i,
    {
        let f = &files[i];
        match &f.hash {
            None => {
                proof {
                    owner = owner.push(-1);
                }
            },
            Some(h) => {
                let size = f.size;
                let hs = h.as_str();
                assert(files@[i as int]@.hash.unwrap() == hs@);
                if !key_seen_before(files, i, size, hs) {
                    let m = collect_members(files, size, hs);
                    assert(views(m@).len() == m@.len());
                    if m.len() >= 2 {
                        proof {
                            lemma_members_sum(files@, size, hs@);
                            lemma_members_elements(files@, size, hs@);
                            assert(views(m@)[0] == m@[0]@);
                        }
                        let count = m.len();
                        assert(count as int * size as int <= u64::MAX);
                        assert(size as int * count as int == count as int * size as int)
                            by (nonlinear_arith);
                        let total = size * (count as u64);
                        assert(size * (count as u64) >= size) by (nonlinear_arith)
                            requires
                                (count as u64) >= 1,
                        ;
                        let g = DuplicateGroup {
                            hash: h.clone(),
                            files: m,
                            count,
                            total_size: total,
                            wasted_space: total - size,
                        };
                        proof {
                            assert(g.member_size() == size);
                            assert(g.is_group_of(files@));
                            assert forall|a: int| 0 <= a < r@.len() implies !(
                            r@[a].member_size() == size && r@[a].hash@ == hs@) by {
                                let t = first[a];
                                if r@[a].member_size() == size && r@[a].hash@ == hs@ {
                                    assert(has_key(files@[t]@, size, hs@));
                                }
                            }
                        }
                        let ghost old_r = r@;
                        r.push(g);
                        proof {
                            first = first.push(i as int);
                            owner = owner.push(old_r.len() as int);
                            assert forall|x: int| 0 <= x < r@.len() implies 0 <= #[trigger] first[x]
                                < i + 1 && has_key(
                                files@[first[x]]@,
                                r@[x].member_size(),
                                r@[x].hash@,
                            ) by {
                                if x < old_r.len() {
                                    assert(r@[x] == old_r[x]);
                                }
                            }
                            assert forall|t: int|
                                0 <= t < i + 1 && needs_group(files@, t) implies group_has_key_of(
                                r@,
                                #[trigger] owner[t],
                                files@,
                                t,
                            ) by {
                                if t < i {
                                    assert(r@[owner[t]] == old_r[owner[t]]);
                                }
                            }
                        }
                    } else {
                        proof {
                            owner = owner.push(-1);
                        }
                    }
                } else {
                    proof {
                        let t0 = choose|t: int| 0 <= t < i && #[trigger] has_key(files@[t]@, size, hs@);
                        assert(files@[t0].hash.is_some());
                        owner = owner.push(owner[t0]);
                    }
                }
            },
        }
        i += 1;
    }
    proof {
        assert forall|t: int|
            0 <= t < files@.len() && (#[trigger] files@[t]).hash.is_some() && members(
                files@,
                files@[t].size,
                files@[t]@.hash.unwrap(),
            ).len() >= 2 implies exists|g: int|
            0 <= g < r@.len() && r@[g].member_size() == files@[t].size && r@[g].hash@
                == files@[t]@.hash.unwrap() by {
            assert(needs_group(files@, t));
            assert(group_has_key_of(r@, owner[t], files@, t));
        }
    }
    r
}

/// The descriptors whose size is shared by another descriptor of `files`,
/// in input order: the only ones that can have a duplicate, and so the only
/// ones worth hashing. A descriptor with a size of its own is dropped
/// without being hashed.
pub fn size_candidates(files: &Vec<FileInfo>) -> (r: Vec<FileInfo>)
    ensures
        views(r@) == size_candidates_of(files@, files@),
{
    let mut r: Vec<FileInfo> = Vec::new();
    let n = files.len();
    let mut i: usize = 0;
    while i < n
        invariant
            n == files@.len(),
            i <= n,
            views(r@) == size_candidates_of(files@.take(i as int), files@),
        decreases n - i,
    {
        let size = files[i].size;
        let mut count: usize = 0;
        let mut j: usize = 0;
        while j < n
            invariant
                n == files@.len(),
                j <= n,
                count <= j,
                count == size_count(files@.take(j as int), size),
            decreases n - j,
        {
            assert(files@.take(j + 1).drop_last() =~= files@.take(j as int));
            if files[j].size == size {
                count += 1;
            }
            j += 1;
        }
        assert(files@.take(n as int) =~= files@);
        assert(files@.take(i + 1).drop_last() =~= files@.take(i as int));
        if count >= 2 {
            r.push(files[i].duplicate());
            assert(views(r@) =~= views(r@.drop_last()).push(files@[i as int]@));
        }
        i += 1;
    }
    assert(files@.take(n as int) =~= files@);
    r
}

/// Every member of a duplicate group has the group's size and hash: no
/// group mixes files of different sizes.
pub proof fn group_members_share_size(files: Seq<FileInfo>, g: DuplicateGroup)
    requires
        g.is_group_of(files),
    ensures
        forall|k: int|
            0 <= k < g.files@.len() ==> (#[trigger] g.files@[k]).size == g.member_size()
                && opt_text(g.files@[k].hash) == Some(g.hash@),
{
    lemma_members_elements(files, g.member_size(), g.hash@);
    assert forall|k: int| 0 <= k < g.files@.len() implies (#[trigger] g.files@[k]).size
        == g.member_size() && opt_text(g.files@[k].hash) == Some(g.hash@) by {
        assert(views(g.files@)[k] == g.files@[k]@);
        assert(has_key(members(files, g.member_size(), g.hash@)[k], g.member_size(), g.hash@));
    }
}

/// A group's total is its member size times its member count, and its wasted
/// space is that total less one member's size.
pub proof fn group_totals(files: Seq<FileInfo>, g: DuplicateGroup)
    requires
        g.is_group_of(files),
    ensures
        g.total_size == g.files@[0].size * g.files@.len(),
        g.wasted_space == g.total_size - g.files@[0].size,
        g.wasted_space == g.files@[0].size * (g.files@.len() - 1),
{
    assert(g.files@[0].size * g.files@.len() - g.files@[0].size == g.files@[0].size * (
    g.files@.len() - 1)) by (nonlinear_arith);
}

/// Some group of `groups` has exactly the members `m`.
pub open spec fn has_group_with(groups: Seq<DuplicateGroup>, m: Seq<FileInfoView>) -> bool {
    exists|b: int| 0 <= b < groups.len() && views(groups[b].files@) == m
}

/// Grouping the same descriptors twice gives groups of the same members:
/// each group of one grouping has a group of the other with identical
/// membership, whatever order the groups come in.
pub proof fn grouping_is_idempotent(
    files: Seq<FileInfo>,
    first: Seq<DuplicateGroup>,
    second: Seq<DuplicateGroup>,
)
    requires
        is_grouping_of(first, files),
        is_grouping_of(second, files),
    ensures
        forall|a: int|
            0 <= a < first.len() ==> has_group_with(second, views(#[trigger] first[a].files@)),
        forall|b: int|
            0 <= b < second.len() ==> has_group_with(first, views(#[trigger] second[b].files@)),
{
    assert forall|a: int| 0 <= a < first.len() implies has_group_with(
        second,
        views(#[trigger] first[a].files@),
    ) by {
        lemma_matching_group(files, first, second, a);
    }
    assert forall|b: int| 0 <= b < second.len() implies has_group_with(
        first,
        views(#[trigger] second[b].files@),
    ) by {
        lemma_matching_group(files, second, first, b);
    }
}

proof fn lemma_matching_group(
    files: Seq<FileInfo>,
    first: Seq<DuplicateGroup>,
    second: Seq<DuplicateGroup>,
    a: int,
)
    requires
        is_grouping_of(first, files),
        is_grouping_of(second, files),
        0 <= a < first.len(),
    ensures
        has_group_with(second, views(first[a].files@)),
{
    let g = first[a];
    assert(g.is_group_of(files));
    let size = g.member_size();
    let hash = g.hash@;
    lemma_members_elements(files, size, hash);
    let m = members(files, size, hash);
    assert(m.len() >= 2);
    let i = choose|i: int| 0 <= i < files.len() && #[trigger] m[0] == files[i]@;
    assert(has_key(m[0], size, hash));
    assert(files[i].hash.is_some());
    assert(files[i]@.hash.unwrap() == hash);
    let b = choose|b: int|
        0 <= b < second.len() && second[b].member_size() == files[i].size && second[b].hash@
            == files[i]@.hash.unwrap();
    assert(second[b].is_group_of(files));
}

} // verus!
