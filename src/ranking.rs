use vstd::prelude::*;

use crate::users::UserInfo;

verus! {

/// The most commits an author may have and still be dropped from the ranking.
pub const MIN_COMMITS: u64 = 10;

/// An author stays in the ranking when they show some activity and have
/// more than `MIN_COMMITS` commits.
pub open spec fn retained(u: UserInfo) -> bool {
    !u.spec_has_not_stats() && u.stats.total_commits > MIN_COMMITS
}

/// `out` is the retained authors of `input`, ordered by commit count from
/// most to fewest, authors with equal counts in their order in `input`;
/// `pos[k]` is the position in `input` of `out[k]`.
pub open spec fn ranked(input: Seq<UserInfo>, out: Seq<UserInfo>, pos: Seq<int>) -> bool {
    &&& pos.len() == out.len()
    &&& forall|k: int|
        0 <= k < out.len() ==> {
            &&& 0 <= #[trigger] pos[k] < input.len()
            &&& out[k] == input[pos[k]]
            &&& retained(input[pos[k]])
        }
    &&& forall|j: int|
        0 <= j < input.len() && retained(#[trigger] input[j]) ==> exists|k: int|
            0 <= k < pos.len() && pos[k] == j
    &&& forall|a: int, b: int|
        0 <= a < b < out.len() ==> (#[trigger] out[a]).stats.total_commits > (
        #[trigger] out[b]).stats.total_commits || (out[a].stats.total_commits
            == out[b].stats.total_commits && pos[a] < pos[b])
}

/// Ranks the authors: drops those without activity or with at most
/// `MIN_COMMITS` commits, and sorts the rest by commit count, most first,
/// keeping the given order among equal counts.
pub fn rank_users(users: Vec<UserInfo>) -> (r: Vec<UserInfo>)
    ensures
        exists|pos: Seq<int>| ranked(users@, r@, pos),
{
    let ghost input = users@;
    let mut rest = users;
    let mut out: Vec<UserInfo> = Vec::new();
    let ghost mut pos: Seq<int> = Seq::empty();
    while rest.len() > 0
        invariant
            rest@ == input.take(rest@.len() as int),
            rest@.len() <= input.len(),
            pos.len() == out@.len(),
            forall|k: int|
                0 <= k < out@.len() ==> {
                    &&& rest@.len() <= #[trigger] pos[k] < input.len()
                    &&& out@[k] == input[pos[k]]
                    &&& retained(input[pos[k]])
                },
            forall|j: int|
                rest@.len() <= j < input.len() && retained(#[trigger] input[j]) ==> exists|k: int|
                    0 <= k < pos.len() && pos[k] == j,
            forall|a: int, b: int|
                0 <= a < b < out@.len() ==> (#[trigger] out@[a]).stats.total_commits > (
                #[trigger] out@[b]).stats.total_commits || (out@[a].stats.total_commits
                    == out@[b].stats.total_commits && pos[a] < pos[b]),
        decreases rest@.len(),
    {
        let u = rest.pop().unwrap();
        let ghost j = rest@.len() as int;
        assert(input[j] == u);
        assert(rest@ =~= input.take(j));
        if !u.has_not_stats() && u.stats.total_commits > MIN_COMMITS {
            let mut p: usize = 0;
            while p < out.len() && out[p].stats.total_commits > u.stats.total_commits
                invariant
                    p <= out@.len(),
                    forall|k: int|
                        0 <= k < p ==> (#[trigger] out@[k]).stats.total_commits
                            > u.stats.total_commits,
                decreases out@.len() - p,
            {
                p += 1;
            }
            let ghost old_out = out@;
            let ghost old_pos = pos;
            out.insert(p, u);
            proof {
                pos = old_pos.insert(p as int, j);
                assert forall|jj: int|
                    j <= jj < input.len() && retained(#[trigger] input[jj]) implies exists|k: int|
                    0 <= k < pos.len() && pos[k] == jj by {
                    if jj == j {
                        assert(pos[p as int] == jj);
                    } else {
                        let k = choose|k: int| 0 <= k < old_pos.len() && old_pos[k] == jj;
                        if k < p {
                            assert(pos[k] == jj);
                        } else {
                            assert(pos[k + 1] == jj);
                        }
                    }
                }
                assert forall|a: int, b: int| 0 <= a < b < out@.len() implies (
                #[trigger] out@[a]).stats.total_commits > (#[trigger] out@[b]).stats.total_commits
                    || (out@[a].stats.total_commits == out@[b].stats.total_commits && pos[a]
                    < pos[b]) by {
                    if b < p {
                    } else if b == p {
                    } else if a < p {
                        if p < old_out.len() {
                            assert(old_out[p as int].stats.total_commits <= u.stats.total_commits);
                        }
                    } else if a == p {
                        assert(old_out[p as int].stats.total_commits <= u.stats.total_commits);
                        assert(old_pos[b - 1] > j);
                    } else {
                        assert(out@[a] == old_out[a - 1]);
                        assert(out@[b] == old_out[b - 1]);
                    }
                }
            }
        }
    }
    proof {
        assert(ranked(input, out@, pos));
    }
    out
}

} // verus!
