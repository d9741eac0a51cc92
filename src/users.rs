use std::collections::HashMap;
use vstd::prelude::*;

verus! {

#[verifier::external_type_specification]
#[verifier::external_body]
pub struct ExUuid(uuid::Uuid);

/// Relies on uuid::Uuid::new_v4: a freshly drawn random identifier, of which
/// nothing further is known.
#[verifier::external_body]
fn new_id() -> (r: uuid::Uuid) {
    uuid::Uuid::new_v4()
}

/// An average kept as an exact fraction: `numerator / denominator`.
/// The denominator is never zero; an average over no units is `0 / 1`.
#[derive(Clone, Copy, Debug, PartialEq, Eq, Structural)]
pub struct Ratio {
    pub numerator: u64,
    pub denominator: u64,
}

impl Ratio {
    /// `total / units`, or zero when no unit was observed.
    pub open spec fn spec_of(total: nat, units: nat) -> Ratio {
        if units == 0 {
            Ratio { numerator: 0, denominator: 1 }
        } else {
            Ratio { numerator: total as u64, denominator: units as u64 }
        }
    }

    pub open spec fn wf(self) -> bool {
        self.denominator > 0
    }

    pub open spec fn is_zero(self) -> bool {
        self.numerator == 0
    }

    pub fn of(total: u64, units: u64) -> (r: Ratio)
        ensures
            r == Ratio::spec_of(total as nat, units as nat),
            r.wf(),
    {
        if units == 0 {
            Ratio { numerator: 0, denominator: 1 }
        } else {
            Ratio { numerator: total, denominator: units }
        }
    }
}

/// Contribution statistics of one author.
///
/// The month and day buckets are keyed by month of year and day of month
/// alone, so that the same month of different years shares one bucket.
#[derive(Debug)]
pub struct UserStats {
    pub total_commits: u64,
    pub average_commits_per_day: Ratio,
    pub average_commits_per_month: Ratio,
    pub average_commits_per_year: Ratio,
    pub total_lines_added: u64,
    pub total_lines_removed: u64,
    pub average_lines_added_per_day: Ratio,
    pub average_lines_removed_per_day: Ratio,
    pub average_lines_added_per_month: Ratio,
    pub average_lines_removed_per_month: Ratio,
    pub average_lines_added_per_year: Ratio,
    pub average_lines_removed_per_year: Ratio,
    pub line_changes_per_year: HashMap<i32, u64>,
    pub line_changes_per_month: HashMap<u32, u64>,
    pub line_changes_per_day: HashMap<u32, u64>,
}

impl UserStats {
    /// No activity at all: zero totals, zero averages and empty buckets.
    pub open spec fn is_empty(self) -> bool {
        let zero = Ratio { numerator: 0, denominator: 1 };
        &&& self.total_commits == 0
        &&& self.total_lines_added == 0
        &&& self.total_lines_removed == 0
        &&& self.average_commits_per_day == zero
        &&& self.average_commits_per_month == zero
        &&& self.average_commits_per_year == zero
        &&& self.average_lines_added_per_day == zero
        &&& self.average_lines_removed_per_day == zero
        &&& self.average_lines_added_per_month == zero
        &&& self.average_lines_removed_per_month == zero
        &&& self.average_lines_added_per_year == zero
        &&& self.average_lines_removed_per_year == zero
        &&& self.line_changes_per_year@ == Map::<i32, u64>::empty()
        &&& self.line_changes_per_month@ == Map::<u32, u64>::empty()
        &&& self.line_changes_per_day@ == Map::<u32, u64>::empty()
    }
}

impl Default for UserStats {
    fn default() -> (r: UserStats)
        ensures
            r.is_empty(),
    {
        let zero = Ratio::of(0, 0);
        UserStats {
            total_commits: 0,
            average_commits_per_day: zero,
            average_commits_per_month: zero,
            average_commits_per_year: zero,
            total_lines_added: 0,
            total_lines_removed: 0,
            average_lines_added_per_day: zero,
            average_lines_removed_per_day: zero,
            average_lines_added_per_month: zero,
            average_lines_removed_per_month: zero,
            average_lines_added_per_year: zero,
            average_lines_removed_per_year: zero,
            line_changes_per_year: HashMap::new(),
            line_changes_per_month: HashMap::new(),
            line_changes_per_day: HashMap::new(),
        }
    }
}

/// An author, identified by name and email, with a surrogate id drawn at
/// creation.
#[derive(Debug)]
pub struct UserInfo {
    pub id: uuid::Uuid,
    pub name: String,
    pub email: String,
    pub stats: UserStats,
}

impl UserInfo {
    pub fn new(name: String, email: String) -> (r: UserInfo)
        ensures
            r.name@ == name@,
            r.email@ == email@,
            r.stats.is_empty(),
    {
        UserInfo { id: new_id(), name, email, stats: UserStats::default() }
    }

    pub open spec fn spec_has_not_stats(&self) -> bool {
        self.stats.total_commits == 0 && self.stats.total_lines_added == 0
            && self.stats.total_lines_removed == 0
    }

    /// Whether the author shows no activity at all.
    pub fn has_not_stats(&self) -> (r: bool)
        ensures
            r == self.spec_has_not_stats(),
    {
        self.stats.total_commits == 0 && self.stats.total_lines_added == 0
            && self.stats.total_lines_removed == 0
    }
}

/// Lines inserted and deleted by one diff.
#[derive(Clone, Copy, Debug, PartialEq, Eq, Structural)]
pub struct DiffStat {
    pub insertions: u64,
    pub deletions: u64,
}

pub open spec fn sum_insertions(diffs: Seq<DiffStat>) -> nat
    decreases diffs.len(),
{
    if diffs.len() == 0 {
        0
    } else {
        sum_insertions(diffs.drop_last()) + diffs.last().insertions as nat
    }
}

pub open spec fn sum_deletions(diffs: Seq<DiffStat>) -> nat
    decreases diffs.len(),
{
    if diffs.len() == 0 {
        0
    } else {
        sum_deletions(diffs.drop_last()) + diffs.last().deletions as nat
    }
}

/// The lines changed by one commit, from its diffs against each of its
/// parents (a root commit has one diff, against the empty tree). A merge
/// commit counts the lines of every parent's diff. `None` when a total does
/// not fit in 64 bits.
pub fn lines_changed(diffs: &Vec<DiffStat>) -> (r: Option<DiffStat>)
    ensures
        r is Some <==> sum_insertions(diffs@) <= u64::MAX && sum_deletions(diffs@) <= u64::MAX,
        r matches Some(s) ==> s.insertions == sum_insertions(diffs@) && s.deletions
            == sum_deletions(diffs@),
{
    let mut insertions: u64 = 0;
    let mut deletions: u64 = 0;
    let mut ins_ok = true;
    let mut del_ok = true;
    let mut i: usize = 0;
    while i < diffs.len()
        invariant
            i <= diffs@.len(),
            ins_ok ==> insertions == sum_insertions(diffs@.take(i as int)),
            del_ok ==> deletions == sum_deletions(diffs@.take(i as int)),
            !ins_ok ==> sum_insertions(diffs@.take(i as int)) > u64::MAX,
            !del_ok ==> sum_deletions(diffs@.take(i as int)) > u64::MAX,
        decreases diffs@.len() - i,
    {
        let d = diffs[i];
        assert(diffs@.take(i + 1).drop_last() =~= diffs@.take(i as int));
        if ins_ok {
            match insertions.checked_add(d.insertions) {
                Some(v) => insertions = v,
                None => ins_ok = false,
            }
        }
        if del_ok {
            match deletions.checked_add(d.deletions) {
                Some(v) => deletions = v,
                None => del_ok = false,
            }
        }
        i += 1;
    }
    assert(diffs@.take(diffs@.len() as int) =~= diffs@);
    if ins_ok && del_ok {
        Some(DiffStat { insertions, deletions })
    } else {
        None
    }
}

/// One commit as the repository walk reports it: its author's identity, its
/// time (seconds since the Unix epoch, and the recorded time zone's offset in
/// minutes east of UTC) and the lines it changed.
#[derive(Debug)]
pub struct CommitRecord {
    pub name: String,
    pub email: String,
    pub seconds: i64,
    pub offset_minutes: i32,
    pub insertions: u64,
    pub deletions: u64,
}

/// The identity of an author: name and email.
pub open spec fn identity_of(c: CommitRecord) -> (Seq<char>, Seq<char>) {
    (c.name@, c.email@)
}

/// The distinct author identities of the commits, in order of first appearance.
pub open spec fn distinct_identities(cs: Seq<CommitRecord>) -> Seq<(Seq<char>, Seq<char>)>
    decreases cs.len(),
{
    if cs.len() == 0 {
        Seq::empty()
    } else {
        let prev = distinct_identities(cs.drop_last());
        if prev.contains(identity_of(cs.last())) {
            prev
        } else {
            prev.push(identity_of(cs.last()))
        }
    }
}

pub open spec fn user_identity(u: UserInfo) -> (Seq<char>, Seq<char>) {
    (u.name@, u.email@)
}

/// The authors of the commits, one per distinct `(name, email)` pair, in order
/// of first appearance, each with empty statistics.
pub fn get_users(commits: &Vec<CommitRecord>) -> (r: Vec<UserInfo>)
    ensures
        r@.map_values(|u: UserInfo| user_identity(u)) == distinct_identities(commits@),
        forall|i: int| 0 <= i < r@.len() ==> (#[trigger] r@[i]).stats.is_empty(),
{
    let mut users: Vec<UserInfo> = Vec::new();
    let mut i: usize = 0;
    while i < commits.len()
        invariant
            i <= commits@.len(),
            users@.map_values(|u: UserInfo| user_identity(u)) == distinct_identities(
                commits@.take(i as int),
            ),
            forall|k: int| 0 <= k < users@.len() ==> (#[trigger] users@[k]).stats.is_empty(),
        decreases commits@.len() - i,
    {
        let c = &commits[i];
        assert(commits@.take(i + 1).drop_last() =~= commits@.take(i as int));
        let ghost ids = users@.map_values(|u: UserInfo| user_identity(u));
        let mut found = false;
        let mut j: usize = 0;
        while j < users.len()
            invariant
                j <= users@.len(),
                ids == users@.map_values(|u: UserInfo| user_identity(u)),
                found <==> ids.take(j as int).contains(identity_of(*c)),
            decreases users@.len() - j,
        {
            assert(ids.take(j + 1) =~= ids.take(j as int).push(ids[j as int]));
            assert(ids[j as int] == user_identity(users@[j as int]));
            if users[j].name == c.name && users[j].email == c.email {
                found = true;
            }
            proof {
                let x = identity_of(*c);
                let t = ids.take(j as int);
                let t1 = ids.take(j + 1);
                if t1.contains(x) {
                    let k = choose|k: int| 0 <= k < t1.len() && t1[k] == x;
                    if k < j {
                        assert(t[k] == x);
                    }
                }
                if t.contains(x) {
                    let k = choose|k: int| 0 <= k < t.len() && t[k] == x;
                    assert(t1[k] == x);
                }
                if ids[j as int] == x {
                    assert(t1[j as int] == x);
                }
            }
            j += 1;
        }
        assert(ids.take(users@.len() as int) =~= ids);
        if !found {
            let u = UserInfo::new(c.name.clone(), c.email.clone());
            users.push(u);
            assert(users@.map_values(|u: UserInfo| user_identity(u)) =~= ids.push(identity_of(*c)));
        }
        i += 1;
    }
    assert(commits@.take(commits@.len() as int) =~= commits@);
    users
}

} // verus!
