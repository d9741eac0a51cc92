use std::collections::HashMap;
use vstd::prelude::*;

use crate::calendar::{commit_date, commit_date_of, CalendarDate, MAX_SECONDS};
use crate::users::{CommitRecord, Ratio, UserInfo, UserStats};

verus! {

broadcast use vstd::std_specs::hash::group_hash_axioms;

/// Why the statistics could not be computed.
#[derive(Clone, Copy, Debug, PartialEq, Eq, Structural)]
pub enum StatsError {
    /// A commit's time or time zone offset has no calendar date.
    InvalidCommitTime,
    /// The history holds more commits and changed lines than 64-bit counters hold.
    Overflow,
}

pub open spec fn authored_by(c: CommitRecord, name: Seq<char>, email: Seq<char>) -> bool {
    c.name@ == name && c.email@ == email
}

/// The number of commits by the author.
pub open spec fn commit_count(cs: Seq<CommitRecord>, name: Seq<char>, email: Seq<char>) -> nat
    decreases cs.len(),
{
    if cs.len() == 0 {
        0
    } else {
        commit_count(cs.drop_last(), name, email) + if authored_by(cs.last(), name, email) {
            1nat
        } else {
            0nat
        }
    }
}

/// The lines inserted by the author's commits.
pub open spec fn lines_added(cs: Seq<CommitRecord>, name: Seq<char>, email: Seq<char>) -> nat
    decreases cs.len(),
{
    if cs.len() == 0 {
        0
    } else {
        lines_added(cs.drop_last(), name, email) + if authored_by(cs.last(), name, email) {
            cs.last().insertions as nat
        } else {
            0nat
        }
    }
}

/// The lines deleted by the author's commits.
pub open spec fn lines_removed(cs: Seq<CommitRecord>, name: Seq<char>, email: Seq<char>) -> nat
    decreases cs.len(),
{
    if cs.len() == 0 {
        0
    } else {
        lines_removed(cs.drop_last(), name, email) + if authored_by(cs.last(), name, email) {
            cs.last().deletions as nat
        } else {
            0nat
        }
    }
}

/// Each of the author's commits counted once, plus every line it changed: a
/// bound on each counter of the author's statistics.
pub open spec fn author_volume(cs: Seq<CommitRecord>, name: Seq<char>, email: Seq<char>) -> nat
    decreases cs.len(),
{
    if cs.len() == 0 {
        0
    } else {
        author_volume(cs.drop_last(), name, email) + if authored_by(cs.last(), name, email) {
            1 + cs.last().insertions as nat + cs.last().deletions as nat
        } else {
            0nat
        }
    }
}

pub open spec fn date_key() -> spec_fn(CalendarDate) -> CalendarDate {
    |d: CalendarDate| d
}

pub open spec fn year_key() -> spec_fn(CalendarDate) -> i32 {
    |d: CalendarDate| d.year
}

pub open spec fn month_key() -> spec_fn(CalendarDate) -> u32 {
    |d: CalendarDate| d.month
}

pub open spec fn day_key() -> spec_fn(CalendarDate) -> u32 {
    |d: CalendarDate| d.day
}

/// The calendar units (dates, years, months of year or days of month, as
/// `key` picks) on which the author committed; `ds[i]` is the date of `cs[i]`.
pub open spec fn active_keys<K>(
    cs: Seq<CommitRecord>,
    ds: Seq<CalendarDate>,
    name: Seq<char>,
    email: Seq<char>,
    key: spec_fn(CalendarDate) -> K,
) -> Set<K>
    decreases cs.len(),
{
    if cs.len() == 0 {
        Set::empty()
    } else {
        let prev = active_keys(cs.drop_last(), ds.drop_last(), name, email, key);
        if authored_by(cs.last(), name, email) {
            prev.insert(key(ds.last()))
        } else {
            prev
        }
    }
}

/// The lines inserted plus deleted by the author's commits whose date falls
/// in the unit `k`.
pub open spec fn key_changes<K>(
    cs: Seq<CommitRecord>,
    ds: Seq<CalendarDate>,
    name: Seq<char>,
    email: Seq<char>,
    key: spec_fn(CalendarDate) -> K,
    k: K,
) -> nat
    decreases cs.len(),
{
    if cs.len() == 0 {
        0
    } else {
        key_changes(cs.drop_last(), ds.drop_last(), name, email, key, k) + if authored_by(
            cs.last(),
            name,
            email,
        ) && key(ds.last()) == k {
            cs.last().insertions as nat + cs.last().deletions as nat
        } else {
            0nat
        }
    }
}

/// A bucket map holds one entry per unit the author was active in, with the
/// lines changed in that unit.
pub open spec fn buckets_match<K>(
    m: Map<K, u64>,
    cs: Seq<CommitRecord>,
    ds: Seq<CalendarDate>,
    name: Seq<char>,
    email: Seq<char>,
    key: spec_fn(CalendarDate) -> K,
) -> bool {
    &&& m.dom() == active_keys(cs, ds, name, email, key)
    &&& forall|k: K| #[trigger]
        m.contains_key(k) ==> m[k] == key_changes(cs, ds, name, email, key, k)
}

/// The statistics of the author `(name, email)` over the commits `cs` dated `ds`.
pub open spec fn stats_match(
    s: UserStats,
    cs: Seq<CommitRecord>,
    ds: Seq<CalendarDate>,
    name: Seq<char>,
    email: Seq<char>,
) -> bool {
    let commits = commit_count(cs, name, email);
    let added = lines_added(cs, name, email);
    let removed = lines_removed(cs, name, email);
    let days = active_keys(cs, ds, name, email, date_key()).len();
    let months = active_keys(cs, ds, name, email, month_key()).len();
    let years = active_keys(cs, ds, name, email, year_key()).len();
    &&& s.total_commits == commits
    &&& s.total_lines_added == added
    &&& s.total_lines_removed == removed
    &&& s.average_commits_per_day == Ratio::spec_of(commits, days)
    &&& s.average_commits_per_month == Ratio::spec_of(commits, months)
    &&& s.average_commits_per_year == Ratio::spec_of(commits, years)
    &&& s.average_lines_added_per_day == Ratio::spec_of(added, days)
    &&& s.average_lines_removed_per_day == Ratio::spec_of(removed, days)
    &&& s.average_lines_added_per_month == Ratio::spec_of(added, months)
    &&& s.average_lines_removed_per_month == Ratio::spec_of(removed, months)
    &&& s.average_lines_added_per_year == Ratio::spec_of(added, years)
    &&& s.average_lines_removed_per_year == Ratio::spec_of(removed, years)
    &&& buckets_match(s.line_changes_per_year@, cs, ds, name, email, year_key())
    &&& buckets_match(s.line_changes_per_month@, cs, ds, name, email, month_key())
    &&& buckets_match(s.line_changes_per_day@, cs, ds, name, email, day_key())
}

/// `after` is `before` with the statistics of every author computed from the
/// commits `cs` dated `ds`; ids and identities are kept.
pub open spec fn aggregated(
    before: Seq<UserInfo>,
    after: Seq<UserInfo>,
    cs: Seq<CommitRecord>,
    ds: Seq<CalendarDate>,
) -> bool {
    &&& after.len() == before.len()
    &&& forall|i: int|
        0 <= i < after.len() ==> {
            &&& (#[trigger] after[i]).id == before[i].id
            &&& after[i].name == before[i].name
            &&& after[i].email == before[i].email
            &&& stats_match(after[i].stats, cs, ds, before[i].name@, before[i].email@)
        }
}

proof fn lemma_prefix_step<A>(s: Seq<A>, i: int)
    requires
        0 <= i < s.len(),
    ensures
        s.take(i + 1).drop_last() == s.take(i),
        s.take(i + 1).last() == s[i],
{
    assert(s.take(i + 1).drop_last() =~= s.take(i));
}

proof fn lemma_volume_prefix(cs: Seq<CommitRecord>, i: int, name: Seq<char>, email: Seq<char>)
    requires
        0 <= i <= cs.len(),
    ensures
        author_volume(cs.take(i), name, email) <= author_volume(cs, name, email),
    decreases cs.len(),
{
    if i < cs.len() {
        assert(cs.drop_last().take(i) =~= cs.take(i));
        lemma_volume_prefix(cs.drop_last(), i, name, email);
    } else {
        assert(cs.take(i) =~= cs);
    }
}

proof fn lemma_totals_bounded(cs: Seq<CommitRecord>, name: Seq<char>, email: Seq<char>)
    ensures
        commit_count(cs, name, email) + lines_added(cs, name, email) + lines_removed(
            cs,
            name,
            email,
        ) <= author_volume(cs, name, email),
    decreases cs.len(),
{
    if cs.len() > 0 {
        lemma_totals_bounded(cs.drop_last(), name, email);
    }
}

proof fn lemma_changes_bounded<K>(
    cs: Seq<CommitRecord>,
    ds: Seq<CalendarDate>,
    name: Seq<char>,
    email: Seq<char>,
    key: spec_fn(CalendarDate) -> K,
    k: K,
)
    ensures
        key_changes(cs, ds, name, email, key, k) <= lines_added(cs, name, email) + lines_removed(
            cs,
            name,
            email,
        ),
        !active_keys(cs, ds, name, email, key).contains(k) ==> key_changes(
            cs,
            ds,
            name,
            email,
            key,
            k,
        ) == 0,
    decreases cs.len(),
{
    if cs.len() > 0 {
        lemma_changes_bounded(cs.drop_last(), ds.drop_last(), name, email, key, k);
    }
}

/// Adds `v` to the bucket `k`, opening it at `v` when it is absent.
fn add_to_bucket<K: std::hash::Hash + Eq + Copy>(m: &mut HashMap<K, u64>, k: K, v: u64)
    requires
        vstd::std_specs::hash::obeys_key_model::<K>(),
        old(m)@.contains_key(k) ==> old(m)@[k] + v <= u64::MAX,
    ensures
        final(m)@ == old(m)@.insert(
            k,
            if old(m)@.contains_key(k) {
                (old(m)@[k] + v) as u64
            } else {
                v
            },
        ),
{
    let current: u64 = match m.get(&k) {
        Some(x) => *x,
        None => 0,
    };
    m.insert(k, current + v);
}

/// Adds `d` to a list of distinct dates.
fn insert_date(v: &mut Vec<CalendarDate>, d: CalendarDate)
    requires
        old(v)@.no_duplicates(),
    ensures
        final(v)@.no_duplicates(),
        final(v)@.to_set() == old(v)@.to_set().insert(d),
{
    let mut found = false;
    let mut j: usize = 0;
    while j < v.len()
        invariant
            j <= v@.len(),
            found <==> exists|k: int| 0 <= k < j && v@[k] == d,
        decreases v@.len() - j,
    {
        if v[j] == d {
            found = true;
        }
        j += 1;
    }
    proof {
        v@.lemma_push_to_set_commute(d);
    }
    if !found {
        v.push(d);
    } else {
        assert(v@.to_set().insert(d) =~= v@.to_set());
    }
}

/// The statistics of the author `(name, email)` over the commits, whose
/// local dates are `dates`.
fn stats_for(
    name: &String,
    email: &String,
    commits: &Vec<CommitRecord>,
    dates: &Vec<CalendarDate>,
) -> (s: UserStats)
    requires
        dates@.len() == commits@.len(),
        author_volume(commits@, name@, email@) <= u64::MAX,
    ensures
        stats_match(s, commits@, dates@, name@, email@),
{
    let ghost cs = commits@;
    let ghost ds = dates@;
    let mut count: u64 = 0;
    let mut added: u64 = 0;
    let mut removed: u64 = 0;
    let mut days: Vec<CalendarDate> = Vec::new();
    let mut per_year: HashMap<i32, u64> = HashMap::new();
    let mut per_month: HashMap<u32, u64> = HashMap::new();
    let mut per_day: HashMap<u32, u64> = HashMap::new();
    let mut i: usize = 0;
    while i < commits.len()
        invariant
            i <= cs.len(),
            cs == commits@,
            ds == dates@,
            ds.len() == cs.len(),
            author_volume(cs, name@, email@) <= u64::MAX,
            count == commit_count(cs.take(i as int), name@, email@),
            added == lines_added(cs.take(i as int), name@, email@),
            removed == lines_removed(cs.take(i as int), name@, email@),
            days@.no_duplicates(),
            days@.to_set() == active_keys(
                cs.take(i as int),
                ds.take(i as int),
                name@,
                email@,
                date_key(),
            ),
            buckets_match(
                per_year@,
                cs.take(i as int),
                ds.take(i as int),
                name@,
                email@,
                year_key(),
            ),
            buckets_match(
                per_month@,
                cs.take(i as int),
                ds.take(i as int),
                name@,
                email@,
                month_key(),
            ),
            buckets_match(per_day@, cs.take(i as int), ds.take(i as int), name@, email@, day_key()),
        decreases cs.len() - i,
    {
        let c = &commits[i];
        let ghost cs0 = cs.take(i as int);
        let ghost ds0 = ds.take(i as int);
        let ghost cs1 = cs.take(i + 1);
        let ghost ds1 = ds.take(i + 1);
        proof {
            lemma_prefix_step(cs, i as int);
            lemma_prefix_step(ds, i as int);
            lemma_volume_prefix(cs, i + 1, name@, email@);
            lemma_totals_bounded(cs1, name@, email@);
        }
        if c.name == *name && c.email == *email {
            let d = dates[i];
            let change = c.insertions + c.deletions;
            count = count + 1;
            added = added + c.insertions;
            removed = removed + c.deletions;
            insert_date(&mut days, d);
            proof {
                lemma_changes_bounded(cs1, ds1, name@, email@, year_key(), d.year);
                lemma_changes_bounded(cs1, ds1, name@, email@, month_key(), d.month);
                lemma_changes_bounded(cs1, ds1, name@, email@, day_key(), d.day);
                lemma_changes_bounded(cs0, ds0, name@, email@, year_key(), d.year);
                lemma_changes_bounded(cs0, ds0, name@, email@, month_key(), d.month);
                lemma_changes_bounded(cs0, ds0, name@, email@, day_key(), d.day);
            }
            add_to_bucket(&mut per_year, d.year, change);
            add_to_bucket(&mut per_month, d.month, change);
            add_to_bucket(&mut per_day, d.day, change);
            proof {
                assert(per_year@.dom() =~= active_keys(cs1, ds1, name@, email@, year_key()));
                assert(per_month@.dom() =~= active_keys(cs1, ds1, name@, email@, month_key()));
                assert(per_day@.dom() =~= active_keys(cs1, ds1, name@, email@, day_key()));
            }
        }
        i += 1;
    }
    proof {
        assert(cs.take(cs.len() as int) =~= cs);
        assert(ds.take(ds.len() as int) =~= ds);
        days@.unique_seq_to_set();
    }
    let n_days = days.len() as u64;
    let n_months = per_month.len() as u64;
    let n_years = per_year.len() as u64;
    UserStats {
        total_commits: count,
        average_commits_per_day: Ratio::of(count, n_days),
        average_commits_per_month: Ratio::of(count, n_months),
        average_commits_per_year: Ratio::of(count, n_years),
        total_lines_added: added,
        total_lines_removed: removed,
        average_lines_added_per_day: Ratio::of(added, n_days),
        average_lines_removed_per_day: Ratio::of(removed, n_days),
        average_lines_added_per_month: Ratio::of(added, n_months),
        average_lines_removed_per_month: Ratio::of(removed, n_months),
        average_lines_added_per_year: Ratio::of(added, n_years),
        average_lines_removed_per_year: Ratio::of(removed, n_years),
        line_changes_per_year: per_year,
        line_changes_per_month: per_month,
        line_changes_per_day: per_day,
    }
}

/// Computes the statistics of every author from the commits, whose local
/// dates are `dates` (`dates[i]` is the date of `commits[i]`). A commit whose
/// identity matches no author is skipped; an author without commits keeps
/// empty statistics.
pub fn aggregate(users: &mut Vec<UserInfo>, commits: &Vec<CommitRecord>, dates: &Vec<CalendarDate>)
    requires
        dates@.len() == commits@.len(),
        volumes_fit(commits@, old(users)@),
    ensures
        aggregated(old(users)@, final(users)@, commits@, dates@),
{
    let ghost before = users@;
    let mut i: usize = 0;
    while i < users.len()
        invariant
            i <= users@.len(),
            users@.len() == before.len(),
            dates@.len() == commits@.len(),
            volumes_fit(commits@, before),
            forall|k: int| i <= k < users@.len() ==> #[trigger] users@[k] == before[k],
            forall|k: int|
                0 <= k < i ==> {
                    &&& (#[trigger] users@[k]).id == before[k].id
                    &&& users@[k].name == before[k].name
                    &&& users@[k].email == before[k].email
                    &&& stats_match(users@[k].stats, commits@, dates@, before[k].name@, before[k].email@)
                },
        decreases users@.len() - i,
    {
        let stats = stats_for(&users[i].name, &users[i].email, commits, dates);
        let updated = UserInfo {
            id: users[i].id,
            name: users[i].name.clone(),
            email: users[i].email.clone(),
            stats,
        };
        users.set(i, updated);
        i += 1;
    }
}

/// Whether some author of `users` has the identity of the commit.
pub open spec fn known(c: CommitRecord, users: Seq<UserInfo>) -> bool {
    exists|j: int| 0 <= j < users.len() && #[trigger] authored_by(c, users[j].name@, users[j].email@)
}

/// Every commit of a known author has a local date.
pub open spec fn known_dated(cs: Seq<CommitRecord>, users: Seq<UserInfo>) -> bool {
    forall|i: int|
        0 <= i < cs.len() && known(cs[i], users) ==> (#[trigger] commit_date_of(
            cs[i].seconds,
            cs[i].offset_minutes,
        )) is Some
}

/// Every commit of a known author has a time within `MAX_SECONDS` of the
/// epoch and an offset of less than a day.
pub open spec fn known_in_range(cs: Seq<CommitRecord>, users: Seq<UserInfo>) -> bool {
    forall|i: int|
        0 <= i < cs.len() && #[trigger] known(cs[i], users) ==> -MAX_SECONDS <= cs[i].seconds
            <= MAX_SECONDS && -1440 < cs[i].offset_minutes < 1440
}

/// The statistics of every author fit the 64-bit counters.
pub open spec fn volumes_fit(cs: Seq<CommitRecord>, users: Seq<UserInfo>) -> bool {
    forall|j: int|
        0 <= j < users.len() ==> author_volume(cs, (#[trigger] users[j]).name@, users[j].email@)
            <= u64::MAX
}

/// The local date of each commit (of no meaning for a commit without one).
pub open spec fn dates_of(cs: Seq<CommitRecord>) -> Seq<CalendarDate> {
    Seq::new(cs.len(), |i: int| commit_date_of(cs[i].seconds, cs[i].offset_minutes)->Some_0)
}

fn is_known(users: &Vec<UserInfo>, c: &CommitRecord) -> (r: bool)
    ensures
        r == known(*c, users@),
{
    let mut j: usize = 0;
    while j < users.len()
        invariant
            j <= users@.len(),
            forall|k: int|
                0 <= k < j ==> !#[trigger] authored_by(*c, users@[k].name@, users@[k].email@),
        decreases users@.len() - j,
    {
        if users[j].name == c.name && users[j].email == c.email {
            assert(authored_by(*c, users@[j as int].name@, users@[j as int].email@));
            return true;
        }
        j += 1;
    }
    false
}

/// The author's volume, or `None` when it exceeds the 64-bit counters.
fn author_volume_of(name: &String, email: &String, commits: &Vec<CommitRecord>) -> (r: Option<u64>)
    ensures
        r is Some <==> author_volume(commits@, name@, email@) <= u64::MAX,
        r matches Some(v) ==> v == author_volume(commits@, name@, email@),
{
    let ghost cs = commits@;
    let mut total: u64 = 0;
    let mut i: usize = 0;
    while i < commits.len()
        invariant
            i <= cs.len(),
            cs == commits@,
            total == author_volume(cs.take(i as int), name@, email@),
        decreases cs.len() - i,
    {
        let c = &commits[i];
        proof {
            lemma_prefix_step(cs, i as int);
            lemma_volume_prefix(cs, i + 1, name@, email@);
        }
        if c.name == *name && c.email == *email {
            let step = match c.insertions.checked_add(c.deletions) {
                Some(x) => x.checked_add(1),
                None => None,
            };
            let next = match step {
                Some(x) => total.checked_add(x),
                None => None,
            };
            match next {
                Some(x) => total = x,
                None => return None,
            }
        }
        i += 1;
    }
    assert(cs.take(cs.len() as int) =~= cs);
    Some(total)
}

proof fn lemma_active_keys_dates<K>(
    cs: Seq<CommitRecord>,
    d1: Seq<CalendarDate>,
    d2: Seq<CalendarDate>,
    name: Seq<char>,
    email: Seq<char>,
    key: spec_fn(CalendarDate) -> K,
)
    requires
        d1.len() == cs.len(),
        d2.len() == cs.len(),
        forall|i: int| 0 <= i < cs.len() && authored_by(cs[i], name, email) ==> d1[i] == d2[i],
    ensures
        active_keys(cs, d1, name, email, key) == active_keys(cs, d2, name, email, key),
    decreases cs.len(),
{
    if cs.len() > 0 {
        assert forall|i: int|
            0 <= i < cs.len() - 1 && authored_by(cs.drop_last()[i], name, email) implies d1.drop_last()[i]
            == d2.drop_last()[i] by {
            assert(cs.drop_last()[i] == cs[i]);
        }
        lemma_active_keys_dates(cs.drop_last(), d1.drop_last(), d2.drop_last(), name, email, key);
    }
}

proof fn lemma_key_changes_dates<K>(
    cs: Seq<CommitRecord>,
    d1: Seq<CalendarDate>,
    d2: Seq<CalendarDate>,
    name: Seq<char>,
    email: Seq<char>,
    key: spec_fn(CalendarDate) -> K,
    k: K,
)
    requires
        d1.len() == cs.len(),
        d2.len() == cs.len(),
        forall|i: int| 0 <= i < cs.len() && authored_by(cs[i], name, email) ==> d1[i] == d2[i],
    ensures
        key_changes(cs, d1, name, email, key, k) == key_changes(cs, d2, name, email, key, k),
    decreases cs.len(),
{
    if cs.len() > 0 {
        assert forall|i: int|
            0 <= i < cs.len() - 1 && authored_by(cs.drop_last()[i], name, email) implies d1.drop_last()[i]
            == d2.drop_last()[i] by {
            assert(cs.drop_last()[i] == cs[i]);
        }
        lemma_key_changes_dates(cs.drop_last(), d1.drop_last(), d2.drop_last(), name, email, key, k);
    }
}

proof fn lemma_buckets_dates<K>(
    m: Map<K, u64>,
    cs: Seq<CommitRecord>,
    d1: Seq<CalendarDate>,
    d2: Seq<CalendarDate>,
    name: Seq<char>,
    email: Seq<char>,
    key: spec_fn(CalendarDate) -> K,
)
    requires
        buckets_match(m, cs, d1, name, email, key),
        d1.len() == cs.len(),
        d2.len() == cs.len(),
        forall|i: int| 0 <= i < cs.len() && authored_by(cs[i], name, email) ==> d1[i] == d2[i],
    ensures
        buckets_match(m, cs, d2, name, email, key),
{
    assert forall|k: K| #[trigger] m.contains_key(k) implies m[k] == key_changes(
        cs,
        d2,
        name,
        email,
        key,
        k,
    ) by {
        lemma_key_changes_dates(cs, d1, d2, name, email, key, k);
    }
    lemma_active_keys_dates(cs, d1, d2, name, email, key);
}

/// The statistics of an author read only the dates of the author's own commits.
proof fn lemma_stats_match_dates(
    s: UserStats,
    cs: Seq<CommitRecord>,
    d1: Seq<CalendarDate>,
    d2: Seq<CalendarDate>,
    name: Seq<char>,
    email: Seq<char>,
)
    requires
        stats_match(s, cs, d1, name, email),
        d1.len() == cs.len(),
        d2.len() == cs.len(),
        forall|i: int| 0 <= i < cs.len() && authored_by(cs[i], name, email) ==> d1[i] == d2[i],
    ensures
        stats_match(s, cs, d2, name, email),
{
    lemma_active_keys_dates(cs, d1, d2, name, email, date_key());
    lemma_active_keys_dates(cs, d1, d2, name, email, month_key());
    lemma_active_keys_dates(cs, d1, d2, name, email, year_key());
    lemma_buckets_dates(s.line_changes_per_year@, cs, d1, d2, name, email, year_key());
    lemma_buckets_dates(s.line_changes_per_month@, cs, d1, d2, name, email, month_key());
    lemma_buckets_dates(s.line_changes_per_day@, cs, d1, d2, name, email, day_key());
}

/// Computes the statistics of every author from the commits of a repository
/// walk, each dated in its own recorded time zone. Commits of no known author
/// are skipped without being dated. Fails, leaving the authors as they were,
/// when a commit of a known author has no calendar date or when an author's
/// totals would not fit the counters.
pub fn update_user_stats(users: &mut Vec<UserInfo>, commits: &Vec<CommitRecord>) -> (r: Result<
    (),
    StatsError,
>)
    ensures
        r is Ok <==> known_dated(commits@, old(users)@) && volumes_fit(commits@, old(users)@),
        r == Err::<(), StatsError>(StatsError::InvalidCommitTime) <==> !known_dated(
            commits@,
            old(users)@,
        ),
        known_in_range(commits@, old(users)@) && volumes_fit(commits@, old(users)@) ==> r is Ok,
        r is Err ==> final(users)@ == old(users)@,
        r is Ok ==> aggregated(old(users)@, final(users)@, commits@, dates_of(commits@)),
{
    let ghost cs = commits@;
    let ghost before = users@;
    let mut dates: Vec<CalendarDate> = Vec::new();
    let mut i: usize = 0;
    while i < commits.len()
        invariant
            i <= cs.len(),
            cs == commits@,
            before == users@,
            dates@.len() == i,
            forall|k: int|
                0 <= k < i && known(cs[k], before) ==> (#[trigger] commit_date_of(
                    cs[k].seconds,
                    cs[k].offset_minutes,
                )) is Some && dates@[k] == dates_of(cs)[k],
        decreases cs.len() - i,
    {
        if is_known(users, &commits[i]) {
            match commit_date(commits[i].seconds, commits[i].offset_minutes) {
                Some(d) => dates.push(d),
                None => {
                    return Err(StatsError::InvalidCommitTime);
                },
            }
        } else {
            dates.push(CalendarDate { year: 1970, month: 1, day: 1 });
        }
        i += 1;
    }
    let mut j: usize = 0;
    while j < users.len()
        invariant
            j <= before.len(),
            cs == commits@,
            before == users@,
            known_dated(cs, before),
            forall|k: int|
                0 <= k < j ==> author_volume(cs, (#[trigger] before[k]).name@, before[k].email@)
                    <= u64::MAX,
        decreases before.len() - j,
    {
        match author_volume_of(&users[j].name, &users[j].email, commits) {
            Some(_) => {},
            None => return Err(StatsError::Overflow),
        }
        j += 1;
    }
    aggregate(users, commits, &dates);
    proof {
        let after = users@;
        assert forall|k: int| 0 <= k < after.len() implies stats_match(
            (#[trigger] after[k]).stats,
            cs,
            dates_of(cs),
            before[k].name@,
            before[k].email@,
        ) by {
            assert forall|i: int|
                0 <= i < cs.len() && authored_by(
                    cs[i],
                    before[k].name@,
                    before[k].email@,
                ) implies dates@[i] == dates_of(cs)[i] by {
                assert(known(cs[i], before));
            }
            lemma_stats_match_dates(
                after[k].stats,
                cs,
                dates@,
                dates_of(cs),
                before[k].name@,
                before[k].email@,
            );
        }
    }
    Ok(())
}

proof fn lemma_no_commits_no_keys<K>(
    cs: Seq<CommitRecord>,
    ds: Seq<CalendarDate>,
    name: Seq<char>,
    email: Seq<char>,
    key: spec_fn(CalendarDate) -> K,
)
    requires
        commit_count(cs, name, email) == 0,
    ensures
        active_keys(cs, ds, name, email, key) == Set::<K>::empty(),
    decreases cs.len(),
{
    if cs.len() > 0 {
        lemma_no_commits_no_keys(cs.drop_last(), ds.drop_last(), name, email, key);
    }
}

/// An author without commits has every average equal to zero, over a
/// non-zero denominator.
pub proof fn lemma_no_commits_zero_averages(
    s: UserStats,
    cs: Seq<CommitRecord>,
    ds: Seq<CalendarDate>,
    name: Seq<char>,
    email: Seq<char>,
)
    requires
        stats_match(s, cs, ds, name, email),
        commit_count(cs, name, email) == 0,
    ensures
        s.average_commits_per_day.is_zero() && s.average_commits_per_day.wf(),
        s.average_commits_per_month.is_zero() && s.average_commits_per_month.wf(),
        s.average_commits_per_year.is_zero() && s.average_commits_per_year.wf(),
        s.average_lines_added_per_day.is_zero() && s.average_lines_added_per_day.wf(),
        s.average_lines_removed_per_day.is_zero() && s.average_lines_removed_per_day.wf(),
        s.average_lines_added_per_month.is_zero() && s.average_lines_added_per_month.wf(),
        s.average_lines_removed_per_month.is_zero() && s.average_lines_removed_per_month.wf(),
        s.average_lines_added_per_year.is_zero() && s.average_lines_added_per_year.wf(),
        s.average_lines_removed_per_year.is_zero() && s.average_lines_removed_per_year.wf(),
{
    lemma_no_commits_no_keys(cs, ds, name, email, date_key());
    lemma_no_commits_no_keys(cs, ds, name, email, month_key());
    lemma_no_commits_no_keys(cs, ds, name, email, year_key());
}

proof fn lemma_commit_count_remove(cs: Seq<CommitRecord>, j: int, name: Seq<char>, email: Seq<char>)
    requires
        0 <= j < cs.len(),
    ensures
        commit_count(cs, name, email) == commit_count(cs.remove(j), name, email) + if authored_by(
            cs[j],
            name,
            email,
        ) {
            1nat
        } else {
            0nat
        },
    decreases cs.len(),
{
    if j == cs.len() - 1 {
        assert(cs.remove(j) =~= cs.drop_last());
    } else {
        assert(cs.remove(j).drop_last() =~= cs.drop_last().remove(j));
        assert(cs.remove(j).last() == cs.last());
        lemma_commit_count_remove(cs.drop_last(), j, name, email);
    }
}

/// An author's commit count does not depend on the order in which the
/// commits are processed: two walks holding the same commits, in any order,
/// give the same count.
pub proof fn lemma_commit_count_order_independent(
    a: Seq<CommitRecord>,
    b: Seq<CommitRecord>,
    name: Seq<char>,
    email: Seq<char>,
)
    requires
        a.to_multiset() == b.to_multiset(),
    ensures
        commit_count(a, name, email) == commit_count(b, name, email),
    decreases a.len(),
{
    broadcast use vstd::seq_lib::group_to_multiset_ensures;

    if a.len() == 0 {
        assert(b.to_multiset().len() == 0);
    } else {
        let x = a.last();
        assert(a.drop_last().push(x) =~= a);
        assert(a.to_multiset().count(x) > 0);
        assert(b.contains(x));
        let j = choose|j: int| 0 <= j < b.len() && b[j] == x;
        assert(a.drop_last().to_multiset() =~= b.remove(j).to_multiset());
        lemma_commit_count_order_independent(a.drop_last(), b.remove(j), name, email);
        lemma_commit_count_remove(b, j, name, email);
    }
}

proof fn lemma_dates_of_shape(cs: Seq<CommitRecord>, j: int)
    requires
        0 <= j < cs.len(),
    ensures
        dates_of(cs.drop_last()) == dates_of(cs).drop_last(),
        dates_of(cs.remove(j)) == dates_of(cs).remove(j),
{
    assert(dates_of(cs.drop_last()) =~= dates_of(cs).drop_last());
    assert(dates_of(cs.remove(j)) =~= dates_of(cs).remove(j));
}

proof fn lemma_remove_one<K>(
    cs: Seq<CommitRecord>,
    j: int,
    name: Seq<char>,
    email: Seq<char>,
    key: spec_fn(CalendarDate) -> K,
    k: K,
)
    requires
        0 <= j < cs.len(),
    ensures
        ({
            let r = cs.remove(j);
            let x = cs[j];
            let mine = authored_by(x, name, email);
            let date = dates_of(cs)[j];
            &&& lines_added(cs, name, email) == lines_added(r, name, email) + if mine {
                x.insertions as nat
            } else {
                0nat
            }
            &&& lines_removed(cs, name, email) == lines_removed(r, name, email) + if mine {
                x.deletions as nat
            } else {
                0nat
            }
            &&& active_keys(cs, dates_of(cs), name, email, key) == if mine {
                active_keys(r, dates_of(r), name, email, key).insert(key(date))
            } else {
                active_keys(r, dates_of(r), name, email, key)
            }
            &&& key_changes(cs, dates_of(cs), name, email, key, k) == key_changes(
                r,
                dates_of(r),
                name,
                email,
                key,
                k,
            ) + if mine && key(date) == k {
                x.insertions as nat + x.deletions as nat
            } else {
                0nat
            }
        }),
    decreases cs.len(),
{
    lemma_dates_of_shape(cs, j);
    if j == cs.len() - 1 {
        assert(cs.remove(j) =~= cs.drop_last());
    } else {
        let r = cs.remove(j);
        assert(r.drop_last() =~= cs.drop_last().remove(j));
        assert(r.last() == cs.last());
        lemma_dates_of_shape(r, 0);
        lemma_dates_of_shape(cs.drop_last(), j);
        assert(dates_of(r).last() == dates_of(cs).last());
        assert(dates_of(cs.drop_last())[j] == dates_of(cs)[j]);
        lemma_remove_one(cs.drop_last(), j, name, email, key, k);
        let prev = active_keys(cs.drop_last().remove(j), dates_of(cs.drop_last().remove(j)), name, email, key);
        if authored_by(cs[j], name, email) && authored_by(cs.last(), name, email) {
            let a = key(dates_of(cs)[j]);
            let b = key(dates_of(cs).last());
            assert(prev.insert(a).insert(b) =~= prev.insert(b).insert(a));
        }
    }
}

proof fn lemma_permutation<K>(
    a: Seq<CommitRecord>,
    b: Seq<CommitRecord>,
    name: Seq<char>,
    email: Seq<char>,
    key: spec_fn(CalendarDate) -> K,
    k: K,
)
    requires
        a.to_multiset() == b.to_multiset(),
    ensures
        lines_added(a, name, email) == lines_added(b, name, email),
        lines_removed(a, name, email) == lines_removed(b, name, email),
        active_keys(a, dates_of(a), name, email, key) == active_keys(
            b,
            dates_of(b),
            name,
            email,
            key,
        ),
        key_changes(a, dates_of(a), name, email, key, k) == key_changes(
            b,
            dates_of(b),
            name,
            email,
            key,
            k,
        ),
    decreases a.len(),
{
    broadcast use vstd::seq_lib::group_to_multiset_ensures;

    if a.len() == 0 {
        assert(b.to_multiset().len() == 0);
    } else {
        let x = a.last();
        assert(a.drop_last().push(x) =~= a);
        assert(a.to_multiset().count(x) > 0);
        assert(b.contains(x));
        let j = choose|j: int| 0 <= j < b.len() && b[j] == x;
        assert(a.drop_last().to_multiset() =~= b.remove(j).to_multiset());
        lemma_permutation(a.drop_last(), b.remove(j), name, email, key, k);
        lemma_remove_one(b, j, name, email, key, k);
        lemma_dates_of_shape(a, 0);
        lemma_dates_of_shape(b, j);
        assert(dates_of(a).last() == dates_of(b)[j]);
    }
}

proof fn lemma_buckets_order_independent<K>(
    m1: Map<K, u64>,
    m2: Map<K, u64>,
    a: Seq<CommitRecord>,
    b: Seq<CommitRecord>,
    name: Seq<char>,
    email: Seq<char>,
    key: spec_fn(CalendarDate) -> K,
)
    requires
        a.to_multiset() == b.to_multiset(),
        buckets_match(m1, a, dates_of(a), name, email, key),
        buckets_match(m2, b, dates_of(b), name, email, key),
    ensures
        m1 == m2,
{
    assert forall|k: K| #[trigger] m1.contains_key(k) implies m2.contains_key(k) && m1[k] == m2[k] by {
        lemma_permutation(a, b, name, email, key, k);
    }
    lemma_active_keys_permutation(a, b, name, email, key);
    assert(m1 =~= m2);
}

proof fn lemma_active_keys_permutation<K>(
    a: Seq<CommitRecord>,
    b: Seq<CommitRecord>,
    name: Seq<char>,
    email: Seq<char>,
    key: spec_fn(CalendarDate) -> K,
)
    requires
        a.to_multiset() == b.to_multiset(),
    ensures
        active_keys(a, dates_of(a), name, email, key) == active_keys(
            b,
            dates_of(b),
            name,
            email,
            key,
        ),
        lines_added(a, name, email) == lines_added(b, name, email),
        lines_removed(a, name, email) == lines_removed(b, name, email),
{
    lemma_permutation(a, b, name, email, key, arbitrary());
}

/// An author's statistics do not depend on the order of the walk: two walks
/// holding the same commits, in any order, give equal totals, averages and
/// bucket maps.
pub proof fn lemma_stats_order_independent(
    s1: UserStats,
    s2: UserStats,
    a: Seq<CommitRecord>,
    b: Seq<CommitRecord>,
    name: Seq<char>,
    email: Seq<char>,
)
    requires
        a.to_multiset() == b.to_multiset(),
        stats_match(s1, a, dates_of(a), name, email),
        stats_match(s2, b, dates_of(b), name, email),
    ensures
        s1.total_commits == s2.total_commits,
        s1.total_lines_added == s2.total_lines_added,
        s1.total_lines_removed == s2.total_lines_removed,
        s1.average_commits_per_day == s2.average_commits_per_day,
        s1.average_commits_per_month == s2.average_commits_per_month,
        s1.average_commits_per_year == s2.average_commits_per_year,
        s1.average_lines_added_per_day == s2.average_lines_added_per_day,
        s1.average_lines_removed_per_day == s2.average_lines_removed_per_day,
        s1.average_lines_added_per_month == s2.average_lines_added_per_month,
        s1.average_lines_removed_per_month == s2.average_lines_removed_per_month,
        s1.average_lines_added_per_year == s2.average_lines_added_per_year,
        s1.average_lines_removed_per_year == s2.average_lines_removed_per_year,
        s1.line_changes_per_year@ == s2.line_changes_per_year@,
        s1.line_changes_per_month@ == s2.line_changes_per_month@,
        s1.line_changes_per_day@ == s2.line_changes_per_day@,
{
    lemma_commit_count_order_independent(a, b, name, email);
    lemma_active_keys_permutation(a, b, name, email, date_key());
    lemma_active_keys_permutation(a, b, name, email, month_key());
    lemma_active_keys_permutation(a, b, name, email, year_key());
    lemma_buckets_order_independent(
        s1.line_changes_per_year@,
        s2.line_changes_per_year@,
        a,
        b,
        name,
        email,
        year_key(),
    );
    lemma_buckets_order_independent(
        s1.line_changes_per_month@,
        s2.line_changes_per_month@,
        a,
        b,
        name,
        email,
        month_key(),
    );
    lemma_buckets_order_independent(
        s1.line_changes_per_day@,
        s2.line_changes_per_day@,
        a,
        b,
        name,
        email,
        day_key(),
    );
}

} // verus!
