use vstd::prelude::*;

use crate::users::UserInfo;

verus! {

/// The number of cells in a percentage bar.
pub const BAR_WIDTH: usize = 20;

pub open spec fn digit_char(d: nat) -> char {
    if d == 0 {
        '0'
    } else if d == 1 {
        '1'
    } else if d == 2 {
        '2'
    } else if d == 3 {
        '3'
    } else if d == 4 {
        '4'
    } else if d == 5 {
        '5'
    } else if d == 6 {
        '6'
    } else if d == 7 {
        '7'
    } else if d == 8 {
        '8'
    } else {
        '9'
    }
}

/// The decimal digits of `n`, without leading zeros.
pub open spec fn decimal(n: nat) -> Seq<char>
    decreases n,
{
    if n < 10 {
        seq![digit_char(n)]
    } else {
        decimal(n / 10).push(digit_char(n % 10))
    }
}

pub open spec fn repeat(c: char, n: nat) -> Seq<char>
    decreases n,
{
    if n == 0 {
        Seq::empty()
    } else {
        repeat(c, (n - 1) as nat).push(c)
    }
}

/// The cells of the bar that a percentage fills.
pub open spec fn filled_cells(percentage: nat) -> nat {
    percentage * BAR_WIDTH as nat / 100
}

/// `[`, one full cell per filled cell, one light cell per remaining cell,
/// `] `, the percentage in decimal and `%`.
pub open spec fn percentage_bar(percentage: nat) -> Seq<char> {
    seq!['['] + repeat('█', filled_cells(percentage)) + repeat(
        '░',
        (BAR_WIDTH - filled_cells(percentage)) as nat,
    ) + seq![']', ' '] + decimal(percentage) + seq!['%']
}

fn push_digit(s: &mut String, d: usize)
    requires
        d < 10,
    ensures
        final(s)@ == old(s)@.push(digit_char(d as nat)),
{
    proof {
        reveal_strlit("0");
        reveal_strlit("1");
        reveal_strlit("2");
        reveal_strlit("3");
        reveal_strlit("4");
        reveal_strlit("5");
        reveal_strlit("6");
        reveal_strlit("7");
        reveal_strlit("8");
        reveal_strlit("9");
    }
    let digit = if d == 0 {
        "0"
    } else if d == 1 {
        "1"
    } else if d == 2 {
        "2"
    } else if d == 3 {
        "3"
    } else if d == 4 {
        "4"
    } else if d == 5 {
        "5"
    } else if d == 6 {
        "6"
    } else if d == 7 {
        "7"
    } else if d == 8 {
        "8"
    } else {
        "9"
    };
    s.append(digit);
    assert(final(s)@ =~= old(s)@.push(digit_char(d as nat)));
}

fn push_decimal(s: &mut String, n: usize)
    ensures
        final(s)@ == old(s)@ + decimal(n as nat),
    decreases n,
{
    if n >= 10 {
        push_decimal(s, n / 10);
    }
    push_digit(s, n % 10);
    assert(final(s)@ =~= old(s)@ + decimal(n as nat));
}

fn push_repeat(s: &mut String, cell: &str, n: usize)
    requires
        cell@.len() == 1,
    ensures
        final(s)@ == old(s)@ + repeat(cell@[0], n as nat),
{
    let mut i: usize = 0;
    while i < n
        invariant
            i <= n,
            cell@.len() == 1,
            s@ == old(s)@ + repeat(cell@[0], i as nat),
        decreases n - i,
    {
        s.append(cell);
        assert(s@ =~= old(s)@ + repeat(cell@[0], (i + 1) as nat));
        i += 1;
    }
}

/// Draws `percentage` as a bar of `BAR_WIDTH` cells followed by the number.
pub fn render_percentage_bar(percentage: usize) -> (r: String)
    requires
        filled_cells(percentage as nat) <= BAR_WIDTH,
    ensures
        r@ == percentage_bar(percentage as nat),
{
    proof {
        reveal_strlit("[");
        reveal_strlit("█");
        reveal_strlit("░");
        reveal_strlit("] ");
        reveal_strlit("%");
    }
    assert(percentage * BAR_WIDTH <= 104 * BAR_WIDTH) by (nonlinear_arith)
        requires
            percentage * BAR_WIDTH / 100 <= BAR_WIDTH,
    ;
    let filled = percentage * BAR_WIDTH / 100;
    let empty = BAR_WIDTH - filled;
    let mut s = String::new();
    s.append("[");
    push_repeat(&mut s, "█", filled);
    push_repeat(&mut s, "░", empty);
    s.append("] ");
    push_decimal(&mut s, percentage);
    s.append("%");
    assert(s@ =~= percentage_bar(percentage as nat));
    s
}

/// The whole percent of `total` that `part` makes, rounded down; zero when
/// `total` is zero.
pub fn contribution_percentage(part: u64, total: u64) -> (r: usize)
    requires
        part <= total,
    ensures
        total == 0 ==> r == 0,
        total > 0 ==> r == (part as int) * 100 / (total as int),
        r <= 100,
{
    if total == 0 {
        0
    } else {
        let wide: u128 = (part as u128) * 100 / (total as u128);
        assert(wide <= 100) by (nonlinear_arith)
            requires
                wide == (part as int) * 100 / (total as int),
                part <= total,
                total > 0,
        ;
        wide as usize
    }
}

pub open spec fn commits_sum(users: Seq<UserInfo>) -> nat
    decreases users.len(),
{
    if users.len() == 0 {
        0
    } else {
        commits_sum(users.drop_last()) + users.last().stats.total_commits as nat
    }
}

/// The commits of all the authors together; `None` when the sum does not
/// fit in 64 bits.
pub fn total_project_commits(users: &Vec<UserInfo>) -> (r: Option<u64>)
    ensures
        r is Some <==> commits_sum(users@) <= u64::MAX,
        r matches Some(t) ==> t == commits_sum(users@),
{
    let mut total: u64 = 0;
    let mut i: usize = 0;
    while i < users.len()
        invariant
            i <= users@.len(),
            total == commits_sum(users@.take(i as int)),
        decreases users@.len() - i,
    {
        assert(users@.take(i + 1).drop_last() =~= users@.take(i as int));
        match total.checked_add(users[i].stats.total_commits) {
            Some(t) => total = t,
            None => {
                proof {
                    lemma_commits_sum_prefix(users@, i + 1);
                }
                return None;
            },
        }
        i += 1;
    }
    assert(users@.take(users@.len() as int) =~= users@);
    Some(total)
}

proof fn lemma_commits_sum_prefix(users: Seq<UserInfo>, i: int)
    requires
        0 <= i <= users.len(),
    ensures
        commits_sum(users.take(i)) <= commits_sum(users),
    decreases users.len(),
{
    if i < users.len() {
        assert(users.drop_last().take(i) =~= users.take(i));
        lemma_commits_sum_prefix(users.drop_last(), i);
    } else {
        assert(users.take(i) =~= users);
    }
}

} // verus!
