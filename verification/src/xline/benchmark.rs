//! The figures of a latency benchmark.

use crate::text::{dec_nat, law_unsigned_reads_back, parse_u64, parse_unsigned, same_text};
use vstd::prelude::*;

verus! {

/// How many requests a benchmark makes where nothing else is said.
pub const USUAL_REQUESTS: u64 = 100;

/// The place of the first argument that asks for a number of requests and has one behind it.
pub open spec fn asked_at(args: Seq<Seq<char>>, from: int) -> Option<int>
    decreases args.len() - from,
{
    if from < 0 || from + 1 >= args.len() {
        None
    } else if args[from] == "--requests"@ {
        Some(from)
    } else {
        asked_at(args, from + 1)
    }
}

/// How many requests the arguments ask for.
pub open spec fn requests_in(args: Seq<Seq<char>>) -> nat {
    match asked_at(args, 0) {
        Some(i) => match parse_unsigned(args[i + 1], u64::MAX as nat) {
            Ok(n) => n,
            Err(_) => USUAL_REQUESTS as nat,
        },
        None => USUAL_REQUESTS as nat,
    }
}

/// How many requests the arguments ask for.
pub fn requested(args: &Vec<String>) -> (r: u64)
    ensures
        r == requests_in(crate::text::texts(args@)),
{
    let ghost all = crate::text::texts(args@);
    let mut i: usize = 0;
    let n: usize = args.len();
    while i < n && n - i > 1
        invariant
            i <= n == args.len(),
            all == crate::text::texts(args@),
            asked_at(all, 0) == asked_at(all, i as int),
        decreases n - i,
    {
        if same_text(args[i].as_str(), "--requests") {
            return match parse_u64(args[i + 1].as_str(), u64::MAX) {
                Ok(requests) => requests,
                Err(_) => USUAL_REQUESTS,
            };
        }
        i = i + 1;
    }
    USUAL_REQUESTS
}

/// Whether times do not fall.
pub open spec fn rises(times: Seq<u64>) -> bool {
    forall|i: int, j: int| 0 <= i <= j < times.len() ==> times[i] <= times[j]
}

/// The sum of times.
pub open spec fn sum(times: Seq<u64>) -> nat
    decreases times.len(),
{
    if times.len() == 0 {
        0
    } else {
        sum(times.drop_last()) + times.last() as nat
    }
}

/// The times in rising order.
pub fn sorted(times: &Vec<u64>) -> (r: Vec<u64>)
    ensures
        rises(r@),
        r@.to_multiset() == times@.to_multiset(),
        r@.len() == times@.len(),
{
    broadcast use vstd::seq_lib::group_to_multiset_ensures;

    let mut r: Vec<u64> = Vec::new();
    let mut i: usize = 0;
    while i < times.len()
        invariant
            i <= times.len(),
            r@.len() == i,
            rises(r@),
            r@.to_multiset() == times@.take(i as int).to_multiset(),
        decreases times.len() - i,
    {
        broadcast use vstd::seq_lib::group_to_multiset_ensures;

        let t: u64 = times[i];
        let mut at: usize = r.len();
        while at > 0 && r[at - 1] > t
            invariant
                at <= r@.len(),
                rises(r@),
                forall|j: int| at <= j < r@.len() ==> r@[j] > t,
            decreases at,
        {
            at = at - 1;
        }
        let ghost before = r@;
        r.insert(at, t);
        i = i + 1;
        proof {
            assert(r@ =~= before.insert(at as int, t));
            assert forall|a: int, b: int| 0 <= a <= b < r@.len() implies r@[a] <= r@[b] by {
                let x = if a < at {
                    a
                } else {
                    a - 1
                };
                let y = if b < at {
                    b
                } else {
                    b - 1
                };
                if a < at {
                    assert(before[a] <= before[at - 1]);
                }
                if a != at && b != at {
                    assert(before[x] <= before[y]);
                }
            }
            assert(times@.take(i as int) =~= times@.take(i - 1).push(t));
        }
    }
    assert(times@.take(i as int) =~= times@);
    r
}

/// The figures of a benchmark, in the unit of its times.
#[derive(Debug, Clone, Copy, PartialEq, Eq, Structural)]
pub struct Figures {
    pub total: u64,
    pub avg: u64,
    pub p50: u64,
    pub p95: u64,
    pub p99: u64,
    pub min: u64,
    pub max: u64,
}

/// The figures of times in rising order.
pub open spec fn figures(times: Seq<u64>) -> Figures {
    let n = times.len() as int;
    Figures {
        total: sum(times) as u64,
        avg: (sum(times) as int / n) as u64,
        p50: times[n / 2],
        p95: times[n * 95 / 100],
        p99: times[n * 99 / 100],
        min: times[0],
        max: times[n - 1],
    }
}

/// The sum of the first times is not larger than that of all.
proof fn lemma_sum_grows(times: Seq<u64>, i: int)
    requires
        0 <= i <= times.len(),
    ensures
        sum(times.take(i)) <= sum(times),
    decreases times.len(),
{
    if i < times.len() {
        lemma_sum_grows(times.drop_last(), i);
        assert(times.drop_last().take(i) =~= times.take(i));
    } else {
        assert(times.take(i) =~= times);
    }
}

/// The figures of times in rising order.
pub fn summary(times: &Vec<u64>) -> (r: Figures)
    requires
        0 < times@.len() <= u32::MAX,
        rises(times@),
        sum(times@) <= u64::MAX,
    ensures
        r == figures(times@),
        r.total == sum(times@),
        r.avg * times@.len() <= r.total < (r.avg + 1) * times@.len(),
        r.p50 == times@[times@.len() as int / 2],
        r.p95 == times@[times@.len() as int * 95 / 100],
        r.p99 == times@[times@.len() as int * 99 / 100],
        r.min == times@[0],
        r.max == times@.last(),
{
    let n: usize = times.len();
    let mut total: u64 = 0;
    let mut i: usize = 0;
    while i < n
        invariant
            i <= n == times.len(),
            total == sum(times@.take(i as int)),
            sum(times@) <= u64::MAX,
        decreases n - i,
    {
        proof {
            lemma_sum_grows(times@, i + 1);
            assert(times@.take(i + 1).drop_last() =~= times@.take(i as int));
        }
        total = total + times[i];
        i = i + 1;
    }
    assert(times@.take(i as int) =~= times@);
    let len: u64 = n as u64;
    assert((total / len) * len <= total < (total / len + 1) * len) by (nonlinear_arith)
        requires
            len > 0,
    ;
    let at95: u64 = len * 95 / 100;
    let at99: u64 = len * 99 / 100;
    Figures {
        total,
        avg: total / len,
        p50: times[n / 2],
        p95: times[at95 as usize],
        p99: times[at99 as usize],
        min: times[0],
        max: times[n - 1],
    }
}

/// The figures of times in rising order rise: none is below the smallest time or above the
/// largest.
pub proof fn law_figures_rise(times: Seq<u64>)
    requires
        times.len() > 0,
        rises(times),
    ensures
        figures(times).min <= figures(times).p50 <= figures(times).p95 <= figures(times).p99
            <= figures(times).max,
{
    let n = times.len() as int;
    assert(n / 2 <= n * 95 / 100 <= n * 99 / 100 <= n - 1);
}

/// The figures say of the times what they are called: none is smaller than the smallest or larger
/// than the largest, at least half, 95 and 99 of a hundred are not above the respective figure,
/// and the average is the whole number below the quotient.
pub proof fn law_figures_divide_the_times(times: Seq<u64>, i: int)
    requires
        times.len() > 0,
        rises(times),
        sum(times) <= u64::MAX,
        0 <= i < times.len(),
    ensures
        figures(times).min <= times[i] <= figures(times).max,
        times.contains(figures(times).min) && times.contains(figures(times).max),
        2 * i <= times.len() ==> times[i] <= figures(times).p50,
        2 * i >= times.len() ==> times[i] >= figures(times).p50,
        100 * i <= 95 * times.len() ==> times[i] <= figures(times).p95,
        100 * i >= 95 * times.len() ==> times[i] >= figures(times).p95,
        100 * i <= 99 * times.len() ==> times[i] <= figures(times).p99,
        100 * i >= 99 * times.len() ==> times[i] >= figures(times).p99,
        figures(times).avg * times.len() <= sum(times) < (figures(times).avg + 1) * times.len(),
{
    let n = times.len() as int;
    assert(times[0] <= times[i] <= times[n - 1]);
    assert(times[0] == figures(times).min && times[n - 1] == figures(times).max);
    let total = sum(times) as int;
    assert(0 <= total / n <= total && (total / n) * n <= total < (total / n + 1) * n)
        by (nonlinear_arith)
        requires
            n > 0,
            total >= 0,
    ;
    if 2 * i <= n {
        assert(i <= n / 2);
    } else {
        assert(n / 2 <= i);
    }
}

/// The sum of times is that of its parts, and the sum of one time is that time.
pub proof fn law_sums_add_up(a: Seq<u64>, b: Seq<u64>, t: u64)
    ensures
        sum(a + b) == sum(a) + sum(b),
        sum(seq![t]) == t,
    decreases b.len(),
{
    reveal_with_fuel(sum, 2);
    assert(seq![t].drop_last() =~= Seq::empty());
    if b.len() > 0 {
        law_sums_add_up(a, b.drop_last(), t);
        assert((a + b).drop_last() =~= a + b.drop_last());
    } else {
        assert(a + b =~= a);
    }
}

/// The arguments ask for the number behind the first `--requests` with something behind it;
/// without one, and where what is behind it is no number, it is a hundred.
pub proof fn law_first_asking_counts(args: Seq<Seq<char>>, i: int, n: u64)
    requires
        0 <= i,
        forall|j: int| 0 <= j < i && j + 1 < args.len() ==> #[trigger] args[j] != "--requests"@,
    ensures
        i + 1 < args.len() && args[i] == "--requests"@ && args[i + 1] == dec_nat(n as nat)
            ==> requests_in(args) == n,
        i + 1 < args.len() && args[i] == "--requests"@ && args[i + 1].len() == 0 ==> requests_in(
            args,
        ) == 100,
        i + 1 >= args.len() ==> requests_in(args) == 100,
{
    law_unsigned_reads_back(n as nat, u64::MAX as nat);
    lemma_asked_at(args, i, 0);
}

/// The first place that asks, seen from an earlier one.
proof fn lemma_asked_at(args: Seq<Seq<char>>, i: int, from: int)
    requires
        0 <= from <= i,
        forall|j: int| 0 <= j < i && j + 1 < args.len() ==> #[trigger] args[j] != "--requests"@,
    ensures
        i + 1 < args.len() && args[i] == "--requests"@ ==> asked_at(args, from) == Some(i),
        i + 1 >= args.len() ==> asked_at(args, from) is None,
    decreases i - from,
{
    if from < i && from + 1 < args.len() {
        assert(args[from] != "--requests"@);
        lemma_asked_at(args, i, from + 1);
    }
}

} // verus!
