use vstd::prelude::*;

use crate::numfmt::{abs, nat_text, decimal_text, format_decimal, SCALE};
use crate::query::Aggregation;

verus! {

pub open spec fn seq_sum(s: Seq<i64>) -> int
    decreases s.len(),
{
    if s.len() == 0 {
        0
    } else {
        seq_sum(s.drop_last()) + s.last()
    }
}

pub open spec fn seq_min(s: Seq<i64>) -> int
    decreases s.len(),
{
    if s.len() <= 1 {
        if s.len() == 1 { s[0] as int } else { 0 }
    } else if seq_min(s.drop_last()) <= s.last() {
        seq_min(s.drop_last())
    } else {
        s.last() as int
    }
}

pub open spec fn seq_max(s: Seq<i64>) -> int
    decreases s.len(),
{
    if s.len() <= 1 {
        if s.len() == 1 { s[0] as int } else { 0 }
    } else if seq_max(s.drop_last()) >= s.last() {
        seq_max(s.drop_last())
    } else {
        s.last() as int
    }
}

/// Division rounded toward zero.
pub open spec fn div_toward_zero(a: int, b: nat) -> int {
    if a >= 0 {
        a / (b as int)
    } else {
        -((-a) / (b as int))
    }
}

/// The aggregate of a series of fixed-point numbers, itself in millionths. An empty
/// series gives 0 for every aggregation; the average is rounded toward zero to the
/// last fractional digit; the count is the number of values.
pub open spec fn aggregate_value(a: Aggregation, s: Seq<i64>) -> int {
    match a {
        Aggregation::Sum => seq_sum(s),
        Aggregation::Avg => if s.len() == 0 {
            0
        } else {
            div_toward_zero(seq_sum(s), s.len())
        },
        Aggregation::Count => s.len() * SCALE,
        Aggregation::Min => seq_min(s),
        Aggregation::Max => seq_max(s),
    }
}

pub open spec fn aggregate_text(a: Aggregation, s: Seq<i64>) -> Seq<char> {
    decimal_text(aggregate_value(a, s))
}

#[verifier::nonlinear]
proof fn lemma_sum_step(acc: int, i: int, x: i64)
    requires
        0 <= i,
        -i * 0x8000_0000_0000_0000 <= acc <= i * 0x7fff_ffff_ffff_ffff,
    ensures
        -(i + 1) * 0x8000_0000_0000_0000 <= acc + x <= (i + 1) * 0x7fff_ffff_ffff_ffff,
{
}

#[verifier::nonlinear]
proof fn lemma_sum_fits(i: int)
    requires
        0 <= i <= 0xffff_ffff_ffff_ffff,
    ensures
        -i * 0x8000_0000_0000_0000 >= i128::MIN,
        i * 0x7fff_ffff_ffff_ffff <= i128::MAX,
{
}

#[verifier::nonlinear]
proof fn lemma_quotient_bound(m: int, n: int)
    requires
        1 <= n,
        0 <= m <= n * 0x8000_0000_0000_0000,
    ensures
        m / n <= 0x8000_0000_0000_0000,
{
}

#[verifier::nonlinear]
proof fn lemma_count_fits(n: int)
    requires
        0 <= n <= 0xffff_ffff_ffff_ffff,
    ensures
        n * 1_000_000 <= i128::MAX,
{
}

/// The sum of a series, with the bound that keeps it in range.
fn sum_series(s: &Vec<i64>) -> (r: i128)
    ensures
        r == seq_sum(s@),
        -(s@.len() as int) * 0x8000_0000_0000_0000 <= r <= (s@.len() as int) * 0x7fff_ffff_ffff_ffff,
{
    let mut acc: i128 = 0;
    let mut i: usize = 0;
    while i < s.len()
        invariant
            i <= s@.len(),
            acc == seq_sum(s@.take(i as int)),
            -(i as int) * 0x8000_0000_0000_0000 <= acc <= (i as int) * 0x7fff_ffff_ffff_ffff,
        decreases s@.len() - i,
    {
        proof {
            lemma_sum_step(acc as int, i as int, s@[i as int]);
            lemma_sum_fits(i as int + 1);
            assert(s@.take(i as int + 1).drop_last() =~= s@.take(i as int));
        }
        acc = acc + s[i] as i128;
        i = i + 1;
    }
    proof {
        assert(s@.take(i as int) =~= s@);
    }
    acc
}

fn min_series(s: &Vec<i64>) -> (r: i64)
    ensures
        r == seq_min(s@),
{
    if s.len() == 0 {
        return 0;
    }
    let mut acc: i64 = s[0];
    let mut i: usize = 1;
    proof {
        assert(s@.take(1) =~= seq![s@[0]]);
    }
    while i < s.len()
        invariant
            1 <= i <= s@.len(),
            acc == seq_min(s@.take(i as int)),
        decreases s@.len() - i,
    {
        proof {
            assert(s@.take(i as int + 1).drop_last() =~= s@.take(i as int));
        }
        if s[i] < acc {
            acc = s[i];
        }
        i = i + 1;
    }
    proof {
        assert(s@.take(i as int) =~= s@);
    }
    acc
}

fn max_series(s: &Vec<i64>) -> (r: i64)
    ensures
        r == seq_max(s@),
{
    if s.len() == 0 {
        return 0;
    }
    let mut acc: i64 = s[0];
    let mut i: usize = 1;
    proof {
        assert(s@.take(1) =~= seq![s@[0]]);
    }
    while i < s.len()
        invariant
            1 <= i <= s@.len(),
            acc == seq_max(s@.take(i as int)),
        decreases s@.len() - i,
    {
        proof {
            assert(s@.take(i as int + 1).drop_last() =~= s@.take(i as int));
        }
        if s[i] > acc {
            acc = s[i];
        }
        i = i + 1;
    }
    proof {
        assert(s@.take(i as int) =~= s@);
    }
    acc
}

/// The aggregate of a series, as a fixed-point number in millionths.
pub fn aggregate(agg: Aggregation, series: &Vec<i64>) -> (r: i128)
    ensures
        r == aggregate_value(agg, series@),
{
    match agg {
        Aggregation::Sum => sum_series(series),
        Aggregation::Avg => {
            if series.len() == 0 {
                0
            } else {
                let total = sum_series(series);
                let n: u128 = series.len() as u128;
                let m: u128 = if total < 0 {
                    ((-(total + 1)) as u128) + 1
                } else {
                    total as u128
                };
                proof {
                    lemma_quotient_bound(m as int, n as int);
                }
                let q: u128 = m / n;
                if total < 0 {
                    -(q as i128)
                } else {
                    q as i128
                }
            }
        },
        Aggregation::Count => {
            let n: usize = series.len();
            proof {
                lemma_count_fits(n as int);
            }
            (n as i128) * (SCALE as i128)
        },
        Aggregation::Min => min_series(series) as i128,
        Aggregation::Max => max_series(series) as i128,
    }
}

/// The text of the aggregate of a series.
pub fn aggregate_string(agg: Aggregation, series: &Vec<i64>) -> (r: String)
    ensures
        r@ == aggregate_text(agg, series@),
{
    format_decimal(aggregate(agg, series))
}

/// Over an empty series every aggregation reads `0`.
pub proof fn lemma_empty_series_reads_zero(a: Aggregation)
    ensures
        aggregate_text(a, Seq::<i64>::empty()) == seq!['0'],
{
    assert(aggregate_value(a, Seq::<i64>::empty()) == 0);
    assert(nat_text(0) =~= seq!['0']);
    assert(abs(0) == 0);
    assert(0nat % (SCALE as nat) == 0);
    assert(0nat / (SCALE as nat) == 0);
    assert(decimal_text(0) =~= seq!['0']);
}

} // verus!
