use bench_compare::counter::{BenchCounter, Percentage};
use bench_compare::display::{
    push_delta, push_deviation, push_percent, push_value, push_value_fixed, HumanReadable,
};
use bench_compare::text::{push_decimal, push_padded, same_text};

fn shown(write: impl Fn(&mut String)) -> String {
    let mut out = String::from(">");
    write(&mut out);
    out
}

#[test]
fn human_readable() {
    assert_eq!(HumanReadable(12).to_text(), "     12");
    assert_eq!(HumanReadable(123).to_text(), "    123");
    assert_eq!(HumanReadable(1234).to_text(), "  1.23K");
    assert_eq!(HumanReadable(12345).to_text(), " 12.35K");
    assert_eq!(HumanReadable(123456).to_text(), "123.46K");
    assert_eq!(HumanReadable(1234567).to_text(), "  1.23M");
    assert_eq!(HumanReadable(1_000_000_000).to_text(), "  1.00G");
}

#[test]
fn human_readable_at_the_edges() {
    assert_eq!(HumanReadable(0).to_text(), "      0");
    assert_eq!(HumanReadable(999).to_text(), "    999");
    assert_eq!(HumanReadable(1000).to_text(), "  1.00K");
    assert_eq!(HumanReadable(999_999).to_text(), "1000.00K");
    assert_eq!(HumanReadable(1_000_000).to_text(), "  1.00M");
    assert_eq!(HumanReadable(999_999_999).to_text(), "1000.00M");
    assert_eq!(HumanReadable(u64::MAX).to_text(), "18446744073.71G");
}

#[test]
fn decimal_digits() {
    assert_eq!(shown(|out| push_decimal(out, 0)), ">0");
    assert_eq!(shown(|out| push_decimal(out, 7)), ">7");
    assert_eq!(shown(|out| push_decimal(out, 10)), ">10");
    assert_eq!(shown(|out| push_decimal(out, 9_007_199_254_740_993)), ">9007199254740993");
    assert_eq!(
        shown(|out| push_decimal(out, u128::MAX)),
        ">340282366920938463463374607431768211455"
    );
}

#[test]
fn padding_counts_characters() {
    assert_eq!(shown(|out| push_padded(out, "ab", 5)), ">   ab");
    assert_eq!(shown(|out| push_padded(out, "abcde", 5)), ">abcde");
    assert_eq!(shown(|out| push_padded(out, "abcdef", 5)), ">abcdef");
    assert_eq!(shown(|out| push_padded(out, "", 2)), ">  ");
    assert_eq!(shown(|out| push_padded(out, "Δ", 3)), ">  Δ");
}

#[test]
fn texts_are_compared_by_their_characters() {
    assert!(same_text("msec", "msec"));
    assert!(!same_text("msec", "msecs"));
    assert!(!same_text("msec", "Msec"));
    assert!(same_text("", ""));
}

#[test]
fn means_in_their_shortest_form() {
    assert_eq!(shown(|out| push_value(out, 0)), ">0");
    assert_eq!(shown(|out| push_value(out, 1_000_000)), ">1000");
    assert_eq!(shown(|out| push_value(out, 12_500)), ">12.5");
    assert_eq!(shown(|out| push_value(out, 12_340)), ">12.34");
    assert_eq!(shown(|out| push_value(out, 12_345)), ">12.345");
    assert_eq!(shown(|out| push_value(out, 5)), ">0.005");
    assert_eq!(shown(|out| push_value(out, 50)), ">0.05");
    assert_eq!(shown(|out| push_value(out, -1_500)), ">-1.5");
    assert_eq!(shown(|out| push_value(out, i64::MAX)), ">9223372036854775.807");
    assert_eq!(shown(|out| push_value(out, i64::MIN)), ">-9223372036854775.808");
}

#[test]
fn means_with_three_places() {
    assert_eq!(shown(|out| push_value_fixed(out, 0)), ">0.000");
    assert_eq!(shown(|out| push_value_fixed(out, 1_000_000)), ">1000.000");
    assert_eq!(shown(|out| push_value_fixed(out, 12_500)), ">12.500");
    assert_eq!(shown(|out| push_value_fixed(out, 7)), ">0.007");
    assert_eq!(shown(|out| push_value_fixed(out, -12_345)), ">-12.345");
}

#[test]
fn deviations_are_rounded_roots() {
    assert_eq!(shown(|out| push_deviation(out, 0)), ">0");
    assert_eq!(shown(|out| push_deviation(out, 1_000)), ">1");
    assert_eq!(shown(|out| push_deviation(out, 2_250)), ">2");
    assert_eq!(shown(|out| push_deviation(out, 9_000_000)), ">95");
}

#[test]
fn percentages_carry_their_sign() {
    let percent = |before: i64, after: i64| -> Percentage {
        let b = BenchCounter { value: before, variance: 0, repetitions: 2, unit: String::new() };
        let a = BenchCounter { value: after, variance: 0, repetitions: 2, unit: String::new() };
        BenchCounter::improvement_percentage(&b, &a).unwrap()
    };
    assert_eq!(shown(|out| push_percent(out, &percent(100_000, 110_000))), ">+10.00");
    assert_eq!(shown(|out| push_percent(out, &percent(110_000, 100_000))), "> -9.09");
    assert_eq!(shown(|out| push_percent(out, &percent(100_000, 100_000))), "> +0.00");
    assert_eq!(shown(|out| push_percent(out, &percent(1_000, 3_000))), ">+200.00");
    assert_eq!(shown(|out| push_percent(out, &percent(3, 4))), ">+33.33");
    assert_eq!(shown(|out| push_percent(out, &percent(3, 5))), ">+66.67");
    // Half a hundredth is rounded away from zero.
    assert_eq!(shown(|out| push_percent(out, &percent(20_000, 20_001))), "> +0.01");
    assert_eq!(shown(|out| push_percent(out, &percent(20_000, 19_999))), "> -0.01");
    // A change too small to show keeps its sign.
    assert_eq!(shown(|out| push_percent(out, &percent(1_000_000, 999_999))), "> -0.00");
    assert_eq!(shown(|out| push_percent(out, &percent(-100, -150))), ">+50.00");
    assert_eq!(shown(|out| push_percent(out, &percent(-100, 100))), ">-200.00");
    assert_eq!(
        shown(|out| push_percent(out, &percent(1, i64::MAX))),
        ">+922337203685477580600.00"
    );
}

#[test]
fn deltas_have_one_place() {
    assert_eq!(shown(|out| push_delta(out, 1_000_000, 1_100_000)), ">+10.0%");
    assert_eq!(shown(|out| push_delta(out, 1_000_000, 900_000)), ">-10.0%");
    assert_eq!(shown(|out| push_delta(out, 1_000_000, 1_000_000)), ">-0.0%");
    assert_eq!(shown(|out| push_delta(out, 3, 4)), ">+33.3%");
    assert_eq!(shown(|out| push_delta(out, 2_000, 2_001)), ">+0.1%");
    assert_eq!(shown(|out| push_delta(out, 2_001, 2_000)), ">-0.0%");
    assert_eq!(shown(|out| push_delta(out, -200, -100)), ">+50.0%");
}
