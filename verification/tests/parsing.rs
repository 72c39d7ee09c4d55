use kuberes::numeric::num_prefix_or_zero;
use kuberes::numeric::parse_cpu_milli;
use kuberes::numeric::parse_mem;

#[test]
fn prefix_with_milli_suffix() {
    assert_eq!(num_prefix_or_zero("500m"), 500);
}

#[test]
fn prefix_with_mebi_suffix() {
    assert_eq!(num_prefix_or_zero("128Mi"), 128);
}

#[test]
fn prefix_of_letters_is_zero() {
    assert_eq!(num_prefix_or_zero("abc"), 0);
}

#[test]
fn prefix_of_empty_is_zero() {
    assert_eq!(num_prefix_or_zero(""), 0);
}

#[test]
fn prefix_of_zero_is_zero() {
    assert_eq!(num_prefix_or_zero("0"), 0);
}

#[test]
fn prefix_stops_at_first_non_digit() {
    assert_eq!(num_prefix_or_zero("12a34"), 12);
}

#[test]
fn prefix_ignores_leading_space() {
    assert_eq!(num_prefix_or_zero(" 5"), 0);
}

#[test]
fn prefix_of_largest_value() {
    assert_eq!(num_prefix_or_zero("18446744073709551615"), u64::MAX);
}

#[test]
fn prefix_too_large_is_zero() {
    assert_eq!(num_prefix_or_zero("18446744073709551616"), 0);
    assert_eq!(num_prefix_or_zero("99999999999999999999999m"), 0);
}

#[test]
fn prefix_with_leading_zeros() {
    assert_eq!(num_prefix_or_zero("007m"), 7);
}

#[test]
fn memory_keeps_raw_magnitude() {
    assert_eq!(parse_mem("64M"), 64);
    assert_eq!(parse_mem("512Mi"), 512);
    assert_eq!(parse_mem("\"64M\""), 0);
}

#[test]
fn cpu_normalizes_to_cores() {
    assert_eq!(parse_cpu_milli("500m") as f64 / 1000.0, 0.5);
    assert_eq!(parse_cpu_milli("1000m") as f64 / 1000.0, 1.0);
    assert_eq!(parse_cpu_milli("") as f64 / 1000.0, 0.0);
}
