use linear_regression::check_iterations;
use linear_regression::iterations::parse_usize;

const ITERATIONS_ERROR: &str = "Number of iterations must be greater than 0";

#[test]
fn accepts_positive_count() {
    assert_eq!(check_iterations("10000"), Ok(10000));
    assert_eq!(check_iterations("1"), Ok(1));
    assert_eq!(check_iterations("+7"), Ok(7));
    assert_eq!(check_iterations("007"), Ok(7));
}

#[test]
fn rejects_zero() {
    assert_eq!(check_iterations("0"), Err(ITERATIONS_ERROR.to_string()));
    assert_eq!(check_iterations("000"), Err(ITERATIONS_ERROR.to_string()));
}

#[test]
fn rejects_malformed_counts() {
    for text in ["", "+", "-1", "abc", "12a", " 5", "5 ", "1.5", "++1"] {
        assert_eq!(check_iterations(text), Err(ITERATIONS_ERROR.to_string()), "{:?}", text);
    }
}

#[test]
fn rejects_count_that_overflows() {
    let too_big = format!("{}0", usize::MAX);
    assert_eq!(check_iterations(&too_big), Err(ITERATIONS_ERROR.to_string()));
    assert_eq!(check_iterations(&usize::MAX.to_string()), Ok(usize::MAX));
}

#[test]
fn parse_matches_std() {
    let max = usize::MAX.to_string();
    let over = format!("{}1", max);
    for text in ["0", "42", "+42", "-0", "", "+", "x", "18446744073709551616", max.as_str(), over.as_str()] {
        assert_eq!(parse_usize(text.as_bytes()), text.parse::<usize>().ok(), "{:?}", text);
    }
}
