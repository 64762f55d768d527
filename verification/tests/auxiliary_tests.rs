//! Tests for the statistics helpers: mode, median, mode-or-median and the
//! rounding division.

use zptess::auxiliary::{median, mode, mode_or_median, round_div};
use zptess::text::file_order;

#[test]
fn mode_of_empty_is_none() {
    let v: Vec<i64> = vec![];
    assert_eq!(mode(&v), None);
}

#[test]
fn mode_of_single_is_that_element() {
    let v: Vec<i64> = vec![42];
    assert_eq!(mode(&v), Some(42));
}

#[test]
fn mode_of_all_equal_is_that_element() {
    let v: Vec<i64> = vec![7, 7, 7, 7];
    assert_eq!(mode(&v), Some(7));
}

#[test]
fn mode_of_bimodal_tie_is_none() {
    let v: Vec<i64> = vec![1, 1, 2, 2, 3];
    assert_eq!(mode(&v), None);
}

#[test]
fn mode_picks_strict_majority() {
    let v: Vec<i64> = vec![5, 3, 5, 2, 5, 3];
    assert_eq!(mode(&v), Some(5));
}

#[test]
fn median_of_odd_length_is_middle() {
    let v: Vec<i64> = vec![30, 10, 20];
    assert_eq!(median(&v), 20);
}

#[test]
fn median_of_even_length_averages_middles() {
    let v: Vec<i64> = vec![10, 20, 30, 40];
    assert_eq!(median(&v), 25);
}

#[test]
fn median_of_even_length_rounds_half_away() {
    let v: Vec<i64> = vec![10, 11];
    // (10 + 11) / 2 = 10.5 rounds away from zero to 11
    assert_eq!(median(&v), 11);
}

#[test]
fn mode_or_median_zp_vector_with_mode() {
    // ZP vector 21.25, 21.25, 21.30, 21.25, 21.40 in centi-units
    let v: Vec<i64> = vec![2125, 2125, 2130, 2125, 2140];
    assert_eq!(mode_or_median(&v), 2125);
}

#[test]
fn mode_or_median_zp_vector_without_mode_falls_back_to_median() {
    // ZP vector 21.20, 21.30, 21.40, 21.50, 21.60 in centi-units
    let v: Vec<i64> = vec![2120, 2130, 2140, 2150, 2160];
    assert_eq!(mode_or_median(&v), 2140);
}

#[test]
fn round_div_rounds_half_away_from_zero() {
    assert_eq!(round_div(21253, 10), 2125);
    assert_eq!(round_div(21255, 10), 2126);
    assert_eq!(round_div(-21255, 10), -2126);
    assert_eq!(round_div(-21253, 10), -2125);
    assert_eq!(round_div(5, 10), 1);
    assert_eq!(round_div(4, 10), 0);
}

#[test]
fn file_order_reads_leading_digits() {
    assert_eq!(file_order("04_views.sql", 2), 4);
    assert_eq!(file_order("12_data.sql", 2), 12);
}
