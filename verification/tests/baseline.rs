use audio_analysis_tool::baseline::{adjust_levels, levels_relative_to, median_level};
use audio_analysis_tool::level::Level;

#[test]
fn median_of_an_odd_number_is_the_middle_level() {
    let levels = vec![Level::Finite(3), Level::NegInfinity, Level::Finite(1)];
    assert_eq!(median_level(&levels), Some(Level::Finite(1)));
}

#[test]
fn median_of_an_even_number_is_the_upper_middle_level() {
    let levels = vec![Level::Finite(40), Level::Finite(10), Level::Finite(30), Level::Finite(20)];
    assert_eq!(median_level(&levels), Some(Level::Finite(30)));
}

#[test]
fn median_of_one_level_is_that_level() {
    assert_eq!(median_level(&vec![Level::Finite(-5)]), Some(Level::Finite(-5)));
}

#[test]
fn median_of_no_level_is_none() {
    assert_eq!(median_level(&Vec::new()), None);
}

#[test]
fn median_of_mostly_empty_bins_is_negative_infinity() {
    let levels = vec![Level::NegInfinity, Level::Finite(7), Level::NegInfinity];
    assert_eq!(median_level(&levels), Some(Level::NegInfinity));
}

#[test]
fn levels_relative_to_subtracts_the_baseline_from_each() {
    let levels = vec![Level::Finite(-90_000), Level::NegInfinity, Level::Finite(-120_500)];
    assert_eq!(
        levels_relative_to(&levels, &Level::Finite(-100_000)),
        vec![Level::Finite(10_000), Level::NegInfinity, Level::Finite(-20_500)]
    );
}

#[test]
fn adjust_levels_subtracts_the_median() {
    let levels = vec![
        Level::Finite(-120_000),
        Level::Finite(-90_000),
        Level::Finite(-118_000),
        Level::Finite(-119_000),
        Level::Finite(-121_000),
    ];
    assert_eq!(
        adjust_levels(&levels),
        vec![
            Level::Finite(-1_000),
            Level::Finite(29_000),
            Level::Finite(1_000),
            Level::Finite(0),
            Level::Finite(-2_000),
        ]
    );
}

#[test]
fn adjust_levels_of_nothing_is_nothing() {
    assert_eq!(adjust_levels(&Vec::new()), Vec::<Level>::new());
}

#[test]
fn median_after_adjustment_is_zero() {
    let levels = vec![
        Level::Finite(-77_123),
        Level::NegInfinity,
        Level::Finite(-60_001),
        Level::Finite(-99_999),
        Level::Finite(-60_001),
        Level::Finite(12),
        Level::PosInfinity,
        Level::Finite(-88_000),
    ];
    let adjusted = adjust_levels(&levels);
    assert_eq!(median_level(&adjusted), Some(Level::Finite(0)));
}

#[test]
fn adjusting_empty_bins_keeps_them_empty() {
    let levels = vec![Level::NegInfinity; 6];
    let adjusted = adjust_levels(&levels);
    assert_eq!(adjusted, vec![Level::NegInfinity; 6]);
    assert_eq!(median_level(&adjusted), Some(Level::NegInfinity));
}

#[test]
fn finite_levels_over_a_baseline_of_empty_bins_are_infinitely_high() {
    let levels = vec![Level::NegInfinity, Level::Finite(-3), Level::NegInfinity];
    assert_eq!(
        adjust_levels(&levels),
        vec![Level::NegInfinity, Level::PosInfinity, Level::NegInfinity]
    );
}
