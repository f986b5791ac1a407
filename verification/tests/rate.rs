use rust_audio::error::AudioError;
use rust_audio::probe::Entry;
use rust_audio::rate::{
    percentage_target_kbps, quality_kbps, size_target_kbps, RateRule, MAX_KBPS, MIN_KBPS,
};

#[test]
fn half_of_320_kilobits_is_160() {
    assert_eq!(percentage_target_kbps(320_000, 50), 160);
}

#[test]
fn one_percent_clamps_to_the_floor() {
    assert_eq!(percentage_target_kbps(320_000, 1), 32);
}

#[test]
fn percentage_target_is_the_whole_kilobits_of_the_share() {
    assert_eq!(percentage_target_kbps(128_000, 75), 96);
    assert_eq!(percentage_target_kbps(128_999, 100), 128);
    assert_eq!(percentage_target_kbps(199_999, 50), 99);
    assert_eq!(percentage_target_kbps(64_000, 50), 32);
    assert_eq!(percentage_target_kbps(63_999, 50), 32);
    assert_eq!(percentage_target_kbps(66_000, 50), 33);
    assert_eq!(percentage_target_kbps(320_000, 200), 640);
}

#[test]
fn percentage_target_of_nothing_or_less_is_the_floor() {
    assert_eq!(percentage_target_kbps(0, 50), MIN_KBPS);
    assert_eq!(percentage_target_kbps(320_000, 0), MIN_KBPS);
    assert_eq!(percentage_target_kbps(-320_000, 50), MIN_KBPS);
    assert_eq!(percentage_target_kbps(320_000, -50), MIN_KBPS);
    assert_eq!(percentage_target_kbps(i32::MIN, i32::MAX), MIN_KBPS);
}

#[test]
fn percentage_target_has_no_ceiling_below_the_end_of_32_bits() {
    assert_eq!(percentage_target_kbps(i32::MAX, 1000), 21_474_836);
    assert_eq!(percentage_target_kbps(2_000_000_000, 200), 4_000_000);
    assert_eq!(percentage_target_kbps(i32::MAX, 100_000), i32::MAX);
    assert_eq!(percentage_target_kbps(i32::MAX, 99_999), 2_147_462_172);
}

#[test]
fn percentage_target_is_cut_off_where_32_bits_end() {
    assert_eq!(MAX_KBPS, i32::MAX);
    assert_eq!(percentage_target_kbps(i32::MAX, 100_001), MAX_KBPS);
    assert_eq!(percentage_target_kbps(i32::MAX, i32::MAX), MAX_KBPS);
    assert_eq!(percentage_target_kbps(i32::MIN, i32::MIN), MAX_KBPS);
}

#[test]
fn one_mebibyte_over_a_minute_is_139_kilobits() {
    assert_eq!(size_target_kbps(1, 60_000_000), 139);
}

#[test]
fn size_target_is_the_whole_kilobits_per_second() {
    assert_eq!(size_target_kbps(5, 180_000_000), 233);
    assert_eq!(size_target_kbps(1, 1_000_000), 8388);
    assert_eq!(size_target_kbps(10, 212_871_837), 394);
}

#[test]
fn size_target_clamps_at_both_ends() {
    assert_eq!(size_target_kbps(1, 600_000_000), MIN_KBPS);
    assert_eq!(size_target_kbps(0, 60_000_000), MIN_KBPS);
    assert_eq!(size_target_kbps(1, 262_144_000), 32);
    assert_eq!(size_target_kbps(1, 254_200_242), 33);
    assert_eq!(size_target_kbps(1000, 1_000_000), 8_388_608);
    assert_eq!(size_target_kbps(1, 1), MAX_KBPS);
    assert_eq!(size_target_kbps(1, 4), 2_097_152_000);
    assert_eq!(size_target_kbps(1, 3), MAX_KBPS);
    assert_eq!(size_target_kbps(u32::MAX, 1), MAX_KBPS);
}

#[test]
fn duration_of_zero_asks_for_the_ceiling() {
    assert_eq!(size_target_kbps(1, 0), MAX_KBPS);
    assert_eq!(size_target_kbps(0, 0), MAX_KBPS);
}

#[test]
fn quality_names_map_to_fixed_rates() {
    assert_eq!(quality_kbps("low"), 64);
    assert_eq!(quality_kbps("medium"), 128);
    assert_eq!(quality_kbps("high"), 256);
    assert_eq!(quality_kbps(""), 128);
    assert_eq!(quality_kbps("HIGH"), 128);
    assert_eq!(quality_kbps("ultra"), 128);
}

#[test]
fn rules_probe_what_they_need() {
    assert_eq!(RateRule::Percentage(50).entry(), Entry::BitRate);
    assert_eq!(RateRule::Size(3).entry(), Entry::Duration);
}

#[test]
fn rules_turn_probe_output_into_rates() {
    assert_eq!(RateRule::Percentage(50).rate(true, "320000\n", ""), Ok(160));
    assert_eq!(RateRule::Size(1).rate(true, "60.000000\n", ""), Ok(139));
    assert_eq!(
        RateRule::Percentage(50).rate(true, "N/A", ""),
        Err(AudioError::ProbeParse("N/A".to_string()))
    );
    assert_eq!(
        RateRule::Size(1).rate(false, "60", "boom"),
        Err(AudioError::EngineExecution("boom".to_string()))
    );
    // a duration is no bit rate
    assert_eq!(
        RateRule::Percentage(50).rate(true, "60.5", ""),
        Err(AudioError::ProbeParse("60.5".to_string()))
    );
}
