use elp::numerals::{decimal_text, digit, digit_count, zero_padded_text};
use elp::phrases::{
    altitude_phrase, flight_level_phrase, forbidden_squawk, frequency_numeral, frequency_phrase,
    heading_phrase, permitted_squawk, qnh_inches_phrase, qnh_metric_phrase, rounded_down,
    runway_number, runway_phrase, side_name, squawk_phrase, station, temperature_phrase,
    wind_phrase,
};

#[test]
fn numerals_are_written_in_decimal() {
    assert_eq!(decimal_text(0), "0");
    assert_eq!(decimal_text(7), "7");
    assert_eq!(decimal_text(10), "10");
    assert_eq!(decimal_text(420), "420");
    assert_eq!(decimal_text(4294967295), "4294967295");
    assert_eq!(digit(0), '0');
    assert_eq!(digit(9), '9');
    assert_eq!(digit_count(0), 1);
    assert_eq!(digit_count(999), 3);
    assert_eq!(digit_count(1000), 4);
    assert_eq!(digit_count(u32::MAX), 10);
}

#[test]
fn padding_adds_zeros_and_never_cuts() {
    assert_eq!(zero_padded_text(5, 2), "05");
    assert_eq!(zero_padded_text(36, 2), "36");
    assert_eq!(zero_padded_text(0, 3), "000");
    assert_eq!(zero_padded_text(40, 3), "040");
    assert_eq!(zero_padded_text(2001, 4), "2001");
    assert_eq!(zero_padded_text(12345, 4), "12345");
    assert_eq!(zero_padded_text(7, 0), "7");
    for n in [0u32, 1, 9, 10, 99, 100, 12345] {
        for width in 0..7usize {
            assert_eq!(zero_padded_text(n, width), format!("{:0width$}", n, width = width));
        }
    }
}

#[test]
fn rounding_down_takes_the_multiple_below() {
    assert_eq!(rounded_down(63, 5), 60);
    assert_eq!(rounded_down(60, 5), 60);
    assert_eq!(rounded_down(419, 5), 415);
    assert_eq!(rounded_down(420, 5), 420);
    assert_eq!(rounded_down(19, 10), 10);
    assert_eq!(rounded_down(360, 10), 360);
    assert_eq!(rounded_down(117979, 5), 117975);
    assert_eq!(rounded_down(599, 100), 500);
    assert_eq!(rounded_down(41999, 100), 41900);
    assert_eq!(rounded_down(7, 1), 7);
}

#[test]
fn runway_number_is_the_tenth_of_the_bearing() {
    assert_eq!(runway_number(10), 1);
    assert_eq!(runway_number(19), 1);
    assert_eq!(runway_number(57), 5);
    assert_eq!(runway_number(359), 35);
    assert_eq!(runway_number(360), 36);
}

#[test]
fn runway_phrase_pads_the_number() {
    assert_eq!(runway_phrase(1, 0), "runway 01 left");
    assert_eq!(runway_phrase(5, 0), "runway 05 left");
    assert_eq!(runway_phrase(9, 1), "runway 09 right");
    assert_eq!(runway_phrase(10, 1), "runway 10 right");
    assert_eq!(runway_phrase(36, 1), "runway 36 right");
    assert_eq!(side_name(0), "left");
    assert_eq!(side_name(1), "right");
}

#[test]
fn flight_level_phrase_is_not_padded() {
    assert_eq!(flight_level_phrase(60), "flight level 60");
    assert_eq!(flight_level_phrase(95), "flight level 95");
    assert_eq!(flight_level_phrase(420), "flight level 420");
}

#[test]
fn squawk_phrase_has_four_places() {
    assert_eq!(squawk_phrase(2001), "squawk 2001");
    assert_eq!(squawk_phrase(9999), "squawk 9999");
    assert_eq!(squawk_phrase(42), "squawk 0042");
}

#[test]
fn five_codes_are_forbidden() {
    for code in [2000u32, 7000, 7500, 7600, 7700] {
        assert!(forbidden_squawk(code));
        assert_eq!(permitted_squawk(code), code + 1);
    }
    for code in [1999u32, 2001, 6999, 7001, 7499, 7501, 7601, 7699, 7701, 9999] {
        assert!(!forbidden_squawk(code));
        assert_eq!(permitted_squawk(code), code);
    }
    let forbidden = (2000u32..=9999).filter(|code| forbidden_squawk(*code)).count();
    assert_eq!(forbidden, 5);
}

#[test]
fn heading_phrase_has_three_places() {
    assert_eq!(heading_phrase(10), "heading 010");
    assert_eq!(heading_phrase(90), "heading 090");
    assert_eq!(heading_phrase(360), "heading 360");
}

#[test]
fn wind_phrase_names_bearing_and_velocity() {
    assert_eq!(wind_phrase(10, 1), "wind 010 degree 1 knots");
    assert_eq!(wind_phrase(270, 15), "wind 270 degree 15 knots");
    assert_eq!(wind_phrase(360, 50), "wind 360 degree 50 knots");
}

#[test]
fn qnh_phrases_in_both_units() {
    assert_eq!(qnh_metric_phrase(931), "qnh 931 hectopascals");
    assert_eq!(qnh_metric_phrase(1013), "qnh 1013 hectopascals");
    assert_eq!(qnh_metric_phrase(1066), "qnh 1066 hectopascals");
    assert_eq!(qnh_inches_phrase(2750), "qnh 27.50 inches");
    assert_eq!(qnh_inches_phrase(2992), "qnh 29.92 inches");
    assert_eq!(qnh_inches_phrase(3005), "qnh 30.05 inches");
    assert_eq!(qnh_inches_phrase(3100), "qnh 31.00 inches");
    assert_eq!(qnh_inches_phrase(3150), "qnh 31.50 inches");
}

#[test]
fn qnh_inches_agree_with_float_formatting() {
    for hundredths in 2750u32..=3150 {
        let expected = format!("qnh {:.02} inches", hundredths as f32 / 100.0);
        assert_eq!(qnh_inches_phrase(hundredths), expected);
    }
}

#[test]
fn temperature_phrase_speaks_the_sign() {
    assert_eq!(temperature_phrase(20, 12), "temperature 20 dew point 12");
    assert_eq!(temperature_phrase(5, -3), "temperature 5 dew point minus 3");
    assert_eq!(temperature_phrase(-30, -45), "temperature minus 30 dew point minus 45");
    assert_eq!(temperature_phrase(0, 0), "temperature 0 dew point 0");
    assert_eq!(temperature_phrase(0, -1), "temperature 0 dew point minus 1");
    assert_eq!(temperature_phrase(50, 50), "temperature 50 dew point 50");
    assert_eq!(
        temperature_phrase(i32::MIN, i32::MAX),
        "temperature minus 2147483648 dew point 2147483647"
    );
}

#[test]
fn temperature_phrase_agrees_with_collapsing_the_padded_form() {
    for temperature in -30i32..=50 {
        for dew_point in (temperature - 15)..=temperature {
            let minus_t = if temperature < 0 { "minus" } else { "" };
            let minus_d = if dew_point < 0 { "minus" } else { "" };
            let expected = format!(
                "temperature {} {} dew point {} {}",
                minus_t,
                temperature.abs(),
                minus_d,
                dew_point.abs()
            )
            .replace("  ", " ")
            .trim()
            .to_string();
            assert_eq!(temperature_phrase(temperature, dew_point), expected);
        }
    }
}

#[test]
fn frequency_loses_its_zeros_and_its_point() {
    assert_eq!(frequency_numeral(121500), "121.5");
    assert_eq!(frequency_numeral(118000), "118");
    assert_eq!(frequency_numeral(117975), "117.975");
    assert_eq!(frequency_numeral(137000), "137");
    assert_eq!(frequency_numeral(120050), "120.05");
    assert_eq!(frequency_numeral(130000), "130");
    assert_eq!(frequency_numeral(120005), "120.005");
    assert_eq!(frequency_numeral(100000), "100");
    assert_eq!(frequency_numeral(5), "000.005");
    assert_eq!(frequency_numeral(0), "000");
}

#[test]
fn frequency_numeral_agrees_with_trimming_the_padded_form() {
    let mut khz = 117975u32;
    while khz <= 137000 {
        let expected = format!("{:03}.{:03}", khz / 1000, khz % 1000)
            .trim_end_matches('0')
            .trim_end_matches('.')
            .to_string();
        assert_eq!(frequency_numeral(khz), expected);
        khz += 5;
    }
}

#[test]
fn frequency_phrase_names_the_station() {
    assert_eq!(frequency_phrase(0, 121500), "contact departure 121.5");
    assert_eq!(frequency_phrase(1, 118000), "contact berlin tower 118");
    assert_eq!(frequency_phrase(7, 117975), "contact fujairah information 117.975");
    let names: Vec<&str> = (0..8).map(station).collect();
    assert_eq!(
        names,
        vec![
            "departure",
            "berlin tower",
            "apron",
            "dubai information",
            "munich approach",
            "munich tower",
            "ground",
            "fujairah information"
        ]
    );
}

#[test]
fn altitude_phrase_speaks_thousands_and_hundreds() {
    assert_eq!(altitude_phrase(1100), "altitude 1 thousand 1 hundred feet");
    assert_eq!(altitude_phrase(2000), "altitude 2 thousand feet");
    assert_eq!(altitude_phrase(5500), "altitude 5 thousand 5 hundred feet");
    assert_eq!(altitude_phrase(41900), "altitude 41 thousand 9 hundred feet");
    assert_eq!(altitude_phrase(42000), "altitude 42 thousand feet");
}

#[test]
fn altitude_up_to_a_thousand_feet_has_no_quantity() {
    for feet in [500u32, 600, 700, 800, 900, 1000] {
        assert_eq!(altitude_phrase(feet), "altitude feet");
    }
    assert_eq!(altitude_phrase(0), "altitude feet");
}
