use elp::elp_service::{
    get_altitude, get_fl, get_frequency, get_heading, get_qnh, get_random_msg, get_rw,
    get_squawk, get_temperature, get_wind,
};

#[test]
fn test_get_rw() {
    let x = get_rw();
    let mut y = x.replace("runway", "");
    y = y.replace("left", "");
    y = y.replace("right", "").trim().to_string();
    let rw: i32 = y.parse().unwrap();

    assert!(x.contains("runway"));
    assert!(x.contains("left") || x.contains("right"));
    assert!((0..=36).contains(&rw));
}

#[test]
fn test_get_fl() {
    let x = get_fl();
    let mut y = x.replace("flight", "");
    y = y.replace("level", "").trim().to_string();
    let fl: i32 = y.parse().unwrap();

    assert!(x.contains("flight"));
    assert!(x.contains("level"));
    assert!((60..=420).contains(&fl));
    assert!(fl % 5 == 0);
}

#[test]
fn test_get_wind() {
    let x = get_wind();
    let mut y = x.replace("wind", "");
    y = y.replace("knots", "").trim().to_string();
    let values: Vec<&str> = y.split("degree").collect();
    let degree_str = values[0].trim().to_string();
    let velocity_str = values[1].trim().to_string();

    let degree: i32 = degree_str.parse().unwrap();
    let velocity: i32 = velocity_str.parse().unwrap();

    assert!(x.contains("wind"));
    assert!(x.contains("degree"));
    assert!(x.contains("knots"));
    assert!((0..=360).contains(&degree));
    assert!(degree % 10 == 0);
    assert!((1..=50).contains(&velocity));
}

#[test]
fn test_get_squawk() {
    let forbidden = [7500, 7600, 7700];

    let x = get_squawk();
    let y = x.replace("squawk", "").trim().to_string();
    let sq: i32 = y.parse().unwrap();

    assert!(x.contains("squawk"));
    assert!((2000..=9999).contains(&sq));
    assert!(!forbidden.contains(&sq));
}

#[test]
fn test_get_heading() {
    let x = get_heading();
    let y = x.replace("heading", "").trim().to_string();
    let h: i32 = y.parse().unwrap();

    assert!(x.contains("heading"));
    assert!((0..=360).contains(&h));
    assert!(h % 10 == 0);
}

#[test]
fn test_get_temperature() {
    let x = get_temperature();
    let mut y = x.replace("temperature", "").trim().to_string();
    y = y.replace("minus ", "-").trim().to_string();
    let values: Vec<&str> = y.split("dew point").collect();
    let temp_str = values[0].trim().to_string();
    let dew_point_str = values[1].trim().to_string();

    let temp: i32 = temp_str.parse().unwrap();
    let dew_point: i32 = dew_point_str.parse().unwrap();

    assert!(x.contains("temperature"));
    assert!(x.contains("dew point"));
    assert!((-30..=50).contains(&temp));
    assert!(dew_point >= (temp - 15) && dew_point <= temp);
}

#[test]
fn test_get_altitude() {
    let x = get_altitude();
    assert!(x.contains("altitude"));
    assert!(x.contains("feet"));

    let mut y = x.replace("altitude", "").trim().to_string();
    y = y.replace("feet", "").trim().to_string();

    if x.contains("thousand") && x.contains("hundred") {
        y = y.replace("hundred", "").trim().to_string();
        let values: Vec<&str> = y.split("thousand").collect();
        let thousands_str = values[0].trim().to_string();
        let hundreds_str = values[1].trim().to_string();
        let thousands: i32 = thousands_str.parse().unwrap();
        let hundreds: i32 = hundreds_str.parse().unwrap();
        assert!((1..=42).contains(&thousands));
        assert!((1..=9).contains(&hundreds));
    } else if x.contains("thousand") {
        y = y.replace("thousand", "").trim().to_string();
        let thousands: i32 = y.parse().unwrap();
        assert!((1..=42).contains(&thousands));
    } else if x.contains("hundred") {
        y = y.replace("hundred", "").trim().to_string();
        let hundreds: i32 = y.parse().unwrap();
        assert!((1..=9).contains(&hundreds));
    }
}

#[test]
fn test_get_qnh() {
    let x = get_qnh(true);
    let mut y = x.replace("qnh", "").trim().to_string();

    if x.contains("hectopascals") {
        y = y.replace("hectopascals", "").trim().to_string();
        let qnh: i32 = y.parse().unwrap();
        assert!((931..=1066).contains(&qnh));
    } else if x.contains("inches") {
        y = y.replace("inches", "").trim().to_string();
        let qnh: f32 = y.parse().unwrap();
        assert!((27.50..=31.50).contains(&qnh));
    } else {
        assert!(x.contains("somethingelse"));
    }
    assert!(x.contains("qnh"));
}

#[test]
fn test_get_frequency() {
    let x = get_frequency();
    assert!(x.contains("contact"));

    let frequency_str: String = x.chars().filter(|c| !c.is_alphabetic()).collect();
    let frequency: f32 = frequency_str.trim().parse().unwrap();

    assert!((117.975..=137.0).contains(&frequency))
}

fn is_runway_phrase(text: &str) -> bool {
    let bytes = text.as_bytes();
    if bytes.len() < 10 || &text[..7] != "runway " || bytes[9] != b' ' {
        return false;
    }
    let number_fits = match (bytes[7], bytes[8]) {
        (b'0', b'1'..=b'9') => true,
        (b'1'..=b'2', b'0'..=b'9') => true,
        (b'3', b'0'..=b'6') => true,
        _ => false,
    };
    number_fits && (&text[10..] == "left" || &text[10..] == "right")
}

#[test]
fn runway_always_matches_its_pattern() {
    for _ in 0..500 {
        let phrase = get_rw();
        assert!(is_runway_phrase(&phrase), "{phrase}");
    }
}

#[test]
fn flight_level_is_a_multiple_of_five_in_range() {
    for _ in 0..500 {
        let phrase = get_fl();
        let level: u32 = phrase.strip_prefix("flight level ").unwrap().parse().unwrap();
        assert!((60..=420).contains(&level) && level % 5 == 0, "{phrase}");
    }
}

#[test]
fn squawk_has_four_digits_and_is_never_forbidden() {
    for _ in 0..2000 {
        let phrase = get_squawk();
        let digits = phrase.strip_prefix("squawk ").unwrap();
        assert_eq!(digits.len(), 4);
        let code: u32 = digits.parse().unwrap();
        assert!((2000..=9999).contains(&code));
        assert!(![2000, 7000, 7500, 7600, 7700].contains(&code), "{phrase}");
    }
}

#[test]
fn heading_has_three_digits_and_is_a_multiple_of_ten() {
    for _ in 0..500 {
        let phrase = get_heading();
        let digits = phrase.strip_prefix("heading ").unwrap();
        assert_eq!(digits.len(), 3);
        let bearing: u32 = digits.parse().unwrap();
        assert!((10..=360).contains(&bearing) && bearing % 10 == 0, "{phrase}");
    }
}

#[test]
fn wind_bearing_and_velocity_are_in_range() {
    for _ in 0..500 {
        let phrase = get_wind();
        let rest = phrase.strip_prefix("wind ").unwrap();
        let rest = rest.strip_suffix(" knots").unwrap();
        let parts: Vec<&str> = rest.split(" degree ").collect();
        assert_eq!(parts.len(), 2);
        assert_eq!(parts[0].len(), 3);
        let bearing: u32 = parts[0].parse().unwrap();
        let velocity: u32 = parts[1].parse().unwrap();
        assert!((10..=360).contains(&bearing) && bearing % 10 == 0, "{phrase}");
        assert!((1..=50).contains(&velocity), "{phrase}");
    }
}

fn signed(text: &str) -> i32 {
    match text.strip_prefix("minus ") {
        Some(magnitude) => -magnitude.parse::<i32>().unwrap(),
        None => text.parse().unwrap(),
    }
}

#[test]
fn temperature_and_dew_point_are_in_range_without_double_space() {
    for _ in 0..500 {
        let phrase = get_temperature();
        assert!(!phrase.contains("  "), "{phrase}");
        let rest = phrase.strip_prefix("temperature ").unwrap();
        let parts: Vec<&str> = rest.split(" dew point ").collect();
        assert_eq!(parts.len(), 2);
        let temperature = signed(parts[0]);
        let dew_point = signed(parts[1]);
        assert!((-30..=50).contains(&temperature), "{phrase}");
        assert!(temperature - 15 <= dew_point && dew_point <= temperature, "{phrase}");
    }
}

#[test]
fn qnh_without_inches_is_always_metric() {
    for _ in 0..500 {
        let phrase = get_qnh(false);
        let rest = phrase.strip_prefix("qnh ").unwrap();
        let number = rest.strip_suffix(" hectopascals").unwrap();
        let pressure: u32 = number.parse().unwrap();
        assert!((931..=1066).contains(&pressure), "{phrase}");
    }
}

#[test]
fn qnh_with_inches_has_two_fractional_digits() {
    let mut metric = 0;
    let mut imperial = 0;
    for _ in 0..500 {
        let phrase = get_qnh(true);
        let rest = phrase.strip_prefix("qnh ").unwrap();
        if let Some(number) = rest.strip_suffix(" inches") {
            imperial += 1;
            let parts: Vec<&str> = number.split('.').collect();
            assert_eq!(parts.len(), 2);
            assert_eq!(parts[1].len(), 2);
            let hundredths = parts[0].parse::<u32>().unwrap() * 100 + parts[1].parse::<u32>().unwrap();
            assert!((2750..=3150).contains(&hundredths), "{phrase}");
        } else {
            metric += 1;
            let number = rest.strip_suffix(" hectopascals").unwrap();
            let pressure: u32 = number.parse().unwrap();
            assert!((931..=1066).contains(&pressure), "{phrase}");
        }
    }
    assert!(metric > 0 && imperial > 0);
}

#[test]
fn frequency_is_a_channel_of_the_band() {
    let stations = [
        "departure",
        "berlin tower",
        "apron",
        "dubai information",
        "munich approach",
        "munich tower",
        "ground",
        "fujairah information",
    ];
    for _ in 0..500 {
        let phrase = get_frequency();
        let rest = phrase.strip_prefix("contact ").unwrap();
        let at = rest.rfind(' ').unwrap();
        assert!(stations.contains(&&rest[..at]), "{phrase}");
        let numeral = &rest[at + 1..];
        assert!(!numeral.ends_with('.'));
        assert!(!(numeral.contains('.') && numeral.ends_with('0')));
        let parts: Vec<&str> = numeral.split('.').collect();
        let mhz: u32 = parts[0].parse().unwrap();
        let khz: u32 = if parts.len() == 2 {
            format!("{:0<3}", parts[1]).parse().unwrap()
        } else {
            0
        };
        let value = mhz * 1000 + khz;
        assert!((117975..=137000).contains(&value) && value % 5 == 0, "{phrase}");
        let as_float: f64 = numeral.parse().unwrap();
        assert!((117.975..=137.0).contains(&as_float));
    }
}

fn altitude_parts(phrase: &str) -> Option<(Option<u32>, Option<u32>)> {
    let rest = phrase.strip_prefix("altitude")?;
    let rest = rest.strip_suffix(" feet")?;
    let words: Vec<&str> = rest.split(' ').collect();
    match words.as_slice() {
        [""] => Some((None, None)),
        ["", t, "thousand"] => Some((Some(t.parse().ok()?), None)),
        ["", h, "hundred"] => Some((None, Some(h.parse().ok()?))),
        ["", t, "thousand", h, "hundred"] => Some((Some(t.parse().ok()?), Some(h.parse().ok()?))),
        _ => None,
    }
}

#[test]
fn altitude_always_matches_its_pattern() {
    for _ in 0..2000 {
        let phrase = get_altitude();
        let (thousands, hundreds) = altitude_parts(&phrase).expect(&phrase);
        if let Some(t) = thousands {
            assert!((1..=42).contains(&t), "{phrase}");
        }
        if let Some(h) = hundreds {
            assert!((1..=9).contains(&h), "{phrase}");
            assert!(thousands.is_some(), "{phrase}");
        }
    }
}

#[test]
fn random_message_comes_of_a_template() {
    for _ in 0..500 {
        let phrase = get_random_msg();
        assert!(!phrase.contains("  "), "{phrase}");
        assert_eq!(phrase.trim(), phrase);
        assert!(!phrase.contains('='));
        assert!(
            phrase == "engine start-up approved"
                || (phrase.starts_with("cleared to munich via tango wun ")
                    && phrase.ends_with(" departure"))
                || (phrase.starts_with("cleared to lyon via ") && phrase.ends_with(" departure"))
                || (phrase.starts_with("hold short runway ") && phrase.contains(", taxi via ")),
            "{phrase}"
        );
    }
}

#[test]
fn draws_differ_from_call_to_call() {
    let mut levels = std::collections::HashSet::new();
    let mut sides = std::collections::HashSet::new();
    for _ in 0..300 {
        levels.insert(get_fl());
        sides.insert(get_rw().ends_with("left"));
    }
    assert!(levels.len() > 10);
    assert_eq!(sides.len(), 2);
}
