use elp::any_message::{compose_any, placeholder_marks};
use elp::atis::{airport, Atis};
use elp::config::{clone_config, ConfigElp};
use elp::elp_service::{get_any_message, get_atis_message, get_message, get_segment};
use elp::say_form::{prepare_message_for_say, printable};

fn config_for(call_sign: &str) -> ConfigElp {
    ConfigElp::new(
        call_sign.to_string(),
        "ANY".to_string(),
        1,
        180,
        5,
        false,
        false,
        "ATC0".to_string(),
    )
}

fn sample_atis() -> Atis {
    Atis {
        airport: "dubai".to_string(),
        letter: 'K',
        runway: "runway 05 left".to_string(),
        transition_level: 70,
        wind: "wind 270 degree 15 knots".to_string(),
        visibility: 5000,
        few: 1200,
        scattered: 2500,
        broken: 9900,
        temperature: "temperature 5 dew point minus 3".to_string(),
        qnh: "qnh 1013 hectopascals".to_string(),
    }
}

#[test]
fn atis_message_has_its_ten_segments_in_order() {
    let atis = sample_atis();
    assert_eq!(
        atis.message(),
        "this is dubai arrival information K, main landing runway 05 left, \
         transition level 70, wind 270 degree 15 knots, visibility !5000 metres, \
         clouds few !1200, scattered !2500, broken !9900, \
         temperature 5 dew point minus 3, qnh 1013 hectopascals, \
         no significant change, end of information K"
    );
    let segments = atis.segment_list();
    assert_eq!(segments.len(), 10);
    assert_eq!(segments[0], "this is dubai arrival information K");
    assert_eq!(segments[5], "clouds few !1200, scattered !2500, broken !9900");
    assert_eq!(segments[9], "end of information K");
    assert_eq!(atis.message(), segments.join(", "));
}

#[test]
fn airports_are_eight() {
    let names: Vec<&str> = (0..8).map(airport).collect();
    assert_eq!(
        names,
        vec![
            "schiphol",
            "dubai",
            "new york",
            "detroit",
            "abu dhabi",
            "warsaw",
            "berlin",
            "al bateen"
        ]
    );
}

fn check_atis(message: &str) {
    let parts: Vec<&str> = message.split(", ").collect();
    // ten segments, of which the one on the clouds holds two commas of its own
    assert_eq!(parts.len(), 12, "{message}");
    let first = parts[0];
    let last = parts[11];
    let rest = first.strip_prefix("this is ").unwrap();
    let at = rest.find(" arrival information ").unwrap();
    let airports = [
        "schiphol",
        "dubai",
        "new york",
        "detroit",
        "abu dhabi",
        "warsaw",
        "berlin",
        "al bateen",
    ];
    assert!(airports.contains(&&rest[..at]), "{message}");
    let letter = &rest[at + " arrival information ".len()..];
    assert_eq!(letter.len(), 1);
    assert!(letter.chars().all(|c| c.is_ascii_uppercase()));
    assert_eq!(last, format!("end of information {letter}"));
    assert!(parts[1].starts_with("main landing runway "));
    let level: u32 = parts[2].strip_prefix("transition level ").unwrap().parse().unwrap();
    assert!((50..=100).contains(&level) && level % 10 == 0);
    assert!(parts[3].starts_with("wind "));
    let visibility: u32 = parts[4]
        .strip_prefix("visibility !")
        .unwrap()
        .strip_suffix(" metres")
        .unwrap()
        .parse()
        .unwrap();
    assert!((100..=10000).contains(&visibility) && visibility % 100 == 0);
    let few: u32 = parts[5].strip_prefix("clouds few !").unwrap().parse().unwrap();
    let scattered: u32 = parts[6].strip_prefix("scattered !").unwrap().parse().unwrap();
    let broken: u32 = parts[7].strip_prefix("broken !").unwrap().parse().unwrap();
    assert!((1000..=2500).contains(&few) && few % 100 == 0);
    assert!((2500..=3500).contains(&scattered) && scattered % 100 == 0);
    assert!((3500..=10000).contains(&broken) && broken % 100 == 0);
    assert!(parts[8].starts_with("temperature "));
    assert!(parts[9].starts_with("qnh ") && parts[9].ends_with(" hectopascals"));
    assert_eq!(parts[10], "no significant change");
}

#[test]
fn drawn_atis_names_its_letter_first_and_last() {
    for _ in 0..300 {
        check_atis(&get_atis_message());
    }
}

#[test]
fn render_atis_yields_the_bulletin() {
    let config = config_for("A6KIA");
    for _ in 0..50 {
        check_atis(&get_message("ATIS", &config));
    }
}

#[test]
fn compose_any_puts_the_call_sign_first() {
    let segments = vec![
        "runway 05 left".to_string(),
        "flight level 60".to_string(),
        "squawk 2001".to_string(),
    ];
    assert_eq!(
        compose_any("A6KIA", &segments),
        "A6KIA, runway 05 left, flight level 60, squawk 2001"
    );
    assert_eq!(compose_any("A6KIA", &vec!["heading 010".to_string()]), "A6KIA, heading 010");
    assert_eq!(compose_any(" N1 ", &vec!["heading 010".to_string()]), " N1 , heading 010");
}

#[test]
fn placeholders_are_nine_different_marks() {
    let marks = placeholder_marks();
    assert_eq!(marks, vec!['*', '^', '&', '=', '@', '!', '$', '-', '+']);
}

#[test]
fn each_mark_gives_a_phrase_of_its_kind() {
    for _ in 0..50 {
        assert!(get_segment('=').starts_with("runway "));
        assert!(get_segment('*').starts_with("flight level "));
        assert!(get_segment('!').starts_with("qnh "));
        assert!(get_segment('$').starts_with("altitude"));
        assert!(get_segment('@').starts_with("contact "));
        assert!(get_segment('^').starts_with("heading "));
        assert!(get_segment('&').starts_with("squawk "));
        assert!(get_segment('-').starts_with("wind "));
        let free = get_segment('+');
        assert!(
            free.starts_with("engine ") || free.starts_with("cleared ") || free.starts_with("hold "),
            "{free}"
        );
    }
    assert_eq!(get_segment('x'), "x");
    assert_eq!(get_segment('?'), "?");
}

fn kind_of(segment: &str) -> usize {
    let starts = [
        "runway ",
        "flight level ",
        "qnh ",
        "altitude",
        "contact ",
        "heading ",
        "squawk ",
        "wind ",
    ];
    match starts.iter().position(|start| segment.starts_with(start)) {
        Some(kind) => kind,
        None => 8,
    }
}

fn check_any(message: &str, call_sign: &str) -> Vec<usize> {
    let rest = message.strip_prefix(call_sign).unwrap();
    let rest = rest.strip_prefix(", ").unwrap();
    let mut parts: Vec<String> = rest.split(", ").map(|part| part.to_string()).collect();
    // the taxi clearance holds one comma of its own
    if let Some(at) = parts.iter().position(|part| part.starts_with("hold short runway ")) {
        let tail = parts.remove(at + 1);
        assert!(tail.starts_with("taxi via "), "{message}");
        parts[at] = format!("{}, {}", parts[at], tail);
        assert_eq!(message.split(", ").count(), 11);
    } else {
        assert_eq!(message.split(", ").count(), 10);
    }
    assert_eq!(parts.len(), 9, "{message}");
    let order: Vec<usize> = parts.iter().map(|part| kind_of(part)).collect();
    let mut sorted = order.clone();
    sorted.sort();
    assert_eq!(sorted, vec![0, 1, 2, 3, 4, 5, 6, 7, 8], "{message}");
    assert!(!message.ends_with(','));
    assert!(!message.ends_with(' '));
    for mark in ['=', '*', '$', '@', '^', '&', '+'] {
        assert!(!message.contains(mark), "{message}");
    }
    assert!(!message.contains('!'), "{message}");
    order
}

#[test]
fn any_message_holds_each_kind_once() {
    let config = config_for("A6KIA");
    for _ in 0..300 {
        check_any(&get_any_message(&config), "A6KIA");
    }
}

#[test]
fn any_message_uses_the_call_sign_as_given() {
    let config = config_for("  d-abcd ");
    let message = get_any_message(&config);
    assert!(message.starts_with("  d-abcd , "));
}

#[test]
fn any_message_comes_in_more_than_one_order() {
    let config = config_for("A6KIA");
    let mut orders = std::collections::HashSet::new();
    for _ in 0..50 {
        orders.insert(check_any(&get_any_message(&config), "A6KIA"));
    }
    assert!(orders.len() > 10);
    assert!(orders.iter().any(|order| *order != vec![1, 5, 6, 0, 4, 2, 3, 7, 8]));
}

#[test]
fn render_any_yields_call_sign_and_nine_segments() {
    let config = config_for("A6KIA");
    for _ in 0..50 {
        check_any(&get_message("ANY", &config), "A6KIA");
    }
}

#[test]
fn render_unknown_yields_the_error_sentence() {
    let config = config_for("A6KIA");
    assert_eq!(get_message("UNKNOWN", &config), "Unknown type of the message!");
    assert_eq!(get_message("", &config), "Unknown type of the message!");
    assert_eq!(get_message("any", &config), "Unknown type of the message!");
    assert_eq!(get_message("ATIS ", &config), "Unknown type of the message!");
    assert_eq!(get_message("AN", &config), "Unknown type of the message!");
}

#[test]
fn drawn_messages_render_without_marks_or_double_spaces() {
    let config = config_for("A6KIA");
    for kind in ["ANY", "ATIS"] {
        for _ in 0..100 {
            let message = get_message(kind, &config);
            let spoken = prepare_message_for_say(&message);
            assert!(!spoken.contains('!'), "{spoken}");
            assert!(!spoken.contains("  "), "{spoken}");
            let printed = printable(&message);
            assert!(!printed.contains('!'));
            assert_eq!(printed, message.replace('!', ""));
        }
    }
}

#[test]
fn config_is_copied_field_by_field() {
    let config = ConfigElp::new(
        "A6KIB".to_string(),
        "ATIS".to_string(),
        3,
        200,
        7,
        true,
        false,
        "Pilot".to_string(),
    );
    assert_eq!(config.call_sign, "A6KIB");
    assert_eq!(config.msg_type, "ATIS");
    assert_eq!(config.num_msg, 3);
    assert_eq!(config.rate, 200);
    assert_eq!(config.pause, 7);
    assert!(config.comma);
    assert!(!config.sayagain);
    assert_eq!(config.voice, "Pilot");
    let copy = clone_config(&config);
    assert_eq!(copy.call_sign, "A6KIB");
    assert_eq!(copy.msg_type, "ATIS");
    assert_eq!(copy.num_msg, 3);
    assert_eq!(copy.rate, 200);
    assert_eq!(copy.pause, 7);
    assert!(copy.comma);
    assert!(!copy.sayagain);
    assert_eq!(copy.voice, "Pilot");
    let again = config.clone();
    assert_eq!(again.call_sign, "A6KIB");
    assert_eq!(again.voice, "Pilot");
    assert_eq!(format!("{:?}", again), format!("{:?}", config));
}

#[test]
fn config_defaults_and_flags() {
    let config = ConfigElp::default();
    assert_eq!(config.call_sign, "A6KIA");
    assert_eq!(config.msg_type, "ANY");
    assert_eq!(config.num_msg, 1);
    assert_eq!(config.rate, 180);
    assert_eq!(config.pause, 5);
    assert!(!config.comma);
    assert!(!config.sayagain);
    assert_eq!(config.voice, "ATC0");
    assert!(!ConfigElp::parse_bool(0));
    assert!(ConfigElp::parse_bool(1));
    assert!(ConfigElp::parse_bool(2));
    assert!(ConfigElp::parse_bool(u32::MAX));
}
