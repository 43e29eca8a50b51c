use elp::alphabet::{get_alfabet, spell, spoken};
use elp::free_text::{
    all_capitals, capital_letter, fill_template, first_unused_letter, replaced, template,
    template_needs,
};
use elp::say_form::{prepare_message_for_say, printable};
use elp::speech::{countdown_line, holds_text, pieces, plan_speech, utterance_list, SpeechPlan};
use elp::text::{
    char_is_whitespace, chars_of, collapsed, holds, join, push_chars, push_text, removed,
    same_text, stripped_trailing, text_of, trim_end_in_place, trimmed,
};
use elp::voices::{get_voices, valid_voices, voice};

#[test]
fn marked_number_is_not_spelled() {
    assert_eq!(prepare_message_for_say("!1000 metres"), "1000 metres");
}

#[test]
fn letters_are_spelled_with_a_space_after_each() {
    assert_eq!(prepare_message_for_say("AB"), "alfa bravo ");
}

#[test]
fn every_key_is_replaced_by_its_spelling_and_one_space() {
    assert_eq!(prepare_message_for_say("A6KIA"), "alfa six kilo india alfa ");
    assert_eq!(prepare_message_for_say("runway 05 left"), "runway zero five left");
    assert_eq!(prepare_message_for_say("qnh 29.92 inches"), "qnh too niner decimal niner too inches");
    assert_eq!(
        prepare_message_for_say("A6KIA, heading 090"),
        "alfa six kilo india alfa, heading zero niner zero "
    );
    assert_eq!(prepare_message_for_say("abc xyz"), "abc xyz");
    assert_eq!(prepare_message_for_say(""), "");
}

#[test]
fn suppression_ends_at_the_next_space_or_comma() {
    assert_eq!(
        prepare_message_for_say("clouds few !1200, scattered !2500, broken !9900"),
        "clouds few 1200, scattered 2500, broken 9900"
    );
    assert_eq!(prepare_message_for_say("!12 34"), "12 tree fower ");
    assert_eq!(prepare_message_for_say("!12,34"), "12,tree fower ");
    assert_eq!(prepare_message_for_say("!AB C"), "AB charlie ");
    assert_eq!(prepare_message_for_say("1!23"), "wun 23");
    assert_eq!(prepare_message_for_say("!"), "");
    assert_eq!(prepare_message_for_say("!!"), "");
}

#[test]
fn spaces_before_a_boundary_are_trimmed() {
    assert_eq!(prepare_message_for_say("a    b"), "a b");
    assert_eq!(prepare_message_for_say("A ,B"), "alfa,bravo ");
    assert_eq!(prepare_message_for_say("a\t b"), "a b");
    assert_eq!(prepare_message_for_say("   "), " ");
    assert_eq!(prepare_message_for_say(" a"), " a");
    assert_eq!(prepare_message_for_say(" a b"), " a b");
}

#[test]
fn spoken_form_of_a_whole_bulletin() {
    let message = "this is dubai arrival information K, main landing runway 05 left, \
                   transition level 70, wind 270 degree 15 knots, visibility !5000 metres, \
                   clouds few !1200, scattered !2500, broken !9900, \
                   temperature 5 dew point minus 3, qnh 1013 hectopascals, \
                   no significant change, end of information K";
    assert_eq!(
        prepare_message_for_say(message),
        "this is dubai arrival information kilo, main landing runway zero five left, \
         transition level seven zero, wind too seven zero degree wun five knots, \
         visibility 5000 metres, clouds few 1200, scattered 2500, broken 9900, \
         temperature five dew point minus tree, qnh wun zero wun tree hectopascals, \
         no significant change, end of information kilo "
    );
    assert_eq!(
        printable(message),
        "this is dubai arrival information K, main landing runway 05 left, \
         transition level 70, wind 270 degree 15 knots, visibility 5000 metres, \
         clouds few 1200, scattered 2500, broken 9900, \
         temperature 5 dew point minus 3, qnh 1013 hectopascals, \
         no significant change, end of information K"
    );
}

#[test]
fn rendering_its_own_output_spells_nothing_more_without_keys() {
    let once = prepare_message_for_say("ab, cd ef");
    assert_eq!(prepare_message_for_say(&once), once);
}

#[test]
fn printed_form_drops_every_mark() {
    assert_eq!(printable("visibility !5000 metres"), "visibility 5000 metres");
    assert_eq!(printable("!!a!b!"), "ab");
    assert_eq!(printable("no marks"), "no marks");
    assert_eq!(printable(""), "");
}

#[test]
fn alphabet_has_thirty_nine_tokens() {
    let table = get_alfabet();
    assert_eq!(table.len(), 39);
    assert_eq!(table.get("A"), Some(&"alfa"));
    assert_eq!(table.get("J"), Some(&"juliett"));
    assert_eq!(table.get("Z"), Some(&"zulu"));
    assert_eq!(table.get("0"), Some(&"zero"));
    assert_eq!(table.get("1"), Some(&"wun"));
    assert_eq!(table.get("9"), Some(&"niner"));
    assert_eq!(table.get("."), Some(&"decimal"));
    assert_eq!(table.get("00"), Some(&"hundred"));
    assert_eq!(table.get("000"), Some(&"thousand"));
    assert_eq!(table.get("a"), None);
    assert_eq!(table.get(""), None);
    assert_eq!(table.get("0000"), None);
    assert_eq!(table.get("AB"), None);
    assert!(table.contains_key("Q"));
    assert!(!table.contains_key("!"));
}

#[test]
fn spelling_follows_the_alphabet() {
    let letters = [
        "alfa", "bravo", "charlie", "delta", "echo", "foxtrot", "golf", "hotel", "india",
        "juliett", "kilo", "lima", "mike", "november", "oscar", "papa", "quebec", "romeo",
        "sierra", "tango", "uniform", "victor", "whiskey", "xray", "yankee", "zulu",
    ];
    for (place, word) in letters.iter().enumerate() {
        let c = (b'A' + place as u8) as char;
        assert_eq!(spell(c), Some(*word));
        assert_eq!(spoken(&c.to_string()), Some(*word));
    }
    let digits = ["zero", "wun", "too", "tree", "fower", "five", "six", "seven", "ait", "niner"];
    for (place, word) in digits.iter().enumerate() {
        let c = (b'0' + place as u8) as char;
        assert_eq!(spell(c), Some(*word));
    }
    assert_eq!(spell('.'), Some("decimal"));
    assert_eq!(spell('a'), None);
    assert_eq!(spell(' '), None);
    assert_eq!(spell('!'), None);
    assert_eq!(spell('é'), None);
    assert_eq!(spoken("00"), Some("hundred"));
    assert_eq!(spoken("000"), Some("thousand"));
    assert_eq!(spoken("0"), Some("zero"));
    assert_eq!(spoken("0000"), None);
    assert_eq!(spoken("01"), None);
    assert_eq!(spoken("001"), None);
    assert_eq!(spoken(""), None);
    let table = get_alfabet();
    for code in 0u8..128 {
        let c = code as char;
        assert_eq!(table.get(&c.to_string()).copied(), spell(c));
    }
}

#[test]
fn voices_have_ten_tags() {
    let table = get_voices();
    assert_eq!(table.len(), 10);
    assert_eq!(table.get("Pilot"), Some(&"Daniel"));
    assert_eq!(table.get("ATC0"), Some(&"Kate"));
    assert_eq!(table.get("ATC1"), Some(&"Tessa"));
    assert_eq!(table.get("ATC2"), Some(&"Karen"));
    assert_eq!(table.get("ATC3"), Some(&"Samantha"));
    assert_eq!(table.get("ATC4"), Some(&"Karen"));
    assert_eq!(table.get("ATC8"), Some(&"Serena"));
    assert_eq!(table.get("ATC9"), None);
    assert_eq!(voice("Pilot"), Some("Daniel"));
    assert_eq!(voice("ATC7"), Some("Karen"));
    assert_eq!(voice("atc0"), None);
    assert_eq!(voice(""), None);
    let tags = valid_voices();
    assert_eq!(
        tags,
        vec!["ATC0", "ATC1", "ATC2", "ATC3", "ATC4", "ATC5", "ATC6", "ATC7", "ATC8", "Pilot"]
    );
    for tag in tags {
        assert_eq!(table.get(tag).copied(), voice(tag));
        assert!(voice(tag).is_some());
    }
}

#[test]
fn templates_are_four() {
    assert_eq!(template(0), "engine start-up approved");
    assert_eq!(template(1), "cleared to munich via T1B departure");
    assert_eq!(template(2), "cleared to lyon via M2F departure");
    assert_eq!(template(3), "hold short =, taxi via LFM");
    let needs: Vec<(usize, usize)> =
        (0..4).map(|index| template_needs(&chars_of(template(index)))).collect();
    assert_eq!(needs, vec![(0, 0), (1, 0), (2, 0), (3, 1)]);
}

#[test]
fn template_is_filled_with_letters_and_runway() {
    assert_eq!(
        fill_template(template(0), &vec![], &vec![]),
        Some("engine start-up approved".to_string())
    );
    assert_eq!(
        fill_template(template(1), &vec!['X'], &vec![]),
        Some("cleared to munich via tango wun xray departure".to_string())
    );
    assert_eq!(
        fill_template(template(1), &vec!['T'], &vec![]),
        Some("cleared to munich via tango wun tango departure".to_string())
    );
    assert_eq!(
        fill_template(template(2), &vec!['A', 'Z'], &vec![]),
        Some("cleared to lyon via alfa too zulu departure".to_string())
    );
    assert_eq!(
        fill_template(template(3), &vec!['Q', 'R', 'S'], &vec!["runway 05 left".to_string()]),
        Some("hold short runway 05 left, taxi via quebec romeo sierra".to_string())
    );
    assert_eq!(fill_template("A.B", &vec!['C', 'D', 'E'], &vec![]), Some("charlie delta echo".to_string()));
    assert_eq!(fill_template("T9", &vec![], &vec![]), Some("tango niner".to_string()));
    assert_eq!(fill_template(" a  b ", &vec![], &vec![]), Some("a b".to_string()));
    assert_eq!(
        fill_template("==", &vec![], &vec!["one".to_string(), "two".to_string()]),
        Some("onetwo".to_string())
    );
}

#[test]
fn template_is_not_filled_where_the_supply_does_not_fit() {
    assert_eq!(fill_template(template(1), &vec![], &vec![]), None);
    assert_eq!(fill_template(template(1), &vec!['X', 'Y'], &vec![]), None);
    assert_eq!(fill_template(template(1), &vec!['x'], &vec![]), None);
    assert_eq!(fill_template(template(1), &vec!['1'], &vec![]), None);
    assert_eq!(fill_template(template(3), &vec!['Q', 'R', 'S'], &vec![]), None);
    assert_eq!(fill_template(template(0), &vec![], &vec!["runway 05 left".to_string()]), None);
}

#[test]
fn replaced_characters_are_keys_but_t_and_digits() {
    assert!(replaced('A'));
    assert!(replaced('Z'));
    assert!(replaced('.'));
    assert!(!replaced('T'));
    assert!(!replaced('0'));
    assert!(!replaced('9'));
    assert!(!replaced('a'));
    assert!(!replaced('='));
    assert!(!replaced(' '));
    assert!(capital_letter('A') && capital_letter('Z'));
    assert!(!capital_letter('a') && !capital_letter('@') && !capital_letter('['));
    assert!(all_capitals(&vec![]));
    assert!(all_capitals(&vec!['A', 'T', 'Z']));
    assert!(!all_capitals(&vec!['A', 't']));
}

#[test]
fn first_unused_letter_skips_what_is_used() {
    assert_eq!(first_unused_letter(&vec![]), Some('A'));
    assert_eq!(first_unused_letter(&vec!['B']), Some('A'));
    assert_eq!(first_unused_letter(&vec!['A', 'C', 'B']), Some('D'));
    assert_eq!(first_unused_letter(&vec!['a']), Some('A'));
    let all: Vec<char> = ('A'..='Z').collect();
    assert_eq!(first_unused_letter(&all), None);
    let all_but_last: Vec<char> = ('A'..='Y').collect();
    assert_eq!(first_unused_letter(&all_but_last), Some('Z'));
}

#[test]
fn text_is_trimmed_and_collapsed() {
    assert_eq!(trimmed("  a b  "), "a b");
    assert_eq!(trimmed("\t\n a \r\n"), "a");
    assert_eq!(trimmed("\u{a0}a\u{3000}"), "a");
    assert_eq!(trimmed("   "), "");
    assert_eq!(trimmed(""), "");
    assert_eq!(trimmed("a"), "a");
    assert_eq!(collapsed("a  b"), "a b");
    assert_eq!(collapsed("a   b"), "a  b");
    assert_eq!(collapsed("a    b"), "a  b");
    assert_eq!(collapsed("  "), " ");
    assert_eq!(collapsed(" "), " ");
    assert_eq!(collapsed(""), "");
    assert_eq!(collapsed("a b  c   d"), "a b c  d");
    for text in ["", " ", "  ", "   ", "a  b", "a   b  c", "  a   ", "x \t  y"] {
        assert_eq!(collapsed(text), text.replace("  ", " "));
        assert_eq!(trimmed(text), text.trim());
    }
}

#[test]
fn whitespace_is_what_the_standard_library_takes_for_it() {
    for code in 0u32..0x3100 {
        if let Some(c) = char::from_u32(code) {
            assert_eq!(char_is_whitespace(c), c.is_whitespace(), "{code:x}");
        }
    }
}

#[test]
fn trailing_run_is_stripped() {
    assert_eq!(stripped_trailing("121.500", '0'), "121.5");
    assert_eq!(stripped_trailing("118.000", '0'), "118.");
    assert_eq!(stripped_trailing("118.", '.'), "118");
    assert_eq!(stripped_trailing("000", '0'), "");
    assert_eq!(stripped_trailing("", '0'), "");
    assert_eq!(stripped_trailing("0a", '0'), "0a");
    assert_eq!(removed("a!b!!c", '!'), "abc");
}

#[test]
fn text_helpers_keep_the_characters() {
    assert_eq!(chars_of("a6é"), vec!['a', '6', 'é']);
    assert_eq!(text_of(&vec!['a', '6', 'é']), "a6é");
    let mut out = String::from("x");
    push_chars(&mut out, &vec!['a', 'b', 'c', 'd'], 1, 3);
    assert_eq!(out, "xbc");
    let mut chars = vec!['x'];
    push_text(&mut chars, "yz");
    assert_eq!(chars, vec!['x', 'y', 'z']);
    let mut padded = vec!['a', ' ', '\t', ' '];
    trim_end_in_place(&mut padded);
    assert_eq!(padded, vec!['a']);
    assert!(holds(&vec!['a', 'b'], 'b'));
    assert!(!holds(&vec!['a', 'b'], 'c'));
    assert!(same_text("ANY", "ANY"));
    assert!(!same_text("ANY", "ANX"));
    assert!(!same_text("ANY", "AN"));
    assert!(!same_text("", "A"));
    assert!(same_text("", ""));
    assert_eq!(join(&vec![], ", "), "");
    assert_eq!(join(&vec!["a".to_string()], ", "), "a");
    assert_eq!(join(&vec!["a".to_string(), "b".to_string(), "".to_string()], ", "), "a, b, ");
}

#[test]
fn text_is_split_at_its_commas() {
    assert_eq!(pieces("a,b", ','), vec!["a", "b"]);
    assert_eq!(pieces("", ','), vec![""]);
    assert_eq!(pieces("a,", ','), vec!["a", ""]);
    assert_eq!(pieces(",a,,b", ','), vec!["", "a", "", "b"]);
    assert_eq!(pieces("abc", ','), vec!["abc"]);
    for text in ["", ",", "a, b ,c", "no comma", ",,"] {
        let expected: Vec<String> = text.split(',').map(|part| part.to_string()).collect();
        assert_eq!(pieces(text, ','), expected);
        assert_eq!(pieces(text, ',').join(","), text);
    }
    assert_eq!(utterance_list("a, b ,c", true), vec!["a", "b", "c"]);
    assert_eq!(utterance_list("a, b ,c", false), vec!["a, b ,c"]);
    assert_eq!(utterance_list("", true), vec![""]);
}

#[test]
fn pattern_is_found_where_it_stands() {
    assert!(holds_text("wait !Pause now", "!Pause"));
    assert!(holds_text("!Pause", "!Pause"));
    assert!(holds_text("x!Pause", "!Pause"));
    assert!(!holds_text("!Paus", "!Pause"));
    assert!(!holds_text("! Pause", "!Pause"));
    assert!(!holds_text("", "!Pause"));
    assert!(holds_text("", ""));
    assert!(holds_text("abc", ""));
    assert!(holds_text("aab", "ab"));
}

#[test]
fn speech_is_planned_from_text_voice_and_flag() {
    match plan_speech("alfa, bravo", "ATC0", false) {
        SpeechPlan::Speak { voice_name, utterances } => {
            assert_eq!(voice_name, "Kate");
            assert_eq!(utterances, vec!["alfa, bravo"]);
        }
        _ => panic!("the text is to be spoken"),
    }
    match plan_speech("alfa, bravo , charlie", "Pilot", true) {
        SpeechPlan::Speak { voice_name, utterances } => {
            assert_eq!(voice_name, "Daniel");
            assert_eq!(utterances, vec!["alfa", "bravo", "charlie"]);
        }
        _ => panic!("the text is to be spoken"),
    }
    assert!(matches!(plan_speech("!Pause", "ATC0", true), SpeechPlan::Pause));
    assert!(matches!(plan_speech("a !Pause b", "ATC8", false), SpeechPlan::Pause));
    assert!(matches!(plan_speech("alfa", "ATC9", false), SpeechPlan::Nothing));
    assert!(matches!(plan_speech("!Pause", "nobody", false), SpeechPlan::Nothing));
}

#[test]
fn countdown_counts_seconds() {
    assert_eq!(countdown_line(5), "\rBe ready in 5 seconds...  \r");
    assert_eq!(countdown_line(1), "\rBe ready in 1 second...  \r");
    assert_eq!(countdown_line(0), "\rBe ready in 0 seconds...  \r");
    for seconds in [1u32, 2, 10, 3600] {
        let expected = format!(
            "\rBe ready in {} second{}..  \r",
            seconds,
            if seconds == 1 { "." } else { "s." }
        );
        assert_eq!(countdown_line(seconds), expected);
    }
}
