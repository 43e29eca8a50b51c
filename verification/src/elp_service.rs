//! The generators: each draws the values of its field by chance and hands
//! back the phrase.
//!
//! A generator promises that its phrase is one of the phrases of its field;
//! which one depends on the draw.

use crate::any_message::{
    any_text, compose_any, is_any_message, is_arrangement, is_segment_for, placeholder_marks,
};
use crate::atis::{airport, is_atis, Atis};
use crate::config::ConfigElp;
use crate::free_text::{
    fill_template, first_unused_letter, fits, free_text, is_capital, is_random_message,
    lemma_count_prefix, lemma_template_needs, replaced, replaced_count, runway_count, template,
    template_text, RUNWAY_MARK,
};
use crate::phrases::{
    altitude_phrase, flight_level_phrase, forbidden_squawk, frequency_phrase, heading_phrase,
    is_altitude, is_contact, is_flight_level, is_heading, is_qnh, is_runway, is_squawk,
    is_temperature, is_wind, permitted_squawk, qnh_inches_phrase, qnh_metric_phrase,
    rounded_down, runway_number, runway_phrase, squawk_phrase, temperature_phrase, wind_phrase,
};
use crate::random::{gen_range, shuffle};
use crate::text::{chars_of, holds, same_text, texts};
use rand::rngs::ThreadRng;
use vstd::prelude::*;

verus! {

/// How often a generator draws again after a draw that it cannot use.
pub const MAX_DRAWS: u32 = 1000;

/// A frequency phrase: a station and a channel of the aeronautical band.
pub fn get_frequency() -> (phrase: String)
    ensures
        is_contact(phrase@),
{
    let mut rng = rand::thread_rng();
    let khz = rounded_down(gen_range(&mut rng, 117975, 137000) as u32, 5);
    let station = gen_range(&mut rng, 0, 7) as usize;
    frequency_phrase(station, khz)
}

/// A runway phrase.
pub fn get_rw() -> (phrase: String)
    ensures
        is_runway(phrase@),
{
    let mut rng = rand::thread_rng();
    let number = runway_number(gen_range(&mut rng, 10, 360) as u32);
    let side = gen_range(&mut rng, 0, 1) as usize;
    runway_phrase(number, side)
}

/// A wind phrase.
pub fn get_wind() -> (phrase: String)
    ensures
        is_wind(phrase@),
{
    let mut rng = rand::thread_rng();
    let bearing = rounded_down(gen_range(&mut rng, 10, 360) as u32, 10);
    let velocity = gen_range(&mut rng, 1, 50) as u32;
    wind_phrase(bearing, velocity)
}

/// A squawk phrase. A forbidden code is drawn again, up to `MAX_DRAWS`
/// draws in all; should the last draw be forbidden too, the code after it is
/// taken.
pub fn get_squawk() -> (phrase: String)
    ensures
        is_squawk(phrase@),
{
    let mut rng = rand::thread_rng();
    let mut code = gen_range(&mut rng, 2000, 9999) as u32;
    let mut draws: u32 = 1;
    while forbidden_squawk(code) && draws < MAX_DRAWS
        invariant
            2000 <= code <= 9999,
            draws <= MAX_DRAWS,
        decreases MAX_DRAWS - draws,
    {
        code = gen_range(&mut rng, 2000, 9999) as u32;
        draws += 1;
    }
    squawk_phrase(permitted_squawk(code))
}

/// A flight-level phrase.
pub fn get_fl() -> (phrase: String)
    ensures
        is_flight_level(phrase@),
{
    let mut rng = rand::thread_rng();
    let level = rounded_down(gen_range(&mut rng, 60, 420) as u32, 5);
    flight_level_phrase(level)
}

/// An altitude phrase.
pub fn get_altitude() -> (phrase: String)
    ensures
        is_altitude(phrase@),
{
    let mut rng = rand::thread_rng();
    let feet = rounded_down(gen_range(&mut rng, 500, 42000) as u32, 100);
    altitude_phrase(feet)
}

/// A heading phrase.
pub fn get_heading() -> (phrase: String)
    ensures
        is_heading(phrase@),
{
    let mut rng = rand::thread_rng();
    let bearing = rounded_down(gen_range(&mut rng, 10, 360) as u32, 10);
    heading_phrase(bearing)
}

/// A pressure phrase. Without `imperial` it is metric; with it, a fair coin
/// decides between hectopascals and inches.
pub fn get_qnh(imperial: bool) -> (phrase: String)
    ensures
        is_qnh(phrase@, imperial),
{
    let mut rng = rand::thread_rng();
    if !imperial || gen_range(&mut rng, 0, 1) == 0 {
        qnh_metric_phrase(gen_range(&mut rng, 931, 1066) as u32)
    } else {
        qnh_inches_phrase(gen_range(&mut rng, 2750, 3150) as u32)
    }
}

/// A temperature phrase: the dew point is drawn from the fifteen degrees
/// below the temperature that was drawn first.
pub fn get_temperature() -> (phrase: String)
    ensures
        is_temperature(phrase@),
{
    let mut rng = rand::thread_rng();
    let temperature = gen_range(&mut rng, -30, 50);
    let dew_point = gen_range(&mut rng, temperature - 15, temperature);
    temperature_phrase(temperature, dew_point)
}

/// A capital letter that does not occur in `used`. A letter that occurs is
/// drawn again, up to `MAX_DRAWS` draws in all; should the last draw occur
/// too, the first letter that does not occur is taken.
fn draw_letter(rng: &mut ThreadRng, used: &Vec<char>) -> (letter: char)
    requires
        used.len() < 26,
    ensures
        is_capital(letter),
        !used@.contains(letter),
{
    let mut letter = (65u8 + gen_range(rng, 0, 25) as u8) as char;
    let mut draws: u32 = 1;
    while holds(used, letter) && draws < MAX_DRAWS
        invariant
            is_capital(letter),
            draws <= MAX_DRAWS,
        decreases MAX_DRAWS - draws,
    {
        letter = (65u8 + gen_range(rng, 0, 25) as u8) as char;
        draws += 1;
    }
    if holds(used, letter) {
        first_unused_letter(used).unwrap()
    } else {
        letter
    }
}

/// A free-form clearance: one of the templates, its designator letters
/// drawn afresh so that none occurs twice, its runway mark replaced by a
/// runway phrase.
pub fn get_random_msg() -> (phrase: String)
    ensures
        is_random_message(phrase@),
{
    let mut rng = rand::thread_rng();
    let index = gen_range(&mut rng, 0, 3) as usize;
    let chosen = template(index);
    let chars = chars_of(chosen);
    let mut letters: Vec<char> = Vec::new();
    let mut runways: Vec<String> = Vec::new();
    let mut i: usize = 0;
    proof {
        lemma_template_needs(index as nat);
    }
    while i < chars.len()
        invariant
            i <= chars.len(),
            replaced_count(chars@) <= 3,
            letters.len() == replaced_count(chars@.take(i as int)),
            runways.len() == runway_count(chars@.take(i as int)),
            letters@.no_duplicates(),
            forall|k: int| 0 <= k < letters.len() ==> is_capital(#[trigger] letters@[k]),
            forall|k: int|
                0 <= k < runways.len() ==> is_runway(#[trigger] texts(runways@)[k]),
        decreases chars.len() - i,
    {
        let c = chars[i];
        proof {
            assert(chars@.take(i + 1).drop_last() =~= chars@.take(i as int));
            assert(chars@.take(i + 1).last() == c);
            lemma_count_prefix(chars@, i + 1);
            lemma_count_prefix(chars@, i as int);
        }
        if replaced(c) {
            let letter = draw_letter(&mut rng, &letters);
            letters.push(letter);
        } else if c == RUNWAY_MARK {
            let runway = get_rw();
            let ghost before = texts(runways@);
            runways.push(runway);
            assert(texts(runways@) =~= before.push(runway@));
        }
        i += 1;
    }
    proof {
        assert(chars@.take(i as int) =~= chars@);
        assert(fits(template_text(index as nat), letters@, texts(runways@)));
    }
    let phrase = fill_template(chosen, &letters, &runways).unwrap();
    assert(phrase@ == free_text(template_text(index as nat), letters@, texts(runways@)));
    phrase
}

/// An arrival-information bulletin.
pub fn get_atis_message() -> (message: String)
    ensures
        is_atis(message@),
{
    let mut rng = rand::thread_rng();
    let letter = (65u8 + gen_range(&mut rng, 0, 25) as u8) as char;
    let name = airport(gen_range(&mut rng, 0, 7) as usize);
    let runway = get_rw();
    let transition_level = rounded_down(gen_range(&mut rng, 50, 100) as u32, 10);
    let wind = get_wind();
    let visibility = rounded_down(gen_range(&mut rng, 100, 10000) as u32, 100);
    let few = rounded_down(gen_range(&mut rng, 1000, 2500) as u32, 100);
    let scattered = rounded_down(gen_range(&mut rng, 2500, 3500) as u32, 100);
    let broken = rounded_down(gen_range(&mut rng, 3500, 10000) as u32, 100);
    let temperature = get_temperature();
    let qnh = get_qnh(false);
    let atis = Atis {
        airport: String::from_str(name),
        letter,
        runway,
        transition_level,
        wind,
        visibility,
        few,
        scattered,
        broken,
        temperature,
        qnh,
    };
    let message = atis.message();
    assert(atis.valid());
    assert(message@ == atis.text());
    message
}

/// A phrase of the kind that `mark` stands for; a character that is no mark
/// comes back as it is.
pub fn get_segment(mark: char) -> (segment: String)
    ensures
        is_segment_for(mark, segment@),
{
    if mark == '=' {
        get_rw()
    } else if mark == '*' {
        get_fl()
    } else if mark == '!' {
        get_qnh(true)
    } else if mark == '$' {
        get_altitude()
    } else if mark == '@' {
        get_frequency()
    } else if mark == '^' {
        get_heading()
    } else if mark == '&' {
        get_squawk()
    } else if mark == '-' {
        get_wind()
    } else if mark == '+' {
        get_random_msg()
    } else {
        let mut segment = String::new();
        segment.push(mark);
        assert(segment@ =~= seq![mark]);
        segment
    }
}

/// A mixed message for the call sign of `config`: the call sign as it was
/// given, then the nine kinds of segment in an order that is drawn afresh.
pub fn get_any_message(config: &ConfigElp) -> (message: String)
    ensures
        is_any_message(message@, config.call_sign@),
{
    let mut order = placeholder_marks();
    let mut rng = rand::thread_rng();
    shuffle(&mut order, &mut rng);
    let mut segments: Vec<String> = Vec::new();
    let mut i: usize = 0;
    while i < order.len()
        invariant
            i <= order.len(),
            segments.len() == i,
            forall|k: int|
                0 <= k < i ==> is_segment_for(order@[k], #[trigger] texts(segments@)[k]),
        decreases order.len() - i,
    {
        let segment = get_segment(order[i]);
        let ghost before = texts(segments@);
        segments.push(segment);
        assert(texts(segments@) =~= before.push(segment@));
        i += 1;
    }
    let message = compose_any(config.call_sign.as_str(), &segments);
    assert(is_arrangement(order@));
    assert(message@ == any_text(config.call_sign@, texts(segments@)));
    message
}

/// The sentence that is handed back for a kind of message that is not known.
pub open spec fn unknown_type_text() -> Seq<char> {
    "Unknown type of the message!"@
}

/// The messages of the given kind: the mixed messages for `ANY`, the
/// bulletins for `ATIS`, and for any other kind one sentence that says so.
pub open spec fn is_message(
    message: Seq<char>,
    type_of_msg: Seq<char>,
    call_sign: Seq<char>,
) -> bool {
    if type_of_msg == "ANY"@ {
        is_any_message(message, call_sign)
    } else if type_of_msg == "ATIS"@ {
        is_atis(message)
    } else {
        message == unknown_type_text()
    }
}

/// The kinds of message that are known, `ANY` and `ATIS`: the values that may
/// be given for the kind.
pub fn valid_messages() -> (kinds: Vec<&'static str>)
    ensures
        kinds@.len() == 2,
        kinds@[0]@ == "ANY"@,
        kinds@[1]@ == "ATIS"@,
{
    let mut kinds: Vec<&'static str> = Vec::new();
    kinds.push("ANY");
    kinds.push("ATIS");
    kinds
}

/// A message of the given kind. The call never fails: a kind that is not
/// known is answered with a sentence that says so.
pub fn get_message(type_of_msg: &str, config: &ConfigElp) -> (message: String)
    ensures
        is_message(message@, type_of_msg@, config.call_sign@),
{
    if same_text(type_of_msg, "ANY") {
        get_any_message(config)
    } else if same_text(type_of_msg, "ATIS") {
        get_atis_message()
    } else {
        String::from_str("Unknown type of the message!")
    }
}

} // verus!
