//! The phrase of each single field: runway, flight level, squawk, heading,
//! wind, pressure setting, temperature, frequency and altitude.
//!
//! For each field there is the text that a value is written as, the set of
//! texts that the generator may produce, and a function that writes the text
//! of a given value.

use crate::alphabet::spoken;
use crate::numerals::{decimal, push_decimal, push_zero_padded, zero_padded};
use crate::text::{strip_trailing, stripped_trailing};
use vstd::prelude::*;

verus! {

/// The largest multiple of `step` that does not exceed `value`.
pub open spec fn round_down(value: nat, step: nat) -> nat {
    ((value / step) * step) as nat
}

/// The largest multiple of `step` that does not exceed `value`.
pub fn rounded_down(value: u32, step: u32) -> (rounded: u32)
    requires
        step > 0,
    ensures
        rounded == round_down(value as nat, step as nat),
        rounded <= value,
        value - rounded < step,
        rounded % step == 0,
{
    let quotient = value / step;
    assert(quotient * step <= value && value - quotient * step < step && (quotient * step) % (
    step as int) == 0) by (nonlinear_arith)
        requires
            step > 0,
            quotient == value / step,
    ;
    quotient * step
}

/// The word for the side of a runway: `left` for 0, `right` otherwise.
pub open spec fn side_word(side: nat) -> Seq<char> {
    if side == 0 {
        "left"@
    } else {
        "right"@
    }
}

/// The word for the side of a runway.
pub fn side_name(side: usize) -> (word: &'static str)
    requires
        side < 2,
    ensures
        word@ == side_word(side as nat),
{
    if side == 0 {
        "left"
    } else {
        "right"
    }
}

/// The number of the runway that lies on the given bearing: the bearing in
/// tens of degrees, the rest dropped.
pub fn runway_number(bearing: u32) -> (number: u32)
    ensures
        number == bearing / 10,
        10 <= bearing <= 360 ==> 1 <= number <= 36,
{
    bearing / 10
}

/// `runway NN SIDE`, the number written with two places.
pub open spec fn runway_text(number: nat, side: nat) -> Seq<char> {
    "runway "@ + zero_padded(number, 2) + " "@ + side_word(side)
}

/// The runway phrases: numbers 1 to 36, either side.
pub open spec fn is_runway(phrase: Seq<char>) -> bool {
    exists|number: nat, side: nat|
        1 <= number <= 36 && side < 2 && phrase == #[trigger] runway_text(number, side)
}

/// The phrase of the runway with the given number and side.
pub fn runway_phrase(number: u32, side: usize) -> (phrase: String)
    requires
        side < 2,
    ensures
        phrase@ == runway_text(number as nat, side as nat),
        1 <= number <= 36 ==> is_runway(phrase@),
{
    let mut phrase = String::from_str("runway ");
    push_zero_padded(&mut phrase, number, 2);
    phrase.append(" ");
    phrase.append(side_name(side));
    assert(phrase@ == runway_text(number as nat, side as nat));
    phrase
}

/// `flight level F`.
pub open spec fn flight_level_text(level: nat) -> Seq<char> {
    "flight level "@ + decimal(level)
}

/// The flight-level phrases: multiples of 5 from 60 to 420.
pub open spec fn is_flight_level(phrase: Seq<char>) -> bool {
    exists|level: nat|
        60 <= level <= 420 && level % 5 == 0 && phrase == #[trigger] flight_level_text(level)
}

/// The phrase of the given flight level.
pub fn flight_level_phrase(level: u32) -> (phrase: String)
    ensures
        phrase@ == flight_level_text(level as nat),
        60 <= level <= 420 && level % 5 == 0 ==> is_flight_level(phrase@),
{
    let mut phrase = String::from_str("flight level ");
    push_decimal(&mut phrase, level);
    assert(phrase@ == flight_level_text(level as nat));
    phrase
}

/// The transponder codes that are never handed out: the two conspicuity
/// codes 2000 and 7000, and the codes for unlawful interference (7500), radio
/// failure (7600) and emergency (7700).
pub open spec fn is_forbidden_squawk(code: nat) -> bool {
    code == 2000 || code == 7000 || code == 7500 || code == 7600 || code == 7700
}

/// Whether the transponder code is one that is never handed out.
pub fn forbidden_squawk(code: u32) -> (forbidden: bool)
    ensures
        forbidden == is_forbidden_squawk(code as nat),
{
    code == 2000 || code == 7000 || code == 7500 || code == 7600 || code == 7700
}

/// The code itself where it may be handed out, the code after it where it
/// may not: no two forbidden codes are neighbours.
pub fn permitted_squawk(code: u32) -> (permitted: u32)
    ensures
        !is_forbidden_squawk(permitted as nat),
        permitted == if is_forbidden_squawk(code as nat) {
            code + 1
        } else {
            code as int
        },
{
    if forbidden_squawk(code) {
        code + 1
    } else {
        code
    }
}

/// `squawk DDDD`, the code written with four places.
pub open spec fn squawk_text(code: nat) -> Seq<char> {
    "squawk "@ + zero_padded(code, 4)
}

/// The squawk phrases: codes from 2000 to 9999 that are not forbidden.
pub open spec fn is_squawk(phrase: Seq<char>) -> bool {
    exists|code: nat|
        2000 <= code <= 9999 && !is_forbidden_squawk(code) && phrase == #[trigger] squawk_text(
            code,
        )
}

/// The phrase of the given transponder code.
pub fn squawk_phrase(code: u32) -> (phrase: String)
    ensures
        phrase@ == squawk_text(code as nat),
        2000 <= code <= 9999 && !is_forbidden_squawk(code as nat) ==> is_squawk(phrase@),
{
    let mut phrase = String::from_str("squawk ");
    push_zero_padded(&mut phrase, code, 4);
    assert(phrase@ == squawk_text(code as nat));
    phrase
}

/// Whether `bearing` is a multiple of 10 from 10 to 360.
pub open spec fn is_bearing(bearing: nat) -> bool {
    10 <= bearing <= 360 && bearing % 10 == 0
}

/// `heading NNN`, the bearing written with three places.
pub open spec fn heading_text(bearing: nat) -> Seq<char> {
    "heading "@ + zero_padded(bearing, 3)
}

/// The heading phrases: multiples of 10 from 10 to 360.
pub open spec fn is_heading(phrase: Seq<char>) -> bool {
    exists|bearing: nat| is_bearing(bearing) && phrase == #[trigger] heading_text(bearing)
}

/// The phrase of the given heading.
pub fn heading_phrase(bearing: u32) -> (phrase: String)
    ensures
        phrase@ == heading_text(bearing as nat),
        is_bearing(bearing as nat) ==> is_heading(phrase@),
{
    let mut phrase = String::from_str("heading ");
    push_zero_padded(&mut phrase, bearing, 3);
    assert(phrase@ == heading_text(bearing as nat));
    phrase
}

/// `wind DDD degree V knots`, the bearing written with three places.
pub open spec fn wind_text(bearing: nat, velocity: nat) -> Seq<char> {
    "wind "@ + zero_padded(bearing, 3) + " degree "@ + decimal(velocity) + " knots"@
}

/// The wind phrases: bearings that are multiples of 10 from 10 to 360,
/// velocities from 1 to 50.
pub open spec fn is_wind(phrase: Seq<char>) -> bool {
    exists|bearing: nat, velocity: nat|
        is_bearing(bearing) && 1 <= velocity <= 50 && phrase == #[trigger] wind_text(
            bearing,
            velocity,
        )
}

/// The phrase of the wind from the given bearing at the given velocity.
pub fn wind_phrase(bearing: u32, velocity: u32) -> (phrase: String)
    ensures
        phrase@ == wind_text(bearing as nat, velocity as nat),
        is_bearing(bearing as nat) && 1 <= velocity <= 50 ==> is_wind(phrase@),
{
    let mut phrase = String::from_str("wind ");
    push_zero_padded(&mut phrase, bearing, 3);
    phrase.append(" degree ");
    push_decimal(&mut phrase, velocity);
    phrase.append(" knots");
    assert(phrase@ == wind_text(bearing as nat, velocity as nat));
    phrase
}

/// `qnh H hectopascals`.
pub open spec fn qnh_metric_text(hectopascals: nat) -> Seq<char> {
    "qnh "@ + decimal(hectopascals) + " hectopascals"@
}

/// `qnh I.II inches`: the pressure is given in hundredths of an inch and
/// written with exactly two places behind the point.
pub open spec fn qnh_inches_text(hundredths: nat) -> Seq<char> {
    "qnh "@ + decimal(hundredths / 100) + "."@ + zero_padded(hundredths % 100, 2) + " inches"@
}

/// The metric pressure phrases: 931 to 1066 hectopascals.
pub open spec fn is_qnh_metric(phrase: Seq<char>) -> bool {
    exists|hectopascals: nat|
        931 <= hectopascals <= 1066 && phrase == #[trigger] qnh_metric_text(hectopascals)
}

/// The imperial pressure phrases: 27.50 to 31.50 inches.
pub open spec fn is_qnh_inches(phrase: Seq<char>) -> bool {
    exists|hundredths: nat|
        2750 <= hundredths <= 3150 && phrase == #[trigger] qnh_inches_text(hundredths)
}

/// The pressure phrases: always the metric ones, and the imperial ones where
/// `imperial` allows them.
pub open spec fn is_qnh(phrase: Seq<char>, imperial: bool) -> bool {
    is_qnh_metric(phrase) || (imperial && is_qnh_inches(phrase))
}

/// The phrase of the given pressure in hectopascals.
pub fn qnh_metric_phrase(hectopascals: u32) -> (phrase: String)
    ensures
        phrase@ == qnh_metric_text(hectopascals as nat),
        931 <= hectopascals <= 1066 ==> is_qnh_metric(phrase@),
{
    let mut phrase = String::from_str("qnh ");
    push_decimal(&mut phrase, hectopascals);
    phrase.append(" hectopascals");
    assert(phrase@ == qnh_metric_text(hectopascals as nat));
    phrase
}

/// The phrase of the given pressure in hundredths of an inch.
pub fn qnh_inches_phrase(hundredths: u32) -> (phrase: String)
    ensures
        phrase@ == qnh_inches_text(hundredths as nat),
        2750 <= hundredths <= 3150 ==> is_qnh_inches(phrase@),
{
    let mut phrase = String::from_str("qnh ");
    push_decimal(&mut phrase, hundredths / 100);
    phrase.append(".");
    push_zero_padded(&mut phrase, hundredths % 100, 2);
    phrase.append(" inches");
    assert(phrase@ == qnh_inches_text(hundredths as nat));
    phrase
}

/// A number below zero as `minus` and its magnitude, any other as its
/// numeral.
pub open spec fn signed_text(value: int) -> Seq<char> {
    if value < 0 {
        "minus "@ + decimal((-value) as nat)
    } else {
        decimal(value as nat)
    }
}

/// `temperature [minus] T dew point [minus] D`.
pub open spec fn temperature_text(temperature: int, dew_point: int) -> Seq<char> {
    "temperature "@ + signed_text(temperature) + " dew point "@ + signed_text(dew_point)
}

/// The temperature phrases: temperatures from -30 to 50, the dew point at
/// most 15 below the temperature and never above it.
pub open spec fn is_temperature(phrase: Seq<char>) -> bool {
    exists|temperature: int, dew_point: int|
        -30 <= temperature <= 50 && temperature - 15 <= dew_point <= temperature && phrase
            == #[trigger] temperature_text(temperature, dew_point)
}

/// Appends `value` to `out`: `minus` and the magnitude below zero, the
/// numeral otherwise.
pub fn push_signed(out: &mut String, value: i32)
    ensures
        final(out)@ == old(out)@ + signed_text(value as int),
{
    if value < 0 {
        out.append("minus ");
        let magnitude: u32 = (0 - value as i64) as u32;
        push_decimal(out, magnitude);
        assert(out@ =~= old(out)@ + signed_text(value as int));
    } else {
        push_decimal(out, value as u32);
    }
}

/// The phrase of the given temperature and dew point.
pub fn temperature_phrase(temperature: i32, dew_point: i32) -> (phrase: String)
    ensures
        phrase@ == temperature_text(temperature as int, dew_point as int),
        -30 <= temperature <= 50 && temperature - 15 <= dew_point <= temperature ==> is_temperature(
            phrase@,
        ),
{
    let mut phrase = String::from_str("temperature ");
    push_signed(&mut phrase, temperature);
    phrase.append(" dew point ");
    push_signed(&mut phrase, dew_point);
    assert(phrase@ == temperature_text(temperature as int, dew_point as int));
    phrase
}

/// The number of stations that a frequency may belong to.
pub const STATIONS: usize = 8;

/// The name of the station with the given index.
pub open spec fn station_name(index: nat) -> Seq<char> {
    if index == 0 {
        "departure"@
    } else if index == 1 {
        "berlin tower"@
    } else if index == 2 {
        "apron"@
    } else if index == 3 {
        "dubai information"@
    } else if index == 4 {
        "munich approach"@
    } else if index == 5 {
        "munich tower"@
    } else if index == 6 {
        "ground"@
    } else {
        "fujairah information"@
    }
}

/// The name of the station with the given index.
pub fn station(index: usize) -> (name: &'static str)
    requires
        index < STATIONS,
    ensures
        name@ == station_name(index as nat),
{
    if index == 0 {
        "departure"
    } else if index == 1 {
        "berlin tower"
    } else if index == 2 {
        "apron"
    } else if index == 3 {
        "dubai information"
    } else if index == 4 {
        "munich approach"
    } else if index == 5 {
        "munich tower"
    } else if index == 6 {
        "ground"
    } else {
        "fujairah information"
    }
}

/// A frequency given in kilohertz, written in megahertz: three places, a
/// point and three places, and then without the zeros at the end and
/// without a point that is left at the end.
pub open spec fn frequency_text(khz: nat) -> Seq<char> {
    strip_trailing(
        strip_trailing(zero_padded(khz / 1000, 3) + "."@ + zero_padded(khz % 1000, 3), '0'),
        '.',
    )
}

/// `contact STATION F`.
pub open spec fn contact_text(station: nat, khz: nat) -> Seq<char> {
    "contact "@ + station_name(station) + " "@ + frequency_text(khz)
}

/// Whether `khz` is a channel of the aeronautical band: a multiple of 5
/// from 117975 to 137000.
pub open spec fn is_channel(khz: nat) -> bool {
    117975 <= khz <= 137000 && khz % 5 == 0
}

/// The frequency phrases: one of the stations, and a channel of the
/// aeronautical band.
pub open spec fn is_contact(phrase: Seq<char>) -> bool {
    exists|station: nat, khz: nat|
        station < STATIONS && is_channel(khz) && phrase == #[trigger] contact_text(station, khz)
}

/// The given frequency in kilohertz, written in megahertz.
pub fn frequency_numeral(khz: u32) -> (numeral: String)
    ensures
        numeral@ == frequency_text(khz as nat),
{
    let mut full = String::new();
    push_zero_padded(&mut full, khz / 1000, 3);
    full.append(".");
    push_zero_padded(&mut full, khz % 1000, 3);
    assert(full@ =~= zero_padded((khz / 1000) as nat, 3) + "."@ + zero_padded(
        (khz % 1000) as nat,
        3,
    ));
    let without_zeros = stripped_trailing(full.as_str(), '0');
    stripped_trailing(without_zeros.as_str(), '.')
}

/// The phrase that hands the aircraft over to the given station on the given
/// frequency in kilohertz.
pub fn frequency_phrase(station_index: usize, khz: u32) -> (phrase: String)
    requires
        station_index < STATIONS,
    ensures
        phrase@ == contact_text(station_index as nat, khz as nat),
        is_channel(khz as nat) ==> is_contact(phrase@),
{
    let mut phrase = String::from_str("contact ");
    phrase.append(station(station_index));
    phrase.append(" ");
    let numeral = frequency_numeral(khz);
    phrase.append(numeral.as_str());
    assert(phrase@ == contact_text(station_index as nat, khz as nat));
    phrase
}

/// The full thousands that are spoken of an altitude: none up to 1000 feet.
pub open spec fn altitude_thousands(feet: nat) -> nat {
    if feet > 1000 {
        feet / 1000
    } else {
        0
    }
}

/// The full hundreds that are spoken of an altitude beside its thousands:
/// none up to 1000 feet.
pub open spec fn altitude_hundreds(feet: nat) -> nat {
    if feet > 1000 {
        ((feet - altitude_thousands(feet) * 1000) / 100) as nat
    } else {
        0
    }
}

/// ` N UNIT` where the count is not zero, nothing where it is.
pub open spec fn quantity_text(count: nat, unit: Seq<char>) -> Seq<char> {
    if count > 0 {
        " "@ + decimal(count) + " "@ + unit
    } else {
        Seq::empty()
    }
}

/// `altitude [T thousand] [H hundred] feet`.
pub open spec fn altitude_text(feet: nat) -> Seq<char> {
    "altitude"@ + quantity_text(altitude_thousands(feet), "thousand"@) + quantity_text(
        altitude_hundreds(feet),
        "hundred"@,
    ) + " feet"@
}

/// The altitude phrases: multiples of 100 from 500 to 42000 feet.
pub open spec fn is_altitude(phrase: Seq<char>) -> bool {
    exists|feet: nat|
        500 <= feet <= 42000 && feet % 100 == 0 && phrase == #[trigger] altitude_text(feet)
}

/// Appends ` N UNIT` to `out` where the count is not zero.
pub fn push_quantity(out: &mut String, count: u32, unit: &str)
    ensures
        final(out)@ == old(out)@ + quantity_text(count as nat, unit@),
{
    if count > 0 {
        out.append(" ");
        push_decimal(out, count);
        out.append(" ");
        out.append(unit);
        assert(out@ =~= old(out)@ + quantity_text(count as nat, unit@));
    } else {
        assert(out@ =~= old(out)@ + quantity_text(count as nat, unit@));
    }
}

/// The phrase of the given altitude in feet. The words for the thousands
/// and the hundreds are those that the alphabet has for `000` and `00`.
pub fn altitude_phrase(feet: u32) -> (phrase: String)
    ensures
        phrase@ == altitude_text(feet as nat),
        500 <= feet <= 42000 && feet % 100 == 0 ==> is_altitude(phrase@),
{
    let thousands: u32 = if feet > 1000 {
        feet / 1000
    } else {
        0
    };
    let hundreds: u32 = if feet > 1000 {
        (feet - thousands * 1000) / 100
    } else {
        0
    };
    proof {
        reveal_strlit("000");
        reveal_strlit("00");
        assert("000"@ =~= seq!['0', '0', '0']);
        assert("00"@ =~= seq!['0', '0']);
    }
    let thousand = spoken("000").unwrap();
    let hundred = spoken("00").unwrap();
    let mut phrase = String::from_str("altitude");
    push_quantity(&mut phrase, thousands, thousand);
    push_quantity(&mut phrase, hundreds, hundred);
    phrase.append(" feet");
    assert(phrase@ == altitude_text(feet as nat));
    phrase
}

} // verus!
