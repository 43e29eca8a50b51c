//! What holds of every phrase of a field: its shape, character by
//! character, and that the number it was written from can be read back.

use crate::numerals::{
    all_digits, decimal, digit_char, is_digit, lemma_decimal_is_numeral, lemma_decimal_len,
    lemma_decimal_value, lemma_three_places, lemma_two_places,
    lemma_zero_padded, numeral_value, zero_padded,
};
use crate::phrases::{
    altitude_hundreds, altitude_text, altitude_thousands, contact_text, flight_level_text,
    frequency_text, heading_text, is_altitude, is_bearing, is_channel, is_contact,
    is_flight_level, is_forbidden_squawk, is_heading, is_qnh, is_qnh_inches, is_qnh_metric,
    is_runway, is_squawk, is_temperature, is_wind, qnh_inches_text, qnh_metric_text,
    quantity_text, runway_text, side_word, signed_text, squawk_text, station_name,
    temperature_text, wind_text, STATIONS,
};
use crate::text::{
    double_space_at, has_double_space, lemma_double_space_concat, lemma_double_space_places,
    strip_trailing,
};
use vstd::prelude::*;

verus! {

/// Whether `phrase` is `runway`, a space, a number from `01` to `36` written
/// with two digits, a space, and `left` or `right`.
pub open spec fn matches_runway_pattern(phrase: Seq<char>) -> bool {
    &&& phrase.len() >= 10
    &&& phrase.take(7) == "runway "@
    &&& {
        ||| phrase[7] == '0' && '1' <= phrase[8] <= '9'
        ||| '1' <= phrase[7] <= '2' && '0' <= phrase[8] <= '9'
        ||| phrase[7] == '3' && '0' <= phrase[8] <= '6'
    }
    &&& phrase[9] == ' '
    &&& (phrase.skip(10) == "left"@ || phrase.skip(10) == "right"@)
}

/// The runway phrases are the texts of that pattern, and no others.
pub proof fn lemma_runway_pattern(phrase: Seq<char>)
    ensures
        is_runway(phrase) <==> matches_runway_pattern(phrase),
{
    reveal_strlit("runway ");
    reveal_strlit(" ");
    reveal_strlit("left");
    reveal_strlit("right");
    if is_runway(phrase) {
        let (number, side) = choose|number: nat, side: nat|
            1 <= number <= 36 && side < 2 && phrase == #[trigger] runway_text(number, side);
        lemma_two_places(number);
        assert(phrase.take(7) =~= "runway "@);
        assert(phrase.skip(10) =~= side_word(side));
    }
    if matches_runway_pattern(phrase) {
        let tens = (phrase[7] as nat - 48) as nat;
        let units = (phrase[8] as nat - 48) as nat;
        let number = tens * 10 + units;
        let side: nat = if phrase.skip(10) == "left"@ {
            0
        } else {
            1
        };
        lemma_two_places(number);
        assert(phrase.take(7)[0] == phrase[0]);
        assert(phrase.take(7)[1] == phrase[1]);
        assert(phrase.take(7)[2] == phrase[2]);
        assert(phrase.take(7)[3] == phrase[3]);
        assert(phrase.take(7)[4] == phrase[4]);
        assert(phrase.take(7)[5] == phrase[5]);
        assert(phrase.take(7)[6] == phrase[6]);
        let text = runway_text(number, side);
        assert(text.len() == phrase.len());
        assert forall|i: int| 0 <= i < phrase.len() implies phrase[i] == text[i] by {
            if i >= 10 {
                assert(phrase.skip(10)[i - 10] == phrase[i]);
            }
        }
        assert(phrase =~= text);
    }
}

/// A flight-level phrase is `flight level` and a numeral that reads as a
/// multiple of 5 from 60 to 420.
pub proof fn lemma_flight_level(phrase: Seq<char>)
    requires
        is_flight_level(phrase),
    ensures
        phrase.len() > 13,
        phrase.take(13) == "flight level "@,
        all_digits(phrase.skip(13)),
        60 <= numeral_value(phrase.skip(13)) <= 420,
        numeral_value(phrase.skip(13)) % 5 == 0,
{
    reveal_strlit("flight level ");
    let level = choose|level: nat|
        60 <= level <= 420 && level % 5 == 0 && phrase == #[trigger] flight_level_text(level);
    lemma_decimal_is_numeral(level);
    lemma_decimal_value(level);
    assert(phrase.take(13) =~= "flight level "@);
    assert(phrase.skip(13) =~= decimal(level));
}

/// A squawk phrase is `squawk` and four digits that read as a code from
/// 2000 to 9999 which is not forbidden.
pub proof fn lemma_squawk(phrase: Seq<char>)
    requires
        is_squawk(phrase),
    ensures
        phrase.len() == 11,
        phrase.take(7) == "squawk "@,
        all_digits(phrase.skip(7)),
        2000 <= numeral_value(phrase.skip(7)) <= 9999,
        !is_forbidden_squawk(numeral_value(phrase.skip(7))),
{
    reveal_strlit("squawk ");
    let code = choose|code: nat|
        2000 <= code <= 9999 && !is_forbidden_squawk(code) && phrase == #[trigger] squawk_text(
            code,
        );
    lemma_zero_padded(code, 4);
    lemma_decimal_len(code);
    assert(phrase.take(7) =~= "squawk "@);
    assert(phrase.skip(7) =~= zero_padded(code, 4));
}

/// A heading phrase is `heading` and three digits that read as a multiple of
/// 10 from 10 to 360.
pub proof fn lemma_heading(phrase: Seq<char>)
    requires
        is_heading(phrase),
    ensures
        phrase.len() == 11,
        phrase.take(8) == "heading "@,
        all_digits(phrase.skip(8)),
        is_bearing(numeral_value(phrase.skip(8))),
{
    reveal_strlit("heading ");
    let bearing = choose|bearing: nat|
        is_bearing(bearing) && phrase == #[trigger] heading_text(bearing);
    lemma_zero_padded(bearing, 3);
    lemma_decimal_len(bearing);
    assert(phrase.take(8) =~= "heading "@);
    assert(phrase.skip(8) =~= zero_padded(bearing, 3));
}

/// A wind phrase is `wind`, three digits that read as a multiple of 10 from
/// 10 to 360, `degree`, a numeral that reads as a velocity from 1 to 50, and
/// `knots`.
pub proof fn lemma_wind(phrase: Seq<char>)
    requires
        is_wind(phrase),
    ensures
        phrase.len() > 22,
        phrase.take(5) == "wind "@,
        all_digits(phrase.subrange(5, 8)),
        is_bearing(numeral_value(phrase.subrange(5, 8))),
        phrase.subrange(8, 16) == " degree "@,
        all_digits(phrase.subrange(16, phrase.len() - 6)),
        1 <= numeral_value(phrase.subrange(16, phrase.len() - 6)) <= 50,
        phrase.skip(phrase.len() - 6) == " knots"@,
{
    reveal_strlit("wind ");
    reveal_strlit(" degree ");
    reveal_strlit(" knots");
    let (bearing, velocity) = choose|bearing: nat, velocity: nat|
        is_bearing(bearing) && 1 <= velocity <= 50 && phrase == #[trigger] wind_text(
            bearing,
            velocity,
        );
    lemma_zero_padded(bearing, 3);
    lemma_decimal_len(bearing);
    lemma_decimal_is_numeral(velocity);
    lemma_decimal_value(velocity);
    assert(phrase.take(5) =~= "wind "@);
    assert(phrase.subrange(5, 8) =~= zero_padded(bearing, 3));
    assert(phrase.subrange(8, 16) =~= " degree "@);
    assert(phrase.subrange(16, phrase.len() - 6) =~= decimal(velocity));
    assert(phrase.skip(phrase.len() - 6) =~= " knots"@);
}

/// A metric pressure phrase is `qnh`, a numeral that reads as a pressure
/// from 931 to 1066, and `hectopascals`.
pub proof fn lemma_qnh_metric(phrase: Seq<char>)
    requires
        is_qnh_metric(phrase),
    ensures
        phrase.len() > 17,
        phrase.take(4) == "qnh "@,
        all_digits(phrase.subrange(4, phrase.len() - 13)),
        931 <= numeral_value(phrase.subrange(4, phrase.len() - 13)) <= 1066,
        phrase.skip(phrase.len() - 13) == " hectopascals"@,
{
    reveal_strlit("qnh ");
    reveal_strlit(" hectopascals");
    let hectopascals = choose|hectopascals: nat|
        931 <= hectopascals <= 1066 && phrase == #[trigger] qnh_metric_text(hectopascals);
    lemma_decimal_is_numeral(hectopascals);
    lemma_decimal_value(hectopascals);
    assert(phrase.take(4) =~= "qnh "@);
    assert(phrase.subrange(4, phrase.len() - 13) =~= decimal(hectopascals));
    assert(phrase.skip(phrase.len() - 13) =~= " hectopascals"@);
}

/// An imperial pressure phrase is `qnh`, two digits, a point, exactly two
/// digits more, and `inches`; the four digits read as a pressure from 27.50
/// to 31.50 inches in hundredths.
pub proof fn lemma_qnh_inches(phrase: Seq<char>)
    requires
        is_qnh_inches(phrase),
    ensures
        phrase.len() == 16,
        phrase.take(4) == "qnh "@,
        all_digits(phrase.subrange(4, 6)),
        phrase[6] == '.',
        all_digits(phrase.subrange(7, 9)),
        2750 <= numeral_value(phrase.subrange(4, 6)) * 100 + numeral_value(phrase.subrange(7, 9))
            <= 3150,
        phrase.skip(9) == " inches"@,
{
    reveal_strlit("qnh ");
    reveal_strlit(".");
    reveal_strlit(" inches");
    let hundredths = choose|hundredths: nat|
        2750 <= hundredths <= 3150 && phrase == #[trigger] qnh_inches_text(hundredths);
    let whole = hundredths / 100;
    let part = hundredths % 100;
    lemma_decimal_is_numeral(whole);
    lemma_decimal_value(whole);
    lemma_decimal_len(whole);
    lemma_zero_padded(part, 2);
    lemma_decimal_len(part);
    assert(phrase.take(4) =~= "qnh "@);
    assert(phrase.subrange(4, 6) =~= decimal(whole));
    assert(phrase.subrange(7, 9) =~= zero_padded(part, 2));
    assert(phrase.skip(9) =~= " inches"@);
}

/// Where inches are not allowed, every pressure phrase is metric.
pub proof fn lemma_qnh_without_inches(phrase: Seq<char>)
    requires
        is_qnh(phrase, false),
    ensures
        is_qnh_metric(phrase),
{
}

/// Digits hold no space.
pub proof fn lemma_digits_have_no_space(digits: Seq<char>)
    requires
        all_digits(digits),
    ensures
        !has_double_space(digits),
{
    lemma_double_space_places(digits);
    assert forall|at: int| !double_space_at(digits, at) by {
        if 0 <= at && at + 1 < digits.len() {
            assert(is_digit(digits[at]));
        }
    }
}

/// The number that a numeral with or without `minus` before it denotes.
pub open spec fn signed_value(text: Seq<char>) -> int {
    if text.len() >= 6 && text.take(6) == "minus "@ {
        -(numeral_value(text.skip(6)) as int)
    } else {
        numeral_value(text) as int
    }
}

/// A number written with its sign reads back as itself; what is written
/// begins and ends with something other than a space and holds no doubled
/// space.
pub proof fn lemma_signed_text(value: int)
    ensures
        signed_value(signed_text(value)) == value,
        signed_text(value).len() > 0,
        signed_text(value)[0] != ' ',
        signed_text(value).last() != ' ',
        !has_double_space(signed_text(value)),
{
    reveal_strlit("minus ");
    let text = signed_text(value);
    if value < 0 {
        let magnitude = (-value) as nat;
        lemma_decimal_is_numeral(magnitude);
        lemma_decimal_value(magnitude);
        lemma_digits_have_no_space(decimal(magnitude));
        assert(text.take(6) =~= "minus "@);
        assert(text.skip(6) =~= decimal(magnitude));
        assert(!has_double_space("minus "@)) by {
            reveal_with_fuel(has_double_space, 7);
        }
        lemma_double_space_concat("minus "@, decimal(magnitude));
        assert(is_digit(decimal(magnitude)[0]));
        assert(is_digit(decimal(magnitude).last()));
    } else {
        lemma_decimal_is_numeral(value as nat);
        lemma_decimal_value(value as nat);
        lemma_digits_have_no_space(text);
        assert(is_digit(text[0]));
        assert(is_digit(text.last()));
        if text.len() >= 6 {
            assert(text.take(6)[0] == text[0]);
            assert("minus "@[0] == 'm');
        }
    }
}

/// A temperature phrase is `temperature`, the temperature, `dew point` and
/// the dew point, each with `minus` before it where it is below zero. Read
/// back with their signs, the temperature lies from -30 to 50 and the dew
/// point at most 15 below it and not above it. No two spaces stand side by
/// side.
pub proof fn lemma_temperature(phrase: Seq<char>)
    requires
        is_temperature(phrase),
    ensures
        !has_double_space(phrase),
        exists|first: Seq<char>, second: Seq<char>|
            {
                &&& phrase == "temperature "@ + first + " dew point "@ + second
                &&& -30 <= #[trigger] signed_value(first) <= 50
                &&& signed_value(first) - 15 <= #[trigger] signed_value(second) <= signed_value(
                    first,
                )
            },
{
    let (temperature, dew_point) = choose|temperature: int, dew_point: int|
        -30 <= temperature <= 50 && temperature - 15 <= dew_point <= temperature && phrase
            == #[trigger] temperature_text(temperature, dew_point);
    let first = signed_text(temperature);
    let second = signed_text(dew_point);
    lemma_signed_text(temperature);
    lemma_signed_text(dew_point);
    reveal_strlit("temperature ");
    reveal_strlit(" dew point ");
    assert(!has_double_space("temperature "@)) by {
        reveal_with_fuel(has_double_space, 13);
    }
    assert(!has_double_space(" dew point "@)) by {
        reveal_with_fuel(has_double_space, 12);
    }
    lemma_double_space_concat("temperature "@, first);
    lemma_double_space_concat("temperature "@ + first, " dew point "@);
    lemma_double_space_concat("temperature "@ + first + " dew point "@, second);
    assert(phrase == "temperature "@ + first + " dew point "@ + second);
    assert(-30 <= signed_value(first) <= 50);
    assert(signed_value(first) - 15 <= signed_value(second) <= signed_value(first));
}

/// What stands behind the megahertz of a frequency: nothing for a full
/// megahertz, else a point and the kilohertz without the zeros at their end.
pub open spec fn fraction_text(khz: nat) -> Seq<char> {
    if khz == 0 {
        Seq::empty()
    } else if khz % 100 == 0 {
        "."@ + decimal(khz / 100)
    } else if khz % 10 == 0 {
        "."@ + zero_padded(khz / 10, 2)
    } else {
        "."@ + zero_padded(khz, 3)
    }
}

/// A frequency below 1000 MHz is written as its megahertz with three places
/// and the kilohertz that remain as a fraction without zeros at its end:
/// `121.500` becomes `121.5`, `118.000` becomes `118`.
pub proof fn lemma_frequency_shape(khz: nat)
    requires
        khz < 1_000_000,
    ensures
        frequency_text(khz) == zero_padded(khz / 1000, 3) + fraction_text(khz % 1000),
{
    reveal_strlit(".");
    let mhz = khz / 1000;
    let rest = khz % 1000;
    lemma_three_places(mhz);
    lemma_three_places(rest);
    lemma_two_places(rest / 10);
    reveal_with_fuel(decimal, 2);
    let full = zero_padded(mhz, 3) + "."@ + zero_padded(rest, 3);
    assert(full =~= seq![
        digit_char(mhz / 100),
        digit_char((mhz / 10) % 10),
        digit_char(mhz % 10),
        '.',
        digit_char(rest / 100),
        digit_char((rest / 10) % 10),
        digit_char(rest % 10),
    ]);
    let six = full.drop_last();
    let five = six.drop_last();
    let four = five.drop_last();
    let three = four.drop_last();
    assert(three =~= zero_padded(mhz, 3));
    reveal_with_fuel(strip_trailing, 5);
    if rest == 0 {
        assert(strip_trailing(full, '0') == four);
        assert(strip_trailing(four, '.') == three);
        assert(three + fraction_text(rest) =~= three);
    } else if rest % 100 == 0 {
        assert(strip_trailing(full, '0') == five);
        assert(strip_trailing(five, '.') == five);
        assert(five =~= three + fraction_text(rest));
    } else if rest % 10 == 0 {
        assert(strip_trailing(full, '0') == six);
        assert(strip_trailing(six, '.') == six);
        assert(six =~= three + fraction_text(rest));
    } else {
        assert(strip_trailing(full, '0') == full);
        assert(strip_trailing(full, '.') == full);
        assert(full =~= three + fraction_text(rest));
    }
}

/// The kilohertz that a fraction of one to three digits denotes: the digits
/// read as thousandths, with zeros thought behind them.
pub open spec fn fraction_value(digits: Seq<char>) -> nat {
    if digits.len() == 1 {
        numeral_value(digits) * 100
    } else if digits.len() == 2 {
        numeral_value(digits) * 10
    } else {
        numeral_value(digits)
    }
}

/// A frequency below 1000 MHz reads back as itself: three digits give the
/// megahertz; there is nothing behind them for a full megahertz, else a point
/// and one to three digits that do not end in zero and give the kilohertz.
pub proof fn lemma_frequency_reads_back(khz: nat)
    requires
        khz < 1_000_000,
    ensures
        ({
            let text = frequency_text(khz);
            &&& text.len() >= 3
            &&& all_digits(text.take(3))
            &&& numeral_value(text.take(3)) == khz / 1000
            &&& khz % 1000 == 0 ==> text.len() == 3
            &&& khz % 1000 != 0 ==> {
                &&& 5 <= text.len() <= 7
                &&& text[3] == '.'
                &&& all_digits(text.skip(4))
                &&& text.last() != '0'
                &&& fraction_value(text.skip(4)) == khz % 1000
            }
        }),
{
    reveal_strlit(".");
    let text = frequency_text(khz);
    let mhz = khz / 1000;
    let rest = khz % 1000;
    lemma_frequency_shape(khz);
    lemma_zero_padded(mhz, 3);
    lemma_decimal_len(mhz);
    assert(text.take(3) =~= zero_padded(mhz, 3));
    if rest != 0 {
        if rest % 100 == 0 {
            lemma_decimal_is_numeral(rest / 100);
            lemma_decimal_value(rest / 100);
            lemma_decimal_len(rest / 100);
            assert(text.skip(4) =~= decimal(rest / 100));
            reveal_with_fuel(decimal, 2);
        } else if rest % 10 == 0 {
            lemma_zero_padded(rest / 10, 2);
            lemma_decimal_len(rest / 10);
            lemma_two_places(rest / 10);
            assert(text.skip(4) =~= zero_padded(rest / 10, 2));
        } else {
            lemma_zero_padded(rest, 3);
            lemma_decimal_len(rest);
            lemma_three_places(rest);
            assert(text.skip(4) =~= zero_padded(rest, 3));
        }
    }
}

/// A frequency phrase is `contact`, one of the stations, and a channel of
/// the aeronautical band written in megahertz.
pub proof fn lemma_contact(phrase: Seq<char>)
    requires
        is_contact(phrase),
    ensures
        phrase.len() > 8,
        phrase.take(8) == "contact "@,
        exists|station: nat, khz: nat|
            {
                &&& station < STATIONS
                &&& is_channel(khz)
                &&& phrase == "contact "@ + #[trigger] station_name(station) + " "@ + decimal(
                    khz / 1000,
                ) + #[trigger] fraction_text(khz % 1000)
            },
{
    reveal_strlit("contact ");
    reveal_strlit(" ");
    let (station, khz) = choose|station: nat, khz: nat|
        station < STATIONS && is_channel(khz) && phrase == #[trigger] contact_text(station, khz);
    lemma_frequency_shape(khz);
    lemma_decimal_len(khz / 1000);
    assert(zero_padded(khz / 1000, 3) == decimal(khz / 1000));
    assert(phrase.take(8) =~= "contact "@);
    assert(phrase =~= "contact "@ + station_name(station) + " "@ + decimal(khz / 1000)
        + fraction_text(khz % 1000));
}

/// Above 1000 feet an altitude is spoken with one to forty-two thousands and,
/// where hundreds remain, one to nine of them; together they are the
/// altitude.
pub proof fn lemma_altitude_quantities(feet: nat)
    requires
        1000 < feet <= 42000,
        feet % 100 == 0,
    ensures
        1 <= altitude_thousands(feet) <= 42,
        altitude_hundreds(feet) <= 9,
        feet == altitude_thousands(feet) * 1000 + altitude_hundreds(feet) * 100,
        altitude_text(feet) == "altitude "@ + decimal(altitude_thousands(feet)) + " thousand"@ + (
        if altitude_hundreds(feet) > 0 {
            " "@ + decimal(altitude_hundreds(feet)) + " hundred"@
        } else {
            Seq::empty()
        }) + " feet"@,
{
    reveal_strlit("altitude");
    reveal_strlit("altitude ");
    reveal_strlit(" ");
    reveal_strlit(" thousand");
    reveal_strlit("thousand");
    reveal_strlit(" hundred");
    reveal_strlit("hundred");
    let thousands = altitude_thousands(feet);
    let hundreds = altitude_hundreds(feet);
    let text = "altitude "@ + decimal(thousands) + " thousand"@ + (if hundreds > 0 {
        " "@ + decimal(hundreds) + " hundred"@
    } else {
        Seq::empty()
    }) + " feet"@;
    assert(quantity_text(thousands, "thousand"@) =~= " "@ + decimal(thousands) + " thousand"@);
    if hundreds > 0 {
        assert(quantity_text(hundreds, "hundred"@) =~= " "@ + decimal(hundreds) + " hundred"@);
    }
    assert(altitude_text(feet) =~= text);
}

/// Up to 1000 feet no quantity is spoken.
pub proof fn lemma_low_altitude(feet: nat)
    requires
        feet <= 1000,
    ensures
        altitude_text(feet) == "altitude feet"@,
{
    reveal_strlit("altitude");
    reveal_strlit(" feet");
    reveal_strlit("altitude feet");
    assert(altitude_text(feet) =~= "altitude feet"@);
}

/// An altitude phrase is `altitude`, then the thousands and the hundreds as
/// far as there are any, then `feet`.
pub proof fn lemma_altitude(phrase: Seq<char>)
    requires
        is_altitude(phrase),
    ensures
        exists|thousands: nat, hundreds: nat|
            {
                &&& thousands <= 42
                &&& hundreds <= 9
                &&& phrase == "altitude"@ + #[trigger] quantity_text(thousands, "thousand"@)
                    + #[trigger] quantity_text(hundreds, "hundred"@) + " feet"@
            },
{
    let feet = choose|feet: nat|
        500 <= feet <= 42000 && feet % 100 == 0 && phrase == #[trigger] altitude_text(feet);
    let thousands = altitude_thousands(feet);
    let hundreds = altitude_hundreds(feet);
    assert(phrase == "altitude"@ + quantity_text(thousands, "thousand"@) + quantity_text(
        hundreds,
        "hundred"@,
    ) + " feet"@);
}

} // verus!
