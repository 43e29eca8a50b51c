//! No mark reaches the renderer by way of a mixed message.
//!
//! While a mixed message is composed, `!` stands for the pressure setting;
//! in a composed message it keeps a number from being spelled out. The two
//! never meet: every phrase that takes the place of a mark is free of `!`,
//! so a mixed message holds one only where the call sign brought it.

use crate::alphabet::is_key;
use crate::any_message::{
    any_text, is_any_message, is_arrangement, is_segment_for, lemma_arrangement, placeholders,
};
use crate::free_text::{
    filled, fits, free_text, is_capital, is_random_message, is_replaced, spelled, template_text,
    RUNWAY_MARK, TEMPLATES,
};
use crate::numerals::{
    all_digits, decimal, is_digit, lemma_decimal_is_numeral, lemma_zero_padded, zero_padded,
};
use crate::phrases::{
    altitude_hundreds, altitude_text, altitude_thousands, contact_text, flight_level_text,
    frequency_text, heading_text, is_altitude, is_bearing, is_channel, is_contact,
    is_flight_level, is_forbidden_squawk, is_heading, is_qnh, is_qnh_metric, is_runway,
    is_squawk, is_temperature, is_wind, qnh_inches_text, qnh_metric_text, quantity_text,
    runway_text, signed_text, squawk_text, station_name, temperature_text, wind_text, STATIONS,
};
use crate::say_form::{is_unmarked, lemma_spelled, SUPPRESS};
use crate::text::{
    collapse_double_spaces, joined, lemma_strip_trailing, lemma_trim, strip_trailing, trim,
};
use vstd::prelude::*;

verus! {

/// Whether the mark occurs nowhere among the first `end` characters.
pub open spec fn unmarked_before(text: Seq<char>, end: nat) -> bool
    decreases end,
{
    end == 0 || (text[end - 1] != SUPPRESS && unmarked_before(text, (end - 1) as nat))
}

/// A text whose characters were looked at one by one is free of the mark.
pub proof fn lemma_unmarked_before(text: Seq<char>, end: nat)
    requires
        unmarked_before(text, end),
    ensures
        forall|i: int| 0 <= i < end ==> #[trigger] text[i] != SUPPRESS,
        end == text.len() ==> is_unmarked(text),
    decreases end,
{
    if end > 0 {
        lemma_unmarked_before(text, (end - 1) as nat);
    }
}

/// Two texts put together are free of the mark just when both are.
pub proof fn lemma_unmarked_concat(a: Seq<char>, b: Seq<char>)
    ensures
        is_unmarked(a + b) <==> is_unmarked(a) && is_unmarked(b),
{
    let whole = a + b;
    if is_unmarked(whole) {
        assert forall|i: int| 0 <= i < a.len() implies #[trigger] a[i] != SUPPRESS by {
            assert(whole[i] == a[i]);
        }
        assert forall|i: int| 0 <= i < b.len() implies #[trigger] b[i] != SUPPRESS by {
            assert(whole[a.len() + i] == b[i]);
        }
    }
}

/// A part of a text that is free of the mark is free of it.
pub proof fn lemma_unmarked_part(text: Seq<char>, from: int, to: int)
    requires
        is_unmarked(text),
        0 <= from <= to <= text.len(),
    ensures
        is_unmarked(text.subrange(from, to)),
{
}

/// Digits are no marks.
pub proof fn lemma_digits_are_unmarked(digits: Seq<char>)
    requires
        all_digits(digits),
    ensures
        is_unmarked(digits),
{
    assert forall|i: int| 0 <= i < digits.len() implies #[trigger] digits[i] != SUPPRESS by {
        assert(is_digit(digits[i]));
    }
}

/// A numeral, padded or not, is free of the mark.
pub proof fn lemma_numerals_are_unmarked(n: nat, width: nat)
    ensures
        is_unmarked(decimal(n)),
        is_unmarked(zero_padded(n, width)),
{
    lemma_decimal_is_numeral(n);
    lemma_zero_padded(n, width);
    lemma_digits_are_unmarked(decimal(n));
    lemma_digits_are_unmarked(zero_padded(n, width));
}

/// The fixed words of the phrases hold no mark.
pub proof fn lemma_field_words_are_unmarked()
    ensures
        is_unmarked("runway "@),
        is_unmarked(" "@),
        is_unmarked("left"@),
        is_unmarked("right"@),
        is_unmarked("flight level "@),
        is_unmarked("squawk "@),
        is_unmarked("heading "@),
        is_unmarked("wind "@),
        is_unmarked(" degree "@),
        is_unmarked(" knots"@),
        is_unmarked("qnh "@),
        is_unmarked(" hectopascals"@),
        is_unmarked("."@),
        is_unmarked(" inches"@),
        is_unmarked("contact "@),
        is_unmarked("altitude"@),
        is_unmarked("thousand"@),
        is_unmarked("hundred"@),
        is_unmarked(" feet"@),
        is_unmarked(", "@),
        is_unmarked("minus "@),
        is_unmarked("temperature "@),
        is_unmarked(" dew point "@),
{
    assert(is_unmarked("runway "@)) by {
        reveal_strlit("runway ");
        reveal_with_fuel(unmarked_before, 8);
        lemma_unmarked_before("runway "@, 7);
    }
    assert(is_unmarked(" "@)) by {
        reveal_strlit(" ");
        reveal_with_fuel(unmarked_before, 2);
        lemma_unmarked_before(" "@, 1);
    }
    assert(is_unmarked("left"@)) by {
        reveal_strlit("left");
        reveal_with_fuel(unmarked_before, 5);
        lemma_unmarked_before("left"@, 4);
    }
    assert(is_unmarked("right"@)) by {
        reveal_strlit("right");
        reveal_with_fuel(unmarked_before, 6);
        lemma_unmarked_before("right"@, 5);
    }
    assert(is_unmarked("flight level "@)) by {
        reveal_strlit("flight level ");
        reveal_with_fuel(unmarked_before, 14);
        lemma_unmarked_before("flight level "@, 13);
    }
    assert(is_unmarked("squawk "@)) by {
        reveal_strlit("squawk ");
        reveal_with_fuel(unmarked_before, 8);
        lemma_unmarked_before("squawk "@, 7);
    }
    assert(is_unmarked("heading "@)) by {
        reveal_strlit("heading ");
        reveal_with_fuel(unmarked_before, 9);
        lemma_unmarked_before("heading "@, 8);
    }
    assert(is_unmarked("wind "@)) by {
        reveal_strlit("wind ");
        reveal_with_fuel(unmarked_before, 6);
        lemma_unmarked_before("wind "@, 5);
    }
    assert(is_unmarked(" degree "@)) by {
        reveal_strlit(" degree ");
        reveal_with_fuel(unmarked_before, 9);
        lemma_unmarked_before(" degree "@, 8);
    }
    assert(is_unmarked(" knots"@)) by {
        reveal_strlit(" knots");
        reveal_with_fuel(unmarked_before, 7);
        lemma_unmarked_before(" knots"@, 6);
    }
    assert(is_unmarked("qnh "@)) by {
        reveal_strlit("qnh ");
        reveal_with_fuel(unmarked_before, 5);
        lemma_unmarked_before("qnh "@, 4);
    }
    assert(is_unmarked(" hectopascals"@)) by {
        reveal_strlit(" hectopascals");
        reveal_with_fuel(unmarked_before, 14);
        lemma_unmarked_before(" hectopascals"@, 13);
    }
    assert(is_unmarked("."@)) by {
        reveal_strlit(".");
        reveal_with_fuel(unmarked_before, 2);
        lemma_unmarked_before("."@, 1);
    }
    assert(is_unmarked(" inches"@)) by {
        reveal_strlit(" inches");
        reveal_with_fuel(unmarked_before, 8);
        lemma_unmarked_before(" inches"@, 7);
    }
    assert(is_unmarked("contact "@)) by {
        reveal_strlit("contact ");
        reveal_with_fuel(unmarked_before, 9);
        lemma_unmarked_before("contact "@, 8);
    }
    assert(is_unmarked("altitude"@)) by {
        reveal_strlit("altitude");
        reveal_with_fuel(unmarked_before, 9);
        lemma_unmarked_before("altitude"@, 8);
    }
    assert(is_unmarked("thousand"@)) by {
        reveal_strlit("thousand");
        reveal_with_fuel(unmarked_before, 9);
        lemma_unmarked_before("thousand"@, 8);
    }
    assert(is_unmarked("hundred"@)) by {
        reveal_strlit("hundred");
        reveal_with_fuel(unmarked_before, 8);
        lemma_unmarked_before("hundred"@, 7);
    }
    assert(is_unmarked(" feet"@)) by {
        reveal_strlit(" feet");
        reveal_with_fuel(unmarked_before, 6);
        lemma_unmarked_before(" feet"@, 5);
    }
    assert(is_unmarked(", "@)) by {
        reveal_strlit(", ");
        reveal_with_fuel(unmarked_before, 3);
        lemma_unmarked_before(", "@, 2);
    }
    assert(is_unmarked("minus "@)) by {
        reveal_strlit("minus ");
        reveal_with_fuel(unmarked_before, 7);
        lemma_unmarked_before("minus "@, 6);
    }
    assert(is_unmarked("temperature "@)) by {
        reveal_strlit("temperature ");
        reveal_with_fuel(unmarked_before, 13);
        lemma_unmarked_before("temperature "@, 12);
    }
    assert(is_unmarked(" dew point "@)) by {
        reveal_strlit(" dew point ");
        reveal_with_fuel(unmarked_before, 12);
        lemma_unmarked_before(" dew point "@, 11);
    }
}

/// The names of the stations hold no mark.
pub proof fn lemma_station_names_are_unmarked()
    ensures
        is_unmarked("departure"@),
        is_unmarked("berlin tower"@),
        is_unmarked("apron"@),
        is_unmarked("dubai information"@),
        is_unmarked("munich approach"@),
        is_unmarked("munich tower"@),
        is_unmarked("ground"@),
        is_unmarked("fujairah information"@),
{
    assert(is_unmarked("departure"@)) by {
        reveal_strlit("departure");
        reveal_with_fuel(unmarked_before, 10);
        lemma_unmarked_before("departure"@, 9);
    }
    assert(is_unmarked("berlin tower"@)) by {
        reveal_strlit("berlin tower");
        reveal_with_fuel(unmarked_before, 13);
        lemma_unmarked_before("berlin tower"@, 12);
    }
    assert(is_unmarked("apron"@)) by {
        reveal_strlit("apron");
        reveal_with_fuel(unmarked_before, 6);
        lemma_unmarked_before("apron"@, 5);
    }
    assert(is_unmarked("dubai information"@)) by {
        reveal_strlit("dubai information");
        reveal_with_fuel(unmarked_before, 18);
        lemma_unmarked_before("dubai information"@, 17);
    }
    assert(is_unmarked("munich approach"@)) by {
        reveal_strlit("munich approach");
        reveal_with_fuel(unmarked_before, 16);
        lemma_unmarked_before("munich approach"@, 15);
    }
    assert(is_unmarked("munich tower"@)) by {
        reveal_strlit("munich tower");
        reveal_with_fuel(unmarked_before, 13);
        lemma_unmarked_before("munich tower"@, 12);
    }
    assert(is_unmarked("ground"@)) by {
        reveal_strlit("ground");
        reveal_with_fuel(unmarked_before, 7);
        lemma_unmarked_before("ground"@, 6);
    }
    assert(is_unmarked("fujairah information"@)) by {
        reveal_strlit("fujairah information");
        reveal_with_fuel(unmarked_before, 21);
        lemma_unmarked_before("fujairah information"@, 20);
    }
}

/// The templates of the free-form clearances hold no mark.
pub proof fn lemma_templates_are_unmarked()
    ensures
        is_unmarked("engine start-up approved"@),
        is_unmarked("cleared to munich via T1B departure"@),
        is_unmarked("cleared to lyon via M2F departure"@),
        is_unmarked("hold short =, taxi via LFM"@),
{
    assert(is_unmarked("engine start-up approved"@)) by {
        reveal_strlit("engine start-up approved");
        reveal_with_fuel(unmarked_before, 25);
        lemma_unmarked_before("engine start-up approved"@, 24);
    }
    assert(is_unmarked("cleared to munich via T1B departure"@)) by {
        reveal_strlit("cleared to munich via T1B departure");
        reveal_with_fuel(unmarked_before, 36);
        lemma_unmarked_before("cleared to munich via T1B departure"@, 35);
    }
    assert(is_unmarked("cleared to lyon via M2F departure"@)) by {
        reveal_strlit("cleared to lyon via M2F departure");
        reveal_with_fuel(unmarked_before, 34);
        lemma_unmarked_before("cleared to lyon via M2F departure"@, 33);
    }
    assert(is_unmarked("hold short =, taxi via LFM"@)) by {
        reveal_strlit("hold short =, taxi via LFM");
        reveal_with_fuel(unmarked_before, 27);
        lemma_unmarked_before("hold short =, taxi via LFM"@, 26);
    }
}

/// A runway phrase is free of the mark.
pub proof fn lemma_runway_is_unmarked(phrase: Seq<char>)
    requires
        is_runway(phrase),
    ensures
        is_unmarked(phrase),
{
    let (number, side) = choose|number: nat, side: nat|
        1 <= number <= 36 && side < 2 && phrase == #[trigger] runway_text(number, side);
    lemma_field_words_are_unmarked();
    lemma_numerals_are_unmarked(number, 2);
    let word = if side == 0 {
        "left"@
    } else {
        "right"@
    };
    lemma_unmarked_concat("runway "@, zero_padded(number, 2));
    lemma_unmarked_concat("runway "@ + zero_padded(number, 2), " "@);
    lemma_unmarked_concat("runway "@ + zero_padded(number, 2) + " "@, word);
}

/// A flight-level phrase is free of the mark.
pub proof fn lemma_flight_level_is_unmarked(phrase: Seq<char>)
    requires
        is_flight_level(phrase),
    ensures
        is_unmarked(phrase),
{
    let level = choose|level: nat|
        60 <= level <= 420 && level % 5 == 0 && phrase == #[trigger] flight_level_text(level);
    lemma_field_words_are_unmarked();
    lemma_numerals_are_unmarked(level, 0);
    lemma_unmarked_concat("flight level "@, decimal(level));
}

/// A squawk phrase is free of the mark.
pub proof fn lemma_squawk_is_unmarked(phrase: Seq<char>)
    requires
        is_squawk(phrase),
    ensures
        is_unmarked(phrase),
{
    let code = choose|code: nat|
        2000 <= code <= 9999 && !is_forbidden_squawk(code) && phrase == #[trigger] squawk_text(
            code,
        );
    lemma_field_words_are_unmarked();
    lemma_numerals_are_unmarked(code, 4);
    lemma_unmarked_concat("squawk "@, zero_padded(code, 4));
}

/// A heading phrase is free of the mark.
pub proof fn lemma_heading_is_unmarked(phrase: Seq<char>)
    requires
        is_heading(phrase),
    ensures
        is_unmarked(phrase),
{
    let bearing = choose|bearing: nat|
        is_bearing(bearing) && phrase == #[trigger] heading_text(bearing);
    lemma_field_words_are_unmarked();
    lemma_numerals_are_unmarked(bearing, 3);
    lemma_unmarked_concat("heading "@, zero_padded(bearing, 3));
}

/// A wind phrase is free of the mark.
pub proof fn lemma_wind_is_unmarked(phrase: Seq<char>)
    requires
        is_wind(phrase),
    ensures
        is_unmarked(phrase),
{
    let (bearing, velocity) = choose|bearing: nat, velocity: nat|
        is_bearing(bearing) && 1 <= velocity <= 50 && phrase == #[trigger] wind_text(
            bearing,
            velocity,
        );
    lemma_field_words_are_unmarked();
    lemma_numerals_are_unmarked(bearing, 3);
    lemma_numerals_are_unmarked(velocity, 0);
    let a = "wind "@ + zero_padded(bearing, 3);
    let b = a + " degree "@;
    let c = b + decimal(velocity);
    lemma_unmarked_concat("wind "@, zero_padded(bearing, 3));
    lemma_unmarked_concat(a, " degree "@);
    lemma_unmarked_concat(b, decimal(velocity));
    lemma_unmarked_concat(c, " knots"@);
}

/// A pressure phrase is free of the mark, in either unit.
pub proof fn lemma_qnh_is_unmarked(phrase: Seq<char>)
    requires
        is_qnh(phrase, true),
    ensures
        is_unmarked(phrase),
{
    lemma_field_words_are_unmarked();
    if is_qnh_metric(phrase) {
        let hectopascals = choose|hectopascals: nat|
            931 <= hectopascals <= 1066 && phrase == #[trigger] qnh_metric_text(hectopascals);
        lemma_numerals_are_unmarked(hectopascals, 0);
        lemma_unmarked_concat("qnh "@, decimal(hectopascals));
        lemma_unmarked_concat("qnh "@ + decimal(hectopascals), " hectopascals"@);
    } else {
        let hundredths = choose|hundredths: nat|
            2750 <= hundredths <= 3150 && phrase == #[trigger] qnh_inches_text(hundredths);
        lemma_numerals_are_unmarked(hundredths / 100, 0);
        lemma_numerals_are_unmarked(hundredths % 100, 2);
        let a = "qnh "@ + decimal(hundredths / 100);
        let b = a + "."@;
        let c = b + zero_padded(hundredths % 100, 2);
        lemma_unmarked_concat("qnh "@, decimal(hundredths / 100));
        lemma_unmarked_concat(a, "."@);
        lemma_unmarked_concat(b, zero_padded(hundredths % 100, 2));
        lemma_unmarked_concat(c, " inches"@);
    }
}

/// A number written with its sign is free of the mark.
pub proof fn lemma_signed_is_unmarked(value: int)
    ensures
        is_unmarked(signed_text(value)),
{
    lemma_field_words_are_unmarked();
    if value < 0 {
        lemma_numerals_are_unmarked((-value) as nat, 0);
        lemma_unmarked_concat("minus "@, decimal((-value) as nat));
    } else {
        lemma_numerals_are_unmarked(value as nat, 0);
    }
}

/// A temperature phrase is free of the mark.
pub proof fn lemma_temperature_is_unmarked(phrase: Seq<char>)
    requires
        is_temperature(phrase),
    ensures
        is_unmarked(phrase),
{
    let (temperature, dew_point) = choose|temperature: int, dew_point: int|
        -30 <= temperature <= 50 && temperature - 15 <= dew_point <= temperature && phrase
            == #[trigger] temperature_text(temperature, dew_point);
    lemma_field_words_are_unmarked();
    lemma_signed_is_unmarked(temperature);
    lemma_signed_is_unmarked(dew_point);
    let a = "temperature "@ + signed_text(temperature);
    let b = a + " dew point "@;
    lemma_unmarked_concat("temperature "@, signed_text(temperature));
    lemma_unmarked_concat(a, " dew point "@);
    lemma_unmarked_concat(b, signed_text(dew_point));
}

/// A frequency phrase is free of the mark.
pub proof fn lemma_contact_is_unmarked(phrase: Seq<char>)
    requires
        is_contact(phrase),
    ensures
        is_unmarked(phrase),
{
    let (station, khz) = choose|station: nat, khz: nat|
        station < STATIONS && is_channel(khz) && phrase == #[trigger] contact_text(station, khz);
    lemma_field_words_are_unmarked();
    lemma_station_names_are_unmarked();
    lemma_numerals_are_unmarked(khz / 1000, 3);
    lemma_numerals_are_unmarked(khz % 1000, 3);
    let whole = zero_padded(khz / 1000, 3) + "."@;
    let full = whole + zero_padded(khz % 1000, 3);
    lemma_unmarked_concat(zero_padded(khz / 1000, 3), "."@);
    lemma_unmarked_concat(whole, zero_padded(khz % 1000, 3));
    let without_zeros = strip_trailing(full, '0');
    lemma_strip_trailing(full, '0');
    lemma_unmarked_part(full, 0, without_zeros.len() as int);
    assert(without_zeros =~= full.subrange(0, without_zeros.len() as int));
    let numeral = strip_trailing(without_zeros, '.');
    lemma_strip_trailing(without_zeros, '.');
    lemma_unmarked_part(without_zeros, 0, numeral.len() as int);
    assert(numeral =~= without_zeros.subrange(0, numeral.len() as int));
    assert(numeral == frequency_text(khz));
    let a = "contact "@ + station_name(station);
    let b = a + " "@;
    lemma_unmarked_concat("contact "@, station_name(station));
    lemma_unmarked_concat(a, " "@);
    lemma_unmarked_concat(b, numeral);
}

/// A quantity is free of the mark where its unit is.
pub proof fn lemma_quantity_is_unmarked(count: nat, unit: Seq<char>)
    requires
        is_unmarked(unit),
    ensures
        is_unmarked(quantity_text(count, unit)),
{
    lemma_field_words_are_unmarked();
    if count > 0 {
        lemma_numerals_are_unmarked(count, 0);
        let a = " "@ + decimal(count);
        let b = a + " "@;
        lemma_unmarked_concat(" "@, decimal(count));
        lemma_unmarked_concat(a, " "@);
        lemma_unmarked_concat(b, unit);
    }
}

/// An altitude phrase is free of the mark.
pub proof fn lemma_altitude_is_unmarked(phrase: Seq<char>)
    requires
        is_altitude(phrase),
    ensures
        is_unmarked(phrase),
{
    let feet = choose|feet: nat|
        500 <= feet <= 42000 && feet % 100 == 0 && phrase == #[trigger] altitude_text(feet);
    lemma_field_words_are_unmarked();
    let thousands = quantity_text(altitude_thousands(feet), "thousand"@);
    let hundreds = quantity_text(altitude_hundreds(feet), "hundred"@);
    lemma_quantity_is_unmarked(altitude_thousands(feet), "thousand"@);
    lemma_quantity_is_unmarked(altitude_hundreds(feet), "hundred"@);
    let a = "altitude"@ + thousands;
    let b = a + hundreds;
    lemma_unmarked_concat("altitude"@, thousands);
    lemma_unmarked_concat(a, hundreds);
    lemma_unmarked_concat(b, " feet"@);
}

/// A template that is free of the mark stays free of it when it is filled
/// with capital letters and with runway phrases that are free of it.
pub proof fn lemma_filled_is_unmarked(
    template: Seq<char>,
    letters: Seq<char>,
    runways: Seq<Seq<char>>,
)
    requires
        is_unmarked(template),
        fits(template, letters, runways),
        forall|i: int| 0 <= i < runways.len() ==> is_unmarked(#[trigger] runways[i]),
    ensures
        is_unmarked(filled(template, letters, runways)),
    decreases template.len(),
{
    if template.len() > 0 {
        let c = template.last();
        let before = template.drop_last();
        assert(c == template[template.len() - 1]);
        assert forall|i: int| 0 <= i < before.len() implies #[trigger] before[i] != SUPPRESS by {
            assert(before[i] == template[i]);
        }
        if is_replaced(c) {
            let rest = letters.drop_last();
            assert forall|i: int| 0 <= i < rest.len() implies is_capital(#[trigger] rest[i]) by {
                assert(rest[i] == letters[i]);
            }
            lemma_filled_is_unmarked(before, rest, runways);
            assert(is_capital(letters[letters.len() - 1]));
            lemma_spelled(letters.last());
            lemma_unmarked_concat(filled(before, rest, runways), spelled(letters.last()));
        } else if is_key(c) {
            lemma_filled_is_unmarked(before, letters, runways);
            lemma_spelled(c);
            lemma_unmarked_concat(filled(before, letters, runways), spelled(c));
        } else if c == RUNWAY_MARK {
            let rest = runways.drop_last();
            assert forall|i: int| 0 <= i < rest.len() implies is_unmarked(#[trigger] rest[i]) by {
                assert(rest[i] == runways[i]);
            }
            lemma_filled_is_unmarked(before, letters, rest);
            assert(is_unmarked(runways[runways.len() - 1]));
            lemma_unmarked_concat(filled(before, letters, rest), runways.last());
        } else {
            lemma_filled_is_unmarked(before, letters, runways);
            assert(filled(template, letters, runways) =~= filled(before, letters, runways)
                + seq![c]);
            lemma_unmarked_concat(filled(before, letters, runways), seq![c]);
        }
    }
}

/// Collapsing doubled spaces brings no mark into a text.
pub proof fn lemma_collapsed_is_unmarked(text: Seq<char>)
    requires
        is_unmarked(text),
    ensures
        is_unmarked(collapse_double_spaces(text)),
    decreases text.len(),
{
    if text.len() >= 2 {
        if text[0] == ' ' && text[1] == ' ' {
            lemma_unmarked_part(text, 2, text.len() as int);
            assert(text.skip(2) == text.subrange(2, text.len() as int));
            lemma_collapsed_is_unmarked(text.skip(2));
            lemma_unmarked_concat(seq![' '], collapse_double_spaces(text.skip(2)));
        } else {
            lemma_unmarked_part(text, 1, text.len() as int);
            assert(text.skip(1) == text.subrange(1, text.len() as int));
            lemma_collapsed_is_unmarked(text.skip(1));
            lemma_unmarked_concat(seq![text[0]], collapse_double_spaces(text.skip(1)));
        }
    }
}

/// A free-form clearance is free of the mark.
pub proof fn lemma_random_message_is_unmarked(phrase: Seq<char>)
    requires
        is_random_message(phrase),
    ensures
        is_unmarked(phrase),
{
    let (index, letters, runways) = choose|
        index: nat,
        letters: Seq<char>,
        runways: Seq<Seq<char>>,
    |
        {
            &&& index < TEMPLATES
            &&& fits(template_text(index), letters, runways)
            &&& letters.no_duplicates()
            &&& forall|i: int| 0 <= i < runways.len() ==> is_runway(#[trigger] runways[i])
            &&& phrase == #[trigger] free_text(template_text(index), letters, runways)
        };
    lemma_templates_are_unmarked();
    assert forall|i: int| 0 <= i < runways.len() implies is_unmarked(#[trigger] runways[i]) by {
        lemma_runway_is_unmarked(runways[i]);
    }
    let rewritten = filled(template_text(index), letters, runways);
    lemma_filled_is_unmarked(template_text(index), letters, runways);
    lemma_collapsed_is_unmarked(rewritten);
    let tidy = collapse_double_spaces(rewritten);
    lemma_trim(tidy);
    let (from, to) = choose|from: int, to: int|
        0 <= from <= to <= tidy.len() && trim(tidy) == #[trigger] tidy.subrange(from, to);
    lemma_unmarked_part(tidy, from, to);
}

/// Parts that are free of the mark, joined by a separator that is free of
/// it, give a text that is free of it.
pub proof fn lemma_joined_is_unmarked(parts: Seq<Seq<char>>, separator: Seq<char>)
    requires
        is_unmarked(separator),
        forall|i: int| 0 <= i < parts.len() ==> is_unmarked(#[trigger] parts[i]),
    ensures
        is_unmarked(joined(parts, separator)),
    decreases parts.len(),
{
    if parts.len() == 1 {
        assert(is_unmarked(parts[0]));
    } else if parts.len() > 1 {
        let before = parts.drop_last();
        assert forall|i: int| 0 <= i < before.len() implies is_unmarked(#[trigger] before[i]) by {
            assert(before[i] == parts[i]);
        }
        lemma_joined_is_unmarked(before, separator);
        assert(is_unmarked(parts[parts.len() - 1]));
        lemma_unmarked_concat(joined(before, separator), separator);
        lemma_unmarked_concat(joined(before, separator) + separator, parts.last());
    }
}

/// The phrase that takes the place of a mark is free of `!`, whatever the
/// mark: also the phrase of the pressure setting, whose mark is `!`.
pub proof fn lemma_segment_is_unmarked(mark: char, segment: Seq<char>)
    requires
        placeholders().contains(mark),
        is_segment_for(mark, segment),
    ensures
        is_unmarked(segment),
{
    if mark == '=' {
        lemma_runway_is_unmarked(segment);
    } else if mark == '*' {
        lemma_flight_level_is_unmarked(segment);
    } else if mark == '!' {
        lemma_qnh_is_unmarked(segment);
    } else if mark == '$' {
        lemma_altitude_is_unmarked(segment);
    } else if mark == '@' {
        lemma_contact_is_unmarked(segment);
    } else if mark == '^' {
        lemma_heading_is_unmarked(segment);
    } else if mark == '&' {
        lemma_squawk_is_unmarked(segment);
    } else if mark == '-' {
        lemma_wind_is_unmarked(segment);
    } else if mark == '+' {
        lemma_random_message_is_unmarked(segment);
    } else {
        let at = choose|at: int| 0 <= at < placeholders().len() && placeholders()[at] == mark;
        assert(false);
    }
}

/// A mixed message holds `!` only where the call sign brought it: for a call
/// sign without one, no mark is left for the renderer to take for the sign
/// that keeps a number from being spelled out.
pub proof fn lemma_any_message_is_unmarked(message: Seq<char>, call_sign: Seq<char>)
    requires
        is_any_message(message, call_sign),
        is_unmarked(call_sign),
    ensures
        is_unmarked(message),
{
    let (order, segments) = choose|order: Seq<char>, segments: Seq<Seq<char>>|
        #![trigger is_arrangement(order), any_text(call_sign, segments)]
        {
            &&& is_arrangement(order)
            &&& segments.len() == order.len()
            &&& forall|i: int|
                0 <= i < order.len() ==> is_segment_for(order[i], #[trigger] segments[i])
            &&& message == any_text(call_sign, segments)
        };
    lemma_arrangement(order);
    lemma_field_words_are_unmarked();
    assert forall|i: int| 0 <= i < segments.len() implies is_unmarked(#[trigger] segments[i]) by {
        assert(order.contains(order[i]));
        lemma_segment_is_unmarked(order[i], segments[i]);
    }
    lemma_joined_is_unmarked(segments, ", "@);
    lemma_unmarked_concat(call_sign, ", "@);
    lemma_unmarked_concat(call_sign + ", "@, joined(segments, ", "@));
}

} // verus!
