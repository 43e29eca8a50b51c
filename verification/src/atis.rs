//! The arrival-information bulletin: ten segments in a fixed order, the
//! information letter named in the first and again in the last.

use crate::free_text::is_capital;
use crate::numerals::{decimal, push_decimal};
use crate::phrases::{is_qnh, is_runway, is_temperature, is_wind};
use crate::text::{join, joined, lemma_joined_ends, texts};
use vstd::prelude::*;

verus! {

/// The number of airports that a bulletin may be for.
pub const AIRPORTS: usize = 8;

/// The name of the airport with the given index.
pub open spec fn airport_name(index: nat) -> Seq<char> {
    if index == 0 {
        "schiphol"@
    } else if index == 1 {
        "dubai"@
    } else if index == 2 {
        "new york"@
    } else if index == 3 {
        "detroit"@
    } else if index == 4 {
        "abu dhabi"@
    } else if index == 5 {
        "warsaw"@
    } else if index == 6 {
        "berlin"@
    } else {
        "al bateen"@
    }
}

/// The name of the airport with the given index.
pub fn airport(index: usize) -> (name: &'static str)
    requires
        index < AIRPORTS,
    ensures
        name@ == airport_name(index as nat),
{
    if index == 0 {
        "schiphol"
    } else if index == 1 {
        "dubai"
    } else if index == 2 {
        "new york"
    } else if index == 3 {
        "detroit"
    } else if index == 4 {
        "abu dhabi"
    } else if index == 5 {
        "warsaw"
    } else if index == 6 {
        "berlin"
    } else {
        "al bateen"
    }
}

/// Whether `value` is a multiple of `step` from `low` to `high`.
pub open spec fn is_step_between(value: nat, step: nat, low: nat, high: nat) -> bool {
    low <= value <= high && value % step == 0
}

/// What a bulletin reports. The runway, the wind, the temperature and the
/// pressure are held as the phrases that are spoken for them.
pub struct Atis {
    pub airport: String,
    pub letter: char,
    pub runway: String,
    pub transition_level: u32,
    pub wind: String,
    pub visibility: u32,
    pub few: u32,
    pub scattered: u32,
    pub broken: u32,
    pub temperature: String,
    pub qnh: String,
}

impl Atis {
    /// The first segment: the airport and the information letter.
    pub open spec fn opening(&self) -> Seq<char> {
        "this is "@ + self.airport@ + " arrival information "@ + seq![self.letter]
    }

    /// The segment on the clouds: three layers, each with `!` before its
    /// base so that the number is spoken as a whole.
    pub open spec fn clouds(&self) -> Seq<char> {
        "clouds few !"@ + decimal(self.few as nat) + ", scattered !"@ + decimal(
            self.scattered as nat,
        ) + ", broken !"@ + decimal(self.broken as nat)
    }

    /// The last segment: the information letter once more.
    pub open spec fn closing(&self) -> Seq<char> {
        "end of information "@ + seq![self.letter]
    }

    /// The ten segments of the bulletin, in order.
    pub open spec fn segments(&self) -> Seq<Seq<char>> {
        seq![
            self.opening(),
            "main landing "@ + self.runway@,
            "transition level "@ + decimal(self.transition_level as nat),
            self.wind@,
            "visibility !"@ + decimal(self.visibility as nat) + " metres"@,
            self.clouds(),
            self.temperature@,
            self.qnh@,
            "no significant change"@,
            self.closing(),
        ]
    }

    /// The bulletin: its segments with a comma and a space between them.
    pub open spec fn text(&self) -> Seq<char> {
        joined(self.segments(), ", "@)
    }

    /// Whether the bulletin is one that the generator may produce: a known
    /// airport, a capital letter, a transition level from 50 to 100 in tens,
    /// a visibility from 100 to 10000 in hundreds, cloud bases in hundreds
    /// (few from 1000 to 2500, scattered from 2500 to 3500, broken from 3500
    /// to 10000), a metric pressure, and phrases of the other fields.
    pub open spec fn valid(&self) -> bool {
        &&& exists|index: nat| index < AIRPORTS && self.airport@ == #[trigger] airport_name(index)
        &&& is_capital(self.letter)
        &&& is_runway(self.runway@)
        &&& is_step_between(self.transition_level as nat, 10, 50, 100)
        &&& is_wind(self.wind@)
        &&& is_step_between(self.visibility as nat, 100, 100, 10000)
        &&& is_step_between(self.few as nat, 100, 1000, 2500)
        &&& is_step_between(self.scattered as nat, 100, 2500, 3500)
        &&& is_step_between(self.broken as nat, 100, 3500, 10000)
        &&& is_temperature(self.temperature@)
        &&& is_qnh(self.qnh@, false)
    }

    /// The ten segments of the bulletin, in order.
    pub fn segment_list(&self) -> (list: Vec<String>)
        ensures
            texts(list@) == self.segments(),
    {
        let mut opening = String::from_str("this is ");
        opening.append(self.airport.as_str());
        opening.append(" arrival information ");
        opening.push(self.letter);

        let mut landing = String::from_str("main landing ");
        landing.append(self.runway.as_str());

        let mut transition = String::from_str("transition level ");
        push_decimal(&mut transition, self.transition_level);

        let mut visibility = String::from_str("visibility !");
        push_decimal(&mut visibility, self.visibility);
        visibility.append(" metres");

        let mut clouds = String::from_str("clouds few !");
        push_decimal(&mut clouds, self.few);
        clouds.append(", scattered !");
        push_decimal(&mut clouds, self.scattered);
        clouds.append(", broken !");
        push_decimal(&mut clouds, self.broken);

        let mut closing = String::from_str("end of information ");
        closing.push(self.letter);

        let mut list: Vec<String> = Vec::new();
        list.push(opening);
        list.push(landing);
        list.push(transition);
        list.push(self.wind.clone());
        list.push(visibility);
        list.push(clouds);
        list.push(self.temperature.clone());
        list.push(self.qnh.clone());
        list.push(String::from_str("no significant change"));
        list.push(closing);
        proof {
            let expected = self.segments();
            assert(texts(list@).len() == expected.len());
            assert(texts(list@)[0] =~= expected[0]);
            assert(texts(list@)[1] =~= expected[1]);
            assert(texts(list@)[2] =~= expected[2]);
            assert(texts(list@)[3] =~= expected[3]);
            assert(texts(list@)[4] =~= expected[4]);
            assert(texts(list@)[5] =~= expected[5]);
            assert(texts(list@)[6] =~= expected[6]);
            assert(texts(list@)[7] =~= expected[7]);
            assert(texts(list@)[8] =~= expected[8]);
            assert(texts(list@)[9] =~= expected[9]);
            assert(texts(list@) =~= expected);
        }
        list
    }

    /// The bulletin as it is composed, before it is rendered for speech.
    pub fn message(&self) -> (message: String)
        ensures
            message@ == self.text(),
    {
        join(&self.segment_list(), ", ")
    }
}

/// The bulletins that the generator may produce.
pub open spec fn is_atis(message: Seq<char>) -> bool {
    exists|atis: Atis| atis.valid() && message == #[trigger] atis.text()
}

/// A bulletin has ten segments. It begins with the first and ends with the
/// last, and both end in the information letter: the same letter stands at
/// the end of the first segment and at the end of the bulletin.
pub proof fn lemma_atis_letter(atis: Atis)
    ensures
        atis.segments().len() == 10,
        atis.segments()[0] == atis.opening(),
        atis.segments()[9] == atis.closing(),
        atis.opening().last() == atis.letter,
        atis.closing().last() == atis.letter,
        atis.text().len() >= atis.opening().len(),
        atis.text().take(atis.opening().len() as int) == atis.opening(),
        atis.text().len() >= atis.closing().len(),
        atis.text().skip(atis.text().len() - atis.closing().len()) == atis.closing(),
        atis.text().last() == atis.letter,
        atis.text()[atis.opening().len() - 1] == atis.letter,
{
    let text = atis.text();
    let closing = atis.closing();
    lemma_joined_ends(atis.segments(), ", "@);
    assert(atis.segments().last() == closing);
    assert(text.skip(text.len() - closing.len()).last() == text.last());
    assert(text.take(atis.opening().len() as int).last() == text[atis.opening().len() - 1]);
}

/// A bulletin that the generator may produce names one capital letter at
/// the end of its first segment and the same letter at its own end.
pub proof fn lemma_atis(message: Seq<char>)
    requires
        is_atis(message),
    ensures
        exists|atis: Atis|
            {
                &&& atis.valid()
                &&& message == #[trigger] atis.text()
                &&& is_capital(atis.letter)
                &&& message.take(atis.opening().len() as int) == atis.opening()
                &&& message[atis.opening().len() - 1] == atis.letter
                &&& message.last() == atis.letter
            },
{
    let atis = choose|atis: Atis| atis.valid() && message == #[trigger] atis.text();
    lemma_atis_letter(atis);
}

} // verus!
