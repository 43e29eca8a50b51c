//! Free-form clearances: a template whose designator letters are replaced by
//! letters drawn afresh and spelled out, and whose runway mark is replaced by
//! a runway phrase.

use crate::alphabet::{is_key, spell, spelling};
use crate::numerals::is_digit;
use crate::text::{
    chars_of, collapse_double_spaces, collapsed, holds, is_whitespace, lemma_trim, texts, trim,
    trimmed,
};
use vstd::prelude::*;

verus! {

/// The number of templates.
pub const TEMPLATES: usize = 4;

/// The character that marks the place of a runway phrase in a template.
pub const RUNWAY_MARK: char = '=';

/// The template with the given index.
pub open spec fn template_text(index: nat) -> Seq<char> {
    if index == 0 {
        "engine start-up approved"@
    } else if index == 1 {
        "cleared to munich via T1B departure"@
    } else if index == 2 {
        "cleared to lyon via M2F departure"@
    } else {
        "hold short =, taxi via LFM"@
    }
}

/// The template with the given index.
pub fn template(index: usize) -> (text: &'static str)
    requires
        index < TEMPLATES,
    ensures
        text@ == template_text(index as nat),
{
    if index == 0 {
        "engine start-up approved"
    } else if index == 1 {
        "cleared to munich via T1B departure"
    } else if index == 2 {
        "cleared to lyon via M2F departure"
    } else {
        "hold short =, taxi via LFM"
    }
}

/// Whether `c` is one of the letters `A` to `Z`.
pub open spec fn is_capital(c: char) -> bool {
    'A' <= c <= 'Z'
}

/// The capital letter with the given place in the alphabet, counted from 0.
pub open spec fn capital(place: nat) -> char {
    (65 + place) as char
}

/// Whether a character of a template gives way to a letter drawn afresh:
/// every key of the alphabet but the letter `T` and the digits.
pub open spec fn is_replaced(c: char) -> bool {
    is_key(c) && c != 'T' && !is_digit(c)
}

/// The word spoken for `c` and a space after it.
pub open spec fn spelled(c: char) -> Seq<char> {
    spelling(c)->0 + " "@
}

/// The number of characters of `template` that give way to a fresh letter.
pub open spec fn replaced_count(template: Seq<char>) -> nat
    decreases template.len(),
{
    if template.len() == 0 {
        0
    } else if is_replaced(template.last()) {
        replaced_count(template.drop_last()) + 1
    } else {
        replaced_count(template.drop_last())
    }
}

/// The number of runway marks in `template`.
pub open spec fn runway_count(template: Seq<char>) -> nat
    decreases template.len(),
{
    if template.len() == 0 {
        0
    } else if template.last() == RUNWAY_MARK {
        runway_count(template.drop_last()) + 1
    } else {
        runway_count(template.drop_last())
    }
}

/// The template with its characters rewritten from left to right: a key of
/// the alphabet is spelled out, after it has given way to the next of
/// `letters` unless it is `T` or a digit; a runway mark gives way to the next
/// of `runways`; any other character stays.
pub open spec fn filled(template: Seq<char>, letters: Seq<char>, runways: Seq<Seq<char>>) -> Seq<
    char,
>
    decreases template.len(),
{
    if template.len() == 0 {
        Seq::empty()
    } else {
        let c = template.last();
        let before = template.drop_last();
        if is_replaced(c) {
            filled(before, letters.drop_last(), runways) + spelled(letters.last())
        } else if is_key(c) {
            filled(before, letters, runways) + spelled(c)
        } else if c == RUNWAY_MARK {
            filled(before, letters, runways.drop_last()) + runways.last()
        } else {
            filled(before, letters, runways).push(c)
        }
    }
}

/// The clearance that comes of a template: rewritten, doubled spaces
/// collapsed, trimmed.
pub open spec fn free_text(template: Seq<char>, letters: Seq<char>, runways: Seq<Seq<char>>) -> Seq<
    char,
> {
    trim(collapse_double_spaces(filled(template, letters, runways)))
}

/// Whether the letters and runway phrases are those that the template asks
/// for: a capital letter for each character that is replaced, a phrase for
/// each runway mark.
pub open spec fn fits(template: Seq<char>, letters: Seq<char>, runways: Seq<Seq<char>>) -> bool {
    &&& letters.len() == replaced_count(template)
    &&& runways.len() == runway_count(template)
    &&& forall|i: int| 0 <= i < letters.len() ==> is_capital(#[trigger] letters[i])
}

/// A clearance is trimmed: it neither begins nor ends with white space.
pub proof fn lemma_free_text_is_trimmed(
    template: Seq<char>,
    letters: Seq<char>,
    runways: Seq<Seq<char>>,
)
    ensures
        ({
            let text = free_text(template, letters, runways);
            text.len() > 0 ==> !is_whitespace(text[0]) && !is_whitespace(text.last())
        }),
{
    lemma_trim(collapse_double_spaces(filled(template, letters, runways)));
}

/// A prefix of a template asks for no more letters and runway phrases than
/// the whole template.
pub proof fn lemma_count_prefix(template: Seq<char>, len: int)
    requires
        0 <= len <= template.len(),
    ensures
        replaced_count(template.take(len)) <= replaced_count(template),
        runway_count(template.take(len)) <= runway_count(template),
    decreases template.len(),
{
    if len == template.len() {
        assert(template.take(len) =~= template);
    } else {
        assert(template.drop_last().take(len) =~= template.take(len));
        lemma_count_prefix(template.drop_last(), len);
    }
}

/// What the first `end` characters of a template ask for: the number of
/// those that give way to a fresh letter, and the number of runway marks.
spec fn needs_before(template: Seq<char>, end: nat) -> (nat, nat)
    decreases end,
{
    if end == 0 {
        (0, 0)
    } else {
        let before = needs_before(template, (end - 1) as nat);
        let c = template[end - 1];
        (
            if is_replaced(c) {
                before.0 + 1
            } else {
                before.0
            },
            if c == RUNWAY_MARK {
                before.1 + 1
            } else {
                before.1
            },
        )
    }
}

/// Counting along the places of a template gives what the template asks for.
proof fn lemma_needs_before(template: Seq<char>, end: nat)
    requires
        end <= template.len(),
    ensures
        needs_before(template, end).0 == replaced_count(template.take(end as int)),
        needs_before(template, end).1 == runway_count(template.take(end as int)),
        end == template.len() ==> needs_before(template, end) == (
            replaced_count(template),
            runway_count(template),
        ),
    decreases end,
{
    if end > 0 {
        lemma_needs_before(template, (end - 1) as nat);
        assert(template.take(end as int).drop_last() =~= template.take(end - 1));
    }
    if end == template.len() {
        assert(template.take(end as int) =~= template);
    }
}

/// The start-up clearance asks for no letter and no runway phrase.
proof fn lemma_needs_of_start_up()
    ensures
        replaced_count("engine start-up approved"@) == 0,
        runway_count("engine start-up approved"@) == 0,
{
    reveal_strlit("engine start-up approved");
    reveal_with_fuel(needs_before, 25);
    lemma_needs_before("engine start-up approved"@, 24);
}

/// The departure from Munich asks for one letter: `T` and the digit stay.
proof fn lemma_needs_of_munich()
    ensures
        replaced_count("cleared to munich via T1B departure"@) == 1,
        runway_count("cleared to munich via T1B departure"@) == 0,
{
    reveal_strlit("cleared to munich via T1B departure");
    reveal_with_fuel(needs_before, 36);
    lemma_needs_before("cleared to munich via T1B departure"@, 35);
}

/// The departure from Lyon asks for two letters: the digit stays.
proof fn lemma_needs_of_lyon()
    ensures
        replaced_count("cleared to lyon via M2F departure"@) == 2,
        runway_count("cleared to lyon via M2F departure"@) == 0,
{
    reveal_strlit("cleared to lyon via M2F departure");
    reveal_with_fuel(needs_before, 34);
    lemma_needs_before("cleared to lyon via M2F departure"@, 33);
}

/// The taxi clearance asks for three letters and one runway phrase.
proof fn lemma_needs_of_hold_short()
    ensures
        replaced_count("hold short =, taxi via LFM"@) == 3,
        runway_count("hold short =, taxi via LFM"@) == 1,
{
    reveal_strlit("hold short =, taxi via LFM");
    reveal_with_fuel(needs_before, 27);
    lemma_needs_before("hold short =, taxi via LFM"@, 26);
}

/// No template asks for more than three letters or more than one runway
/// phrase.
pub proof fn lemma_template_needs(index: nat)
    requires
        index < TEMPLATES,
    ensures
        replaced_count(template_text(index)) <= 3,
        runway_count(template_text(index)) <= 1,
        replaced_count(template_text(index)) == if index == 3 {
            3nat
        } else {
            index
        },
        runway_count(template_text(index)) == if index == 3 {
            1nat
        } else {
            0nat
        },
{
    lemma_needs_of_start_up();
    lemma_needs_of_munich();
    lemma_needs_of_lyon();
    lemma_needs_of_hold_short();
}

/// Whether `c` is one of the letters `A` to `Z`.
pub fn capital_letter(c: char) -> (capital: bool)
    ensures
        capital == is_capital(c),
{
    'A' <= c && c <= 'Z'
}

/// Whether a character of a template gives way to a letter drawn afresh.
pub fn replaced(c: char) -> (gives_way: bool)
    ensures
        gives_way == is_replaced(c),
{
    spell(c).is_some() && c != 'T' && !('0' <= c && c <= '9')
}

/// Whether every one of `letters` is a capital letter.
pub fn all_capitals(letters: &Vec<char>) -> (all: bool)
    ensures
        all == forall|i: int| 0 <= i < letters.len() ==> is_capital(#[trigger] letters@[i]),
{
    let mut i: usize = 0;
    while i < letters.len()
        invariant
            i <= letters.len(),
            forall|k: int| 0 <= k < i ==> is_capital(#[trigger] letters@[k]),
        decreases letters.len() - i,
    {
        if !capital_letter(letters[i]) {
            return false;
        }
        i += 1;
    }
    true
}

/// The number of characters of `template` that give way to a fresh letter,
/// and the number of its runway marks.
pub fn template_needs(template: &Vec<char>) -> (needs: (usize, usize))
    ensures
        needs.0 == replaced_count(template@),
        needs.1 == runway_count(template@),
{
    let mut letters: usize = 0;
    let mut runways: usize = 0;
    let mut i: usize = 0;
    while i < template.len()
        invariant
            i <= template.len(),
            letters <= i,
            runways <= i,
            letters == replaced_count(template@.take(i as int)),
            runways == runway_count(template@.take(i as int)),
        decreases template.len() - i,
    {
        assert(template@.take(i + 1).drop_last() =~= template@.take(i as int));
        let c = template[i];
        if replaced(c) {
            letters += 1;
        }
        if c == RUNWAY_MARK {
            runways += 1;
        }
        i += 1;
    }
    assert(template@.take(i as int) =~= template@);
    (letters, runways)
}

/// The clearance that comes of `template` with the given letters and runway
/// phrases, where they are those that the template asks for.
pub fn fill_template(template: &str, letters: &Vec<char>, runways: &Vec<String>) -> (phrase:
    Option<String>)
    ensures
        phrase is Some <==> fits(template@, letters@, texts(runways@)),
        phrase matches Some(text) ==> text@ == free_text(template@, letters@, texts(runways@)),
{
    let chars = chars_of(template);
    let needs = template_needs(&chars);
    if needs.0 != letters.len() || needs.1 != runways.len() || !all_capitals(letters) {
        return None;
    }
    let mut out = String::new();
    let mut next_letter: usize = 0;
    let mut next_runway: usize = 0;
    let mut i: usize = 0;
    assert(letters@.take(0) =~= Seq::<char>::empty());
    while i < chars.len()
        invariant
            i <= chars.len(),
            chars@ == template@,
            fits(chars@, letters@, texts(runways@)),
            next_letter == replaced_count(chars@.take(i as int)),
            next_runway == runway_count(chars@.take(i as int)),
            out@ == filled(
                chars@.take(i as int),
                letters@.take(next_letter as int),
                texts(runways@).take(next_runway as int),
            ),
        decreases chars.len() - i,
    {
        let c = chars[i];
        proof {
            assert(chars@.take(i + 1).drop_last() =~= chars@.take(i as int));
            assert(chars@.take(i + 1).last() == c);
            lemma_count_prefix(chars@, i + 1);
        }
        if replaced(c) {
            assert(replaced_count(chars@.take(i + 1)) == next_letter + 1);
            assert(next_letter < letters.len());
            let letter = letters[next_letter];
            proof {
                assert(is_capital(letters@[next_letter as int]));
                assert(letters@.take(next_letter + 1).drop_last() =~= letters@.take(
                    next_letter as int,
                ));
            }
            let word = spell(letter).unwrap();
            out.append(word);
            out.append(" ");
            next_letter += 1;
            assert(out@ =~= filled(
                chars@.take(i + 1),
                letters@.take(next_letter as int),
                texts(runways@).take(next_runway as int),
            ));
        } else if let Some(word) = spell(c) {
            out.append(word);
            out.append(" ");
            assert(out@ =~= filled(
                chars@.take(i + 1),
                letters@.take(next_letter as int),
                texts(runways@).take(next_runway as int),
            ));
        } else if c == RUNWAY_MARK {
            assert(runway_count(chars@.take(i + 1)) == next_runway + 1);
            assert(texts(runways@).len() == runways.len());
            assert(next_runway < runways.len());
            out.append(runways[next_runway].as_str());
            proof {
                assert(texts(runways@).take(next_runway + 1).drop_last() =~= texts(runways@).take(
                    next_runway as int,
                ));
            }
            next_runway += 1;
        } else {
            out.push(c);
        }
        i += 1;
    }
    proof {
        assert(chars@.take(i as int) =~= chars@);
        assert(letters@.take(next_letter as int) =~= letters@);
        assert(texts(runways@).take(next_runway as int) =~= texts(runways@));
    }
    let tidy = collapsed(out.as_str());
    Some(trimmed(tidy.as_str()))
}

/// The free-form clearances: one of the templates, filled with capital
/// letters of which none occurs twice and with runway phrases.
pub open spec fn is_random_message(phrase: Seq<char>) -> bool {
    exists|index: nat, letters: Seq<char>, runways: Seq<Seq<char>>|
        {
            &&& index < TEMPLATES
            &&& fits(template_text(index), letters, runways)
            &&& letters.no_duplicates()
            &&& forall|i: int|
                0 <= i < runways.len() ==> crate::phrases::is_runway(#[trigger] runways[i])
            &&& phrase == #[trigger] free_text(template_text(index), letters, runways)
        }
}

/// A sequence that holds each of the first `count` capital letters is at
/// least `count` long.
pub proof fn lemma_capitals_need_room(used: Seq<char>, count: nat)
    requires
        count <= 26,
        forall|place: nat| place < count ==> used.contains(#[trigger] capital(place)),
    ensures
        used.len() >= count,
    decreases count,
{
    if count > 0 {
        let last = capital((count - 1) as nat);
        assert(used.contains(last));
        let at = choose|i: int| 0 <= i < used.len() && used[i] == last;
        let rest = used.remove(at);
        assert forall|place: nat| place < count - 1 implies rest.contains(
            #[trigger] capital(place),
        ) by {
            assert(used.contains(capital(place)));
            let j = choose|j: int| 0 <= j < used.len() && used[j] == capital(place);
            assert(capital(place) != last);
            if j < at {
                assert(rest[j] == used[j]);
            } else {
                assert(rest[j - 1] == used[j]);
            }
        }
        lemma_capitals_need_room(rest, (count - 1) as nat);
    }
}

/// The first capital letter that does not occur in `used`, if there is one.
pub fn first_unused_letter(used: &Vec<char>) -> (letter: Option<char>)
    ensures
        match letter {
            Some(c) => is_capital(c) && !used@.contains(c) && forall|earlier: char|
                'A' <= earlier < c ==> used@.contains(earlier),
            None => forall|c: char| is_capital(c) ==> used@.contains(c),
        },
        used.len() < 26 ==> letter is Some,
{
    let mut place: u8 = 0;
    while place < 26
        invariant
            place <= 26,
            forall|earlier: nat| earlier < place ==> used@.contains(#[trigger] capital(earlier)),
        decreases 26 - place,
    {
        let c = (65u8 + place) as char;
        assert(c == capital(place as nat));
        if !holds(used, c) {
            assert forall|earlier: char| 'A' <= earlier < c implies used@.contains(earlier) by {
                assert(earlier == capital((earlier as nat - 65) as nat));
            }
            return Some(c);
        }
        place += 1;
    }
    proof {
        lemma_capitals_need_room(used@, 26);
        assert forall|c: char| is_capital(c) implies used@.contains(c) by {
            assert(c == capital((c as nat - 65) as nat));
        }
    }
    None
}

} // verus!
