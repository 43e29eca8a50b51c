//! The spelling alphabet: letters, digits and the decimal point, each with
//! the word that is spoken for it, and the two multi-digit tokens `00` and
//! `000`.

use crate::text::chars_of;
use vstd::hash_map::StringHashMap;
use vstd::prelude::*;

verus! {

/// The word spoken for the character `c`, if the alphabet has one: the
/// letters `A` to `Z`, the digits and the decimal point.
pub open spec fn spelling(c: char) -> Option<Seq<char>> {
    match c {
        'A' => Some("alfa"@),
        'B' => Some("bravo"@),
        'C' => Some("charlie"@),
        'D' => Some("delta"@),
        'E' => Some("echo"@),
        'F' => Some("foxtrot"@),
        'G' => Some("golf"@),
        'H' => Some("hotel"@),
        'I' => Some("india"@),
        'J' => Some("juliett"@),
        'K' => Some("kilo"@),
        'L' => Some("lima"@),
        'M' => Some("mike"@),
        'N' => Some("november"@),
        'O' => Some("oscar"@),
        'P' => Some("papa"@),
        'Q' => Some("quebec"@),
        'R' => Some("romeo"@),
        'S' => Some("sierra"@),
        'T' => Some("tango"@),
        'U' => Some("uniform"@),
        'V' => Some("victor"@),
        'W' => Some("whiskey"@),
        'X' => Some("xray"@),
        'Y' => Some("yankee"@),
        'Z' => Some("zulu"@),
        '0' => Some("zero"@),
        '1' => Some("wun"@),
        '2' => Some("too"@),
        '3' => Some("tree"@),
        '4' => Some("fower"@),
        '5' => Some("five"@),
        '6' => Some("six"@),
        '7' => Some("seven"@),
        '8' => Some("ait"@),
        '9' => Some("niner"@),
        '.' => Some("decimal"@),
        _ => None,
    }
}

/// Whether the alphabet has a word for the character `c`.
pub open spec fn is_key(c: char) -> bool {
    spelling(c) is Some
}

/// The word spoken for `token`, if the alphabet has one. A token is a single
/// character with a spelling, `00` or `000`.
pub open spec fn spoken_form(token: Seq<char>) -> Option<Seq<char>> {
    if token.len() == 1 {
        spelling(token[0])
    } else if token == seq!['0', '0'] {
        Some("hundred"@)
    } else if token == seq!['0', '0', '0'] {
        Some("thousand"@)
    } else {
        None
    }
}

/// Whether `word` has at least three characters, all of them lower-case
/// letters.
pub open spec fn is_lower_case_word(word: Seq<char>) -> bool {
    &&& word.len() >= 3
    &&& forall|i: int| 0 <= i < word.len() ==> 'a' <= #[trigger] word[i] <= 'z'
}

/// The keys of the alphabet are the capital letters, the digits and the
/// decimal point.
pub proof fn lemma_keys(c: char)
    ensures
        is_key(c) <==> ('A' <= c <= 'Z' || '0' <= c <= '9' || c == '.'),
{
}

/// Every spelling is a word of at least three lower-case letters.
pub proof fn lemma_spelling_is_word(c: char)
    requires
        is_key(c),
    ensures
        is_lower_case_word(spelling(c)->0),
{
    reveal_strlit("alfa");
    reveal_strlit("bravo");
    reveal_strlit("charlie");
    reveal_strlit("delta");
    reveal_strlit("echo");
    reveal_strlit("foxtrot");
    reveal_strlit("golf");
    reveal_strlit("hotel");
    reveal_strlit("india");
    reveal_strlit("juliett");
    reveal_strlit("kilo");
    reveal_strlit("lima");
    reveal_strlit("mike");
    reveal_strlit("november");
    reveal_strlit("oscar");
    reveal_strlit("papa");
    reveal_strlit("quebec");
    reveal_strlit("romeo");
    reveal_strlit("sierra");
    reveal_strlit("tango");
    reveal_strlit("uniform");
    reveal_strlit("victor");
    reveal_strlit("whiskey");
    reveal_strlit("xray");
    reveal_strlit("yankee");
    reveal_strlit("zulu");
    reveal_strlit("zero");
    reveal_strlit("wun");
    reveal_strlit("too");
    reveal_strlit("tree");
    reveal_strlit("fower");
    reveal_strlit("five");
    reveal_strlit("six");
    reveal_strlit("seven");
    reveal_strlit("ait");
    reveal_strlit("niner");
    reveal_strlit("decimal");
}

/// The first three letters of a word.
pub open spec fn initials(word: Seq<char>) -> (char, char, char) {
    (word[0], word[1], word[2])
}

/// The alphabet can be read in both directions: no two keys share a word.
/// The words differ already in their first three letters.
pub proof fn lemma_spellings_differ(a: char, b: char)
    requires
        is_key(a),
        is_key(b),
        a != b,
    ensures
        initials(spelling(a)->0) != initials(spelling(b)->0),
        spelling(a) != spelling(b),
{
    reveal_strlit("alfa");
    reveal_strlit("bravo");
    reveal_strlit("charlie");
    reveal_strlit("delta");
    reveal_strlit("echo");
    reveal_strlit("foxtrot");
    reveal_strlit("golf");
    reveal_strlit("hotel");
    reveal_strlit("india");
    reveal_strlit("juliett");
    reveal_strlit("kilo");
    reveal_strlit("lima");
    reveal_strlit("mike");
    reveal_strlit("november");
    reveal_strlit("oscar");
    reveal_strlit("papa");
    reveal_strlit("quebec");
    reveal_strlit("romeo");
    reveal_strlit("sierra");
    reveal_strlit("tango");
    reveal_strlit("uniform");
    reveal_strlit("victor");
    reveal_strlit("whiskey");
    reveal_strlit("xray");
    reveal_strlit("yankee");
    reveal_strlit("zulu");
    reveal_strlit("zero");
    reveal_strlit("wun");
    reveal_strlit("too");
    reveal_strlit("tree");
    reveal_strlit("fower");
    reveal_strlit("five");
    reveal_strlit("six");
    reveal_strlit("seven");
    reveal_strlit("ait");
    reveal_strlit("niner");
    reveal_strlit("decimal");
    assert(initials("alfa"@) == ('a', 'l', 'f'));
    assert(initials("bravo"@) == ('b', 'r', 'a'));
    assert(initials("charlie"@) == ('c', 'h', 'a'));
    assert(initials("delta"@) == ('d', 'e', 'l'));
    assert(initials("echo"@) == ('e', 'c', 'h'));
    assert(initials("foxtrot"@) == ('f', 'o', 'x'));
    assert(initials("golf"@) == ('g', 'o', 'l'));
    assert(initials("hotel"@) == ('h', 'o', 't'));
    assert(initials("india"@) == ('i', 'n', 'd'));
    assert(initials("juliett"@) == ('j', 'u', 'l'));
    assert(initials("kilo"@) == ('k', 'i', 'l'));
    assert(initials("lima"@) == ('l', 'i', 'm'));
    assert(initials("mike"@) == ('m', 'i', 'k'));
    assert(initials("november"@) == ('n', 'o', 'v'));
    assert(initials("oscar"@) == ('o', 's', 'c'));
    assert(initials("papa"@) == ('p', 'a', 'p'));
    assert(initials("quebec"@) == ('q', 'u', 'e'));
    assert(initials("romeo"@) == ('r', 'o', 'm'));
    assert(initials("sierra"@) == ('s', 'i', 'e'));
    assert(initials("tango"@) == ('t', 'a', 'n'));
    assert(initials("uniform"@) == ('u', 'n', 'i'));
    assert(initials("victor"@) == ('v', 'i', 'c'));
    assert(initials("whiskey"@) == ('w', 'h', 'i'));
    assert(initials("xray"@) == ('x', 'r', 'a'));
    assert(initials("yankee"@) == ('y', 'a', 'n'));
    assert(initials("zulu"@) == ('z', 'u', 'l'));
    assert(initials("zero"@) == ('z', 'e', 'r'));
    assert(initials("wun"@) == ('w', 'u', 'n'));
    assert(initials("too"@) == ('t', 'o', 'o'));
    assert(initials("tree"@) == ('t', 'r', 'e'));
    assert(initials("fower"@) == ('f', 'o', 'w'));
    assert(initials("five"@) == ('f', 'i', 'v'));
    assert(initials("six"@) == ('s', 'i', 'x'));
    assert(initials("seven"@) == ('s', 'e', 'v'));
    assert(initials("ait"@) == ('a', 'i', 't'));
    assert(initials("niner"@) == ('n', 'i', 'n'));
    assert(initials("decimal"@) == ('d', 'e', 'c'));
}

/// The words for `00` and `000` are words of lower-case letters.
pub proof fn lemma_quantity_words()
    ensures
        spoken_form(seq!['0', '0']) == Some("hundred"@),
        spoken_form(seq!['0', '0', '0']) == Some("thousand"@),
        is_lower_case_word("hundred"@),
        is_lower_case_word("thousand"@),
{
    reveal_strlit("hundred");
    reveal_strlit("thousand");
}

/// The number of single-character tokens whose code is below `bound`.
pub open spec fn keys_below(bound: int) -> int {
    if bound <= 46 {
        0
    } else if bound <= 48 {
        1
    } else if bound <= 58 {
        1 + (bound - 48)
    } else if bound <= 65 {
        11
    } else if bound <= 91 {
        11 + (bound - 65)
    } else {
        37
    }
}

/// The word spoken for the character `c`, if the alphabet has one.
pub fn spell(c: char) -> (word: Option<&'static str>)
    ensures
        match word {
            Some(w) => spelling(c) == Some(w@),
            None => spelling(c) is None,
        },
{
    match c {
        'A' => Some("alfa"),
        'B' => Some("bravo"),
        'C' => Some("charlie"),
        'D' => Some("delta"),
        'E' => Some("echo"),
        'F' => Some("foxtrot"),
        'G' => Some("golf"),
        'H' => Some("hotel"),
        'I' => Some("india"),
        'J' => Some("juliett"),
        'K' => Some("kilo"),
        'L' => Some("lima"),
        'M' => Some("mike"),
        'N' => Some("november"),
        'O' => Some("oscar"),
        'P' => Some("papa"),
        'Q' => Some("quebec"),
        'R' => Some("romeo"),
        'S' => Some("sierra"),
        'T' => Some("tango"),
        'U' => Some("uniform"),
        'V' => Some("victor"),
        'W' => Some("whiskey"),
        'X' => Some("xray"),
        'Y' => Some("yankee"),
        'Z' => Some("zulu"),
        '0' => Some("zero"),
        '1' => Some("wun"),
        '2' => Some("too"),
        '3' => Some("tree"),
        '4' => Some("fower"),
        '5' => Some("five"),
        '6' => Some("six"),
        '7' => Some("seven"),
        '8' => Some("ait"),
        '9' => Some("niner"),
        '.' => Some("decimal"),
        _ => None,
    }
}

/// The word spoken for `token`, if the alphabet has one.
pub fn spoken(token: &str) -> (word: Option<&'static str>)
    ensures
        match word {
            Some(w) => spoken_form(token@) == Some(w@),
            None => spoken_form(token@) is None,
        },
{
    let chars = chars_of(token);
    if chars.len() == 1 {
        spell(chars[0])
    } else if chars.len() == 2 && chars[0] == '0' && chars[1] == '0' {
        assert(chars@ =~= seq!['0', '0']);
        Some("hundred")
    } else if chars.len() == 3 && chars[0] == '0' && chars[1] == '0' && chars[2] == '0' {
        assert(chars@ =~= seq!['0', '0', '0']);
        Some("thousand")
    } else {
        None
    }
}

/// The whole alphabet as a table from token to spoken word: thirty-seven
/// single characters, `00` and `000`.
pub fn get_alfabet() -> (table: StringHashMap<&'static str>)
    ensures
        forall|token: Seq<char>| #[trigger]
            table@.contains_key(token) <==> spoken_form(token) is Some,
        forall|token: Seq<char>| #[trigger]
            table@.contains_key(token) ==> table@[token]@ == spoken_form(token)->0,
        table@.dom().finite(),
        table@.len() == 39,
{
    let mut table: StringHashMap<&'static str> = StringHashMap::new();
    let mut code: u8 = 0;
    while code < 128
        invariant
            code <= 128,
            table@.dom().finite(),
            table@.len() == keys_below(code as int),
            forall|token: Seq<char>| #[trigger]
                table@.contains_key(token) <==> (token.len() == 1 && (token[0] as u32) < code
                    && is_key(token[0])),
            forall|token: Seq<char>| #[trigger]
                table@.contains_key(token) ==> table@[token]@ == spelling(token[0])->0,
        decreases 128 - code,
    {
        let c = code as char;
        if let Some(word) = spell(c) {
            let mut token = String::new();
            token.push(c);
            assert(token@ =~= seq![c]);
            assert(!table@.contains_key(token@));
            table.insert(token, word);
        }
        proof {
            assert forall|token: Seq<char>| #[trigger]
                table@.contains_key(token) <==> (token.len() == 1 && (token[0] as u32) < code + 1
                    && is_key(token[0])) by {
                if token.len() == 1 && token[0] == c {
                    assert(token =~= seq![c]);
                }
            }
        }
        code += 1;
    }
    proof {
        lemma_quantity_words();
    }
    let hundred = String::from_str("00");
    let thousand = String::from_str("000");
    proof {
        reveal_strlit("00");
        reveal_strlit("000");
        assert(hundred@ =~= seq!['0', '0']);
        assert(thousand@ =~= seq!['0', '0', '0']);
    }
    table.insert(hundred, "hundred");
    table.insert(thousand, "thousand");
    proof {
        assert forall|token: Seq<char>| #[trigger]
            table@.contains_key(token) <==> spoken_form(token) is Some by {
            if token.len() == 1 {
                lemma_keys(token[0]);
            }
        }
    }
    table
}

} // verus!
