//! The voices: each has a tag, by which the user chooses it, and the name
//! under which the speech engine knows it.

use crate::text::same_text;
use vstd::hash_map::StringHashMap;
use vstd::prelude::*;

verus! {

/// The name of the voice with the given tag, if there is such a voice.
pub open spec fn voice_name(tag: Seq<char>) -> Option<Seq<char>> {
    if tag == "Pilot"@ {
        Some("Daniel"@)
    } else if tag == "ATC0"@ {
        Some("Kate"@)
    } else if tag == "ATC1"@ {
        Some("Tessa"@)
    } else if tag == "ATC2"@ {
        Some("Karen"@)
    } else if tag == "ATC3"@ {
        Some("Samantha"@)
    } else if tag == "ATC4"@ {
        Some("Karen"@)
    } else if tag == "ATC5"@ {
        Some("Karen"@)
    } else if tag == "ATC6"@ {
        Some("Karen"@)
    } else if tag == "ATC7"@ {
        Some("Karen"@)
    } else if tag == "ATC8"@ {
        Some("Serena"@)
    } else {
        None
    }
}

/// The name of the voice with the given tag, if there is such a voice.
pub fn voice(tag: &str) -> (name: Option<&'static str>)
    ensures
        match name {
            Some(n) => voice_name(tag@) == Some(n@),
            None => voice_name(tag@) is None,
        },
{
    if same_text(tag, "Pilot") {
        Some("Daniel")
    } else if same_text(tag, "ATC0") {
        Some("Kate")
    } else if same_text(tag, "ATC1") {
        Some("Tessa")
    } else if same_text(tag, "ATC2") {
        Some("Karen")
    } else if same_text(tag, "ATC3") {
        Some("Samantha")
    } else if same_text(tag, "ATC4") {
        Some("Karen")
    } else if same_text(tag, "ATC5") {
        Some("Karen")
    } else if same_text(tag, "ATC6") {
        Some("Karen")
    } else if same_text(tag, "ATC7") {
        Some("Karen")
    } else if same_text(tag, "ATC8") {
        Some("Serena")
    } else {
        None
    }
}

/// The table of the voices, from tag to name.
pub fn get_voices() -> (table: StringHashMap<&'static str>)
    ensures
        forall|tag: Seq<char>| #[trigger] table@.contains_key(tag) <==> voice_name(tag) is Some,
        forall|tag: Seq<char>| #[trigger]
            table@.contains_key(tag) ==> table@[tag]@ == voice_name(tag)->0,
        table@.dom().finite(),
        table@.len() == 10,
{
    let mut table: StringHashMap<&'static str> = StringHashMap::new();
    proof {
        reveal_strlit("Pilot");
        reveal_strlit("ATC0");
        reveal_strlit("ATC1");
        reveal_strlit("ATC2");
        reveal_strlit("ATC3");
        reveal_strlit("ATC4");
        reveal_strlit("ATC5");
        reveal_strlit("ATC6");
        reveal_strlit("ATC7");
        reveal_strlit("ATC8");
        assert("Pilot"@.len() == 5);
        assert("ATC0"@.len() == 4 && "ATC0"@[3] == '0');
        assert("ATC1"@.len() == 4 && "ATC1"@[3] == '1');
        assert("ATC2"@.len() == 4 && "ATC2"@[3] == '2');
        assert("ATC3"@.len() == 4 && "ATC3"@[3] == '3');
        assert("ATC4"@.len() == 4 && "ATC4"@[3] == '4');
        assert("ATC5"@.len() == 4 && "ATC5"@[3] == '5');
        assert("ATC6"@.len() == 4 && "ATC6"@[3] == '6');
        assert("ATC7"@.len() == 4 && "ATC7"@[3] == '7');
        assert("ATC8"@.len() == 4 && "ATC8"@[3] == '8');
    }
    table.insert(String::from_str("Pilot"), "Daniel");
    table.insert(String::from_str("ATC0"), "Kate");
    table.insert(String::from_str("ATC1"), "Tessa");
    table.insert(String::from_str("ATC2"), "Karen");
    table.insert(String::from_str("ATC3"), "Samantha");
    table.insert(String::from_str("ATC4"), "Karen");
    table.insert(String::from_str("ATC5"), "Karen");
    table.insert(String::from_str("ATC6"), "Karen");
    table.insert(String::from_str("ATC7"), "Karen");
    table.insert(String::from_str("ATC8"), "Serena");
    table
}

/// The tags of the voices in alphabetical order.
pub open spec fn voice_tags() -> Seq<Seq<char>> {
    seq!["ATC0"@, "ATC1"@, "ATC2"@, "ATC3"@, "ATC4"@, "ATC5"@, "ATC6"@, "ATC7"@, "ATC8"@, "Pilot"@]
}

/// The tags of the voices in alphabetical order: the values that may be
/// given for the voice.
pub fn valid_voices() -> (tags: Vec<&'static str>)
    ensures
        tags@.len() == 10,
        forall|i: int| 0 <= i < 10 ==> (#[trigger] tags@[i])@ == voice_tags()[i],
        forall|i: int| 0 <= i < 10 ==> voice_name(#[trigger] voice_tags()[i]) is Some,
{
    let mut tags: Vec<&'static str> = Vec::new();
    tags.push("ATC0");
    tags.push("ATC1");
    tags.push("ATC2");
    tags.push("ATC3");
    tags.push("ATC4");
    tags.push("ATC5");
    tags.push("ATC6");
    tags.push("ATC7");
    tags.push("ATC8");
    tags.push("Pilot");
    tags
}

} // verus!
