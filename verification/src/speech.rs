//! What the speech engine is asked to do with a text, decided from the
//! text, the tag of the voice and whether the text is split at its commas.
//! The engine itself is not part of this library: the caller carries the
//! plan out.

use crate::numerals::{decimal, push_decimal};
use crate::text::{chars_of, joined, text_of, texts, trim, trimmed};
use crate::voices::{voice, voice_name};
use vstd::prelude::*;

verus! {

/// Whether `pattern` stands somewhere in `text`.
pub open spec fn contains_text(text: Seq<char>, pattern: Seq<char>) -> bool {
    exists|at: int| occurs_at(text, pattern, at)
}

/// Whether `pattern` stands in `text` at the place `at`.
pub open spec fn occurs_at(text: Seq<char>, pattern: Seq<char>, at: int) -> bool {
    0 <= at && at + pattern.len() <= text.len() && text.subrange(at, at + pattern.len())
        == pattern
}

/// The pieces of `text` between the occurrences of `c`: one more piece than
/// there are occurrences.
pub open spec fn split(text: Seq<char>, c: char) -> Seq<Seq<char>>
    decreases text.len(),
{
    if text.len() == 0 {
        seq![Seq::empty()]
    } else {
        let before = split(text.drop_last(), c);
        if text.last() == c {
            before.push(Seq::empty())
        } else {
            before.drop_last().push(before.last().push(text.last()))
        }
    }
}

/// There is always a piece, and the pieces joined by `c` are the text again.
pub proof fn lemma_split_joins(text: Seq<char>, c: char)
    ensures
        split(text, c).len() >= 1,
        joined(split(text, c), seq![c]) == text,
    decreases text.len(),
{
    let separator = seq![c];
    if text.len() == 0 {
        assert(joined(split(text, c), separator) =~= text);
    } else {
        let before = split(text.drop_last(), c);
        lemma_split_joins(text.drop_last(), c);
        let pieces = split(text, c);
        if text.last() == c {
            assert(pieces.drop_last() =~= before);
            assert(joined(pieces, separator) =~= text.drop_last() + separator);
            assert(text.drop_last() + separator =~= text);
        } else {
            let grown = before.last().push(text.last());
            assert(pieces.last() == grown);
            if before.len() == 1 {
                assert(pieces =~= seq![grown]);
                assert(before.last() == text.drop_last());
                assert(grown =~= text);
            } else {
                assert(pieces.drop_last() =~= before.drop_last());
                assert(joined(pieces, separator) =~= (joined(before.drop_last(), separator)
                    + separator + before.last()).push(text.last()));
                assert(text.drop_last().push(text.last()) =~= text);
            }
        }
    }
}

/// What is spoken one after the other: the pieces between the commas, each
/// trimmed, where the text is split at its commas; else the text as it is.
pub open spec fn utterances(text: Seq<char>, comma: bool) -> Seq<Seq<char>> {
    if comma {
        Seq::new(split(text, ',').len(), |i: int| trim(split(text, ',')[i]))
    } else {
        seq![text]
    }
}

/// The mark in a text that asks for a pause in place of speech.
pub open spec fn pause_mark() -> Seq<char> {
    "!Pause"@
}

/// What the speech engine is asked to do.
pub enum SpeechPlan {
    /// The voice is not known: nothing is spoken.
    Nothing,
    /// The text asks for a pause: nothing is spoken, the caller waits for
    /// as long as the configuration says.
    Pause,
    /// The utterances are spoken one after the other by the voice of the
    /// given name.
    Speak { voice_name: String, utterances: Vec<String> },
}

/// What a text asks of the speech engine, for the voice with the given tag.
pub open spec fn is_plan_for(
    plan: SpeechPlan,
    text: Seq<char>,
    voice_tag: Seq<char>,
    comma: bool,
) -> bool {
    match plan {
        SpeechPlan::Nothing => voice_name(voice_tag) is None,
        SpeechPlan::Pause => voice_name(voice_tag) is Some && contains_text(text, pause_mark()),
        SpeechPlan::Speak { voice_name: name, utterances: list } => {
            &&& voice_name(voice_tag) == Some(name@)
            &&& !contains_text(text, pause_mark())
            &&& texts(list@) == utterances(text, comma)
        },
    }
}

/// Whether `pattern` stands somewhere in `text`.
pub fn holds_text(text: &str, pattern: &str) -> (found: bool)
    ensures
        found == contains_text(text@, pattern@),
{
    let chars = chars_of(text);
    let wanted = chars_of(pattern);
    if wanted.len() > chars.len() {
        assert(forall|at: int| !occurs_at(text@, pattern@, at));
        return false;
    }
    let last = chars.len() - wanted.len();
    let mut at: usize = 0;
    while at <= last
        invariant
            chars@ == text@,
            wanted@ == pattern@,
            wanted.len() <= chars.len(),
            last == chars.len() - wanted.len(),
            at <= last + 1,
            forall|earlier: int| 0 <= earlier < at ==> !occurs_at(text@, pattern@, earlier),
        decreases last + 1 - at,
    {
        let mut k: usize = 0;
        while k < wanted.len() && chars[at + k] == wanted[k]
            invariant
                at <= last,
                last == chars.len() - wanted.len(),
                wanted.len() <= chars.len(),
                k <= wanted.len(),
                forall|j: int| 0 <= j < k ==> chars@[at + j] == wanted@[j],
            decreases wanted.len() - k,
        {
            k += 1;
        }
        if k == wanted.len() {
            assert(chars@.subrange(at as int, at + wanted.len()) =~= wanted@);
            assert(occurs_at(text@, pattern@, at as int));
            return true;
        }
        assert(!occurs_at(text@, pattern@, at as int)) by {
            if occurs_at(text@, pattern@, at as int) {
                assert(text@.subrange(at as int, at + pattern@.len())[k as int] == pattern@[k as int]);
            }
        }
        at += 1;
    }
    assert(forall|place: int| !occurs_at(text@, pattern@, place));
    false
}

/// The pieces of `text` between the occurrences of `c`.
pub fn pieces(text: &str, c: char) -> (list: Vec<String>)
    ensures
        texts(list@) == split(text@, c),
{
    let chars = chars_of(text);
    let mut list: Vec<String> = Vec::new();
    let mut piece: Vec<char> = Vec::new();
    let mut i: usize = 0;
    assert(texts(list@).push(piece@) =~= split(chars@.take(0), c));
    while i < chars.len()
        invariant
            i <= chars.len(),
            chars@ == text@,
            texts(list@).push(piece@) == split(chars@.take(i as int), c),
        decreases chars.len() - i,
    {
        let ghost done = texts(list@);
        let ghost open = piece@;
        proof {
            assert(chars@.take(i + 1).drop_last() =~= chars@.take(i as int));
            assert(done.push(open).drop_last() =~= done);
        }
        if chars[i] == c {
            let closed = text_of(&piece);
            list.push(closed);
            piece = Vec::new();
            assert(texts(list@) =~= done.push(open));
            assert(texts(list@).push(piece@) =~= split(chars@.take(i + 1), c));
        } else {
            piece.push(chars[i]);
            assert(texts(list@).push(piece@) =~= split(chars@.take(i + 1), c));
        }
        i += 1;
    }
    let ghost done = texts(list@);
    let closed = text_of(&piece);
    list.push(closed);
    assert(chars@.take(i as int) =~= chars@);
    assert(texts(list@) =~= done.push(piece@));
    list
}

/// What is spoken one after the other.
pub fn utterance_list(text: &str, comma: bool) -> (list: Vec<String>)
    ensures
        texts(list@) == utterances(text@, comma),
{
    let mut list: Vec<String> = Vec::new();
    if comma {
        let parts = pieces(text, ',');
        let mut i: usize = 0;
        while i < parts.len()
            invariant
                i <= parts.len(),
                texts(parts@) == split(text@, ','),
                list.len() == i,
                forall|k: int| 0 <= k < i ==> #[trigger] texts(list@)[k] == trim(texts(parts@)[k]),
            decreases parts.len() - i,
        {
            let ghost before = texts(list@);
            let part = trimmed(parts[i].as_str());
            list.push(part);
            assert(texts(list@) =~= before.push(part@));
            assert(texts(parts@)[i as int] == parts@[i as int]@);
            i += 1;
        }
        assert(texts(list@) =~= utterances(text@, comma));
    } else {
        list.push(String::from_str(text));
        assert(texts(list@) =~= utterances(text@, comma));
    }
    list
}

/// What the speech engine is asked to do with `text`: nothing where the
/// voice is not known; a pause where the text holds the pause mark; else to
/// speak the text, whole or split at its commas.
pub fn plan_speech(text: &str, voice_tag: &str, comma: bool) -> (plan: SpeechPlan)
    ensures
        is_plan_for(plan, text@, voice_tag@, comma),
{
    match voice(voice_tag) {
        None => SpeechPlan::Nothing,
        Some(name) => {
            if holds_text(text, "!Pause") {
                SpeechPlan::Pause
            } else {
                SpeechPlan::Speak {
                    voice_name: String::from_str(name),
                    utterances: utterance_list(text, comma),
                }
            }
        },
    }
}

/// The line that counts the seconds down before a message: `second.` for
/// the last second, `seconds.` before it.
pub open spec fn countdown_text(seconds: nat) -> Seq<char> {
    "\rBe ready in "@ + decimal(seconds) + (if seconds == 1 {
        " second..."@
    } else {
        " seconds..."@
    }) + "  \r"@
}

/// The line that counts the seconds down before a message.
pub fn countdown_line(seconds: u32) -> (line: String)
    ensures
        line@ == countdown_text(seconds as nat),
{
    let mut line = String::from_str("\rBe ready in ");
    push_decimal(&mut line, seconds);
    if seconds == 1 {
        line.append(" second...");
    } else {
        line.append(" seconds...");
    }
    line.append("  \r");
    line
}

} // verus!
