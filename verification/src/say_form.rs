//! The form of a message that is handed to the speech engine, and the form
//! that is printed.
//!
//! A composed message is read once from left to right. The keys of the
//! alphabet are spelled out, each spelling followed by one space. The mark
//! `!` is dropped and keeps what follows it from being spelled out, up to the
//! next space or comma.

use crate::alphabet::{is_key, lemma_spelling_is_word, spell, spelling};
use crate::free_text::spelled;
use crate::text::{
    chars_of, collapse_double_spaces, collapsed, double_space_at, has_double_space,
    lemma_collapse_keeps, lemma_double_space_concat, lemma_double_space_places,
    lemma_double_space_within, lemma_trim_end, push_text, removed, text_of, trim_end,
    trim_end_in_place, without,
};
use vstd::prelude::*;

verus! {

/// The mark that keeps the characters after it from being spelled out.
pub const SUPPRESS: char = '!';

/// Whether `c` ends a word: a space or a comma.
pub open spec fn is_boundary(c: char) -> bool {
    c == ' ' || c == ','
}

/// One step of the reading: what has been written so far and whether
/// spelling is suppressed, before and after the character `c`.
pub open spec fn say_step(written: Seq<char>, skip: bool, c: char) -> (Seq<char>, bool) {
    if c == SUPPRESS {
        (written, true)
    } else if is_boundary(c) {
        (trim_end(written).push(c), false)
    } else if is_key(c) && !skip {
        (written + spelled(c), skip)
    } else {
        (written.push(c), skip)
    }
}

/// The reading of a whole message: what is written at its end, and whether
/// spelling is suppressed there.
pub open spec fn say_pass(message: Seq<char>) -> (Seq<char>, bool)
    decreases message.len(),
{
    if message.len() == 0 {
        (Seq::empty(), false)
    } else {
        let before = say_pass(message.drop_last());
        say_step(before.0, before.1, message.last())
    }
}

/// The form of `message` that is spoken: what the reading writes, doubled
/// spaces collapsed.
pub open spec fn say_form(message: Seq<char>) -> Seq<char> {
    collapse_double_spaces(say_pass(message).0)
}

/// The form of `message` that is printed: the message without its marks.
pub open spec fn printed_form(message: Seq<char>) -> Seq<char> {
    without(message, SUPPRESS)
}

/// Whether the mark occurs nowhere in `text`.
pub open spec fn is_unmarked(text: Seq<char>) -> bool {
    forall|i: int| 0 <= i < text.len() ==> #[trigger] text[i] != SUPPRESS
}

/// A spelling is a word of lower-case letters and one space after it.
pub proof fn lemma_spelled(c: char)
    requires
        is_key(c),
    ensures
        spelled(c) == spelling(c)->0.push(' '),
        spelled(c).len() >= 4,
        spelled(c).last() == ' ',
        forall|i: int| 0 <= i < spelled(c).len() - 1 ==> 'a' <= #[trigger] spelled(c)[i] <= 'z',
        is_unmarked(spelled(c)),
        !has_double_space(spelled(c)),
{
    reveal_strlit(" ");
    lemma_spelling_is_word(c);
    let word = spelling(c)->0;
    assert(spelled(c) =~= word.push(' '));
    lemma_double_space_places(spelled(c));
    assert forall|at: int| !double_space_at(spelled(c), at) by {
        if 0 <= at && at + 1 < spelled(c).len() {
            assert('a' <= word[at] <= 'z');
        }
    }
}

/// A step of the reading writes no mark and no doubled space.
proof fn lemma_step_is_clean(written: Seq<char>, skip: bool, c: char)
    requires
        is_unmarked(written),
        !has_double_space(written),
    ensures
        is_unmarked(say_step(written, skip, c).0),
        !has_double_space(say_step(written, skip, c).0),
{
    let after = say_step(written, skip, c).0;
    if c == SUPPRESS {
    } else if is_boundary(c) {
        let kept = trim_end(written);
        lemma_trim_end(written);
        lemma_double_space_within(written, 0, kept.len() as int);
        assert(kept =~= written.subrange(0, kept.len() as int));
        assert(after =~= kept + seq![c]);
        lemma_double_space_concat(kept, seq![c]);
    } else if is_key(c) && !skip {
        lemma_spelled(c);
        lemma_double_space_concat(written, spelled(c));
    } else {
        assert(after =~= written + seq![c]);
        lemma_double_space_concat(written, seq![c]);
    }
}

/// The reading writes no mark and no doubled space, whatever the message.
pub proof fn lemma_reading_is_clean(message: Seq<char>)
    ensures
        is_unmarked(say_pass(message).0),
        !has_double_space(say_pass(message).0),
    decreases message.len(),
{
    if message.len() > 0 {
        lemma_reading_is_clean(message.drop_last());
        let before = say_pass(message.drop_last());
        lemma_step_is_clean(before.0, before.1, message.last());
    }
}

/// The spoken form is what the reading writes: there is no doubled space
/// left to collapse. So the spoken form of any message holds no mark and no
/// doubled space.
pub proof fn lemma_say_form_is_clean(message: Seq<char>)
    ensures
        say_form(message) == say_pass(message).0,
        is_unmarked(say_form(message)),
        !has_double_space(say_form(message)),
{
    lemma_reading_is_clean(message);
    lemma_collapse_keeps(say_pass(message).0);
}

/// In a message without a mark, spelling is never suppressed.
pub proof fn lemma_unmarked_never_skips(message: Seq<char>)
    requires
        is_unmarked(message),
    ensures
        !say_pass(message).1,
    decreases message.len(),
{
    if message.len() > 0 {
        assert(message.last() == message[message.len() - 1]);
        assert forall|i: int| 0 <= i < message.drop_last().len() implies #[trigger] message.drop_last()[i]
            != SUPPRESS by {
            assert(message.drop_last()[i] == message[i]);
        }
        lemma_unmarked_never_skips(message.drop_last());
    }
}

/// In a message without a mark, every key of the alphabet is replaced by
/// its spelling and one space: the spoken form of the message with the key
/// `c` at its end is the spoken form of the message, then the word for `c`,
/// then a space.
pub proof fn lemma_key_is_spelled(message: Seq<char>, c: char)
    requires
        is_unmarked(message),
        is_key(c),
    ensures
        say_form(message.push(c)) == say_form(message) + spelling(c)->0 + seq![' '],
{
    lemma_unmarked_never_skips(message);
    lemma_say_form_is_clean(message);
    lemma_say_form_is_clean(message.push(c));
    lemma_spelled(c);
    assert(message.push(c).drop_last() =~= message);
    assert(say_pass(message.push(c)).0 =~= say_pass(message).0 + spelling(c)->0 + seq![' ']);
}

/// Whether `run` holds no mark, no space and no comma.
pub open spec fn is_run(run: Seq<char>) -> bool {
    forall|i: int| 0 <= i < run.len() ==> #[trigger] run[i] != SUPPRESS && !is_boundary(run[i])
}

/// What stands behind a mark is kept as it is, up to the next space or
/// comma: the mark itself is dropped, and no character of the run is spelled
/// out, be it a key of the alphabet or not.
pub proof fn lemma_marked_run_is_kept(message: Seq<char>, run: Seq<char>)
    requires
        is_run(run),
    ensures
        say_pass(message.push(SUPPRESS) + run) == (say_pass(message).0 + run, true),
        say_form(message.push(SUPPRESS) + run) == say_form(message) + run,
    decreases run.len(),
{
    let marked = message.push(SUPPRESS);
    if run.len() == 0 {
        assert(marked + run =~= marked);
        assert(marked.drop_last() =~= message);
        assert(say_pass(message).0 + run =~= say_pass(message).0);
    } else {
        let before = run.drop_last();
        assert forall|i: int| 0 <= i < before.len() implies #[trigger] before[i] != SUPPRESS
            && !is_boundary(before[i]) by {
            assert(before[i] == run[i]);
        }
        lemma_marked_run_is_kept(message, before);
        assert((marked + run).drop_last() =~= marked + before);
        assert((marked + run).last() == run[run.len() - 1]);
        assert((say_pass(message).0 + before).push(run.last()) =~= say_pass(message).0 + run);
    }
    lemma_say_form_is_clean(message);
    lemma_say_form_is_clean(marked + run);
}

/// Whether no key of the alphabet occurs in `text`.
pub open spec fn is_spelled_out(text: Seq<char>) -> bool {
    forall|i: int| 0 <= i < text.len() ==> !is_key(#[trigger] text[i])
}

/// What the reading of a message without a mark writes holds no key of the
/// alphabet.
proof fn lemma_unmarked_reading_is_spelled_out(message: Seq<char>)
    requires
        is_unmarked(message),
    ensures
        is_spelled_out(say_pass(message).0),
        !say_pass(message).1,
    decreases message.len(),
{
    lemma_unmarked_never_skips(message);
    if message.len() > 0 {
        let before = message.drop_last();
        let c = message.last();
        assert(c == message[message.len() - 1]);
        assert forall|i: int| 0 <= i < before.len() implies #[trigger] before[i] != SUPPRESS by {
            assert(before[i] == message[i]);
        }
        lemma_unmarked_reading_is_spelled_out(before);
        let written = say_pass(before).0;
        if is_boundary(c) {
            lemma_trim_end(written);
        } else if is_key(c) {
            lemma_spelled(c);
        }
    }
}

/// In the spoken form of a message without a mark, no key of the alphabet is
/// left: every capital letter, every digit and every point is spelled out.
pub proof fn lemma_unmarked_is_spelled_out(message: Seq<char>)
    requires
        is_unmarked(message),
    ensures
        is_spelled_out(say_form(message)),
{
    lemma_unmarked_reading_is_spelled_out(message);
    lemma_say_form_is_clean(message);
}

/// A character that is no key, no mark, no space and no comma is spoken as
/// it stands.
pub proof fn lemma_other_is_kept(message: Seq<char>, c: char)
    requires
        !is_key(c),
        c != SUPPRESS,
        !is_boundary(c),
    ensures
        say_form(message.push(c)) == say_form(message).push(c),
{
    lemma_say_form_is_clean(message);
    lemma_say_form_is_clean(message.push(c));
    assert(message.push(c).drop_last() =~= message);
}

/// The printed form holds no mark.
pub proof fn lemma_printed_form_is_unmarked(message: Seq<char>)
    ensures
        is_unmarked(printed_form(message)),
    decreases message.len(),
{
    if message.len() > 0 {
        lemma_printed_form_is_unmarked(message.drop_last());
    }
}

/// The form of `message` that is handed to the speech engine.
pub fn prepare_message_for_say(message: &str) -> (spoken: String)
    ensures
        spoken@ == say_form(message@),
{
    let chars = chars_of(message);
    let mut written: Vec<char> = Vec::new();
    let mut skip = false;
    let mut i: usize = 0;
    while i < chars.len()
        invariant
            i <= chars.len(),
            (written@, skip) == say_pass(chars@.take(i as int)),
        decreases chars.len() - i,
    {
        let c = chars[i];
        proof {
            assert(chars@.take(i + 1).drop_last() =~= chars@.take(i as int));
            assert(chars@.take(i + 1).last() == c);
        }
        if c == SUPPRESS {
            skip = true;
        } else if c == ' ' || c == ',' {
            trim_end_in_place(&mut written);
            written.push(c);
            skip = false;
        } else {
            match spell(c) {
                Some(word) if !skip => {
                    let ghost before = written@;
                    push_text(&mut written, word);
                    written.push(' ');
                    proof {
                        reveal_strlit(" ");
                        assert(written@ =~= before + spelled(c));
                    }
                },
                _ => {
                    written.push(c);
                },
            }
        }
        i += 1;
    }
    assert(chars@.take(i as int) =~= chars@);
    let text = text_of(&written);
    collapsed(text.as_str())
}

/// The form of `message` that is printed.
pub fn printable(message: &str) -> (printed: String)
    ensures
        printed@ == printed_form(message@),
{
    removed(message, SUPPRESS)
}

} // verus!
