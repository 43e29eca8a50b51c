//! Operations on text: trimming, collapsing doubled spaces, joining.
//!
//! Text is modelled as a sequence of characters. The executable functions
//! read a string once into a vector of characters, work on the vector and
//! write the result back.

use vstd::prelude::*;

verus! {

/// `String::push` of the standard library: the character is appended at the
/// end of the string and nothing else changes.
pub assume_specification[ String::push ](text: &mut String, c: char)
    ensures
        final(text)@ == old(text)@.push(c),
;

/// Whether `c` is white space in the sense of Unicode's `White_Space`
/// property.
pub open spec fn is_whitespace(c: char) -> bool {
    let code = c as u32;
    ||| 0x09 <= code <= 0x0D
    ||| code == 0x20
    ||| code == 0x85
    ||| code == 0xA0
    ||| code == 0x1680
    ||| 0x2000 <= code <= 0x200A
    ||| code == 0x2028
    ||| code == 0x2029
    ||| code == 0x202F
    ||| code == 0x205F
    ||| code == 0x3000
}

/// `text` without the white space at its end.
pub open spec fn trim_end(text: Seq<char>) -> Seq<char>
    decreases text.len(),
{
    if text.len() > 0 && is_whitespace(text.last()) {
        trim_end(text.drop_last())
    } else {
        text
    }
}

/// `text` without the white space at its start.
pub open spec fn trim_start(text: Seq<char>) -> Seq<char>
    decreases text.len(),
{
    if text.len() > 0 && is_whitespace(text[0]) {
        trim_start(text.skip(1))
    } else {
        text
    }
}

/// `text` without the white space at either end.
pub open spec fn trim(text: Seq<char>) -> Seq<char> {
    trim_end(trim_start(text))
}

/// `text` without the run of `c` at its end.
pub open spec fn strip_trailing(text: Seq<char>, c: char) -> Seq<char>
    decreases text.len(),
{
    if text.len() > 0 && text.last() == c {
        strip_trailing(text.drop_last(), c)
    } else {
        text
    }
}

/// `text` with every pair of spaces replaced by one space, the pairs taken
/// from left to right without overlap.
pub open spec fn collapse_double_spaces(text: Seq<char>) -> Seq<char>
    decreases text.len(),
{
    if text.len() < 2 {
        text
    } else if text[0] == ' ' && text[1] == ' ' {
        seq![' '] + collapse_double_spaces(text.skip(2))
    } else {
        seq![text[0]] + collapse_double_spaces(text.skip(1))
    }
}

/// `text` without any occurrence of `c`.
pub open spec fn without(text: Seq<char>, c: char) -> Seq<char>
    decreases text.len(),
{
    if text.len() == 0 {
        text
    } else if text.last() == c {
        without(text.drop_last(), c)
    } else {
        without(text.drop_last(), c).push(text.last())
    }
}

/// Whether two spaces stand side by side somewhere in `text`.
pub open spec fn has_double_space(text: Seq<char>) -> bool
    decreases text.len(),
{
    if text.len() < 2 {
        false
    } else {
        (text[text.len() - 2] == ' ' && text.last() == ' ') || has_double_space(text.drop_last())
    }
}

/// Whether two spaces stand side by side at the places `at` and `at + 1`.
pub open spec fn double_space_at(text: Seq<char>, at: int) -> bool {
    0 <= at && at + 1 < text.len() && text[at] == ' ' && text[at + 1] == ' '
}

/// A text has a doubled space just when there is a place where two spaces
/// stand side by side.
pub proof fn lemma_double_space_places(text: Seq<char>)
    ensures
        has_double_space(text) <==> exists|at: int| double_space_at(text, at),
    decreases text.len(),
{
    if text.len() >= 2 {
        let before = text.drop_last();
        lemma_double_space_places(before);
        if has_double_space(text) {
            if text[text.len() - 2] == ' ' && text.last() == ' ' {
                assert(double_space_at(text, text.len() - 2));
            } else {
                let at = choose|at: int| double_space_at(before, at);
                assert(double_space_at(text, at));
            }
        }
        if exists|at: int| double_space_at(text, at) {
            let at = choose|at: int| double_space_at(text, at);
            if at + 2 < text.len() {
                assert(double_space_at(before, at));
            }
        }
    } else {
        assert(forall|at: int| !double_space_at(text, at));
    }
}

/// Two texts put together have a doubled space just when one of them has
/// one, or the first ends in a space and the second begins with one.
pub proof fn lemma_double_space_concat(a: Seq<char>, b: Seq<char>)
    ensures
        has_double_space(a + b) <==> (has_double_space(a) || has_double_space(b) || (a.len() > 0
            && b.len() > 0 && a.last() == ' ' && b[0] == ' ')),
{
    let whole = a + b;
    lemma_double_space_places(a);
    lemma_double_space_places(b);
    lemma_double_space_places(whole);
    if has_double_space(a) {
        let at = choose|at: int| double_space_at(a, at);
        assert(double_space_at(whole, at));
    }
    if has_double_space(b) {
        let at = choose|at: int| double_space_at(b, at);
        assert(double_space_at(whole, a.len() + at));
    }
    if a.len() > 0 && b.len() > 0 && a.last() == ' ' && b[0] == ' ' {
        assert(double_space_at(whole, a.len() - 1));
    }
    if has_double_space(whole) {
        let at = choose|at: int| double_space_at(whole, at);
        if at + 1 < a.len() {
            assert(double_space_at(a, at));
        } else if at >= a.len() {
            assert(double_space_at(b, at - a.len()));
        }
    }
}

/// A text without a doubled space has none in any part of it.
pub proof fn lemma_double_space_within(text: Seq<char>, from: int, to: int)
    requires
        0 <= from <= to <= text.len(),
        !has_double_space(text),
    ensures
        !has_double_space(text.subrange(from, to)),
{
    let part = text.subrange(from, to);
    lemma_double_space_places(text);
    lemma_double_space_places(part);
    if has_double_space(part) {
        let at = choose|at: int| double_space_at(part, at);
        assert(double_space_at(text, from + at));
    }
}

/// Collapsing doubled spaces changes nothing where there is none.
pub proof fn lemma_collapse_keeps(text: Seq<char>)
    requires
        !has_double_space(text),
    ensures
        collapse_double_spaces(text) == text,
    decreases text.len(),
{
    if text.len() >= 2 {
        lemma_double_space_places(text);
        assert(!double_space_at(text, 0));
        lemma_double_space_within(text, 1, text.len() as int);
        assert(text.skip(1) == text.subrange(1, text.len() as int));
        lemma_collapse_keeps(text.skip(1));
        assert(seq![text[0]] + text.skip(1) =~= text);
    }
}

/// What is left after the white space at the end is taken away is the start
/// of the text, and it does not end in white space.
pub proof fn lemma_trim_end(text: Seq<char>)
    ensures
        trim_end(text).len() <= text.len(),
        trim_end(text) == text.take(trim_end(text).len() as int),
        trim_end(text).len() > 0 ==> !is_whitespace(trim_end(text).last()),
    decreases text.len(),
{
    if text.len() > 0 && is_whitespace(text.last()) {
        lemma_trim_end(text.drop_last());
        assert(text.drop_last().take(trim_end(text).len() as int) =~= text.take(
            trim_end(text).len() as int,
        ));
    } else {
        assert(text.take(text.len() as int) =~= text);
    }
}

/// What is left after the white space at the start is taken away is the end
/// of the text, and it does not begin with white space.
pub proof fn lemma_trim_start(text: Seq<char>)
    ensures
        trim_start(text).len() <= text.len(),
        trim_start(text) == text.skip(text.len() - trim_start(text).len()),
        trim_start(text).len() > 0 ==> !is_whitespace(trim_start(text)[0]),
    decreases text.len(),
{
    if text.len() > 0 && is_whitespace(text[0]) {
        lemma_trim_start(text.skip(1));
        assert(text.skip(1).skip(text.skip(1).len() - trim_start(text).len()) =~= text.skip(
            text.len() - trim_start(text).len(),
        ));
    } else {
        assert(text.skip(0) =~= text);
    }
}

/// What is left after a run at the end is taken away is the start of the
/// text, and it does not end in the character of the run.
pub proof fn lemma_strip_trailing(text: Seq<char>, c: char)
    ensures
        strip_trailing(text, c).len() <= text.len(),
        strip_trailing(text, c) == text.take(strip_trailing(text, c).len() as int),
        strip_trailing(text, c).len() > 0 ==> strip_trailing(text, c).last() != c,
    decreases text.len(),
{
    if text.len() > 0 && text.last() == c {
        lemma_strip_trailing(text.drop_last(), c);
        assert(text.drop_last().take(strip_trailing(text, c).len() as int) =~= text.take(
            strip_trailing(text, c).len() as int,
        ));
    } else {
        assert(text.take(text.len() as int) =~= text);
    }
}

/// A trimmed text neither begins nor ends with white space, and it is a part
/// of the text that was trimmed.
pub proof fn lemma_trim(text: Seq<char>)
    ensures
        trim(text).len() > 0 ==> !is_whitespace(trim(text)[0]) && !is_whitespace(
            trim(text).last(),
        ),
        exists|from: int, to: int|
            0 <= from <= to <= text.len() && trim(text) == #[trigger] text.subrange(from, to),
{
    let inner = trim_start(text);
    lemma_trim_start(text);
    lemma_trim_end(inner);
    let from = text.len() - inner.len();
    let to = from + trim(text).len();
    assert(trim(text) =~= text.subrange(from, to));
    if trim(text).len() > 0 {
        assert(trim(text)[0] == inner[0]);
    }
}

/// A joined text begins with its first part and ends with its last.
pub proof fn lemma_joined_ends(parts: Seq<Seq<char>>, separator: Seq<char>)
    requires
        parts.len() >= 1,
    ensures
        joined(parts, separator).len() >= parts[0].len(),
        joined(parts, separator).take(parts[0].len() as int) == parts[0],
        joined(parts, separator).len() >= parts.last().len(),
        joined(parts, separator).skip(joined(parts, separator).len() - parts.last().len())
            == parts.last(),
    decreases parts.len(),
{
    let whole = joined(parts, separator);
    if parts.len() == 1 {
        assert(whole.take(parts[0].len() as int) =~= parts[0]);
        assert(whole.skip(0) =~= parts[0]);
    } else {
        lemma_joined_ends(parts.drop_last(), separator);
        let before = joined(parts.drop_last(), separator);
        assert(parts.drop_last()[0] == parts[0]);
        assert(whole.take(parts[0].len() as int) =~= before.take(parts[0].len() as int));
        assert(whole.skip(whole.len() - parts.last().len()) =~= parts.last());
    }
}

/// The parts in order, with `separator` between each two neighbours.
pub open spec fn joined(parts: Seq<Seq<char>>, separator: Seq<char>) -> Seq<char>
    decreases parts.len(),
{
    if parts.len() == 0 {
        Seq::empty()
    } else if parts.len() == 1 {
        parts[0]
    } else {
        joined(parts.drop_last(), separator) + separator + parts.last()
    }
}

/// Joining one part more puts the separator before it, unless it is the
/// first.
pub proof fn lemma_joined_push(parts: Seq<Seq<char>>, part: Seq<char>, separator: Seq<char>)
    ensures
        joined(parts.push(part), separator) == if parts.len() == 0 {
            part
        } else {
            joined(parts, separator) + separator + part
        },
{
    assert(parts.push(part).drop_last() =~= parts);
}

/// The texts of a sequence of strings.
pub open spec fn texts(strings: Seq<String>) -> Seq<Seq<char>> {
    Seq::new(strings.len(), |i: int| strings[i]@)
}

/// The parts in order, with `separator` between each two neighbours.
pub fn join(parts: &Vec<String>, separator: &str) -> (out: String)
    ensures
        out@ == joined(texts(parts@), separator@),
{
    let mut out = String::new();
    let mut i: usize = 0;
    assert(texts(parts@).take(0) =~= Seq::<Seq<char>>::empty());
    while i < parts.len()
        invariant
            i <= parts.len(),
            out@ == joined(texts(parts@).take(i as int), separator@),
        decreases parts.len() - i,
    {
        if i > 0 {
            out.append(separator);
        }
        out.append(parts[i].as_str());
        proof {
            let all = texts(parts@);
            assert(all.take(i + 1) =~= all.take(i as int).push(all[i as int]));
            lemma_joined_push(all.take(i as int), all[i as int], separator@);
            assert(out@ =~= joined(all.take(i + 1), separator@));
        }
        i += 1;
    }
    assert(texts(parts@).take(i as int) =~= texts(parts@));
    out
}

/// Whether `c` occurs in `chars`.
pub fn holds(chars: &Vec<char>, c: char) -> (found: bool)
    ensures
        found == chars@.contains(c),
{
    let mut i: usize = 0;
    while i < chars.len()
        invariant
            i <= chars.len(),
            forall|k: int| 0 <= k < i ==> chars@[k] != c,
        decreases chars.len() - i,
    {
        if chars[i] == c {
            return true;
        }
        i += 1;
    }
    false
}

/// Whether `c` is white space.
pub fn char_is_whitespace(c: char) -> (b: bool)
    ensures
        b == is_whitespace(c),
{
    let code = c as u32;
    (0x09 <= code && code <= 0x0D) || code == 0x20 || code == 0x85 || code == 0xA0 || code
        == 0x1680 || (0x2000 <= code && code <= 0x200A) || code == 0x2028 || code == 0x2029 || code
        == 0x202F || code == 0x205F || code == 0x3000
}

/// The characters of `text`, in order.
pub fn chars_of(text: &str) -> (chars: Vec<char>)
    ensures
        chars@ == text@,
{
    broadcast use vstd::string::axiom_spec_iter;

    let mut chars: Vec<char> = Vec::new();
    let source = text.chars();
    for c in it: source
        invariant
            it.seq() == text@,
            chars@ == text@.take(it.index()),
    {
        chars.push(c);
    }
    chars
}

/// Appends the characters of `text` to `chars`.
pub fn push_text(chars: &mut Vec<char>, text: &str)
    ensures
        final(chars)@ == old(chars)@ + text@,
{
    broadcast use vstd::string::axiom_spec_iter;

    let source = text.chars();
    assert(chars@ =~= old(chars)@ + text@.take(0));
    for c in it: source
        invariant
            it.seq() == text@,
            chars@ == old(chars)@ + text@.take(it.index()),
    {
        chars.push(c);
        assert(chars@ =~= old(chars)@ + text@.take(it.index() + 1));
    }
    assert(text@.take(text@.len() as int) =~= text@);
}

/// Appends the characters `chars[from..to]` to `out`.
pub fn push_chars(out: &mut String, chars: &Vec<char>, from: usize, to: usize)
    requires
        from <= to <= chars.len(),
    ensures
        final(out)@ == old(out)@ + chars@.subrange(from as int, to as int),
{
    let mut i: usize = from;
    while i < to
        invariant
            from <= i <= to <= chars.len(),
            out@ == old(out)@ + chars@.subrange(from as int, i as int),
        decreases to - i,
    {
        out.push(chars[i]);
        i += 1;
    }
}

/// The string that holds the characters `chars`.
pub fn text_of(chars: &Vec<char>) -> (text: String)
    ensures
        text@ == chars@,
{
    let mut text = String::new();
    push_chars(&mut text, chars, 0, chars.len());
    text
}

/// Whether two strings hold the same characters.
pub fn same_text(a: &str, b: &str) -> (same: bool)
    ensures
        same == (a@ == b@),
{
    let left = chars_of(a);
    let right = chars_of(b);
    if left.len() != right.len() {
        return false;
    }
    let mut i: usize = 0;
    while i < left.len()
        invariant
            left@ == a@,
            right@ == b@,
            left.len() == right.len(),
            i <= left.len(),
            a@.take(i as int) == b@.take(i as int),
        decreases left.len() - i,
    {
        if left[i] != right[i] {
            return false;
        }
        assert(a@.take(i + 1) =~= a@.take(i as int).push(a@[i as int]));
        assert(b@.take(i + 1) =~= b@.take(i as int).push(b@[i as int]));
        i += 1;
    }
    assert(a@ =~= a@.take(i as int));
    assert(b@ =~= b@.take(i as int));
    true
}

/// Removes the white space at the end of `chars`.
pub fn trim_end_in_place(chars: &mut Vec<char>)
    ensures
        final(chars)@ == trim_end(old(chars)@),
{
    while chars.len() > 0 && char_is_whitespace(chars[chars.len() - 1])
        invariant
            trim_end(chars@) == trim_end(old(chars)@),
        decreases chars.len(),
    {
        chars.pop();
    }
}

/// `text` without the white space at either end.
pub fn trimmed(text: &str) -> (out: String)
    ensures
        out@ == trim(text@),
{
    let chars = chars_of(text);
    let mut start: usize = 0;
    assert(chars@.skip(0) =~= chars@);
    while start < chars.len() && char_is_whitespace(chars[start])
        invariant
            start <= chars.len(),
            trim_start(chars@.skip(start as int)) == trim_start(chars@),
        decreases chars.len() - start,
    {
        assert(chars@.skip(start as int).skip(1) =~= chars@.skip(start + 1));
        start += 1;
    }
    let mut end: usize = chars.len();
    assert(chars@.subrange(start as int, end as int) =~= chars@.skip(start as int));
    while end > start && char_is_whitespace(chars[end - 1])
        invariant
            start <= end <= chars.len(),
            trim_end(chars@.subrange(start as int, end as int)) == trim_end(
                chars@.skip(start as int),
            ),
        decreases end - start,
    {
        assert(chars@.subrange(start as int, end as int).drop_last() =~= chars@.subrange(
            start as int,
            end - 1,
        ));
        end -= 1;
    }
    let mut out = String::new();
    push_chars(&mut out, &chars, start, end);
    out
}

/// `text` without the run of `c` at its end.
pub fn stripped_trailing(text: &str, c: char) -> (out: String)
    ensures
        out@ == strip_trailing(text@, c),
{
    let chars = chars_of(text);
    let mut end: usize = chars.len();
    assert(chars@.take(end as int) =~= chars@);
    while end > 0 && chars[end - 1] == c
        invariant
            end <= chars.len(),
            strip_trailing(chars@.take(end as int), c) == strip_trailing(chars@, c),
        decreases end,
    {
        assert(chars@.take(end as int).drop_last() =~= chars@.take(end - 1));
        end -= 1;
    }
    let mut out = String::new();
    push_chars(&mut out, &chars, 0, end);
    assert(chars@.subrange(0, end as int) =~= chars@.take(end as int));
    out
}

/// `text` with every pair of spaces replaced by one space, the pairs taken
/// from left to right without overlap.
pub fn collapsed(text: &str) -> (out: String)
    ensures
        out@ == collapse_double_spaces(text@),
{
    let chars = chars_of(text);
    let mut out = String::new();
    let mut i: usize = 0;
    assert(chars@.skip(0) =~= chars@);
    while i < chars.len()
        invariant
            i <= chars.len(),
            out@ + collapse_double_spaces(chars@.skip(i as int)) == collapse_double_spaces(chars@),
        decreases chars.len() - i,
    {
        let ghost rest = chars@.skip(i as int);
        let ghost before = out@;
        if chars[i] == ' ' && i + 1 < chars.len() && chars[i + 1] == ' ' {
            out.push(' ');
            proof {
                assert(rest.skip(2) =~= chars@.skip(i + 2));
                assert(out@ + collapse_double_spaces(rest.skip(2)) =~= before + (seq![' ']
                    + collapse_double_spaces(rest.skip(2))));
            }
            i += 2;
        } else {
            out.push(chars[i]);
            proof {
                assert(rest.skip(1) =~= chars@.skip(i + 1));
                if rest.len() < 2 {
                    assert(rest.skip(1) =~= Seq::<char>::empty());
                    assert(collapse_double_spaces(rest) =~= seq![rest[0]]);
                }
                assert(out@ + collapse_double_spaces(rest.skip(1)) =~= before + (seq![rest[0]]
                    + collapse_double_spaces(rest.skip(1))));
            }
            i += 1;
        }
    }
    assert(chars@.skip(i as int) =~= Seq::<char>::empty());
    out
}

/// `text` without any occurrence of `c`.
pub fn removed(text: &str, c: char) -> (out: String)
    ensures
        out@ == without(text@, c),
{
    let chars = chars_of(text);
    let mut out = String::new();
    let mut i: usize = 0;
    while i < chars.len()
        invariant
            i <= chars.len(),
            out@ == without(chars@.take(i as int), c),
        decreases chars.len() - i,
    {
        assert(chars@.take(i + 1).drop_last() =~= chars@.take(i as int));
        if chars[i] != c {
            out.push(chars[i]);
        }
        i += 1;
    }
    assert(chars@.take(i as int) =~= chars@);
    out
}

} // verus!
