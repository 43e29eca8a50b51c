//! The mixed message: the call sign, then one segment for each of the nine
//! kinds of field, in an order that chance decides.
//!
//! Each kind has a mark, a single character that stands for it while the
//! order is decided. The marks never reach the message: each gives way to a
//! phrase of its kind. The mark `!` of the pressure setting is the same
//! character that, in a composed message, keeps a number from being spelled
//! out; since every mark is replaced while the message is composed, none is
//! left for the renderer to take for that (`mark_laws` proves it).

use crate::free_text::is_random_message;
use crate::phrases::{
    is_altitude, is_contact, is_flight_level, is_heading, is_qnh, is_runway, is_squawk, is_wind,
};
use crate::text::{join, joined, texts};
use vstd::prelude::*;

verus! {

/// The marks of the nine kinds: flight level, heading, squawk, runway,
/// frequency, pressure setting, altitude, wind and free-form clearance.
pub open spec fn placeholders() -> Seq<char> {
    seq!['*', '^', '&', '=', '@', '!', '$', '-', '+']
}

/// The marks of the nine kinds, in the order of the table.
pub fn placeholder_marks() -> (marks: Vec<char>)
    ensures
        marks@ == placeholders(),
{
    let mut marks: Vec<char> = Vec::new();
    marks.push('*');
    marks.push('^');
    marks.push('&');
    marks.push('=');
    marks.push('@');
    marks.push('!');
    marks.push('$');
    marks.push('-');
    marks.push('+');
    assert(marks@ =~= placeholders());
    marks
}

/// Whether `segment` is a phrase of the kind that `mark` stands for. A
/// character that is no mark stands for itself.
pub open spec fn is_segment_for(mark: char, segment: Seq<char>) -> bool {
    if mark == '=' {
        is_runway(segment)
    } else if mark == '*' {
        is_flight_level(segment)
    } else if mark == '!' {
        is_qnh(segment, true)
    } else if mark == '$' {
        is_altitude(segment)
    } else if mark == '@' {
        is_contact(segment)
    } else if mark == '^' {
        is_heading(segment)
    } else if mark == '&' {
        is_squawk(segment)
    } else if mark == '-' {
        is_wind(segment)
    } else if mark == '+' {
        is_random_message(segment)
    } else {
        segment == seq![mark]
    }
}

/// Whether `order` holds each of the nine marks once and nothing else.
pub open spec fn is_arrangement(order: Seq<char>) -> bool {
    order.to_multiset() == placeholders().to_multiset()
}

/// The call sign, a comma and a space, and the segments with a comma and a
/// space between them.
pub open spec fn any_text(call_sign: Seq<char>, segments: Seq<Seq<char>>) -> Seq<char> {
    call_sign + ", "@ + joined(segments, ", "@)
}

/// The mixed messages for a call sign: the marks in some order, and for each
/// a segment of its kind.
pub open spec fn is_any_message(message: Seq<char>, call_sign: Seq<char>) -> bool {
    exists|order: Seq<char>, segments: Seq<Seq<char>>|
        #![trigger is_arrangement(order), any_text(call_sign, segments)]
        {
            &&& is_arrangement(order)
            &&& segments.len() == order.len()
            &&& forall|i: int|
                0 <= i < order.len() ==> is_segment_for(order[i], #[trigger] segments[i])
            &&& message == any_text(call_sign, segments)
        }
}

/// An arrangement has nine places, holds no mark twice and holds every
/// mark: each kind is there exactly once.
pub proof fn lemma_arrangement(order: Seq<char>)
    requires
        is_arrangement(order),
    ensures
        order.len() == 9,
        order.no_duplicates(),
        forall|mark: char| placeholders().contains(mark) <==> order.contains(mark),
        forall|mark: char| placeholders().contains(mark) ==> order.to_multiset().count(mark) == 1,
{
    broadcast use vstd::seq_lib::group_to_multiset_ensures;

    let marks = placeholders();
    assert(marks.no_duplicates());
    marks.lemma_multiset_has_no_duplicates();
    order.lemma_multiset_has_no_duplicates_conv();
    assert(order.len() == order.to_multiset().len());
    assert(marks.len() == marks.to_multiset().len());
    assert forall|mark: char| marks.contains(mark) <==> order.contains(mark) by {
        assert(marks.contains(mark) <==> marks.to_multiset().count(mark) > 0);
        assert(order.contains(mark) <==> order.to_multiset().count(mark) > 0);
    }
}

/// A mixed message begins with the call sign, a comma and a space; nine
/// segments follow, one of each kind.
pub proof fn lemma_any_message(message: Seq<char>, call_sign: Seq<char>)
    requires
        is_any_message(message, call_sign),
    ensures
        message.len() >= call_sign.len() + 2,
        message.take(call_sign.len() as int) == call_sign,
        message.subrange(call_sign.len() as int, call_sign.len() as int + 2) == ", "@,
        exists|order: Seq<char>, segments: Seq<Seq<char>>|
            #![trigger is_arrangement(order), any_text(call_sign, segments)]
            {
                &&& is_arrangement(order)
                &&& order.len() == 9
                &&& segments.len() == 9
                &&& order.no_duplicates()
                &&& forall|mark: char| placeholders().contains(mark) ==> order.contains(mark)
                &&& forall|i: int|
                    0 <= i < 9 ==> is_segment_for(order[i], #[trigger] segments[i])
                &&& message == any_text(call_sign, segments)
            },
{
    reveal_strlit(", ");
    let (order, segments) = choose|order: Seq<char>, segments: Seq<Seq<char>>|
        #![trigger is_arrangement(order), any_text(call_sign, segments)]
        {
            &&& is_arrangement(order)
            &&& segments.len() == order.len()
            &&& forall|i: int|
                0 <= i < order.len() ==> is_segment_for(order[i], #[trigger] segments[i])
            &&& message == any_text(call_sign, segments)
        };
    lemma_arrangement(order);
    assert(message.take(call_sign.len() as int) =~= call_sign);
    assert(message.subrange(call_sign.len() as int, call_sign.len() as int + 2) =~= ", "@);
    assert(is_arrangement(order) && message == any_text(call_sign, segments));
}

/// The message of the given call sign and segments.
pub fn compose_any(call_sign: &str, segments: &Vec<String>) -> (message: String)
    ensures
        message@ == any_text(call_sign@, texts(segments@)),
{
    let mut message = String::from_str(call_sign);
    message.append(", ");
    let rest = join(segments, ", ");
    message.append(rest.as_str());
    message
}

} // verus!
