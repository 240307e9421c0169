//! What holds of the gateway as a whole, stated over the functions' own
//! specifications.

use vstd::prelude::*;
use crate::dispatch::{
    followup_of, notice_of, reply_of, CommandView, EffectView, FollowupView, Gateway,
};
use crate::key::{is_suffix, key_prefix, matches_names};
use crate::protocol::{
    action_of, completed, decoded, encoded, escaped, escaped_text, json_string, read_inside,
    read_member, status_name, unit_char, unit_len, Action, RequestView, ResponseView,
};
use crate::schema::{
    joined, message_of, messages_of, schema_for, validation, verdict, SchemaRegistry,
};

verus! {

/// A key matches a producer and an object exactly when it is the text
/// `cs:<producer>:<object>` followed by a suffix of the grammar: no character
/// before it, none after it.
pub proof fn matching_is_exact(key: Seq<char>, producer: Seq<char>, object: Seq<char>)
    ensures
        matches_names(key, producer, object) <==> exists|tail: Seq<char>|
            #[trigger] is_suffix(tail) && key == key_prefix(producer, object) + tail,
{
    let pre = key_prefix(producer, object);
    let n = pre.len() as int;
    if matches_names(key, producer, object) {
        assert(key =~= pre + key.skip(n));
    }
    if exists|tail: Seq<char>| is_suffix(tail) && key == pre + tail {
        let tail = choose|tail: Seq<char>| is_suffix(tail) && key == pre + tail;
        assert(key.take(n) =~= pre);
        assert(key.skip(n) =~= tail);
    }
}

/// A key for whose base key no schema is registered passes validation,
/// whatever the value is.
pub proof fn unregistered_key_passes(registry: SchemaRegistry, key: Seq<char>, value: Seq<char>)
    requires
        schema_for(registry@, key) is None,
    ensures
        validation(registry@, key, value) is Ok,
{
}

/// A checked value fails exactly when the validator found a violation.
pub proof fn fails_iff_violated(found: Seq<(Seq<char>, Seq<char>)>)
    ensures
        verdict(Ok(found)) is Err <==> found.len() > 0,
        verdict(Ok(found)) matches Err(message) ==> message == joined(messages_of(found)),
{
}

/// The message for a violation holds the place in the value, where there is
/// one, and the validator's text, each whole.
pub proof fn message_holds_place_and_text(violation: (Seq<char>, Seq<char>))
    ensures
        message_of(violation).subrange(0, violation.0.len() as int) == violation.0,
        message_of(violation).subrange(
            message_of(violation).len() - violation.1.len(),
            message_of(violation).len() as int,
        ) == violation.1,
{
    let message = message_of(violation);
    assert(message.subrange(0, violation.0.len() as int) =~= violation.0);
    assert(message.subrange(message.len() - violation.1.len(), message.len() as int)
        =~= violation.1);
}

/// Where the message `i` stands in the joined text.
pub open spec fn message_start(messages: Seq<Seq<char>>, i: int) -> int {
    joined(messages.take(i + 1)).len() - messages[i].len()
}

/// The joined text holds every message, not only the first: each stands in
/// it whole.
pub proof fn joined_holds_every_message(messages: Seq<Seq<char>>, i: int)
    requires
        0 <= i < messages.len(),
    ensures
        0 <= message_start(messages, i),
        message_start(messages, i) + messages[i].len() <= joined(messages).len(),
        joined(messages).subrange(
            message_start(messages, i),
            message_start(messages, i) + messages[i].len(),
        ) == messages[i],
    decreases messages.len(),
{
    let all = joined(messages);
    let front = messages.drop_last();
    if messages.len() == 1 {
        assert(messages.take(1) =~= messages);
        assert(all.subrange(0, all.len() as int) =~= all);
    } else if i == messages.len() - 1 {
        assert(messages.take(i + 1) =~= messages);
        let start = message_start(messages, i);
        assert(all.subrange(start, start + messages[i].len()) =~= messages[i]);
    } else {
        joined_holds_every_message(front, i);
        assert(front.take(i + 1) =~= messages.take(i + 1));
        let start = message_start(messages, i);
        assert(all.subrange(start, start + messages[i].len()) =~= joined(front).subrange(
            start,
            start + messages[i].len(),
        ));
    }
}

/// The error of a failed validation names every violation, not only the
/// first: for each, the place in the value and the validator's text stand in
/// the message, each whole.
pub proof fn failure_names_every_violation(found: Seq<(Seq<char>, Seq<char>)>, i: int)
    requires
        0 <= i < found.len(),
    ensures
        verdict(Ok(found)) matches Err(message) && ({
            let start = message_start(messages_of(found), i);
            let end = start + message_of(found[i]).len();
            &&& 0 <= start && end <= message.len()
            &&& message.subrange(start, start + found[i].0.len()) == found[i].0
            &&& message.subrange(end - found[i].1.len(), end) == found[i].1
        }),
{
    let messages = messages_of(found);
    let message = joined(messages);
    let start = message_start(messages, i);
    let end = start + message_of(found[i]).len();
    joined_holds_every_message(messages, i);
    message_holds_place_and_text(found[i]);
    let own = message.subrange(start, end);
    assert(own == message_of(found[i]));
    assert(message.subrange(start, start + found[i].0.len()) =~= own.subrange(
        0,
        found[i].0.len() as int,
    ));
    assert(message.subrange(end - found[i].1.len(), end) =~= own.subrange(
        own.len() - found[i].1.len(),
        own.len() as int,
    ));
}

/// No request reaches the store unless its key matches the grammar, its
/// payload, where it has one, passes validation, and its verb is known.
pub proof fn only_checked_requests_reach_the_store(gateway: Gateway, request: RequestView)
    requires
        gateway.decision(Some(request)) is Mutate,
    ensures
        gateway.grammar.accepts(request.key),
        request.value matches Some(value) ==> validation(gateway.schemas@, request.key, value) is Ok,
        action_of(request.action) is Some,
{
}

/// The notification is attempted exactly when the store carried out the
/// mutation, and it is then the notice of that mutation.
pub proof fn announced_only_after_success(command: CommandView, answer: Result<(), Seq<char>>)
    ensures
        followup_of(command, answer) is Publish <==> answer is Ok,
        followup_of(command, answer) matches FollowupView::Publish(notice) ==> notice
            == notice_of(command),
{
}

/// A deletion is decided from the request alone, so a repeated deletion of
/// a key leads to the same mutation each time; and once the store answers
/// both calls without error, the reply is a success each time.
pub proof fn deletion_is_decided_alike(gateway: Gateway, key: Seq<char>)
    requires
        gateway.grammar.accepts(key),
    ensures
        gateway.decision(Some(RequestView { action: "del"@, key, value: None }))
            == EffectView::Mutate(CommandView { action: Action::Delete, key, value: None }),
        reply_of(Ok(())) == completed(),
{
    reveal_strlit("del");
    reveal_strlit("set");
    assert("del"@[0] != "set"@[0]);
}

/// The front of a literal's inside stands for the character that was escaped.
pub proof fn escape_is_read_back(c: char, rest: Seq<char>)
    ensures
        unit_len(escaped(c) + rest) == escaped(c).len(),
        unit_char(escaped(c) + rest) == c,
        (escaped(c) + rest)[0] != '"',
{
    let s = escaped(c) + rest;
    let n = c as u32;
    assert(s[0] == escaped(c)[0]);
    if escaped(c).len() > 1 {
        assert(s[1] == escaped(c)[1]);
    }
    if n < 32 && n != 8 && n != 9 && n != 10 && n != 12 && n != 13 {
        assert(s[4] == escaped(c)[4]);
        assert(s[5] == escaped(c)[5]);
        assert(n / 16 == 0 || n / 16 == 1);
    }
}

/// Reading a literal's inside gives back the text that was escaped, and stops
/// at the closing quotation mark.
pub proof fn literal_is_read_back(text: Seq<char>, rest: Seq<char>)
    ensures
        read_inside(escaped_text(text) + seq!['"'] + rest) == Some((text, rest)),
    decreases text.len(),
{
    let s = escaped_text(text) + seq!['"'] + rest;
    if text.len() == 0 {
        assert(s.skip(1) =~= rest);
    } else {
        let after = escaped_text(text.skip(1)) + seq!['"'] + rest;
        assert(s =~= escaped(text[0]) + after);
        escape_is_read_back(text[0], after);
        assert(s.skip(unit_len(s)) =~= after);
        literal_is_read_back(text.skip(1), rest);
        assert(seq![text[0]] + text.skip(1) =~= text);
    }
}

/// Reading a member gives back the text of its literal.
pub proof fn member_is_read_back(opening: Seq<char>, text: Seq<char>, rest: Seq<char>)
    ensures
        read_member(opening + json_string(text) + rest, opening) == Some((text, rest)),
{
    let s = opening + json_string(text) + rest;
    let n = opening.len() + 1;
    assert(s.take(n as int) =~= opening + seq!['"']);
    assert(s.skip(n as int) =~= escaped_text(text) + seq!['"'] + rest);
    literal_is_read_back(text, rest);
}

/// Decoding the wire form of a response gives back its status and its
/// message, unchanged, whatever characters the message holds.
pub proof fn response_round_trip(response: ResponseView)
    ensures
        decoded(encoded(response)) == Some((status_name(response.status), response.message)),
{
    let status = status_name(response.status);
    let rest = ",\"message\":"@ + json_string(response.message) + "}"@;
    assert(encoded(response) =~= "{\"status\":"@ + json_string(status) + rest);
    member_is_read_back("{\"status\":"@, status, rest);
    member_is_read_back(",\"message\":"@, response.message, "}"@);
}

} // verus!
