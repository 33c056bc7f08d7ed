//! What holds of every request that the library builds and of every step of
//! an exchange.

use vstd::prelude::*;
use crate::descriptor::{bearer, initial_headers, with_cors_headers, RequestMode};
use crate::dispatch::{
    delete_exchange, get_exchange, outgoing, post_exchange, put_exchange, request_exchange, step,
    ActionView, EventView, FaultView, Phase, ReplyView, Variant,
};
use crate::header::{
    count_named, first_named, lemma_count_absent, lemma_count_joined, lemma_first_named_is_first,
    lemma_first_named_joined, lemma_names_apart, lemma_same_name_reflexive, lemma_single_entry,
    lemma_without_named_gone, lemma_without_named_others, same_name, value_named,
    with_header_set, without_named, HeaderView,
};
use crate::json::{escape_of, escaped, hex_digit_of, json_string_literal};

verus! {

/// After a header is set, the list holds its name exactly once, and the
/// entry with that name carries the value that was set.
pub proof fn law_set_header_is_single(
    entries: Seq<HeaderView>,
    name: Seq<char>,
    value: Seq<char>,
)
    ensures
        count_named(with_header_set(entries, name, value), name) == 1,
        value_named(with_header_set(entries, name, value), name) == Some(value),
{
    let at = first_named(entries, name);
    lemma_first_named_is_first(entries, name);
    lemma_same_name_reflexive(name);
    if at == entries.len() {
        let added = HeaderView { name, value };
        assert(entries.push(added) =~= entries + seq![added]);
        lemma_count_absent(entries, name);
        lemma_single_entry(added, name);
        lemma_count_joined(entries, seq![added], name);
        lemma_first_named_joined(entries, seq![added], name);
    } else {
        let front = entries.take(at);
        let changed = HeaderView { name: entries[at].name, value };
        let back = without_named(entries.skip(at + 1), name);
        assert(with_header_set(entries, name, value) =~= (front + seq![changed]) + back);
        assert forall|j: int| 0 <= j < front.len() implies !same_name(
            #[trigger] front[j].name,
            name,
        ) by {
            assert(front[j] == entries[j]);
        }
        lemma_count_absent(front, name);
        lemma_single_entry(changed, name);
        lemma_without_named_gone(entries.skip(at + 1), name);
        lemma_count_joined(front, seq![changed], name);
        lemma_count_joined(front + seq![changed], back, name);
        lemma_first_named_is_first(front, name);
        lemma_first_named_joined(front, seq![changed], name);
        lemma_first_named_joined(front + seq![changed], back, name);
    }
}

/// Setting a header leaves every other name as it was: the list holds it as
/// often as before, and its first entry carries the same value.
pub proof fn law_set_header_keeps_others(
    entries: Seq<HeaderView>,
    name: Seq<char>,
    value: Seq<char>,
    other: Seq<char>,
)
    requires
        !same_name(name, other),
    ensures
        count_named(with_header_set(entries, name, value), other) == count_named(entries, other),
        value_named(with_header_set(entries, name, value), other) == value_named(entries, other),
{
    let at = first_named(entries, name);
    lemma_first_named_is_first(entries, name);
    lemma_same_name_reflexive(name);
    if at == entries.len() {
        let added = HeaderView { name, value };
        assert(entries.push(added) =~= entries + seq![added]);
        lemma_single_entry(added, other);
        lemma_count_joined(entries, seq![added], other);
        lemma_first_named_joined(entries, seq![added], other);
        lemma_first_named_is_first(entries, other);
    } else {
        let front = entries.take(at);
        let held = entries[at];
        let changed = HeaderView { name: held.name, value };
        let tail = entries.skip(at + 1);
        let back = without_named(tail, name);
        assert(with_header_set(entries, name, value) =~= (front + seq![changed]) + back);
        assert(entries =~= (front + seq![held]) + tail);
        lemma_names_apart(held.name, name, other);
        lemma_single_entry(changed, other);
        lemma_single_entry(held, other);
        lemma_without_named_others(tail, name, other);
        lemma_count_joined(front, seq![changed], other);
        lemma_count_joined(front + seq![changed], back, other);
        lemma_count_joined(front, seq![held], other);
        lemma_count_joined(front + seq![held], tail, other);
        lemma_first_named_is_first(front, other);
        lemma_first_named_joined(front, seq![changed], other);
        lemma_first_named_joined(front + seq![changed], back, other);
        lemma_first_named_joined(front, seq![held], other);
        lemma_first_named_joined(front + seq![held], tail, other);
    }
}

/// The names of the permissive cross-origin headers are names other than
/// `Authorization` and `Content-Type`, which differ from each other.
proof fn lemma_names_differ()
    ensures
        !same_name("Authorization"@, "Content-Type"@),
        !same_name("Content-Type"@, "Authorization"@),
        !same_name("Access-Control-Allow-Origin"@, "Authorization"@),
        !same_name("Access-Control-Allow-Methods"@, "Authorization"@),
        !same_name("Access-Control-Allow-Headers"@, "Authorization"@),
        !same_name("Access-Control-Allow-Origin"@, "Content-Type"@),
        !same_name("Access-Control-Allow-Methods"@, "Content-Type"@),
        !same_name("Access-Control-Allow-Headers"@, "Content-Type"@),
{
    reveal_strlit("Authorization");
    reveal_strlit("Content-Type");
    reveal_strlit("Access-Control-Allow-Origin");
    reveal_strlit("Access-Control-Allow-Methods");
    reveal_strlit("Access-Control-Allow-Headers");
}

/// Setting the permissive cross-origin headers leaves `Authorization` and
/// `Content-Type` as they were.
proof fn lemma_cors_keeps(entries: Seq<HeaderView>, other: Seq<char>)
    requires
        other == "Authorization"@ || other == "Content-Type"@,
    ensures
        count_named(with_cors_headers(entries), other) == count_named(entries, other),
        value_named(with_cors_headers(entries), other) == value_named(entries, other),
{
    lemma_names_differ();
    let first = with_header_set(entries, "Access-Control-Allow-Origin"@, "*"@);
    let second = with_header_set(
        first,
        "Access-Control-Allow-Methods"@,
        "GET, POST, PUT, DELETE, OPTIONS"@,
    );
    law_set_header_keeps_others(entries, "Access-Control-Allow-Origin"@, "*"@, other);
    law_set_header_keeps_others(
        first,
        "Access-Control-Allow-Methods"@,
        "GET, POST, PUT, DELETE, OPTIONS"@,
        other,
    );
    law_set_header_keeps_others(
        second,
        "Access-Control-Allow-Headers"@,
        "Content-Type, Authorization"@,
        other,
    );
}

/// What a fresh header list holds under the two names that it is made of.
proof fn lemma_initial_headers(token: Option<Seq<char>>, content_type: Option<Seq<char>>)
    ensures
        count_named(initial_headers(token, content_type), "Authorization"@) == if token is Some {
            1nat
        } else {
            0nat
        },
        value_named(initial_headers(token, content_type), "Authorization"@) == match token {
            Some(t) => Some(bearer(t)),
            None => None,
        },
        count_named(initial_headers(token, content_type), "Content-Type"@) == 1,
        value_named(initial_headers(token, content_type), "Content-Type"@) == Some(
            match content_type {
                Some(given) => given,
                None => "application/json"@,
            },
        ),
{
    lemma_names_differ();
    lemma_same_name_reflexive("Authorization"@);
    lemma_same_name_reflexive("Content-Type"@);
    let kind = HeaderView {
        name: "Content-Type"@,
        value: match content_type {
            Some(given) => given,
            None => "application/json"@,
        },
    };
    lemma_single_entry(kind, "Authorization"@);
    lemma_single_entry(kind, "Content-Type"@);
    match token {
        Some(t) => {
            let auth = HeaderView { name: "Authorization"@, value: bearer(t) };
            assert(initial_headers(token, content_type) =~= seq![auth] + seq![kind]);
            lemma_single_entry(auth, "Authorization"@);
            lemma_single_entry(auth, "Content-Type"@);
            lemma_count_joined(seq![auth], seq![kind], "Authorization"@);
            lemma_count_joined(seq![auth], seq![kind], "Content-Type"@);
            lemma_first_named_joined(seq![auth], seq![kind], "Authorization"@);
            lemma_first_named_joined(seq![auth], seq![kind], "Content-Type"@);
        },
        None => {
            assert(initial_headers(token, content_type) =~= seq![kind]);
        },
    }
}

/// The headers that go out hold `Authorization` if and only if a token was
/// given: once, with `Bearer ` and the token as its value, where one was;
/// not at all where none was.
pub proof fn law_authorization_iff_token(
    variant: Variant,
    method: Seq<char>,
    data: Option<Seq<char>>,
    token: Option<Seq<char>>,
    content_type: Option<Seq<char>>,
)
    ensures
        count_named(
            outgoing(variant, method, data, token, content_type).headers,
            "Authorization"@,
        ) == if token is Some {
            1nat
        } else {
            0nat
        },
        value_named(
            outgoing(variant, method, data, token, content_type).headers,
            "Authorization"@,
        ) == match token {
            Some(t) => Some(bearer(t)),
            None => None,
        },
{
    lemma_initial_headers(token, content_type);
    lemma_cors_keeps(initial_headers(token, content_type), "Authorization"@);
}

/// The headers that go out hold `Content-Type` exactly once: with the value
/// that was given, or with `application/json` where none was.
pub proof fn law_content_type_is_single(
    variant: Variant,
    method: Seq<char>,
    data: Option<Seq<char>>,
    token: Option<Seq<char>>,
    content_type: Option<Seq<char>>,
)
    ensures
        count_named(
            outgoing(variant, method, data, token, content_type).headers,
            "Content-Type"@,
        ) == 1,
        value_named(
            outgoing(variant, method, data, token, content_type).headers,
            "Content-Type"@,
        ) == Some(
            match content_type {
                Some(given) => given,
                None => "application/json"@,
            },
        ),
{
    lemma_initial_headers(token, content_type);
    lemma_cors_keeps(initial_headers(token, content_type), "Content-Type"@);
}

/// The request that goes out carries the method and the body as they were
/// given, and no body where none was given; its mode is cross-origin.
pub proof fn law_method_and_body_as_given(
    variant: Variant,
    method: Seq<char>,
    data: Option<Seq<char>>,
    token: Option<Seq<char>>,
    content_type: Option<Seq<char>>,
)
    ensures
        outgoing(variant, method, data, token, content_type).method == method,
        outgoing(variant, method, data, token, content_type).body == data,
        outgoing(variant, method, data, token, content_type).mode == RequestMode::Cors,
{
}

/// Escaping two texts joined is joining their escapes.
pub proof fn law_escaped_joined(front: Seq<char>, back: Seq<char>)
    ensures
        escaped(front + back) == escaped(front) + escaped(back),
    decreases back.len(),
{
    if back.len() == 0 {
        assert(front + back =~= front);
        assert(escaped(front) + escaped(back) =~= escaped(front));
    } else {
        assert((front + back).drop_last() =~= front + back.drop_last());
        assert((front + back).last() == back.last());
        law_escaped_joined(front, back.drop_last());
        assert(escaped(front + back) =~= escaped(front) + escaped(back));
    }
}

/// No character of an escape is a control character.
proof fn lemma_escape_is_printable(c: char)
    ensures
        forall|i: int| 0 <= i < escape_of(c).len() ==> (#[trigger] escape_of(c)[i]) as u32 >= 0x20,
{
    if (c as u32) < 0x20 {
        let high = (c as u32) as int / 16;
        let low = (c as u32) as int % 16;
        assert(0 <= high < 16 && 0 <= low < 16);
        assert(forall|n: int| 0 <= n < 16 ==> (#[trigger] hex_digit_of(n)) as u32 >= 0x20);
    }
}

/// No character of an escaped text is a control character.
proof fn lemma_escaped_is_printable(text: Seq<char>)
    ensures
        forall|i: int| 0 <= i < escaped(text).len() ==> (#[trigger] escaped(text)[i]) as u32 >= 0x20,
    decreases text.len(),
{
    if text.len() > 0 {
        lemma_escaped_is_printable(text.drop_last());
        lemma_escape_is_printable(text.last());
        let head = escaped(text.drop_last());
        let tail = escape_of(text.last());
        assert forall|i: int| 0 <= i < escaped(text).len() implies (#[trigger] escaped(text)[i]) as u32
            >= 0x20 by {
            if i < head.len() {
                assert(escaped(text)[i] == head[i]);
            } else {
                assert(escaped(text)[i] == tail[i - head.len()]);
            }
        }
    }
}

/// A JSON string literal begins and ends with a quotation mark and holds no
/// control character, whatever the text holds.
pub proof fn law_literal_is_printable(text: Seq<char>)
    ensures
        json_string_literal(text).len() >= 2,
        json_string_literal(text).first() == '"',
        json_string_literal(text).last() == '"',
        forall|i: int|
            0 <= i < json_string_literal(text).len() ==> (#[trigger] json_string_literal(
                text,
            )[i]) as u32 >= 0x20,
{
    lemma_escaped_is_printable(text);
    let inner = escaped(text);
    let whole = json_string_literal(text);
    assert forall|i: int| 0 <= i < whole.len() implies (#[trigger] whole[i]) as u32 >= 0x20 by {
        if 1 <= i && i < 1 + inner.len() {
            assert(whole[i] == inner[i - 1]);
        }
    }
}

/// A value that the host threw or rejected with, at any point before the
/// end of an exchange, ends the exchange as the failure that carries that
/// very value.
pub proof fn law_rejection_passes_through<H>(variant: Variant, phase: Phase, value: H)
    requires
        phase != Phase::Done,
    ensures
        step(variant, phase, EventView::Failed(value)) == Some(
            (Phase::Done, ActionView::Finish(Err(FaultView::Host(value)))),
        ),
{
}

/// In the `Raw` variant a response ends the exchange with its handle, and
/// no step ever asks for a body to be read.
pub proof fn law_raw_never_reads<H>(phase: Phase, event: EventView<H>, handle: H)
    ensures
        step(Variant::Raw, Phase::Fetching, EventView::Resolved(handle)) == Some(
            (Phase::Done, ActionView::Finish(Ok(ReplyView::Handle(handle)))),
        ),
        match step(Variant::Raw, phase, event) {
            Some((_, action)) => !(action is ReadText),
            None => true,
        },
{
}

/// In the `CorsText` variant a response is read, and the text that was read
/// is returned as a JSON string literal.
pub proof fn law_text_is_quoted<H>(handle: H, text: Seq<char>)
    ensures
        step(Variant::CorsText, Phase::Fetching, EventView::Resolved(handle)) == Some(
            (Phase::Reading, ActionView::ReadText(handle)),
        ),
        step::<H>(Variant::CorsText, Phase::Reading, EventView::Text(text)) == Some(
            (Phase::Done, ActionView::Finish(Ok(ReplyView::<H>::Text(json_string_literal(text))))),
        ),
{
}

/// How far an exchange has come.
pub open spec fn rank(phase: Phase) -> nat {
    match phase {
        Phase::Constructing => 0,
        Phase::Fetching => 1,
        Phase::Reading => 2,
        Phase::Done => 3,
    }
}

/// Every step moves an exchange forward, and it returns exactly when it
/// reaches its end: so an exchange waits for the host's fetch once, for a
/// body at most once, and returns once.
pub proof fn law_step_moves_forward<H>(variant: Variant, phase: Phase, event: EventView<H>)
    ensures
        match step(variant, phase, event) {
            Some((next, action)) => {
                &&& rank(phase) < rank(next)
                &&& action is Finish <==> next == Phase::Done
                &&& action is Fetch <==> next == Phase::Fetching
                &&& action is ReadText <==> next == Phase::Reading
            },
            None => true,
        },
{
}

/// A request with the method `GET`, no body and no content type is the
/// request that `get` makes; the same holds of `DELETE` and `delete`.
pub proof fn law_get_and_delete_are_requests(url: Seq<char>, token: Option<Seq<char>>)
    ensures
        request_exchange("GET"@, url, None, token, None)
            == get_exchange(url, token),
        request_exchange("DELETE"@, url, None, token, None)
            == delete_exchange(url, token),
{
}

/// A request with the method `POST` and a body is the request that `post`
/// makes; the same holds of `PUT` and `put`.
pub proof fn law_post_and_put_are_requests(
    url: Seq<char>,
    data: Seq<char>,
    token: Option<Seq<char>>,
    content_type: Option<Seq<char>>,
)
    ensures
        request_exchange("POST"@, url, Some(data), token, content_type)
            == post_exchange(url, data, token, content_type),
        request_exchange("PUT"@, url, Some(data), token, content_type)
            == put_exchange(url, data, token, content_type),
{
}

/// `get` and `delete` attach no body; `post` and `put` attach the body that
/// they are given, unchanged.
pub proof fn law_bodies_of_the_four(
    url: Seq<char>,
    data: Seq<char>,
    token: Option<Seq<char>>,
    content_type: Option<Seq<char>>,
)
    ensures
        get_exchange(url, token).descriptor.body is None,
        delete_exchange(url, token).descriptor.body is None,
        post_exchange(url, data, token, content_type).descriptor.body == Some(
            data,
        ),
        put_exchange(url, data, token, content_type).descriptor.body == Some(
            data,
        ),
{
}

} // verus!
