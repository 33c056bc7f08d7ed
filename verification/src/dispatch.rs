//! One exchange with the host: the request that goes out, and what is done
//! with each answer that comes back.
//!
//! The host's work (building its request object, fetching, reading a body)
//! is done by the embedding program. After each piece of it the program
//! reports an [`Event`] to [`Exchange::advance`], which answers with the
//! next [`Action`].

use vstd::prelude::*;
use crate::descriptor::{
    initial_descriptor, request_init, setup_cors, text_of, with_cors, Descriptor, DescriptorView,
};
use crate::json::{json_string_literal, quote_json};

verus! {

/// The two ways in which an exchange treats its request and its response.
#[derive(Clone, Copy, Debug, PartialEq, Eq, Structural)]
pub enum Variant {
    /// The permissive cross-origin headers are set on the request, and the
    /// response body is read as text and returned as a JSON string literal.
    CorsText,
    /// The request goes out as built, and the response handle is returned
    /// unread.
    Raw,
}

/// Where an exchange stands.
#[derive(Clone, Copy, Debug, PartialEq, Eq, Structural)]
pub enum Phase {
    /// The host has yet to build its request from the descriptor.
    Constructing,
    /// The request is with the host's fetch mechanism.
    Fetching,
    /// The response body is being read as text.
    Reading,
    /// The exchange has returned.
    Done,
}

/// What the embedding program reports. `H` is the host's own kind of value,
/// which the library carries through and never looks into.
#[derive(Debug, PartialEq, Eq)]
pub enum Event<H> {
    /// The host built its request from the descriptor.
    Constructed,
    /// The host refused to build a request from the URL and the descriptor.
    Refused,
    /// The host threw or rejected with the given value: a header or a body
    /// that it does not take, a failed fetch, a body that cannot be read.
    Failed(H),
    /// The fetch resolved to the given response handle.
    Resolved(H),
    /// The response body was read and decoded to the given text.
    Text(String),
}

/// An event with its text as plain characters.
pub enum EventView<H> {
    Constructed,
    Refused,
    Failed(H),
    Resolved(H),
    Text(Seq<char>),
}

impl<H> View for Event<H> {
    type V = EventView<H>;

    open spec fn view(&self) -> EventView<H> {
        match *self {
            Event::Constructed => EventView::Constructed,
            Event::Refused => EventView::Refused,
            Event::Failed(v) => EventView::Failed(v),
            Event::Resolved(h) => EventView::Resolved(h),
            Event::Text(t) => EventView::Text(t@),
        }
    }
}

/// What a successful exchange returns.
#[derive(Debug, PartialEq, Eq)]
pub enum Reply<H> {
    /// The response body as a JSON string literal.
    Text(String),
    /// The response handle, unread.
    Handle(H),
}

/// A reply with its text as plain characters.
pub enum ReplyView<H> {
    Text(Seq<char>),
    Handle(H),
}

impl<H> View for Reply<H> {
    type V = ReplyView<H>;

    open spec fn view(&self) -> ReplyView<H> {
        match *self {
            Reply::Text(t) => ReplyView::Text(t@),
            Reply::Handle(h) => ReplyView::Handle(h),
        }
    }
}

/// What a failed exchange returns.
#[derive(Debug, PartialEq, Eq)]
pub enum Fault<H> {
    /// A short diagnostic of the library's own.
    Diagnostic(String),
    /// The value that the host threw or rejected with, unchanged.
    Host(H),
}

/// A failure with its text as plain characters.
pub enum FaultView<H> {
    Diagnostic(Seq<char>),
    Host(H),
}

impl<H> View for Fault<H> {
    type V = FaultView<H>;

    open spec fn view(&self) -> FaultView<H> {
        match *self {
            Fault::Diagnostic(t) => FaultView::Diagnostic(t@),
            Fault::Host(v) => FaultView::Host(v),
        }
    }
}

/// What the embedding program is to do next.
#[derive(Debug, PartialEq, Eq)]
pub enum Action<H> {
    /// Hand the built request to the host's fetch mechanism and wait.
    Fetch,
    /// Read the body of the given response as text and wait.
    ReadText(H),
    /// Return the given result to the caller.
    Finish(Result<Reply<H>, Fault<H>>),
}

/// An action with its texts as plain characters.
pub enum ActionView<H> {
    Fetch,
    ReadText(H),
    Finish(Result<ReplyView<H>, FaultView<H>>),
}

impl<H> View for Action<H> {
    type V = ActionView<H>;

    open spec fn view(&self) -> ActionView<H> {
        match *self {
            Action::Fetch => ActionView::Fetch,
            Action::ReadText(h) => ActionView::ReadText(h),
            Action::Finish(Ok(reply)) => ActionView::Finish(Ok(reply@)),
            Action::Finish(Err(failure)) => ActionView::Finish(Err(failure@)),
        }
    }
}

/// The diagnostic of a request that the host refused to build.
pub open spec fn refusal_text() -> Seq<char> {
    "Failed to create request"@
}

/// The rule of an exchange: the phase and the action that follow an event,
/// or nothing where the event has no place in the phase.
///
/// A request that the host builds is fetched; one that it refuses ends the
/// exchange with the diagnostic. A response is read as text in the
/// `CorsText` variant and returned unread in the `Raw` variant. A text that
/// was read is returned as a JSON string literal. A value that the host
/// threw or rejected with ends the exchange, at any point before its end,
/// as the failure that carries that value.
pub open spec fn step<H>(variant: Variant, phase: Phase, event: EventView<H>) -> Option<
    (Phase, ActionView<H>),
> {
    match (phase, event) {
        (Phase::Done, _) => None,
        (_, EventView::Failed(v)) => Some(
            (Phase::Done, ActionView::Finish(Err(FaultView::Host(v)))),
        ),
        (Phase::Constructing, EventView::Constructed) => Some((Phase::Fetching, ActionView::Fetch)),
        (Phase::Constructing, EventView::Refused) => Some(
            (Phase::Done, ActionView::Finish(Err(FaultView::Diagnostic(refusal_text())))),
        ),
        (Phase::Fetching, EventView::Resolved(h)) => match variant {
            Variant::CorsText => Some((Phase::Reading, ActionView::ReadText(h))),
            Variant::Raw => Some((Phase::Done, ActionView::Finish(Ok(ReplyView::Handle(h))))),
        },
        (Phase::Reading, EventView::Text(t)) => Some(
            (Phase::Done, ActionView::Finish(Ok(ReplyView::Text(json_string_literal(t))))),
        ),
        _ => None,
    }
}

/// The descriptor that goes out: the fresh descriptor, with the permissive
/// cross-origin headers set on it in the `CorsText` variant.
pub open spec fn outgoing(
    variant: Variant,
    method: Seq<char>,
    data: Option<Seq<char>>,
    token: Option<Seq<char>>,
    content_type: Option<Seq<char>>,
) -> DescriptorView {
    match variant {
        Variant::CorsText => with_cors(initial_descriptor(method, data, token, content_type)),
        Variant::Raw => initial_descriptor(method, data, token, content_type),
    }
}

/// An exchange as plain values.
pub struct ExchangeView {
    pub variant: Variant,
    pub url: Seq<char>,
    pub descriptor: DescriptorView,
    pub phase: Phase,
}

/// An exchange that has just been made.
pub open spec fn started(
    variant: Variant,
    method: Seq<char>,
    url: Seq<char>,
    data: Option<Seq<char>>,
    token: Option<Seq<char>>,
    content_type: Option<Seq<char>>,
) -> ExchangeView {
    ExchangeView {
        variant,
        url,
        descriptor: outgoing(variant, method, data, token, content_type),
        phase: Phase::Constructing,
    }
}

/// The exchange that `request` makes.
pub open spec fn request_exchange(
    method: Seq<char>,
    url: Seq<char>,
    data: Option<Seq<char>>,
    token: Option<Seq<char>>,
    content_type: Option<Seq<char>>,
) -> ExchangeView {
    started(Variant::CorsText, method, url, data, token, content_type)
}

/// The exchange that `get` makes.
pub open spec fn get_exchange(url: Seq<char>, token: Option<Seq<char>>) -> ExchangeView {
    started(Variant::CorsText, "GET"@, url, None, token, None)
}

/// The exchange that `post` makes.
pub open spec fn post_exchange(
    url: Seq<char>,
    data: Seq<char>,
    token: Option<Seq<char>>,
    content_type: Option<Seq<char>>,
) -> ExchangeView {
    started(Variant::CorsText, "POST"@, url, Some(data), token, content_type)
}

/// The exchange that `put` makes.
pub open spec fn put_exchange(
    url: Seq<char>,
    data: Seq<char>,
    token: Option<Seq<char>>,
    content_type: Option<Seq<char>>,
) -> ExchangeView {
    started(Variant::CorsText, "PUT"@, url, Some(data), token, content_type)
}

/// The exchange that `delete` makes.
pub open spec fn delete_exchange(url: Seq<char>, token: Option<Seq<char>>) -> ExchangeView {
    started(Variant::CorsText, "DELETE"@, url, None, token, None)
}

/// One request and the state of its dispatch.
#[derive(Debug, PartialEq, Eq)]
pub struct Exchange {
    variant: Variant,
    url: String,
    descriptor: Descriptor,
    phase: Phase,
}

impl View for Exchange {
    type V = ExchangeView;

    closed spec fn view(&self) -> ExchangeView {
        ExchangeView {
            variant: self.variant,
            url: self.url@,
            descriptor: self.descriptor@,
            phase: self.phase,
        }
    }
}

impl Clone for Exchange {
    fn clone(&self) -> (copy: Exchange)
        ensures
            copy@ == self@,
    {
        Exchange {
            variant: self.variant,
            url: self.url.clone(),
            descriptor: self.descriptor.clone(),
            phase: self.phase,
        }
    }
}

impl Exchange {
    /// The variant that the exchange was made in.
    pub fn variant(&self) -> (v: Variant)
        ensures
            v == self@.variant,
    {
        self.variant
    }

    /// The address that the request goes to.
    pub fn url(&self) -> (u: &str)
        ensures
            u@ == self@.url,
    {
        self.url.as_str()
    }

    /// The descriptor that the host builds its request from.
    pub fn descriptor(&self) -> (d: &Descriptor)
        ensures
            d@ == self@.descriptor,
    {
        &self.descriptor
    }

    /// Where the exchange stands.
    pub fn phase(&self) -> (p: Phase)
        ensures
            p == self@.phase,
    {
        self.phase
    }

    /// Takes an event and answers with what is to be done next. An event
    /// that has no place in the current phase is answered with `None` and
    /// changes nothing.
    pub fn advance<H>(&mut self, event: Event<H>) -> (next: Option<Action<H>>)
        ensures
            match step(old(self)@.variant, old(self)@.phase, event@) {
                Some((phase, action)) => {
                    &&& next matches Some(a) && a@ == action
                    &&& final(self)@ == (ExchangeView { phase, ..old(self)@ })
                },
                None => next is None && final(self)@ == old(self)@,
            },
    {
        match self.phase {
            Phase::Done => None,
            Phase::Constructing => match event {
                Event::Failed(v) => {
                    self.phase = Phase::Done;
                    Some(Action::Finish(Err(Fault::Host(v))))
                },
                Event::Constructed => {
                    self.phase = Phase::Fetching;
                    Some(Action::Fetch)
                },
                Event::Refused => {
                    self.phase = Phase::Done;
                    Some(
                        Action::Finish(
                            Err(Fault::Diagnostic("Failed to create request".to_owned())),
                        ),
                    )
                },
                _ => None,
            },
            Phase::Fetching => match event {
                Event::Failed(v) => {
                    self.phase = Phase::Done;
                    Some(Action::Finish(Err(Fault::Host(v))))
                },
                Event::Resolved(h) => match self.variant {
                    Variant::CorsText => {
                        self.phase = Phase::Reading;
                        Some(Action::ReadText(h))
                    },
                    Variant::Raw => {
                        self.phase = Phase::Done;
                        Some(Action::Finish(Ok(Reply::Handle(h))))
                    },
                },
                _ => None,
            },
            Phase::Reading => match event {
                Event::Failed(v) => {
                    self.phase = Phase::Done;
                    Some(Action::Finish(Err(Fault::Host(v))))
                },
                Event::Text(t) => {
                    self.phase = Phase::Done;
                    Some(Action::Finish(Ok(Reply::Text(quote_json(t.as_str())))))
                },
                _ => None,
            },
        }
    }
}

/// Makes the exchange for a request in the given variant.
pub fn make_request(
    variant: Variant,
    method: &str,
    url: &str,
    data: Option<String>,
    token: Option<String>,
    content_type: Option<String>,
) -> (exchange: Exchange)
    ensures
        exchange@ == started(
            variant,
            method@,
            url@,
            text_of(data),
            text_of(token),
            text_of(content_type),
        ),
{
    let mut descriptor = request_init(method, data, token, content_type);
    match variant {
        Variant::CorsText => setup_cors(&mut descriptor),
        Variant::Raw => {},
    }
    Exchange { variant, url: url.to_owned(), descriptor, phase: Phase::Constructing }
}

/// The exchange of a request with any method.
pub fn request(
    method: &str,
    url: &str,
    data: Option<String>,
    token: Option<String>,
    content_type: Option<String>,
) -> (exchange: Exchange)
    ensures
        exchange@ == request_exchange(
            method@,
            url@,
            text_of(data),
            text_of(token),
            text_of(content_type),
        ),
{
    make_request(Variant::CorsText, method, url, data, token, content_type)
}

/// The exchange of a `GET` request: no body, the default content type.
pub fn get(url: &str, token: Option<String>) -> (exchange: Exchange)
    ensures
        exchange@ == get_exchange(url@, text_of(token)),
        exchange@.descriptor.body is None,
{
    make_request(Variant::CorsText, "GET", url, None, token, None)
}

/// The exchange of a `POST` request that carries `data`.
pub fn post(
    url: &str,
    data: String,
    token: Option<String>,
    content_type: Option<String>,
) -> (exchange: Exchange)
    ensures
        exchange@ == post_exchange(url@, data@, text_of(token), text_of(content_type)),
        exchange@.descriptor.body == Some(data@),
{
    make_request(Variant::CorsText, "POST", url, Some(data), token, content_type)
}

/// The exchange of a `PUT` request that carries `data`.
pub fn put(
    url: &str,
    data: String,
    token: Option<String>,
    content_type: Option<String>,
) -> (exchange: Exchange)
    ensures
        exchange@ == put_exchange(url@, data@, text_of(token), text_of(content_type)),
        exchange@.descriptor.body == Some(data@),
{
    make_request(Variant::CorsText, "PUT", url, Some(data), token, content_type)
}

/// The exchange of a `DELETE` request: no body, the default content type.
pub fn delete(url: &str, token: Option<String>) -> (exchange: Exchange)
    ensures
        exchange@ == delete_exchange(url@, text_of(token)),
        exchange@.descriptor.body is None,
{
    make_request(Variant::CorsText, "DELETE", url, None, token, None)
}

} // verus!
