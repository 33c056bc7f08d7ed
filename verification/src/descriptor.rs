//! The descriptor of an outgoing request: method, mode, body and headers.

use vstd::prelude::*;
use vstd::string::StringExecFns;
use crate::header::{
    first_named, lemma_first_named_at, names_match, same_name, value_named, views_of,
    with_header_set, without_named, Header, HeaderView,
};

verus! {

/// How far a request may reach across origins.
#[derive(Clone, Copy, Debug, PartialEq, Eq, Structural)]
pub enum RequestMode {
    SameOrigin,
    NoCors,
    Cors,
    Navigate,
}

/// A descriptor as plain texts.
pub struct DescriptorView {
    pub method: Seq<char>,
    pub mode: RequestMode,
    pub body: Option<Seq<char>>,
    pub headers: Seq<HeaderView>,
}

/// What the host is asked to send: made anew for each call and handed over
/// once.
#[derive(Debug, PartialEq, Eq)]
pub struct Descriptor {
    pub method: String,
    pub mode: RequestMode,
    pub body: Option<String>,
    pub headers: Vec<Header>,
}

/// The text inside an optional string.
pub open spec fn text_of(field: Option<String>) -> Option<Seq<char>> {
    match field {
        Some(s) => Some(s@),
        None => None,
    }
}

impl View for Descriptor {
    type V = DescriptorView;

    open spec fn view(&self) -> DescriptorView {
        DescriptorView {
            method: self.method@,
            mode: self.mode,
            body: text_of(self.body),
            headers: views_of(self.headers@),
        }
    }
}

impl Clone for Descriptor {
    fn clone(&self) -> (copy: Descriptor)
        ensures
            copy@ == self@,
    {
        let mut headers: Vec<Header> = Vec::new();
        let mut i: usize = 0;
        while i < self.headers.len()
            invariant
                i <= self.headers.len(),
                views_of(headers@) == views_of(self.headers@).take(i as int),
            decreases self.headers.len() - i,
        {
            let ghost held = views_of(headers@);
            let entry = self.headers[i].clone();
            headers.push(entry);
            assert(views_of(headers@) =~= held.push(entry@));
            assert(views_of(headers@) =~= views_of(self.headers@).take(i as int + 1));
            i += 1;
        }
        assert(views_of(headers@) =~= views_of(self.headers@));
        let body = match &self.body {
            Some(text) => Some(text.clone()),
            None => None,
        };
        Descriptor { method: self.method.clone(), mode: self.mode, body, headers }
    }
}

/// The value of the `Authorization` header for a bearer token.
pub open spec fn bearer(token: Seq<char>) -> Seq<char> {
    "Bearer "@ + token
}

/// The headers of a fresh descriptor: `Authorization` with the bearer token
/// where a token is given, then `Content-Type` with the given value, or with
/// `application/json` where none is given.
pub open spec fn initial_headers(
    token: Option<Seq<char>>,
    content_type: Option<Seq<char>>,
) -> Seq<HeaderView> {
    let kind = HeaderView {
        name: "Content-Type"@,
        value: match content_type {
            Some(given) => given,
            None => "application/json"@,
        },
    };
    match token {
        Some(t) => seq![HeaderView { name: "Authorization"@, value: bearer(t) }, kind],
        None => seq![kind],
    }
}

/// A fresh descriptor: the method as given, cross-origin mode, the body
/// where one is given, and the initial headers.
pub open spec fn initial_descriptor(
    method: Seq<char>,
    data: Option<Seq<char>>,
    token: Option<Seq<char>>,
    content_type: Option<Seq<char>>,
) -> DescriptorView {
    DescriptorView {
        method,
        mode: RequestMode::Cors,
        body: data,
        headers: initial_headers(token, content_type),
    }
}

/// A header list after the three permissive cross-origin headers are set on
/// it, one after the other.
pub open spec fn with_cors_headers(entries: Seq<HeaderView>) -> Seq<HeaderView> {
    with_header_set(
        with_header_set(
            with_header_set(entries, "Access-Control-Allow-Origin"@, "*"@),
            "Access-Control-Allow-Methods"@,
            "GET, POST, PUT, DELETE, OPTIONS"@,
        ),
        "Access-Control-Allow-Headers"@,
        "Content-Type, Authorization"@,
    )
}

/// A descriptor after the three permissive cross-origin headers are set on
/// it; nothing else changes.
pub open spec fn with_cors(d: DescriptorView) -> DescriptorView {
    DescriptorView { headers: with_cors_headers(d.headers), ..d }
}

impl Descriptor {
    /// Adds a header at the end of the list, whatever the list holds.
    pub fn append_header(&mut self, name: &str, value: &str)
        ensures
            final(self)@ == (DescriptorView {
                headers: old(self)@.headers.push(HeaderView { name: name@, value: value@ }),
                ..old(self)@
            }),
    {
        self.headers.push(Header { name: name.to_owned(), value: value.to_owned() });
        assert(views_of(self.headers@) =~= views_of(old(self).headers@).push(
            HeaderView { name: name@, value: value@ },
        ));
    }

    /// The value of the first header with the given name, if there is one.
    pub fn header_value(&self, name: &str) -> (value: Option<&str>)
        ensures
            match value {
                Some(text) => value_named(self@.headers, name@) == Some(text@),
                None => value_named(self@.headers, name@) is None,
            },
    {
        let ghost entries = views_of(self.headers@);
        let mut i: usize = 0;
        while i < self.headers.len()
            invariant
                i <= self.headers.len(),
                entries == views_of(self.headers@),
                forall|j: int| 0 <= j < i ==> !same_name(#[trigger] entries[j].name, name@),
            decreases self.headers.len() - i,
        {
            let entry = &self.headers[i];
            assert(entry@ == entries[i as int]);
            if names_match(entry.name.as_str(), name) {
                proof {
                    lemma_first_named_at(entries, name@, i as int);
                }
                return Some(entry.value.as_str());
            }
            i += 1;
        }
        proof {
            lemma_first_named_at(entries, name@, entries.len() as int);
        }
        None
    }

    /// Sets a header: the list then holds exactly one entry with that name,
    /// and it carries the given value.
    pub fn set_header(&mut self, name: &str, value: &str)
        ensures
            final(self)@ == (DescriptorView {
                headers: with_header_set(old(self)@.headers, name@, value@),
                ..old(self)@
            }),
    {
        let ghost before = views_of(self.headers@);
        let mut kept: Vec<Header> = Vec::new();
        let mut placed = false;
        let mut i: usize = 0;
        while i < self.headers.len()
            invariant
                i <= self.headers.len(),
                *self == *old(self),
                before == views_of(self.headers@),
                !placed ==> views_of(kept@) == before.take(i as int),
                !placed ==> forall|j: int|
                    0 <= j < i ==> !same_name(#[trigger] before[j].name, name@),
                placed ==> {
                    let at = first_named(before, name@);
                    &&& 0 <= at < i
                    &&& views_of(kept@) == before.take(at).push(
                        HeaderView { name: before[at].name, value: value@ },
                    ) + without_named(before.subrange(at + 1, i as int), name@)
                },
            decreases self.headers.len() - i,
        {
            let ghost held = views_of(kept@);
            let entry = &self.headers[i];
            assert(entry@ == before[i as int]);
            if names_match(entry.name.as_str(), name) {
                if !placed {
                    proof {
                        lemma_first_named_at(before, name@, i as int);
                    }
                    kept.push(Header { name: entry.name.clone(), value: value.to_owned() });
                    placed = true;
                    proof {
                        let at = i as int;
                        assert(before.subrange(at + 1, at + 1) =~= Seq::<HeaderView>::empty());
                        assert(views_of(kept@) =~= before.take(at).push(
                            HeaderView { name: before[at].name, value: value@ },
                        ) + without_named(before.subrange(at + 1, at + 1), name@));
                    }
                } else {
                    proof {
                        let at = first_named(before, name@);
                        let grown = before.subrange(at + 1, i as int + 1);
                        assert(grown.drop_last() =~= before.subrange(at + 1, i as int));
                        assert(grown.last() == before[i as int]);
                    }
                }
            } else {
                kept.push(entry.clone());
                proof {
                    if placed {
                        let at = first_named(before, name@);
                        let grown = before.subrange(at + 1, i as int + 1);
                        assert(grown.drop_last() =~= before.subrange(at + 1, i as int));
                        assert(grown.last() == before[i as int]);
                        assert(views_of(kept@) =~= held.push(before[i as int]));
                        assert(views_of(kept@) =~= before.take(at).push(
                            HeaderView { name: before[at].name, value: value@ },
                        ) + without_named(grown, name@));
                    } else {
                        assert(views_of(kept@) =~= before.take(i as int + 1));
                    }
                }
            }
            i += 1;
        }
        if !placed {
            proof {
                lemma_first_named_at(before, name@, before.len() as int);
                assert(before.take(before.len() as int) =~= before);
            }
            kept.push(Header { name: name.to_owned(), value: value.to_owned() });
            assert(views_of(kept@) =~= before.push(HeaderView { name: name@, value: value@ }));
        } else {
            proof {
                let at = first_named(before, name@);
                assert(before.subrange(at + 1, before.len() as int) =~= before.skip(at + 1));
            }
        }
        self.headers = kept;
    }
}

/// Builds the descriptor of a request from what the caller gives.
pub fn request_init(
    method: &str,
    data: Option<String>,
    token: Option<String>,
    content_type: Option<String>,
) -> (d: Descriptor)
    ensures
        d@ == initial_descriptor(method@, text_of(data), text_of(token), text_of(content_type)),
{
    let mut d = Descriptor {
        method: method.to_owned(),
        mode: RequestMode::Cors,
        body: data,
        headers: Vec::new(),
    };
    assert(views_of(d.headers@) =~= Seq::<HeaderView>::empty());
    if let Some(t) = token {
        let mut value = "Bearer ".to_owned();
        value.append(t.as_str());
        d.append_header("Authorization", value.as_str());
    }
    match content_type {
        Some(given) => d.append_header("Content-Type", given.as_str()),
        None => d.append_header("Content-Type", "application/json"),
    }
    assert(d@.headers =~= initial_headers(text_of(token), text_of(content_type)));
    d
}

/// Sets the three permissive cross-origin headers on a request.
pub fn setup_cors(request: &mut Descriptor)
    ensures
        final(request)@ == with_cors(old(request)@),
{
    request.set_header("Access-Control-Allow-Origin", "*");
    request.set_header("Access-Control-Allow-Methods", "GET, POST, PUT, DELETE, OPTIONS");
    request.set_header("Access-Control-Allow-Headers", "Content-Type, Authorization");
}

} // verus!
