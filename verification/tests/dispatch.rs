use fetch_client::{
    delete, get, make_request, post, put, request, request_init, setup_cors, Action, Event,
    Exchange, Fault, Phase, Reply, Variant,
};

fn fetching(variant: Variant) -> Exchange {
    let mut exchange = make_request(variant, "GET", "https://example.org/", None, None, None);
    assert_eq!(exchange.advance::<u32>(Event::Constructed), Some(Action::Fetch));
    assert_eq!(exchange.phase(), Phase::Fetching);
    exchange
}

#[test]
fn text_body_hello_comes_back_quoted() {
    let mut exchange = get("https://example.org/a", None);
    assert_eq!(exchange.phase(), Phase::Constructing);
    assert_eq!(exchange.advance::<u32>(Event::Constructed), Some(Action::Fetch));
    assert_eq!(exchange.phase(), Phase::Fetching);
    assert_eq!(exchange.advance(Event::Resolved(7u32)), Some(Action::ReadText(7u32)));
    assert_eq!(exchange.phase(), Phase::Reading);
    assert_eq!(
        exchange.advance::<u32>(Event::Text("hello".to_string())),
        Some(Action::Finish(Ok(Reply::Text("\"hello\"".to_string()))))
    );
    assert_eq!(exchange.phase(), Phase::Done);
}

#[test]
fn raw_variant_returns_the_handle_unread() {
    let mut exchange = fetching(Variant::Raw);
    assert_eq!(
        exchange.advance(Event::Resolved("response".to_string())),
        Some(Action::Finish(Ok(Reply::Handle("response".to_string()))))
    );
    assert_eq!(exchange.phase(), Phase::Done);
}

#[test]
fn rejected_fetch_passes_the_value_through() {
    for variant in [Variant::CorsText, Variant::Raw] {
        let mut exchange = fetching(variant);
        assert_eq!(
            exchange.advance(Event::Failed("TypeError: name not resolved".to_string())),
            Some(Action::Finish(Err(Fault::Host("TypeError: name not resolved".to_string()))))
        );
        assert_eq!(exchange.phase(), Phase::Done);
    }
}

#[test]
fn failure_while_constructing_passes_the_value_through() {
    let mut exchange = post("https://example.org/", "x".to_string(), Some("a\nb".to_string()), None);
    assert_eq!(
        exchange.advance(Event::Failed(41u32)),
        Some(Action::Finish(Err(Fault::Host(41u32))))
    );
    assert_eq!(exchange.phase(), Phase::Done);
}

#[test]
fn failure_while_reading_passes_the_value_through() {
    let mut exchange = fetching(Variant::CorsText);
    assert_eq!(exchange.advance(Event::Resolved(1u32)), Some(Action::ReadText(1u32)));
    assert_eq!(
        exchange.advance(Event::Failed(2u32)),
        Some(Action::Finish(Err(Fault::Host(2u32))))
    );
    assert_eq!(exchange.phase(), Phase::Done);
}

#[test]
fn refused_request_gives_the_diagnostic() {
    let mut exchange = get("not a url", None);
    assert_eq!(
        exchange.advance::<u32>(Event::Refused),
        Some(Action::Finish(Err(Fault::Diagnostic("Failed to create request".to_string()))))
    );
    assert_eq!(exchange.phase(), Phase::Done);
}

#[test]
fn events_out_of_place_change_nothing() {
    let mut exchange = get("https://example.org/", None);
    let at_start = exchange.clone();
    assert_eq!(exchange.advance(Event::Resolved(1u32)), None);
    assert_eq!(exchange.advance::<u32>(Event::Text("x".to_string())), None);
    assert_eq!(exchange, at_start);

    let mut exchange = fetching(Variant::CorsText);
    let at_fetch = exchange.clone();
    assert_eq!(exchange.advance::<u32>(Event::Constructed), None);
    assert_eq!(exchange.advance::<u32>(Event::Refused), None);
    assert_eq!(exchange.advance::<u32>(Event::Text("x".to_string())), None);
    assert_eq!(exchange, at_fetch);

    assert_eq!(exchange.advance(Event::Resolved(1u32)), Some(Action::ReadText(1u32)));
    let at_read = exchange.clone();
    assert_eq!(exchange.advance::<u32>(Event::Constructed), None);
    assert_eq!(exchange.advance::<u32>(Event::Refused), None);
    assert_eq!(exchange.advance(Event::Resolved(2u32)), None);
    assert_eq!(exchange, at_read);

    assert!(exchange.advance::<u32>(Event::Text(String::new())).is_some());
    let at_end = exchange.clone();
    assert_eq!(exchange.advance::<u32>(Event::Constructed), None);
    assert_eq!(exchange.advance::<u32>(Event::Refused), None);
    assert_eq!(exchange.advance(Event::Failed(3u32)), None);
    assert_eq!(exchange.advance(Event::Resolved(3u32)), None);
    assert_eq!(exchange.advance::<u32>(Event::Text("x".to_string())), None);
    assert_eq!(exchange, at_end);
    assert_eq!(exchange.phase(), Phase::Done);
}

#[test]
fn request_with_get_is_get() {
    let by_request = request("GET", "https://example.org/items", None, None, None);
    let by_get = get("https://example.org/items", None);
    assert_eq!(by_request, by_get);
    assert_eq!(by_request.descriptor(), by_get.descriptor());
}

#[test]
fn request_with_delete_is_delete() {
    let by_request =
        request("DELETE", "https://example.org/items/1", None, Some("t".to_string()), None);
    let by_delete = delete("https://example.org/items/1", Some("t".to_string()));
    assert_eq!(by_request, by_delete);
}

#[test]
fn request_with_post_or_put_is_post_or_put() {
    let body = "{\"n\":1}".to_string();
    let kind = Some("application/x-ndjson".to_string());
    assert_eq!(
        request("POST", "u", Some(body.clone()), None, kind.clone()),
        post("u", body.clone(), None, kind.clone())
    );
    assert_eq!(
        request("PUT", "u", Some(body.clone()), Some("k".to_string()), None),
        put("u", body.clone(), Some("k".to_string()), None)
    );
    assert_ne!(post("u", body.clone(), None, None), put("u", body, None, None));
}

#[test]
fn get_and_delete_attach_no_body() {
    assert_eq!(get("u", Some("t".to_string())).descriptor().body, None);
    assert_eq!(delete("u", None).descriptor().body, None);
    assert_eq!(get("u", None).descriptor().method, "GET");
    assert_eq!(delete("u", None).descriptor().method, "DELETE");
}

#[test]
fn post_and_put_attach_the_body_unchanged() {
    let body = " {\"a\":\t\"\u{e9}\"}\r\n".to_string();
    assert_eq!(post("u", body.clone(), None, None).descriptor().body, Some(body.clone()));
    assert_eq!(put("u", body.clone(), None, None).descriptor().body, Some(body.clone()));
    assert_eq!(post("u", String::new(), None, None).descriptor().body, Some(String::new()));
    assert_eq!(post("u", body.clone(), None, None).descriptor().method, "POST");
    assert_eq!(put("u", body, None, None).descriptor().method, "PUT");
}

#[test]
fn exchange_keeps_url_and_variant() {
    let exchange = make_request(Variant::Raw, "HEAD", "https://example.org/x?y=1", None, None, None);
    assert_eq!(exchange.url(), "https://example.org/x?y=1");
    assert_eq!(exchange.variant(), Variant::Raw);
    assert_eq!(get("u", None).variant(), Variant::CorsText);
}

#[test]
fn cors_text_variant_sets_the_cors_headers() {
    let exchange =
        make_request(Variant::CorsText, "GET", "u", None, Some("tok".to_string()), None);
    let mut expected = request_init("GET", None, Some("tok".to_string()), None);
    setup_cors(&mut expected);
    assert_eq!(exchange.descriptor(), &expected);
    assert_eq!(exchange.descriptor().headers.len(), 5);
    assert_eq!(exchange.descriptor().header_value("authorization"), Some("Bearer tok"));
    assert_eq!(exchange.descriptor().header_value("content-type"), Some("application/json"));
}

#[test]
fn raw_variant_sends_the_descriptor_as_built() {
    let exchange = make_request(
        Variant::Raw,
        "PUT",
        "u",
        Some("b".to_string()),
        None,
        Some("text/csv".to_string()),
    );
    let expected = request_init("PUT", Some("b".to_string()), None, Some("text/csv".to_string()));
    assert_eq!(exchange.descriptor(), &expected);
    assert_eq!(exchange.descriptor().headers.len(), 1);
    assert_eq!(exchange.descriptor().header_value("Access-Control-Allow-Origin"), None);
}
