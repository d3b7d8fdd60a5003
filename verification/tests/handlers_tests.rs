//! File names, replies and the handling of requests.

use html_to_pdf_rust::handlers::{
    content_disposition, create_fallback_response, finish_filename, generate_pdf,
    generate_pdf_from_html, receive_pdf_request, sanitize_filename, unreadable_body, AppError,
    HandlerAction, HtmlInput, Reply, ReplyBody, UrlInput,
};
use html_to_pdf_rust::models::{HtmlPdfRequest, Lookup, PdfRequest};
use html_to_pdf_rust::network::IpAddress;

fn request(name: &str, url: &str) -> PdfRequest {
    PdfRequest { name: name.to_string(), url: url.to_string(), options: None }
}

fn reply(action: HandlerAction) -> Reply {
    match action {
        HandlerAction::Respond(reply) => reply,
        other => panic!("no reply: {:?}", other),
    }
}

fn error_of(reply: &Reply) -> &str {
    assert_eq!(reply.content_type, "application/json");
    assert!(reply.content_disposition.is_none());
    match &reply.body {
        ReplyBody::Error(e) => &e.error,
        other => panic!("no error: {:?}", other),
    }
}

#[test]
fn every_ascii_character_is_kept_or_replaced() {
    for code in 0..128_u32 {
        let c = char::from_u32(code).unwrap();
        let allowed = c.is_ascii_alphanumeric() || c == '.' || c == '_' || c == '-';
        let expected = if allowed { format!("x{}", c) } else { "x_".to_string() };
        assert_eq!(sanitize_filename(&format!("x{}", c)), expected);
    }
}

#[test]
fn a_character_is_replaced_by_one_underscore_however_long_it_is() {
    assert_eq!(sanitize_filename("a\u{e9}\u{1f600}\nb"), "a___b");
}

#[test]
fn the_length_is_cut_before_the_name_is_judged() {
    let name = format!("{}abc", "!".repeat(50));
    assert_eq!(sanitize_filename(&name), "document");
    let name = format!("{}abc", "!".repeat(49));
    assert_eq!(sanitize_filename(&name), format!("{}a", "_".repeat(49)));
    assert_eq!(sanitize_filename(&"a".repeat(50)), "a".repeat(50));
    assert_eq!(sanitize_filename(&"a".repeat(51)), "a".repeat(50));
}

#[test]
fn a_safe_name_stays_as_it_is() {
    for name in ["a", "valid-file_name.123", "document", "_a", "..", "!x?"] {
        let once = sanitize_filename(name);
        assert_eq!(sanitize_filename(&once), once);
    }
}

#[test]
fn finishing_cuts_and_fills_in() {
    assert_eq!(finish_filename(""), "document");
    assert_eq!(finish_filename("___"), "document");
    assert_eq!(finish_filename("_a_"), "_a_");
    assert_eq!(finish_filename(&"b".repeat(60)), "b".repeat(50));
}

#[test]
fn the_header_quotes_the_file_name() {
    assert_eq!(content_disposition("invoice"), "inline; filename=\"invoice.pdf\"");
    assert_eq!(content_disposition("a\"b\\c"), "inline; filename=\"a_b_c.pdf\"");
    assert_eq!(content_disposition(""), "inline; filename=\"document.pdf\"");
}

#[test]
fn errors_have_a_status_and_a_public_message() {
    let cases = [
        (AppError::PdfGeneration("p".to_string()), 500, "p", "PDF generation failed: p"),
        (
            AppError::Serialization("s".to_string()),
            500,
            "Serialization error",
            "Serialization error: s",
        ),
        (AppError::ResponseBuilding, 500, "Response building error", "Response building failed"),
        (AppError::Validation("v".to_string()), 400, "v", "Validation error: v"),
    ];
    for (error, status, public, message) in cases {
        assert_eq!(error.message(), message);
        let reply = error.into_response();
        assert_eq!(reply.status, status);
        assert_eq!(error_of(&reply), public);
    }
}

#[test]
fn the_last_resort_is_plain_text() {
    let reply = create_fallback_response();
    assert_eq!(reply.status, 500);
    assert_eq!(reply.content_type, "text/plain");
    assert!(matches!(reply.body, ReplyBody::Text(ref t) if t == "Internal server error"));
}

#[test]
fn a_request_that_is_not_valid_is_rejected_at_once() {
    let r = reply(generate_pdf(&request("", "https://example.com"), UrlInput::Received));
    assert_eq!((r.status, error_of(&r)), (400, "Name cannot be empty"));
    let r = reply(generate_pdf(&request("n", "nonsense"), UrlInput::Received));
    assert_eq!((r.status, error_of(&r)), (400, "Invalid URL"));
}

#[test]
fn a_host_is_resolved_before_anything_is_generated() {
    let req = request("n", "https://example.com");
    match generate_pdf(&req, UrlInput::Received) {
        HandlerAction::Resolve(lookup) => assert_eq!(lookup.address(), "example.com:443"),
        other => panic!("{:?}", other),
    }
    assert!(matches!(
        generate_pdf(&request("n", "http://8.8.8.8"), UrlInput::Received),
        HandlerAction::Generate
    ));
    let resolved = |addresses: Option<Vec<IpAddress>>| UrlInput::Resolved {
        lookup: Lookup { host: "example.com".to_string(), port: 443 },
        addresses,
    };
    assert!(matches!(generate_pdf(&req, resolved(None)), HandlerAction::Generate));
    assert!(matches!(
        generate_pdf(&req, resolved(Some(vec![IpAddress::V4([8, 8, 8, 8])]))),
        HandlerAction::Generate
    ));
    let r = reply(generate_pdf(&req, resolved(Some(vec![IpAddress::V4([127, 0, 0, 1])]))));
    assert_eq!(
        (r.status, error_of(&r)),
        (400, "Domain 'example.com' resolves to private IP address")
    );
}

#[test]
fn the_outcome_of_a_generation_is_passed_on() {
    let req = request("my file", "https://example.com");
    let r = reply(generate_pdf(&req, UrlInput::Generated(Ok(vec![1, 2, 3]))));
    assert_eq!(r.status, 200);
    assert_eq!(r.content_type, "application/pdf");
    assert_eq!(r.content_disposition.as_deref(), Some("inline; filename=\"my_file.pdf\""));
    assert!(matches!(r.body, ReplyBody::Pdf(ref data) if *data == vec![1, 2, 3]));
    let r = reply(generate_pdf(&req, UrlInput::Generated(Err("broken".to_string()))));
    assert_eq!((r.status, error_of(&r)), (500, "broken"));
}

#[test]
fn html_needs_no_lookup() {
    let html = |name: &str| HtmlPdfRequest {
        name: name.to_string(),
        html: "<p>x</p>".to_string(),
        options: None,
    };
    assert!(matches!(
        generate_pdf_from_html(&html("n"), HtmlInput::Received),
        HandlerAction::Generate
    ));
    let r = reply(generate_pdf_from_html(&html(""), HtmlInput::Received));
    assert_eq!((r.status, error_of(&r)), (400, "Name cannot be empty"));
    let r = reply(generate_pdf_from_html(&html("n"), HtmlInput::Generated(Ok(vec![9]))));
    assert_eq!(r.content_disposition.as_deref(), Some("inline; filename=\"n.pdf\""));
    let r = reply(generate_pdf_from_html(&html("n"), HtmlInput::Generated(Err("e".to_string()))));
    assert_eq!((r.status, error_of(&r)), (500, "e"));
}

#[test]
fn a_url_that_may_not_be_visited_is_answered_with_an_error_object() {
    let receive = |url: &str| receive_pdf_request("n".to_string(), url.to_string(), None);
    for (url, message) in [
        ("nonsense", "Invalid URL format"),
        ("http://192.168.0.1/", "Access to private networks is not allowed"),
        ("http://localhost/", "Access to localhost is not allowed"),
        ("http://192.0.0.192/", "Access to cloud metadata services is not allowed"),
    ] {
        let reply = receive(url).unwrap_err();
        assert_eq!(reply.status, 422);
        assert_eq!(error_of(&reply), message);
    }
    let request = receive("https://example.com/a").unwrap();
    assert_eq!((request.name.as_str(), request.url.as_str()), ("n", "https://example.com/a"));
    assert!(request.options.is_none());
}

#[test]
fn a_body_that_cannot_be_read_is_answered_with_an_error_object() {
    let reply = unreadable_body(422, "missing field `url`".to_string());
    assert_eq!(reply.status, 422);
    assert_eq!(error_of(&reply), "missing field `url`");
}

/// Handles a body from its reception on; gives the reply and whether anything was generated.
fn handle(
    name: &str,
    url: &str,
    addresses: Option<Vec<IpAddress>>,
    outcome: Result<Vec<u8>, String>,
) -> (Reply, bool) {
    let request = match receive_pdf_request(name.to_string(), url.to_string(), None) {
        Ok(request) => request,
        Err(reply) => return (reply, false),
    };
    let mut outcome = Some(outcome);
    let mut input = UrlInput::Received;
    loop {
        input = match generate_pdf(&request, input) {
            HandlerAction::Resolve(lookup) => {
                UrlInput::Resolved { lookup, addresses: addresses.clone() }
            }
            HandlerAction::Generate => UrlInput::Generated(outcome.take().unwrap()),
            HandlerAction::Respond(reply) => return (reply, outcome.is_none()),
        };
    }
}

#[test]
fn a_document_is_generated_only_after_every_check() {
    let public = Some(vec![IpAddress::V4([93, 184, 216, 34])]);
    let mixed = Some(vec![IpAddress::V4([93, 184, 216, 34]), IpAddress::V4([10, 0, 0, 1])]);
    let site = "https://example.com/";
    let pdf = || Ok(vec![1, 2]);

    for (url, addresses) in
        [(site, public.clone()), (site, None), ("http://93.184.216.34/", mixed.clone())]
    {
        let (reply, generated) = handle("doc", url, addresses, pdf());
        assert!(generated);
        assert_eq!(reply.status, 200);
        assert!(matches!(reply.body, ReplyBody::Pdf(ref data) if data == &[1, 2]));
    }

    let (reply, generated) = handle("doc", site, mixed, pdf());
    assert!(!generated);
    assert_eq!(reply.status, 400);
    assert_eq!(error_of(&reply), "Domain 'example.com' resolves to private IP address");

    let (reply, generated) = handle("", site, public.clone(), pdf());
    assert!(!generated);
    assert_eq!((reply.status, error_of(&reply)), (400, "Name cannot be empty"));

    let (reply, generated) = handle("", "http://10.0.0.1/", public.clone(), pdf());
    assert!(!generated);
    assert_eq!(
        (reply.status, error_of(&reply)),
        (422, "Access to private networks is not allowed")
    );

    let (reply, generated) = handle("doc", site, public, Err("broken".to_string()));
    assert!(generated);
    assert_eq!((reply.status, error_of(&reply)), (500, "broken"));
}
