//! The rules for requests.

use html_to_pdf_rust::models::{
    check_domain, check_url, lookup_of, validate_url, HtmlPdfRequest, Lookup, PdfMargin,
    PdfOptions, PdfRequest,
};
use html_to_pdf_rust::network::IpAddress;
use html_to_pdf_rust::url_parts::{UrlHost, UrlParts};

fn refusal(url: &str) -> String {
    validate_url(url.to_string()).unwrap_err()
}

fn request(name: &str, url: &str) -> PdfRequest {
    PdfRequest { name: name.to_string(), url: url.to_string(), options: None }
}

fn html_request(name: &str, html: String) -> HtmlPdfRequest {
    HtmlPdfRequest { name: name.to_string(), html, options: None }
}

fn parts(scheme: &str, host: Option<UrlHost>) -> Option<UrlParts> {
    Some(UrlParts { scheme: scheme.to_string(), host, host_str: None, port: None })
}

#[test]
fn each_kind_of_bad_url_has_its_message() {
    assert_eq!(refusal("not-a-url"), "Invalid URL format");
    assert_eq!(
        refusal("ftp://example.com/"),
        "Invalid URL scheme 'ftp'. Only 'http' and 'https' are allowed"
    );
    assert_eq!(refusal("http://10.0.0.1/"), "Access to private networks is not allowed");
    assert_eq!(refusal("http://[fe80::1]/"), "Access to private networks is not allowed");
    assert_eq!(refusal("http://localhost:8080/"), "Access to localhost is not allowed");
    assert_eq!(refusal("http://app.LocalHost/"), "Access to localhost is not allowed");
    assert_eq!(
        refusal("http://Metadata.Google.Internal/"),
        "Access to cloud metadata services is not allowed"
    );
}

#[test]
fn an_accepted_url_is_given_back_as_it_was() {
    for url in ["https://Example.COM/a b?q#f", "http://93.184.216.34:8080", "http://[2606:2800::1]/"]
    {
        assert_eq!(validate_url(url.to_string()).unwrap(), url);
    }
}

#[test]
fn addresses_in_other_notations_are_seen_through() {
    for url in ["http://2130706433/", "http://0x7f.1/", "http://0177.0.0.1/", "http://127.1/"] {
        assert_eq!(refusal(url), "Access to private networks is not allowed", "{}", url);
    }
}

#[test]
fn parsed_urls_are_judged_by_their_parts() {
    assert_eq!(check_url(&None).unwrap_err(), "Invalid URL format");
    assert_eq!(
        check_url(&parts("HTTP", None)).unwrap_err(),
        "Invalid URL scheme 'HTTP'. Only 'http' and 'https' are allowed"
    );
    assert_eq!(check_url(&parts("http", None)).unwrap_err(), "URL must have a valid host");
    let domain = |d: &str| Some(UrlHost::Domain(d.to_string()));
    assert!(check_url(&parts("http", domain("example.com"))).is_ok());
    assert_eq!(
        check_url(&parts("https", domain("LOCALHOST"))).unwrap_err(),
        "Access to localhost is not allowed"
    );
    assert!(check_url(&parts("https", Some(UrlHost::Ipv4([1, 1, 1, 1])))).is_ok());
    assert!(check_url(&parts("https", Some(UrlHost::Ipv4([0, 0, 0, 0])))).is_err());
    assert!(check_url(&parts("https", Some(UrlHost::Ipv6([0xfc00, 0, 0, 0, 0, 0, 0, 0])))).is_err());
}

#[test]
fn domains_are_judged_in_lower_case() {
    assert!(check_domain("example.com").is_ok());
    assert_eq!(check_domain("a.localhost").unwrap_err(), "Access to localhost is not allowed");
    assert_eq!(
        check_domain("a.internal").unwrap_err(),
        "Access to cloud metadata services is not allowed"
    );
}

#[test]
fn names_are_counted_in_characters() {
    let url = "https://1.1.1.1/";
    assert_eq!(request("", url).validate().unwrap_err(), "Name cannot be empty");
    let long = "Name too long (max 256 characters)";
    assert!(request(&"a".repeat(256), url).validate().is_ok());
    assert_eq!(request(&"a".repeat(257), url).validate().unwrap_err(), long);
    assert!(request(&"\u{e9}".repeat(256), url).validate().is_ok());
    assert_eq!(request(&"\u{e9}".repeat(257), url).validate().unwrap_err(), long);
}

#[test]
fn a_request_names_the_host_that_is_left_to_check() {
    let lookup = |url: &str| request("n", url).validate().unwrap().map(|l| l.address());
    assert_eq!(lookup("https://example.com/x"), Some("example.com:443".to_string()));
    assert_eq!(lookup("http://example.com/x"), Some("example.com:80".to_string()));
    assert_eq!(lookup("https://example.com:8443/x"), Some("example.com:8443".to_string()));
    assert_eq!(lookup("http://[2606:2800::1]/"), Some("[2606:2800::1]:80".to_string()));
    assert_eq!(lookup("http://8.8.8.8/"), None);
    assert_eq!(lookup("data:text/plain,x"), None);
    assert_eq!(lookup("foo://1.2.3.4/"), None);
    assert_eq!(request("n", "not-a-url").validate().unwrap_err(), "Invalid URL");
    assert_eq!(request("", "not-a-url").validate().unwrap_err(), "Name cannot be empty");
}

#[test]
fn the_lookup_follows_the_parts_of_the_url() {
    let url = |scheme: &str, host: Option<&str>, port: Option<u16>| UrlParts {
        scheme: scheme.to_string(),
        host: None,
        host_str: host.map(|h| h.to_string()),
        port,
    };
    assert!(lookup_of(&url("http", None, Some(1))).is_none());
    assert!(lookup_of(&url("http", Some("1.2.3.4"), None)).is_none());
    let lookup = lookup_of(&url("https", Some("a.example"), None)).unwrap();
    assert_eq!((lookup.host.as_str(), lookup.port), ("a.example", 443));
    let lookup = lookup_of(&url("http", Some("a.example"), Some(81))).unwrap();
    assert_eq!(lookup.address(), "a.example:81");
}

#[test]
fn one_private_address_is_enough_to_refuse_a_host() {
    let lookup = Lookup { host: "a.example".to_string(), port: 80 };
    let public = IpAddress::V4([93, 184, 216, 34]);
    let private = IpAddress::V6([0, 0, 0, 0, 0, 0, 0, 1]);
    assert!(lookup.validate_resolved_ips(&None).is_ok());
    assert!(lookup.validate_resolved_ips(&Some(vec![])).is_ok());
    assert!(lookup.validate_resolved_ips(&Some(vec![public, public])).is_ok());
    assert_eq!(
        lookup.validate_resolved_ips(&Some(vec![public, private])).unwrap_err(),
        "Domain 'a.example' resolves to private IP address"
    );
    assert!(lookup.validate_resolved_ips(&Some(vec![IpAddress::V4([10, 0, 0, 1])])).is_err());
}

#[test]
fn html_requests_are_limited_in_size() {
    let limit = 10 * 1024 * 1024;
    assert!(html_request("n", "<p>x</p>".to_string()).validate().is_ok());
    assert!(html_request("n", "a".repeat(limit)).validate().is_ok());
    let message = "HTML content too large (max 10 MB)";
    assert_eq!(html_request("n", "a".repeat(limit + 1)).validate().unwrap_err(), message);
    assert_eq!(html_request("n", "\u{e9}".repeat(limit / 2 + 1)).validate().unwrap_err(), message);
    assert_eq!(html_request("", "x".to_string()).validate().unwrap_err(), "Name cannot be empty");
    assert!(html_request(&"n".repeat(257), "x".to_string()).validate().is_err());
}

#[test]
fn options_have_defaults() {
    let options = PdfOptions::default();
    assert_eq!(options.format, "A4");
    assert!(options.print_background);
    assert!(options.margin.is_none());
    let margin = PdfMargin::default();
    assert!(margin.top.is_none() && margin.right.is_none());
    assert!(margin.bottom.is_none() && margin.left.is_none());
}

#[test]
fn a_request_keeps_what_it_was_made_of() {
    let made = PdfRequest::new(
        "n".to_string(),
        "https://example.com/".to_string(),
        Some(PdfOptions::default()),
    )
    .unwrap();
    assert_eq!(made.name, "n");
    assert_eq!(made.url, "https://example.com/");
    assert_eq!(made.options.unwrap().format, "A4");
}

#[test]
fn metadata_services_are_refused_by_address_too() {
    let metadata = "Access to cloud metadata services is not allowed";
    for url in [
        "http://100.100.100.200/",
        "https://100.100.100.200/latest/meta-data",
        "http://192.0.0.192/",
        "http://192.0.0.192:8080/opc/v2/",
        "http://0x64.100.100.200/",
        "http://3221225664/",
    ] {
        assert_eq!(refusal(url), metadata, "{}", url);
    }
    assert_eq!(refusal("http://169.254.169.254/"), "Access to private networks is not allowed");
    assert_eq!(
        check_url(&parts("http", Some(UrlHost::Ipv4([100, 100, 100, 200])))).unwrap_err(),
        metadata
    );
    for url in ["http://100.100.100.201/", "http://192.0.0.191/", "http://100.100.200.100/"] {
        assert_eq!(validate_url(url.to_string()).unwrap(), url);
    }
}
