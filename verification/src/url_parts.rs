//! The parts of a URL that decide whether it may be visited.

use vstd::prelude::*;

#[allow(unused_imports)]
use crate::network::{dotted_text, ipv4_text};

verus! {

/// The host of a URL.
#[derive(Debug)]
pub enum UrlHost {
    Domain(String),
    Ipv4([u8; 4]),
    Ipv6([u16; 8]),
}

/// A URL, as far as it is looked at. `host_str` is the host as the URL writes it; `port` is a port
/// that is not the usual one of the scheme.
#[derive(Debug)]
pub struct UrlParts {
    pub scheme: String,
    pub host: Option<UrlHost>,
    pub host_str: Option<String>,
    pub port: Option<u16>,
}

/// A host as a value.
pub enum HostView {
    Domain(Seq<char>),
    Ipv4([u8; 4]),
    Ipv6([u16; 8]),
}

/// The parts of a URL as a value.
pub struct UrlView {
    pub scheme: Seq<char>,
    pub host: Option<HostView>,
    pub host_str: Option<Seq<char>>,
    pub port: Option<u16>,
}

impl View for UrlHost {
    type V = HostView;

    open spec fn view(&self) -> HostView {
        match *self {
            UrlHost::Domain(domain) => HostView::Domain(domain@),
            UrlHost::Ipv4(octets) => HostView::Ipv4(octets),
            UrlHost::Ipv6(segments) => HostView::Ipv6(segments),
        }
    }
}

impl View for UrlParts {
    type V = UrlView;

    open spec fn view(&self) -> UrlView {
        UrlView {
            scheme: self.scheme@,
            host: match self.host {
                Some(host) => Some(host@),
                None => None,
            },
            host_str: match self.host_str {
                Some(host) => Some(host@),
                None => None,
            },
            port: self.port,
        }
    }
}

pub open spec fn url_view(parts: Option<UrlParts>) -> Option<UrlView> {
    match parts {
        Some(parts) => Some(parts@),
        None => None,
    }
}

/// The schemes whose pages may be visited.
pub open spec fn is_web_scheme(scheme: Seq<char>) -> bool {
    scheme == "http"@ || scheme == "https"@
}

/// The host and its text belong together: a name is its own text, is ASCII and is no IPv4 address;
/// an IPv4 address is written in dotted decimal notation, an IPv6 address in brackets.
pub open spec fn host_agrees(url: UrlView) -> bool {
    match url.host {
        None => url.host_str is None,
        Some(HostView::Domain(domain)) => {
            &&& url.host_str == Some(domain)
            &&& vstd::utf8::is_ascii_chars(domain)
            &&& !ipv4_text(domain)
        },
        Some(HostView::Ipv4(ip)) => url.host_str == Some(dotted_text(ip)),
        Some(HostView::Ipv6(_)) => {
            &&& url.host_str matches Some(text)
            &&& text.len() > 0
            &&& text[0] == '['
        },
    }
}

/// What `url::Url::parse` makes of a text: the parts of the URL, none where it is no URL.
pub uninterp spec fn parsed_url(text: Seq<char>) -> Option<UrlView>;

/// Calls `url::Url::parse` and reads the scheme, the host, the host's text and the port off the
/// URL by `scheme`, `host`, `host_str` and `port`. Which texts are URLs and what their parts are
/// is the URL standard's business: the result is named, as a function of the text alone. Of the
/// host of an `http` or `https` URL it is claimed that its two forms agree: the parser turns a
/// name into ASCII, takes one whose last label is a number for an IPv4 address or refuses it, and
/// writes the host into the URL as its `Display` gives it.
#[verifier::external_body]
pub(crate) fn parse_url(text: &str) -> (r: Option<UrlParts>)
    ensures
        url_view(r) == parsed_url(text@),
        r matches Some(url) ==> is_web_scheme(url.scheme@) ==> host_agrees(url@),
{
    let url = url::Url::parse(text).ok()?;
    let host = match url.host() {
        Some(url::Host::Domain(domain)) => Some(UrlHost::Domain(domain.to_owned())),
        Some(url::Host::Ipv4(ip)) => Some(UrlHost::Ipv4(ip.octets())),
        Some(url::Host::Ipv6(ip)) => Some(UrlHost::Ipv6(ip.segments())),
        None => None,
    };
    let host_str = url.host_str().map(|host| host.to_owned());
    Some(UrlParts { scheme: url.scheme().to_owned(), host, host_str, port: url.port() })
}

/// The parts of a URL seen from outside are its own: a name by its text, an address by its numbers,
/// the port as it is.
pub proof fn law_url_view(url: UrlParts, host: UrlHost)
    ensures
        url@.scheme == url.scheme@,
        url@.port == url.port,
        url.host is None <==> url@.host is None,
        url.host matches Some(h) ==> url@.host == Some(h@),
        url.host_str is None <==> url@.host_str is None,
        url.host_str matches Some(s) ==> url@.host_str == Some(s@),
        host matches UrlHost::Domain(name) ==> host@ == HostView::Domain(name@),
        host matches UrlHost::Ipv4(octets) ==> host@ == HostView::Ipv4(octets),
        host matches UrlHost::Ipv6(segments) ==> host@ == HostView::Ipv6(segments),
        url_view(Some(url)) == Some(url@),
        url_view(None) is None,
{
}

/// Pages are visited by `http` and `https` alone: a scheme is one of these if and only if it is the
/// four letters of the one, with or without an `s` behind them.
pub proof fn law_web_scheme(scheme: Seq<char>)
    ensures
        is_web_scheme(scheme) <==> scheme == seq!['h', 't', 't', 'p'] || scheme == seq![
            'h',
            't',
            't',
            'p',
            's',
        ],
{
    reveal_strlit("http");
    reveal_strlit("https");
    assert("http"@ =~= seq!['h', 't', 't', 'p']);
    assert("https"@ =~= seq!['h', 't', 't', 'p', 's']);
}

} // verus!
