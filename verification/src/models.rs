//! The requests that the service takes and the rules that they are held to.

use vstd::prelude::*;

use crate::network::{
    is_cloud_metadata_domain, is_ipv4_text, is_localhost_domain, is_metadata_ipv4,
    is_private_address, is_private_ipv4, is_private_ipv6, IpAddress,
};
#[allow(unused_imports)]
use crate::network::{
    cloud_metadata_domain, dotted_text, ipv4_text, localhost_domain, metadata_ipv4, private_address,
    private_ipv4, private_ipv6,
};
use crate::text::{chars_of, decimal, same_text, to_lowercase};
#[allow(unused_imports)]
use crate::text::{ascii_lower, decimal_text, lowercase_text, text_opt};
use crate::url_parts::{parse_url, UrlHost, UrlParts};
#[allow(unused_imports)]
use crate::url_parts::{host_agrees, is_web_scheme, parsed_url, url_view, HostView, UrlView};

verus! {

/// A name has at most this many characters.
pub const MAX_NAME_CHARS: usize = 256;

/// An HTML document has at most this many bytes, ten megabytes.
pub const MAX_HTML_BYTES: usize = 10_485_760;

/// Page margins, each a number with an optional unit.
#[derive(Clone, Debug)]
pub struct PdfMargin {
    pub top: Option<String>,
    pub right: Option<String>,
    pub bottom: Option<String>,
    pub left: Option<String>,
}

/// How a document is laid out.
#[derive(Clone, Debug)]
pub struct PdfOptions {
    pub format: String,
    pub print_background: bool,
    pub margin: Option<PdfMargin>,
}

/// A request for a web page as a document.
#[derive(Debug)]
pub struct PdfRequest {
    pub name: String,
    pub url: String,
    pub options: Option<PdfOptions>,
}

/// A request for raw HTML as a document.
#[derive(Debug)]
pub struct HtmlPdfRequest {
    pub name: String,
    pub html: String,
    pub options: Option<PdfOptions>,
}

/// The body of an error reply.
#[derive(Debug)]
pub struct ErrorResponse {
    pub error: String,
}

/// A host whose addresses are still to be checked, and the port that it is asked for.
#[derive(Debug)]
pub struct Lookup {
    pub host: String,
    pub port: u16,
}

impl Default for PdfMargin {
    /// No margins.
    fn default() -> (r: PdfMargin)
        ensures
            r.top is None && r.right is None && r.bottom is None && r.left is None,
    {
        PdfMargin { top: None, right: None, bottom: None, left: None }
    }
}

impl Default for PdfOptions {
    /// A4, with backgrounds, without margins.
    fn default() -> (r: PdfOptions)
        ensures
            r.format@ == "A4"@,
            r.print_background,
            r.margin is None,
    {
        PdfOptions { format: "A4".to_owned(), print_background: true, margin: None }
    }
}

// ---------------------------------------------------------------------------
// URLs
// ---------------------------------------------------------------------------

/// What is wrong with a domain name, given in lower case.
pub open spec fn domain_problem(lower: Seq<char>) -> Option<Seq<char>> {
    if localhost_domain(lower) {
        Some("Access to localhost is not allowed"@)
    } else if cloud_metadata_domain(lower) {
        Some("Access to cloud metadata services is not allowed"@)
    } else {
        None
    }
}

/// What is wrong with a host; `lower` is its name in lower case.
pub open spec fn host_problem(host: HostView, lower: Seq<char>) -> Option<Seq<char>> {
    match host {
        HostView::Ipv4(ip) => if private_ipv4(ip) {
            Some("Access to private networks is not allowed"@)
        } else if metadata_ipv4(ip) {
            Some("Access to cloud metadata services is not allowed"@)
        } else {
            None
        },
        HostView::Ipv6(ip) => if private_ipv6(ip) {
            Some("Access to private networks is not allowed"@)
        } else {
            None
        },
        HostView::Domain(_) => domain_problem(lower),
    }
}

/// The name of a host, where it has one.
pub open spec fn host_name(url: Option<UrlView>) -> Seq<char> {
    match url {
        Some(UrlView { host: Some(HostView::Domain(domain)), .. }) => domain,
        _ => Seq::empty(),
    }
}

/// What is wrong with a URL, none where it may be visited; `lower` is the name of its host in
/// lower case.
pub open spec fn url_problem(url: Option<UrlView>, lower: Seq<char>) -> Option<Seq<char>> {
    match url {
        None => Some("Invalid URL format"@),
        Some(url) => if !is_web_scheme(url.scheme) {
            Some(
                "Invalid URL scheme '"@ + url.scheme
                    + "'. Only 'http' and 'https' are allowed"@,
            )
        } else {
            match url.host {
                None => Some("URL must have a valid host"@),
                Some(host) => host_problem(host, lower),
            }
        },
    }
}

/// The outcome of a check that found this problem.
pub open spec fn reports(r: Result<(), String>, problem: Option<Seq<char>>) -> bool {
    match r {
        Ok(_) => problem is None,
        Err(message) => problem == Some(message@),
    }
}

/// Checks a domain name that is given in lower case.
pub fn check_domain(lower: &str) -> (r: Result<(), String>)
    ensures
        reports(r, domain_problem(lower@)),
{
    if is_localhost_domain(lower) {
        return Err("Access to localhost is not allowed".to_owned());
    }
    if is_cloud_metadata_domain(lower) {
        return Err("Access to cloud metadata services is not allowed".to_owned());
    }
    Ok(())
}

/// Checks a parsed URL: it may be visited if it is an `http` or `https` URL with a host that is
/// neither a private address, nor an internal name, nor a cloud metadata service.
pub fn check_url(url: &Option<UrlParts>) -> (r: Result<(), String>)
    ensures
        reports(r, url_problem(url_view(*url), lowercase_text(host_name(url_view(*url))))),
        vstd::utf8::is_ascii_chars(host_name(url_view(*url))) ==> reports(
            r,
            url_problem(
                url_view(*url),
                host_name(url_view(*url)).map_values(|c: char| ascii_lower(c)),
            ),
        ),
{
    let url = match url {
        Some(url) => url,
        None => {
            return Err("Invalid URL format".to_owned());
        },
    };
    if !same_text(url.scheme.as_str(), "http") && !same_text(url.scheme.as_str(), "https") {
        let mut message = "Invalid URL scheme '".to_owned();
        message.append(url.scheme.as_str());
        message.append("'. Only 'http' and 'https' are allowed");
        return Err(message);
    }
    match &url.host {
        Some(UrlHost::Ipv4(ip)) => {
            if is_private_ipv4(*ip) {
                return Err("Access to private networks is not allowed".to_owned());
            }
            if is_metadata_ipv4(*ip) {
                return Err("Access to cloud metadata services is not allowed".to_owned());
            }
        },
        Some(UrlHost::Ipv6(ip)) => {
            if is_private_ipv6(*ip) {
                return Err("Access to private networks is not allowed".to_owned());
            }
        },
        Some(UrlHost::Domain(domain)) => {
            let domain_lower = to_lowercase(domain.as_str());
            return check_domain(domain_lower.as_str());
        },
        None => {
            return Err("URL must have a valid host".to_owned());
        },
    }
    Ok(())
}

/// The name of a host with its ASCII letters in lower case.
pub open spec fn lower_name(url: Option<UrlView>) -> Seq<char> {
    host_name(url).map_values(|c: char| ascii_lower(c))
}

/// What is wrong with the URL that a text gives.
pub open spec fn url_text_problem(text: Seq<char>) -> Option<Seq<char>> {
    url_problem(parsed_url(text), lower_name(parsed_url(text)))
}

/// The URL itself where it may be visited, else what is wrong with it.
pub fn validate_url(url_str: String) -> (r: Result<String, String>)
    ensures
        match r {
            Ok(accepted) => {
                &&& accepted@ == url_str@
                &&& url_text_problem(url_str@) is None
                &&& parsed_url(url_str@) matches Some(url)
                &&& host_agrees(url)
            },
            Err(message) => url_text_problem(url_str@) == Some(message@),
        },
{
    let url = parse_url(url_str.as_str());
    match check_url(&url) {
        Ok(_) => Ok(url_str),
        Err(message) => Err(message),
    }
}

// ---------------------------------------------------------------------------
// Requests
// ---------------------------------------------------------------------------

/// What is wrong with the name of a document.
pub open spec fn name_problem(name: Seq<char>) -> Option<Seq<char>> {
    if name.len() == 0 {
        Some("Name cannot be empty"@)
    } else if name.len() > MAX_NAME_CHARS {
        Some("Name too long (max 256 characters)"@)
    } else {
        None
    }
}

fn check_name(name: &str) -> (r: Result<(), String>)
    ensures
        reports(r, name_problem(name@)),
{
    if name.is_empty() {
        return Err("Name cannot be empty".to_owned());
    }
    if chars_of(name).len() > MAX_NAME_CHARS {
        return Err("Name too long (max 256 characters)".to_owned());
    }
    Ok(())
}

/// The host whose addresses are to be checked, and its port: none for a URL without a host and
/// for one whose host is an IPv4 address already.
pub open spec fn lookup_target(url: UrlView) -> Option<(Seq<char>, u16)> {
    match url.host_str {
        None => None,
        Some(host) => if ipv4_text(host) {
            None
        } else {
            Some(
                (
                    host,
                    match url.port {
                        Some(port) => port,
                        None => if url.scheme == "https"@ {
                            443
                        } else {
                            80
                        },
                    },
                ),
            )
        },
    }
}

/// The lookup asks for the target.
pub open spec fn looks_up(lookup: Option<Lookup>, target: Option<(Seq<char>, u16)>) -> bool {
    match lookup {
        None => target is None,
        Some(lookup) => target == Some((lookup.host@, lookup.port)),
    }
}

/// The host of a parsed URL that is to be resolved. No host is a bare IPv6 address: a URL writes
/// one in brackets, and a lookup of it gives back the address.
pub fn lookup_of(url: &UrlParts) -> (r: Option<Lookup>)
    ensures
        looks_up(r, lookup_target(url@)),
{
    if let Some(host) = &url.host_str {
        if is_ipv4_text(host.as_str()) {
            return None;
        }
        let port: u16 = match url.port {
            Some(port) => port,
            None => if same_text(url.scheme.as_str(), "https") {
                443
            } else {
                80
            },
        };
        return Some(Lookup { host: host.clone(), port });
    }
    None
}

/// Some address is off limits.
pub open spec fn any_private(addresses: Seq<IpAddress>) -> bool {
    exists|i: int| 0 <= i < addresses.len() && private_address(#[trigger] addresses[i])
}

/// The addresses of a host, if it was resolved.
pub open spec fn address_seq(resolved: Option<Vec<IpAddress>>) -> Option<Seq<IpAddress>> {
    match resolved {
        Some(addresses) => Some(addresses@),
        None => None,
    }
}

/// What is wrong with the addresses of a host. Where it could not be resolved, nothing is: the
/// browser will find that out.
pub open spec fn resolution_problem(
    host: Seq<char>,
    resolved: Option<Seq<IpAddress>>,
) -> Option<Seq<char>> {
    match resolved {
        Some(addresses) => if any_private(addresses) {
            Some("Domain '"@ + host + "' resolves to private IP address"@)
        } else {
            None
        },
        None => None,
    }
}

impl Lookup {
    /// The address to resolve, as text.
    pub open spec fn address_text(self) -> Seq<char> {
        self.host@ + ":"@ + decimal_text(self.port as nat)
    }

    /// The address to resolve: host and port.
    pub fn address(&self) -> (r: String)
        ensures
            r@ == self.host@ + ":"@ + decimal_text(self.port as nat),
            r@ == self.address_text(),
    {
        let mut r = self.host.clone();
        r.append(":");
        r.append(decimal(self.port as u128).as_str());
        r
    }

    /// Checks every address that the host was resolved to.
    pub fn validate_resolved_ips(&self, resolved: &Option<Vec<IpAddress>>) -> (r: Result<
        (),
        String,
    >)
        ensures
            reports(r, resolution_problem(self.host@, address_seq(*resolved))),
    {
        if let Some(addresses) = resolved {
            let mut i: usize = 0;
            while i < addresses.len()
                invariant
                    i <= addresses@.len(),
                    *resolved == Some(*addresses),
                    forall|j: int| 0 <= j < i ==> !private_address(#[trigger] addresses@[j]),
                decreases addresses@.len() - i,
            {
                if is_private_address(&addresses[i]) {
                    let mut message = "Domain '".to_owned();
                    message.append(self.host.as_str());
                    message.append("' resolves to private IP address");
                    return Err(message);
                }
                i += 1;
            }
        }
        Ok(())
    }
}

impl PdfRequest {
    /// A request as it is received: the URL has to be one that may be visited.
    pub fn new(name: String, url: String, options: Option<PdfOptions>) -> (r: Result<Self, String>)
        ensures
            match r {
                Ok(request) => {
                    &&& url_text_problem(url@) is None
                    &&& request.name == name
                    &&& request.url@ == url@
                    &&& request.options == options
                    &&& parsed_url(url@) matches Some(parsed)
                    &&& host_agrees(parsed)
                },
                Err(message) => url_text_problem(url@) == Some(message@),
            },
    {
        match validate_url(url) {
            Ok(url) => Ok(PdfRequest { name, url, options }),
            Err(message) => Err(message),
        }
    }

    /// Checks the name and that the URL is one. What is left to check is the host that is given
    /// back, if any: its addresses are looked up and handed to `Lookup::validate_resolved_ips`.
    pub fn validate(&self) -> (r: Result<Option<Lookup>, String>)
        ensures
            match r {
                Ok(lookup) => {
                    &&& name_problem(self.name@) is None
                    &&& parsed_url(self.url@) matches Some(url)
                    &&& looks_up(lookup, lookup_target(url))
                },
                Err(message) => {
                    ||| name_problem(self.name@) == Some(message@)
                    ||| {
                        &&& name_problem(self.name@) is None
                        &&& parsed_url(self.url@) is None
                        &&& message@ == "Invalid URL"@
                    }
                },
            },
    {
        match check_name(self.name.as_str()) {
            Ok(_) => {},
            Err(message) => {
                return Err(message);
            },
        }
        match parse_url(self.url.as_str()) {
            Some(url) => Ok(lookup_of(&url)),
            None => Err("Invalid URL".to_owned()),
        }
    }
}

/// What is wrong with a request for raw HTML.
pub open spec fn html_problem(name: Seq<char>, html: Seq<char>) -> Option<Seq<char>> {
    if name_problem(name) is Some {
        name_problem(name)
    } else if vstd::utf8::encode_utf8(html).len() > MAX_HTML_BYTES {
        Some("HTML content too large (max 10 MB)"@)
    } else {
        None
    }
}

impl HtmlPdfRequest {
    /// Checks the name and the size of the document.
    pub fn validate(&self) -> (r: Result<(), String>)
        ensures
            reports(r, html_problem(self.name@, self.html@)),
    {
        match check_name(self.name.as_str()) {
            Ok(_) => {},
            Err(message) => {
                return Err(message);
            },
        }
        if self.html.as_str().as_bytes().len() > MAX_HTML_BYTES {
            return Err("HTML content too large (max 10 MB)".to_owned());
        }
        Ok(())
    }
}

// ---------------------------------------------------------------------------
// Laws
// ---------------------------------------------------------------------------

/// A URL is accepted if and only if its scheme is `http` or `https` and it has a host that is a
/// public address or a name other than this machine's, and that is no cloud metadata service.
pub proof fn law_accepted_url(url: UrlView, lower: Seq<char>)
    ensures
        url_problem(Some(url), lower) is None <==> {
            &&& is_web_scheme(url.scheme)
            &&& match url.host {
                Some(HostView::Ipv4(ip)) => !private_ipv4(ip) && !metadata_ipv4(ip),
                Some(HostView::Ipv6(ip)) => !private_ipv6(ip),
                Some(HostView::Domain(_)) => {
                    &&& !localhost_domain(lower)
                    &&& !cloud_metadata_domain(lower)
                },
                None => false,
            }
        },
        url_problem(None, lower) is Some,
{
}

/// No host of an accepted URL goes unchecked: where nothing is left to look up, the host is a
/// public IPv4 address and no cloud metadata service, and otherwise what is looked up is the very host of the URL.
pub proof fn law_every_host_checked(url: UrlView, lower: Seq<char>)
    requires
        host_agrees(url),
    ensures
        url_problem(Some(url), lower) is None ==> match lookup_target(url) {
            None => url.host matches Some(HostView::Ipv4(ip)) && !private_ipv4(ip)
                && !metadata_ipv4(ip),
            Some((host, _)) => {
                &&& url.host_str == Some(host)
                &&& !(url.host matches Some(HostView::Ipv4(_)))
            },
        },
{
    if let Some(HostView::Ipv4(ip)) = url.host {
        crate::network::law_dotted_text(ip);
    }
    if let Some(HostView::Ipv6(_)) = url.host {
        let text = url.host_str->0;
        lemma_bracketed(text);
    }
}

proof fn lemma_bracketed(text: Seq<char>)
    requires
        text.len() > 0,
        text[0] == '[',
    ensures
        !ipv4_text(text),
{
    crate::text::lemma_first_piece(text, '.');
}

/// Every name below `localhost` and below `internal` is refused, and every name that begins with
/// the label `metadata`, whatever stands in the place of the rest.
pub proof fn law_internal_names(rest: Seq<char>)
    ensures
        localhost_domain(rest + ".localhost"@),
        domain_problem(rest + ".localhost"@) is Some,
        domain_problem(rest + ".internal"@) is Some,
        domain_problem("metadata."@ + rest) is Some,
{
    let a = rest + ".localhost"@;
    assert(a.subrange(a.len() - ".localhost"@.len(), a.len() as int) =~= ".localhost"@);
    let b = rest + ".internal"@;
    assert(b.subrange(b.len() - ".internal"@.len(), b.len() as int) =~= ".internal"@);
    let c = "metadata."@ + rest;
    assert(c.subrange(0, "metadata."@.len() as int) =~= "metadata."@);
}

/// A metadata service is refused by its address as it is by the text of that address: an IPv4
/// address whose dotted notation is on the list of names is an address that is refused.
pub proof fn law_metadata_addresses(ip: [u8; 4], lower: Seq<char>)
    ensures
        cloud_metadata_domain(dotted_text(ip)) || localhost_domain(dotted_text(ip))
            ==> host_problem(HostView::Ipv4(ip), lower) is Some,
{
    if cloud_metadata_domain(dotted_text(ip)) || localhost_domain(dotted_text(ip)) {
        crate::network::law_listed_addresses(ip);
    }
}

/// Which text of a URL is refused and why: one that is no URL; one of another scheme than `http` and
/// `https`, with the scheme; one without a host; one whose host is a private address, a metadata
/// service's address, or a name, in whatever case, of this machine or of a metadata service. Every
/// other URL is accepted.
pub proof fn law_url_refusals(text: Seq<char>)
    ensures
        parsed_url(text) is None ==> url_text_problem(text) == Some("Invalid URL format"@),
        parsed_url(text) matches Some(u) ==> {
            let web = u.scheme == "http"@ || u.scheme == "https"@;
            &&& !web ==> url_text_problem(text) == Some(
                "Invalid URL scheme '"@ + (u.scheme
                    + "'. Only 'http' and 'https' are allowed"@),
            )
            &&& web && u.host is None ==> url_text_problem(text) == Some(
                "URL must have a valid host"@,
            )
            &&& web ==> (u.host matches Some(HostView::Ipv4(ip)) ==> {
                &&& private_ipv4(ip) ==> url_text_problem(text) == Some(
                    "Access to private networks is not allowed"@,
                )
                &&& !private_ipv4(ip) && metadata_ipv4(ip) ==> url_text_problem(text) == Some(
                    "Access to cloud metadata services is not allowed"@,
                )
                &&& !private_ipv4(ip) && !metadata_ipv4(ip) ==> url_text_problem(text) is None
            })
            &&& web ==> (u.host matches Some(HostView::Ipv6(ip)) ==> {
                &&& private_ipv6(ip) ==> url_text_problem(text) == Some(
                    "Access to private networks is not allowed"@,
                )
                &&& !private_ipv6(ip) ==> url_text_problem(text) is None
            })
            &&& web ==> (u.host matches Some(HostView::Domain(name)) ==> {
                let lower = name.map_values(|c: char| ascii_lower(c));
                &&& localhost_domain(lower) ==> url_text_problem(text) == Some(
                    "Access to localhost is not allowed"@,
                )
                &&& !localhost_domain(lower) && cloud_metadata_domain(lower) ==> url_text_problem(
                    text,
                ) == Some("Access to cloud metadata services is not allowed"@)
                &&& !localhost_domain(lower) && !cloud_metadata_domain(lower) ==> url_text_problem(
                    text,
                ) is None
            })
        },
{
    if let Some(u) = parsed_url(text) {
        assert("Invalid URL scheme '"@ + u.scheme + "'. Only 'http' and 'https' are allowed"@
            =~= "Invalid URL scheme '"@ + (u.scheme + "'. Only 'http' and 'https' are allowed"@));
    }
}

/// A parsed URL is judged by its name in lower case, of which a host that has none has an empty
/// one, and the scheme, the host and nothing else of it.
pub proof fn law_url_problem_parts(a: UrlView, b: UrlView, lower: Seq<char>)
    requires
        a.scheme == b.scheme,
        a.host == b.host,
    ensures
        url_problem(Some(a), lower) == url_problem(Some(b), lower),
        host_name(Some(a)) == host_name(Some(b)),
        a.host matches Some(HostView::Domain(name)) ==> host_name(Some(a)) == name,
        !(a.host matches Some(HostView::Domain(_))) ==> host_name(Some(a)).len() == 0,
        host_name(None).len() == 0,
{
}

/// A check reports a problem by its message and nothing else as one.
pub proof fn law_reports(r: Result<(), String>, problem: Option<Seq<char>>)
    ensures
        reports(r, problem) ==> (r is Ok <==> problem is None),
        reports(r, problem) ==> (r matches Err(message) ==> problem == Some(message@)),
{
}

/// A name is in order if and only if it has from one to 256 characters, whatever they are, and
/// what is said of it depends on its length alone.
pub proof fn law_name_length(name: Seq<char>, other: Seq<char>)
    ensures
        name_problem(name) is None <==> 1 <= name.len() <= 256,
        name.len() == 0 ==> name_problem(name) == Some("Name cannot be empty"@),
        name.len() > 256 ==> name_problem(name) == Some("Name too long (max 256 characters)"@),
        name.len() == other.len() ==> name_problem(name) == name_problem(other),
{
}

/// Raw HTML is in order if and only if it has at most 10485760 bytes, and the name comes first: what
/// is wrong with that is told whatever the HTML is.
pub proof fn law_html_size(name: Seq<char>, html: Seq<char>)
    ensures
        name_problem(name) is Some ==> html_problem(name, html) == name_problem(name),
        name_problem(name) is None ==> (html_problem(name, html) is None
            <==> vstd::utf8::encode_utf8(html).len() <= 10_485_760),
        name_problem(name) is None && vstd::utf8::encode_utf8(html).len() > 10_485_760
            ==> html_problem(name, html) == Some("HTML content too large (max 10 MB)"@),
{
}

/// What is looked up is the host as the URL writes it, unless there is none or it is an IPv4
/// address, at the port of the URL, and without one at 443 for `https` and at 80 for the rest.
pub proof fn law_lookup_target(url: UrlView, lookup: Lookup)
    ensures
        lookup_target(url) is None <==> (url.host_str is None || (url.host_str matches Some(h)
            && ipv4_text(h))),
        lookup_target(url) matches Some((host, port)) ==> {
            &&& url.host_str == Some(host)
            &&& url.port matches Some(p) ==> port == p
            &&& url.port is None && url.scheme == "https"@ ==> port == 443
            &&& url.port is None && url.scheme != "https"@ ==> port == 80
        },
        looks_up(Some(lookup), lookup_target(url)) <==> lookup_target(url) == Some(
            (lookup.host@, lookup.port),
        ),
        looks_up(None, lookup_target(url)) <==> lookup_target(url) is None,
{
}

/// A host is refused for its addresses if and only if one of them is off limits, whichever it is
/// and however many there are; one that could not be resolved is not.
pub proof fn law_resolved_addresses(host: Seq<char>, resolved: Option<Vec<IpAddress>>)
    ensures
        resolved is None ==> resolution_problem(host, address_seq(resolved)) is None,
        resolved matches Some(v) ==> {
            &&& resolution_problem(host, address_seq(resolved)) is Some <==> exists|i: int|
                0 <= i < v@.len() && private_address(#[trigger] v@[i])
            &&& resolution_problem(host, address_seq(resolved)) matches Some(message) ==> message
                == "Domain '"@ + (host + "' resolves to private IP address"@)
        },
{
    assert("Domain '"@ + host + "' resolves to private IP address"@ =~= "Domain '"@ + (host
        + "' resolves to private IP address"@));
}

/// The address that is resolved is the host as it is, and behind its colon the port can be read
/// back.
pub proof fn law_lookup_address(lookup: Lookup)
    ensures
        ({
            let (text, n) = (lookup.address_text(), lookup.host@.len() as int);
            &&& text.len() > n + 1
            &&& text.take(n) == lookup.host@
            &&& text[n] == ':'
            &&& crate::text::parsed_number(text.skip(n + 1), 65535) == Some(lookup.port as nat)
        }),
{
    reveal_strlit(":");
    let (text, n) = (lookup.address_text(), lookup.host@.len() as int);
    crate::text::law_decimal(lookup.port as nat, 65535);
    crate::text::lemma_decimal_digits(lookup.port as nat);
    assert(text.take(n) =~= lookup.host@);
    assert(text.skip(n + 1) =~= decimal_text(lookup.port as nat));
}

/// One address more never makes a refused host acceptable.
pub proof fn law_more_addresses(host: Seq<char>, some: Seq<IpAddress>, more: Seq<IpAddress>)
    ensures
        resolution_problem(host, Some(some + more)) is Some <==> resolution_problem(
            host,
            Some(some),
        ) is Some || resolution_problem(host, Some(more)) is Some,
{
    let all = some + more;
    if any_private(some) {
        let i = choose|i: int| 0 <= i < some.len() && private_address(#[trigger] some[i]);
        assert(all[i] == some[i]);
    }
    if any_private(more) {
        let i = choose|i: int| 0 <= i < more.len() && private_address(#[trigger] more[i]);
        assert(all[some.len() + i] == more[i]);
    }
    if any_private(all) {
        let i = choose|i: int| 0 <= i < all.len() && private_address(#[trigger] all[i]);
        if i < some.len() {
            assert(some[i] == all[i]);
        } else {
            assert(more[i - some.len()] == all[i]);
        }
    }
}

} // verus!
