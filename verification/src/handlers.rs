//! The request handlers: from a request to a reply, by way of the work that happens outside.

use vstd::prelude::*;

use crate::models::{ErrorResponse, HtmlPdfRequest, Lookup, PdfOptions, PdfRequest};
#[allow(unused_imports)]
use crate::models::{
    address_seq, any_private, html_problem, lookup_target, name_problem, resolution_problem,
    url_text_problem,
};
use crate::network::IpAddress;
use crate::text::{chars_of, replace_char, string_of};
#[allow(unused_imports)]
use crate::text::char_replaced;
#[allow(unused_imports)]
use crate::url_parts::{host_agrees, parsed_url};

verus! {

/// A file name has at most this many characters, its ending not counted.
pub const MAX_FILENAME_CHARS: usize = 50;

pub const STATUS_OK: u16 = 200;

pub const STATUS_BAD_REQUEST: u16 = 400;

pub const STATUS_UNPROCESSABLE_ENTITY: u16 = 422;

pub const STATUS_INTERNAL_SERVER_ERROR: u16 = 500;

// ---------------------------------------------------------------------------
// File names
// ---------------------------------------------------------------------------

/// The characters that a file name may hold: ASCII letters and digits, dot, underscore, hyphen.
pub open spec fn is_filename_char(c: char) -> bool {
    ||| 'a' <= c <= 'z'
    ||| 'A' <= c <= 'Z'
    ||| '0' <= c <= '9'
    ||| c == '.'
    ||| c == '_'
    ||| c == '-'
}

/// The name with an underscore in place of each character that a file name may not hold.
pub open spec fn replaced_name(name: Seq<char>) -> Seq<char> {
    name.map_values(
        |c: char|
            if is_filename_char(c) {
                c
            } else {
                '_'
            },
    )
}

pub open spec fn only_underscores(s: Seq<char>) -> bool {
    forall|i: int| 0 <= i < s.len() ==> #[trigger] s[i] == '_'
}

/// The first fifty characters, or `document` where they say nothing.
pub open spec fn finished_name(replaced: Seq<char>) -> Seq<char> {
    let cut = if replaced.len() > MAX_FILENAME_CHARS {
        replaced.take(MAX_FILENAME_CHARS as int)
    } else {
        replaced
    };
    if only_underscores(cut) {
        "document"@
    } else {
        cut
    }
}

/// The file name that a document's name is made into.
pub open spec fn safe_filename(name: Seq<char>) -> Seq<char> {
    finished_name(replaced_name(name))
}

/// Calls `regex::Regex::new` and `regex::Regex::replace_all`, which puts the replacement in place
/// of every match of the pattern; none is given where the pattern is no expression. The result is
/// spelled out for the one pattern in use, the class of all characters but those of a file name:
/// each match is a single such character, and a replacement without a dollar sign is taken as it
/// stands. Of other patterns and replacements nothing is claimed.
#[verifier::external_body]
pub(crate) fn regex_replace_all(pattern: &str, text: &str, replacement: &str) -> (r: Option<String>)
    ensures
        pattern@ == "[^a-zA-Z0-9._-]"@ && replacement@ == "_"@ ==> crate::text::text_opt(r) == Some(
            replaced_name(text@),
        ),
{
    let regex = regex::Regex::new(pattern).ok()?;
    Some(regex.replace_all(text, replacement).to_string())
}

/// Cuts a name to its length and puts `document` in place of one that says nothing.
pub fn finish_filename(replaced: &str) -> (r: String)
    ensures
        r@ == finished_name(replaced@),
{
    let v = chars_of(replaced);
    let size: usize = if v.len() > MAX_FILENAME_CHARS {
        MAX_FILENAME_CHARS
    } else {
        v.len()
    };
    let ghost cut = v@.take(size as int);
    proof {
        assert(v@.subrange(0, size as int) == cut);
        assert(v@.len() <= MAX_FILENAME_CHARS ==> cut == v@);
    }
    let mut i: usize = 0;
    while i < size
        invariant
            i <= size <= v@.len(),
            cut == v@.take(size as int),
            v@ == replaced@,
            finished_name(replaced@) == (if only_underscores(cut) {
                "document"@
            } else {
                cut
            }),
            forall|j: int| 0 <= j < i ==> #[trigger] cut[j] == '_',
        decreases size - i,
    {
        if v[i] != '_' {
            proof {
                assert(cut[i as int] != '_');
                assert(v@.subrange(0, size as int) == cut);
            }
            return string_of(&v, 0, size);
        }
        i += 1;
    }
    "document".to_owned()
}

/// A file name for a document: what is not allowed in one is replaced by underscores, the length
/// is limited, and a name that says nothing becomes `document`.
pub fn sanitize_filename(name: &str) -> (r: String)
    ensures
        r@ == safe_filename(name@),
{
    let replaced = regex_replace_all("[^a-zA-Z0-9._-]", name, "_").unwrap();
    finish_filename(replaced.as_str())
}

/// A text with its backslashes and double quotes escaped by backslashes.
pub open spec fn escaped(s: Seq<char>) -> Seq<char> {
    char_replaced(char_replaced(s, '\\', "\\\\"@), '"', "\\\""@)
}

/// The header that names the file of a document.
pub open spec fn disposition_text(name: Seq<char>) -> Seq<char> {
    "inline; filename=\""@ + (escaped(safe_filename(name)) + ".pdf"@) + "\""@
}

pub fn content_disposition(name: &str) -> (r: String)
    ensures
        r@ == disposition_text(name@),
{
    let safe_filename = sanitize_filename(name);
    let escaped_filename = replace_char(
        replace_char(safe_filename.as_str(), '\\', "\\\\").as_str(),
        '"',
        "\\\"",
    );
    let mut filename = escaped_filename;
    filename.append(".pdf");
    let mut r = "inline; filename=\"".to_owned();
    r.append(filename.as_str());
    r.append("\"");
    r
}

// ---------------------------------------------------------------------------
// Replies
// ---------------------------------------------------------------------------

/// What went wrong with a request.
#[derive(Debug)]
pub enum AppError {
    PdfGeneration(String),
    Serialization(String),
    ResponseBuilding,
    Validation(String),
}

#[derive(Debug)]
pub enum ReplyBody {
    Pdf(Vec<u8>),
    Error(ErrorResponse),
    Text(String),
}

#[derive(Debug)]
pub struct Reply {
    pub status: u16,
    pub content_type: String,
    pub content_disposition: Option<String>,
    pub body: ReplyBody,
}

impl AppError {
    pub open spec fn message_text(self) -> Seq<char> {
        match self {
            AppError::PdfGeneration(e) => "PDF generation failed: "@ + e@,
            AppError::Serialization(e) => "Serialization error: "@ + e@,
            AppError::ResponseBuilding => "Response building failed"@,
            AppError::Validation(e) => "Validation error: "@ + e@,
        }
    }

    pub fn message(&self) -> (r: String)
        ensures
            r@ == self.message_text(),
    {
        match self {
            AppError::PdfGeneration(e) => {
                let mut r = "PDF generation failed: ".to_owned();
                r.append(e.as_str());
                r
            },
            AppError::Serialization(e) => {
                let mut r = "Serialization error: ".to_owned();
                r.append(e.as_str());
                r
            },
            AppError::ResponseBuilding => "Response building failed".to_owned(),
            AppError::Validation(e) => {
                let mut r = "Validation error: ".to_owned();
                r.append(e.as_str());
                r
            },
        }
    }

    /// A request that is at fault is answered as a bad one, every other error as the server's.
    pub open spec fn status(self) -> u16 {
        match self {
            AppError::Validation(_) => STATUS_BAD_REQUEST,
            _ => STATUS_INTERNAL_SERVER_ERROR,
        }
    }

    /// What the client is told.
    pub open spec fn public_text(self) -> Seq<char> {
        match self {
            AppError::PdfGeneration(e) => e@,
            AppError::Serialization(_) => "Serialization error"@,
            AppError::ResponseBuilding => "Response building error"@,
            AppError::Validation(e) => e@,
        }
    }

    /// The reply to a request that failed: the status and an error object.
    pub fn into_response(self) -> (r: Reply)
        ensures
            r.is_error(self.status(), self.public_text()),
    {
        let (status, error): (u16, String) = match self {
            AppError::PdfGeneration(e) => (STATUS_INTERNAL_SERVER_ERROR, e),
            AppError::Serialization(_) => (
                STATUS_INTERNAL_SERVER_ERROR,
                "Serialization error".to_owned(),
            ),
            AppError::ResponseBuilding => (
                STATUS_INTERNAL_SERVER_ERROR,
                "Response building error".to_owned(),
            ),
            AppError::Validation(e) => (STATUS_BAD_REQUEST, e),
        };
        Reply {
            status,
            content_type: "application/json".to_owned(),
            content_disposition: None,
            body: ReplyBody::Error(ErrorResponse { error }),
        }
    }
}

impl Reply {
    /// An error object with this message.
    pub open spec fn is_error(self, status: u16, message: Seq<char>) -> bool {
        &&& self.status == status
        &&& self.content_type@ == "application/json"@
        &&& self.content_disposition is None
        &&& self.body matches ReplyBody::Error(e)
        &&& e.error@ == message
    }

    /// The document, under the name that was asked for.
    pub open spec fn is_document(self, name: Seq<char>, data: Seq<u8>) -> bool {
        &&& self.status == STATUS_OK
        &&& self.content_type@ == "application/pdf"@
        &&& self.content_disposition matches Some(header)
        &&& header@ == disposition_text(name)
        &&& self.body matches ReplyBody::Pdf(pdf)
        &&& pdf@ == data
    }
}

/// The reply where no other can be built.
pub fn create_fallback_response() -> (r: Reply)
    ensures
        r.status == STATUS_INTERNAL_SERVER_ERROR,
        r.content_type@ == "text/plain"@,
        r.content_disposition is None,
        r.body matches ReplyBody::Text(text) && text@ == "Internal server error"@,
{
    Reply {
        status: STATUS_INTERNAL_SERVER_ERROR,
        content_type: "text/plain".to_owned(),
        content_disposition: None,
        body: ReplyBody::Text("Internal server error".to_owned()),
    }
}

fn document_reply(name: &str, data: Vec<u8>) -> (r: Reply)
    ensures
        r.is_document(name@, data@),
{
    Reply {
        status: STATUS_OK,
        content_type: "application/pdf".to_owned(),
        content_disposition: Some(content_disposition(name)),
        body: ReplyBody::Pdf(data),
    }
}

// ---------------------------------------------------------------------------
// Handlers
// ---------------------------------------------------------------------------

/// The reply to a request whose body could not be read: an error object with the message, under
/// the status that the failure calls for.
pub fn unreadable_body(status: u16, message: String) -> (r: Reply)
    ensures
        r.is_error(status, message@),
{
    Reply {
        status,
        content_type: "application/json".to_owned(),
        content_disposition: None,
        body: ReplyBody::Error(ErrorResponse { error: message }),
    }
}

/// The request for a web page that was received. A body whose URL may not be visited holds no such
/// request: the reply says why.
pub fn receive_pdf_request(name: String, url: String, options: Option<PdfOptions>) -> (r: Result<
    PdfRequest,
    Reply,
>)
    ensures
        match r {
            Ok(request) => {
                &&& url_text_problem(url@) is None
                &&& request.name == name
                &&& request.url@ == url@
                &&& request.options == options
                &&& parsed_url(url@) matches Some(parsed)
                &&& host_agrees(parsed)
            },
            Err(reply) => {
                &&& url_text_problem(url@) is Some
                &&& reply.is_error(STATUS_UNPROCESSABLE_ENTITY, url_text_problem(url@)->0)
            },
        },
{
    match PdfRequest::new(name, url, options) {
        Ok(request) => Ok(request),
        Err(message) => Err(unreadable_body(STATUS_UNPROCESSABLE_ENTITY, message)),
    }
}

/// What happened last in the handling of a request for a web page.
#[derive(Debug)]
pub enum UrlInput {
    Received,
    Resolved { lookup: Lookup, addresses: Option<Vec<IpAddress>> },
    Generated(Result<Vec<u8>, String>),
}

/// What happened last in the handling of a request for raw HTML.
#[derive(Debug)]
pub enum HtmlInput {
    Received,
    Generated(Result<Vec<u8>, String>),
}

/// What to do next in the handling of a request.
#[derive(Debug)]
pub enum HandlerAction {
    Resolve(Lookup),
    Generate,
    Respond(Reply),
}

/// What happened last, as a value.
pub enum UrlEvent {
    Received,
    Resolved { host: Seq<char>, addresses: Option<Seq<IpAddress>> },
    Generated(Result<Seq<u8>, Seq<char>>),
}

/// What happened last, as a value.
pub enum HtmlEvent {
    Received,
    Generated(Result<Seq<u8>, Seq<char>>),
}

/// What to do next, as a value: a host and its port to resolve, or the reply, which is an error
/// object with a status or a document under a name.
pub enum HandlerStep {
    Resolve(Seq<char>, u16),
    Generate,
    Error(u16, Seq<char>),
    Document(Seq<char>, Seq<u8>),
}

pub open spec fn outcome_view(outcome: Result<Vec<u8>, String>) -> Result<Seq<u8>, Seq<char>> {
    match outcome {
        Ok(data) => Ok(data@),
        Err(message) => Err(message@),
    }
}

impl View for UrlInput {
    type V = UrlEvent;

    open spec fn view(&self) -> UrlEvent {
        match *self {
            UrlInput::Received => UrlEvent::Received,
            UrlInput::Resolved { lookup, addresses } => UrlEvent::Resolved {
                host: lookup.host@,
                addresses: address_seq(addresses),
            },
            UrlInput::Generated(outcome) => UrlEvent::Generated(outcome_view(outcome)),
        }
    }
}

impl View for HtmlInput {
    type V = HtmlEvent;

    open spec fn view(&self) -> HtmlEvent {
        match *self {
            HtmlInput::Received => HtmlEvent::Received,
            HtmlInput::Generated(outcome) => HtmlEvent::Generated(outcome_view(outcome)),
        }
    }
}

/// A request that is at fault is rejected, any other is gone on with.
pub open spec fn unless_rejected(problem: Option<Seq<char>>) -> HandlerStep {
    match problem {
        Some(message) => HandlerStep::Error(STATUS_BAD_REQUEST, message),
        None => HandlerStep::Generate,
    }
}

/// The outcome of the generation is passed on.
pub open spec fn passed_on(name: Seq<char>, outcome: Result<Seq<u8>, Seq<char>>) -> HandlerStep {
    match outcome {
        Ok(data) => HandlerStep::Document(name, data),
        Err(message) => HandlerStep::Error(STATUS_INTERNAL_SERVER_ERROR, message),
    }
}

/// The next step in the handling of a request for the web page at `url`.
pub open spec fn url_step(name: Seq<char>, url: Seq<char>, event: UrlEvent) -> HandlerStep {
    match event {
        UrlEvent::Received => if name_problem(name) is Some {
            unless_rejected(name_problem(name))
        } else {
            match parsed_url(url) {
                None => HandlerStep::Error(STATUS_BAD_REQUEST, "Invalid URL"@),
                Some(parsed) => match lookup_target(parsed) {
                    Some((host, port)) => HandlerStep::Resolve(host, port),
                    None => HandlerStep::Generate,
                },
            }
        },
        UrlEvent::Resolved { host, addresses } => unless_rejected(
            resolution_problem(host, addresses),
        ),
        UrlEvent::Generated(outcome) => passed_on(name, outcome),
    }
}

/// The next step in the handling of a request for raw HTML.
pub open spec fn html_step(name: Seq<char>, html: Seq<char>, event: HtmlEvent) -> HandlerStep {
    match event {
        HtmlEvent::Received => unless_rejected(html_problem(name, html)),
        HtmlEvent::Generated(outcome) => passed_on(name, outcome),
    }
}

impl HandlerAction {
    /// The action carries out the step.
    pub open spec fn does(self, step: HandlerStep) -> bool {
        match step {
            HandlerStep::Resolve(host, port) => {
                &&& self matches HandlerAction::Resolve(lookup)
                &&& lookup.host@ == host
                &&& lookup.port == port
            },
            HandlerStep::Generate => self is Generate,
            HandlerStep::Error(status, message) => {
                &&& self matches HandlerAction::Respond(reply)
                &&& reply.is_error(status, message)
            },
            HandlerStep::Document(name, data) => {
                &&& self matches HandlerAction::Respond(reply)
                &&& reply.is_document(name, data)
            },
        }
    }
}

fn answer(name: &str, outcome: Result<Vec<u8>, String>) -> (r: HandlerAction)
    ensures
        r.does(passed_on(name@, outcome_view(outcome))),
{
    match outcome {
        Ok(data) => HandlerAction::Respond(document_reply(name, data)),
        Err(message) => HandlerAction::Respond(AppError::PdfGeneration(message).into_response()),
    }
}

/// One step in the handling of a request for a web page. A request that is not valid, or whose
/// host has an address that is off limits, is rejected before anything is generated.
pub fn generate_pdf(request: &PdfRequest, input: UrlInput) -> (r: HandlerAction)
    ensures
        r.does(url_step(request.name@, request.url@, input@)),
{
    match input {
        UrlInput::Received => match request.validate() {
            Ok(Some(lookup)) => HandlerAction::Resolve(lookup),
            Ok(None) => HandlerAction::Generate,
            Err(message) => HandlerAction::Respond(AppError::Validation(message).into_response()),
        },
        UrlInput::Resolved { lookup, addresses } => match lookup.validate_resolved_ips(&addresses) {
            Ok(_) => HandlerAction::Generate,
            Err(message) => HandlerAction::Respond(AppError::Validation(message).into_response()),
        },
        UrlInput::Generated(outcome) => answer(request.name.as_str(), outcome),
    }
}

/// One step in the handling of a request for raw HTML. A request that is not valid is rejected
/// before anything is generated.
pub fn generate_pdf_from_html(request: &HtmlPdfRequest, input: HtmlInput) -> (r: HandlerAction)
    ensures
        r.does(html_step(request.name@, request.html@, input@)),
{
    match input {
        HtmlInput::Received => match request.validate() {
            Ok(_) => HandlerAction::Generate,
            Err(message) => HandlerAction::Respond(AppError::Validation(message).into_response()),
        },
        HtmlInput::Generated(outcome) => answer(request.name.as_str(), outcome),
    }
}

// ---------------------------------------------------------------------------
// Laws
// ---------------------------------------------------------------------------

/// A text that a file name may be: not too long, of the allowed characters, and not empty or made
/// of underscores alone.
pub open spec fn is_safe_filename(s: Seq<char>) -> bool {
    &&& 0 < s.len() <= MAX_FILENAME_CHARS
    &&& forall|i: int| 0 <= i < s.len() ==> is_filename_char(#[trigger] s[i])
    &&& !only_underscores(s)
}

/// Whatever the name, the file name made of it is safe.
pub proof fn law_filename_safe(name: Seq<char>)
    ensures
        is_safe_filename(safe_filename(name)),
{
    reveal_strlit("document");
    let replaced = replaced_name(name);
    assert(forall|i: int| 0 <= i < replaced.len() ==> is_filename_char(#[trigger] replaced[i]));
    assert("document"@[0] != '_');
}

/// A safe file name is kept as it is, so that making a file name of one changes nothing more.
pub proof fn law_filename_kept(name: Seq<char>)
    ensures
        is_safe_filename(name) ==> safe_filename(name) == name,
        safe_filename(safe_filename(name)) == safe_filename(name),
{
    law_filename_safe(name);
    let safe = safe_filename(name);
    assert(replaced_name(safe) =~= safe);
    if is_safe_filename(name) {
        assert(replaced_name(name) =~= name);
    }
}

proof fn lemma_nothing_replaced(s: Seq<char>, from: char, to: Seq<char>)
    requires
        forall|i: int| 0 <= i < s.len() ==> #[trigger] s[i] != from,
    ensures
        char_replaced(s, from, to) == s,
    decreases s.len(),
{
    if s.len() > 0 {
        let before = s.drop_last();
        assert forall|i: int| 0 <= i < before.len() implies #[trigger] before[i] != from by {
            assert(before[i] == s[i]);
        }
        lemma_nothing_replaced(before, from, to);
        assert(s[s.len() - 1] != from);
        assert(before + seq![s.last()] =~= s);
    }
}

/// The header that names the file holds the safe file name as it is: there is nothing in it to
/// escape, and nothing that could end the quoted part early.
pub proof fn law_disposition(name: Seq<char>)
    ensures
        disposition_text(name) == "inline; filename=\""@ + (safe_filename(name) + ".pdf"@) + "\""@,
        !safe_filename(name).contains('"'),
        !safe_filename(name).contains('\\'),
{
    law_filename_safe(name);
    let safe = safe_filename(name);
    lemma_nothing_replaced(safe, '\\', "\\\\"@);
    lemma_nothing_replaced(safe, '"', "\\\""@);
}

/// How a request for a web page is decided, before anything is generated, where the host that it
/// asks to resolve, if it does, has these addresses.
pub open spec fn url_decision(
    name: Seq<char>,
    url: Seq<char>,
    addresses: Option<Seq<IpAddress>>,
) -> HandlerStep {
    match url_step(name, url, UrlEvent::Received) {
        HandlerStep::Resolve(host, _) => url_step(
            name,
            url,
            UrlEvent::Resolved { host, addresses },
        ),
        step => step,
    }
}

/// How the handling of a request for a web page ends, where a generation ends like this.
pub open spec fn url_reply(
    name: Seq<char>,
    url: Seq<char>,
    addresses: Option<Seq<IpAddress>>,
    outcome: Result<Seq<u8>, Seq<char>>,
) -> HandlerStep {
    match url_decision(name, url, addresses) {
        HandlerStep::Generate => url_step(name, url, UrlEvent::Generated(outcome)),
        step => step,
    }
}

/// A document is generated for a web page if and only if the name is in order, the URL is one, and
/// its own host needs no lookup, or could not be resolved, or has no address that is off limits.
/// Any other request is answered as a bad one: with what is wrong with the name, else with the URL,
/// else with the host's addresses.
pub proof fn law_url_decision(
    name: Seq<char>,
    url: Seq<char>,
    addresses: Option<Seq<IpAddress>>,
)
    ensures
        url_decision(name, url, addresses) is Generate <==> {
            &&& name_problem(name) is None
            &&& parsed_url(url) matches Some(u)
            &&& {
                ||| lookup_target(u) is None
                ||| addresses is None
                ||| !any_private(addresses->0)
            }
        },
        !(url_decision(name, url, addresses) is Generate) ==> url_decision(name, url, addresses)
            == HandlerStep::Error(
            STATUS_BAD_REQUEST,
            if name_problem(name) is Some {
                name_problem(name)->0
            } else {
                match parsed_url(url) {
                    None => "Invalid URL"@,
                    Some(u) => "Domain '"@ + (lookup_target(u)->0).0
                        + "' resolves to private IP address"@,
                }
            },
        ),
{
}

/// The handling of a request for a web page ends with a reply. It is a document, under the name
/// that was asked for, exactly where one was decided on and its generation gave it; a generation
/// that failed is answered with its error as the server's.
pub proof fn law_url_reply(
    name: Seq<char>,
    url: Seq<char>,
    addresses: Option<Seq<IpAddress>>,
    outcome: Result<Seq<u8>, Seq<char>>,
)
    ensures
        ({
            let decision = url_decision(name, url, addresses);
            let reply = url_reply(name, url, addresses, outcome);
            &&& reply is Error || reply is Document
            &&& reply is Document <==> decision is Generate && outcome is Ok
            &&& reply is Document ==> reply == HandlerStep::Document(name, outcome->Ok_0)
            &&& decision is Generate && outcome is Err ==> reply == HandlerStep::Error(
                STATUS_INTERNAL_SERVER_ERROR,
                outcome->Err_0,
            )
            &&& !(decision is Generate) ==> reply == decision
        }),
{
    law_url_decision(name, url, addresses);
}

/// How a body with this name and URL is answered, from its reception on.
pub open spec fn body_reply(
    name: Seq<char>,
    url: Seq<char>,
    addresses: Option<Seq<IpAddress>>,
    outcome: Result<Seq<u8>, Seq<char>>,
) -> HandlerStep {
    match url_text_problem(url) {
        Some(message) => HandlerStep::Error(STATUS_UNPROCESSABLE_ENTITY, message),
        None => url_reply(name, url, addresses, outcome),
    }
}

/// A body is answered with a document if and only if its URL may be visited, its name is in order,
/// the URL's own host needs no lookup, could not be resolved or has no address that is off limits,
/// and the document could be generated.
pub proof fn law_body_reply(
    name: Seq<char>,
    url: Seq<char>,
    addresses: Option<Seq<IpAddress>>,
    outcome: Result<Seq<u8>, Seq<char>>,
)
    ensures
        body_reply(name, url, addresses, outcome) is Document <==> {
            &&& url_text_problem(url) is None
            &&& name_problem(name) is None
            &&& parsed_url(url) matches Some(u)
            &&& {
                ||| lookup_target(u) is None
                ||| addresses is None
                ||| !any_private(addresses->0)
            }
            &&& outcome is Ok
        },
{
    law_url_reply(name, url, addresses, outcome);
    law_url_decision(name, url, addresses);
}

/// A document is generated of raw HTML if and only if the name and the size are in order; what is
/// wrong with them is answered otherwise.
pub proof fn law_html_decision(name: Seq<char>, html: Seq<char>)
    ensures
        html_step(name, html, HtmlEvent::Received) is Generate <==> html_problem(name, html) is None,
        html_problem(name, html) matches Some(message) ==> html_step(
            name,
            html,
            HtmlEvent::Received,
        ) == HandlerStep::Error(STATUS_BAD_REQUEST, message),
{
}

/// The characters of a file name by their code points: hyphen, dot, the digits, the letters of both
/// cases and the underscore.
pub proof fn law_filename_chars(c: char)
    ensures
        ({
            let n = c as int;
            is_filename_char(c) <==> n == 45 || n == 46 || 48 <= n <= 57 || 65 <= n <= 90 || n == 95
                || 97 <= n <= 122
        }),
{
}

/// A file name, character by character: where one of the first fifty characters of the name is
/// allowed and no underscore, those fifty are the file name, or as many as there are, each as it is
/// if it is allowed and an underscore if not. Any other name becomes `document`.
pub proof fn law_filename_characters(name: Seq<char>)
    ensures
        ({
            let file = safe_filename(name);
            let says_something = exists|i: int|
                0 <= i < name.len() && i < 50 && is_filename_char(#[trigger] name[i]) && name[i]
                    != '_';
            &&& says_something ==> {
                &&& file.len() == (if name.len() < 50 {
                    name.len()
                } else {
                    50
                })
                &&& forall|i: int|
                    0 <= i < file.len() ==> {
                        &&& is_filename_char(name[i]) ==> #[trigger] file[i] == name[i]
                        &&& !is_filename_char(name[i]) ==> file[i] == '_'
                    }
            }
            &&& !says_something ==> file == "document"@
        }),
{
    let replaced = replaced_name(name);
    let cut = if replaced.len() > MAX_FILENAME_CHARS {
        replaced.take(MAX_FILENAME_CHARS as int)
    } else {
        replaced
    };
    if only_underscores(cut) {
        assert forall|i: int|
            0 <= i < name.len() && i < 50 && is_filename_char(
                #[trigger] name[i],
            ) implies name[i] == '_' by {
            assert(cut[i] == name[i]);
        }
    } else {
        let i = choose|i: int| 0 <= i < cut.len() && #[trigger] cut[i] != '_';
        assert(cut[i] == replaced[i]);
        assert(is_filename_char(name[i]) && name[i] != '_');
    }
}

/// Escaping goes character by character and puts a backslash before a backslash and before a double
/// quote, and before nothing else.
pub proof fn law_escaped(a: Seq<char>, b: Seq<char>, c: char)
    ensures
        escaped(a + b) == escaped(a) + escaped(b),
        c == '"' || c == '\\' ==> escaped(seq![c]) == seq!['\\', c],
        c != '"' && c != '\\' ==> escaped(seq![c]) == seq![c],
{
    reveal_strlit("\\\\");
    reveal_strlit("\\\"");
    let (two, quoted) = ("\\\\"@, "\\\""@);
    assert(two =~= seq!['\\', '\\'] && quoted =~= seq!['\\', '"']);
    crate::text::law_char_replaced(a, b, c, '\\', two);
    crate::text::law_char_replaced(
        char_replaced(a, '\\', two),
        char_replaced(b, '\\', two),
        c,
        '"',
        quoted,
    );
    if c == '\\' {
        assert(seq!['\\', '\\'] =~= seq!['\\'] + seq!['\\']);
        crate::text::law_char_replaced(seq!['\\'], seq!['\\'], '\\', '"', quoted);
        assert(escaped(seq![c]) =~= seq!['\\', c]);
    }
}

/// What a client is answered when something went wrong: a request at fault has status 400 and hears
/// what is wrong, a failed generation has status 500 and hears its error; what fails inside has
/// status 500 and one set of words each.
pub proof fn law_error_replies(e: AppError)
    ensures
        e is Validation <==> e.status() == 400,
        !(e is Validation) <==> e.status() == 500,
        e matches AppError::Validation(m) ==> e.public_text() == m@ && e.message_text()
            == "Validation error: "@ + m@,
        e matches AppError::PdfGeneration(m) ==> e.public_text() == m@ && e.message_text()
            == "PDF generation failed: "@ + m@,
        e matches AppError::Serialization(m) ==> e.public_text() == "Serialization error"@
            && e.message_text() == "Serialization error: "@ + m@,
        e is ResponseBuilding ==> e.public_text() == "Response building error"@ && e.message_text()
            == "Response building failed"@,
        STATUS_UNPROCESSABLE_ENTITY == 422,
{
}

/// What a reply is: an error is JSON with its status, its message and no file; a document is sent
/// with status 200 as PDF, under its file name, byte by byte.
pub proof fn law_replies(reply: Reply, status: u16, message: Seq<char>, name: Seq<char>, data: Seq<
    u8,
>)
    ensures
        reply.is_error(status, message) ==> {
            &&& reply.status == status
            &&& reply.content_type@ == "application/json"@
            &&& reply.content_disposition is None
            &&& reply.body matches ReplyBody::Error(e) && e.error@ == message
        },
        reply.is_document(name, data) ==> {
            &&& reply.status == 200
            &&& reply.content_type@ == "application/pdf"@
            &&& reply.content_disposition matches Some(header) && header@ == disposition_text(name)
            &&& reply.body matches ReplyBody::Pdf(pdf) && pdf@ == data
        },
{
}

/// What an action does is what its step says: a host to resolve is that host at that port, and what
/// is answered is that error or that document.
pub proof fn law_handler_actions(action: HandlerAction, step: HandlerStep)
    requires
        action.does(step),
    ensures
        action is Generate <==> step is Generate,
        action is Resolve <==> step is Resolve,
        action is Respond <==> step is Error || step is Document,
        step matches HandlerStep::Resolve(host, port) ==> (action matches HandlerAction::Resolve(l)
            && l.host@ == host && l.port == port),
        step matches HandlerStep::Error(status, message) ==> (action matches HandlerAction::Respond(
            reply,
        ) && reply.is_error(status, message)),
        step matches HandlerStep::Document(name, data) ==> (action matches HandlerAction::Respond(
            reply,
        ) && reply.is_document(name, data)),
{
}

/// The inputs of the handlers seen from outside: the addresses of the very host that was looked up,
/// all of them, and the very document or error.
pub proof fn law_handler_inputs(input: UrlInput, html: HtmlInput, outcome: Result<Vec<u8>, String>)
    ensures
        input is Received <==> input@ == UrlEvent::Received,
        html is Received <==> html@ == HtmlEvent::Received,
        input matches UrlInput::Resolved { lookup, addresses } ==> {
            &&& input@ matches UrlEvent::Resolved { host, addresses: seen }
            &&& host == lookup.host@
            &&& addresses is None <==> seen is None
            &&& addresses matches Some(v) ==> seen == Some(v@)
        },
        input == UrlInput::Generated(outcome) ==> input@ == UrlEvent::Generated(
            outcome_view(outcome),
        ),
        html == HtmlInput::Generated(outcome) ==> html@ == HtmlEvent::Generated(
            outcome_view(outcome),
        ),
        outcome matches Ok(data) ==> outcome_view(outcome) == Ok::<Seq<u8>, Seq<char>>(data@),
        outcome matches Err(message) ==> outcome_view(outcome) == Err::<Seq<u8>, Seq<char>>(
            message@,
        ),
{
}

/// The single steps of the handlers. A request for a web page with a good name and a URL asks for
/// the URL's own host, where that is to be looked up, and is generated at once otherwise. Whatever
/// host was looked up, its addresses decide, and an outcome is passed on: of a web page as of raw
/// HTML.
pub proof fn law_handler_steps(
    name: Seq<char>,
    url: Seq<char>,
    html: Seq<char>,
    host: Seq<char>,
    addresses: Option<Seq<IpAddress>>,
    outcome: Result<Seq<u8>, Seq<char>>,
)
    ensures
        url_step(name, url, UrlEvent::Received) matches HandlerStep::Resolve(asked, port) ==> (
        parsed_url(url) matches Some(u) && lookup_target(u) == Some((asked, port))),
        name_problem(name) is None ==> (parsed_url(url) matches Some(u) ==> {
            &&& lookup_target(u) is Some <==> url_step(name, url, UrlEvent::Received) is Resolve
            &&& lookup_target(u) is None <==> url_step(name, url, UrlEvent::Received) is Generate
        }),
        ({
            let step = url_step(name, url, UrlEvent::Resolved { host, addresses });
            &&& step is Generate <==> addresses is None || !any_private(addresses->0)
            &&& !(step is Generate) ==> step == HandlerStep::Error(
                400,
                "Domain '"@ + host + "' resolves to private IP address"@,
            )
        }),
        url_step(name, url, UrlEvent::Generated(outcome)) == html_step(
            name,
            html,
            HtmlEvent::Generated(outcome),
        ),
        outcome matches Ok(data) ==> html_step(name, html, HtmlEvent::Generated(outcome))
            == HandlerStep::Document(name, data),
        outcome matches Err(message) ==> html_step(name, html, HtmlEvent::Generated(outcome))
            == HandlerStep::Error(500, message),
        html_problem(name, html) is None <==> html_step(name, html, HtmlEvent::Received) is Generate,
        html_problem(name, html) matches Some(message) ==> html_step(name, html, HtmlEvent::Received)
            == HandlerStep::Error(400, message),
        name_problem(name) matches Some(message) ==> url_step(name, url, UrlEvent::Received)
            == HandlerStep::Error(400, message),
{
}

} // verus!
