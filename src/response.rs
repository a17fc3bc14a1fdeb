//! Classification of probe outcomes: which responses are accepted, the page
//! title of HTML responses, and the line of text that reports each one.
use vstd::prelude::*;
use vstd::string::*;
use crate::text::{decimal, push_decimal, strip_newlines, without_newlines};

verus! {

/// What is kept of an accepted response.
pub struct ResponseInfo {
    pub url: String,
    pub status: u16,
    pub title: String,
}

impl View for ResponseInfo {
    type V = (Seq<char>, u16, Seq<char>);

    open spec fn view(&self) -> (Seq<char>, u16, Seq<char>) {
        (self.url@, self.status, self.title@)
    }
}

impl ResponseInfo {
    /// A copy of this record.
    pub fn duplicate(&self) -> (r: Self)
        ensures
            r@ == self@,
    {
        ResponseInfo { url: self.url.clone(), status: self.status, title: self.title.clone() }
    }
}

/// The end of one probe.
pub enum ProbeOutcome {
    /// The server answered. `url` is the URL that was probed, `final_url` the
    /// one that answered. `body` is the response text where it was read.
    Success {
        url: String,
        final_url: String,
        status: u16,
        content_type: Option<String>,
        body: Option<String>,
    },
    /// No answer came: the connection, TLS or the deadline failed.
    TransportError { url: String, error: String },
}

/// What becomes of one outcome.
pub enum Verdict {
    /// Reported: `line` goes to the output, `info` to the collected results.
    Accepted { info: ResponseInfo, line: String },
    /// The status is one of the invalid codes: one warning, nothing reported.
    Rejected { url: String, status: u16 },
    /// The request failed: one warning, nothing reported.
    Failed { url: String, error: String },
}

/// The media type of a `Content-Type` value: what stands before the first `;`.
pub open spec fn media_type(ct: Seq<char>) -> Seq<char>
    decreases ct.len(),
{
    if ct.len() == 0 {
        ct
    } else if ct[0] == ';' {
        seq![]
    } else {
        seq![ct[0]] + media_type(ct.drop_first())
    }
}

/// Whether a `Content-Type` value names an HTML-like document.
pub open spec fn is_html_type(ct: Seq<char>) -> bool {
    let m = media_type(ct);
    m == "text/html"@ || m == "text/xml"@ || m == "application/xhtml+xml"@
}

/// The longest body, in characters, whose title is extracted: at most four
/// bytes a character keeps it within the `u32::MAX` bytes that the HTML
/// parser takes in.
pub const MAX_TITLE_SOURCE: usize = 1073741823;

/// The text of the first `title` element of an HTML document, if it has one.
pub uninterp spec fn html_title_of(html: Seq<char>) -> Option<Seq<char>>;

/// The title to report for what the extraction gave: the title without its
/// newlines, or the empty string.
pub open spec fn title_text(extracted: Option<Seq<char>>) -> Seq<char> {
    match extracted {
        Some(t) => without_newlines(t),
        None => seq![],
    }
}

/// The title of a response: asked for, HTML-like and with a body read that
/// the parser takes in, its first `title` element's text without newlines;
/// else the empty string.
pub open spec fn response_title(show_title: bool, content_type: Option<Seq<char>>, body: Option<Seq<char>>) -> Seq<char> {
    if show_title && content_type is Some && is_html_type(content_type->0) && body is Some
        && body->0.len() <= MAX_TITLE_SOURCE {
        title_text(html_title_of(body->0))
    } else {
        seq![]
    }
}

/// The reported line: the URL, then the status and the title where asked,
/// joined by the delimiter.
pub open spec fn line_of(
    url: Seq<char>,
    status: u16,
    title: Seq<char>,
    show_status: bool,
    show_title: bool,
    delimiter: Seq<char>,
) -> Seq<char> {
    url + (if show_status { delimiter + decimal(status as nat) } else { seq![] })
        + (if show_title { delimiter + title } else { seq![] })
}

pub open spec fn opt_view(o: Option<String>) -> Option<Seq<char>> {
    match o {
        Some(s) => Some(s@),
        None => None,
    }
}

proof fn lemma_media_type_prefix(ct: Seq<char>, i: int)
    requires
        0 <= i <= ct.len(),
        forall|k: int| 0 <= k < i ==> ct[k] != ';',
        i == ct.len() || ct[i] == ';',
    ensures
        media_type(ct) == ct.subrange(0, i),
    decreases i,
{
    if i > 0 {
        lemma_media_type_prefix(ct.drop_first(), i - 1);
        assert(ct.subrange(0, i) =~= seq![ct[0]] + ct.drop_first().subrange(0, i - 1));
    } else if ct.len() == 0 {
        assert(ct.subrange(0, i) =~= ct);
    } else {
        assert(ct.subrange(0, i) =~= seq![]);
    }
}

/// Whether a `Content-Type` value names an HTML-like document: its media type,
/// before any `;`, is `text/html`, `text/xml` or `application/xhtml+xml`.
pub fn is_html_content_type(ct: &str) -> (r: bool)
    ensures
        r == is_html_type(ct@),
{
    let len = ct.unicode_len();
    let mut i: usize = 0;
    while i < len && ct.get_char(i) != ';'
        invariant
            i <= len,
            len == ct@.len(),
            forall|k: int| 0 <= k < i ==> ct@[k] != ';',
        decreases len - i,
    {
        i = i + 1;
    }
    proof {
        lemma_media_type_prefix(ct@, i as int);
    }
    let m = String::from_str(ct.substring_char(0, i));
    m == String::from_str("text/html") || m == String::from_str("text/xml")
        || m == String::from_str("application/xhtml+xml")
}

/// Whether a response with this `Content-Type`, if any, is HTML-like.
pub fn is_html_resp(content_type: &Option<String>) -> (r: bool)
    ensures
        r == (content_type is Some && is_html_type(content_type->0@)),
{
    match content_type {
        Some(ct) => is_html_content_type(ct.as_str()),
        None => false,
    }
}

/// Relies on scraper: `Html::parse_document` parses the text as an HTML
/// document, `Html::select` with the selector `title` walks the document
/// tree's nodes in the order in which they were inserted and yields its
/// `title` elements, and `ElementRef::text` gives the text of the first. The
/// parse is a function of the text alone. The parser asserts that the text
/// holds at most `u32::MAX` bytes, so longer texts are left out.
#[verifier::external_body]
fn extract_html_title(html: &str) -> (r: Option<String>)
    requires
        html@.len() <= MAX_TITLE_SOURCE,
    ensures
        r is Some <==> html_title_of(html@) is Some,
        r is Some ==> r->0@ == html_title_of(html@)->0,
{
    let document = scraper::Html::parse_document(html);
    let selector = scraper::Selector::parse("title").unwrap();
    match document.select(&selector).next() {
        Some(tag) => Some(tag.text().collect::<String>()),
        None => None,
    }
}

/// The title to report for what the extraction gave.
pub fn clean_title(extracted: Option<String>) -> (r: String)
    ensures
        r@ == title_text(opt_view(extracted)),
{
    match extracted {
        Some(t) => strip_newlines(t.as_str()),
        None => String::new(),
    }
}

/// The title of a response, extracted only where asked for and where the
/// response is HTML-like and its body was read.
pub fn get_resp_title(show_title: bool, content_type: &Option<String>, body: &Option<String>) -> (r: String)
    ensures
        r@ == response_title(show_title, opt_view(*content_type), opt_view(*body)),
{
    if show_title && is_html_resp(content_type) {
        match body {
            Some(b) => {
                if b.as_str().unicode_len() <= MAX_TITLE_SOURCE {
                    clean_title(extract_html_title(b.as_str()))
                } else {
                    String::new()
                }
            },
            None => String::new(),
        }
    } else {
        String::new()
    }
}

/// Whether the body of a response is needed: only for the title of an
/// HTML-like response.
pub fn wants_body(show_title: bool, content_type: &Option<String>) -> (r: bool)
    ensures
        r == (show_title && content_type is Some && is_html_type(content_type->0@)),
{
    show_title && is_html_resp(content_type)
}

/// The line that reports an accepted response.
pub fn render_line(
    url: &str,
    status: u16,
    title: &str,
    show_status: bool,
    show_title: bool,
    delimiter: &str,
) -> (r: String)
    ensures
        r@ == line_of(url@, status, title@, show_status, show_title, delimiter@),
{
    let mut r = String::from_str(url);
    if show_status {
        r.append(delimiter);
        push_decimal(&mut r, status as u64);
    }
    if show_title {
        r.append(delimiter);
        r.append(title);
    }
    assert(r@ =~= line_of(url@, status, title@, show_status, show_title, delimiter@));
    r
}

/// Whether `v` holds `x`.
pub fn contains_code(v: &Vec<u16>, x: u16) -> (r: bool)
    ensures
        r == v@.contains(x),
{
    let mut i: usize = 0;
    while i < v.len()
        invariant
            i <= v@.len(),
            forall|k: int| 0 <= k < i ==> v@[k] != x,
        decreases v@.len() - i,
    {
        if v[i] == x {
            assert(v@[i as int] == x);
            return true;
        }
        i = i + 1;
    }
    false
}

/// Decides what becomes of one outcome. A transport error fails the probe;
/// a status among the invalid codes rejects it, whatever the title settings;
/// any other response is accepted, with its title and its line.
pub fn process_outcome(
    outcome: ProbeOutcome,
    invalid_codes: &Vec<u16>,
    show_status: bool,
    show_title: bool,
    delimiter: &str,
) -> (r: Verdict)
    ensures
        match outcome {
            ProbeOutcome::TransportError { url, error } => r == Verdict::Failed { url, error },
            ProbeOutcome::Success { url, final_url, status, content_type, body } => if invalid_codes@.contains(status) {
                r == Verdict::Rejected { url: final_url, status }
            } else {
                r matches Verdict::Accepted { info, line } && info@ == (
                    final_url@,
                    status,
                    response_title(show_title, opt_view(content_type), opt_view(body)),
                ) && line@ == line_of(url@, status, info.title@, show_status, show_title, delimiter@)
            },
        },
{
    match outcome {
        ProbeOutcome::TransportError { url, error } => Verdict::Failed { url, error },
        ProbeOutcome::Success { url, final_url, status, content_type, body } => {
            if contains_code(invalid_codes, status) {
                Verdict::Rejected { url: final_url, status }
            } else {
                let title = get_resp_title(show_title, &content_type, &body);
                let line = render_line(url.as_str(), status, title.as_str(), show_status, show_title, delimiter);
                Verdict::Accepted { info: ResponseInfo { url: final_url, status, title }, line }
            }
        },
    }
}

} // verus!
