//! URLs as the crawler sees them: a normalized text, compared as text.
//!
//! Parsing, reference resolution and the removal of URL components are done by
//! the `url` crate. Each of those calls stands behind a small trusted function
//! that takes text and gives text; the rules of canonicalization around them are
//! verified.
//!
//! A URL is held as text, so every such call parses the text first. Nearly
//! every text that the parser gives parses to itself; for one that does not,
//! the call works on what the text parses to.

use vstd::prelude::*;
use vstd::std_specs::cmp::PartialEqSpecImpl;

verus! {

/// An absolute URL, held as its serialization. Two URLs are the same URL
/// exactly when their texts are equal.
#[derive(Debug)]
pub struct Url {
    text: String,
}

impl View for Url {
    type V = Seq<char>;

    closed spec fn view(&self) -> Seq<char> {
        self.text@
    }
}

impl Clone for Url {
    fn clone(&self) -> (copy: Self)
        ensures
            copy@ == self@,
    {
        Url { text: self.text.clone() }
    }
}

impl PartialEq for Url {
    /// Two URLs are equal when their serializations are.
    fn eq(&self, other: &Self) -> (equal: bool) {
        self.text == other.text
    }
}

impl PartialEqSpecImpl for Url {
    open spec fn obeys_eq_spec() -> bool {
        true
    }

    open spec fn eq_spec(&self, other: &Self) -> bool {
        self@ == other@
    }
}

impl Eq for Url {

}

impl Url {
    /// The serialization of this URL.
    pub fn as_str(&self) -> (text: &str)
        ensures
            text@ == self@,
    {
        self.text.as_str()
    }

    /// The serialization of this URL, as an owned string.
    pub fn to_string(&self) -> (text: String)
        ensures
            text@ == self@,
    {
        self.text.clone()
    }
}

/// What the parser made of a string, as the verified code holds it.
#[derive(Debug)]
pub enum Parsed {
    /// An absolute URL, as its serialization.
    Url(String),
    /// The string is a relative reference and there was no base to resolve
    /// it against; holds the parser's message.
    RelativeWithoutBase(String),
    /// The string is no URL; the parser's message says why.
    Invalid(String),
}

/// What the parser made of a string, as contracts speak of it.
pub enum ParseOutcome {
    Url(Seq<char>),
    RelativeWithoutBase(Seq<char>),
    Invalid(Seq<char>),
}

impl View for Parsed {
    type V = ParseOutcome;

    open spec fn view(&self) -> ParseOutcome {
        match self {
            Parsed::Url(text) => ParseOutcome::Url(text@),
            Parsed::RelativeWithoutBase(message) => ParseOutcome::RelativeWithoutBase(message@),
            Parsed::Invalid(message) => ParseOutcome::Invalid(message@),
        }
    }
}

/// What `url::Url::parse` makes of `input`.
pub uninterp spec fn url_parse(input: Seq<char>) -> ParseOutcome;

/// What `url::Url::join` makes of `reference` on the URL that `base` parses
/// to; where `base` is no URL, the failure of parsing it.
pub uninterp spec fn url_join(base: Seq<char>, reference: Seq<char>) -> ParseOutcome;

/// The URL that `url` parses to, after `url::Url::set_fragment(None)`; where
/// `url` is no URL, the failure of parsing it.
pub uninterp spec fn url_without_fragment(url: Seq<char>) -> ParseOutcome;

/// The URL that `url` parses to, after `url::Url::set_query(None)`; where
/// `url` is no URL, the failure of parsing it.
pub uninterp spec fn url_without_query(url: Seq<char>) -> ParseOutcome;

/// The URL that `url` parses to, after `url::Url::set_path(path)`; where
/// `url` is no URL, the failure of parsing it.
pub uninterp spec fn url_with_path(url: Seq<char>, path: Seq<char>) -> ParseOutcome;

/// A text in canonical form: parsing it gives it back, and so does removing
/// its fragment. The parser does not bring every text into this form at once:
/// a `file` URL with a host and a drive letter parses to a text that parses
/// to yet another.
pub open spec fn is_canonical(text: Seq<char>) -> bool {
    &&& url_parse(text) == ParseOutcome::Url(text)
    &&& url_without_fragment(text) == ParseOutcome::Url(text)
}

/// Calls `url::Url::parse`. Nothing is claimed of the outcome but that it is
/// the parser's, a function of `input` alone: the serialization of the URL,
/// or which way parsing failed.
#[verifier::external_body]
fn parse(input: &str) -> (parsed: Parsed)
    ensures
        parsed@ == url_parse(input@),
{
    match url::Url::parse(input) {
        Ok(url) => Parsed::Url(String::from(url)),
        Err(error @ url::ParseError::RelativeUrlWithoutBase) => Parsed::RelativeWithoutBase(
            error.to_string(),
        ),
        Err(error) => Parsed::Invalid(error.to_string()),
    }
}

/// Calls `url::Url::join` on the URL that `base` parses to. Nothing is
/// claimed of the outcome but that it is a function of the two texts: the
/// serialization of `reference` resolved against `base`, or which way that
/// failed. A `base` that is no URL gives the failure of parsing it.
#[verifier::external_body]
fn join(base: &str, reference: &str) -> (parsed: Parsed)
    ensures
        parsed@ == url_join(base@, reference@),
{
    let joined = match url::Url::parse(base) {
        Ok(base) => base.join(reference),
        Err(error) => Err(error),
    };
    match joined {
        Ok(url) => Parsed::Url(String::from(url)),
        Err(error @ url::ParseError::RelativeUrlWithoutBase) => Parsed::RelativeWithoutBase(
            error.to_string(),
        ),
        Err(error) => Parsed::Invalid(error.to_string()),
    }
}

/// Calls `url::Url::set_fragment(None)` on the URL that `url` parses to, and
/// gives the serialization of what is left. Nothing is claimed of it but that
/// it is a function of `url` alone.
#[verifier::external_body]
fn without_fragment(url: &str) -> (parsed: Parsed)
    ensures
        parsed@ == url_without_fragment(url@),
{
    match url::Url::parse(url) {
        Ok(mut url) => {
            url.set_fragment(None);
            Parsed::Url(String::from(url))
        },
        Err(error @ url::ParseError::RelativeUrlWithoutBase) => Parsed::RelativeWithoutBase(
            error.to_string(),
        ),
        Err(error) => Parsed::Invalid(error.to_string()),
    }
}

/// Calls `url::Url::set_query(None)` on the URL that `url` parses to, and
/// gives the serialization of what is left. Nothing is claimed of it but that
/// it is a function of `url` alone.
#[verifier::external_body]
fn without_query(url: &str) -> (parsed: Parsed)
    ensures
        parsed@ == url_without_query(url@),
{
    match url::Url::parse(url) {
        Ok(mut url) => {
            url.set_query(None);
            Parsed::Url(String::from(url))
        },
        Err(error @ url::ParseError::RelativeUrlWithoutBase) => Parsed::RelativeWithoutBase(
            error.to_string(),
        ),
        Err(error) => Parsed::Invalid(error.to_string()),
    }
}

/// The longest text, in characters, that is handed to `url::Url::set_path`.
pub const MAX_URL_LENGTH: usize = 1048576;

/// Calls `url::Url::set_path` on the URL that `url` parses to, and gives the
/// serialization of the URL with that path. Nothing is claimed of it but that
/// it is a function of the two texts.
///
/// `set_path` does not return where the serialization is longer than
/// `u32::MAX` bytes. A text of at most `MAX_URL_LENGTH` characters stays far
/// below that, whatever the parser encodes, and an empty path adds at most a
/// slash to it.
#[verifier::external_body]
fn with_path(url: &str, path: &str) -> (parsed: Parsed)
    requires
        url@.len() <= MAX_URL_LENGTH,
        path@.len() == 0,
    ensures
        parsed@ == url_with_path(url@, path@),
{
    match url::Url::parse(url) {
        Ok(mut url) => {
            url.set_path(path);
            Parsed::Url(String::from(url))
        },
        Err(error @ url::ParseError::RelativeUrlWithoutBase) => Parsed::RelativeWithoutBase(
            error.to_string(),
        ),
        Err(error) => Parsed::Invalid(error.to_string()),
    }
}

/// Why a reference was not turned into a URL.
#[derive(Debug)]
pub enum UrlError {
    /// The reference is an absolute URL of a scheme that is not followed; holds that URL.
    InvalidScheme(String),
    /// The reference is no URL; holds the whole message.
    InvalidUrl(String),
}

/// A `UrlError` as contracts speak of it.
pub enum UrlErrorView {
    InvalidScheme(Seq<char>),
    InvalidUrl(Seq<char>),
}

impl View for UrlError {
    type V = UrlErrorView;

    open spec fn view(&self) -> UrlErrorView {
        match self {
            UrlError::InvalidScheme(url) => UrlErrorView::InvalidScheme(url@),
            UrlError::InvalidUrl(message) => UrlErrorView::InvalidUrl(message@),
        }
    }
}

impl UrlErrorView {
    /// The message that the error is shown with.
    pub open spec fn message(self) -> Seq<char> {
        match self {
            UrlErrorView::InvalidScheme(url) => "Invalid scheme for "@ + url,
            UrlErrorView::InvalidUrl(message) => message,
        }
    }
}

impl UrlError {
    /// The message that the error is shown with.
    pub fn to_string(&self) -> (text: String)
        ensures
            text@ == self@.message(),
    {
        match self {
            UrlError::InvalidScheme(url) => String::from_str("Invalid scheme for ").concat(
                url.as_str(),
            ),
            UrlError::InvalidUrl(message) => message.clone(),
        }
    }
}

/// The scheme of a serialized URL: what stands before its first colon. (A
/// scheme holds letters, digits, `+`, `-` and `.` only, and a colon follows it.)
pub open spec fn scheme_of(text: Seq<char>) -> Seq<char>
    decreases text.len(),
{
    if text.len() == 0 || text[0] == ':' {
        Seq::empty()
    } else {
        seq![text[0]] + scheme_of(text.drop_first())
    }
}

/// The schemes that the crawler follows: the empty one, and those that begin with `http`.
pub open spec fn scheme_accepted(text: Seq<char>) -> bool {
    let scheme = scheme_of(text);
    scheme.len() == 0 || (scheme.len() >= 4 && scheme.take(4) == seq!['h', 't', 't', 'p'])
}

/// The scheme is a prefix of the text, holds no colon, and ends at a colon or
/// at the end of the text.
pub proof fn lemma_scheme_of(text: Seq<char>)
    ensures
        scheme_of(text).len() <= text.len(),
        forall|i: int|
            0 <= i < scheme_of(text).len() ==> scheme_of(text)[i] == text[i] && text[i] != ':',
        scheme_of(text).len() < text.len() ==> text[scheme_of(text).len() as int] == ':',
    decreases text.len(),
{
    if text.len() != 0 && text[0] != ':' {
        let rest = text.drop_first();
        lemma_scheme_of(rest);
        assert forall|i: int| 0 <= i < scheme_of(text).len() implies scheme_of(text)[i] == text[i]
            && text[i] != ':' by {
            if i > 0 {
                assert(scheme_of(rest)[i - 1] == rest[i - 1]);
            }
        }
    }
}

/// Whether the scheme of a serialized URL is one that the crawler follows.
pub fn has_accepted_scheme(text: &str) -> (accepted: bool)
    ensures
        accepted == scheme_accepted(text@),
{
    proof {
        lemma_scheme_of(text@);
    }
    let length = text.unicode_len();
    if length == 0 {
        return true;
    }
    if text.get_char(0) == ':' {
        return true;
    }
    if length < 4 {
        return false;
    }
    let http = text.get_char(0) == 'h' && text.get_char(1) == 't' && text.get_char(2) == 't'
        && text.get_char(3) == 'p';
    proof {
        let scheme = scheme_of(text@);
        if scheme.len() >= 4 {
            assert(scheme.take(4) =~= seq![text@[0], text@[1], text@[2], text@[3]]);
        }
        if http {
            assert(scheme.len() >= 4);
        }
    }
    http
}

/// What a parser outcome amounts to: the text of the URL, or an `InvalidUrl`
/// whose message is the parser's, behind `prefix`.
pub open spec fn expect_url_spec(outcome: ParseOutcome, prefix: Seq<char>) -> Result<
    Seq<char>,
    UrlErrorView,
> {
    match outcome {
        ParseOutcome::Url(text) => Ok(text),
        ParseOutcome::RelativeWithoutBase(message) => Err(
            UrlErrorView::InvalidUrl(prefix + message),
        ),
        ParseOutcome::Invalid(message) => Err(UrlErrorView::InvalidUrl(prefix + message)),
    }
}

/// The view of a result that holds a text.
pub open spec fn text_result_view(result: Result<String, UrlError>) -> Result<
    Seq<char>,
    UrlErrorView,
> {
    match result {
        Ok(text) => Ok(text@),
        Err(error) => Err(error@),
    }
}

/// The view of a result that holds a URL.
pub open spec fn url_result_view(result: Result<Url, UrlError>) -> Result<Seq<char>, UrlErrorView> {
    match result {
        Ok(url) => Ok(url@),
        Err(error) => Err(error@),
    }
}

/// Turns a parser outcome into the text of the URL, or into an `InvalidUrl`
/// whose message is the parser's, behind `prefix`.
pub fn expect_url(parsed: Parsed, prefix: &str) -> (result: Result<String, UrlError>)
    ensures
        text_result_view(result) == expect_url_spec(parsed@, prefix@),
{
    match parsed {
        Parsed::Url(text) => Ok(text),
        Parsed::RelativeWithoutBase(message) => Err(
            UrlError::InvalidUrl(String::from_str(prefix).concat(message.as_str())),
        ),
        Parsed::Invalid(message) => Err(
            UrlError::InvalidUrl(String::from_str(prefix).concat(message.as_str())),
        ),
    }
}

/// A URL passes if its scheme is followed; otherwise it is refused as `InvalidScheme`.
pub open spec fn check_scheme_spec(text: Seq<char>) -> Result<Seq<char>, UrlErrorView> {
    if scheme_accepted(text) {
        Ok(text)
    } else {
        Err(UrlErrorView::InvalidScheme(text))
    }
}

/// Lets a serialized URL pass if its scheme is followed.
pub fn check_scheme(text: String) -> (result: Result<String, UrlError>)
    ensures
        text_result_view(result) == check_scheme_spec(text@),
{
    if has_accepted_scheme(text.as_str()) {
        Ok(text)
    } else {
        Err(UrlError::InvalidScheme(text))
    }
}

/// The reference as an absolute URL, before its fragment is removed.
///
/// A reference that parses on its own must have a followed scheme. One that is
/// relative is resolved against `base`. Any other failure is an `InvalidUrl`.
pub open spec fn resolve_spec(base: Seq<char>, reference: Seq<char>) -> Result<
    Seq<char>,
    UrlErrorView,
> {
    match url_parse(reference) {
        ParseOutcome::RelativeWithoutBase(_) => expect_url_spec(url_join(base, reference), ""@),
        outcome => match expect_url_spec(outcome, "Invalid URL: "@) {
            Ok(text) => check_scheme_spec(text),
            Err(error) => Err(error),
        },
    }
}

/// The canonical form of `reference` as found on the page `base`: resolved,
/// then without its fragment.
pub open spec fn canonical_spec(base: Seq<char>, reference: Seq<char>) -> Result<
    Seq<char>,
    UrlErrorView,
> {
    match resolve_spec(base, reference) {
        Ok(text) => expect_url_spec(url_without_fragment(text), ""@),
        Err(error) => Err(error),
    }
}

/// Resolves a reference found on the page `base` into an absolute URL without
/// a fragment.
///
/// An absolute reference is taken as it is if its scheme is empty or begins
/// with `http`, and refused with `InvalidScheme` otherwise. A relative
/// reference is resolved against `base`. Whatever else fails to parse is
/// refused with `InvalidUrl`.
pub fn canonical(base: &Url, url: &str) -> (result: Result<Url, UrlError>)
    ensures
        url_result_view(result) == canonical_spec(base@, url@),
{
    let resolved = match parse(url) {
        Parsed::RelativeWithoutBase(_) => expect_url(join(base.as_str(), url), ""),
        parsed => match expect_url(parsed, "Invalid URL: ") {
            Ok(text) => check_scheme(text),
            Err(error) => Err(error),
        },
    };
    match resolved {
        Ok(text) => match expect_url(without_fragment(text.as_str()), "") {
            Ok(text) => Ok(Url { text }),
            Err(error) => Err(error),
        },
        Err(error) => Err(error),
    }
}

/// Whether a URL is in canonical form: whether parsing its text gives the
/// text back, and removing its fragment does too. Both are tried.
pub fn is_canonical_url(url: &Url) -> (canonical: bool)
    ensures
        canonical == is_canonical(url@),
{
    let parsed = match parse(url.as_str()) {
        Parsed::Url(text) => text == url.text,
        _ => false,
    };
    let stripped = match without_fragment(url.as_str()) {
        Parsed::Url(text) => text == url.text,
        _ => false,
    };
    parsed && stripped
}

/// A URL in canonical form and of a followed scheme is its own canonical
/// form, whatever the base: canonicalizing it again gives it back. Whether a
/// URL is such a one can be tried, with `is_canonical_url` and
/// `has_accepted_scheme`.
pub proof fn lemma_canonical_fixed_point(base: Seq<char>, canon: Seq<char>)
    requires
        is_canonical(canon),
        scheme_accepted(canon),
    ensures
        canonical_spec(base, canon) == Ok::<Seq<char>, UrlErrorView>(canon),
{
}

/// What `parse_target` gives: the URL that the text parses to, or an
/// `InvalidUrl` with the parser's message behind `Invalid URL: `.
pub open spec fn parse_target_spec(url: Seq<char>) -> Result<Seq<char>, UrlErrorView> {
    expect_url_spec(url_parse(url), "Invalid URL: "@)
}

/// Parses the URL at which a crawl starts.
pub fn parse_target(url: &str) -> (result: Result<Url, UrlError>)
    ensures
        url_result_view(result) == parse_target_spec(url@),
{
    match expect_url(parse(url), "Invalid URL: ") {
        Ok(text) => Ok(Url { text }),
        Err(error) => Err(error),
    }
}

/// The message for a URL that is too long to be given another path.
pub open spec fn too_long_message() -> Seq<char> {
    "URL is too long"@
}

/// The host form of a URL: the URL without fragment, without query and with
/// an empty path. A URL that is, without fragment and query, still longer
/// than `MAX_URL_LENGTH` characters has none: it is an `InvalidUrl`.
pub open spec fn host_url_spec(url: Seq<char>) -> Result<Seq<char>, UrlErrorView> {
    match expect_url_spec(url_without_fragment(url), ""@) {
        Ok(text) => match expect_url_spec(url_without_query(text), ""@) {
            Ok(text) => if text.len() <= MAX_URL_LENGTH {
                expect_url_spec(url_with_path(text, Seq::empty()), ""@)
            } else {
                Err(UrlErrorView::InvalidUrl(too_long_message()))
            },
            Err(error) => Err(error),
        },
        Err(error) => Err(error),
    }
}

/// Reduces a URL to its host form: scheme and host, with an empty path, no
/// query and no fragment. A URL of more than `MAX_URL_LENGTH` characters
/// before its query is refused as `InvalidUrl`.
pub fn host_url_from(url: &Url) -> (result: Result<Url, UrlError>)
    ensures
        url_result_view(result) == host_url_spec(url@),
{
    let text = match expect_url(without_fragment(url.as_str()), "") {
        Ok(text) => text,
        Err(error) => { return Err(error); },
    };
    let text = match expect_url(without_query(text.as_str()), "") {
        Ok(text) => text,
        Err(error) => { return Err(error); },
    };
    if text.as_str().unicode_len() > MAX_URL_LENGTH {
        return Err(UrlError::InvalidUrl(String::from_str("URL is too long")));
    }
    let empty = "";
    proof {
        reveal_strlit("");
        assert(empty@ =~= Seq::<char>::empty());
    }
    match expect_url(with_path(text.as_str(), empty), "") {
        Ok(text) => Ok(Url { text }),
        Err(error) => Err(error),
    }
}

/// The texts of a sequence of URLs, one by one.
pub open spec fn urls_view(urls: Seq<Url>) -> Seq<Seq<char>> {
    urls.map_values(|url: Url| url@)
}

/// The contents of a sequence of strings, one by one.
pub open spec fn strings_view(strings: Seq<String>) -> Seq<Seq<char>> {
    strings.map_values(|string: String| string@)
}

/// Whether a URL stands in a list of URLs.
pub fn contains_url(urls: &Vec<Url>, url: &Url) -> (found: bool)
    ensures
        found == urls_view(urls@).contains(url@),
{
    let mut i: usize = 0;
    while i < urls.len()
        invariant
            i <= urls.len(),
            forall|k: int| 0 <= k < i ==> urls_view(urls@)[k] != url@,
        decreases urls.len() - i,
    {
        if urls[i] == *url {
            assert(urls_view(urls@)[i as int] == url@);
            return true;
        }
        i += 1;
    }
    false
}

} // verus!
