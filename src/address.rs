//! Checking a URL before any request is made, and classifying why it was refused.

use vstd::prelude::*;
use vstd::string::*;
use crate::text::{contains, contains_text, same_text};

verus! {

/// A URL that parsed and whose scheme is `http` or `https`.
pub struct ValidatedUrl {
    /// The scheme, lower case, without the `:`.
    pub scheme: String,
    /// The URL in its normalised serialisation.
    pub href: String,
}

impl ValidatedUrl {
    /// The scheme is one that requests can be sent to.
    pub open spec fn wf(&self) -> bool {
        self.scheme@ == "http"@ || self.scheme@ == "https"@
    }
}

/// The parts of a URL that parsed, before the scheme is checked.
pub struct ParsedUrl {
    pub scheme: String,
    pub href: String,
}

/// Why a URL was refused.
pub enum UrlErrorKind {
    /// The text is a relative URL: it has no scheme.
    MissingBaseProtocol,
    /// The URL parsed, but its scheme is neither `http` nor `https`.
    UnsupportedScheme,
    InvalidPort,
    InvalidIPv4,
    InvalidIPv6,
    /// Any other parse failure, with the parser's own message.
    Other(String),
}

/// What parsing `raw` as an absolute URL gives: the scheme and the
/// serialisation on success, the parser's message on failure.
pub uninterp spec fn url_parse_outcome(raw: Seq<char>) -> Result<(Seq<char>, Seq<char>), Seq<char>>;

/// Relies on `url::Url::parse`; on success `Url::scheme` and `Url::as_str`
/// give the parts, on failure the `Display` text of `url::ParseError` gives
/// the message. The outcome depends on the input text alone.
#[verifier::external_body]
fn parse_url(raw: &str) -> (r: Result<ParsedUrl, String>)
    ensures
        match r {
            Ok(p) => url_parse_outcome(raw@) == Ok::<(Seq<char>, Seq<char>), Seq<char>>((p.scheme@, p.href@)),
            Err(m) => url_parse_outcome(raw@) == Err::<(Seq<char>, Seq<char>), Seq<char>>(m@),
        },
{
    match url::Url::parse(raw) {
        Ok(u) => Ok(ParsedUrl { scheme: u.scheme().to_string(), href: u.as_str().to_string() }),
        Err(e) => Err(e.to_string()),
    }
}

/// `kind` is the classification of the parser message `msg`, by the phrases
/// that the message contains, tried in a fixed order.
pub open spec fn classifies(kind: &UrlErrorKind, msg: Seq<char>) -> bool {
    let relative = contains(msg, "relative URL"@);
    let port = contains(msg, "invalid port number"@);
    let ipv4 = contains(msg, "invalid IPv4 address"@);
    let ipv6 = contains(msg, "invalid IPv6 address"@);
    match kind {
        UrlErrorKind::MissingBaseProtocol => relative,
        UrlErrorKind::InvalidPort => !relative && port,
        UrlErrorKind::InvalidIPv4 => !relative && !port && ipv4,
        UrlErrorKind::InvalidIPv6 => !relative && !port && !ipv4 && ipv6,
        UrlErrorKind::Other(m) => !relative && !port && !ipv4 && !ipv6 && m@ == msg,
        UrlErrorKind::UnsupportedScheme => false,
    }
}

/// `r` is the result of checking a URL of which the parser gave `outcome`:
/// the parts pass through when the scheme is `http` or `https`.
pub open spec fn validates(r: &Result<ValidatedUrl, UrlErrorKind>, outcome: Result<(Seq<char>, Seq<char>), Seq<char>>) -> bool {
    match outcome {
        Ok((scheme, href)) => if scheme == "http"@ || scheme == "https"@ {
            r matches Ok(u) && u.scheme@ == scheme && u.href@ == href
        } else {
            r matches Err(UrlErrorKind::UnsupportedScheme)
        },
        Err(msg) => r matches Err(k) && classifies(&k, msg),
    }
}

/// Classifies a parser message.
pub fn classify_message(msg: String) -> (k: UrlErrorKind)
    ensures
        classifies(&k, msg@),
{
    if contains_text(msg.as_str(), "relative URL") {
        UrlErrorKind::MissingBaseProtocol
    } else if contains_text(msg.as_str(), "invalid port number") {
        UrlErrorKind::InvalidPort
    } else if contains_text(msg.as_str(), "invalid IPv4 address") {
        UrlErrorKind::InvalidIPv4
    } else if contains_text(msg.as_str(), "invalid IPv6 address") {
        UrlErrorKind::InvalidIPv6
    } else {
        UrlErrorKind::Other(msg)
    }
}

/// Checks what the parser made of a URL: a parse failure is classified, and
/// a URL whose scheme is not `http` or `https` is refused.
pub fn check_parsed(outcome: Result<ParsedUrl, String>) -> (r: Result<ValidatedUrl, UrlErrorKind>)
    ensures
        r matches Ok(u) ==> u.wf(),
        validates(
            &r,
            match outcome {
                Ok(p) => Ok((p.scheme@, p.href@)),
                Err(m) => Err(m@),
            },
        ),
{
    match outcome {
        Ok(p) => {
            if same_text(p.scheme.as_str(), "http") || same_text(p.scheme.as_str(), "https") {
                Ok(ValidatedUrl { scheme: p.scheme, href: p.href })
            } else {
                Err(UrlErrorKind::UnsupportedScheme)
            }
        },
        Err(m) => Err(classify_message(m)),
    }
}

/// Parses and checks a URL.
pub fn validate(raw: &str) -> (r: Result<ValidatedUrl, UrlErrorKind>)
    ensures
        r matches Ok(u) ==> u.wf(),
        validates(&r, url_parse_outcome(raw@)),
{
    check_parsed(parse_url(raw))
}

impl UrlErrorKind {
    /// The message shown to the user. A URL without a scheme and one with a
    /// scheme other than `http` or `https` get the same message.
    pub open spec fn spec_message(&self) -> Seq<char> {
        match self {
            UrlErrorKind::MissingBaseProtocol => "Error: The URL does not have a valid base protocol."@,
            UrlErrorKind::UnsupportedScheme => "Error: The URL does not have a valid base protocol."@,
            UrlErrorKind::InvalidPort => "Error: The URL contains an invalid port number."@,
            UrlErrorKind::InvalidIPv4 => "Error: The URL contains an invalid IPv4 address."@,
            UrlErrorKind::InvalidIPv6 => "Error: The URL contains an invalid IPv6 address."@,
            UrlErrorKind::Other(m) => "Error: "@ + m@,
        }
    }

    /// The message shown to the user.
    pub fn message(&self) -> (r: String)
        ensures
            r@ == self.spec_message(),
    {
        match self {
            UrlErrorKind::MissingBaseProtocol => String::from_str("Error: The URL does not have a valid base protocol."),
            UrlErrorKind::UnsupportedScheme => String::from_str("Error: The URL does not have a valid base protocol."),
            UrlErrorKind::InvalidPort => String::from_str("Error: The URL contains an invalid port number."),
            UrlErrorKind::InvalidIPv4 => String::from_str("Error: The URL contains an invalid IPv4 address."),
            UrlErrorKind::InvalidIPv6 => String::from_str("Error: The URL contains an invalid IPv6 address."),
            UrlErrorKind::Other(m) => {
                let mut r = String::from_str("Error: ");
                r.append(m.as_str());
                r
            },
        }
    }
}

} // verus!
