//! The WebSocket address a client connects to: reading it from a URL, and
//! following the redirections a server answers the handshake with.

use crate::text::{decimal, push_decimal, push_str, str_eq};
use vstd::prelude::*;

verus! {

/// What `url::Url::parse` makes of a text, as plain values.
#[derive(Debug)]
pub enum UrlParse {
    /// An absolute URL: its scheme, its host if it has one, its port (the
    /// explicit one, or the scheme's default), and its path.
    Parsed {
        /// Scheme.
        scheme: String,
        /// Host.
        host: Option<String>,
        /// Port.
        port: Option<u16>,
        /// Path.
        path: String,
    },
    /// A relative URL, which cannot be parsed without a base; with the error's message.
    Relative(String),
    /// Any other failure; with the error's message.
    Invalid(String),
}

/// The mathematical view of a [`UrlParse`].
pub enum UrlParseView {
    /// An absolute URL: scheme, host, port, path.
    Parsed(Seq<char>, Option<Seq<char>>, Option<u16>, Seq<char>),
    /// A relative URL, with the error's message.
    Relative(Seq<char>),
    /// Any other failure, with the error's message.
    Invalid(Seq<char>),
}

impl View for UrlParse {
    type V = UrlParseView;

    open spec fn view(&self) -> UrlParseView {
        match self {
            UrlParse::Parsed { scheme, host, port, path } => UrlParseView::Parsed(
                scheme@,
                match host {
                    Some(h) => Some(h@),
                    None => None,
                },
                *port,
                path@,
            ),
            UrlParse::Relative(m) => UrlParseView::Relative(m@),
            UrlParse::Invalid(m) => UrlParseView::Invalid(m@),
        }
    }
}

/// What `url::Url::parse` makes of a text.
pub uninterp spec fn url_parse_outcome(input: Seq<char>) -> UrlParseView;

/// Calls `url::Url::parse` and hands out the parts of the URL that the
/// client reads (`scheme`, `host_str`, `port_or_known_default`, `path`), or
/// the error's message, telling the two kinds of relative URL apart.
#[verifier::external_body]
fn parse_url(input: &str) -> (res: UrlParse)
    ensures
        res@ == url_parse_outcome(input@),
{
    match url::Url::parse(input) {
        Ok(url) => UrlParse::Parsed {
            scheme: url.scheme().to_owned(),
            host: match url.host_str() {
                Some(h) => Some(h.to_owned()),
                None => None,
            },
            port: url.port_or_known_default(),
            path: url.path().to_owned(),
        },
        Err(e @ url::ParseError::RelativeUrlWithoutBase) => UrlParse::Relative(e.to_string()),
        Err(e @ url::ParseError::RelativeUrlWithCannotBeABaseBase) => UrlParse::Relative(e.to_string()),
        Err(e) => UrlParse::Invalid(e.to_string()),
    }
}

/// Stream mode, either plain TCP or TLS.
#[derive(Clone, Copy, Debug, PartialEq, Eq, Structural)]
pub enum Mode {
    /// Plain mode (`ws://` URL).
    Plain,
    /// TLS mode (`wss://` URL).
    Tls,
}

/// Error that can happen while finding the server and during the handshake.
#[derive(Debug)]
pub enum WsHandshakeError {
    /// Invalid URL.
    Url(String),
    /// The server rejected our handshake.
    Rejected {
        /// HTTP status code that the server returned.
        status_code: u16,
    },
    /// Couldn't find any IP address for this hostname.
    NoAddressFound(String),
}

/// Represents a verified remote WebSocket address: where to connect and what
/// to ask for. The socket addresses of the host are looked up when connecting.
#[derive(Debug, Clone)]
pub struct Target {
    /// The host name (domain or IP address).
    pub host: String,
    /// The Host request header specifies the host and port number of the server to which the request is being sent.
    pub host_header: String,
    /// WebSocket stream mode, see [`Mode`] for further documentation.
    pub mode: Mode,
    /// The HTTP host resource path.
    pub path: String,
}

/// The target that a parsed URL denotes, or the message of the error that
/// refuses it: the scheme must be `ws` (plain) or `wss` (TLS), and there must
/// be a host and a port; the Host header is the host, a colon and the port.
pub open spec fn target_of(url: UrlParseView) -> Result<(Seq<char>, Seq<char>, Mode, Seq<char>), Seq<char>> {
    match url {
        UrlParseView::Parsed(scheme, host, port, path) => {
            if scheme != "ws"@ && scheme != "wss"@ {
                Err("URL scheme not supported, expects 'ws' or 'wss'"@)
            } else if host is None {
                Err("No host in URL"@)
            } else if port is None {
                Err("No port number in URL"@)
            } else {
                Ok(
                    (
                        host->0,
                        host->0 + ":"@ + decimal(port->0 as nat),
                        if scheme == "ws"@ { Mode::Plain } else { Mode::Tls },
                        path,
                    ),
                )
            }
        },
        UrlParseView::Relative(msg) => Err("Invalid URL: "@ + msg),
        UrlParseView::Invalid(msg) => Err("Invalid URL: "@ + msg),
    }
}

impl Target {
    /// The host, the Host header, the mode and the path.
    pub open spec fn parts(&self) -> (Seq<char>, Seq<char>, Mode, Seq<char>) {
        (self.host@, self.host_header@, self.mode, self.path@)
    }

    /// The target that a parsed URL denotes.
    pub fn from_url(url: UrlParse) -> (res: Result<Self, WsHandshakeError>)
        ensures
            target_of(url@) matches Ok(parts) ==> (res matches Ok(t) && t.parts() == parts),
            target_of(url@) matches Err(msg) ==> (res matches Err(WsHandshakeError::Url(m)) && m@ == msg),
    {
        match url {
            UrlParse::Parsed { scheme, host, port, path } => {
                let mode = if str_eq(scheme.as_str(), "ws") {
                    Mode::Plain
                } else if str_eq(scheme.as_str(), "wss") {
                    Mode::Tls
                } else {
                    return Err(WsHandshakeError::Url("URL scheme not supported, expects 'ws' or 'wss'".to_owned()));
                };
                let host = match host {
                    Some(h) => h,
                    None => return Err(WsHandshakeError::Url("No host in URL".to_owned())),
                };
                let port = match port {
                    Some(p) => p,
                    None => return Err(WsHandshakeError::Url("No port number in URL".to_owned())),
                };
                let mut host_header = host.clone();
                push_str(&mut host_header, ":");
                push_decimal(&mut host_header, port as u64);
                Ok(Target { host, host_header, mode, path })
            },
            UrlParse::Relative(msg) => {
                let mut m = "Invalid URL: ".to_owned();
                push_str(&mut m, msg.as_str());
                Err(WsHandshakeError::Url(m))
            },
            UrlParse::Invalid(msg) => {
                let mut m = "Invalid URL: ".to_owned();
                push_str(&mut m, msg.as_str());
                Err(WsHandshakeError::Url(m))
            },
        }
    }

    /// Parse an URL String to a WebSocket address.
    pub fn parse(url: &str) -> (res: Result<Self, WsHandshakeError>)
        ensures
            target_of(url_parse_outcome(url@)) matches Ok(parts) ==> (res matches Ok(t) && t.parts() == parts),
            target_of(url_parse_outcome(url@)) matches Err(msg) ==> (res matches Err(WsHandshakeError::Url(m))
                && m@ == msg),
    {
        Target::from_url(parse_url(url))
    }

    /// Follows a redirection of the handshake to `location`, given what
    /// parsing it as a URL gave: an absolute URL becomes the new target, a
    /// relative one replaces only the path, and anything else is an error
    /// that leaves the target as it was.
    pub fn follow_redirect_parsed(&mut self, location: String, parsed: UrlParse) -> (res: Result<(), WsHandshakeError>)
        ensures
            parsed@ matches UrlParseView::Relative(_) ==> res is Ok && final(self).parts() == (
                old(self).host@,
                old(self).host_header@,
                old(self).mode,
                location@,
            ),
            !(parsed@ is Relative) ==> ({
                &&& target_of(parsed@) matches Ok(parts) ==> res is Ok && final(self).parts() == parts
                &&& target_of(parsed@) matches Err(msg) ==> (res matches Err(WsHandshakeError::Url(m)) && m@ == msg)
                    && final(self).parts() == old(self).parts()
            }),
    {
        match parsed {
            UrlParse::Relative(_) => {
                self.path = location;
                Ok(())
            },
            other => match Target::from_url(other) {
                Ok(target) => {
                    *self = target;
                    Ok(())
                },
                Err(e) => Err(e),
            },
        }
    }

    /// Follows a redirection of the handshake to `location`.
    pub fn follow_redirect(&mut self, location: String) -> (res: Result<(), WsHandshakeError>)
        ensures
            url_parse_outcome(location@) matches UrlParseView::Relative(_) ==> res is Ok && final(self).parts() == (
                old(self).host@,
                old(self).host_header@,
                old(self).mode,
                location@,
            ),
            !(url_parse_outcome(location@) is Relative) ==> ({
                &&& target_of(url_parse_outcome(location@)) matches Ok(parts) ==> res is Ok && final(self).parts() == parts
                &&& target_of(url_parse_outcome(location@)) matches Err(msg) ==> (res matches Err(
                    WsHandshakeError::Url(m),
                ) && m@ == msg) && final(self).parts() == old(self).parts()
            }),
    {
        let parsed = parse_url(location.as_str());
        self.follow_redirect_parsed(location, parsed)
    }
}

} // verus!
