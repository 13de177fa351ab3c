//! The settings of a WebSocket JSON-RPC server and the decisions it takes on
//! each new connection: whether it is admitted, and whether its handshake
//! passes the `Host` and `Origin` allow lists.

use crate::text::{bytes_eq, push_str, utf8_lossy, utf8_lossy_text};
use crate::types::error::Error;
use crate::utils::resource_limiting::Resources;
use vstd::prelude::*;

verus! {

/// Default maximum connections allowed.
pub const MAX_CONNECTIONS: u64 = 100;

/// Default maximum size in bytes of a request: ten mebibytes.
pub const TEN_MB_SIZE_BYTES: u32 = 10485760;

/// HTTP status with which a connection over the limit is turned away.
pub const TOO_MANY_REQUESTS_STATUS: u16 = 429;

/// HTTP status with which a handshake refused by an allow list is answered.
pub const FORBIDDEN_STATUS: u16 = 403;

/// Which values of a header are allowed.
#[derive(Debug, Clone)]
pub enum AllowedValue {
    /// Any value.
    Any,
    /// One of these values.
    OneOf(Vec<String>),
}

/// The message with which a header value is refused.
pub open spec fn denial(header: Seq<char>, value: Seq<u8>) -> Seq<char> {
    header + " denied: "@ + utf8_lossy_text(value)
}

impl AllowedValue {
    /// Whether the header value is allowed: a missing header always is, and
    /// with a list a present value must equal one of its entries byte for byte.
    pub open spec fn permits(&self, value: Option<Seq<u8>>) -> bool {
        match self {
            AllowedValue::Any => true,
            AllowedValue::OneOf(list) => match value {
                None => true,
                Some(v) => exists|i: int| 0 <= i < list@.len() && vstd::utf8::encode_utf8(#[trigger] list@[i]@) == v,
            },
        }
    }

    /// Checks a header value against the allowed ones.
    pub fn verify(&self, header: &str, value: Option<&[u8]>) -> (res: Result<(), Error>)
        ensures
            res is Ok <==> self.permits(match value {
                Some(v) => Some(v@),
                None => None,
            }),
            res is Err ==> value is Some && (res matches Err(Error::Request(text)) && text@ == denial(
                header@,
                value->0@,
            )),
            value is None ==> res is Ok,
            *self is Any ==> res is Ok,
            forall|list: Vec<String>, i: int|
                *self == AllowedValue::OneOf(list) && 0 <= i < list@.len() && value is Some
                    && vstd::utf8::encode_utf8(#[trigger] list@[i]@) == value->0@ ==> res is Ok,
    {
        match (self, value) {
            (AllowedValue::OneOf(list), Some(bytes)) => {
                let mut i: usize = 0;
                while i < list.len()
                    invariant
                        i <= list@.len(),
                        *self == AllowedValue::OneOf(*list),
                        value == Some(bytes),
                        forall|j: int| 0 <= j < i ==> vstd::utf8::encode_utf8(#[trigger] list@[j]@) != bytes@,
                    decreases list@.len() - i,
                {
                    let entry = list[i].as_str();
                    if bytes_eq(entry.as_bytes(), bytes) {
                        assert(vstd::utf8::encode_utf8(list@[i as int]@) == bytes@);
                        proof {
                            let l = self->OneOf_0;
                            assert(l@[i as int]@ == list@[i as int]@);
                            assert(vstd::utf8::encode_utf8(l@[i as int]@) == bytes@);
                        }
                        return Ok(());
                    }
                    i = i + 1;
                }
                let mut error = String::new();
                push_str(&mut error, header);
                push_str(&mut error, " denied: ");
                let shown = utf8_lossy(bytes);
                push_str(&mut error, shown.as_str());
                assert(error@ =~= denial(header@, bytes@));
                Err(Error::Request(error))
            },
            _ => Ok(()),
        }
    }
}

/// A header is allowed when it is missing, when any value is allowed, or
/// when its value equals, byte for byte, an entry of the allow list at any
/// position; and an allow list with one more entry still allows every value
/// it allowed before.
pub proof fn lemma_allow_list(list: Vec<String>, longer: Vec<String>, extra: String, value: Seq<u8>, i: int)
    ensures
        AllowedValue::Any.permits(Some(value)),
        AllowedValue::OneOf(list).permits(None),
        0 <= i < list@.len() && vstd::utf8::encode_utf8(list@[i]@) == value ==> AllowedValue::OneOf(list).permits(
            Some(value),
        ),
        longer@ == list@.push(extra) && AllowedValue::OneOf(list).permits(Some(value)) ==> AllowedValue::OneOf(
            longer,
        ).permits(Some(value)),
{
    let a = AllowedValue::OneOf(list);
    let b = AllowedValue::OneOf(longer);
    assert(a->OneOf_0 == list);
    assert(b->OneOf_0 == longer);
    if 0 <= i < list@.len() && vstd::utf8::encode_utf8(list@[i]@) == value {
        assert(vstd::utf8::encode_utf8((a->OneOf_0)@[i]@) == value);
    }
    if longer@ == list@.push(extra) && a.permits(Some(value)) {
        let j = choose|j: int| 0 <= j < list@.len() && vstd::utf8::encode_utf8(#[trigger] list@[j]@) == value;
        assert(longer@[j] == list@[j]);
        assert(vstd::utf8::encode_utf8((b->OneOf_0)@[j]@) == value);
    }
}

/// What becomes of a new connection.
#[derive(Debug, Clone, Copy, PartialEq, Eq)]
pub enum ConnectionVerdict {
    /// It is served under this connection ID.
    Accept {
        /// The ID of the connection.
        conn_id: usize,
    },
    /// Its handshake is answered with this HTTP status and it is closed.
    Reject {
        /// The HTTP status.
        status_code: u16,
    },
}

/// What becomes of a handshake.
#[derive(Debug)]
pub enum HandshakeVerdict {
    /// The connection is upgraded.
    Accept,
    /// The handshake is answered with this HTTP status and the connection ends with the error.
    Reject {
        /// The HTTP status.
        status_code: u16,
        /// Why.
        error: Error,
    },
}

/// What an HTTP server does with a request, from its headers and method.
#[derive(Debug, Clone, Copy, PartialEq, Eq, Structural)]
pub enum HttpVerdict {
    /// No `Host` header: the request is malformed.
    Malformed,
    /// The host is not allowed.
    HostNotAllowed,
    /// The origin is not allowed.
    OriginRejected,
    /// A `POST` with JSON content: the JSON-RPC request is processed.
    Process,
    /// A `POST` with other content.
    UnsupportedContentType,
    /// Any other method.
    MethodNotAllowed,
}

/// Decides on an HTTP request: it needs a `Host` header, an allowed host,
/// an allowed origin (checked in that order), and must be a `POST` of JSON.
pub fn http_request_verdict(
    has_host: bool,
    host_allowed: bool,
    origin_allowed: bool,
    is_post: bool,
    is_json: bool,
) -> (res: HttpVerdict)
    ensures
        res == (if !has_host {
            HttpVerdict::Malformed
        } else if !host_allowed {
            HttpVerdict::HostNotAllowed
        } else if !origin_allowed {
            HttpVerdict::OriginRejected
        } else if is_post && is_json {
            HttpVerdict::Process
        } else if is_post {
            HttpVerdict::UnsupportedContentType
        } else {
            HttpVerdict::MethodNotAllowed
        }),
{
    if !has_host {
        HttpVerdict::Malformed
    } else if !host_allowed {
        HttpVerdict::HostNotAllowed
    } else if !origin_allowed {
        HttpVerdict::OriginRejected
    } else if is_post && is_json {
        HttpVerdict::Process
    } else if is_post {
        HttpVerdict::UnsupportedContentType
    } else {
        HttpVerdict::MethodNotAllowed
    }
}

/// JSON-RPC Websocket server settings.
#[derive(Debug, Clone)]
pub struct Settings {
    /// Maximum size in bytes of a request.
    pub max_request_body_size: u32,
    /// Maximum number of incoming connections allowed.
    pub max_connections: u64,
    /// Policy by which to accept or deny incoming requests based on the `Origin` header.
    pub allowed_origins: AllowedValue,
    /// Policy by which to accept or deny incoming requests based on the `Host` header.
    pub allowed_hosts: AllowedValue,
}

impl Default for Settings {
    fn default() -> (res: Self)
        ensures
            res.max_request_body_size == TEN_MB_SIZE_BYTES,
            res.max_connections == MAX_CONNECTIONS,
            res.allowed_origins is Any,
            res.allowed_hosts is Any,
    {
        Settings {
            max_request_body_size: TEN_MB_SIZE_BYTES,
            max_connections: MAX_CONNECTIONS,
            allowed_origins: AllowedValue::Any,
            allowed_hosts: AllowedValue::Any,
        }
    }
}

impl Settings {
    /// Decides on a new connection while `open_connections` are being served:
    /// at the limit it is turned away with status 429, else it is accepted
    /// under `next_id`. Returns the verdict and the ID for the connection
    /// after it, which moves on (wrapping) only when one was accepted.
    pub fn admit_connection(&self, open_connections: usize, next_id: usize) -> (res: (ConnectionVerdict, usize))
        ensures
            open_connections >= (self.max_connections as usize) ==> res == (
                ConnectionVerdict::Reject { status_code: TOO_MANY_REQUESTS_STATUS },
                next_id,
            ),
            open_connections < (self.max_connections as usize) ==> res == (
                ConnectionVerdict::Accept { conn_id: next_id },
                if next_id == usize::MAX { 0 } else { (next_id + 1) as usize },
            ),
    {
        if open_connections >= self.max_connections as usize {
            (ConnectionVerdict::Reject { status_code: TOO_MANY_REQUESTS_STATUS }, next_id)
        } else {
            (ConnectionVerdict::Accept { conn_id: next_id }, next_id.wrapping_add(1))
        }
    }

    /// Checks the `Host` and `Origin` headers of a handshake request: both must
    /// be allowed; when the host is refused, that refusal is the one reported.
    /// A refused handshake is answered with status 403.
    pub fn verify_handshake(&self, host: &[u8], origin: Option<&[u8]>) -> (res: HandshakeVerdict)
        ensures
            self.allowed_hosts.permits(Some(host@)) && self.allowed_origins.permits(match origin {
                Some(v) => Some(v@),
                None => None,
            }) <==> res is Accept,
            !self.allowed_hosts.permits(Some(host@)) ==> (res matches HandshakeVerdict::Reject {
                status_code,
                error: Error::Request(text),
            } && status_code == FORBIDDEN_STATUS && text@ == denial("Host"@, host@)),
            self.allowed_hosts.permits(Some(host@)) && !self.allowed_origins.permits(match origin {
                Some(v) => Some(v@),
                None => None,
            }) ==> (res matches HandshakeVerdict::Reject { status_code, error: Error::Request(text) }
                && status_code == FORBIDDEN_STATUS && text@ == denial("Origin"@, origin->0@)),
    {
        let host_check = self.allowed_hosts.verify("Host", Some(host));
        match host_check {
            Err(error) => HandshakeVerdict::Reject { status_code: FORBIDDEN_STATUS, error },
            Ok(()) => match self.allowed_origins.verify("Origin", origin) {
                Err(error) => HandshakeVerdict::Reject { status_code: FORBIDDEN_STATUS, error },
                Ok(()) => HandshakeVerdict::Accept,
            },
        }
    }
}

/// Builder to configure and create a JSON-RPC Websocket server
#[derive(Debug)]
pub struct Builder<M> {
    settings: Settings,
    resources: Resources,
    middleware: M,
}

impl Builder<()> {
    /// Create a default server builder.
    pub fn new() -> (res: Self)
        ensures
            res.wf(),
            res.spec_settings().max_request_body_size == TEN_MB_SIZE_BYTES,
            res.spec_settings().max_connections == MAX_CONNECTIONS,
            res.spec_settings().allowed_origins is Any,
            res.spec_settings().allowed_hosts is Any,
            res.spec_resources().label_seq() == Seq::<Seq<char>>::empty(),
    {
        Builder { settings: Settings::default(), resources: Resources::new(), middleware: () }
    }
}

impl<M> Builder<M> {
    /// The settings so far.
    pub closed spec fn spec_settings(&self) -> Settings {
        self.settings
    }

    /// The resources registered so far.
    pub closed spec fn spec_resources(&self) -> Resources {
        self.resources
    }

    /// The middleware.
    pub closed spec fn spec_middleware(&self) -> M {
        self.middleware
    }

    /// The registered resources are well formed.
    pub closed spec fn wf(&self) -> bool {
        self.resources.wf()
    }

    /// Set the maximum size of a request body in bytes. Default is 10 MiB.
    pub fn max_request_body_size(self, size: u32) -> (res: Self)
        ensures
            res.spec_settings() == (Settings { max_request_body_size: size, ..self.spec_settings() }),
            res.spec_resources() == self.spec_resources(),
            res.spec_middleware() == self.spec_middleware(),
            res.wf() == self.wf(),
    {
        let mut this = self;
        this.settings.max_request_body_size = size;
        this
    }

    /// Set the maximum number of connections allowed. Default is 100.
    pub fn max_connections(self, max: u64) -> (res: Self)
        ensures
            res.spec_settings() == (Settings { max_connections: max, ..self.spec_settings() }),
            res.spec_resources() == self.spec_resources(),
            res.spec_middleware() == self.spec_middleware(),
            res.wf() == self.wf(),
    {
        let mut this = self;
        this.settings.max_connections = max;
        this
    }

    /// Register a new resource kind. Errors if `label` is already registered, or if the number of
    /// registered resources on this server instance would exceed 8.
    pub fn register_resource(self, label: &'static str, capacity: u16, default: u16) -> (res: Result<Self, Error>)
        requires
            self.wf(),
        ensures
            self.spec_resources().label_seq().contains(label@) ==> res == Err::<Self, Error>(
                Error::ResourceNameAlreadyTaken(label),
            ),
            !self.spec_resources().label_seq().contains(label@) && self.spec_resources().label_seq().len() == 8
                ==> res == Err::<Self, Error>(Error::MaxResourcesReached),
            !self.spec_resources().label_seq().contains(label@) && self.spec_resources().label_seq().len() < 8 ==> {
                let idx = self.spec_resources().label_seq().len() as int;
                &&& res matches Ok(b)
                &&& b.wf()
                &&& b.spec_settings() == self.spec_settings()
                &&& b.spec_middleware() == self.spec_middleware()
                &&& b.spec_resources().label_seq() == self.spec_resources().label_seq().push(label@)
                &&& b.spec_resources().capacity_table() == self.spec_resources().capacity_table().update(idx, capacity)
                &&& b.spec_resources().default_table() == self.spec_resources().default_table().update(idx, default)
                &&& b.spec_resources().totals() == self.spec_resources().totals()
            },
    {
        let mut this = self;
        match this.resources.register(label, capacity, default) {
            Ok(()) => Ok(this),
            Err(e) => Err(e),
        }
    }

    /// Set a list of allowed origins. During the handshake, the `Origin` header will be
    /// checked against the list, connections without a matching origin will be denied.
    /// Values should be hostnames with protocol.
    ///
    /// Will return an error if `list` is empty. Use [`allow_all_origins`](Builder::allow_all_origins) to restore the
    /// default.
    pub fn set_allowed_origins(self, list: Vec<String>) -> (res: Result<Self, Error>)
        ensures
            list@.len() == 0 ==> res == Err::<Self, Error>(Error::EmptyAllowList("Origin")),
            list@.len() > 0 ==> (res matches Ok(b) && b.spec_settings() == (Settings {
                allowed_origins: AllowedValue::OneOf(list),
                ..self.spec_settings()
            }) && b.spec_resources() == self.spec_resources() && b.spec_middleware() == self.spec_middleware()
                && b.wf() == self.wf()),
    {
        if list.len() == 0 {
            return Err(Error::EmptyAllowList("Origin"));
        }
        let mut this = self;
        this.settings.allowed_origins = AllowedValue::OneOf(list);
        Ok(this)
    }

    /// Add a middleware to the builder.
    pub fn set_middleware<T>(self, middleware: T) -> (res: Builder<T>)
        ensures
            res.spec_settings() == self.spec_settings(),
            res.spec_resources() == self.spec_resources(),
            res.spec_middleware() == middleware,
            res.wf() == self.wf(),
    {
        Builder { settings: self.settings, resources: self.resources, middleware }
    }

    /// Restores the default behavior of allowing connections with `Origin` header
    /// containing any value. This will undo any list set by [`set_allowed_origins`](Builder::set_allowed_origins).
    pub fn allow_all_origins(self) -> (res: Self)
        ensures
            res.spec_settings() == (Settings { allowed_origins: AllowedValue::Any, ..self.spec_settings() }),
            res.spec_resources() == self.spec_resources(),
            res.spec_middleware() == self.spec_middleware(),
            res.wf() == self.wf(),
    {
        let mut this = self;
        this.settings.allowed_origins = AllowedValue::Any;
        this
    }

    /// Set a list of allowed hosts. During the handshake, the `Host` header will be
    /// checked against the list. Connections without a matching host will be denied.
    /// Values should be hostnames without protocol.
    ///
    /// Will return an error if `list` is empty. Use [`allow_all_hosts`](Builder::allow_all_hosts) to restore the
    /// default.
    pub fn set_allowed_hosts(self, list: Vec<String>) -> (res: Result<Self, Error>)
        ensures
            list@.len() == 0 ==> res == Err::<Self, Error>(Error::EmptyAllowList("Host")),
            list@.len() > 0 ==> (res matches Ok(b) && b.spec_settings() == (Settings {
                allowed_hosts: AllowedValue::OneOf(list),
                ..self.spec_settings()
            }) && b.spec_resources() == self.spec_resources() && b.spec_middleware() == self.spec_middleware()
                && b.wf() == self.wf()),
    {
        if list.len() == 0 {
            return Err(Error::EmptyAllowList("Host"));
        }
        let mut this = self;
        this.settings.allowed_hosts = AllowedValue::OneOf(list);
        Ok(this)
    }

    /// Restores the default behavior of allowing connections with `Host` header
    /// containing any value. This will undo any list set by [`set_allowed_hosts`](Builder::set_allowed_hosts).
    pub fn allow_all_hosts(self) -> (res: Self)
        ensures
            res.spec_settings() == (Settings { allowed_hosts: AllowedValue::Any, ..self.spec_settings() }),
            res.spec_resources() == self.spec_resources(),
            res.spec_middleware() == self.spec_middleware(),
            res.wf() == self.wf(),
    {
        let mut this = self;
        this.settings.allowed_hosts = AllowedValue::Any;
        this
    }

    /// Finalize the configuration: the settings, the resources and the
    /// middleware that the server is started with once it is bound.
    pub fn finish(self) -> (res: (Settings, Resources, M))
        ensures
            res.0 == self.spec_settings(),
            res.1 == self.spec_resources(),
            res.2 == self.spec_middleware(),
    {
        (self.settings, self.resources, self.middleware)
    }
}

} // verus!
