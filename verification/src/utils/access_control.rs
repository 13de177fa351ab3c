//! Access control on the HTTP layer: which hosts may connect, which origins
//! CORS allows, and which request headers.

use vstd::prelude::*;

verus! {

/// A host name, with an optional port.
#[derive(Debug, Clone, PartialEq, Eq)]
pub struct Host(pub String);

/// Allowed origin of a CORS request.
#[derive(Debug, Clone, PartialEq, Eq)]
pub enum AccessControlAllowOrigin {
    /// A specific origin.
    Value(String),
    /// The `null` origin.
    Null,
    /// Any origin.
    Any,
}

/// Hosts that may connect.
#[derive(Debug, Clone, PartialEq, Eq)]
pub enum AllowHosts {
    /// Any host.
    Any,
    /// Only these hosts.
    Only(Vec<Host>),
}

/// Request headers that CORS allows.
#[derive(Debug, Clone, PartialEq, Eq)]
pub enum AccessControlAllowHeaders {
    /// Any header.
    Any,
    /// Only these headers.
    Only(Vec<String>),
}

/// Define access on control on http layer
#[derive(Debug, Clone)]
pub struct AccessControl {
    /// Hosts that may connect.
    pub allow_hosts: AllowHosts,
    /// Origins that CORS allows; `None` allows any.
    pub cors_allow_origin: Option<Vec<AccessControlAllowOrigin>>,
    /// How long a browser may cache the CORS answer, in seconds.
    pub cors_max_age: Option<u32>,
    /// Request headers that CORS allows.
    pub cors_allow_headers: AccessControlAllowHeaders,
    /// Whether a request with invalid CORS headers is still served.
    pub continue_on_invalid_cors: bool,
}

impl Default for AccessControl {
    fn default() -> (res: Self)
        ensures
            res.allow_hosts == AllowHosts::Any,
            res.cors_allow_origin is None,
            res.cors_max_age is None,
            res.cors_allow_headers == AccessControlAllowHeaders::Any,
            !res.continue_on_invalid_cors,
    {
        AccessControl {
            allow_hosts: AllowHosts::Any,
            cors_allow_origin: None,
            cors_max_age: None,
            cors_allow_headers: AccessControlAllowHeaders::Any,
            continue_on_invalid_cors: false,
        }
    }
}

/// Convenience builder pattern
#[derive(Debug)]
pub struct AccessControlBuilder {
    allow_hosts: AllowHosts,
    cors_allow_origin: Option<Vec<AccessControlAllowOrigin>>,
    cors_max_age: Option<u32>,
    cors_allow_headers: AccessControlAllowHeaders,
    continue_on_invalid_cors: bool,
}

/// The hosts allowed after one more host is allowed: a list that allowed any
/// host becomes the list of just that host.
pub open spec fn with_host(hosts: AllowHosts, host: Host) -> Seq<Host> {
    match hosts {
        AllowHosts::Any => seq![host],
        AllowHosts::Only(v) => v@.push(host),
    }
}

/// The headers allowed after one more header is allowed: a list that allowed
/// any header becomes the list of just that header.
pub open spec fn with_header(headers: AccessControlAllowHeaders, header: String) -> Seq<String> {
    match headers {
        AccessControlAllowHeaders::Any => seq![header],
        AccessControlAllowHeaders::Only(v) => v@.push(header),
    }
}

/// The origins allowed after one more origin is allowed.
pub open spec fn with_origin(origins: Option<Vec<AccessControlAllowOrigin>>, origin: AccessControlAllowOrigin) -> Seq<AccessControlAllowOrigin> {
    match origins {
        None => seq![origin],
        Some(v) => v@.push(origin),
    }
}

/// Allowing one more header keeps every header allowed before, in order,
/// and adds the new one at the end; a builder that allowed any header then
/// allows just the new one. Allowing two headers one after the other adds
/// both, in the order they were allowed.
pub proof fn lemma_with_header(headers: AccessControlAllowHeaders, a: String, b: String)
    ensures
        headers matches AccessControlAllowHeaders::Only(v) ==> {
            let after = with_header(headers, a);
            &&& after.len() == v@.len() + 1
            &&& after.last() == a
            &&& forall|i: int| 0 <= i < v@.len() ==> #[trigger] after[i] == v@[i]
        },
        headers is Any ==> with_header(headers, a).len() == 1 && with_header(headers, a)[0] == a,
        headers matches AccessControlAllowHeaders::Only(v) ==> with_header(headers, a).push(b) =~= v@ + seq![a, b],
{
}

/// Allowing one more host keeps every host allowed before, in order, and
/// adds the new one at the end; a builder that allowed any host then allows
/// just the new one.
pub proof fn lemma_with_host(hosts: AllowHosts, host: Host)
    ensures
        hosts matches AllowHosts::Only(v) ==> {
            let after = with_host(hosts, host);
            &&& after.len() == v@.len() + 1
            &&& after.last() == host
            &&& forall|i: int| 0 <= i < v@.len() ==> #[trigger] after[i] == v@[i]
        },
        hosts is Any ==> with_host(hosts, host).len() == 1 && with_host(hosts, host)[0] == host,
{
}

/// Allowing one more origin keeps every origin allowed before, in order,
/// and adds the new one at the end; a builder that allowed any origin then
/// allows just the new one.
pub proof fn lemma_with_origin(origins: Option<Vec<AccessControlAllowOrigin>>, origin: AccessControlAllowOrigin)
    ensures
        origins matches Some(v) ==> {
            let after = with_origin(origins, origin);
            &&& after.len() == v@.len() + 1
            &&& after.last() == origin
            &&& forall|i: int| 0 <= i < v@.len() ==> #[trigger] after[i] == v@[i]
        },
        origins is None ==> with_origin(origins, origin).len() == 1 && with_origin(origins, origin)[0] == origin,
{
}

impl AccessControlBuilder {
    /// The hosts allowed so far.
    pub closed spec fn spec_allow_hosts(&self) -> AllowHosts {
        self.allow_hosts
    }

    /// The origins allowed so far.
    pub closed spec fn spec_cors_allow_origin(&self) -> Option<Vec<AccessControlAllowOrigin>> {
        self.cors_allow_origin
    }

    /// The CORS max age so far.
    pub closed spec fn spec_cors_max_age(&self) -> Option<u32> {
        self.cors_max_age
    }

    /// The headers allowed so far.
    pub closed spec fn spec_cors_allow_headers(&self) -> AccessControlAllowHeaders {
        self.cors_allow_headers
    }

    /// Whether requests with invalid CORS headers are served.
    pub closed spec fn spec_continue_on_invalid_cors(&self) -> bool {
        self.continue_on_invalid_cors
    }

    /// A builder that allows any host, origin and header.
    pub fn new() -> (res: Self)
        ensures
            res.spec_allow_hosts() == AllowHosts::Any,
            res.spec_cors_allow_origin() is None,
            res.spec_cors_max_age() is None,
            res.spec_cors_allow_headers() == AccessControlAllowHeaders::Any,
            !res.spec_continue_on_invalid_cors(),
    {
        AccessControlBuilder {
            allow_hosts: AllowHosts::Any,
            cors_allow_origin: None,
            cors_max_age: None,
            cors_allow_headers: AccessControlAllowHeaders::Any,
            continue_on_invalid_cors: false,
        }
    }

    /// Allows one more host; the first host allowed replaces "any host".
    pub fn allow_host(self, host: Host) -> (res: Self)
        ensures
            res.spec_allow_hosts() matches AllowHosts::Only(v) && v@ == with_host(self.spec_allow_hosts(), host),
            self.spec_allow_hosts() matches AllowHosts::Only(before) ==> (res.spec_allow_hosts() matches AllowHosts::Only(after)
                && after@.len() == before@.len() + 1 && after@.last() == host
                && forall|i: int| 0 <= i < before@.len() ==> #[trigger] after@[i] == before@[i]),
            self.spec_allow_hosts() is Any ==> (res.spec_allow_hosts() matches AllowHosts::Only(after)
                && after@.len() == 1 && after@[0] == host),
            res.spec_cors_allow_origin() == self.spec_cors_allow_origin(),
            res.spec_cors_max_age() == self.spec_cors_max_age(),
            res.spec_cors_allow_headers() == self.spec_cors_allow_headers(),
            res.spec_continue_on_invalid_cors() == self.spec_continue_on_invalid_cors(),
    {
        let mut this = self;
        let allow_hosts = match this.allow_hosts {
            AllowHosts::Any => vec![host],
            AllowHosts::Only(mut allow_hosts) => {
                allow_hosts.push(host);
                allow_hosts
            },
        };
        this.allow_hosts = AllowHosts::Only(allow_hosts);
        this
    }

    /// Allows one more origin; the first origin allowed replaces "any origin".
    pub fn cors_allow_origin(self, allow_origin: AccessControlAllowOrigin) -> (res: Self)
        ensures
            res.spec_cors_allow_origin() matches Some(v) && v@ == with_origin(self.spec_cors_allow_origin(), allow_origin),
            self.spec_cors_allow_origin() matches Some(before) ==> (res.spec_cors_allow_origin() matches Some(after)
                && after@.len() == before@.len() + 1 && after@.last() == allow_origin
                && forall|i: int| 0 <= i < before@.len() ==> #[trigger] after@[i] == before@[i]),
            self.spec_cors_allow_origin() is None ==> (res.spec_cors_allow_origin() matches Some(after)
                && after@.len() == 1 && after@[0] == allow_origin),
            res.spec_allow_hosts() == self.spec_allow_hosts(),
            res.spec_cors_max_age() == self.spec_cors_max_age(),
            res.spec_cors_allow_headers() == self.spec_cors_allow_headers(),
            res.spec_continue_on_invalid_cors() == self.spec_continue_on_invalid_cors(),
    {
        let mut this = self;
        let cors_allow_origin = match this.cors_allow_origin {
            Some(mut cors_allow_origin) => {
                cors_allow_origin.push(allow_origin);
                cors_allow_origin
            },
            None => vec![allow_origin],
        };
        this.cors_allow_origin = Some(cors_allow_origin);
        this
    }

    /// Sets the CORS max age, in seconds.
    pub fn cors_max_age(self, max_age: u32) -> (res: Self)
        ensures
            res.spec_cors_max_age() == Some(max_age),
            res.spec_allow_hosts() == self.spec_allow_hosts(),
            res.spec_cors_allow_origin() == self.spec_cors_allow_origin(),
            res.spec_cors_allow_headers() == self.spec_cors_allow_headers(),
            res.spec_continue_on_invalid_cors() == self.spec_continue_on_invalid_cors(),
    {
        let mut this = self;
        this.cors_max_age = Some(max_age);
        this
    }

    /// Allows one more request header; the first header allowed replaces "any header".
    pub fn cors_allow_header(self, header: String) -> (res: Self)
        ensures
            res.spec_cors_allow_headers() matches AccessControlAllowHeaders::Only(v) && v@ == with_header(self.spec_cors_allow_headers(), header),
            self.spec_cors_allow_headers() matches AccessControlAllowHeaders::Only(before) ==> (res.spec_cors_allow_headers() matches AccessControlAllowHeaders::Only(after)
                && after@.len() == before@.len() + 1 && after@.last() == header
                && forall|i: int| 0 <= i < before@.len() ==> #[trigger] after@[i] == before@[i]),
            self.spec_cors_allow_headers() is Any ==> (res.spec_cors_allow_headers() matches AccessControlAllowHeaders::Only(after)
                && after@.len() == 1 && after@[0] == header),
            res.spec_allow_hosts() == self.spec_allow_hosts(),
            res.spec_cors_allow_origin() == self.spec_cors_allow_origin(),
            res.spec_cors_max_age() == self.spec_cors_max_age(),
            res.spec_continue_on_invalid_cors() == self.spec_continue_on_invalid_cors(),
    {
        let mut this = self;
        let allow_headers = match this.cors_allow_headers {
            AccessControlAllowHeaders::Any => vec![header],
            AccessControlAllowHeaders::Only(mut allow_headers) => {
                allow_headers.push(header);
                allow_headers
            },
        };
        this.cors_allow_headers = AccessControlAllowHeaders::Only(allow_headers);
        this
    }

    /// Sets whether requests with invalid CORS headers are still served.
    pub fn continue_on_invalid_cors(self, continue_on_invalid_cors: bool) -> (res: Self)
        ensures
            res.spec_continue_on_invalid_cors() == continue_on_invalid_cors,
            res.spec_allow_hosts() == self.spec_allow_hosts(),
            res.spec_cors_allow_origin() == self.spec_cors_allow_origin(),
            res.spec_cors_max_age() == self.spec_cors_max_age(),
            res.spec_cors_allow_headers() == self.spec_cors_allow_headers(),
    {
        let mut this = self;
        this.continue_on_invalid_cors = continue_on_invalid_cors;
        this
    }

    /// The access control that the builder describes.
    pub fn build(self) -> (res: AccessControl)
        ensures
            res.allow_hosts == self.spec_allow_hosts(),
            res.cors_allow_origin == self.spec_cors_allow_origin(),
            res.cors_max_age == self.spec_cors_max_age(),
            res.cors_allow_headers == self.spec_cors_allow_headers(),
            res.continue_on_invalid_cors == self.spec_continue_on_invalid_cors(),
    {
        AccessControl {
            allow_hosts: self.allow_hosts,
            cors_allow_origin: self.cors_allow_origin,
            cors_max_age: self.cors_max_age,
            cors_allow_headers: self.cors_allow_headers,
            continue_on_invalid_cors: self.continue_on_invalid_cors,
        }
    }
}

} // verus!
