//! Routes over the API: what a request for one must hold, how it is stored, and what follows.
use crate::api::{self, ApiError, AuditMeta, AuditRecord};
use crate::api::rbac::{self, Permission, require_permission};
use crate::event::{self, BusEvent, CONFIG_UPDATED, EventData, ROUTE_CREATED, ROUTE_DELETED, ROUTE_UPDATED};
use crate::ids::{self, Id, NodeId};
use crate::ip::{self, IpAddr, parse_ip};
use crate::route::{self, Limits, RouteType, parse_route_type};
use crate::session::User;
use crate::text::{self, concat, debug_text, decimal, push_str, str_eq, trim};
use vstd::prelude::*;

verus! {

/// How the TLS of an HTTPS route is handled.
#[derive(Clone, Copy, PartialEq, Eq, Structural, Debug, Hash)]
pub enum TlsMode {
    Terminate,
    Passthrough,
    Disabled,
}

/// A route as it is answered.
#[derive(Debug)]
pub struct Route {
    pub id: String,
    pub name: String,
    pub node_id: String,
    pub route_type: RouteType,
    pub enabled: bool,
    pub listen_host: Option<String>,
    pub listen_port: Option<u16>,
    pub hostname: Option<String>,
    pub target_host: String,
    pub target_port: u16,
    pub tls_mode: Option<String>,
    pub status: String,
    pub limits: Option<Limits>,
}

/// A request for a new route.
#[derive(Debug)]
pub struct CreateRouteRequest {
    pub name: String,
    pub node_id: String,
    pub route_type: RouteType,
    pub enabled: bool,
    pub listen_host: Option<String>,
    pub listen_port: Option<u16>,
    pub hostname: Option<String>,
    pub target_host: String,
    pub target_port: u16,
    pub tls_mode: Option<TlsMode>,
    pub limits: Option<Limits>,
}

/// A request to change a route. What is absent stays.
#[derive(Debug)]
pub struct UpdateRouteRequest {
    pub name: Option<String>,
    pub node_id: Option<String>,
    pub route_type: Option<RouteType>,
    pub enabled: Option<bool>,
    pub listen_host: Option<String>,
    pub listen_port: Option<u16>,
    pub hostname: Option<String>,
    pub target_host: Option<String>,
    pub target_port: Option<u16>,
    pub tls_mode: Option<TlsMode>,
    pub limits: Option<Limits>,
}

/// A route that can be stored.
#[derive(Debug)]
pub struct RouteInput {
    pub name: String,
    pub node_id: String,
    pub route_type: RouteType,
    pub enabled: bool,
    pub listen_host: Option<String>,
    pub listen_port: Option<u16>,
    pub hostname: Option<String>,
    pub target_host: String,
    pub target_port: u16,
    pub tls_mode: TlsMode,
    pub limits: Option<Limits>,
}

/// A stored route.
#[derive(Debug)]
pub struct RouteDetailRow {
    pub id: String,
    pub name: String,
    pub node_id: String,
    pub route_type: String,
    pub enabled: bool,
    pub listen_host: Option<String>,
    pub listen_port: Option<i64>,
    pub hostname: Option<String>,
    pub target_host: String,
    pub target_port: i64,
    pub tls_mode: Option<String>,
    pub status: String,
    pub limits: Option<String>,
}

/// What is stored of a route. The limits are stored as text.
#[derive(Debug)]
pub struct RouteRecord {
    pub id: String,
    pub name: String,
    pub node_id: String,
    pub route_type: &'static str,
    pub enabled: bool,
    pub listen_host: Option<String>,
    pub listen_port: Option<i64>,
    pub hostname: Option<String>,
    pub target_host: String,
    pub target_port: i64,
    pub tls_mode: &'static str,
    pub limits: Option<Limits>,
}

/// A new route is enabled unless the request says otherwise.
pub fn default_true() -> (r: bool)
    ensures
        r,
{
    true
}

/// The name of a route type.
pub open spec fn route_type_name(t: RouteType) -> Seq<char> {
    match t {
        RouteType::Tcp => "tcp"@,
        RouteType::Udp => "udp"@,
        RouteType::Http => "http"@,
        RouteType::Https => "https"@,
    }
}

/// The name of a route type.
pub fn route_type_str(t: RouteType) -> (s: &'static str)
    ensures
        s@ == route_type_name(t),
{
    match t {
        RouteType::Tcp => "tcp",
        RouteType::Udp => "udp",
        RouteType::Http => "http",
        RouteType::Https => "https",
    }
}

/// The name of a TLS mode.
pub open spec fn tls_mode_name(t: TlsMode) -> Seq<char> {
    match t {
        TlsMode::Terminate => "terminate"@,
        TlsMode::Passthrough => "passthrough"@,
        TlsMode::Disabled => "disabled"@,
    }
}

/// The name of a TLS mode.
pub fn tls_mode_str(t: TlsMode) -> (s: &'static str)
    ensures
        s@ == tls_mode_name(t),
{
    match t {
        TlsMode::Terminate => "terminate",
        TlsMode::Passthrough => "passthrough",
        TlsMode::Disabled => "disabled",
    }
}

/// The TLS mode that a name stands for.
pub open spec fn tls_mode_of(s: Seq<char>) -> Option<TlsMode> {
    if s == "terminate"@ {
        Some(TlsMode::Terminate)
    } else if s == "passthrough"@ {
        Some(TlsMode::Passthrough)
    } else if s == "disabled"@ {
        Some(TlsMode::Disabled)
    } else {
        None
    }
}

/// The TLS mode that a stored name, if there is one, stands for.
pub open spec fn stored_tls_mode(s: Option<Seq<char>>) -> Option<TlsMode> {
    match s {
        Some(s) => tls_mode_of(s),
        None => None,
    }
}

/// The TLS mode that a stored name, if there is one, stands for.
pub fn parse_tls_mode(s: Option<&str>) -> (r: Option<TlsMode>)
    ensures
        r == (match s {
            Some(s) => tls_mode_of(s@),
            None => None,
        }),
{
    match s {
        None => None,
        Some(s) => if str_eq(s, "terminate") {
            Some(TlsMode::Terminate)
        } else if str_eq(s, "passthrough") {
            Some(TlsMode::Passthrough)
        } else if str_eq(s, "disabled") {
            Some(TlsMode::Disabled)
        } else {
            None
        },
    }
}

/// Every route type and every TLS mode is read back from its name.
pub proof fn names_read_back(t: RouteType, m: TlsMode)
    ensures
        route::route_type_of(route_type_name(t)) == Some(t),
        tls_mode_of(tls_mode_name(m)) == Some(m),
{
    reveal_strlit("tcp");
    reveal_strlit("udp");
    reveal_strlit("http");
    reveal_strlit("https");
    reveal_strlit("terminate");
    reveal_strlit("passthrough");
    reveal_strlit("disabled");
    assert("tcp"@[0] != "udp"@[0]);
    assert("tcp"@.len() == 3 && "udp"@.len() == 3 && "http"@.len() == 4 && "https"@.len() == 5);
    assert("terminate"@.len() == 9 && "passthrough"@.len() == 11 && "disabled"@.len() == 8);
}

/// The host that a route listens on where the request names none.
pub open spec fn listen_host_text(h: Option<String>) -> Seq<char> {
    match h {
        Some(h) => h@,
        None => "0.0.0.0"@,
    }
}

/// What is wrong with a route that has a listener.
pub open spec fn listener_fault(r: CreateRouteRequest) -> Option<api::ErrorView> {
    if r.hostname is Some {
        Some(
            api::error(
                422,
                "INVALID_HOSTNAME"@,
                "hostname is only valid for http/https routes"@,
            ),
        )
    } else if ip::ip_of(listen_host_text(r.listen_host)) is None {
        Some(api::error(422, "INVALID_LISTEN"@, "listen_host must be a valid IP address"@))
    } else if r.listen_port is None {
        Some(api::error(422, "INVALID_LISTEN"@, "listen_port is required for tcp/udp routes"@))
    } else if r.listen_port == Some(0u16) {
        Some(api::error(422, "INVALID_PORT"@, "listen_port must be 1-65535"@))
    } else {
        None
    }
}

/// What is wrong with a route that is found by host name.
pub open spec fn host_fault(r: CreateRouteRequest) -> Option<api::ErrorView> {
    if r.hostname is None || text::trimmed(r.hostname->0@).len() == 0 {
        Some(
            api::error(422, "INVALID_HOSTNAME"@, "hostname is required for http/https routes"@),
        )
    } else if r.listen_host is Some || r.listen_port is Some {
        Some(
            api::error(
                422,
                "INVALID_LISTEN"@,
                "listen_host/listen_port are not used for http/https routes"@,
            ),
        )
    } else {
        None
    }
}

/// What is wrong with a route: the first fault in the order name, node, target, target port,
/// listener or host name.
pub open spec fn route_fault(r: CreateRouteRequest) -> Option<api::ErrorView> {
    if text::trimmed(r.name@).len() == 0 {
        Some(api::error(422, "INVALID_NAME"@, "name must not be empty"@))
    } else if text::trimmed(r.node_id@).len() == 0 {
        Some(api::error(422, "INVALID_NODE"@, "node_id must not be empty"@))
    } else if text::trimmed(r.target_host@).len() == 0 {
        Some(api::error(422, "INVALID_TARGET"@, "target_host must not be empty"@))
    } else if r.target_port == 0 {
        Some(api::error(422, "INVALID_PORT"@, "target_port must be 1-65535"@))
    } else if r.route_type.by_host() {
        host_fault(r)
    } else {
        listener_fault(r)
    }
}

impl RouteInput {
    /// The input is the request without white space around its names and with its defaults
    /// filled in.
    pub open spec fn normalizes(self, r: CreateRouteRequest) -> bool {
        &&& self.name@ == text::trimmed(r.name@)
        &&& self.node_id == r.node_id
        &&& self.route_type == r.route_type
        &&& self.enabled == r.enabled
        &&& text::opt_view(self.listen_host) == (if r.route_type.by_host() {
            None
        } else {
            Some(listen_host_text(r.listen_host))
        })
        &&& self.listen_port == (if r.route_type.by_host() {
            None
        } else {
            r.listen_port
        })
        &&& text::opt_view(self.hostname) == (if r.route_type.by_host() {
            Some(text::trimmed(r.hostname->0@))
        } else {
            None
        })
        &&& self.target_host == r.target_host
        &&& self.target_port == r.target_port
        &&& self.tls_mode == (match r.tls_mode {
            Some(m) => m,
            None => TlsMode::Disabled,
        })
        &&& self.limits == r.limits
    }

    /// The input passed the checks of `normalize`.
    pub open spec fn wf(self) -> bool {
        &&& self.name@.len() > 0
        &&& text::trimmed(self.name@) == self.name@
        &&& text::trimmed(self.node_id@).len() > 0
        &&& text::trimmed(self.target_host@).len() > 0
        &&& self.target_port != 0
        &&& if self.route_type.by_host() {
            &&& self.listen_host is None
            &&& self.listen_port is None
            &&& self.hostname matches Some(h) && h@.len() > 0 && text::trimmed(h@) == h@
        } else {
            &&& self.hostname is None
            &&& self.listen_host matches Some(h) && ip::ip_of(h@) is Some
            &&& self.listen_port matches Some(p) && p != 0
        }
    }
}

fn normalize_listener(
    listen_host: Option<String>,
    listen_port: Option<u16>,
    hostname: &Option<String>,
) -> (r: Result<(String, u16), ApiError>)
    ensures
        forall|q: CreateRouteRequest|
            q.listen_host == listen_host && q.listen_port == listen_port && q.hostname == *hostname
                ==> match r {
                Ok(l) => #[trigger] listener_fault(q) is None && l.0@ == listen_host_text(
                    listen_host,
                ) && Some(l.1) == listen_port,
                Err(e) => listener_fault(q) == Some(e@),
            },
{
    if hostname.is_some() {
        return Err(
            ApiError::unprocessable(
                "INVALID_HOSTNAME",
                "hostname is only valid for http/https routes",
            ),
        );
    }
    let host = match listen_host {
        Some(h) => h,
        None => "0.0.0.0".to_owned(),
    };
    if parse_ip(host.as_str()).is_none() {
        return Err(
            ApiError::unprocessable("INVALID_LISTEN", "listen_host must be a valid IP address"),
        );
    }
    match listen_port {
        None => Err(
            ApiError::unprocessable(
                "INVALID_LISTEN",
                "listen_port is required for tcp/udp routes",
            ),
        ),
        Some(p) => if p == 0 {
            Err(ApiError::unprocessable("INVALID_PORT", "listen_port must be 1-65535"))
        } else {
            Ok((host, p))
        },
    }
}

fn normalize_host(
    listen_host: &Option<String>,
    listen_port: Option<u16>,
    hostname: &Option<String>,
) -> (r: Result<String, ApiError>)
    ensures
        forall|q: CreateRouteRequest|
            q.listen_host == *listen_host && q.listen_port == listen_port && q.hostname
                == *hostname ==> match r {
                Ok(h) => #[trigger] host_fault(q) is None && h@ == text::trimmed(hostname->0@),
                Err(e) => host_fault(q) == Some(e@),
            },
{
    let name = match hostname {
        Some(h) => trim(h.as_str()),
        None => String::new(),
    };
    if name.as_str().is_empty() {
        return Err(
            ApiError::unprocessable(
                "INVALID_HOSTNAME",
                "hostname is required for http/https routes",
            ),
        );
    }
    if listen_host.is_some() || listen_port.is_some() {
        return Err(
            ApiError::unprocessable(
                "INVALID_LISTEN",
                "listen_host/listen_port are not used for http/https routes",
            ),
        );
    }
    Ok(name)
}

/// Checks a route by itself, and fills in its defaults.
pub fn normalize(r: CreateRouteRequest) -> (out: Result<RouteInput, ApiError>)
    ensures
        match out {
            Ok(i) => route_fault(r) is None && i.normalizes(r),
            Err(e) => route_fault(r) == Some(e@),
        },
{
    let name = trim(r.name.as_str());
    if name.as_str().is_empty() {
        return Err(ApiError::unprocessable("INVALID_NAME", "name must not be empty"));
    }
    if trim(r.node_id.as_str()).as_str().is_empty() {
        return Err(ApiError::unprocessable("INVALID_NODE", "node_id must not be empty"));
    }
    if trim(r.target_host.as_str()).as_str().is_empty() {
        return Err(ApiError::unprocessable("INVALID_TARGET", "target_host must not be empty"));
    }
    if r.target_port == 0 {
        return Err(ApiError::unprocessable("INVALID_PORT", "target_port must be 1-65535"));
    }
    let tls_mode = match r.tls_mode {
        Some(m) => m,
        None => TlsMode::Disabled,
    };
    let (listen_host, listen_port, hostname): (Option<String>, Option<u16>, Option<String>) =
        if r.route_type.is_by_host() {
        match normalize_host(&r.listen_host, r.listen_port, &r.hostname) {
            Ok(h) => {
                assert(host_fault(r) is None);
                (None, None, Some(h))
            },
            Err(e) => {
                assert(host_fault(r) == Some(e@));
                return Err(e);
            },
        }
    } else {
        match normalize_listener(r.listen_host, r.listen_port, &r.hostname) {
            Ok((h, p)) => {
                assert(listener_fault(r) is None);
                (Some(h), Some(p), None)
            },
            Err(e) => {
                assert(listener_fault(r) == Some(e@));
                return Err(e);
            },
        }
    };
    Ok(
        RouteInput {
            name,
            node_id: r.node_id,
            route_type: r.route_type,
            enabled: r.enabled,
            listen_host,
            listen_port,
            hostname,
            target_host: r.target_host,
            target_port: r.target_port,
            tls_mode,
            limits: r.limits,
        },
    )
}

/// The error for a target that is forbidden for the reason `category`.
pub open spec fn forbidden_target(target_host: Seq<char>, category: Seq<char>) -> api::ErrorView {
    api::error(
        422,
        "FORBIDDEN_TARGET"@,
        "target "@ + target_host + " is forbidden ("@ + category
            + "); set security.allow_unsafe_targets to allow it"@,
    )
}

/// The address that has to be judged before a target is accepted: none where unsafe targets are
/// allowed, or where the target is a name that only the agent resolves.
pub open spec fn judged_target(target_host: Seq<char>, allow: bool) -> Option<IpAddr> {
    if allow {
        None
    } else {
        ip::ip_of(text::trimmed(target_host))
    }
}

/// Refuses a target whose address `category_of` finds to be of a forbidden category.
pub fn check_target<F: Fn(IpAddr) -> Option<&'static str>>(
    target_host: &str,
    allow: bool,
    category_of: F,
) -> (r: Result<(), ApiError>)
    requires
        forall|ip: IpAddr| call_requires(category_of, (ip,)),
    ensures
        match judged_target(target_host@, allow) {
            None => r is Ok,
            Some(ip) => exists|c: Option<&'static str>| #[trigger]
                call_ensures(category_of, (ip,), c) && match c {
                    None => r is Ok,
                    Some(c) => r matches Err(e) && e@ == forbidden_target(target_host@, c@),
                },
        },
{
    if allow {
        return Ok(());
    }
    match parse_ip(trim(target_host).as_str()) {
        None => Ok(()),
        Some(ip) => match category_of(ip) {
            None => Ok(()),
            Some(category) => {
                let mut message = concat("target ", target_host);
                push_str(&mut message, " is forbidden (");
                push_str(&mut message, category);
                push_str(&mut message, "); set security.allow_unsafe_targets to allow it");
                Err(ApiError::unprocessable("FORBIDDEN_TARGET", message.as_str()))
            },
        },
    }
}

/// A question to the store before a route is written.
#[derive(Clone, Copy, PartialEq, Eq, Structural, Debug, Hash)]
pub enum ConflictQuery {
    /// Does the node of the route exist?
    NodeExists,
    /// Does another route have the name?
    NameTaken,
    /// Does another route have the listener?
    ListenTaken,
    /// Does another route have the host name?
    HostnameTaken,
}

/// The questions about a route, in the order in which they are asked.
pub open spec fn queries_for(input: RouteInput) -> Seq<ConflictQuery> {
    seq![ConflictQuery::NodeExists, ConflictQuery::NameTaken] + (if input.listen_host is Some
        && input.listen_port is Some {
        seq![ConflictQuery::ListenTaken]
    } else {
        Seq::empty()
    }) + (if input.hostname is Some {
        seq![ConflictQuery::HostnameTaken]
    } else {
        Seq::empty()
    })
}

/// The questions about a route, in the order in which they are asked.
pub fn conflict_queries(input: &RouteInput) -> (q: Vec<ConflictQuery>)
    ensures
        q@ == queries_for(*input),
{
    let mut q: Vec<ConflictQuery> = Vec::new();
    q.push(ConflictQuery::NodeExists);
    q.push(ConflictQuery::NameTaken);
    if input.listen_host.is_some() && input.listen_port.is_some() {
        q.push(ConflictQuery::ListenTaken);
    }
    if input.hostname.is_some() {
        q.push(ConflictQuery::HostnameTaken);
    }
    assert(q@ =~= queries_for(*input));
    q
}

/// The error that the answer to a question calls for.
pub open spec fn conflict(input: RouteInput, q: ConflictQuery, answer: bool) -> Option<
    api::ErrorView,
> {
    match q {
        ConflictQuery::NodeExists => if answer {
            None
        } else {
            Some(
                api::error(
                    404,
                    "NODE_NOT_FOUND"@,
                    "node "@ + input.node_id@ + " does not exist"@,
                ),
            )
        },
        ConflictQuery::NameTaken => if answer {
            Some(
                api::error(
                    409,
                    "DUPLICATE_NAME"@,
                    "route "@ + text::quoted(input.name@) + " already exists"@,
                ),
            )
        } else {
            None
        },
        ConflictQuery::ListenTaken => if answer && input.listen_host is Some && input.listen_port
            is Some {
            Some(
                api::error(
                    409,
                    "DUPLICATE_LISTEN"@,
                    "listen "@ + input.listen_host->0@ + ":"@ + text::decimal_spec(
                        input.listen_port->0 as nat,
                    ) + " already in use"@,
                ),
            )
        } else {
            None
        },
        ConflictQuery::HostnameTaken => if answer && input.hostname is Some {
            Some(
                api::error(
                    409,
                    "DUPLICATE_HOSTNAME"@,
                    "hostname "@ + text::quoted(input.hostname->0@) + " already in use"@,
                ),
            )
        } else {
            None
        },
    }
}

/// Whether the answer to a question lets the route be written.
pub fn check_conflict(input: &RouteInput, q: ConflictQuery, answer: bool) -> (r: Result<
    (),
    ApiError,
>)
    ensures
        match r {
            Ok(_) => conflict(*input, q, answer) is None,
            Err(e) => conflict(*input, q, answer) == Some(e@),
        },
{
    match q {
        ConflictQuery::NodeExists => {
            if !answer {
                let mut m = concat("node ", input.node_id.as_str());
                push_str(&mut m, " does not exist");
                return Err(ApiError::not_found("NODE_NOT_FOUND", m.as_str()));
            }
        },
        ConflictQuery::NameTaken => {
            if answer {
                let mut m = concat("route ", debug_text(input.name.as_str()).as_str());
                push_str(&mut m, " already exists");
                return Err(ApiError::conflict("DUPLICATE_NAME", m.as_str()));
            }
        },
        ConflictQuery::ListenTaken => {
            if answer {
                if let Some(host) = &input.listen_host {
                    if let Some(port) = input.listen_port {
                        let mut m = concat("listen ", host.as_str());
                        push_str(&mut m, ":");
                        push_str(&mut m, decimal(port as u64).as_str());
                        push_str(&mut m, " already in use");
                        return Err(ApiError::conflict("DUPLICATE_LISTEN", m.as_str()));
                    }
                }
            }
        },
        ConflictQuery::HostnameTaken => {
            if answer {
                if let Some(host) = &input.hostname {
                    let mut m = concat("hostname ", debug_text(host.as_str()).as_str());
                    push_str(&mut m, " already in use");
                    return Err(ApiError::conflict("DUPLICATE_HOSTNAME", m.as_str()));
                }
            }
        },
    }
    Ok(())
}

/// A route that may be written has a node, and neither its name nor the place where it is found
/// belongs to another route: exactly these questions are asked, and each can refuse it.
pub proof fn questions_cover_the_route(input: RouteInput)
    requires
        input.wf(),
    ensures
        queries_for(input).contains(ConflictQuery::NodeExists),
        queries_for(input).contains(ConflictQuery::NameTaken),
        queries_for(input).contains(ConflictQuery::HostnameTaken) == input.route_type.by_host(),
        queries_for(input).contains(ConflictQuery::ListenTaken) == !input.route_type.by_host(),
        forall|q: ConflictQuery| #[trigger]
            queries_for(input).contains(q) ==> conflict(input, q, true) is Some || conflict(
                input,
                q,
                false,
            ) is Some,
{
    let s = queries_for(input);
    assert(s[0] == ConflictQuery::NodeExists);
    assert(s[1] == ConflictQuery::NameTaken);
    if input.route_type.by_host() {
        assert(s[2] == ConflictQuery::HostnameTaken);
    } else {
        assert(s[2] == ConflictQuery::ListenTaken);
    }
}

/// What a request for a route is refused with before the store is asked, whoever makes it.
pub open spec fn draft_fault(
    role: Seq<char>,
    r: CreateRouteRequest,
) -> Option<api::ErrorView> {
    if !rbac::grants(role, Permission::RoutesWrite) {
        Some(rbac::lacking(Permission::RoutesWrite))
    } else {
        route_fault(r)
    }
}

/// The outcome `r` of a request `q`, once the target was judged: `c` is what the judgement gave.
pub open spec fn drafted(
    r: Result<RouteInput, ApiError>,
    q: CreateRouteRequest,
    c: Option<&'static str>,
) -> bool {
    match c {
        None => r matches Ok(i) && i.normalizes(q),
        Some(c) => r matches Err(e) && e@ == forbidden_target(q.target_host@, c@),
    }
}

/// A request for a new route, up to the questions to the store.
pub fn create_route<F: Fn(IpAddr) -> Option<&'static str>>(
    user: &User,
    body: CreateRouteRequest,
    allow_unsafe_targets: bool,
    category_of: F,
) -> (r: Result<RouteInput, ApiError>)
    requires
        forall|ip: IpAddr| call_requires(category_of, (ip,)),
    ensures
        match draft_fault(user.role@, body) {
            Some(f) => r matches Err(e) && e@ == f,
            None => match judged_target(body.target_host@, allow_unsafe_targets) {
                None => drafted(r, body, None),
                Some(ip) => exists|c: Option<&'static str>| #[trigger]
                    call_ensures(category_of, (ip,), c) && drafted(r, body, c),
            },
        },
{
    if let Err(e) = require_permission(user, Permission::RoutesWrite) {
        return Err(e);
    }
    let input = match normalize(body) {
        Ok(i) => i,
        Err(e) => {
            return Err(e);
        },
    };
    match check_target(input.target_host.as_str(), allow_unsafe_targets, category_of) {
        Ok(_) => Ok(input),
        Err(e) => Err(e),
    }
}

/// What is stored of a route.
pub open spec fn is_record(rec: RouteRecord, id: String, input: RouteInput) -> bool {
    &&& rec.id == id
    &&& rec.name == input.name
    &&& rec.node_id == input.node_id
    &&& rec.route_type@ == route_type_name(input.route_type)
    &&& rec.enabled == input.enabled
    &&& rec.listen_host == input.listen_host
    &&& rec.listen_port == (match input.listen_port {
        Some(p) => Some(p as i64),
        None => None,
    })
    &&& rec.hostname == input.hostname
    &&& rec.target_host == input.target_host
    &&& rec.target_port == input.target_port
    &&& rec.tls_mode@ == tls_mode_name(input.tls_mode)
    &&& rec.limits == input.limits
}

/// What is stored of a route.
pub fn record(id: &String, input: &RouteInput) -> (rec: RouteRecord)
    ensures
        is_record(rec, *id, *input),
{
    RouteRecord {
        id: id.clone(),
        name: input.name.clone(),
        node_id: input.node_id.clone(),
        route_type: route_type_str(input.route_type),
        enabled: input.enabled,
        listen_host: input.listen_host.clone(),
        listen_port: match input.listen_port {
            Some(p) => Some(p as i64),
            None => None,
        },
        hostname: input.hostname.clone(),
        target_host: input.target_host.clone(),
        target_port: input.target_port as i64,
        tls_mode: tls_mode_str(input.tls_mode),
        limits: input.limits,
    }
}

/// What follows once a route was written: the nodes whose configuration changed, in the order in
/// which they are told, the record for the audit log, and the events.
#[derive(Debug)]
pub struct FollowUp {
    pub bumps: Vec<String>,
    pub audit: AuditRecord,
    pub events: Vec<BusEvent>,
}

/// The events of a change to a route: the change itself, then the new configuration of its node.
pub open spec fn route_events(
    events: Seq<BusEvent>,
    event_type: Seq<char>,
    route_id: String,
    name: String,
    node_id: String,
) -> bool {
    &&& events.len() == 2
    &&& events[0].event_type@ == event_type
    &&& events[0].data == (EventData::Route { route_id, name, node_id })
    &&& events[1].event_type@ == "config.updated"@
    &&& events[1].data == (EventData::Config { node_id })
}

fn events_of(event_type: &'static str, id: &String, name: &String, node_id: &String) -> (events: Vec<
    BusEvent,
>)
    ensures
        route_events(events@, event_type@, *id, *name, *node_id),
{
    let mut events: Vec<BusEvent> = Vec::new();
    events.push(
        BusEvent {
            event_type,
            data: EventData::Route {
                route_id: id.clone(),
                name: name.clone(),
                node_id: node_id.clone(),
            },
        },
    );
    events.push(BusEvent::config_updated(node_id.clone()));
    events
}

/// What follows once a new route was written.
pub fn created(user: &User, id: &String, input: &RouteInput) -> (f: FollowUp)
    ensures
        f.bumps@ == seq![input.node_id],
        f.audit.says(
            Some(user.id),
            "route.create"@,
            "route"@,
            *id,
            AuditMeta::Name { name: input.name },
        ),
        route_events(f.events@, "route.created"@, *id, input.name, input.node_id),
{
    let mut bumps: Vec<String> = Vec::new();
    bumps.push(input.node_id.clone());
    assert(bumps@ =~= seq![input.node_id]);
    FollowUp {
        bumps,
        audit: AuditRecord {
            user_id: Some(user.id.clone()),
            action: "route.create",
            resource_type: "route",
            resource_id: id.clone(),
            metadata: AuditMeta::Name { name: input.name.clone() },
        },
        events: events_of(ROUTE_CREATED, id, &input.name, &input.node_id),
    }
}

/// What follows once a changed route was written. Where the route moved to another node, the
/// node that it left is told too, after the new one.
pub fn updated(user: &User, id: &String, input: &RouteInput, old_node: &String) -> (f: FollowUp)
    ensures
        f.bumps@ == (if old_node@ == input.node_id@ {
            seq![input.node_id]
        } else {
            seq![input.node_id, *old_node]
        }),
        f.audit.says(
            Some(user.id),
            "route.update"@,
            "route"@,
            *id,
            AuditMeta::Name { name: input.name },
        ),
        route_events(f.events@, "route.updated"@, *id, input.name, input.node_id),
{
    let mut bumps: Vec<String> = Vec::new();
    bumps.push(input.node_id.clone());
    if !str_eq(old_node.as_str(), input.node_id.as_str()) {
        bumps.push(old_node.clone());
        assert(bumps@ =~= seq![input.node_id, *old_node]);
    } else {
        assert(bumps@ =~= seq![input.node_id]);
    }
    FollowUp {
        bumps,
        audit: AuditRecord {
            user_id: Some(user.id.clone()),
            action: "route.update",
            resource_type: "route",
            resource_id: id.clone(),
            metadata: AuditMeta::Name { name: input.name.clone() },
        },
        events: events_of(ROUTE_UPDATED, id, &input.name, &input.node_id),
    }
}

/// What follows once a route was deleted.
pub fn deleted(user: &User, id: &String, existing: &RouteDetailRow) -> (f: FollowUp)
    ensures
        f.bumps@ == seq![existing.node_id],
        f.audit.says(Some(user.id), "route.delete"@, "route"@, *id, AuditMeta::Nothing),
        route_events(f.events@, "route.deleted"@, *id, existing.name, existing.node_id),
{
    let mut bumps: Vec<String> = Vec::new();
    bumps.push(existing.node_id.clone());
    assert(bumps@ =~= seq![existing.node_id]);
    FollowUp {
        bumps,
        audit: AuditRecord {
            user_id: Some(user.id.clone()),
            action: "route.delete",
            resource_type: "route",
            resource_id: id.clone(),
            metadata: AuditMeta::Nothing,
        },
        events: events_of(ROUTE_DELETED, id, &existing.name, &existing.node_id),
    }
}

/// What follows once a route was enabled or disabled.
pub fn set_enabled(user: &User, id: &String, existing: &RouteDetailRow, enabled: bool) -> (f:
    FollowUp)
    ensures
        f.bumps@ == seq![existing.node_id],
        f.audit.says(
            Some(user.id),
            if enabled {
                "route.enable"@
            } else {
                "route.disable"@
            },
            "route"@,
            *id,
            AuditMeta::Enabled { enabled },
        ),
        route_events(f.events@, "route.updated"@, *id, existing.name, existing.node_id),
{
    let mut bumps: Vec<String> = Vec::new();
    bumps.push(existing.node_id.clone());
    assert(bumps@ =~= seq![existing.node_id]);
    FollowUp {
        bumps,
        audit: AuditRecord {
            user_id: Some(user.id.clone()),
            action: if enabled {
                "route.enable"
            } else {
                "route.disable"
            },
            resource_type: "route",
            resource_id: id.clone(),
            metadata: AuditMeta::Enabled { enabled },
        },
        events: events_of(ROUTE_UPDATED, id, &existing.name, &existing.node_id),
    }
}

/// The node to be told of its new configuration, and the version of it; none where the node's id
/// cannot be read. A negative version counts as 0.
pub fn config_push(node_id: &str, version: i64) -> (r: Option<(NodeId, u64)>)
    ensures
        match r {
            Some((id, v)) => ids::id_of(node_id@) == Some(id.value as nat) && v == (if version < 0 {
                0
            } else {
                version as int
            }),
            None => ids::id_of(node_id@) is None,
        },
{
    match Id::parse_str(node_id) {
        Some(id) => {
            let v: u64 = if version < 0 {
                0
            } else {
                version as u64
            };
            Some((id, v))
        },
        None => None,
    }
}

/// A stored route as it is answered, where `limits` is what reading the text of its limits gave.
/// A type that is unknown counts as TCP.
pub open spec fn response_of(row: RouteDetailRow, limits: Option<Limits>) -> Route {
    Route {
        id: row.id,
        name: row.name,
        node_id: row.node_id,
        route_type: or(route::route_type_of(row.route_type@), RouteType::Tcp),
        enabled: row.enabled,
        listen_host: row.listen_host,
        listen_port: stored_port(row.listen_port),
        hostname: row.hostname,
        target_host: row.target_host,
        target_port: row.target_port as u16,
        tls_mode: row.tls_mode,
        status: row.status,
        limits: if row.limits is Some {
            limits
        } else {
            None
        },
    }
}

/// A stored route as it is answered, where `limits` is what reading the text of its limits gave.
pub fn route_response(row: RouteDetailRow, limits: Option<Limits>) -> (r: Route)
    ensures
        r == response_of(row, limits),
{
    let route_type = match parse_route_type(row.route_type.as_str()) {
        Some(t) => t,
        None => RouteType::Tcp,
    };
    Route {
        id: row.id,
        name: row.name,
        node_id: row.node_id,
        route_type,
        enabled: row.enabled,
        listen_host: row.listen_host,
        listen_port: match row.listen_port {
            Some(p) => Some(p as u16),
            None => None,
        },
        hostname: row.hostname,
        target_host: row.target_host,
        target_port: row.target_port as u16,
        tls_mode: row.tls_mode,
        status: row.status,
        limits: match row.limits {
            Some(_) => limits,
            None => None,
        },
    }
}

/// The error for a route that is not there.
pub open spec fn route_not_found() -> api::ErrorView {
    api::error(404, "ROUTE_NOT_FOUND"@, "route does not exist"@)
}

/// The stored route that a request speaks of, for a user with the permission `perm`.
pub fn existing_route(user: &User, perm: Permission, row: Option<RouteDetailRow>) -> (r: Result<
    RouteDetailRow,
    ApiError,
>)
    ensures
        if !rbac::grants(user.role@, perm) {
            r matches Err(e) && e@ == rbac::lacking(perm)
        } else {
            match row {
                Some(row) => r == Ok::<RouteDetailRow, ApiError>(row),
                None => r matches Err(e) && e@ == route_not_found(),
            }
        },
{
    if let Err(e) = require_permission(user, perm) {
        return Err(e);
    }
    match row {
        Some(row) => Ok(row),
        None => Err(ApiError::not_found("ROUTE_NOT_FOUND", "route does not exist")),
    }
}

/// The stored route after a change; that it is missing is a failure of the server.
pub fn route_after(row: Option<RouteDetailRow>, limits: Option<Limits>, create: bool) -> (r: Result<
    Route,
    ApiError,
>)
    ensures
        match row {
            Some(row) => r == Ok::<Route, ApiError>(response_of(row, limits)),
            None => r matches Err(e) && e@ == api::internal_spec(
                if create {
                    "route not found after create"@
                } else {
                    "route not found after update"@
                },
            ),
        },
{
    match row {
        Some(row) => Ok(route_response(row, limits)),
        None => Err(
            ApiError::internal(
                if create {
                    "route not found after create"
                } else {
                    "route not found after update"
                },
            ),
        ),
    }
}

/// A stored port as a port.
pub open spec fn stored_port(p: Option<i64>) -> Option<u16> {
    match p {
        Some(p) => Some(p as u16),
        None => None,
    }
}

/// `new` where it is there, else `old`.
pub open spec fn or<T>(new: Option<T>, old: T) -> T {
    match new {
        Some(t) => t,
        None => old,
    }
}

/// The type that a changed route has.
pub open spec fn merged_type(existing: RouteDetailRow, body: UpdateRouteRequest) -> RouteType {
    or(body.route_type, or(route::route_type_of(existing.route_type@), RouteType::Tcp))
}

/// The route that a change asks for: what the change leaves out is as stored, where `limits` is
/// what reading the text of the stored limits gave. Only what belongs to the new type is kept.
pub open spec fn merged(
    existing: RouteDetailRow,
    limits: Option<Limits>,
    body: UpdateRouteRequest,
) -> CreateRouteRequest {
    let t = merged_type(existing, body);
    CreateRouteRequest {
        name: or(body.name, existing.name),
        node_id: or(body.node_id, existing.node_id),
        route_type: t,
        enabled: or(body.enabled, existing.enabled),
        listen_host: if t.by_host() {
            None
        } else if body.listen_host is Some {
            body.listen_host
        } else {
            existing.listen_host
        },
        listen_port: if t.by_host() {
            None
        } else if body.listen_port is Some {
            body.listen_port
        } else {
            stored_port(existing.listen_port)
        },
        hostname: if !t.by_host() {
            None
        } else if body.hostname is Some {
            body.hostname
        } else {
            existing.hostname
        },
        target_host: or(body.target_host, existing.target_host),
        target_port: or(body.target_port, existing.target_port as u16),
        tls_mode: if body.tls_mode is Some {
            body.tls_mode
        } else {
            stored_tls_mode(text::opt_view(existing.tls_mode))
        },
        limits: if body.limits is Some {
            body.limits
        } else if existing.limits is Some {
            limits
        } else {
            None
        },
    }
}

/// The route that a change asks for.
pub fn merge(existing: &RouteDetailRow, limits: Option<Limits>, body: UpdateRouteRequest) -> (r:
    CreateRouteRequest)
    ensures
        r == merged(*existing, limits, body),
{
    let route_type = match body.route_type {
        Some(t) => t,
        None => match parse_route_type(existing.route_type.as_str()) {
            Some(t) => t,
            None => RouteType::Tcp,
        },
    };
    let by_host = route_type.is_by_host();
    let stored_mode = match &existing.tls_mode {
        Some(m) => parse_tls_mode(Some(m.as_str())),
        None => parse_tls_mode(None),
    };
    CreateRouteRequest {
        name: match body.name {
            Some(n) => n,
            None => existing.name.clone(),
        },
        node_id: match body.node_id {
            Some(n) => n,
            None => existing.node_id.clone(),
        },
        route_type,
        enabled: match body.enabled {
            Some(e) => e,
            None => existing.enabled,
        },
        listen_host: if by_host {
            None
        } else {
            match body.listen_host {
                Some(h) => Some(h),
                None => existing.listen_host.clone(),
            }
        },
        listen_port: if by_host {
            None
        } else {
            match body.listen_port {
                Some(p) => Some(p),
                None => match existing.listen_port {
                    Some(p) => Some(p as u16),
                    None => None,
                },
            }
        },
        hostname: if by_host {
            match body.hostname {
                Some(h) => Some(h),
                None => existing.hostname.clone(),
            }
        } else {
            None
        },
        target_host: match body.target_host {
            Some(h) => h,
            None => existing.target_host.clone(),
        },
        target_port: match body.target_port {
            Some(p) => p,
            None => existing.target_port as u16,
        },
        tls_mode: match body.tls_mode {
            Some(m) => Some(m),
            None => stored_mode,
        },
        limits: match body.limits {
            Some(l) => Some(l),
            None => match &existing.limits {
                Some(_) => limits,
                None => None,
            },
        },
    }
}

/// A change to the stored route `existing`, up to the questions to the store.
pub fn update_route<F: Fn(IpAddr) -> Option<&'static str>>(
    existing: &RouteDetailRow,
    limits: Option<Limits>,
    body: UpdateRouteRequest,
    allow_unsafe_targets: bool,
    category_of: F,
) -> (r: Result<RouteInput, ApiError>)
    requires
        forall|ip: IpAddr| call_requires(category_of, (ip,)),
    ensures
        match route_fault(merged(*existing, limits, body)) {
            Some(f) => r matches Err(e) && e@ == f,
            None => match judged_target(
                merged(*existing, limits, body).target_host@,
                allow_unsafe_targets,
            ) {
                None => drafted(r, merged(*existing, limits, body), None),
                Some(ip) => exists|c: Option<&'static str>| #[trigger]
                    call_ensures(category_of, (ip,), c) && drafted(
                        r,
                        merged(*existing, limits, body),
                        c,
                    ),
            },
        },
{
    let wanted = merge(existing, limits, body);
    let input = match normalize(wanted) {
        Ok(i) => i,
        Err(e) => {
            return Err(e);
        },
    };
    match check_target(input.target_host.as_str(), allow_unsafe_targets, category_of) {
        Ok(_) => Ok(input),
        Err(e) => Err(e),
    }
}

/// Trimming a text twice is trimming it once.
pub proof fn trimming_is_idempotent(s: Seq<char>)
    ensures
        text::trimmed(text::trimmed(s)) == text::trimmed(s),
{
    text::trimmed_has_no_edges(s);
    text::no_edges_is_trimmed(text::trimmed(s));
}

/// What `normalize` lets through is well formed.
pub proof fn normalized_is_well_formed(i: RouteInput, r: CreateRouteRequest)
    requires
        route_fault(r) is None,
        i.normalizes(r),
    ensures
        i.wf(),
{
    trimming_is_idempotent(r.name@);
    if r.route_type.by_host() {
        trimming_is_idempotent(r.hostname->0@);
    }
}

/// The stored route `row` holds the record `rec`.
pub open spec fn stores(row: RouteDetailRow, rec: RouteRecord) -> bool {
    &&& row.id == rec.id
    &&& row.name == rec.name
    &&& row.node_id == rec.node_id
    &&& row.route_type@ == rec.route_type@
    &&& row.enabled == rec.enabled
    &&& row.listen_host == rec.listen_host
    &&& row.listen_port == rec.listen_port
    &&& row.hostname == rec.hostname
    &&& row.target_host == rec.target_host
    &&& row.target_port == rec.target_port
    &&& text::opt_view(row.tls_mode) == Some(rec.tls_mode@)
    &&& row.limits is Some == rec.limits is Some
}

/// A change that leaves everything out.
pub open spec fn says_nothing(b: UpdateRouteRequest) -> bool {
    &&& b.name is None
    &&& b.node_id is None
    &&& b.route_type is None
    &&& b.enabled is None
    &&& b.listen_host is None
    &&& b.listen_port is None
    &&& b.hostname is None
    &&& b.target_host is None
    &&& b.target_port is None
    &&& b.tls_mode is None
    &&& b.limits is None
}

/// A change that leaves everything out keeps a stored route as it is, and is never refused by
/// the checks on the route itself.
pub proof fn empty_change_keeps_the_route(
    id: String,
    input: RouteInput,
    rec: RouteRecord,
    row: RouteDetailRow,
    body: UpdateRouteRequest,
    out: RouteInput,
)
    requires
        input.wf(),
        is_record(rec, id, input),
        stores(row, rec),
        says_nothing(body),
    ensures
        route_fault(merged(row, input.limits, body)) is None,
        out.normalizes(merged(row, input.limits, body)) ==> {
            &&& out.name@ == input.name@
            &&& out.node_id == input.node_id
            &&& out.route_type == input.route_type
            &&& out.enabled == input.enabled
            &&& text::opt_view(out.listen_host) == text::opt_view(input.listen_host)
            &&& out.listen_port == input.listen_port
            &&& text::opt_view(out.hostname) == text::opt_view(input.hostname)
            &&& out.target_host == input.target_host
            &&& out.target_port == input.target_port
            &&& out.tls_mode == input.tls_mode
            &&& out.limits == input.limits
        },
{
    names_read_back(input.route_type, input.tls_mode);
    assert(merged(row, input.limits, body).route_type == input.route_type);
}

/// A route that was accepted and stored is a route when it is loaded, and it can be found: by
/// its host name, or by its listen address.
pub proof fn stored_route_is_reachable(
    id: String,
    input: RouteInput,
    rec: RouteRecord,
    row: route::RouteRow,
    limits: Option<Limits>,
    loaded: route::ServerRoute,
)
    requires
        input.wf(),
        is_record(rec, id, input),
        ids::id_of(id@) is Some,
        ids::id_of(input.node_id@) is Some,
        row.id == rec.id,
        row.name == rec.name,
        row.node_id == rec.node_id,
        row.route_type@ == rec.route_type@,
        row.enabled == rec.enabled,
        row.listen_host == rec.listen_host,
        row.listen_port == rec.listen_port,
        row.hostname == rec.hostname,
        row.target_host == rec.target_host,
        row.target_port == rec.target_port,
        route::limits_present(row.limits) ==> limits is Some,
    ensures
        row.fault(limits) is None,
        loaded.is_row(row, limits) ==> crate::config::reachable(loaded) && loaded.name
            == input.name && loaded.route_type == input.route_type && loaded.enabled
            == input.enabled && loaded.target_host == input.target_host && loaded.target_port
            == input.target_port,
{
    names_read_back(input.route_type, input.tls_mode);
    assert(route::route_type_of(row.route_type@) == Some(input.route_type));
}

// ---- what holds of routes over the API ----

/// A route that was accepted over the API and stored is, once loaded, the route that was accepted:
/// with its name, its node, its target, its host name or listener, and its limits; and its TLS is
/// passed through exactly where that was asked for an HTTPS route.
pub proof fn stored_route_is_what_was_accepted(
    id: String,
    input: RouteInput,
    rec: RouteRecord,
    row: route::RouteRow,
    limits: Option<Limits>,
    loaded: route::ServerRoute,
)
    requires
        input.wf(),
        is_record(rec, id, input),
        row.id == rec.id,
        row.name == rec.name,
        row.node_id == rec.node_id,
        row.route_type@ == rec.route_type@,
        row.enabled == rec.enabled,
        row.listen_host == rec.listen_host,
        row.listen_port == rec.listen_port,
        row.hostname == rec.hostname,
        row.target_host == rec.target_host,
        row.target_port == rec.target_port,
        text::opt_view(row.tls_mode) == Some(rec.tls_mode@),
        route::limits_present(row.limits) == rec.limits is Some,
        rec.limits is Some ==> limits == rec.limits,
        row.fault(limits) is None,
        loaded.is_row(row, limits),
    ensures
        ids::id_of(id@) == Some(loaded.id.value as nat),
        ids::id_of(input.node_id@) == Some(loaded.node_id.value as nat),
        loaded.name == input.name,
        loaded.route_type == input.route_type,
        loaded.enabled == input.enabled,
        loaded.hostname == input.hostname,
        loaded.target_host == input.target_host,
        loaded.target_port == input.target_port,
        loaded.limits == input.limits,
        loaded.passthrough() <==> input.route_type == RouteType::Https && input.tls_mode
            == TlsMode::Passthrough,
        input.route_type == RouteType::Tcp || input.route_type == RouteType::Udp
            ==> loaded.listen_port == input.listen_port->0 && loaded.listen_host@
            == input.listen_host->0@,
{
    names_read_back(input.route_type, input.tls_mode);
    reveal_strlit("terminate");
    reveal_strlit("passthrough");
    reveal_strlit("disabled");
    assert("terminate"@.len() == 9 && "passthrough"@.len() == 11 && "disabled"@.len() == 8);
    route::loaded_route_is_its_row(loaded, row, limits);
    assert(route::route_type_of(row.route_type@) == Some(input.route_type));
    assert(loaded.route_type == input.route_type);
    assert(row.tls_mode->0@ == rec.tls_mode@);
}

/// A request for a route is accepted, as far as the route itself goes, exactly where it names a
/// route, a node and a target with a port, and either a host name and no listener, for an HTTP or
/// HTTPS route, or a listener and no host name, for a TCP or UDP route.
pub proof fn which_routes_are_accepted(r: CreateRouteRequest)
    ensures
        route_fault(r) is None <==> {
            &&& text::trimmed(r.name@).len() > 0
            &&& text::trimmed(r.node_id@).len() > 0
            &&& text::trimmed(r.target_host@).len() > 0
            &&& r.target_port > 0
            &&& r.route_type == RouteType::Http || r.route_type == RouteType::Https ==> r.hostname
                is Some && text::trimmed(r.hostname->0@).len() > 0 && r.listen_host is None
                && r.listen_port is None
            &&& r.route_type == RouteType::Tcp || r.route_type == RouteType::Udp ==> r.hostname
                is None && r.listen_port is Some && r.listen_port->0 > 0 && (r.listen_host is Some
                ==> ip::ip_of(r.listen_host->0@) is Some)
        },
        route_fault(r) matches Some(e) ==> e.status == 422,
{
    ip::every_address_is_an_address();
}

/// An accepted route is the one that was asked for: its name without white space around it, and
/// everything else as it was given. A listener without a host is on every address, and a TLS mode
/// that was not given is `disabled`.
pub proof fn accepted_route_is_what_was_asked(i: RouteInput, r: CreateRouteRequest)
    requires
        route_fault(r) is None,
        i.normalizes(r),
    ensures
        i.name@ == text::trimmed(r.name@),
        i.node_id == r.node_id,
        i.route_type == r.route_type,
        i.enabled == r.enabled,
        i.target_host == r.target_host,
        i.target_port == r.target_port,
        i.limits == r.limits,
        r.tls_mode matches Some(m) ==> i.tls_mode == m,
        r.tls_mode is None ==> i.tls_mode == TlsMode::Disabled,
        r.route_type == RouteType::Http || r.route_type == RouteType::Https ==> i.hostname is Some
            && i.hostname->0@ == text::trimmed(r.hostname->0@) && i.listen_host is None
            && i.listen_port is None,
        r.route_type == RouteType::Tcp || r.route_type == RouteType::Udp ==> i.hostname is None
            && i.listen_port == r.listen_port && i.listen_host is Some && i.listen_host->0@ == (
        if r.listen_host is Some {
            r.listen_host->0@
        } else {
            "0.0.0.0"@
        }),
{
}

/// What is stored of a route is the route: each part of it is found in the record again.
pub proof fn record_is_the_route(rec: RouteRecord, id: String, input: RouteInput)
    requires
        is_record(rec, id, input),
    ensures
        rec.id == id,
        rec.name == input.name,
        rec.node_id == input.node_id,
        rec.enabled == input.enabled,
        rec.listen_host == input.listen_host,
        rec.listen_port is Some == input.listen_port is Some,
        rec.listen_port matches Some(p) ==> p as int == input.listen_port->0 as int,
        rec.hostname == input.hostname,
        rec.target_host == input.target_host,
        rec.target_port as int == input.target_port as int,
        rec.limits == input.limits,
        route::route_type_of(rec.route_type@) == Some(input.route_type),
        tls_mode_of(rec.tls_mode@) == Some(input.tls_mode),
        rec.tls_mode@ == "passthrough"@ <==> input.tls_mode == TlsMode::Passthrough,
        rec.tls_mode@ == "terminate"@ <==> input.tls_mode == TlsMode::Terminate,
        rec.tls_mode@ == "disabled"@ <==> input.tls_mode == TlsMode::Disabled,
{
    names_read_back(input.route_type, input.tls_mode);
    reveal_strlit("terminate");
    reveal_strlit("passthrough");
    reveal_strlit("disabled");
    assert("terminate"@.len() == 9 && "passthrough"@.len() == 11 && "disabled"@.len() == 8);
}

/// A stored TLS mode that is none of the three names stands for none.
pub proof fn unknown_tls_modes_stand_for_none(s: Seq<char>)
    ensures
        tls_mode_of(s) is Some <==> s == "terminate"@ || s == "passthrough"@ || s == "disabled"@,
        stored_tls_mode(None) is None,
        stored_tls_mode(Some(s)) == tls_mode_of(s),
{
}

/// A stored route is answered as it is stored.
pub proof fn answer_is_the_stored_route(row: RouteDetailRow, limits: Option<Limits>)
    ensures
        ({
            let r = response_of(row, limits);
            &&& r.id == row.id
            &&& r.name == row.name
            &&& r.node_id == row.node_id
            &&& r.enabled == row.enabled
            &&& r.listen_host == row.listen_host
            &&& r.hostname == row.hostname
            &&& r.target_host == row.target_host
            &&& r.tls_mode == row.tls_mode
            &&& r.status == row.status
            &&& row.limits is Some ==> r.limits == limits
            &&& row.limits is None ==> r.limits is None
            &&& route::route_type_of(row.route_type@) matches Some(t) ==> r.route_type == t
            &&& 0 <= row.target_port < 0x1_0000 ==> r.target_port as int == row.target_port as int
            &&& r.listen_port is Some == row.listen_port is Some
            &&& row.listen_port matches Some(p) ==> (0 <= p < 0x1_0000 ==> r.listen_port->0 as int
                == p as int)
        }),
{
}

/// A change to a route takes what it says over what is stored, and keeps what it leaves out.
pub proof fn change_takes_what_it_says(
    row: RouteDetailRow,
    limits: Option<Limits>,
    b: UpdateRouteRequest,
)
    ensures
        ({
            let m = merged(row, limits, b);
            let stored = route::route_type_of(row.route_type@);
            let by_host = m.route_type == RouteType::Http || m.route_type == RouteType::Https;
            &&& m.name == (if b.name is Some {
                b.name->0
            } else {
                row.name
            })
            &&& m.node_id == (if b.node_id is Some {
                b.node_id->0
            } else {
                row.node_id
            })
            &&& m.enabled == (if b.enabled is Some {
                b.enabled->0
            } else {
                row.enabled
            })
            &&& m.target_host == (if b.target_host is Some {
                b.target_host->0
            } else {
                row.target_host
            })
            &&& b.target_port matches Some(p) ==> m.target_port == p
            &&& b.target_port is None && 0 <= row.target_port < 0x1_0000 ==> m.target_port as int
                == row.target_port as int
            &&& b.route_type matches Some(t) ==> m.route_type == t
            &&& b.route_type is None && stored is Some ==> m.route_type == stored->0
            &&& b.tls_mode is Some ==> m.tls_mode == b.tls_mode
            &&& b.tls_mode is None && row.tls_mode is Some ==> m.tls_mode == tls_mode_of(
                row.tls_mode->0@,
            )
            &&& b.limits is Some ==> m.limits == b.limits
            &&& b.limits is None && row.limits is Some ==> m.limits == limits
            &&& b.limits is None && row.limits is None ==> m.limits is None
            &&& by_host ==> m.listen_host is None && m.listen_port is None
            &&& by_host && b.hostname is Some ==> m.hostname == b.hostname
            &&& by_host && b.hostname is None ==> m.hostname == row.hostname
            &&& !by_host ==> m.hostname is None
            &&& !by_host && b.listen_host is Some ==> m.listen_host == b.listen_host
            &&& !by_host && b.listen_host is None ==> m.listen_host == row.listen_host
            &&& !by_host && b.listen_port is Some ==> m.listen_port == b.listen_port
            &&& !by_host && b.listen_port is None && row.listen_port is None ==> m.listen_port
                is None
            &&& !by_host && b.listen_port is None && row.listen_port is Some && 0
                <= row.listen_port->0 < 0x1_0000 ==> m.listen_port is Some
                && m.listen_port->0 as int == row.listen_port->0 as int
        }),
{
}

/// The store is asked first whether the node exists, then whether the name is taken, then whether
/// the place where the route is found is: by host name or by listener.
pub proof fn questions_come_in_order(input: RouteInput)
    requires
        input.wf(),
    ensures
        queries_for(input).len() == 3,
        queries_for(input)[0] == ConflictQuery::NodeExists,
        queries_for(input)[1] == ConflictQuery::NameTaken,
        input.route_type == RouteType::Http || input.route_type == RouteType::Https ==> queries_for(
            input,
        )[2] == ConflictQuery::HostnameTaken,
        input.route_type == RouteType::Tcp || input.route_type == RouteType::Udp ==> queries_for(
            input,
        )[2] == ConflictQuery::ListenTaken,
{
}

/// A route is refused with 404 where its node does not exist, and with 409 where its name, its
/// listener or its host name belongs to another route; each time for that reason only.
pub proof fn what_a_conflict_is_answered(input: RouteInput)
    requires
        input.wf(),
    ensures
        conflict(input, ConflictQuery::NodeExists, true) is None,
        conflict(input, ConflictQuery::NameTaken, false) is None,
        conflict(input, ConflictQuery::ListenTaken, false) is None,
        conflict(input, ConflictQuery::HostnameTaken, false) is None,
        conflict(input, ConflictQuery::NodeExists, false) matches Some(e) && e.status == 404
            && e.code == "NODE_NOT_FOUND"@,
        conflict(input, ConflictQuery::NameTaken, true) matches Some(e) && e.status == 409 && e.code
            == "DUPLICATE_NAME"@,
        input.route_type == RouteType::Tcp || input.route_type == RouteType::Udp ==> (conflict(
            input,
            ConflictQuery::ListenTaken,
            true,
        ) matches Some(e) && e.status == 409 && e.code == "DUPLICATE_LISTEN"@),
        input.route_type == RouteType::Http || input.route_type == RouteType::Https ==> (conflict(
            input,
            ConflictQuery::HostnameTaken,
            true,
        ) matches Some(e) && e.status == 409 && e.code == "DUPLICATE_HOSTNAME"@),
{
}

/// A target that is an address is judged, white space around it or not, unless unsafe targets are
/// allowed; a name never is.
pub proof fn which_targets_are_judged(target_host: Seq<char>)
    ensures
        judged_target(target_host, true) is None,
        judged_target(target_host, false) == ip::ip_of(text::trimmed(target_host)),
        forbidden_target(target_host, target_host).status == 422,
        forbidden_target(target_host, target_host).code == "FORBIDDEN_TARGET"@,
{
}

/// A request for a route by someone who may not write routes is refused for that, whatever it
/// asks; one by anyone else goes by the route.
pub proof fn who_may_ask_for_a_route(role: Seq<char>, r: CreateRouteRequest)
    ensures
        !rbac::grants(role, Permission::RoutesWrite) ==> draft_fault(role, r) == Some(
            rbac::lacking(Permission::RoutesWrite),
        ),
        rbac::grants(role, Permission::RoutesWrite) ==> draft_fault(role, r) == route_fault(r),
{
}

/// A request whose target was found to be forbidden is refused, and any other accepted as it was
/// asked.
pub proof fn what_a_judgement_decides(
    r: Result<RouteInput, ApiError>,
    q: CreateRouteRequest,
    c: Option<&'static str>,
)
    requires
        drafted(r, q, c),
    ensures
        r is Ok <==> c is None,
        r matches Ok(i) ==> i.normalizes(q),
        r matches Err(e) ==> e@.status == 422 && e@.code == "FORBIDDEN_TARGET"@,
{
}

/// A change to a route is told in two events: the change, with the route, its name and its node,
/// and then that the configuration of that node is another one.
pub proof fn changes_are_told_with_their_node(
    events: Seq<BusEvent>,
    event_type: Seq<char>,
    route_id: String,
    name: String,
    node_id: String,
)
    requires
        route_events(events, event_type, route_id, name, node_id),
    ensures
        events.len() == 2,
        events[0].event_type@ == event_type,
        events[0].data == (EventData::Route { route_id, name, node_id }),
        events[1].event_type@ == "config.updated"@,
        events[1].data == (EventData::Config { node_id }),
{
}

/// What is wrong with a route is told by the first thing that is: its name, its node, its target,
/// the target's port, then the host name or the listener that its type calls for.
pub proof fn first_fault_of_a_route_is_told(r: CreateRouteRequest)
    ensures
        ({
            let named = text::trimmed(r.name@).len() > 0;
            let placed = named && text::trimmed(r.node_id@).len() > 0;
            let aimed = placed && text::trimmed(r.target_host@).len() > 0;
            let whole = aimed && r.target_port > 0;
            let by_host = r.route_type == RouteType::Http || r.route_type == RouteType::Https;
            let hosted = r.hostname is Some && text::trimmed(r.hostname->0@).len() > 0;
            let bound = r.listen_host is None || ip::ip_of(r.listen_host->0@) is Some;
            let said = |code: Seq<char>, message: Seq<char>|
                route_fault(r) is Some && route_fault(r)->0.code == code && route_fault(r)->0.message
                    == message;
            &&& !named ==> said("INVALID_NAME"@, "name must not be empty"@)
            &&& named && !placed ==> said("INVALID_NODE"@, "node_id must not be empty"@)
            &&& placed && !aimed ==> said("INVALID_TARGET"@, "target_host must not be empty"@)
            &&& aimed && !whole ==> said("INVALID_PORT"@, "target_port must be 1-65535"@)
            &&& whole && by_host && !hosted ==> said(
                "INVALID_HOSTNAME"@,
                "hostname is required for http/https routes"@,
            )
            &&& whole && by_host && hosted && (r.listen_host is Some || r.listen_port is Some) ==> said(
                "INVALID_LISTEN"@,
                "listen_host/listen_port are not used for http/https routes"@,
            )
            &&& whole && !by_host && r.hostname is Some ==> said(
                "INVALID_HOSTNAME"@,
                "hostname is only valid for http/https routes"@,
            )
            &&& whole && !by_host && r.hostname is None && !bound ==> said(
                "INVALID_LISTEN"@,
                "listen_host must be a valid IP address"@,
            )
            &&& whole && !by_host && r.hostname is None && bound && r.listen_port is None ==> said(
                "INVALID_LISTEN"@,
                "listen_port is required for tcp/udp routes"@,
            )
            &&& whole && !by_host && r.hostname is None && bound && r.listen_port == Some(0u16)
                ==> said("INVALID_PORT"@, "listen_port must be 1-65535"@)
        }),
{
    ip::every_address_is_an_address();
}

/// An answer about a conflict names what is in conflict: the node that is missing, or the name,
/// the listener or the host name that another route has. A route that is not there is answered
/// with 404.
pub proof fn conflicts_are_named(input: RouteInput)
    requires
        input.wf(),
    ensures
        conflict(input, ConflictQuery::NodeExists, false)->0.message == "node "@ + input.node_id@
            + " does not exist"@,
        conflict(input, ConflictQuery::NameTaken, true)->0.message == "route "@ + text::quoted(
            input.name@,
        ) + " already exists"@,
        input.listen_host is Some && input.listen_port is Some ==> conflict(
            input,
            ConflictQuery::ListenTaken,
            true,
        )->0.message == "listen "@ + input.listen_host->0@ + ":"@ + text::decimal_spec(
            input.listen_port->0 as nat,
        ) + " already in use"@,
        input.hostname is Some ==> conflict(
            input,
            ConflictQuery::HostnameTaken,
            true,
        )->0.message == "hostname "@ + text::quoted(input.hostname->0@) + " already in use"@,
        route_not_found().status == 404,
        route_not_found().code == "ROUTE_NOT_FOUND"@,
        route_not_found().message == "route does not exist"@,
{
}

} // verus!
