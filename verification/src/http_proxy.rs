//! The HTTP entrance: the host in the head of a request picks the route, the head is rewritten,
//! and the rest passes through.
use crate::acl_store::{self, AclRule, AclSnapshot, AclStore};
use crate::conn_limiter::{self, ConnGuard, ConnLimiter};
use crate::conn_registry::ConnRegistry;
use crate::ids::RouteId;
use crate::ip::{self, SocketAddr};
use crate::maps;
use crate::route::{HostTable, ServerRoute};
use crate::tcp_proxy::{self, OpenEvent, OpenTcp, connection_limit, open_tcp};
use crate::text::{self, chars_of, eq_ignore_ascii_case, from_utf8_lossy, str_eq, to_ascii_lowercase};
use std::sync::Arc;
use vstd::prelude::*;
use vstd::string::StrSliceExecFns;
use vstd::utf8::encode_utf8;

verus! {

/// How large the head of a request may be; a larger one is answered with 400.
pub const MAX_HEAD_BYTES: usize = 65536;

/// How many headers a request may have.
pub const MAX_HEADERS: usize = 64;

/// How long an agent may take to open a target, in seconds.
pub const OPEN_TIMEOUT_SECS: u64 = 15;

/// An answer that the server gives by itself.
#[derive(Clone, Copy, PartialEq, Eq, Structural, Debug, Hash)]
pub enum Reply {
    BadRequest,
    Forbidden,
    NotFound,
    TooMany,
    BadGateway,
}

impl Reply {
    /// The bytes of the answer.
    pub open spec fn text(self) -> Seq<char> {
        match self {
            Reply::BadRequest =>
                "HTTP/1.1 400 Bad Request\r\nContent-Length: 0\r\nConnection: close\r\n\r\n"@,
            Reply::Forbidden =>
                "HTTP/1.1 403 Forbidden\r\nContent-Length: 0\r\nConnection: close\r\n\r\n"@,
            Reply::NotFound =>
                "HTTP/1.1 404 Not Found\r\nContent-Length: 0\r\nConnection: close\r\n\r\n"@,
            Reply::TooMany =>
                "HTTP/1.1 429 Too Many Requests\r\nContent-Length: 0\r\nConnection: close\r\n\r\n"@,
            Reply::BadGateway =>
                "HTTP/1.1 502 Bad Gateway\r\nContent-Length: 0\r\nConnection: close\r\n\r\n"@,
        }
    }

    /// The bytes of the answer.
    pub fn bytes(&self) -> (b: &'static [u8])
        ensures
            b@ == encode_utf8(self.text()),
    {
        match self {
            Reply::BadRequest =>
                "HTTP/1.1 400 Bad Request\r\nContent-Length: 0\r\nConnection: close\r\n\r\n",
            Reply::Forbidden =>
                "HTTP/1.1 403 Forbidden\r\nContent-Length: 0\r\nConnection: close\r\n\r\n",
            Reply::NotFound =>
                "HTTP/1.1 404 Not Found\r\nContent-Length: 0\r\nConnection: close\r\n\r\n",
            Reply::TooMany =>
                "HTTP/1.1 429 Too Many Requests\r\nContent-Length: 0\r\nConnection: close\r\n\r\n",
            Reply::BadGateway =>
                "HTTP/1.1 502 Bad Gateway\r\nContent-Length: 0\r\nConnection: close\r\n\r\n",
        }.as_bytes()
    }
}

// ---- the head of a request ----

/// An empty line that ends in `\r\n` stands in front of `i`, after a line that does.
pub open spec fn crlf_end(buf: Seq<u8>, i: int) -> bool {
    4 <= i <= buf.len() && buf[i - 4] == 13 && buf[i - 3] == 10 && buf[i - 2] == 13 && buf[i - 1]
        == 10
}

/// An empty line that ends in a bare `\n` stands in front of `i`.
pub open spec fn lf_end(buf: Seq<u8>, i: int) -> bool {
    2 <= i <= buf.len() && buf[i - 2] == 10 && buf[i - 1] == 10
}

/// The first empty line that ends in `\r\n` ends at `i`.
pub open spec fn first_crlf(buf: Seq<u8>, i: int) -> bool {
    crlf_end(buf, i) && forall|j: int| j < i ==> !#[trigger] crlf_end(buf, j)
}

/// The first empty line that ends in a bare `\n` ends at `i`.
pub open spec fn first_lf(buf: Seq<u8>, i: int) -> bool {
    lf_end(buf, i) && forall|j: int| j < i ==> !#[trigger] lf_end(buf, j)
}

/// `r` is where the head of a request ends: behind the first empty line that ends in `\r\n`, or,
/// where there is none, behind the first that ends in a bare `\n`.
pub open spec fn head_end(buf: Seq<u8>, r: Option<usize>) -> bool {
    match r {
        Some(n) => first_crlf(buf, n as int) || ((forall|i: int| !#[trigger] crlf_end(buf, i))
            && first_lf(buf, n as int)),
        None => (forall|i: int| !#[trigger] crlf_end(buf, i)) && (forall|i: int| !#[trigger] lf_end(
            buf,
            i,
        )),
    }
}

/// Where the head of a request ends, if it is complete.
pub fn find_header_end(buf: &[u8]) -> (r: Option<usize>)
    ensures
        head_end(buf@, r),
{
    let n: usize = buf.len();
    let mut k: usize = 0;
    while n - k >= 4
        invariant
            n == buf@.len(),
            k <= n,
            forall|j: int| j < k + 4 ==> !#[trigger] crlf_end(buf@, j),
        decreases n - k,
    {
        if buf[k] == 13 && buf[k + 1] == 10 && buf[k + 2] == 13 && buf[k + 3] == 10 {
            assert(crlf_end(buf@, k + 4));
            return Some(k + 4);
        }
        k += 1;
    }
    assert(forall|j: int| !#[trigger] crlf_end(buf@, j));
    let mut k: usize = 0;
    while n - k >= 2
        invariant
            n == buf@.len(),
            k <= n,
            forall|j: int| !#[trigger] crlf_end(buf@, j),
            forall|j: int| j < k + 2 ==> !#[trigger] lf_end(buf@, j),
        decreases n - k,
    {
        if buf[k] == 10 && buf[k + 1] == 10 {
            assert(lf_end(buf@, k + 2));
            return Some(k + 2);
        }
        k += 1;
    }
    None
}

/// The bytes read so far of a request whose head is not complete.
pub struct HeadReader {
    pub buf: Vec<u8>,
}

/// What to do next while the head of a request is being read.
#[derive(Clone, Copy, PartialEq, Eq, Structural, Debug, Hash)]
pub enum HeadStep {
    /// The head ends here; what follows belongs to the body.
    Complete(usize),
    /// More bytes have to be read from the client.
    Read,
    /// The head is too large: it is answered with 400.
    TooLarge,
    /// The client has closed the connection before the head was complete.
    Closed,
}

impl HeadStep {
    /// The answer to a client whose head will not be read further, if it gets one: 400 to one
    /// whose head is too large.
    pub fn reply(&self) -> (r: Option<Reply>)
        ensures
            r == (match *self {
                HeadStep::TooLarge => Some(Reply::BadRequest),
                _ => None,
            }),
    {
        match self {
            HeadStep::TooLarge => Some(Reply::BadRequest),
            _ => None,
        }
    }
}

impl HeadReader {
    /// Nothing has been read.
    pub fn new() -> (r: HeadReader)
        ensures
            r.buf@ == Seq::<u8>::empty(),
    {
        HeadReader { buf: Vec::new() }
    }

    /// What to do with the bytes read so far.
    pub open spec fn step_is(self, r: HeadStep) -> bool {
        match r {
            HeadStep::Complete(n) => head_end(self.buf@, Some(n)),
            HeadStep::TooLarge => head_end(self.buf@, None) && self.buf@.len() >= MAX_HEAD_BYTES,
            HeadStep::Read => head_end(self.buf@, None) && self.buf@.len() < MAX_HEAD_BYTES,
            HeadStep::Closed => false,
        }
    }

    /// What to do with the bytes read so far.
    pub fn next(&self) -> (r: HeadStep)
        ensures
            self.step_is(r),
    {
        match find_header_end(self.buf.as_slice()) {
            Some(n) => HeadStep::Complete(n),
            None => if self.buf.len() >= MAX_HEAD_BYTES {
                HeadStep::TooLarge
            } else {
                HeadStep::Read
            },
        }
    }

    /// Takes the bytes that a read gave. An empty read is the end of the stream.
    pub fn feed(&mut self, chunk: &[u8]) -> (r: HeadStep)
        ensures
            final(self).buf@ == old(self).buf@ + chunk@,
            chunk@.len() == 0 ==> r == HeadStep::Closed,
            chunk@.len() > 0 ==> final(self).step_is(r),
    {
        if chunk.len() == 0 {
            assert(self.buf@ + chunk@ =~= self.buf@);
            return HeadStep::Closed;
        }
        push_bytes(&mut self.buf, chunk);
        self.next()
    }
}

/// A header: its name, and its value as the bytes on the wire.
#[derive(Debug)]
pub struct HttpHeader {
    pub name: String,
    pub value: Vec<u8>,
}

/// The head of a request, as far as it was read.
#[derive(Debug)]
pub struct RequestHead {
    pub method: Option<String>,
    pub path: Option<String>,
    /// The minor version of HTTP/1.
    pub version: Option<u8>,
    pub headers: Vec<HttpHeader>,
}

/// What a header says.
#[verifier::ext_equal]
pub struct HeaderView {
    pub name: Seq<char>,
    pub value: Seq<u8>,
}

/// What the head of a request says.
#[verifier::ext_equal]
pub struct HeadView {
    pub method: Option<Seq<char>>,
    pub path: Option<Seq<char>>,
    pub version: Option<u8>,
    pub headers: Seq<HeaderView>,
}

impl View for HttpHeader {
    type V = HeaderView;

    open spec fn view(&self) -> HeaderView {
        HeaderView { name: self.name@, value: self.value@ }
    }
}

/// What headers say.
pub open spec fn header_views(h: Seq<HttpHeader>) -> Seq<HeaderView> {
    h.map_values(|x: HttpHeader| x@)
}

impl View for RequestHead {
    type V = HeadView;

    open spec fn view(&self) -> HeadView {
        HeadView {
            method: text::opt_view(self.method),
            path: text::opt_view(self.path),
            version: self.version,
            headers: header_views(self.headers@),
        }
    }
}

/// The head that `httparse` reads out of the bytes `buf` with room for `max_headers` headers; none
/// where the bytes are no complete head.
pub uninterp spec fn http_head(buf: Seq<u8>, max_headers: nat) -> Option<HeadView>;

/// What an optional head says.
pub open spec fn opt_head(h: Option<RequestHead>) -> Option<HeadView> {
    match h {
        Some(h) => Some(h@),
        None => None,
    }
}

/// Calls `httparse::Request::parse`. Which bytes are a head, and what it says, is left to the
/// name; the minor version, where there is one, is 0 or 1. The room for the headers is allocated
/// first, so it is kept small.
#[verifier::external_body]
pub(crate) fn parse_head(buf: &[u8], max_headers: usize) -> (r: Option<RequestHead>)
    requires
        max_headers <= 65536,
    ensures
        opt_head(r) == http_head(buf@, max_headers as nat),
        (r matches Some(h) ==> (h.version matches Some(v) ==> v <= 1)),
{
    let mut room = vec![httparse::EMPTY_HEADER; max_headers];
    let mut req = httparse::Request::new(&mut room);
    match req.parse(buf) {
        Ok(httparse::Status::Complete(_)) => Some(RequestHead {
            method: req.method.map(|m| m.to_string()),
            path: req.path.map(|p| p.to_string()),
            version: req.version,
            headers: req.headers.iter().map(|h| HttpHeader {
                name: h.name.to_string(),
                value: h.value.to_vec(),
            }).collect(),
        }),
        _ => None,
    }
}

// ---- the host of a request ----

/// The value of the first `Host` header, in any case; empty where there is none.
pub open spec fn host_value(headers: Seq<HeaderView>) -> Seq<u8>
    decreases headers.len(),
{
    if headers.len() == 0 {
        Seq::empty()
    } else if text::same_ignoring_case(headers[0].name, "host"@) {
        headers[0].value
    } else {
        host_value(headers.subrange(1, headers.len() as int))
    }
}

/// One of the headers is a `Host` header, in any case.
pub open spec fn names_host(headers: Seq<HeaderView>) -> bool {
    exists|i: int|
        0 <= i < headers.len() && text::same_ignoring_case(#[trigger] headers[i].name, "host"@)
}

/// The text of the first `Host` header, if there is one.
pub fn request_host(headers: &Vec<HttpHeader>) -> (r: Option<String>)
    ensures
        match r {
            Some(s) => names_host(header_views(headers@)) && s@ == text::utf8_lossy(
                host_value(header_views(headers@)),
            ),
            None => !names_host(header_views(headers@)),
        },
{
    let ghost all = header_views(headers@);
    let mut i: usize = 0;
    assert(all.subrange(0, all.len() as int) =~= all);
    while i < headers.len()
        invariant
            i <= headers@.len(),
            all == header_views(headers@),
            host_value(all) == host_value(all.subrange(i as int, all.len() as int)),
            forall|j: int|
                0 <= j < i ==> !text::same_ignoring_case(#[trigger] all[j].name, "host"@),
        decreases headers@.len() - i,
    {
        let ghost rest = all.subrange(i as int, all.len() as int);
        assert(rest[0] == headers@[i as int]@);
        assert(rest.subrange(1, rest.len() as int) =~= all.subrange(i + 1, all.len() as int));
        if eq_ignore_ascii_case(headers[i].name.as_str(), "host") {
            assert(text::same_ignoring_case(all[i as int].name, "host"@));
            return Some(from_utf8_lossy(headers[i].value.as_slice()));
        }
        i += 1;
    }
    None
}

/// All characters of `s` are decimal digits, and there is one.
pub open spec fn is_number(s: Seq<char>) -> bool {
    s.len() > 0 && forall|i: int| 0 <= i < s.len() ==> '0' <= #[trigger] s[i] <= '9'
}

/// The last colon of `s` is at `i`.
pub open spec fn last_colon(s: Seq<char>, i: int) -> bool {
    0 <= i < s.len() && s[i] == ':' && forall|j: int| i < j < s.len() ==> s[j] != ':'
}

/// `r` is `host` without its port: without what stands behind the last colon, if that is a
/// number.
pub open spec fn without_port(host: Seq<char>, r: Seq<char>) -> bool {
    if exists|i: int|
        last_colon(host, i) && is_number(host.subrange(i + 1, host.len() as int)) {
        exists|i: int| #[trigger] last_colon(host, i) && r == host.subrange(0, i)
    } else {
        r == host
    }
}

/// The host without its port, under which the route is looked up.
pub fn host_for_lookup(host: &str) -> (r: &str)
    ensures
        without_port(host@, r@),
{
    let v = chars_of(host);
    let mut i: usize = v.len();
    while i > 0
        invariant
            i <= v@.len(),
            v@ == host@,
            forall|j: int| i <= j < v@.len() ==> '0' <= #[trigger] v@[j] <= '9',
        decreases i,
    {
        let c = v[i - 1];
        if c == ':' {
            assert(last_colon(host@, i - 1));
            if i == v.len() {
                proof {
                    only_last_colon(host@, i - 1);
                }
                return host;
            }
            assert(is_number(host@.subrange(i as int, host@.len() as int)));
            return host.substring_char(0, i - 1);
        }
        if !('0' <= c && c <= '9') {
            assert forall|k: int|
                last_colon(host@, k) implies !is_number(
                #[trigger] host@.subrange(k + 1, host@.len() as int),
            ) by {
                if k < i - 1 {
                    assert(host@.subrange(k + 1, host@.len() as int)[i - 1 - (k + 1)] == c);
                } else {
                    assert('0' <= v@[k] <= '9');
                }
            }
            return host;
        }
        i -= 1;
    }
    assert forall|k: int| !last_colon(host@, k) by {
        if last_colon(host@, k) {
            assert('0' <= v@[k] <= '9');
        }
    }
    host
}

proof fn only_last_colon(s: Seq<char>, i: int)
    requires
        last_colon(s, i),
        i == s.len() - 1,
    ensures
        forall|k: int|
            last_colon(s, k) ==> !is_number(#[trigger] s.subrange(k + 1, s.len() as int)),
{
    assert forall|k: int| last_colon(s, k) implies !is_number(
        #[trigger] s.subrange(k + 1, s.len() as int),
    ) by {
        if k < i {
            assert(s[i] != ':');
        }
        assert(s.subrange(k + 1, s.len() as int).len() == 0);
    }
}

/// A host with a numeric port is looked up as the host alone, whatever the host is.
pub proof fn port_is_stripped(host: Seq<char>, port: Seq<char>, r: Seq<char>)
    requires
        is_number(port),
        without_port(host + seq![':'] + port, r),
    ensures
        r == host,
{
    let s = host + seq![':'] + port;
    let i = host.len() as int;
    assert(s.subrange(i + 1, s.len() as int) =~= port);
    assert forall|j: int| i < j < s.len() implies s[j] != ':' by {
        assert(s[j] == port[j - i - 1]);
    }
    assert(last_colon(s, i));
    let k = choose|k: int| #[trigger] last_colon(s, k) && r == s.subrange(0, k);
    if k < i {
        assert(s[i] != ':');
    }
    if k > i {
        assert(s[k] != ':');
    }
    assert(s.subrange(0, i) =~= host);
}

// ---- the head that is passed on ----

/// The header is one that the server sets by itself.
pub open spec fn is_forwarded(name: Seq<char>) -> bool {
    let n = text::ascii_lower(name);
    n == "x-forwarded-for"@ || n == "x-forwarded-proto"@ || n == "x-forwarded-host"@
}

/// The header names the host.
pub open spec fn is_host(name: Seq<char>) -> bool {
    text::ascii_lower(name) == "host"@
}

/// The line of a header that is passed on; nothing for one that the server sets by itself.
pub open spec fn header_line(h: HeaderView) -> Seq<u8> {
    if is_forwarded(h.name) {
        Seq::empty()
    } else if is_host(h.name) {
        encode_utf8("Host: "@) + h.value + encode_utf8("\r\n"@)
    } else {
        encode_utf8(h.name) + encode_utf8(": "@) + h.value + encode_utf8("\r\n"@)
    }
}

/// The lines of the headers that are passed on, in their order.
pub open spec fn header_lines(headers: Seq<HeaderView>) -> Seq<u8>
    decreases headers.len(),
{
    if headers.len() == 0 {
        Seq::empty()
    } else {
        header_lines(headers.drop_last()) + header_line(headers.last())
    }
}

/// The value of the last `Host` header; empty where there is none.
pub open spec fn last_host(headers: Seq<HeaderView>) -> Seq<u8>
    decreases headers.len(),
{
    if headers.len() == 0 {
        Seq::empty()
    } else if !is_forwarded(headers.last().name) && is_host(headers.last().name) {
        headers.last().value
    } else {
        last_host(headers.drop_last())
    }
}

/// The request line that is passed on.
pub open spec fn request_line(method: Seq<char>, path: Seq<char>, version: u8) -> Seq<u8> {
    encode_utf8(method) + encode_utf8(" "@) + encode_utf8(path) + encode_utf8(" HTTP/1."@) + seq![
        (48 + version) as u8,
    ] + encode_utf8("\r\n"@)
}

/// The headers that the server sets: the address of the client, the protocol and the host.
pub open spec fn forwarded_lines(client: Seq<char>, proto: Seq<char>, host: Seq<u8>) -> Seq<u8> {
    encode_utf8("X-Forwarded-For: "@) + encode_utf8(client) + encode_utf8("\r\n"@) + encode_utf8(
        "X-Forwarded-Proto: "@,
    ) + encode_utf8(proto) + encode_utf8("\r\n"@) + encode_utf8("X-Forwarded-Host: "@) + host
        + encode_utf8("\r\n\r\n"@)
}

/// The head that is passed on for a client whose address has the text `client`.
pub open spec fn head_bytes(
    method: Seq<char>,
    path: Seq<char>,
    version: u8,
    headers: Seq<HeaderView>,
    client: Seq<char>,
    proto: Seq<char>,
) -> Seq<u8> {
    request_line(method, path, version) + header_lines(headers) + forwarded_lines(
        client,
        proto,
        last_host(headers),
    )
}

fn push_bytes(out: &mut Vec<u8>, b: &[u8])
    ensures
        final(out)@ == old(out)@ + b@,
{
    out.extend_from_slice(b);
    assert(out@ =~= old(out)@ + b@);
}

fn push_text(out: &mut Vec<u8>, s: &str)
    ensures
        final(out)@ == old(out)@ + encode_utf8(s@),
{
    push_bytes(out, s.as_bytes());
}

fn push_header(out: &mut Vec<u8>, h: &HttpHeader)
    ensures
        final(out)@ == old(out)@ + header_line(h@),
{
    let name = to_ascii_lowercase(h.name.as_str());
    let n = name.as_str();
    if str_eq(n, "x-forwarded-for") || str_eq(n, "x-forwarded-proto") || str_eq(
        n,
        "x-forwarded-host",
    ) {
        assert(out@ + Seq::<u8>::empty() =~= out@);
        return ;
    }
    if str_eq(n, "host") {
        push_text(out, "Host: ");
    } else {
        push_text(out, h.name.as_str());
        push_text(out, ": ");
    }
    push_bytes(out, h.value.as_slice());
    push_text(out, "\r\n");
    assert(out@ =~= old(out)@ + header_line(h@));
}

fn host_of_last(headers: &Vec<HttpHeader>) -> (r: Vec<u8>)
    ensures
        r@ == last_host(header_views(headers@)),
{
    let ghost all = header_views(headers@);
    let mut i: usize = headers.len();
    assert(all.subrange(0, all.len() as int) =~= all);
    while i > 0
        invariant
            i <= headers@.len(),
            all == header_views(headers@),
            last_host(all) == last_host(all.subrange(0, i as int)),
        decreases i,
    {
        let ghost rest = all.subrange(0, i as int);
        assert(rest.last() == headers@[i - 1]@);
        assert(rest.drop_last() =~= all.subrange(0, i - 1));
        let name = to_ascii_lowercase(headers[i - 1].name.as_str());
        if str_eq(name.as_str(), "host") {
            proof {
                host_is_not_forwarded();
                assert(is_host(rest.last().name));
            }
            return vstd::slice::slice_to_vec(headers[i - 1].value.as_slice());
        }
        i -= 1;
    }
    Vec::new()
}

proof fn host_is_not_forwarded()
    ensures
        forall|n: Seq<char>| #[trigger] is_host(n) ==> !is_forwarded(n),
{
    reveal_strlit("host");
    reveal_strlit("x-forwarded-for");
    reveal_strlit("x-forwarded-proto");
    reveal_strlit("x-forwarded-host");
    assert("host"@.len() == 4);
    assert("x-forwarded-for"@.len() == 15);
    assert("x-forwarded-proto"@.len() == 17);
    assert("x-forwarded-host"@.len() == 16);
}

/// Writes the head that is passed on: the request line, the client's headers without those that
/// the server sets by itself, and these. Nothing that the client wrote in them is passed on.
pub fn build_head(
    method: &str,
    path: &str,
    version: u8,
    headers: &Vec<HttpHeader>,
    peer: SocketAddr,
    proto: &str,
) -> (out: Vec<u8>)
    requires
        version <= 207,
    ensures
        exists|client: Seq<char>| #[trigger]
            ip::is_ip_text(peer.ip(), client) && out@ == head_bytes(
                method@,
                path@,
                version,
                header_views(headers@),
                client,
                proto@,
            ),
{
    let mut out: Vec<u8> = Vec::new();
    push_text(&mut out, method);
    push_text(&mut out, " ");
    push_text(&mut out, path);
    push_text(&mut out, " HTTP/1.");
    out.push(48 + version);
    push_text(&mut out, "\r\n");
    let ghost line = request_line(method@, path@, version);
    assert(out@ =~= line);
    let ghost all = header_views(headers@);
    let mut i: usize = 0;
    assert(all.subrange(0, 0) =~= Seq::<HeaderView>::empty());
    assert(line + header_lines(all.subrange(0, 0)) =~= line);
    while i < headers.len()
        invariant
            i <= headers@.len(),
            all == header_views(headers@),
            out@ == line + header_lines(all.subrange(0, i as int)),
        decreases headers@.len() - i,
    {
        push_header(&mut out, &headers[i]);
        let ghost next = all.subrange(0, i + 1);
        assert(next.last() == headers@[i as int]@);
        assert(next.drop_last() =~= all.subrange(0, i as int));
        assert(out@ =~= line + header_lines(next));
        i += 1;
    }
    assert(all.subrange(0, i as int) =~= all);
    let client = peer.ip().to_text();
    let host = host_of_last(headers);
    push_text(&mut out, "X-Forwarded-For: ");
    push_text(&mut out, client.as_str());
    push_text(&mut out, "\r\n");
    push_text(&mut out, "X-Forwarded-Proto: ");
    push_text(&mut out, proto);
    push_text(&mut out, "\r\n");
    push_text(&mut out, "X-Forwarded-Host: ");
    push_bytes(&mut out, host.as_slice());
    push_text(&mut out, "\r\n\r\n");
    assert(out@ =~= head_bytes(method@, path@, version, all, client@, proto@));
    out
}

/// The headers that the client may set.
pub open spec fn own_headers(headers: Seq<HeaderView>) -> Seq<HeaderView>
    decreases headers.len(),
{
    if headers.len() == 0 {
        Seq::empty()
    } else if is_forwarded(headers.last().name) {
        own_headers(headers.drop_last())
    } else {
        own_headers(headers.drop_last()).push(headers.last())
    }
}

/// Whatever a client writes into the headers that the server sets by itself, the head that is
/// passed on is the same as without them.
pub proof fn forged_headers_change_nothing(
    method: Seq<char>,
    path: Seq<char>,
    version: u8,
    headers: Seq<HeaderView>,
    client: Seq<char>,
    proto: Seq<char>,
)
    ensures
        head_bytes(method, path, version, headers, client, proto) == head_bytes(
            method,
            path,
            version,
            own_headers(headers),
            client,
            proto,
        ),
{
    own_headers_decide(headers);
}

proof fn own_headers_decide(headers: Seq<HeaderView>)
    ensures
        header_lines(own_headers(headers)) == header_lines(headers),
        last_host(own_headers(headers)) == last_host(headers),
    decreases headers.len(),
{
    if headers.len() > 0 {
        own_headers_decide(headers.drop_last());
        let before = own_headers(headers.drop_last());
        if is_forwarded(headers.last().name) {
            assert(header_lines(headers.drop_last()) + Seq::<u8>::empty() =~= header_lines(
                headers.drop_last(),
            ));
        } else {
            assert(before.push(headers.last()).drop_last() =~= before);
        }
    }
}

// ---- what becomes of a request ----

/// A request that is passed on.
pub struct Admitted {
    pub route: Arc<ServerRoute>,
    /// The connection of the route's node, on which a stream has to be opened.
    pub conn: quinn::Connection,
    /// The share of the route's connections that this one takes, if they are limited. It is given
    /// back when the connection ends.
    pub guard: Option<ConnGuard>,
    /// What the agent is asked to open.
    pub open: OpenTcp,
    /// The head for the target, to be sent once the agent has opened it.
    pub head: Vec<u8>,
}

/// What becomes of a request.
pub enum HttpDecision {
    /// The server answers by itself. A request without a route, or for a node that is offline,
    /// counts as an error of the route.
    Reply { reply: Reply, route_error: bool, connection_failed: bool },
    /// The request is passed on.
    Forward(Admitted),
}

impl HttpDecision {
    /// The server answers with this.
    pub open spec fn replies(self, reply: Reply, route_error: bool, connection_failed: bool) -> bool {
        self == (HttpDecision::Reply { reply, route_error, connection_failed })
    }
}

/// The key under which the route of a request with the given headers is found.
pub open spec fn route_key(headers: Seq<HeaderView>, key: Seq<char>) -> bool {
    exists|h: Seq<char>| #[trigger]
        without_port(text::utf8_lossy(host_value(headers)), h) && key == text::ascii_lower(h)
}

/// What becomes of a request for `route` that the access rules let in (`allowed`) or not, where
/// `count` connections of the route are open and `conn` is the connection of its node.
pub open spec fn admission(
    d: HttpDecision,
    route: Arc<ServerRoute>,
    allowed: bool,
    count: u64,
    conn: Option<quinn::Connection>,
    peer: SocketAddr,
    proto: Seq<char>,
    head: HeadView,
) -> bool {
    let limit = tcp_proxy::limit_of(*route);
    if !allowed {
        d.replies(Reply::Forbidden, false, false)
    } else if limit is Some && count >= limit->0 {
        d.replies(Reply::TooMany, false, false)
    } else if conn is None {
        d.replies(Reply::BadGateway, true, true)
    } else {
        &&& d matches HttpDecision::Forward(a)
        &&& a.route == route
        &&& Some(a.conn) == conn
        &&& (a.guard is Some) == (limit is Some)
        &&& a.guard matches Some(g) ==> g.route() == route.id
        &&& tcp_proxy::opens(a.open, *route, peer)
        &&& exists|client: Seq<char>| #[trigger]
            ip::is_ip_text(peer.ip(), client) && a.head@ == head_bytes(
                head.method->0,
                head.path->0,
                match head.version {
                    Some(v) => v,
                    None => 1,
                },
                head.headers,
                client,
                proto,
            )
    }
}

/// What becomes of a request for a route.
fn pass_on<F: Fn(&AclRule, &SocketAddr, &str, u16) -> bool>(
    route: Arc<ServerRoute>,
    method: &str,
    path: &str,
    version: u8,
    headers: &Vec<HttpHeader>,
    acl: &AclStore,
    limiter: &mut ConnLimiter,
    conns: &ConnRegistry,
    peer: SocketAddr,
    proto: &str,
    covers: F,
) -> (d: HttpDecision)
    requires
        version <= 207,
        forall|rule: &AclRule, s: &SocketAddr, host: &str, port: u16|
            call_requires(covers, (rule, s, host, port)),
    ensures
        exists|allowed: bool|
            acl_store::acl_says(
                acl@,
                covers,
                route.id,
                peer,
                route.target_host@,
                route.target_port,
                allowed,
            ) && #[trigger] admission(
                d,
                route,
                allowed,
                old(limiter).count(route.id),
                maps::entry(conns@, route.node_id.value),
                peer,
                proto@,
                HeadView {
                    method: Some(method@),
                    path: Some(path@),
                    version: Some(version),
                    headers: header_views(headers@),
                },
            ),
        takes_share(*old(limiter), *final(limiter), d),
{
    let ghost head = HeadView {
        method: Some(method@),
        path: Some(path@),
        version: Some(version),
        headers: header_views(headers@),
    };
    let ghost count = limiter.count(route.id);
    let ghost conn_then = maps::entry(conns@, route.node_id.value);
    let allowed = acl.allows(
        route.id,
        &peer,
        route.target_host.as_str(),
        route.target_port,
        covers,
    );
    if !allowed {
        let d = HttpDecision::Reply {
            reply: Reply::Forbidden,
            route_error: false,
            connection_failed: false,
        };
        assert(admission(d, route, allowed, count, conn_then, peer, proto@, head));
        return d;
    }
    let guard = match connection_limit(&route) {
        Some(max) => match limiter.try_acquire(route.id, max) {
            Some(g) => Some(g),
            None => {
                let d = HttpDecision::Reply {
                    reply: Reply::TooMany,
                    route_error: false,
                    connection_failed: false,
                };
                assert(admission(d, route, allowed, count, conn_then, peer, proto@, head));
                return d;
            },
        },
        None => None,
    };
    let conn = match conns.get(route.node_id) {
        Some(c) => c,
        None => {
            if let Some(g) = guard {
                limiter.release(g);
            }
            let d = HttpDecision::Reply {
                reply: Reply::BadGateway,
                route_error: true,
                connection_failed: true,
            };
            assert(admission(d, route, allowed, count, conn_then, peer, proto@, head));
            return d;
        },
    };
    let open = open_tcp(&route, peer);
    let head_out = build_head(method, path, version, headers, peer, proto);
    let d = HttpDecision::Forward(Admitted { route, conn, guard, open, head: head_out });
    assert(admission(d, route, allowed, count, conn_then, peer, proto@, head));
    d
}

/// The open connections of every route are as they were, but that a request which is passed on
/// takes one of those of its route, if they are limited.
pub open spec fn takes_share(before: ConnLimiter, after: ConnLimiter, d: HttpDecision) -> bool {
    forall|id: RouteId| #[trigger]
        after.count(id) == (if d matches HttpDecision::Forward(a) && a.guard is Some && a.route.id
            == id {
            before.count(id) + 1
        } else {
            before.count(id) as int
        })
}

/// What becomes of a request whose head was read as `head`.
pub fn decide<F: Fn(&AclRule, &SocketAddr, &str, u16) -> bool>(
    head: Option<RequestHead>,
    host_table: &HostTable,
    acl: &AclStore,
    limiter: &mut ConnLimiter,
    conns: &ConnRegistry,
    peer: SocketAddr,
    proto: &str,
    covers: F,
) -> (d: HttpDecision)
    requires
        (head matches Some(h) ==> (h.version matches Some(v) ==> v <= 207)),
        forall|rule: &AclRule, s: &SocketAddr, host: &str, port: u16|
            call_requires(covers, (rule, s, host, port)),
    ensures
        decided(
            d,
            opt_head(head),
            host_table@,
            acl@,
            *old(limiter),
            conns@,
            peer,
            proto@,
            covers,
        ),
        takes_share(*old(limiter), *final(limiter), d),
{
    let bad = HttpDecision::Reply {
        reply: Reply::BadRequest,
        route_error: false,
        connection_failed: false,
    };
    let h = match head {
        Some(h) => h,
        None => {
            return bad;
        },
    };
    let ghost hv = h@;
    let (method, path) = match (h.method, h.path) {
        (Some(m), Some(p)) => (m, p),
        _ => {
            return bad;
        },
    };
    let version: u8 = match h.version {
        Some(v) => v,
        None => 1,
    };
    let host = match request_host(&h.headers) {
        Some(host) => host,
        None => {
            return bad;
        },
    };
    let bare = host_for_lookup(host.as_str());
    let ghost key = text::ascii_lower(bare@);
    assert(route_key(hv.headers, key));
    let route = match host_table.lookup(bare) {
        Some(r) => r,
        None => {
            return HttpDecision::Reply {
                reply: Reply::NotFound,
                route_error: true,
                connection_failed: false,
            };
        },
    };
    let d = pass_on(
        route,
        method.as_str(),
        path.as_str(),
        version,
        &h.headers,
        acl,
        limiter,
        conns,
        peer,
        proto,
        covers,
    );
    proof {
        let count = old(limiter).count(route.id);
        let conn = maps::entry(conns@, route.node_id.value);
        let filled = HeadView {
            method: Some(method@),
            path: Some(path@),
            version: Some(version),
            headers: hv.headers,
        };
        let allowed = choose|allowed: bool|
            acl_store::acl_says(
                acl@,
                covers,
                route.id,
                peer,
                route.target_host@,
                route.target_port,
                allowed,
            ) && #[trigger] admission(d, route, allowed, count, conn, peer, proto@, filled);
        assert(admission(d, route, allowed, count, conn, peer, proto@, hv));
    }
    d
}

/// `d` is what becomes of a request whose head was read as `head`: a head that could not be read
/// and one that names no host are answered with 400; a host without a route with 404; and else
/// the route decides.
pub open spec fn decided<F: Fn(&AclRule, &SocketAddr, &str, u16) -> bool>(
    d: HttpDecision,
    head: Option<HeadView>,
    hosts: Map<Seq<char>, Arc<ServerRoute>>,
    rules: AclSnapshot,
    limiter: ConnLimiter,
    conns: Map<u128, quinn::Connection>,
    peer: SocketAddr,
    proto: Seq<char>,
    covers: F,
) -> bool {
    match head {
        None => d.replies(Reply::BadRequest, false, false),
        Some(h) => if h.method is None || h.path is None || !names_host(h.headers) {
            d.replies(Reply::BadRequest, false, false)
        } else {
            exists|key: Seq<char>| #[trigger]
                route_key(h.headers, key) && match maps::entry(hosts, key) {
                    None => d.replies(Reply::NotFound, true, false),
                    Some(route) => exists|allowed: bool|
                        acl_store::acl_says(
                            rules,
                            covers,
                            route.id,
                            peer,
                            route.target_host@,
                            route.target_port,
                            allowed,
                        ) && #[trigger] admission(
                            d,
                            route,
                            allowed,
                            limiter.count(route.id),
                            maps::entry(conns, route.node_id.value),
                            peer,
                            proto,
                            h,
                        ),
                }
        },
    }
}

/// What becomes of a request whose head is the bytes `buf`.
pub fn handle_http<F: Fn(&AclRule, &SocketAddr, &str, u16) -> bool>(
    buf: &[u8],
    host_table: &HostTable,
    acl: &AclStore,
    limiter: &mut ConnLimiter,
    conns: &ConnRegistry,
    peer: SocketAddr,
    proto: &str,
    covers: F,
) -> (d: HttpDecision)
    requires
        forall|rule: &AclRule, s: &SocketAddr, host: &str, port: u16|
            call_requires(covers, (rule, s, host, port)),
    ensures
        decided(
            d,
            http_head(buf@, 64),
            host_table@,
            acl@,
            *old(limiter),
            conns@,
            peer,
            proto@,
            covers,
        ),
        takes_share(*old(limiter), *final(limiter), d),
{
    let head = parse_head(buf, MAX_HEADERS);
    decide(head, host_table, acl, limiter, conns, peer, proto, covers)
}

/// What to do once the agent was asked to open the target of a request.
#[derive(Clone, Copy, PartialEq, Eq, Structural, Debug, Hash)]
pub enum HttpOpen {
    /// The head, then the rest of what was read, are sent to the agent, and both directions are
    /// copied.
    Forward,
    /// The client is answered, and the failure is counted.
    Reply { reply: Reply, route_error: bool },
    /// The client is dropped without an answer, and the failure is counted.
    Drop,
}

/// What to do once the agent was asked to open the target of a request. Only an agent that
/// refused counts as an error of the route.
pub open spec fn http_open_of(ev: OpenEvent) -> HttpOpen {
    match ev {
        OpenEvent::Opened => HttpOpen::Forward,
        OpenEvent::SendFailed => HttpOpen::Drop,
        OpenEvent::Refused => HttpOpen::Reply { reply: Reply::BadGateway, route_error: true },
        _ => HttpOpen::Reply { reply: Reply::BadGateway, route_error: false },
    }
}

/// What to do once the agent was asked to open the target of a request.
pub fn http_open(ev: OpenEvent) -> (r: HttpOpen)
    ensures
        r == http_open_of(ev),
{
    match ev {
        OpenEvent::Opened => HttpOpen::Forward,
        OpenEvent::SendFailed => HttpOpen::Drop,
        OpenEvent::Refused => HttpOpen::Reply { reply: Reply::BadGateway, route_error: true },
        _ => HttpOpen::Reply { reply: Reply::BadGateway, route_error: false },
    }
}

// ---- what holds of the head that is passed on ----

/// A header is passed on as its name, a colon, a space, its value and the end of the line. The
/// name of the `Host` header is written `Host`. The headers `X-Forwarded-For`,
/// `X-Forwarded-Proto` and `X-Forwarded-Host`, in any case, are the only ones that are left out.
pub proof fn a_header_is_passed_on(h: HeaderView)
    ensures
        ({
            let n = text::ascii_lower(h.name);
            let sent = header_lines(seq![h]);
            &&& n == "x-forwarded-for"@ || n == "x-forwarded-proto"@ || n == "x-forwarded-host"@
                ==> sent.len() == 0
            &&& n == "host"@ ==> sent == encode_utf8("Host: "@) + h.value + encode_utf8("\r\n"@)
            &&& n != "x-forwarded-for"@ && n != "x-forwarded-proto"@ && n != "x-forwarded-host"@
                && n != "host"@ ==> sent == encode_utf8(h.name) + encode_utf8(": "@) + h.value
                + encode_utf8("\r\n"@)
        }),
{
    host_is_not_forwarded();
    assert(is_host(h.name) ==> !is_forwarded(h.name));
    assert(seq![h].drop_last() =~= Seq::<HeaderView>::empty());
    assert(seq![h].last() == h);
    assert(header_lines(Seq::<HeaderView>::empty()) =~= Seq::<u8>::empty());
    assert(header_lines(seq![h]) =~= header_line(h));
}

/// The lines of headers stand behind one another, in the order of the headers.
pub proof fn header_lines_follow_the_order(a: Seq<HeaderView>, b: Seq<HeaderView>)
    ensures
        header_lines(a + b) == header_lines(a) + header_lines(b),
    decreases b.len(),
{
    if b.len() == 0 {
        assert(a + b =~= a);
        assert(header_lines(a) + header_lines(b) =~= header_lines(a));
    } else {
        header_lines_follow_the_order(a, b.drop_last());
        assert((a + b).drop_last() =~= a + b.drop_last());
        assert((a + b).last() == b.last());
        assert(header_lines(a + b) =~= header_lines(a) + header_lines(b));
    }
}

/// The head that is passed on holds the line of every header of the client but `Host` and the
/// three that the server sets, with the name and the value that the client wrote, behind the lines
/// of the headers before it and before those of the headers behind it.
pub proof fn client_headers_are_kept(
    method: Seq<char>,
    path: Seq<char>,
    version: u8,
    headers: Seq<HeaderView>,
    client: Seq<char>,
    proto: Seq<char>,
    i: int,
)
    requires
        0 <= i < headers.len(),
        text::ascii_lower(headers[i].name) != "x-forwarded-for"@,
        text::ascii_lower(headers[i].name) != "x-forwarded-proto"@,
        text::ascii_lower(headers[i].name) != "x-forwarded-host"@,
        text::ascii_lower(headers[i].name) != "host"@,
    ensures
        exists|before: Seq<u8>, after: Seq<u8>|
            before == request_line(method, path, version) + header_lines(headers.take(i)) && after
                == header_lines(headers.skip(i + 1)) + forwarded_lines(
                client,
                proto,
                last_host(headers),
            ) && head_bytes(method, path, version, headers, client, proto) == #[trigger] (before + (
            encode_utf8(headers[i].name) + encode_utf8(": "@) + headers[i].value + encode_utf8(
                "\r\n"@,
            )) + after),
{
    let h = headers[i];
    let line = encode_utf8(h.name) + encode_utf8(": "@) + h.value + encode_utf8("\r\n"@);
    let a = headers.take(i);
    let b = headers.skip(i + 1);
    a_header_is_passed_on(h);
    assert(headers =~= (a + seq![h]) + b);
    header_lines_follow_the_order(a + seq![h], b);
    header_lines_follow_the_order(a, seq![h]);
    let before = request_line(method, path, version) + header_lines(a);
    let after = header_lines(b) + forwarded_lines(client, proto, last_host(headers));
    assert(head_bytes(method, path, version, headers, client, proto) =~= before + line + after);
}

/// The value of the last `Host` header of the request, in any case, is the one that the target is
/// told; nothing where there is none.
pub proof fn target_is_told_the_last_host(headers: Seq<HeaderView>, i: int)
    requires
        forall|j: int|
            0 <= j < headers.len() && j > i ==> text::ascii_lower((#[trigger] headers[j]).name)
                != "host"@,
    ensures
        0 <= i < headers.len() && text::ascii_lower(headers[i].name) == "host"@ ==> last_host(
            headers,
        ) == headers[i].value,
        i < 0 ==> last_host(headers) == Seq::<u8>::empty(),
    decreases headers.len(),
{
    host_is_not_forwarded();
    if headers.len() > 0 && i < headers.len() {
        let last = headers.last();
        assert(last == headers[headers.len() - 1]);
        if i < headers.len() - 1 {
            assert(!is_host(last.name));
            let rest = headers.drop_last();
            assert forall|j: int| 0 <= j < rest.len() && j > i implies text::ascii_lower(
                (#[trigger] rest[j]).name,
            ) != "host"@ by {
                assert(rest[j] == headers[j]);
            }
            target_is_told_the_last_host(rest, i);
        } else {
            assert(is_host(last.name) ==> !is_forwarded(last.name));
        }
    }
}

/// A request goes by the value of its first `Host` header, in any case.
pub proof fn request_goes_by_its_first_host(headers: Seq<HeaderView>, i: int)
    requires
        0 <= i < headers.len(),
        text::ascii_lower(headers[i].name) == "host"@,
        forall|j: int| 0 <= j < i ==> text::ascii_lower((#[trigger] headers[j]).name) != "host"@,
    ensures
        names_host(headers),
        host_value(headers) == headers[i].value,
    decreases headers.len(),
{
    lower_case_host();
    assert(text::same_ignoring_case(headers[i].name, "host"@));
    if i > 0 {
        assert(text::ascii_lower(headers[0].name) != "host"@);
        let rest = headers.subrange(1, headers.len() as int);
        assert(rest[i - 1] == headers[i]);
        assert forall|j: int| 0 <= j < i - 1 implies text::ascii_lower((#[trigger] rest[j]).name)
            != "host"@ by {
            assert(rest[j] == headers[j + 1]);
        }
        request_goes_by_its_first_host(rest, i - 1);
    }
}

/// A request without a header of the name `Host`, in any case, names no host.
pub proof fn request_without_host_names_none(headers: Seq<HeaderView>)
    requires
        forall|j: int|
            0 <= j < headers.len() ==> text::ascii_lower((#[trigger] headers[j]).name) != "host"@,
    ensures
        !names_host(headers),
{
    lower_case_host();
}

proof fn lower_case_host()
    ensures
        text::ascii_lower("host"@) == "host"@,
{
    reveal_strlit("host");
    assert(text::ascii_lower("host"@) =~= "host"@);
}

/// The head that is passed on is the request line, the client's headers, and then exactly three
/// lines: the client's address, the protocol, and the host that the client asked for.
pub proof fn head_starts_and_ends_as_it_should(
    method: Seq<char>,
    path: Seq<char>,
    version: u8,
    headers: Seq<HeaderView>,
    client: Seq<char>,
    proto: Seq<char>,
)
    requires
        version <= 9,
    ensures
        ({
            let end = encode_utf8("\r\n"@);
            let start = encode_utf8(method) + encode_utf8(" "@) + encode_utf8(path) + encode_utf8(
                " HTTP/1."@,
            ) + seq![(0x30 + version) as u8] + end;
            let set = encode_utf8("X-Forwarded-For: "@) + encode_utf8(client) + end + encode_utf8(
                "X-Forwarded-Proto: "@,
            ) + encode_utf8(proto) + end + encode_utf8("X-Forwarded-Host: "@) + last_host(headers)
                + encode_utf8("\r\n\r\n"@);
            head_bytes(method, path, version, headers, client, proto) == start + header_lines(
                headers,
            ) + set
        }),
{
}

/// A host without a colon, or with something else than a number behind its last colon, is looked
/// up as it stands.
pub proof fn host_without_port_stays(host: Seq<char>, r: Seq<char>, i: int)
    requires
        without_port(host, r),
        !host.contains(':') || (0 <= i < host.len() && host[i] == ':' && (forall|j: int|
            i < j < host.len() ==> host[j] != ':') && (i == host.len() - 1 || exists|k: int|
            i < k < host.len() && !('0' <= #[trigger] host[k] <= '9'))),
    ensures
        r == host,
{
    assert forall|n: int| last_colon(host, n) implies !is_number(
        #[trigger] host.subrange(n + 1, host.len() as int),
    ) by {
        if !host.contains(':') {
            assert(host[n] != ':');
        } else {
            if n < i {
                assert(host[i] != ':');
            }
            if n > i {
                assert(host[n] != ':');
            }
            let tail = host.subrange(n + 1, host.len() as int);
            if i < host.len() - 1 {
                let k = choose|k: int| i < k < host.len() && !('0' <= #[trigger] host[k] <= '9');
                assert(tail[k - n - 1] == host[k]);
            }
        }
    }
}

/// A head ends behind the first empty line: a head that lines with `\r\n` make up ends where they
/// do, whatever the body holds, and not before.
pub proof fn body_is_not_part_of_the_head(buf: Seq<u8>, r: Option<usize>, n: int)
    requires
        head_end(buf, r),
        4 <= n <= buf.len(),
        buf[n - 4] == 13 && buf[n - 3] == 10 && buf[n - 2] == 13 && buf[n - 1] == 10,
        forall|k: int|
            4 <= k < n ==> !(#[trigger] buf[k - 4] == 13 && buf[k - 3] == 10 && buf[k - 2] == 13
                && buf[k - 1] == 10),
    ensures
        r == Some(n as usize),
{
    assert(crlf_end(buf, n));
    assert forall|k: int| k < n implies !#[trigger] crlf_end(buf, k) by {
        if crlf_end(buf, k) {
            assert(buf[k - 4] == 13);
        }
    }
    if r is Some {
        let m = r->0 as int;
        assert(crlf_end(buf, m));
        if m > n {
            assert(!crlf_end(buf, n));
        }
    }
}

/// A head that no empty line ends is not complete.
pub proof fn head_without_empty_line_is_incomplete(buf: Seq<u8>, r: Option<usize>)
    requires
        head_end(buf, r),
        forall|k: int|
            0 <= k < buf.len() - 1 ==> !(#[trigger] buf[k] == 10 && buf[k + 1] == 10),
        forall|k: int|
            0 <= k < buf.len() - 3 ==> !(#[trigger] buf[k] == 13 && buf[k + 1] == 10 && buf[k + 2]
                == 13 && buf[k + 3] == 10),
    ensures
        r is None,
{
    if r is Some {
        let n = r->0 as int;
        if crlf_end(buf, n) {
            assert(buf[n - 4] == 13);
        } else {
            assert(buf[n - 2] == 10);
        }
    }
}

// ---- what holds of what becomes of a request ----

/// A request is passed on only to the route of the host that it names, only where the access rules
/// let it in, where the route has fewer connections than it may have and where its node is
/// connected; and what the agent is asked to open is the target of that route.
pub proof fn only_admitted_requests_are_passed_on<
    F: Fn(&AclRule, &SocketAddr, &str, u16) -> bool,
>(
    a: Admitted,
    head: Option<HeadView>,
    hosts: Map<Seq<char>, Arc<ServerRoute>>,
    rules: AclSnapshot,
    limiter: ConnLimiter,
    conns: Map<u128, quinn::Connection>,
    peer: SocketAddr,
    proto: Seq<char>,
    covers: F,
) -> (key: Seq<char>)
    requires
        decided(
            HttpDecision::Forward(a),
            head,
            hosts,
            rules,
            limiter,
            conns,
            peer,
            proto,
            covers,
        ),
    ensures
        head is Some,
        head->0.method is Some && head->0.path is Some,
        names_host(head->0.headers),
        exists|h: Seq<char>| #[trigger]
            without_port(text::utf8_lossy(host_value(head->0.headers)), h) && key
                == text::ascii_lower(h),
        hosts.dom().contains(key) && hosts[key] == a.route,
        acl_store::acl_says(
            rules,
            covers,
            a.route.id,
            peer,
            a.route.target_host@,
            a.route.target_port,
            true,
        ),
        a.route.limits matches Some(l) ==> (l.max_connections matches Some(max) ==> limiter.count(
            a.route.id,
        ) < max && a.guard is Some),
        a.guard matches Some(g) ==> g.route() == a.route.id,
        conns.dom().contains(a.route.node_id.value) && conns[a.route.node_id.value] == a.conn,
        a.open.route_id == a.route.id,
        a.open.target_host == a.route.target_host,
        a.open.target_port == a.route.target_port,
{
    let h = head->0;
    let d = HttpDecision::Forward(a);
    let key = choose|key: Seq<char>| #[trigger]
        route_key(h.headers, key) && match maps::entry(hosts, key) {
            None => d.replies(Reply::NotFound, true, false),
            Some(route) => exists|allowed: bool|
                acl_store::acl_says(
                    rules,
                    covers,
                    route.id,
                    peer,
                    route.target_host@,
                    route.target_port,
                    allowed,
                ) && #[trigger] admission(
                    d,
                    route,
                    allowed,
                    limiter.count(route.id),
                    maps::entry(conns, route.node_id.value),
                    peer,
                    proto,
                    h,
                ),
        };
    key
}

/// What a request for a route is answered: one that the rules keep out with 403, one over the
/// limit with 429, one for a node that is offline with 502, which counts as an error of the route;
/// every other one is passed on.
pub proof fn requests_are_answered_by_what_is_wrong(
    d: HttpDecision,
    route: Arc<ServerRoute>,
    allowed: bool,
    count: u64,
    conn: Option<quinn::Connection>,
    peer: SocketAddr,
    proto: Seq<char>,
    head: HeadView,
)
    requires
        admission(d, route, allowed, count, conn, peer, proto, head),
    ensures
        d is Forward <==> allowed && conn is Some && !(route.limits is Some
            && route.limits->0.max_connections is Some && count
            >= route.limits->0.max_connections->0),
        !allowed ==> d == (HttpDecision::Reply {
            reply: Reply::Forbidden,
            route_error: false,
            connection_failed: false,
        }),
        allowed && route.limits is Some && route.limits->0.max_connections is Some && count
            >= route.limits->0.max_connections->0 ==> d == (HttpDecision::Reply {
            reply: Reply::TooMany,
            route_error: false,
            connection_failed: false,
        }),
        allowed && conn is None && !(route.limits is Some && route.limits->0.max_connections is Some
            && count >= route.limits->0.max_connections->0) ==> d == (HttpDecision::Reply {
            reply: Reply::BadGateway,
            route_error: true,
            connection_failed: true,
        }),
{
}

/// A request that cannot be read, or that names no host, is answered with 400, and counts neither
/// as an error of a route nor as a failed connection.
pub proof fn unreadable_request_is_bad<F: Fn(&AclRule, &SocketAddr, &str, u16) -> bool>(
    d: HttpDecision,
    head: Option<HeadView>,
    hosts: Map<Seq<char>, Arc<ServerRoute>>,
    rules: AclSnapshot,
    limiter: ConnLimiter,
    conns: Map<u128, quinn::Connection>,
    peer: SocketAddr,
    proto: Seq<char>,
    covers: F,
)
    requires
        decided(d, head, hosts, rules, limiter, conns, peer, proto, covers),
        head matches Some(h) ==> h.method is None || h.path is None || forall|j: int|
            0 <= j < h.headers.len() ==> text::ascii_lower((#[trigger] h.headers[j]).name)
                != "host"@,
    ensures
        d == (HttpDecision::Reply {
            reply: Reply::BadRequest,
            route_error: false,
            connection_failed: false,
        }),
{
    if let Some(h) = head {
        if h.method is Some && h.path is Some {
            request_without_host_names_none(h.headers);
        }
    }
}

/// A request for a host that no route has is answered with 404, which counts as an error of the
/// route.
pub proof fn unknown_host_is_not_found<F: Fn(&AclRule, &SocketAddr, &str, u16) -> bool>(
    d: HttpDecision,
    head: HeadView,
    hosts: Map<Seq<char>, Arc<ServerRoute>>,
    rules: AclSnapshot,
    limiter: ConnLimiter,
    conns: Map<u128, quinn::Connection>,
    peer: SocketAddr,
    proto: Seq<char>,
    covers: F,
)
    requires
        decided(d, Some(head), hosts, rules, limiter, conns, peer, proto, covers),
        head.method is Some,
        head.path is Some,
        names_host(head.headers),
        forall|h: Seq<char>|
            without_port(text::utf8_lossy(host_value(head.headers)), h) ==> !hosts.dom().contains(
                #[trigger] text::ascii_lower(h),
            ),
    ensures
        d == (HttpDecision::Reply {
            reply: Reply::NotFound,
            route_error: true,
            connection_failed: false,
        }),
{
}

/// A request takes one of the connections that a limited route may have only where it is passed
/// on, and never one of another route.
pub proof fn only_passed_requests_take_a_share(
    before: ConnLimiter,
    after: ConnLimiter,
    d: HttpDecision,
    id: RouteId,
)
    requires
        takes_share(before, after, d),
    ensures
        d is Reply ==> after.count(id) == before.count(id),
        d matches HttpDecision::Forward(a) ==> (if a.guard is Some && a.route.id == id {
            after.count(id) == before.count(id) + 1
        } else {
            after.count(id) == before.count(id)
        }),
{
}

/// A request reaches its target only if the agent has opened it. A client that is still there is
/// answered with 502 otherwise; only an agent that refused counts against the route. The agent has
/// 15 seconds.
pub proof fn only_an_opened_target_gets_the_request(ev: OpenEvent)
    ensures
        http_open_of(ev) is Forward <==> ev is Opened,
        http_open_of(ev) is Drop <==> ev is SendFailed,
        OPEN_TIMEOUT_SECS == 15,
        http_open_of(ev) matches HttpOpen::Reply { reply, route_error } ==> reply
            == Reply::BadGateway && route_error == (ev is Refused),
{
}

/// Every answer of the server is an HTTP/1.1 answer with the status that it is named for, without
/// a body, after which the connection ends.
pub proof fn replies_state_their_status(r: Reply)
    ensures
        r.text() == "HTTP/1.1 "@ + (match r {
            Reply::BadRequest => "400 Bad Request"@,
            Reply::Forbidden => "403 Forbidden"@,
            Reply::NotFound => "404 Not Found"@,
            Reply::TooMany => "429 Too Many Requests"@,
            Reply::BadGateway => "502 Bad Gateway"@,
        }) + "\r\nContent-Length: 0\r\nConnection: close\r\n\r\n"@,
{
    reveal_strlit("HTTP/1.1 ");
    reveal_strlit("400 Bad Request");
    reveal_strlit("403 Forbidden");
    reveal_strlit("404 Not Found");
    reveal_strlit("429 Too Many Requests");
    reveal_strlit("502 Bad Gateway");
    reveal_strlit("\r\nContent-Length: 0\r\nConnection: close\r\n\r\n");
    reveal_strlit("HTTP/1.1 400 Bad Request\r\nContent-Length: 0\r\nConnection: close\r\n\r\n");
    reveal_strlit("HTTP/1.1 403 Forbidden\r\nContent-Length: 0\r\nConnection: close\r\n\r\n");
    reveal_strlit("HTTP/1.1 404 Not Found\r\nContent-Length: 0\r\nConnection: close\r\n\r\n");
    reveal_strlit("HTTP/1.1 429 Too Many Requests\r\nContent-Length: 0\r\nConnection: close\r\n\r\n");
    reveal_strlit("HTTP/1.1 502 Bad Gateway\r\nContent-Length: 0\r\nConnection: close\r\n\r\n");
    assert(r.text() =~= "HTTP/1.1 "@ + (match r {
        Reply::BadRequest => "400 Bad Request"@,
        Reply::Forbidden => "403 Forbidden"@,
        Reply::NotFound => "404 Not Found"@,
        Reply::TooMany => "429 Too Many Requests"@,
        Reply::BadGateway => "502 Bad Gateway"@,
    }) + "\r\nContent-Length: 0\r\nConnection: close\r\n\r\n"@);
}

/// A head is read until its end is there, and given up where 65536 bytes hold none.
pub proof fn head_is_read_up_to_a_limit(h: HeadReader, s: HeadStep)
    requires
        h.step_is(s),
    ensures
        s !is Closed,
        s matches HeadStep::Complete(n) ==> head_end(h.buf@, Some(n)),
        s is Read || s is TooLarge ==> head_end(h.buf@, None),
        s is Read ==> h.buf@.len() < 65536,
        s is TooLarge ==> h.buf@.len() >= 65536,
{
}

/// A host with a port is looked up without it.
pub proof fn port_is_cut_off(host: Seq<char>, port: Seq<char>, r: Seq<char>)
    requires
        port.len() > 0,
        forall|i: int| 0 <= i < port.len() ==> 48 <= (#[trigger] port[i]) as int <= 57,
        without_port(host + seq![':'] + port, r),
    ensures
        r == host,
{
    let s = host + seq![':'] + port;
    let c = host.len() as int;
    assert forall|j: int| c < j < s.len() implies s[j] != ':' by {
        assert(s[j] == port[j - c - 1]);
    }
    assert(last_colon(s, c));
    assert(s.subrange(c + 1, s.len() as int) =~= port);
    assert(is_number(s.subrange(c + 1, s.len() as int)));
    let k = choose|k: int| #[trigger] last_colon(s, k) && r == s.subrange(0, k);
    if k < c {
        assert(s[c] != ':');
    }
    if c < k {
        assert(s[k] != ':');
    }
    assert(s.subrange(0, c) =~= host);
}

/// What is passed on is the client's request: its method, path, version and headers, told by whom
/// it was sent and how. A request without a version is one of HTTP/1.1.
pub proof fn passed_request_is_the_clients<F: Fn(&AclRule, &SocketAddr, &str, u16) -> bool>(
    a: Admitted,
    head: HeadView,
    hosts: Map<Seq<char>, Arc<ServerRoute>>,
    rules: AclSnapshot,
    limiter: ConnLimiter,
    conns: Map<u128, quinn::Connection>,
    peer: SocketAddr,
    proto: Seq<char>,
    covers: F,
) -> (client: Seq<char>)
    requires
        decided(
            HttpDecision::Forward(a),
            Some(head),
            hosts,
            rules,
            limiter,
            conns,
            peer,
            proto,
            covers,
        ),
    ensures
        ip::ip_of(client) == Some(peer.ip()),
        head.version matches Some(v) ==> a.head@ == head_bytes(
            head.method->0,
            head.path->0,
            v,
            head.headers,
            client,
            proto,
        ),
        head.version is None ==> a.head@ == head_bytes(
            head.method->0,
            head.path->0,
            1,
            head.headers,
            client,
            proto,
        ),
{
    let client = choose|client: Seq<char>| #[trigger]
        ip::is_ip_text(peer.ip(), client) && a.head@ == head_bytes(
            head.method->0,
            head.path->0,
            match head.version {
                Some(v) => v,
                None => 1,
            },
            head.headers,
            client,
            proto,
        );
    ip::ip_text_reads_back(peer.ip(), client);
    client
}

/// A head whose lines end in a bare `\n` ends behind its first empty line, where none ends in
/// `\r\n`.
pub proof fn bare_empty_line_ends_a_head(buf: Seq<u8>, r: Option<usize>, n: int)
    requires
        head_end(buf, r),
        2 <= n <= buf.len(),
        buf[n - 2] == 10 && buf[n - 1] == 10,
        forall|k: int| 2 <= k < n ==> !(#[trigger] buf[k - 2] == 10 && buf[k - 1] == 10),
        forall|k: int|
            0 <= k < buf.len() - 3 ==> !(#[trigger] buf[k] == 13 && buf[k + 1] == 10 && buf[k + 2]
                == 13 && buf[k + 3] == 10),
    ensures
        r == Some(n as usize),
{
    assert(lf_end(buf, n));
    assert forall|k: int| !#[trigger] crlf_end(buf, k) by {
        if crlf_end(buf, k) {
            assert(buf[k - 4] == 13);
        }
    }
    assert forall|k: int| k < n implies !#[trigger] lf_end(buf, k) by {
        if lf_end(buf, k) {
            assert(buf[k - 2] == 10);
        }
    }
    if r is Some {
        let m = r->0 as int;
        assert(lf_end(buf, m));
        if m > n {
            assert(!lf_end(buf, n));
        }
    }
}

} // verus!
