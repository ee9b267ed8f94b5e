//! TLS passthrough: the server name is read out of the ClientHello, nothing is decrypted, and
//! the bytes already read are replayed in front of the stream.
use crate::text::{self, from_utf8_lossy};
use vstd::prelude::*;

verus! {

/// How many bytes of a ClientHello are waited for.
pub const MAX_PEEK_BYTES: usize = 16384;

/// What a prefix of a TLS stream says about the server name.
#[derive(Debug)]
pub enum Sni {
    /// The host name of the server_name extension.
    Found(String),
    /// A complete ClientHello without a host name.
    Absent,
    /// The first record is not complete yet.
    NeedMore,
    /// Not a handshake record, not a ClientHello, or malformed.
    NotTls,
}

/// The outcome of reading a server name, with the name as the bytes on the wire.
pub enum SniBytes {
    Found(Seq<u8>),
    Absent,
    NeedMore,
    NotTls,
}

/// The big-endian 16-bit number at `i`.
pub open spec fn be16(b: Seq<u8>, i: int) -> int {
    b[i] * 256 + b[i + 1]
}

/// The big-endian 24-bit number at `i`.
pub open spec fn be24(b: Seq<u8>, i: int) -> int {
    b[i] * 65536 + b[i + 1] * 256 + b[i + 2]
}

/// Where the vector with a one-byte length at `pos` ends, if it ends within `b`.
pub open spec fn vec8_end(b: Seq<u8>, pos: int) -> Option<int> {
    if pos + 1 <= b.len() && pos + 1 + b[pos] <= b.len() {
        Some(pos + 1 + b[pos])
    } else {
        None
    }
}

/// Where the vector with a two-byte length at `pos` ends, if it ends within `b`.
pub open spec fn vec16_end(b: Seq<u8>, pos: int) -> Option<int> {
    if pos + 2 <= b.len() && pos + 2 + be16(b, pos) <= b.len() {
        Some(pos + 2 + be16(b, pos))
    } else {
        None
    }
}

/// The first host name of a server name list.
pub open spec fn host_name_in(list: Seq<u8>) -> SniBytes
    decreases list.len(),
{
    if list.len() < 3 {
        SniBytes::Absent
    } else {
        match vec16_end(list, 1) {
            None => SniBytes::NotTls,
            Some(e) => if list[0] == 0 {
                SniBytes::Found(list.subrange(3, e))
            } else {
                host_name_in(list.subrange(e, list.len() as int))
            },
        }
    }
}

/// The server name in the data of a server_name extension.
pub open spec fn server_name_in(data: Seq<u8>) -> SniBytes {
    if data.len() < 2 {
        SniBytes::Absent
    } else {
        match vec16_end(data, 0) {
            None => SniBytes::NotTls,
            Some(e) => host_name_in(data.subrange(2, e)),
        }
    }
}

/// The server name in a block of extensions: that of the first server_name extension.
pub open spec fn extension_name(block: Seq<u8>) -> SniBytes
    decreases block.len(),
{
    if block.len() < 4 {
        SniBytes::Absent
    } else {
        match vec16_end(block, 2) {
            None => SniBytes::NotTls,
            Some(e) => if be16(block, 0) == 0 {
                server_name_in(block.subrange(4, e))
            } else {
                extension_name(block.subrange(e, block.len() as int))
            },
        }
    }
}

/// The server name in the extensions that start at `pos` of a ClientHello body.
pub open spec fn tail_name(hello: Seq<u8>, pos: int) -> SniBytes {
    if pos + 2 > hello.len() {
        SniBytes::Absent
    } else {
        match vec16_end(hello, pos) {
            None => SniBytes::NotTls,
            Some(e) => extension_name(hello.subrange(pos + 2, e)),
        }
    }
}

/// The server name in a ClientHello body: version and random (34 bytes), session id, cipher
/// suites, compression methods, extensions.
pub open spec fn hello_name(hello: Seq<u8>) -> SniBytes {
    match vec8_end(hello, 34) {
        None => SniBytes::NotTls,
        Some(session_end) => match vec16_end(hello, session_end) {
            None => SniBytes::NotTls,
            Some(suites_end) => match vec8_end(hello, suites_end) {
                None => SniBytes::NotTls,
                Some(methods_end) => tail_name(hello, methods_end),
            },
        },
    }
}

/// What the bytes `buf` at the start of a stream say about the server name.
pub open spec fn sni_bytes(buf: Seq<u8>) -> SniBytes {
    if buf.len() < 5 {
        SniBytes::NeedMore
    } else if buf[0] != 0x16 {
        SniBytes::NotTls
    } else if buf.len() < 5 + be16(buf, 3) {
        SniBytes::NeedMore
    } else if be16(buf, 3) < 4 || buf[5] != 0x01 || 4 + be24(buf, 6) > be16(buf, 3) {
        SniBytes::NotTls
    } else {
        hello_name(buf.subrange(9, 9 + be24(buf, 6)))
    }
}

/// The outcome `r` says what `spec` says, with the name decoded.
pub open spec fn sni_says(r: Sni, spec: SniBytes) -> bool {
    match spec {
        SniBytes::Found(name) => r matches Sni::Found(s) && s@ == text::utf8_lossy(name),
        SniBytes::Absent => r is Absent,
        SniBytes::NeedMore => r is NeedMore,
        SniBytes::NotTls => r is NotTls,
    }
}

fn read16(b: &[u8], i: usize) -> (n: usize)
    requires
        i + 1 < b@.len(),
    ensures
        n == be16(b@, i as int),
        n <= 65535,
{
    (b[i] as usize) * 256 + (b[i + 1] as usize)
}

fn end8(b: &[u8], pos: usize) -> (r: Option<usize>)
    requires
        pos <= b@.len(),
    ensures
        match r {
            Some(e) => vec8_end(b@, pos as int) == Some(e as int) && pos < e <= b@.len(),
            None => vec8_end(b@, pos as int) is None,
        },
{
    if pos >= b.len() {
        return None;
    }
    let n: usize = b[pos] as usize;
    if n > b.len() - pos - 1 {
        return None;
    }
    Some(pos + 1 + n)
}

fn end16(b: &[u8], pos: usize) -> (r: Option<usize>)
    requires
        pos <= b@.len(),
    ensures
        match r {
            Some(e) => vec16_end(b@, pos as int) == Some(e as int) && pos + 2 <= e <= b@.len(),
            None => vec16_end(b@, pos as int) is None,
        },
{
    if b.len() - pos < 2 {
        return None;
    }
    let n: usize = read16(b, pos);
    if n > b.len() - pos - 2 {
        return None;
    }
    Some(pos + 2 + n)
}

/// The first host name of a server name list.
fn find_host_name(list: &[u8]) -> (r: Sni)
    ensures
        sni_says(r, host_name_in(list@)),
{
    let mut p: usize = 0;
    assert(list@.subrange(0, list@.len() as int) =~= list@);
    while list.len() - p >= 3
        invariant
            p <= list@.len(),
            host_name_in(list@) == host_name_in(list@.subrange(p as int, list@.len() as int)),
        decreases list@.len() - p,
    {
        let ghost rest = list@.subrange(p as int, list@.len() as int);
        assert(be16(rest, 1) == be16(list@, p + 1));
        match end16(list, p + 1) {
            None => {
                assert(vec16_end(rest, 1) is None);
                return Sni::NotTls;
            },
            Some(e) => {
                assert(vec16_end(rest, 1) == Some(e - p));
                if list[p] == 0 {
                    let name = &list[p + 3..e];
                    assert(name@ =~= rest.subrange(3, e - p));
                    return Sni::Found(from_utf8_lossy(name));
                }
                assert(rest.subrange(e - p, rest.len() as int) =~= list@.subrange(
                    e as int,
                    list@.len() as int,
                ));
                p = e;
            },
        }
    }
    Sni::Absent
}

/// The server name in the data of a server_name extension.
fn find_server_name(data: &[u8]) -> (r: Sni)
    ensures
        sni_says(r, server_name_in(data@)),
{
    if data.len() < 2 {
        return Sni::Absent;
    }
    match end16(data, 0) {
        None => Sni::NotTls,
        Some(e) => find_host_name(&data[2..e]),
    }
}

/// The server name in a block of extensions.
fn find_extension(block: &[u8]) -> (r: Sni)
    ensures
        sni_says(r, extension_name(block@)),
{
    let mut p: usize = 0;
    assert(block@.subrange(0, block@.len() as int) =~= block@);
    while block.len() - p >= 4
        invariant
            p <= block@.len(),
            extension_name(block@) == extension_name(
                block@.subrange(p as int, block@.len() as int),
            ),
        decreases block@.len() - p,
    {
        let ghost rest = block@.subrange(p as int, block@.len() as int);
        assert(be16(rest, 2) == be16(block@, p + 2));
        assert(be16(rest, 0) == be16(block@, p as int));
        match end16(block, p + 2) {
            None => {
                assert(vec16_end(rest, 2) is None);
                return Sni::NotTls;
            },
            Some(e) => {
                assert(vec16_end(rest, 2) == Some(e - p));
                if read16(block, p) == 0 {
                    let data = &block[p + 4..e];
                    assert(data@ =~= rest.subrange(4, e - p));
                    return find_server_name(data);
                }
                assert(rest.subrange(e - p, rest.len() as int) =~= block@.subrange(
                    e as int,
                    block@.len() as int,
                ));
                p = e;
            },
        }
    }
    Sni::Absent
}

/// The server name in a ClientHello body.
fn find_in_hello(hello: &[u8]) -> (r: Sni)
    ensures
        sni_says(r, hello_name(hello@)),
{
    if hello.len() < 34 {
        return Sni::NotTls;
    }
    let session_end: usize = match end8(hello, 34) {
        None => {
            return Sni::NotTls;
        },
        Some(e) => e,
    };
    let suites_end: usize = match end16(hello, session_end) {
        None => {
            return Sni::NotTls;
        },
        Some(e) => e,
    };
    let methods_end: usize = match end8(hello, suites_end) {
        None => {
            return Sni::NotTls;
        },
        Some(e) => e,
    };
    if hello.len() - methods_end < 2 {
        return Sni::Absent;
    }
    match end16(hello, methods_end) {
        None => Sni::NotTls,
        Some(e) => find_extension(&hello[methods_end + 2..e]),
    }
}

/// Reads the server name out of the first TLS record of a stream, which must hold the whole
/// ClientHello.
pub fn extract_sni(buf: &[u8]) -> (r: Sni)
    ensures
        sni_says(r, sni_bytes(buf@)),
{
    if buf.len() < 5 {
        return Sni::NeedMore;
    }
    if buf[0] != 0x16 {
        return Sni::NotTls;
    }
    let rec_len: usize = read16(buf, 3);
    if buf.len() - 5 < rec_len {
        return Sni::NeedMore;
    }
    if rec_len < 4 || buf[5] != 0x01 {
        return Sni::NotTls;
    }
    let hs_len: usize = (buf[6] as usize) * 65536 + read16(buf, 7);
    if 4 + hs_len > rec_len {
        return Sni::NotTls;
    }
    find_in_hello(&buf[9..9 + hs_len])
}

/// Bytes that arrive later never change an outcome that was reached.
pub proof fn later_bytes_change_nothing(buf: Seq<u8>, more: Seq<u8>)
    requires
        sni_bytes(buf) !is NeedMore,
    ensures
        sni_bytes(buf + more) == sni_bytes(buf),
{
    let all = buf + more;
    assert(forall|i: int| 0 <= i < buf.len() ==> all[i] == buf[i]);
    if buf[0] == 0x16 && be16(buf, 3) >= 4 {
        assert(be24(all, 6) == be24(buf, 6));
        if 4 + be24(buf, 6) <= be16(buf, 3) {
            assert(all.subrange(9, 9 + be24(buf, 6)) =~= buf.subrange(9, 9 + be24(buf, 6)));
        }
    }
}

/// Whatever is missing of the first record of a handshake, more bytes are asked for.
pub proof fn incomplete_record_needs_more(buf: Seq<u8>, n: int)
    requires
        buf.len() >= 5,
        buf[0] == 0x16,
        0 <= n < 5 + be16(buf, 3),
        n <= buf.len(),
    ensures
        sni_bytes(buf.subrange(0, n)) is NeedMore,
{
}

/// `data` behind its length in one byte.
pub open spec fn vec8(data: Seq<u8>) -> Seq<u8> {
    seq![data.len() as u8] + data
}

/// `data` behind its length in two bytes.
pub open spec fn vec16(data: Seq<u8>) -> Seq<u8> {
    seq![(data.len() / 256) as u8, (data.len() % 256) as u8] + data
}

/// One extension with its type and its data.
pub open spec fn extension(kind: int, data: Seq<u8>) -> Seq<u8> {
    seq![(kind / 256) as u8, (kind % 256) as u8] + vec16(data)
}

/// The extensions `exts`, one after the other.
pub open spec fn extensions(exts: Seq<(int, Seq<u8>)>) -> Seq<u8>
    decreases exts.len(),
{
    if exts.len() == 0 {
        Seq::empty()
    } else {
        extension(exts[0].0, exts[0].1) + extensions(exts.subrange(1, exts.len() as int))
    }
}

/// The data of a server_name extension with one host name.
pub open spec fn server_name_data(name: Seq<u8>) -> Seq<u8> {
    vec16(seq![0u8] + vec16(name))
}

/// The body of a ClientHello with the given parts.
pub open spec fn client_hello(
    fixed: Seq<u8>,
    session: Seq<u8>,
    suites: Seq<u8>,
    methods: Seq<u8>,
    block: Seq<u8>,
) -> Seq<u8> {
    fixed + vec8(session) + vec16(suites) + vec8(methods) + vec16(block)
}

/// A handshake record of the given version with the ClientHello body `hello`.
pub open spec fn hello_record(version: (u8, u8), hello: Seq<u8>) -> Seq<u8> {
    seq![0x16u8, version.0, version.1] + vec16(
        seq![0x01u8, 0u8, (hello.len() / 256) as u8, (hello.len() % 256) as u8] + hello,
    )
}

proof fn vec16_reads(pre: Seq<u8>, data: Seq<u8>, post: Seq<u8>)
    requires
        data.len() <= 65535,
    ensures
        vec16_end(pre + vec16(data) + post, pre.len() as int) == Some(
            (pre.len() + 2 + data.len()) as int,
        ),
        be16(pre + vec16(data) + post, pre.len() as int) == data.len(),
        (pre + vec16(data) + post).subrange(
            (pre.len() + 2) as int,
            (pre.len() + 2 + data.len()) as int,
        ) == data,
        (pre + vec16(data) + post).subrange(
            (pre.len() + 2 + data.len()) as int,
            (pre.len() + 2 + data.len() + post.len()) as int,
        ) == post,
{
    let all = pre + vec16(data) + post;
    let k = pre.len() as int;
    assert(all[k] == (data.len() / 256) as u8);
    assert(all[k + 1] == (data.len() % 256) as u8);
    assert(all.subrange(k + 2, k + 2 + data.len()) =~= data);
    assert(all.subrange(k + 2 + data.len(), k + 2 + data.len() + post.len()) =~= post);
}

proof fn vec8_reads(pre: Seq<u8>, data: Seq<u8>, post: Seq<u8>)
    requires
        data.len() <= 255,
    ensures
        vec8_end(pre + vec8(data) + post, pre.len() as int) == Some(
            (pre.len() + 1 + data.len()) as int,
        ),
{
    let all = pre + vec8(data) + post;
    assert(all[pre.len() as int] == data.len() as u8);
}

proof fn skips_other_extensions(before: Seq<(int, Seq<u8>)>, rest: Seq<u8>)
    requires
        forall|i: int|
            0 <= i < before.len() ==> 0 < (#[trigger] before[i]).0 <= 65535 && before[i].1.len()
                <= 65535,
    ensures
        extension_name(extensions(before) + rest) == extension_name(rest),
    decreases before.len(),
{
    if before.len() == 0 {
        assert(extensions(before) + rest =~= rest);
    } else {
        let first = before[0];
        let others = before.subrange(1, before.len() as int);
        let tail = extensions(others) + rest;
        let head = seq![(first.0 / 256) as u8, (first.0 % 256) as u8];
        let block = head + vec16(first.1) + tail;
        assert(extensions(before) + rest =~= block);
        vec16_reads(head, first.1, tail);
        assert(be16(block, 0) == first.0);
        assert(block.subrange((4 + first.1.len()) as int, block.len() as int) =~= tail);
        skips_other_extensions(others, rest);
    }
}

proof fn reads_own_extension(name: Seq<u8>, after: Seq<u8>)
    requires
        name.len() <= 65530,
    ensures
        extension_name(extension(0, server_name_data(name)) + after) == SniBytes::Found(name),
{
    let data = server_name_data(name);
    let own = extension(0, data) + after;
    let list = seq![0u8] + vec16(name);
    vec16_reads(seq![0u8], name, Seq::empty());
    assert(seq![0u8] + vec16(name) + Seq::<u8>::empty() =~= list);
    assert(host_name_in(list) == SniBytes::Found(name));
    vec16_reads(Seq::empty(), list, Seq::empty());
    assert(Seq::<u8>::empty() + vec16(list) + Seq::<u8>::empty() =~= data);
    assert(server_name_in(data) == SniBytes::Found(name));
    vec16_reads(seq![0u8, 0u8], data, after);
    assert(seq![0u8, 0u8] + vec16(data) + after =~= own);
    assert(be16(own, 0) == 0);
}

proof fn reads_block_of_hello(
    fixed: Seq<u8>,
    session: Seq<u8>,
    suites: Seq<u8>,
    methods: Seq<u8>,
    block: Seq<u8>,
)
    requires
        fixed.len() == 34,
        session.len() <= 255,
        suites.len() <= 65535,
        methods.len() <= 255,
        block.len() <= 65535,
    ensures
        hello_name(client_hello(fixed, session, suites, methods, block)) == extension_name(block),
{
    let hello = client_hello(fixed, session, suites, methods, block);
    let p1 = fixed + vec8(session);
    let p2 = p1 + vec16(suites);
    let p3 = p2 + vec8(methods);
    assert(vec8_end(hello, 34) == Some(p1.len() as int)) by {
        vec8_reads(fixed, session, vec16(suites) + vec8(methods) + vec16(block));
        assert(hello =~= fixed + vec8(session) + (vec16(suites) + vec8(methods) + vec16(block)));
    }
    assert(vec16_end(hello, p1.len() as int) == Some(p2.len() as int)) by {
        vec16_reads(p1, suites, vec8(methods) + vec16(block));
        assert(hello =~= p1 + vec16(suites) + (vec8(methods) + vec16(block)));
    }
    assert(vec8_end(hello, p2.len() as int) == Some(p3.len() as int)) by {
        vec8_reads(p2, methods, vec16(block));
        assert(hello =~= p2 + vec8(methods) + vec16(block));
    }
    assert(tail_name(hello, p3.len() as int) == extension_name(block)) by {
        vec16_reads(p3, block, Seq::empty());
        assert(hello =~= p3 + vec16(block) + Seq::<u8>::empty());
    }
}

proof fn reads_hello_of_record(version: (u8, u8), hello: Seq<u8>, behind: Seq<u8>)
    requires
        hello.len() <= 65531,
    ensures
        sni_bytes(hello_record(version, hello) + behind) == hello_name(hello),
{
    let n = hello.len();
    let message = seq![0x01u8, 0u8, (n / 256) as u8, (n % 256) as u8] + hello;
    let head = seq![0x16u8, version.0, version.1];
    let buf = head + vec16(message) + behind;
    assert(hello_record(version, hello) + behind =~= buf);
    vec16_reads(head, message, behind);
    assert(buf[5] == 0x01 && buf[6] == 0u8);
    assert(buf[7] == (n / 256) as u8 && buf[8] == (n % 256) as u8);
    assert(be24(buf, 6) == n);
    assert(buf.subrange(9, (9 + n) as int) =~= hello);
}

/// The host name that a ClientHello was written with is the one that is read out of it,
/// whatever its version, random, session id, cipher suites, compression methods, the
/// extensions around the server name, and the bytes behind the record.
pub proof fn reads_back_the_server_name(
    version: (u8, u8),
    fixed: Seq<u8>,
    session: Seq<u8>,
    suites: Seq<u8>,
    methods: Seq<u8>,
    before: Seq<(int, Seq<u8>)>,
    name: Seq<u8>,
    after: Seq<u8>,
    behind: Seq<u8>,
)
    requires
        fixed.len() == 34,
        session.len() <= 255,
        suites.len() <= 65535,
        methods.len() <= 255,
        forall|i: int|
            0 <= i < before.len() ==> 0 < (#[trigger] before[i]).0 <= 65535 && before[i].1.len()
                <= 65535,
        name.len() <= 65530,
        client_hello(
            fixed,
            session,
            suites,
            methods,
            extensions(before) + extension(0, server_name_data(name)) + after,
        ).len() <= 65531,
    ensures
        sni_bytes(
            hello_record(
                version,
                client_hello(
                    fixed,
                    session,
                    suites,
                    methods,
                    extensions(before) + extension(0, server_name_data(name)) + after,
                ),
            ) + behind,
        ) == SniBytes::Found(name),
{
    let own = extension(0, server_name_data(name)) + after;
    let block = extensions(before) + extension(0, server_name_data(name)) + after;
    assert(extension_name(block) == SniBytes::Found(name)) by {
        reads_own_extension(name, after);
        skips_other_extensions(before, own);
        assert(block =~= extensions(before) + own);
    }
    let hello = client_hello(fixed, session, suites, methods, block);
    assert(hello.len() >= block.len());
    assert(hello_name(hello) == SniBytes::Found(name)) by {
        reads_block_of_hello(fixed, session, suites, methods, block);
    }
    assert(sni_bytes(hello_record(version, hello) + behind) == SniBytes::Found(name)) by {
        reads_hello_of_record(version, hello, behind);
    }
}

/// What to do next while the ClientHello is being read.
pub enum Peek {
    /// The routing decision can be taken, with this server name.
    Done(Option<String>),
    /// More bytes have to be read from the client.
    Read,
}

/// The bytes read so far from a client whose server name is not known yet.
pub struct SniPeek {
    /// The bytes read, which are replayed to whoever takes the stream over.
    pub prefix: Vec<u8>,
}

impl SniPeek {
    /// Nothing has been read.
    pub fn new() -> (r: SniPeek)
        ensures
            r.prefix@ == Seq::<u8>::empty(),
    {
        SniPeek { prefix: Vec::new() }
    }

    /// More is read while the first record is incomplete and fewer than `MAX_PEEK_BYTES` bytes
    /// are there; a host name that was found is handed out, anything else is no name.
    pub fn next(&self) -> (r: Peek)
        ensures
            match sni_bytes(self.prefix@) {
                SniBytes::Found(name) => r matches Peek::Done(Some(s)) && s@ == text::utf8_lossy(name),
                SniBytes::NeedMore => if self.prefix@.len() >= MAX_PEEK_BYTES {
                    r matches Peek::Done(None)
                } else {
                    r is Read
                },
                _ => r matches Peek::Done(None),
            },
            r is Read <==> sni_bytes(self.prefix@) is NeedMore && self.prefix@.len() < 16384,
    {
        match extract_sni(self.prefix.as_slice()) {
            Sni::Found(sni) => Peek::Done(Some(sni)),
            Sni::Absent => Peek::Done(None),
            Sni::NotTls => Peek::Done(None),
            Sni::NeedMore => if self.prefix.len() >= MAX_PEEK_BYTES {
                Peek::Done(None)
            } else {
                Peek::Read
            },
        }
    }

    /// Takes the bytes that a read gave. An empty read is the end of the stream: the decision is
    /// then taken without a name.
    pub fn feed(&mut self, chunk: &[u8]) -> (r: Peek)
        ensures
            final(self).prefix@ == old(self).prefix@ + chunk@,
            chunk@.len() == 0 ==> (r matches Peek::Done(None)),
            chunk@.len() > 0 ==> match sni_bytes(final(self).prefix@) {
                SniBytes::Found(name) => r matches Peek::Done(Some(s)) && s@ == text::utf8_lossy(name),
                SniBytes::NeedMore => if final(self).prefix@.len() >= MAX_PEEK_BYTES {
                    r matches Peek::Done(None)
                } else {
                    r is Read
                },
                _ => r matches Peek::Done(None),
            },
    {
        if chunk.len() == 0 {
            assert(self.prefix@ + chunk@ =~= self.prefix@);
            return Peek::Done(None);
        }
        self.prefix.extend_from_slice(chunk);
        assert(self.prefix@ =~= old(self).prefix@ + chunk@);
        self.next()
    }
}

/// A stream whose first bytes were read already: they come out first, then those of the stream.
pub struct Prefixed {
    prefix: Vec<u8>,
    position: usize,
}

/// Where the next bytes of a prefixed stream come from.
pub enum Source {
    /// These bytes of the prefix.
    Prefix(Vec<u8>),
    /// The stream itself.
    Inner,
}

impl Prefixed {
    #[verifier::type_invariant]
    spec fn inv(self) -> bool {
        self.position <= self.prefix@.len()
    }

    /// The bytes of the prefix that were not handed out yet.
    pub closed spec fn remaining(self) -> Seq<u8> {
        self.prefix@.subrange(self.position as int, self.prefix@.len() as int)
    }

    /// A stream with `prefix` in front of it.
    pub fn new(prefix: Vec<u8>) -> (r: Prefixed)
        ensures
            r.remaining() == prefix@,
    {
        let r = Prefixed { prefix, position: 0 };
        assert(r.remaining() =~= prefix@);
        r
    }

    /// Where a read of at most `max` bytes is served from. While any of the prefix is left, the
    /// read gives as much of it as fits.
    pub fn read(&mut self, max: usize) -> (r: Source)
        ensures
            old(self).remaining().len() == 0 ==> r is Inner && final(self).remaining() == old(
                self,
            ).remaining(),
            old(self).remaining().len() > 0 ==> (r matches Source::Prefix(bytes) && bytes@
                + final(self).remaining() == old(self).remaining() && bytes@.len() == (if max
                < old(self).remaining().len() {
                max as int
            } else {
                old(self).remaining().len() as int
            })),
    {
        proof {
            use_type_invariant(&*self);
        }
        if self.position == self.prefix.len() {
            return Source::Inner;
        }
        let left: usize = self.prefix.len() - self.position;
        let n: usize = if max < left {
            max
        } else {
            left
        };
        let from: usize = self.position;
        let bytes = vstd::slice::slice_to_vec(&self.prefix.as_slice()[from..from + n]);
        self.position = from + n;
        assert(bytes@ + self.remaining() =~= old(self).remaining());
        Source::Prefix(bytes)
    }
}

// ---- what holds of a stream without a name ----

/// A stream whose first byte is not that of a handshake is not TLS, whatever follows; fewer than
/// five bytes say nothing yet.
pub proof fn only_handshakes_are_tls(buf: Seq<u8>)
    ensures
        buf.len() < 5 ==> sni_bytes(buf) is NeedMore,
        buf.len() >= 5 && buf[0] != 22 ==> sni_bytes(buf) is NotTls,
        buf.len() >= 5 && buf[0] == 22 && buf.len() >= 5 + buf[3] * 256 + buf[4] && buf[3] * 256
            + buf[4] >= 4 && buf[5] != 1 ==> sni_bytes(buf) is NotTls,
        sni_bytes(buf) is NeedMore ==> buf.len() < 5 || (buf[0] == 22 && buf.len() < 5 + buf[3] * 256
            + buf[4]),
{
    if buf.len() >= 5 && buf[0] == 22 && buf.len() >= 5 + buf[3] * 256 + buf[4] {
        assert(be16(buf, 3) == buf[3] * 256 + buf[4]);
        if be16(buf, 3) >= 4 && buf[5] == 1 && 4 + be24(buf, 6) <= be16(buf, 3) {
            hello_is_complete(buf.subrange(9, 9 + be24(buf, 6)));
        }
    }
}

proof fn hello_is_complete(hello: Seq<u8>)
    ensures
        hello_name(hello) !is NeedMore,
{
    if let Some(a) = vec8_end(hello, 34) {
        if let Some(b) = vec16_end(hello, a) {
            if let Some(c) = vec8_end(hello, b) {
                if c + 2 <= hello.len() {
                    if let Some(e) = vec16_end(hello, c) {
                        block_is_complete(hello.subrange(c + 2, e));
                    }
                }
            }
        }
    }
}

proof fn block_is_complete(block: Seq<u8>)
    ensures
        extension_name(block) !is NeedMore,
    decreases block.len(),
{
    if block.len() >= 4 {
        if let Some(e) = vec16_end(block, 2) {
            if be16(block, 0) == 0 {
                let data = block.subrange(4, e);
                if data.len() >= 2 {
                    if let Some(f) = vec16_end(data, 0) {
                        list_is_complete(data.subrange(2, f));
                    }
                }
            } else {
                block_is_complete(block.subrange(e, block.len() as int));
            }
        }
    }
}

proof fn list_is_complete(list: Seq<u8>)
    ensures
        host_name_in(list) !is NeedMore,
    decreases list.len(),
{
    if list.len() >= 3 {
        if let Some(e) = vec16_end(list, 1) {
            if list[0] != 0 {
                list_is_complete(list.subrange(e, list.len() as int));
            }
        }
    }
}

/// A ClientHello without a server name has none, whatever other extensions it has.
pub proof fn hello_without_server_name_has_none(
    version: (u8, u8),
    fixed: Seq<u8>,
    session: Seq<u8>,
    suites: Seq<u8>,
    methods: Seq<u8>,
    exts: Seq<(int, Seq<u8>)>,
    behind: Seq<u8>,
)
    requires
        fixed.len() == 34,
        session.len() <= 255,
        suites.len() <= 65535,
        methods.len() <= 255,
        forall|i: int|
            0 <= i < exts.len() ==> 0 < (#[trigger] exts[i]).0 <= 65535 && exts[i].1.len() <= 65535,
        client_hello(fixed, session, suites, methods, extensions(exts)).len() <= 65531,
    ensures
        sni_bytes(
            hello_record(version, client_hello(fixed, session, suites, methods, extensions(exts)))
                + behind,
        ) is Absent,
{
    let block = extensions(exts);
    let hello = client_hello(fixed, session, suites, methods, block);
    skips_other_extensions(exts, Seq::empty());
    assert(block + Seq::<u8>::empty() =~= block);
    assert(hello.len() >= block.len());
    reads_block_of_hello(fixed, session, suites, methods, block);
    reads_hello_of_record(version, hello, behind);
}

/// What is told of a stream is what its bytes say: a name is handed on only where there is one, and
/// as its bytes read.
pub proof fn outcome_is_what_the_bytes_say(r: Sni, spec: SniBytes)
    requires
        sni_says(r, spec),
    ensures
        r is Found <==> spec is Found,
        r is Absent <==> spec is Absent,
        r is NeedMore <==> spec is NeedMore,
        r is NotTls <==> spec is NotTls,
        r matches Sni::Found(s) ==> s@ == text::utf8_lossy(spec->Found_0),
{
}

} // verus!
