//! Certificates for TLS, found by the server name that a client asks for.
use crate::text::{self, concat, push_str, str_eq, to_ascii_lowercase};
use std::sync::Arc;
use vstd::hash_map::StringHashMap;
use vstd::prelude::*;

verus! {

/// A certificate chain with its signing key, as `rustls` serves it.
#[verifier::external_type_specification]
#[verifier::external_body]
pub struct ExCertifiedKey(rustls::sign::CertifiedKey);

/// How a private key is encoded.
#[derive(Clone, Copy, PartialEq, Eq, Structural, Debug)]
pub enum KeyFormat {
    Pkcs1,
    Sec1,
    Pkcs8,
}

/// A private key: its encoding and its bytes.
#[derive(Debug)]
pub struct KeyDer {
    pub format: KeyFormat,
    pub der: Vec<u8>,
}

impl View for KeyDer {
    type V = (KeyFormat, Seq<u8>);

    open spec fn view(&self) -> (KeyFormat, Seq<u8>) {
        (self.format, self.der@)
    }
}

/// The certificates in a PEM text, in their order; none where the text is not PEM.
pub uninterp spec fn pem_certificates(pem: Seq<char>) -> Option<Seq<Seq<u8>>>;

/// The bytes of each certificate of a chain.
pub open spec fn chain_view(chain: Seq<Vec<u8>>) -> Seq<Seq<u8>> {
    chain.map_values(|c: Vec<u8>| c@)
}

/// Calls `rustls_pemfile::certs` on the bytes of the text and collects what it yields: the DER
/// bytes of every certificate, or nothing where a section of the text cannot be read. What they
/// are is a function of the text, left to the name.
#[verifier::external_body]
fn parse_cert_chain(pem: &str) -> (r: Option<Vec<Vec<u8>>>)
    ensures
        (match r {
            Some(chain) => pem_certificates(pem@) == Some(chain_view(chain@)),
            None => pem_certificates(pem@) is None,
        }),
{
    let mut bytes = pem.as_bytes();
    let found: Result<Vec<Vec<u8>>, std::io::Error> = rustls_pemfile::certs(&mut bytes)
        .map(|c| c.map(|der| der.to_vec()))
        .collect();
    found.ok()
}

/// The first private key in a PEM text; `Err` where the text is not PEM.
pub uninterp spec fn pem_private_key(pem: Seq<char>) -> Result<Option<(KeyFormat, Seq<u8>)>, ()>;

/// Calls `rustls_pemfile::private_key` on the bytes of the text: the first section that holds a
/// private key, with its encoding; none where no section does, and an error where a section
/// before it cannot be read. Which of these it is, is a function of the text, left to the name.
#[verifier::external_body]
fn parse_private_key(pem: &str) -> (r: Result<Option<KeyDer>, ()>)
    ensures
        (match r {
            Ok(Some(k)) => pem_private_key(pem@) == Ok::<Option<(KeyFormat, Seq<u8>)>, ()>(Some(k@)),
            Ok(None) => pem_private_key(pem@) == Ok::<Option<(KeyFormat, Seq<u8>)>, ()>(None),
            Err(_) => pem_private_key(pem@) is Err,
        }),
{
    let mut bytes = pem.as_bytes();
    let (format, der) = match rustls_pemfile::private_key(&mut bytes) {
        Ok(Some(rustls::pki_types::PrivateKeyDer::Pkcs1(k))) => (KeyFormat::Pkcs1, k.secret_pkcs1_der().to_vec()),
        Ok(Some(rustls::pki_types::PrivateKeyDer::Sec1(k))) => (KeyFormat::Sec1, k.secret_sec1_der().to_vec()),
        Ok(Some(rustls::pki_types::PrivateKeyDer::Pkcs8(k))) => (KeyFormat::Pkcs8, k.secret_pkcs8_der().to_vec()),
        Ok(None) => return Ok(None),
        _ => return Err(()),
    };
    Ok(Some(KeyDer { format, der }))
}

/// A private key of this encoding can be read as one that signs.
pub uninterp spec fn signable(format: KeyFormat, der: Seq<u8>) -> bool;

/// `k` answers handshakes with this chain, and signs with this private key.
pub uninterp spec fn signs_for(
    k: rustls::sign::CertifiedKey,
    chain: Seq<Seq<u8>>,
    format: KeyFormat,
    der: Seq<u8>,
) -> bool;

/// What `rustls` says of a private key that it cannot read as one that signs.
pub open spec fn unsupported_reason() -> Seq<char> {
    "unexpected error: failed to parse private key as RSA, ECDSA, or EdDSA"@
}

/// Calls `rustls::crypto::ring::sign::any_supported_type` on the private key and, where that
/// reads it as an RSA, ECDSA or Ed25519 key, puts the signing key beside the chain with
/// `CertifiedKey::new`. Whether the key is read is a function of the key, left to the name; what
/// is said where it is not is always the same. The result signs for this chain with this key; it
/// carries random values besides, so two results for the same key may differ. That the source of
/// random numbers may fail is left unsaid.
#[verifier::external_body]
fn certified_key(chain: &Vec<Vec<u8>>, key: &KeyDer) -> (r: Result<
    rustls::sign::CertifiedKey,
    String,
>)
    ensures
        r is Ok == signable(key.format, key.der@),
        (match r {
            Ok(k) => signs_for(k, chain_view(chain@), key.format, key.der@),
            Err(m) => m@ == unsupported_reason(),
        }),
{
    let der = match key.format {
        KeyFormat::Pkcs1 => rustls::pki_types::PrivateKeyDer::Pkcs1(key.der.clone().into()),
        KeyFormat::Sec1 => rustls::pki_types::PrivateKeyDer::Sec1(key.der.clone().into()),
        KeyFormat::Pkcs8 => rustls::pki_types::PrivateKeyDer::Pkcs8(key.der.clone().into()),
    };
    let signing = rustls::crypto::ring::sign::any_supported_type(&der).map_err(|e| e.to_string())?;
    let certs = chain.iter().map(|c| c.clone().into()).collect();
    Ok(rustls::sign::CertifiedKey::new(certs, signing))
}

/// The end of a certificate's validity in nanoseconds since the Unix epoch; none where the bytes
/// are not an X.509 certificate.
pub uninterp spec fn not_after(der: Seq<u8>) -> Option<i128>;

/// Calls `x509_parser::parse_x509_certificate` and reads the end of the validity off the
/// certificate. Which moment it is, is a function of the bytes, left to the name.
#[verifier::external_body]
fn cert_not_after(der: &Vec<u8>) -> (r: Option<i128>)
    ensures
        r == not_after(der@),
{
    match x509_parser::parse_x509_certificate(der) {
        Ok((_, x509)) => Some(x509.validity().not_after.to_datetime().unix_timestamp_nanos()),
        Err(_) => None,
    }
}

/// Why a certificate could not be read.
#[derive(PartialEq, Eq, Debug)]
pub enum CertError {
    /// The certificate text is not PEM.
    CertificatePem,
    /// The certificate text holds no certificate.
    NoCertificates,
    /// The key text is not PEM.
    KeyPem,
    /// The key text holds no private key.
    NoPrivateKey,
    /// The private key is of no supported type.
    UnsupportedKey { reason: String },
    /// The leaf is not an X.509 certificate.
    Certificate,
}

impl CertError {
    /// The error in words.
    pub open spec fn words(self) -> Seq<char> {
        match self {
            CertError::CertificatePem => "parse certificate PEM"@,
            CertError::NoCertificates => "certificate PEM contains no certificates"@,
            CertError::KeyPem => "parse private key PEM"@,
            CertError::NoPrivateKey => "no private key found in PEM"@,
            CertError::UnsupportedKey { reason } => "unsupported private key: "@ + reason@,
            CertError::Certificate => "parse X.509 certificate"@,
        }
    }

    /// The error in words.
    pub fn message(&self) -> (s: String)
        ensures
            s@ == self.words(),
    {
        match self {
            CertError::CertificatePem => "parse certificate PEM".to_owned(),
            CertError::NoCertificates => "certificate PEM contains no certificates".to_owned(),
            CertError::KeyPem => "parse private key PEM".to_owned(),
            CertError::NoPrivateKey => "no private key found in PEM".to_owned(),
            CertError::UnsupportedKey { reason } => concat(
                "unsupported private key: ",
                reason.as_str(),
            ),
            CertError::Certificate => "parse X.509 certificate".to_owned(),
        }
    }
}

/// A certificate that was read: the host names it serves, its expiry and its key.
pub struct CertEntry {
    pub hostnames: Vec<String>,
    pub expires_at: Option<i128>,
    pub certified_key: Arc<rustls::sign::CertifiedKey>,
}

/// What a certificate entry holds.
pub struct CertView {
    pub hostnames: Seq<Seq<char>>,
    pub expires_at: Option<i128>,
    pub certified_key: rustls::sign::CertifiedKey,
}

/// The texts of some strings.
pub open spec fn texts(v: Seq<String>) -> Seq<Seq<char>> {
    v.map_values(|s: String| s@)
}

/// The texts of some strings, where they are there.
pub open spec fn opt_texts(v: Option<Vec<String>>) -> Option<Seq<Seq<char>>> {
    match v {
        Some(v) => Some(texts(v@)),
        None => None,
    }
}

/// The names in lower case.
pub open spec fn lowered(names: Seq<Seq<char>>) -> Seq<Seq<char>> {
    names.map_values(|n: Seq<char>| text::ascii_lower(n))
}

impl View for CertEntry {
    type V = CertView;

    open spec fn view(&self) -> CertView {
        CertView {
            hostnames: texts(self.hostnames@),
            expires_at: self.expires_at,
            certified_key: *self.certified_key,
        }
    }
}

/// A certificate can be read out of the PEM texts of its chain and of its private key.
pub open spec fn readable(cert_pem: Seq<char>, key_pem: Seq<char>) -> bool {
    &&& pem_certificates(cert_pem) matches Some(chain) && chain.len() > 0 && not_after(
        chain[0],
    ) is Some
    &&& pem_private_key(key_pem) matches Ok(Some((format, der))) && signable(format, der)
}

/// `e` is why no certificate can be read out of the PEM texts: the first fault in the order
/// certificate text, key text, key, leaf.
pub open spec fn pem_fault(cert_pem: Seq<char>, key_pem: Seq<char>, e: CertError) -> bool {
    match pem_certificates(cert_pem) {
        None => e is CertificatePem,
        Some(chain) => if chain.len() == 0 {
            e is NoCertificates
        } else {
            match pem_private_key(key_pem) {
                Err(_) => e is KeyPem,
                Ok(None) => e is NoPrivateKey,
                Ok(Some((format, der))) => if !signable(format, der) {
                    e matches CertError::UnsupportedKey { reason } && reason@
                        == unsupported_reason()
                } else {
                    not_after(chain[0]) is None && e is Certificate
                },
            }
        },
    }
}

impl CertView {
    /// The entry is the certificate for `hostnames` in the PEM texts of its chain and of its
    /// private key: it serves the names in lower case, expires with the leaf, and signs with the
    /// key.
    pub open spec fn is_read(
        self,
        hostnames: Seq<Seq<char>>,
        cert_pem: Seq<char>,
        key_pem: Seq<char>,
    ) -> bool {
        &&& readable(cert_pem, key_pem)
        &&& self.hostnames == lowered(hostnames)
        &&& self.expires_at == not_after(pem_certificates(cert_pem)->0[0])
        &&& pem_private_key(key_pem) matches Ok(Some((format, der))) && signs_for(
            self.certified_key,
            pem_certificates(cert_pem)->0,
            format,
            der,
        )
    }
}

impl CertEntry {
    /// A certificate for the given host names, which are put in lower case.
    pub fn new(
        hostnames: Vec<String>,
        expires_at: Option<i128>,
        certified_key: rustls::sign::CertifiedKey,
    ) -> (r: CertEntry)
        ensures
            r@ == (CertView { hostnames: lowered(texts(hostnames@)), expires_at, certified_key }),
    {
        let mut names: Vec<String> = Vec::new();
        let mut i: usize = 0;
        while i < hostnames.len()
            invariant
                i <= hostnames@.len(),
                names@.len() == i,
                forall|j: int|
                    0 <= j < i ==> (#[trigger] names@[j])@ == text::ascii_lower(hostnames@[j]@),
            decreases hostnames@.len() - i,
        {
            names.push(to_ascii_lowercase(hostnames[i].as_str()));
            i += 1;
        }
        assert(texts(names@) =~= lowered(texts(hostnames@)));
        CertEntry { hostnames: names, expires_at, certified_key: Arc::new(certified_key) }
    }

    /// Reads a certificate from a PEM chain, the leaf first, and a PEM private key. The host
    /// names are put in lower case.
    pub fn from_pem(hostnames: Vec<String>, cert_pem: &str, key_pem: &str) -> (r: Result<
        CertEntry,
        CertError,
    >)
        ensures
            match r {
                Ok(e) => e@.is_read(texts(hostnames@), cert_pem@, key_pem@),
                Err(e) => pem_fault(cert_pem@, key_pem@, e),
            },
    {
        let chain = match parse_cert_chain(cert_pem) {
            Some(c) => c,
            None => {
                return Err(CertError::CertificatePem);
            },
        };
        if chain.len() == 0 {
            return Err(CertError::NoCertificates);
        }
        let key = match parse_private_key(key_pem) {
            Ok(Some(k)) => k,
            Ok(None) => {
                return Err(CertError::NoPrivateKey);
            },
            Err(_) => {
                return Err(CertError::KeyPem);
            },
        };
        let certified = match certified_key(&chain, &key) {
            Ok(k) => k,
            Err(reason) => {
                return Err(CertError::UnsupportedKey { reason });
            },
        };
        match cert_not_after(&chain[0]) {
            Some(t) => Ok(CertEntry::new(hostnames, Some(t), certified)),
            None => Err(CertError::Certificate),
        }
    }

    /// The host names that the certificate serves, in lower case.
    pub fn hostnames(&self) -> (r: &Vec<String>)
        ensures
            *r == self.hostnames,
    {
        &self.hostnames
    }

    /// When the certificate expires, in nanoseconds since the Unix epoch.
    pub fn expires_at(&self) -> (r: Option<i128>)
        ensures
            r == self.expires_at,
    {
        self.expires_at
    }
}

/// A stored certificate.
#[derive(Debug)]
pub struct CertificateRow {
    pub name: String,
    /// The host names, as the JSON text of a list.
    pub hostnames: String,
    pub certificate: String,
    pub private_key_encrypted: Option<String>,
}

/// Why certificates do not make a store.
#[derive(Debug)]
pub enum CertStoreError {
    /// The host names of the certificate cannot be read.
    Hostnames { name: String },
    /// The certificate has no private key.
    NoKey { name: String },
    /// The certificate cannot be read.
    Load { name: String, error: CertError },
    /// Another certificate serves the host name.
    DuplicateHostname { host: String },
}

impl CertStoreError {
    /// The error in words.
    pub fn message(&self) -> (s: String)
        ensures
            match *self {
                CertStoreError::Hostnames { name } => s@ == "parse hostnames for certificate "@
                    + name@,
                CertStoreError::NoKey { name } => s@ == "certificate "@ + name@
                    + " has no private key"@,
                CertStoreError::Load { name, error } => s@ == "load certificate "@ + name@,
                CertStoreError::DuplicateHostname { host } => s@
                    == "duplicate certificate hostname "@ + host@,
            },
    {
        match self {
            CertStoreError::Hostnames { name } => concat(
                "parse hostnames for certificate ",
                name.as_str(),
            ),
            CertStoreError::NoKey { name } => {
                let mut s = concat("certificate ", name.as_str());
                push_str(&mut s, " has no private key");
                s
            },
            CertStoreError::Load { name, error } => concat("load certificate ", name.as_str()),
            CertStoreError::DuplicateHostname { host } => concat(
                "duplicate certificate hostname ",
                host.as_str(),
            ),
        }
    }
}

/// What a certificate store holds: its certificates in the order in which they came, and which
/// of them serves a host name.
#[verifier::ext_equal]
pub struct StoreView {
    pub by_hostname: Map<Seq<char>, CertView>,
    pub entries: Seq<CertView>,
}

impl StoreView {
    /// A store without certificates.
    pub open spec fn empty() -> StoreView {
        StoreView { by_hostname: Map::empty(), entries: Seq::empty() }
    }

    /// No certificate of the store serves one of the names.
    pub open spec fn has_room(self, names: Seq<Seq<char>>) -> bool {
        forall|i: int|
            0 <= i < names.len() ==> !self.by_hostname.dom().contains(#[trigger] names[i])
    }

    /// `host` is the first of the names that a certificate of the store serves.
    pub open spec fn first_taken(self, names: Seq<Seq<char>>, host: Seq<char>) -> bool {
        exists|i: int|
            0 <= i < names.len() && #[trigger] names[i] == host && self.by_hostname.dom().contains(
                host,
            ) && forall|j: int|
                0 <= j < i ==> !self.by_hostname.dom().contains(#[trigger] names[j])
    }

    /// The store with `e` besides.
    pub open spec fn with(self, e: CertView) -> StoreView {
        StoreView {
            by_hostname: Map::new(
                |h: Seq<char>| self.by_hostname.dom().contains(h) || e.hostnames.contains(h),
                |h: Seq<char>|
                    if e.hostnames.contains(h) {
                        e
                    } else {
                        self.by_hostname[h]
                    },
            ),
            entries: self.entries.push(e),
        }
    }

    /// A host name is served by a certificate exactly where that certificate, and no other of
    /// the store, lists it.
    pub open spec fn consistent(self) -> bool {
        &&& forall|h: Seq<char>| #[trigger]
            self.by_hostname.dom().contains(h) ==> self.entries.contains(self.by_hostname[h])
                && self.by_hostname[h].hostnames.contains(h)
        &&& forall|i: int, h: Seq<char>|
            0 <= i < self.entries.len() && #[trigger] self.entries[i].hostnames.contains(h)
                ==> self.by_hostname.dom().contains(h) && self.by_hostname[h] == self.entries[i]
    }
}

/// The certificates, by the host names that they serve.
pub struct CertStore {
    by_hostname: StringHashMap<Arc<CertEntry>>,
    entries: Vec<Arc<CertEntry>>,
}

impl View for CertStore {
    type V = StoreView;

    closed spec fn view(&self) -> StoreView {
        StoreView {
            by_hostname: self.by_hostname@.map_values(|e: Arc<CertEntry>| e@),
            entries: self.entries@.map_values(|e: Arc<CertEntry>| e@),
        }
    }
}

impl CertStore {
    /// A store without certificates.
    pub fn new() -> (r: CertStore)
        ensures
            r@ == StoreView::empty(),
            r@.consistent(),
    {
        let r = CertStore { by_hostname: StringHashMap::new(), entries: Vec::new() };
        assert(r@.by_hostname =~= Map::<Seq<char>, CertView>::empty());
        assert(r@.entries =~= Seq::<CertView>::empty());
        r
    }

    /// Adds a certificate under each of its host names. Where another certificate serves one of
    /// them, nothing is added.
    pub fn insert(&mut self, entry: CertEntry) -> (r: Result<(), CertStoreError>)
        ensures
            old(self)@.consistent() ==> final(self)@.consistent(),
            match r {
                Ok(_) => old(self)@.has_room(entry@.hostnames) && final(self)@ == old(self)@.with(entry@),
                Err(CertStoreError::DuplicateHostname { host }) => old(self)@.first_taken(
                    entry@.hostnames,
                    host@,
                ) && final(self)@ == old(self)@,
                Err(_) => false,
            },
    {
        let ghost was = self@;
        let ghost e = entry@;
        let mut i: usize = 0;
        while i < entry.hostnames.len()
            invariant
                i <= entry.hostnames@.len(),
                self@ == was,
                was == old(self)@,
                e == entry@,
                forall|j: int|
                    0 <= j < i ==> !was.by_hostname.dom().contains(#[trigger] e.hostnames[j]),
            decreases entry.hostnames@.len() - i,
        {
            assert(e.hostnames[i as int] == entry.hostnames@[i as int]@);
            if self.by_hostname.contains_key(entry.hostnames[i].as_str()) {
                return Err(
                    CertStoreError::DuplicateHostname { host: entry.hostnames[i].clone() },
                );
            }
            i += 1;
        }
        let entry = Arc::new(entry);
        let ghost before = self.by_hostname@;
        let mut k: usize = 0;
        while k < entry.hostnames.len()
            invariant
                k <= entry.hostnames@.len(),
                self.entries == old(self).entries,
                before == old(self).by_hostname@,
                forall|h: Seq<char>| #[trigger]
                    self.by_hostname@.dom().contains(h) <==> before.dom().contains(h)
                        || texts(entry.hostnames@).subrange(0, k as int).contains(h),
                forall|h: Seq<char>| #[trigger]
                    self.by_hostname@.dom().contains(h) ==> self.by_hostname@[h] == if texts(
                        entry.hostnames@,
                    ).subrange(0, k as int).contains(h) {
                        entry
                    } else {
                        before[h]
                    },
            decreases entry.hostnames@.len() - k,
        {
            let ghost names = texts(entry.hostnames@);
            let ghost m = self.by_hostname@;
            self.by_hostname.insert(entry.hostnames[k].clone(), entry.clone());
            proof {
                let a = names.subrange(0, k as int);
                let b = names.subrange(0, k + 1);
                assert(b =~= a.push(names[k as int]));
                assert forall|h: Seq<char>| b.contains(h) <==> a.contains(h) || h
                    == names[k as int] by {
                    if a.contains(h) {
                        let j = choose|j: int| 0 <= j < a.len() && a[j] == h;
                        assert(b[j] == h);
                    }
                    if h == names[k as int] {
                        assert(b[k as int] == h);
                    }
                }
            }
            k += 1;
        }
        assert(texts(entry.hostnames@).subrange(0, entry.hostnames@.len() as int) =~= texts(
            entry.hostnames@,
        ));
        self.entries.push(entry);
        assert(self@.by_hostname =~= was.with(e).by_hostname);
        assert(self@.entries =~= was.with(e).entries);
        proof {
            if was.consistent() {
                adding_keeps_the_index(was, e);
            }
        }
        Ok(())
    }
}

/// The private key of a stored certificate; empty where it has none.
pub open spec fn key_text(row: CertificateRow) -> Seq<char> {
    match row.private_key_encrypted {
        Some(k) => k@,
        None => ""@,
    }
}

/// The texts in the JSON text of a list; none where it is no list of texts.
pub uninterp spec fn json_texts(text: Seq<char>) -> Option<Seq<Seq<char>>>;

/// Calls `serde_json::from_str` for a list of texts. Which texts it holds is a function of the
/// JSON text, left to the name; what its error says is dropped.
#[verifier::external_body]
fn parse_texts(text: &str) -> (r: Option<Vec<String>>)
    ensures
        (match r {
            Some(v) => json_texts(text@) == Some(texts(v@)),
            None => json_texts(text@) is None,
        }),
{
    serde_json::from_str::<Vec<String>>(text).ok()
}

impl StoreView {
    /// `e` is why the stored certificate `row`, whose host names were read as `names`, is turned
    /// down: the first fault in the order names, key, texts, names that are taken.
    pub open spec fn fault(
        self,
        row: CertificateRow,
        names: Option<Seq<Seq<char>>>,
        e: CertStoreError,
    ) -> bool {
        if names is None {
            e matches CertStoreError::Hostnames { name } && name == row.name
        } else if key_text(row) == ""@ {
            e matches CertStoreError::NoKey { name } && name == row.name
        } else if !readable(row.certificate@, key_text(row)) {
            e matches CertStoreError::Load { name, error } && name == row.name && pem_fault(
                row.certificate@,
                key_text(row),
                error,
            )
        } else {
            e matches CertStoreError::DuplicateHostname { host } && self.first_taken(
                lowered(names->0),
                host@,
            )
        }
    }

    /// `post` is the store with the stored certificate `row`, whose host names were read as
    /// `names`, besides.
    pub open spec fn takes(
        self,
        row: CertificateRow,
        names: Option<Seq<Seq<char>>>,
        post: StoreView,
    ) -> bool {
        &&& names is Some
        &&& key_text(row) != ""@
        &&& self.has_room(lowered(names->0))
        &&& post == self.with(post.entries.last())
        &&& post.entries.last().is_read(names->0, row.certificate@, key_text(row))
    }
}

/// The host names of a stored certificate, in lower case; none where they cannot be read.
pub open spec fn row_names(row: CertificateRow) -> Seq<Seq<char>> {
    match json_texts(row.hostnames@) {
        Some(names) => lowered(names),
        None => Seq::empty(),
    }
}

/// One of the first `n` stored certificates is for the host name.
pub open spec fn taken_before(rows: Seq<CertificateRow>, n: int, host: Seq<char>) -> bool {
    exists|j: int| 0 <= j < n && #[trigger] row_names(rows[j]).contains(host)
}

/// The stored certificate by itself can be read, with its host names and its key.
pub open spec fn row_readable(row: CertificateRow) -> bool {
    &&& json_texts(row.hostnames@) is Some
    &&& key_text(row) != ""@
    &&& readable(row.certificate@, key_text(row))
}

/// The stored certificate at `i` can be read, and is for no host name that one before it is for.
pub open spec fn row_fits(rows: Seq<CertificateRow>, i: int) -> bool {
    &&& row_readable(rows[i])
    &&& forall|k: int|
        0 <= k < row_names(rows[i]).len() ==> !taken_before(
            rows,
            i,
            #[trigger] row_names(rows[i])[k],
        )
}

/// `e` is why the stored certificate at `i` is turned down: the first fault in the order names,
/// key, texts, names that one before it is for.
pub open spec fn row_fault(rows: Seq<CertificateRow>, i: int, e: CertStoreError) -> bool {
    let row = rows[i];
    if json_texts(row.hostnames@) is None {
        e matches CertStoreError::Hostnames { name } && name == row.name
    } else if key_text(row) == ""@ {
        e matches CertStoreError::NoKey { name } && name == row.name
    } else if !readable(row.certificate@, key_text(row)) {
        e matches CertStoreError::Load { name, error } && name == row.name && pem_fault(
            row.certificate@,
            key_text(row),
            error,
        )
    } else {
        e matches CertStoreError::DuplicateHostname { host } && exists|k: int|
            {
                &&& 0 <= k < row_names(row).len()
                &&& #[trigger] row_names(row)[k] == host@
                &&& taken_before(rows, i, host@)
                &&& forall|j: int|
                    0 <= j < k ==> !taken_before(rows, i, #[trigger] row_names(row)[j])
            }
    }
}

impl StoreView {
    /// The store holds the certificates of the first `n` rows, each in its place.
    pub open spec fn holds(self, rows: Seq<CertificateRow>, n: int) -> bool {
        &&& self.entries.len() == n
        &&& forall|i: int|
            0 <= i < n ==> (#[trigger] self.entries[i]).is_read(
                json_texts(rows[i].hostnames@)->0,
                rows[i].certificate@,
                key_text(rows[i]),
            ) && row_readable(rows[i])
        &&& self.consistent()
    }
}

/// A store of rows serves exactly the host names of the rows.
proof fn served_is_taken(s: StoreView, rows: Seq<CertificateRow>, n: int, host: Seq<char>)
    requires
        s.holds(rows, n),
    ensures
        s.by_hostname.dom().contains(host) == taken_before(rows, n, host),
{
    if s.by_hostname.dom().contains(host) {
        let e = s.by_hostname[host];
        let j = choose|j: int| 0 <= j < s.entries.len() && s.entries[j] == e;
        assert(s.entries[j].hostnames.contains(host));
        assert(row_names(rows[j]).contains(host));
    }
    if taken_before(rows, n, host) {
        let j = choose|j: int| 0 <= j < n && #[trigger] row_names(rows[j]).contains(host);
        assert(s.entries[j].hostnames.contains(host));
    }
}

/// The certificates of `entries` that have expired by `limit`: their host names with commas
/// between them, and their expiry, in the order of the entries.
pub open spec fn expired_by(entries: Seq<CertView>, limit: int) -> Seq<(Seq<char>, i128)>
    decreases entries.len(),
{
    if entries.len() == 0 {
        Seq::empty()
    } else {
        let e = entries.last();
        let rest = expired_by(entries.drop_last(), limit);
        match e.expires_at {
            Some(t) if t <= limit => rest.push((text::joined_by(e.hostnames, ","@), t)),
            _ => rest,
        }
    }
}

/// The text and the number of each pair.
pub open spec fn pairs_view(v: Seq<(String, i128)>) -> Seq<(Seq<char>, i128)> {
    v.map_values(|p: (String, i128)| (p.0@, p.1))
}

fn joined(names: &Vec<String>) -> (s: String)
    ensures
        s@ == text::joined_by(texts(names@), ","@),
{
    let mut s = String::new();
    let mut i: usize = 0;
    assert(s@ =~= text::joined_by(texts(names@).subrange(0, 0), ","@));
    while i < names.len()
        invariant
            i <= names@.len(),
            s@ == text::joined_by(texts(names@).subrange(0, i as int), ","@),
        decreases names@.len() - i,
    {
        if i > 0 {
            push_str(&mut s, ",");
        }
        push_str(&mut s, names[i].as_str());
        proof {
            let t = texts(names@).subrange(0, i + 1);
            assert(t.drop_last() =~= texts(names@).subrange(0, i as int));
            assert(t.last() == names@[i as int]@);
            if i == 0 {
                assert(s@ =~= t[0]);
            }
        }
        i += 1;
    }
    assert(texts(names@).subrange(0, names@.len() as int) =~= texts(names@));
    s
}

impl CertStore {
    /// The certificates of the database, in a store. A certificate whose host names cannot be
    /// read, one without a private key, one that cannot be read, and one for a host name that is
    /// taken make the whole fail: the error is that of the first such certificate.
    pub fn from_rows(rows: &Vec<CertificateRow>) -> (r: Result<CertStore, CertStoreError>)
        ensures
            match r {
                Ok(s) => {
                    &&& forall|i: int| 0 <= i < rows@.len() ==> #[trigger] row_fits(rows@, i)
                    &&& s@.holds(rows@, rows@.len() as int)
                },
                Err(e) => exists|i: int|
                    {
                        &&& 0 <= i < rows@.len()
                        &&& !row_fits(rows@, i)
                        &&& #[trigger] row_fault(rows@, i, e)
                        &&& forall|j: int| 0 <= j < i ==> #[trigger] row_fits(rows@, j)
                    },
            },
    {
        let mut store = CertStore::new();
        let mut i: usize = 0;
        while i < rows.len()
            invariant
                i <= rows@.len(),
                store@.holds(rows@, i as int),
                forall|j: int| 0 <= j < i ==> #[trigger] row_fits(rows@, j),
            decreases rows@.len() - i,
        {
            let row = &rows[i];
            let ghost before = store@;
            let names = parse_texts(row.hostnames.as_str());
            proof {
                assert forall|h: Seq<char>|
                    #[trigger] before.by_hostname.dom().contains(h) == taken_before(
                        rows@,
                        i as int,
                        h,
                    ) by {
                    served_is_taken(before, rows@, i as int, h);
                }
            }
            if let Err(e) = store.add_row(row, names) {
                proof {
                    let given = row_names(rows@[i as int]);
                    if e is DuplicateHostname {
                        let host = e->DuplicateHostname_host;
                        let k = choose|k: int|
                            0 <= k < given.len() && #[trigger] given[k] == host@
                                && before.by_hostname.dom().contains(host@) && forall|j: int|
                                0 <= j < k ==> !before.by_hostname.dom().contains(
                                    #[trigger] given[j],
                                );
                        assert(row_names(rows@[i as int])[k] == host@);
                        assert(taken_before(rows@, i as int, host@));
                    }
                }
                assert(row_fault(rows@, i as int, e));
                return Err(e);
            }
            assert(row_fits(rows@, i as int));
            i += 1;
        }
        Ok(store)
    }

    /// Adds a stored certificate, where `hostnames` are the host names that were read out of its
    /// text, if they could be.
    pub fn add_row(&mut self, row: &CertificateRow, hostnames: Option<Vec<String>>) -> (r: Result<
        (),
        CertStoreError,
    >)
        ensures
            old(self)@.consistent() ==> final(self)@.consistent(),
            match r {
                Ok(_) => old(self)@.takes(*row, opt_texts(hostnames), final(self)@),
                Err(e) => final(self)@ == old(self)@ && old(self)@.fault(
                    *row,
                    opt_texts(hostnames),
                    e,
                ),
            },
    {
        let names = match hostnames {
            Some(h) => h,
            None => {
                return Err(CertStoreError::Hostnames { name: row.name.clone() });
            },
        };
        let key = match &row.private_key_encrypted {
            Some(k) => k.as_str(),
            None => "",
        };
        if str_eq(key, "") {
            return Err(CertStoreError::NoKey { name: row.name.clone() });
        }
        match CertEntry::from_pem(names, row.certificate.as_str(), key) {
            Ok(entry) => self.insert(entry),
            Err(error) => Err(CertStoreError::Load { name: row.name.clone(), error }),
        }
    }

    /// The certificate for a server name, in any case.
    pub fn lookup(&self, sni: &str) -> (r: Option<Arc<CertEntry>>)
        ensures
            match r {
                Some(e) => self@.by_hostname.dom().contains(text::ascii_lower(sni@))
                    && self@.by_hostname[text::ascii_lower(sni@)] == e@,
                None => !self@.by_hostname.dom().contains(text::ascii_lower(sni@)),
            },
    {
        match self.by_hostname.get(to_ascii_lowercase(sni).as_str()) {
            Some(e) => Some(e.clone()),
            None => None,
        }
    }

    /// The chain and key to answer a handshake with: that of the certificate for the server name
    /// which the client sent, if it sent one.
    pub fn resolve(&self, server_name: Option<&str>) -> (r: Option<Arc<rustls::sign::CertifiedKey>>)
        ensures
            match (server_name, r) {
                (Some(n), Some(k)) => self@.by_hostname.dom().contains(text::ascii_lower(n@))
                    && self@.by_hostname[text::ascii_lower(n@)].certified_key == *k,
                (Some(n), None) => !self@.by_hostname.dom().contains(text::ascii_lower(n@)),
                (None, k) => k is None,
            },
    {
        match server_name {
            Some(n) => match self.lookup(n) {
                Some(e) => Some(e.certified_key.clone()),
                None => None,
            },
            None => None,
        }
    }

    /// How many host names the certificates serve.
    pub fn len(&self) -> (n: usize)
        ensures
            n == self@.by_hostname.len(),
    {
        assert(self@.by_hostname.dom() =~= self.by_hostname@.dom());
        self.by_hostname.len()
    }

    /// Whether no host name is served.
    pub fn is_empty(&self) -> (r: bool)
        ensures
            r == (self@.by_hostname.len() == 0),
    {
        self.len() == 0
    }

    /// The certificates that have expired, or will have `warn_before` nanoseconds after `now`:
    /// their host names with commas between them, and their expiry.
    pub fn expiring(&self, now: i128, warn_before: i128) -> (r: Vec<(String, i128)>)
        requires
            i128::MIN <= now + warn_before <= i128::MAX,
        ensures
            pairs_view(r@) == expired_by(self@.entries, now + warn_before),
    {
        let limit: i128 = now + warn_before;
        let mut out: Vec<(String, i128)> = Vec::new();
        let mut i: usize = 0;
        assert(pairs_view(out@) =~= expired_by(self@.entries.subrange(0, 0), limit as int));
        while i < self.entries.len()
            invariant
                i <= self.entries@.len(),
                limit == now + warn_before,
                pairs_view(out@) == expired_by(self@.entries.subrange(0, i as int), limit as int),
            decreases self.entries@.len() - i,
        {
            let e = &self.entries[i];
            proof {
                let t = self@.entries.subrange(0, i + 1);
                assert(t.drop_last() =~= self@.entries.subrange(0, i as int));
                assert(t.last() == e@);
            }
            let ghost had = out@;
            if let Some(t) = e.expires_at {
                if t <= limit {
                    out.push((joined(&e.hostnames), t));
                    assert(pairs_view(out@) =~= pairs_view(had).push(
                        (text::joined_by(e@.hostnames, ","@), t),
                    ));
                }
            }
            i += 1;
        }
        assert(self@.entries.subrange(0, self.entries@.len() as int) =~= self@.entries);
        out
    }
}

/// Adding a certificate where there is room for it keeps every certificate found, under each of
/// its host names.
pub proof fn adding_keeps_the_index(s: StoreView, e: CertView)
    requires
        s.consistent(),
        s.has_room(e.hostnames),
    ensures
        s.with(e).consistent(),
{
    let t = s.with(e);
    assert forall|h: Seq<char>| #[trigger] t.by_hostname.dom().contains(h) implies t.entries.contains(
        t.by_hostname[h],
    ) && t.by_hostname[h].hostnames.contains(h) by {
        if e.hostnames.contains(h) {
            assert(t.entries[s.entries.len() as int] == e);
        } else {
            assert(s.by_hostname.dom().contains(h));
            let j = choose|j: int| 0 <= j < s.entries.len() && s.entries[j] == s.by_hostname[h];
            assert(t.entries[j] == s.entries[j]);
        }
    }
    assert forall|i: int, h: Seq<char>|
        0 <= i < t.entries.len() && #[trigger] t.entries[i].hostnames.contains(
            h,
        ) implies t.by_hostname.dom().contains(h) && t.by_hostname[h] == t.entries[i] by {
        if i < s.entries.len() {
            assert(s.entries[i].hostnames.contains(h));
            if e.hostnames.contains(h) {
                let j = choose|j: int| 0 <= j < e.hostnames.len() && e.hostnames[j] == h;
                assert(!s.by_hostname.dom().contains(e.hostnames[j]));
            }
        }
    }
}

/// A certificate that was added is found under each of its host names, in any case.
pub proof fn added_certificate_is_found(s: StoreView, e: CertView, name: Seq<char>, asked: Seq<char>)
    requires
        s.has_room(e.hostnames),
        e.hostnames.contains(name),
        text::ascii_lower(asked) == name,
    ensures
        s.with(e).by_hostname.dom().contains(text::ascii_lower(asked)),
        s.with(e).by_hostname[text::ascii_lower(asked)] == e,
{
}

/// A longer warning time leaves out no certificate that a shorter one reports.
pub proof fn longer_warnings_report_more(entries: Seq<CertView>, limit: int, longer: int)
    requires
        limit <= longer,
    ensures
        forall|p: (Seq<char>, i128)| #[trigger]
            expired_by(entries, limit).contains(p) ==> expired_by(entries, longer).contains(p),
    decreases entries.len(),
{
    if entries.len() > 0 {
        let rest = entries.drop_last();
        longer_warnings_report_more(rest, limit, longer);
        assert forall|p: (Seq<char>, i128)| #[trigger]
            expired_by(entries, limit).contains(p) implies expired_by(entries, longer).contains(
            p,
        ) by {
            let a = expired_by(entries, limit);
            let b = expired_by(entries, longer);
            let k = choose|k: int| 0 <= k < a.len() && a[k] == p;
            let was = expired_by(rest, limit);
            let now = expired_by(rest, longer);
            if k < was.len() {
                assert(was[k] == p);
                assert(was.contains(p));
                let j = choose|j: int| 0 <= j < now.len() && now[j] == p;
                assert(b[j] == p);
            } else {
                assert(b[now.len() as int] == p);
            }
        }
    }
}

/// A certificate that was read serves the host names that it was given, in lower case, all of them
/// and no other; it expires when its first certificate does, and it signs with the key that was
/// given, for the chain that was given.
pub proof fn certificate_serves_what_it_was_given(
    e: CertView,
    hostnames: Seq<Seq<char>>,
    cert_pem: Seq<char>,
    key_pem: Seq<char>,
)
    requires
        e.is_read(hostnames, cert_pem, key_pem),
    ensures
        e.hostnames.len() == hostnames.len(),
        forall|i: int|
            0 <= i < hostnames.len() ==> #[trigger] e.hostnames[i] == text::ascii_lower(
                hostnames[i],
            ),
        pem_certificates(cert_pem) is Some && pem_certificates(cert_pem)->0.len() > 0,
        e.expires_at is Some,
        e.expires_at == not_after(pem_certificates(cert_pem)->0[0]),
        pem_private_key(key_pem) matches Ok(Some(k)) && signs_for(
            e.certified_key,
            pem_certificates(cert_pem)->0,
            k.0,
            k.1,
        ),
{
}

/// A certificate cannot be read for exactly one reason, and that reason holds; one that can be
/// read has none.
pub proof fn why_a_certificate_cannot_be_read(
    cert_pem: Seq<char>,
    key_pem: Seq<char>,
    e: CertError,
)
    requires
        pem_fault(cert_pem, key_pem, e),
    ensures
        !readable(cert_pem, key_pem),
        e is CertificatePem ==> pem_certificates(cert_pem) is None,
        e is NoCertificates ==> pem_certificates(cert_pem) is Some && pem_certificates(
            cert_pem,
        )->0.len() == 0,
        e is KeyPem ==> pem_private_key(key_pem) is Err,
        e is NoPrivateKey ==> pem_private_key(key_pem) is Ok && pem_private_key(key_pem)->Ok_0
            is None,
        e is UnsupportedKey ==> (pem_private_key(key_pem) matches Ok(Some(k)) && !signable(
            k.0,
            k.1,
        )),
        e is Certificate ==> pem_certificates(cert_pem) is Some && not_after(
            pem_certificates(cert_pem)->0[0],
        ) is None,
{
}

/// A store serves a host name with a certificate that was added for it, and adding a certificate
/// changes nothing for any other host name.
pub proof fn adding_changes_only_its_names(s: StoreView, e: CertView, host: Seq<char>)
    ensures
        s.with(e).entries == s.entries.push(e),
        e.hostnames.contains(host) ==> s.with(e).by_hostname.dom().contains(host)
            && s.with(e).by_hostname[host] == e,
        !e.hostnames.contains(host) ==> s.with(e).by_hostname.dom().contains(host)
            == s.by_hostname.dom().contains(host),
        !e.hostnames.contains(host) && s.by_hostname.dom().contains(host) ==> s.with(
            e,
        ).by_hostname[host] == s.by_hostname[host],
        !StoreView::empty().by_hostname.dom().contains(host),
        StoreView::empty().entries.len() == 0,
{
}

/// There is room for names exactly where the store serves none of them; else one of them is the
/// first that is taken.
pub proof fn room_or_a_taken_name(s: StoreView, names: Seq<Seq<char>>, host: Seq<char>)
    ensures
        s.has_room(names) <==> forall|i: int|
            0 <= i < names.len() ==> !s.by_hostname.dom().contains(#[trigger] names[i]),
        s.first_taken(names, host) ==> names.contains(host) && s.by_hostname.dom().contains(host)
            && !s.has_room(names),
{
    if s.first_taken(names, host) {
        let i = choose|i: int|
            0 <= i < names.len() && #[trigger] names[i] == host && s.by_hostname.dom().contains(
                host,
            ) && forall|j: int| 0 <= j < i ==> !s.by_hostname.dom().contains(#[trigger] names[j]);
        assert(names[i] == host);
    }
}

/// A store of the rows of the database serves every host name of every row with the certificate of
/// that row, read from the row's own texts.
pub proof fn stored_certificate_serves_its_names(
    s: StoreView,
    rows: Seq<CertificateRow>,
    i: int,
    names: Seq<Seq<char>>,
    k: int,
)
    requires
        s.holds(rows, rows.len() as int),
        0 <= i < rows.len(),
        json_texts(rows[i].hostnames@) == Some(names),
        0 <= k < names.len(),
    ensures
        s.entries.len() == rows.len(),
        s.by_hostname.dom().contains(text::ascii_lower(names[k])),
        s.by_hostname[text::ascii_lower(names[k])] == s.entries[i],
        rows[i].private_key_encrypted is Some,
        s.entries[i].is_read(names, rows[i].certificate@, rows[i].private_key_encrypted->0@),
{
    let e = s.entries[i];
    assert(e.is_read(names, rows[i].certificate@, key_text(rows[i])));
    assert(e.hostnames[k] == text::ascii_lower(names[k]));
    assert(s.entries[i].hostnames.contains(text::ascii_lower(names[k])));
}

/// A stored certificate finds its place exactly where its names, its key and its texts can be read
/// and no certificate before it is for one of its names, in any case of the letters.
pub proof fn which_stored_certificates_fit(rows: Seq<CertificateRow>, i: int)
    requires
        0 <= i < rows.len(),
    ensures
        row_fits(rows, i) <==> {
            &&& json_texts(rows[i].hostnames@) is Some
            &&& rows[i].private_key_encrypted is Some
            &&& rows[i].private_key_encrypted->0@.len() > 0
            &&& readable(rows[i].certificate@, rows[i].private_key_encrypted->0@)
            &&& forall|j: int, a: int, b: int|
                0 <= j < i && json_texts(rows[j].hostnames@) is Some && 0 <= a < json_texts(
                    rows[i].hostnames@,
                )->0.len() && 0 <= b < json_texts(rows[j].hostnames@)->0.len()
                    ==> !text::same_ignoring_case(
                    #[trigger] json_texts(rows[i].hostnames@)->0[a],
                    #[trigger] json_texts(rows[j].hostnames@)->0[b],
                )
        },
{
    reveal_strlit("");
    let own = json_texts(rows[i].hostnames@)->0;
    let key = key_text(rows[i]);
    assert(key == ""@ <==> key.len() == 0) by {
        if key.len() == 0 {
            assert(key =~= ""@);
        }
    }
    if row_fits(rows, i) {
        assert forall|j: int, a: int, b: int|
            0 <= j < i && json_texts(rows[j].hostnames@) is Some && 0 <= a < own.len() && 0 <= b
                < json_texts(rows[j].hostnames@)->0.len() implies !text::same_ignoring_case(
            #[trigger] json_texts(rows[i].hostnames@)->0[a],
            #[trigger] json_texts(rows[j].hostnames@)->0[b],
        ) by {
            let mine = row_names(rows[i]);
            let theirs = row_names(rows[j]);
            assert(!taken_before(rows, i, mine[a]));
            assert(mine[a] == text::ascii_lower(own[a]));
            assert(theirs[b] == text::ascii_lower(json_texts(rows[j].hostnames@)->0[b]));
            if theirs[b] == mine[a] {
                assert(theirs.contains(mine[a]));
            }
        }
    } else if row_readable(rows[i]) {
        let mine = row_names(rows[i]);
        let a = choose|a: int| 0 <= a < mine.len() && taken_before(rows, i, #[trigger] mine[a]);
        assert(taken_before(rows, i, mine[a]));
        let j = choose|j: int| 0 <= j < i && #[trigger] row_names(rows[j]).contains(mine[a]);
        let theirs = row_names(rows[j]);
        let b = choose|b: int| 0 <= b < theirs.len() && theirs[b] == mine[a];
        assert(theirs[b] == text::ascii_lower(json_texts(rows[j].hostnames@)->0[b]));
        assert(mine[a] == text::ascii_lower(own[a]));
        assert(text::same_ignoring_case(own[a], json_texts(rows[j].hostnames@)->0[b]));
    }
}

/// The error for a stored certificate names the certificate, or the host name that one before it
/// is for, and is for what is wrong with it.
pub proof fn error_names_the_certificate(
    rows: Seq<CertificateRow>,
    i: int,
    e: CertStoreError,
)
    requires
        0 <= i < rows.len(),
        row_fault(rows, i, e),
    ensures
        e matches CertStoreError::Hostnames { name } ==> name == rows[i].name && json_texts(
            rows[i].hostnames@,
        ) is None,
        e matches CertStoreError::NoKey { name } ==> name == rows[i].name && (
        rows[i].private_key_encrypted is None || rows[i].private_key_encrypted->0@.len() == 0),
        e matches CertStoreError::Load { name, error } ==> name == rows[i].name && !readable(
            rows[i].certificate@,
            key_text(rows[i]),
        ) && pem_fault(rows[i].certificate@, key_text(rows[i]), error),
        e matches CertStoreError::DuplicateHostname { host } ==> exists|j: int|
            0 <= j < i && #[trigger] row_names(rows[j]).contains(host@),
        !row_fits(rows, i),
{
    reveal_strlit("");
    if e is DuplicateHostname {
        let host = e->DuplicateHostname_host;
        let k = choose|k: int|
            {
                &&& 0 <= k < row_names(rows[i]).len()
                &&& #[trigger] row_names(rows[i])[k] == host@
                &&& taken_before(rows, i, host@)
                &&& forall|j: int|
                    0 <= j < k ==> !taken_before(rows, i, #[trigger] row_names(rows[i])[j])
            };
        assert(taken_before(rows, i, row_names(rows[i])[k]));
    }
}

/// A certificate is reported exactly where it expires by the limit, with its host names and its
/// expiry; one that does not expire is never.
pub proof fn which_certificates_are_reported(entries: Seq<CertView>, e: CertView, limit: int)
    ensures
        expired_by(Seq::<CertView>::empty(), limit).len() == 0,
        e.expires_at is Some && e.expires_at->0 <= limit ==> expired_by(entries.push(e), limit)
            == expired_by(entries, limit).push(
            (text::joined_by(e.hostnames, ","@), e.expires_at->0),
        ),
        !(e.expires_at is Some && e.expires_at->0 <= limit) ==> expired_by(entries.push(e), limit)
            == expired_by(entries, limit),
{
    assert(entries.push(e).drop_last() =~= entries);
}

/// Every error says what could not be read; that of a key says why.
pub proof fn errors_say_what_cannot_be_read(reason: String)
    ensures
        CertError::CertificatePem.words() == "parse certificate PEM"@,
        CertError::NoCertificates.words() == "certificate PEM contains no certificates"@,
        CertError::KeyPem.words() == "parse private key PEM"@,
        CertError::NoPrivateKey.words() == "no private key found in PEM"@,
        (CertError::UnsupportedKey { reason }).words() == "unsupported private key: "@ + reason@,
        CertError::Certificate.words() == "parse X.509 certificate"@,
        unsupported_reason()
            == "unexpected error: failed to parse private key as RSA, ECDSA, or EdDSA"@,
{
}

/// A stored certificate is added only where its names and its key are there and its names are
/// free; it is then the last, is read from its texts, and the others stay.
pub proof fn what_a_store_takes(
    s: StoreView,
    row: CertificateRow,
    names: Option<Seq<Seq<char>>>,
    post: StoreView,
)
    requires
        s.takes(row, names, post),
    ensures
        names is Some,
        row.private_key_encrypted is Some,
        row.private_key_encrypted->0@.len() > 0,
        post.entries == s.entries.push(post.entries.last()),
        post.entries.last().is_read(
            names->0,
            row.certificate@,
            row.private_key_encrypted->0@,
        ),
        forall|i: int|
            0 <= i < names->0.len() ==> !s.by_hostname.dom().contains(
                text::ascii_lower(#[trigger] names->0[i]),
            ),
{
    reveal_strlit("");
    let key = key_text(row);
    if key.len() == 0 {
        assert(key =~= ""@);
    }
    assert forall|i: int| 0 <= i < names->0.len() implies !s.by_hostname.dom().contains(
        text::ascii_lower(#[trigger] names->0[i]),
    ) by {
        assert(lowered(names->0)[i] == text::ascii_lower(names->0[i]));
    }
}

/// A certificate is turned down for the first thing that is wrong with it: its names, its key, its
/// texts, a name that is taken. The error names the certificate, or the host name that is taken.
pub proof fn why_a_store_turns_down(
    s: StoreView,
    row: CertificateRow,
    names: Option<Seq<Seq<char>>>,
    e: CertStoreError,
)
    requires
        s.fault(row, names, e),
    ensures
        e is Hostnames <==> names is None,
        e is NoKey <==> names is Some && (row.private_key_encrypted is None
            || row.private_key_encrypted->0@.len() == 0),
        e matches CertStoreError::Hostnames { name } ==> name == row.name,
        e matches CertStoreError::NoKey { name } ==> name == row.name,
        e matches CertStoreError::Load { name, error } ==> name == row.name && !readable(
            row.certificate@,
            key_text(row),
        ) && pem_fault(row.certificate@, key_text(row), error),
        e matches CertStoreError::DuplicateHostname { host } ==> s.by_hostname.dom().contains(host@)
            && lowered(names->0).contains(host@),
{
    reveal_strlit("");
    let key = key_text(row);
    if key.len() == 0 {
        assert(key =~= ""@);
    }
}

} // verus!
