//! The certificate of the QUIC listener.
use crate::certificate::texts;
use std::sync::Arc;
use vstd::prelude::*;

verus! {

/// The settings of a QUIC listener.
#[verifier::external_type_specification]
#[verifier::external_body]
pub struct ExServerConfig(quinn::ServerConfig);

/// A certificate and its PKCS#8 private key, both in DER.
pub struct SelfSignedCert {
    pub cert_der: Vec<u8>,
    pub key_der_bytes: Vec<u8>,
}

/// The certificate was made for the names: they are its subject alternative names.
pub uninterp spec fn made_for(cert_der: Seq<u8>, names: Seq<Seq<char>>) -> bool;

/// Calls `rcgen::generate_simple_self_signed` with the names as subject alternative names, and
/// takes the certificate and the key out of its result in DER. The certificate is for these names.
/// The key is drawn at random, so nothing else is claimed of the bytes, nor that the call
/// succeeds.
#[verifier::external_body]
pub fn generate_self_signed(subject_names: &Vec<String>) -> (r: Option<SelfSignedCert>)
    ensures
        (r matches Some(c) ==> made_for(c.cert_der@, texts(subject_names@))),
{
    match rcgen::generate_simple_self_signed(subject_names.clone()) {
        Ok(made) => Some(
            SelfSignedCert {
                cert_der: made.cert.der().to_vec(),
                key_der_bytes: made.key_pair.serialize_der(),
            },
        ),
        Err(_) => None,
    }
}

/// Why a QUIC listener has no settings.
#[derive(Clone, Copy, PartialEq, Eq, Structural, Debug)]
pub enum TlsError {
    /// No certificate could be made.
    Generate,
    /// The certificate and the key cannot be served.
    ServerConfig,
}

impl TlsError {
    /// The error in words.
    pub fn message(&self) -> (s: String)
        ensures
            s@ == match *self {
                TlsError::Generate => "generate self-signed certificate"@,
                TlsError::ServerConfig => "build rustls server config"@,
            },
    {
        let m = match self {
            TlsError::Generate => "generate self-signed certificate",
            TlsError::ServerConfig => "build rustls server config",
        };
        m.to_string()
    }
}

/// The certificate can be read, the key is of a supported type, and the two belong together.
pub uninterp spec fn servable(cert_der: Seq<u8>, key_der: Seq<u8>) -> bool;

/// A listener with the settings answers handshakes with this certificate, and signs with this
/// key.
pub uninterp spec fn serves(s: quinn::ServerConfig, cert_der: Seq<u8>, key_der: Seq<u8>) -> bool;

/// Builds `quinn` settings around a `rustls` server configuration without client certificates,
/// from the certificate and the key by `with_single_cert`. Whether that call takes the two is a
/// function of their bytes, left to the name; the other steps do not fail with the `ring`
/// provider. The settings serve this certificate with this key; they carry a token key drawn at
/// random besides, of which nothing is said. That the source of random numbers may fail is left
/// unsaid.
#[verifier::external_body]
fn quic_settings(cert_der: &Vec<u8>, key_der: &Vec<u8>) -> (r: Option<quinn::ServerConfig>)
    ensures
        r is Some == servable(cert_der@, key_der@),
        (r matches Some(s) ==> serves(s, cert_der@, key_der@)),
{
    let key = rustls::pki_types::PrivatePkcs8KeyDer::from(key_der.clone()).into();
    let ring = Arc::new(rustls::crypto::ring::default_provider());
    let tls = rustls::ServerConfig::builder_with_provider(ring)
        .with_safe_default_protocol_versions()
        .ok()?
        .with_no_client_auth()
        .with_single_cert(vec![cert_der.clone().into()], key)
        .ok()?;
    let crypto = quinn::crypto::rustls::QuicServerConfig::try_from(tls).ok()?;
    Some(quinn::ServerConfig::with_crypto(Arc::new(crypto)))
}

/// The settings of a QUIC listener that serves a certificate.
pub fn server_config(cert: &SelfSignedCert) -> (r: Result<quinn::ServerConfig, TlsError>)
    ensures
        r is Ok == servable(cert.cert_der@, cert.key_der_bytes@),
        match r {
            Ok(s) => serves(s, cert.cert_der@, cert.key_der_bytes@),
            Err(e) => e == TlsError::ServerConfig,
        },
{
    match quic_settings(&cert.cert_der, &cert.key_der_bytes) {
        Some(c) => Ok(c),
        None => Err(TlsError::ServerConfig),
    }
}

/// The settings of a QUIC listener that serves the certificate `made`, if one could be made.
pub fn settings_for(made: Option<SelfSignedCert>) -> (r: Result<quinn::ServerConfig, TlsError>)
    ensures
        match made {
            None => r == Err::<quinn::ServerConfig, TlsError>(TlsError::Generate),
            Some(c) => if servable(c.cert_der@, c.key_der_bytes@) {
                r matches Ok(s) && serves(s, c.cert_der@, c.key_der_bytes@)
            } else {
                r == Err::<quinn::ServerConfig, TlsError>(TlsError::ServerConfig)
            },
        },
{
    match made {
        Some(cert) => server_config(&cert),
        None => Err(TlsError::Generate),
    }
}

/// The settings of a QUIC listener that serves a certificate made for the occasion, for the given
/// names.
pub fn build_server_config(subject_names: &Vec<String>) -> (r: Result<quinn::ServerConfig, TlsError>)
    ensures
        match r {
            Ok(s) => exists|c: Seq<u8>, k: Seq<u8>| #[trigger]
                serves(s, c, k) && servable(c, k) && made_for(c, texts(subject_names@)),
            Err(TlsError::ServerConfig) => exists|c: Seq<u8>, k: Seq<u8>|
                made_for(c, texts(subject_names@)) && !#[trigger] servable(c, k),
            Err(TlsError::Generate) => true,
        },
{
    settings_for(generate_self_signed(subject_names))
}

impl SelfSignedCert {
    /// A certificate and key that were kept.
    pub fn from_der(cert_der: Vec<u8>, key_der: Vec<u8>) -> (r: SelfSignedCert)
        ensures
            r == (SelfSignedCert { cert_der, key_der_bytes: key_der }),
    {
        SelfSignedCert { cert_der, key_der_bytes: key_der }
    }
}

/// Where the listener's certificate comes from.
#[derive(Clone, Copy, PartialEq, Eq, Structural, Debug)]
pub enum CertSource {
    /// It is read from the two files.
    Kept,
    /// It is made, and written to the two files.
    MadeAndKept,
    /// It is made, and lost when the server stops.
    Made,
}

/// Where the listener's certificate comes from, given the file of the certificate and that of
/// the key: for each whether one is set, and then whether it is there. A certificate that was
/// kept is used again, so that the server keeps its identity.
pub fn load_or_generate(cert_file: Option<bool>, key_file: Option<bool>) -> (r: CertSource)
    ensures
        r == CertSource::Kept <==> cert_file == Some(true) && key_file == Some(true),
        r == CertSource::Made <==> cert_file is None || key_file is None,
{
    match (cert_file, key_file) {
        (Some(c), Some(k)) => if c && k {
            CertSource::Kept
        } else {
            CertSource::MadeAndKept
        },
        _ => CertSource::Made,
    }
}

} // verus!
