//! The certificates of the daemon and of its clients, all issued by one local authority.

use crate::text::{copy_texts, texts};
use rcgen::{
    BasicConstraints, Certificate, CertificateParams, DistinguishedName, DnType,
    ExtendedKeyUsagePurpose, IsCa, KeyPair, KeyUsagePurpose,
};
use vstd::prelude::*;
use vstd::string::*;
use vstd::utf8::is_ascii_chars;

verus! {

/// The name of the authority.
pub const CA_COMMON_NAME: &'static str = "cli-warden-ca";

/// The name of the daemon.
pub const DAEMON_COMMON_NAME: &'static str = "cli-warden-daemon";

/// What stands before the name of a client.
pub const CLIENT_NAME_PREFIX: &'static str = "cli-warden-client:";

/// What a key may be used for.
#[derive(Debug, Clone, Copy, PartialEq, Eq, Structural)]
pub enum KeyUsage {
    KeyCertSign,
    CrlSign,
    DigitalSignature,
}

/// Which end of a connection a certificate is for.
#[derive(Debug, Clone, Copy, PartialEq, Eq, Structural)]
pub enum ExtendedUsage {
    ServerAuth,
    ClientAuth,
}

/// What a certificate is asked to say of its holder. That of an authority bounds the number of
/// authorities between it and a holder, or does not.
pub struct ProfileView {
    pub sans: Seq<Seq<char>>,
    pub common_name: Seq<char>,
    pub authority: Option<Option<u8>>,
    pub key_usages: Seq<KeyUsage>,
    pub extended_usages: Seq<ExtendedUsage>,
}

/// A key pair: whether its private key is at hand, and its public key.
pub struct KeyView {
    pub local: bool,
    pub public: Seq<u8>,
}

/// What a certificate certifies: what it says of its holder, the holder's public key, and the
/// name and the public key of its issuer.
pub struct CertView {
    pub profile: ProfileView,
    pub public: Seq<u8>,
    pub issuer: Seq<char>,
    pub issuer_public: Seq<u8>,
}

/// A key pair of `rcgen`.
#[verifier::external_type_specification]
#[verifier::external_body]
pub struct ExKeyPair(KeyPair);

/// The parameters of a certificate of `rcgen`.
#[verifier::external_type_specification]
#[verifier::external_body]
pub struct ExCertificateParams(CertificateParams);

/// A certificate of `rcgen`.
#[verifier::external_type_specification]
#[verifier::external_body]
pub struct ExCertificate(Certificate);

/// Why `rcgen` could not make a key or a certificate.
#[verifier::external_type_specification]
#[verifier::external_body]
pub struct ExRcgenError(rcgen::Error);

/// What a key pair is.
pub uninterp spec fn key_view(key: KeyPair) -> KeyView;

/// What the parameters of a certificate hold.
pub uninterp spec fn params_view(params: CertificateParams) -> ProfileView;

/// What a certificate certifies.
pub uninterp spec fn certified(cert: Certificate) -> CertView;

/// The PEM text of a certificate.
pub uninterp spec fn certificate_pem(cert: Certificate) -> Seq<char>;

/// The public key that belongs to the private key in a PEM text, where there is one.
pub uninterp spec fn public_key_in(pem: Seq<char>) -> Option<Seq<u8>>;

/// The name or the address that a subject alternative name is read as.
pub uninterp spec fn san_of(text: Seq<char>) -> Seq<char>;

/// Calls `KeyPair::generate`, which makes a new random key pair with its private key. It fails
/// where the system gives no random numbers.
#[verifier::external_body]
fn generate_key() -> (r: Result<KeyPair, rcgen::Error>)
    ensures
        r matches Ok(key) ==> key_view(key).local,
{
    KeyPair::generate()
}

/// Calls `KeyPair::from_pem`, which reads a private key from a PEM text. Which public key belongs
/// to it is a matter of the text alone. It fails on a text without a key, and also where the
/// system gives no random numbers: that a text holds a key does not promise that it is read.
#[verifier::external_body]
fn read_key(pem: &str) -> (r: Result<KeyPair, rcgen::Error>)
    ensures
        r is Ok ==> public_key_in(pem@) is Some,
        r matches Ok(key) ==> key_view(key) == (KeyView {
            local: true,
            public: public_key_in(pem@)->0,
        }),
{
    KeyPair::from_pem(pem)
}

/// Calls `KeyPair::serialize_pem`, which writes the private key as a PEM text that it can be
/// read from again. It panics where the private key is not at hand.
#[verifier::external_body]
fn write_key(key: &KeyPair) -> (pem: String)
    requires
        key_view(*key).local,
    ensures
        public_key_in(pem@) == Some(key_view(*key).public),
{
    key.serialize_pem()
}

/// Calls `CertificateParams::new`: parameters with the given subject alternative names, each
/// of which is read as an IP address or taken as a DNS name. It fails where a name has a
/// character that is not ASCII. The parameters are not those of an authority and state no use.
#[verifier::external_body]
fn new_params(sans: Vec<String>) -> (r: Result<CertificateParams, rcgen::Error>)
    ensures
        r is Ok <==> forall|i: int| 0 <= i < sans@.len() ==> is_ascii_chars(#[trigger] sans@[i]@),
        r matches Ok(params) ==> params_view(params) == (ProfileView {
            sans: texts(sans@).map_values(|s: Seq<char>| san_of(s)),
            common_name: "rcgen self signed cert"@,
            authority: None,
            key_usages: seq![],
            extended_usages: seq![],
        }),
{
    CertificateParams::new(sans)
}

/// Calls `DistinguishedName::push` on a new distinguished name, and makes it the subject of
/// the parameters: it has this common name and no other attribute.
#[verifier::external_body]
fn set_common_name(params: &mut CertificateParams, name: &str)
    ensures
        params_view(*final(params)) == (ProfileView {
            common_name: name@,
            ..params_view(*old(params))
        }),
{
    let mut dn = DistinguishedName::new();
    dn.push(DnType::CommonName, name);
    params.distinguished_name = dn;
}

/// Sets the field `is_ca` of `CertificateParams`: the parameters become those of an authority,
/// with a path of at most `path_len` authorities below it, or of any number.
#[verifier::external_body]
fn set_authority(params: &mut CertificateParams, path_len: Option<u8>)
    ensures
        params_view(*final(params)) == (ProfileView {
            authority: Some(path_len),
            ..params_view(*old(params))
        }),
{
    params.is_ca = IsCa::Ca(
        match path_len {
            Some(n) => BasicConstraints::Constrained(n),
            None => BasicConstraints::Unconstrained,
        },
    );
}

/// Adds to the field `key_usages` of `CertificateParams`.
#[verifier::external_body]
fn add_key_usage(params: &mut CertificateParams, usage: KeyUsage)
    ensures
        params_view(*final(params)) == (ProfileView {
            key_usages: params_view(*old(params)).key_usages.push(usage),
            ..params_view(*old(params))
        }),
{
    params.key_usages.push(
        match usage {
            KeyUsage::KeyCertSign => KeyUsagePurpose::KeyCertSign,
            KeyUsage::CrlSign => KeyUsagePurpose::CrlSign,
            KeyUsage::DigitalSignature => KeyUsagePurpose::DigitalSignature,
        },
    );
}

/// Adds to the field `extended_key_usages` of `CertificateParams`.
#[verifier::external_body]
fn add_extended_usage(params: &mut CertificateParams, usage: ExtendedUsage)
    ensures
        params_view(*final(params)) == (ProfileView {
            extended_usages: params_view(*old(params)).extended_usages.push(usage),
            ..params_view(*old(params))
        }),
{
    params.extended_key_usages.push(
        match usage {
            ExtendedUsage::ServerAuth => ExtendedKeyUsagePurpose::ServerAuth,
            ExtendedUsage::ClientAuth => ExtendedKeyUsagePurpose::ClientAuth,
        },
    );
}

/// Calls `CertificateParams::self_signed`: a certificate with these parameters for the key
/// pair, which is also its issuer. It fails where the key cannot sign.
#[verifier::external_body]
fn self_sign(params: CertificateParams, key: &KeyPair) -> (r: Result<Certificate, rcgen::Error>)
    ensures
        r matches Ok(cert) ==> certified(cert) == (CertView {
            profile: params_view(params),
            public: key_view(*key).public,
            issuer: params_view(params).common_name,
            issuer_public: key_view(*key).public,
        }),
{
    params.self_signed(key)
}

/// Calls `CertificateParams::signed_by`: a certificate with these parameters for the public key
/// of `key`, whose issuer is the subject of `issuer`, signed by `issuer_key`. It fails where
/// that key cannot sign.
#[verifier::external_body]
fn sign(
    params: CertificateParams,
    key: &KeyPair,
    issuer: &Certificate,
    issuer_key: &KeyPair,
) -> (r: Result<Certificate, rcgen::Error>)
    ensures
        r matches Ok(cert) ==> certified(cert) == (CertView {
            profile: params_view(params),
            public: key_view(*key).public,
            issuer: certified(*issuer).profile.common_name,
            issuer_public: key_view(*issuer_key).public,
        }),
{
    params.signed_by(key, issuer, issuer_key)
}

/// Calls `Certificate::pem`, which writes a certificate as a PEM text.
#[verifier::external_body]
fn write_certificate(cert: &Certificate) -> (pem: String)
    ensures
        pem@ == certificate_pem(*cert),
{
    cert.pem()
}

/// Why a certificate cannot be made.
#[derive(Debug)]
pub enum PkiError {
    /// The daemon has no name.
    NoDaemonSan,
    /// `rcgen` could not make it.
    Rcgen(rcgen::Error),
}

/// A certificate and its private key, as PEM texts.
#[derive(Debug, Clone)]
pub struct BuiltCert {
    pub cert_pem: String,
    pub key_pem: String,
}

/// The authority: its certificate and its key.
pub struct CaBundle {
    pub cert: Certificate,
    pub key: KeyPair,
}

/// What the certificate of the authority says.
pub open spec fn authority_profile() -> ProfileView {
    ProfileView {
        sans: seq![],
        common_name: CA_COMMON_NAME@,
        authority: Some(None),
        key_usages: seq![KeyUsage::KeyCertSign, KeyUsage::CrlSign, KeyUsage::DigitalSignature],
        extended_usages: seq![],
    }
}

/// What the certificate of a daemon or a client says.
pub open spec fn leaf_profile(
    sans: Seq<Seq<char>>,
    name: Seq<char>,
    usage: ExtendedUsage,
) -> ProfileView {
    ProfileView {
        sans: sans.map_values(|s: Seq<char>| san_of(s)),
        common_name: name,
        authority: None,
        key_usages: seq![],
        extended_usages: seq![usage],
    }
}

/// What the certificate of the daemon says.
pub open spec fn daemon_profile(sans: Seq<Seq<char>>) -> ProfileView {
    leaf_profile(sans, DAEMON_COMMON_NAME@, ExtendedUsage::ServerAuth)
}

/// What the certificate of a client says.
pub open spec fn client_profile(name: Seq<char>) -> ProfileView {
    leaf_profile(seq![], CLIENT_NAME_PREFIX@ + name, ExtendedUsage::ClientAuth)
}

/// The certificate of the authority with a public key, which it issued to itself.
pub open spec fn authority_cert(public: Seq<u8>) -> CertView {
    CertView {
        profile: authority_profile(),
        public,
        issuer: CA_COMMON_NAME@,
        issuer_public: public,
    }
}

impl CaBundle {
    /// Whether this is an authority, whose key is at hand.
    pub open spec fn is_authority(&self) -> bool {
        &&& key_view(self.key).local
        &&& certified(self.cert) == authority_cert(key_view(self.key).public)
    }
}

/// Whether `built` holds a certificate that says `profile`, its private key, and the issuer is
/// `ca`.
pub open spec fn issued(built: BuiltCert, profile: ProfileView, ca: CertView) -> bool {
    exists|cert: Certificate| #[trigger]
        certificate_pem(cert) == built.cert_pem@ && certified(cert).profile == profile
            && public_key_in(built.key_pem@) == Some(certified(cert).public) && certified(
            cert,
        ).issuer == ca.profile.common_name && certified(cert).issuer_public == ca.public
}

fn make_ca_params() -> (r: Result<CertificateParams, rcgen::Error>)
    ensures
        r is Ok,
        r matches Ok(params) ==> params_view(params) == authority_profile(),
{
    let none: Vec<String> = Vec::new();
    match new_params(none) {
        Ok(params) => {
            let mut params = params;
            set_authority(&mut params, None);
            add_key_usage(&mut params, KeyUsage::KeyCertSign);
            add_key_usage(&mut params, KeyUsage::CrlSign);
            add_key_usage(&mut params, KeyUsage::DigitalSignature);
            set_common_name(&mut params, CA_COMMON_NAME);
            proof {
                let made = params_view(params);
                assert(made.sans =~= authority_profile().sans);
                assert(made.key_usages =~= authority_profile().key_usages);
            }
            Ok(params)
        },
        Err(e) => Err(e),
    }
}

/// The authority with the given key pair. Whether the key can sign rests on the system's random
/// numbers.
pub fn certify_ca(key: KeyPair) -> (r: Result<CaBundle, PkiError>)
    requires
        key_view(key).local,
    ensures
        r matches Ok(ca) ==> ca.is_authority() && ca.key == key,
        r matches Err(e) ==> e is Rcgen,
{
    match make_ca_params() {
        Ok(params) => match self_sign(params, &key) {
            Ok(cert) => Ok(CaBundle { cert, key }),
            Err(e) => Err(PkiError::Rcgen(e)),
        },
        Err(e) => Err(PkiError::Rcgen(e)),
    }
}

/// A new authority. Whether there is one rests on the system's random numbers.
pub fn make_ca_cert() -> (r: Result<CaBundle, PkiError>)
    ensures
        r matches Ok(ca) ==> ca.is_authority(),
        r matches Err(e) ==> e is Rcgen,
{
    match generate_key() {
        Ok(key) => certify_ca(key),
        Err(e) => Err(PkiError::Rcgen(e)),
    }
}

/// The authority whose private key is given. A text without a key is refused. Whether a key is
/// read and can sign rests on the system's random numbers.
pub fn make_ca_from_existing_key(ca_key_pem: &str) -> (r: Result<CaBundle, PkiError>)
    ensures
        r matches Ok(ca) ==> {
            &&& ca.is_authority()
            &&& public_key_in(ca_key_pem@) == Some(key_view(ca.key).public)
        },
        public_key_in(ca_key_pem@) is None ==> r is Err,
        r matches Err(e) ==> e is Rcgen,
{
    match read_key(ca_key_pem) {
        Ok(key) => certify_ca(key),
        Err(e) => Err(PkiError::Rcgen(e)),
    }
}

/// The PEM text of the certificate of an authority, and that of its private key, from which the
/// same authority can be made again.
pub fn ca_texts(ca: &CaBundle) -> (built: BuiltCert)
    requires
        ca.is_authority(),
    ensures
        built.cert_pem@ == certificate_pem(ca.cert),
        public_key_in(built.key_pem@) == Some(key_view(ca.key).public),
{
    BuiltCert { cert_pem: write_certificate(&ca.cert), key_pem: write_key(&ca.key) }
}

/// A certificate for the given key pair that is issued by the authority, and the private key of
/// that pair. Each name has to be ASCII. Beyond that, whether there is a certificate rests on
/// the system's random numbers.
pub fn issue_for(
    key: &KeyPair,
    sans: Vec<String>,
    name: &str,
    usage: ExtendedUsage,
    ca: &CaBundle,
) -> (r: Result<BuiltCert, PkiError>)
    requires
        key_view(*key).local,
    ensures
        r matches Ok(built) ==> {
            &&& public_key_in(built.key_pem@) == Some(key_view(*key).public)
            &&& issued(
                built,
                leaf_profile(texts(sans@), name@, usage),
                CertView { public: key_view(ca.key).public, ..certified(ca.cert) },
            )
        },
        r is Ok ==> forall|i: int| 0 <= i < sans@.len() ==> is_ascii_chars(#[trigger] sans@[i]@),
        r matches Err(e) ==> e is Rcgen,
{
    let params = match new_params(sans) {
        Ok(params) => params,
        Err(e) => {
            return Err(PkiError::Rcgen(e));
        },
    };
    let mut params = params;
    set_common_name(&mut params, name);
    add_extended_usage(&mut params, usage);
    assert(params_view(params).extended_usages =~= seq![usage]);
    match sign(params, key, &ca.cert, &ca.key) {
        Ok(cert) => {
            let built = BuiltCert { cert_pem: write_certificate(&cert), key_pem: write_key(key) };
            assert(certificate_pem(cert) == built.cert_pem@);
            Ok(built)
        },
        Err(e) => Err(PkiError::Rcgen(e)),
    }
}

/// Draws a key pair, and makes the certificate for it that is issued by the authority.
fn issue(sans: Vec<String>, name: &str, usage: ExtendedUsage, ca: &CaBundle) -> (r: Result<
    BuiltCert,
    PkiError,
>)
    ensures
        r matches Ok(built) ==> issued(
            built,
            leaf_profile(texts(sans@), name@, usage),
            CertView { public: key_view(ca.key).public, ..certified(ca.cert) },
        ),
        r is Ok ==> forall|i: int| 0 <= i < sans@.len() ==> is_ascii_chars(#[trigger] sans@[i]@),
        r matches Err(e) ==> e is Rcgen,
{
    match generate_key() {
        Ok(key) => issue_for(&key, sans, name, usage, ca),
        Err(e) => Err(PkiError::Rcgen(e)),
    }
}

/// A certificate of the daemon under the given names, issued by the authority. There has to be
/// a name, and each has to be ASCII. Beyond that, whether there is a certificate rests on the
/// system's random numbers, and so does that nobody else holds the key that is drawn for it.
pub fn make_daemon_cert(sans: &[String], ca: &CaBundle) -> (r: Result<BuiltCert, PkiError>)
    requires
        ca.is_authority(),
    ensures
        r matches Ok(built) ==> {
            &&& issued(built, daemon_profile(texts(sans@)), certified(ca.cert))
            &&& sans@.len() > 0
            &&& forall|i: int| 0 <= i < sans@.len() ==> is_ascii_chars(#[trigger] sans@[i]@)
        },
        r matches Err(e) ==> (e is NoDaemonSan <==> sans@.len() == 0),
{
    if sans.len() == 0 {
        return Err(PkiError::NoDaemonSan);
    }
    issue(copy_texts(sans), DAEMON_COMMON_NAME, ExtendedUsage::ServerAuth, ca)
}

/// A certificate of a client, issued by the authority. Whether there is one rests on the
/// system's random numbers, and so does that nobody else holds the key that is drawn for it.
pub fn make_client_cert(name: &str, ca: &CaBundle) -> (r: Result<BuiltCert, PkiError>)
    requires
        ca.is_authority(),
    ensures
        r matches Ok(built) ==> issued(built, client_profile(name@), certified(ca.cert)),
        r matches Err(e) ==> e is Rcgen,
{
    let mut common_name = CLIENT_NAME_PREFIX.to_owned();
    common_name.append(name);
    let none: Vec<String> = Vec::new();
    assert(texts(none@) =~= Seq::<Seq<char>>::empty());
    issue(none, common_name.as_str(), ExtendedUsage::ClientAuth, ca)
}

/// The certificates of a new daemon: those of its authority, of itself and of its first client.
#[derive(Debug, Clone)]
pub struct SetupCerts {
    pub ca: BuiltCert,
    pub daemon: BuiltCert,
    pub client: BuiltCert,
}

/// Whether `built` holds the certificate of an authority, and the key that stands for it.
pub open spec fn is_authority_text(built: BuiltCert) -> bool {
    &&& public_key_in(built.key_pem@) is Some
    &&& exists|cert: Certificate| #[trigger]
        certificate_pem(cert) == built.cert_pem@ && certified(cert) == authority_cert(
            public_key_in(built.key_pem@)->0,
        )
}

/// Makes the certificates of a new daemon under the given names. There has to be a name, and
/// each has to be ASCII. Beyond that, whether there are certificates rests on the system's
/// random numbers.
pub fn make_setup_certs(sans: &[String], client_name: &str) -> (r: Result<SetupCerts, PkiError>)
    ensures
        r matches Ok(certs) ==> {
            let ca = authority_cert(public_key_in(certs.ca.key_pem@)->0);
            &&& is_authority_text(certs.ca)
            &&& issued(certs.daemon, daemon_profile(texts(sans@)), ca)
            &&& issued(certs.client, client_profile(client_name@), ca)
            &&& sans@.len() > 0
            &&& forall|i: int| 0 <= i < sans@.len() ==> is_ascii_chars(#[trigger] sans@[i]@)
        },
        r matches Err(e) ==> (e is NoDaemonSan ==> sans@.len() == 0),
{
    let ca = match make_ca_cert() {
        Ok(ca) => ca,
        Err(e) => {
            return Err(e);
        },
    };
    let daemon = match make_daemon_cert(sans, &ca) {
        Ok(daemon) => daemon,
        Err(e) => {
            return Err(e);
        },
    };
    let client = match make_client_cert(client_name, &ca) {
        Ok(client) => client,
        Err(e) => {
            return Err(e);
        },
    };
    let built = ca_texts(&ca);
    assert(certificate_pem(ca.cert) == built.cert_pem@);
    Ok(SetupCerts { ca: built, daemon, client })
}

/// Makes the certificate of a further client, issued by the authority whose private key is
/// given. A text without a key is refused. Beyond that, whether there is a certificate rests on
/// the system's random numbers.
pub fn make_further_client_cert(ca_key_pem: &str, name: &str) -> (r: Result<BuiltCert, PkiError>)
    ensures
        r matches Ok(built) ==> {
            &&& public_key_in(ca_key_pem@) is Some
            &&& issued(
                built,
                client_profile(name@),
                authority_cert(public_key_in(ca_key_pem@)->0),
            )
        },
        r matches Err(e) ==> e is Rcgen,
{
    match make_ca_from_existing_key(ca_key_pem) {
        Ok(ca) => make_client_cert(name, &ca),
        Err(e) => Err(e),
    }
}

/// Whether a certificate was issued by the holder of another.
pub open spec fn issued_by(cert: CertView, ca: CertView) -> bool {
    cert.issuer == ca.profile.common_name && cert.issuer_public == ca.public
}

/// A client that is made known later is of the same authority as the daemon: the issuer of its
/// certificate is the holder of the certificate that was made at the setup.
pub proof fn law_further_client_is_of_the_same_authority(
    ca: BuiltCert,
    client: BuiltCert,
    name: Seq<char>,
)
    requires
        is_authority_text(ca),
        issued(client, client_profile(name), authority_cert(public_key_in(ca.key_pem@)->0)),
    ensures
        exists|ca_cert: Certificate, cert: Certificate|
            #![trigger certificate_pem(ca_cert), certificate_pem(cert)]
            certificate_pem(ca_cert) == ca.cert_pem@ && certificate_pem(cert) == client.cert_pem@
                && certified(ca_cert).profile == authority_profile() && issued_by(
                certified(cert),
                certified(ca_cert),
            ),
{
    let public = public_key_in(ca.key_pem@)->0;
    let ca_cert = choose|ca_cert: Certificate| #[trigger]
        certificate_pem(ca_cert) == ca.cert_pem@ && certified(ca_cert) == authority_cert(public);
    let cert = choose|cert: Certificate| #[trigger]
        certificate_pem(cert) == client.cert_pem@ && certified(cert).issuer == CA_COMMON_NAME@
            && certified(cert).issuer_public == public;
    assert(certificate_pem(ca_cert) == ca.cert_pem@);
    assert(certificate_pem(cert) == client.cert_pem@);
    assert(issued_by(certified(cert), certified(ca_cert)));
}

} // verus!
