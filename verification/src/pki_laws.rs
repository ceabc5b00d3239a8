//! What the certificates of a daemon and its clients say.

use crate::pki::{
    authority_cert, certificate_pem, certified, client_profile, daemon_profile, is_authority_text,
    issued, public_key_in, san_of, BuiltCert, ExtendedUsage, KeyUsage,
};
use rcgen::Certificate;
use vstd::prelude::*;

verus! {

/// Whether a certificate is that of no authority, for one end of a connection alone, for the key
/// that it comes with, and issued by the local authority with the public key `ca`.
pub open spec fn is_leaf(
    built: BuiltCert,
    cert: Certificate,
    name: Seq<char>,
    usage: ExtendedUsage,
    ca: Seq<u8>,
) -> bool {
    &&& certificate_pem(cert) == built.cert_pem@
    &&& certified(cert).profile.common_name == name
    &&& certified(cert).profile.authority is None
    &&& certified(cert).profile.key_usages.len() == 0
    &&& certified(cert).profile.extended_usages == seq![usage]
    &&& public_key_in(built.key_pem@) == Some(certified(cert).public)
    &&& certified(cert).issuer == "cli-warden-ca"@
    &&& certified(cert).issuer_public == ca
}

/// The certificate of a daemon is for the server's end of a connection alone and for all the
/// names that it was made for, in their order, and its issuer is the local authority.
pub proof fn law_certificate_of_a_daemon(built: BuiltCert, names: Seq<Seq<char>>, ca: Seq<u8>) -> (
    cert: Certificate)
    requires
        issued(built, daemon_profile(names), authority_cert(ca)),
    ensures
        is_leaf(built, cert, "cli-warden-daemon"@, ExtendedUsage::ServerAuth, ca),
        certified(cert).profile.sans.len() == names.len(),
        forall|i: int|
            0 <= i < names.len() ==> #[trigger] certified(cert).profile.sans[i] == san_of(names[i]),
{
    choose|cert: Certificate| #[trigger]
        certificate_pem(cert) == built.cert_pem@ && certified(cert).profile == daemon_profile(names)
            && public_key_in(built.key_pem@) == Some(certified(cert).public) && certified(
            cert,
        ).issuer == authority_cert(ca).profile.common_name && certified(cert).issuer_public == ca
}

/// The certificate of a client is for the client's end of a connection alone and has the name of
/// the client in it, and its issuer is the local authority.
pub proof fn law_certificate_of_a_client(built: BuiltCert, name: Seq<char>, ca: Seq<u8>) -> (cert:
    Certificate)
    requires
        issued(built, client_profile(name), authority_cert(ca)),
    ensures
        is_leaf(built, cert, "cli-warden-client:"@ + name, ExtendedUsage::ClientAuth, ca),
        certified(cert).profile.sans.len() == 0,
{
    choose|cert: Certificate| #[trigger]
        certificate_pem(cert) == built.cert_pem@ && certified(cert).profile == client_profile(name)
            && public_key_in(built.key_pem@) == Some(certified(cert).public) && certified(
            cert,
        ).issuer == authority_cert(ca).profile.common_name && certified(cert).issuer_public == ca
}

/// The certificate of the authority is one that it issued to itself, for the key that it comes
/// with. It may sign certificates and lists of revoked ones, and bounds no path.
pub proof fn law_certificate_of_the_authority(built: BuiltCert) -> (cert: Certificate)
    requires
        is_authority_text(built),
    ensures
        certificate_pem(cert) == built.cert_pem@,
        public_key_in(built.key_pem@) == Some(certified(cert).public),
        certified(cert).issuer_public == certified(cert).public,
        certified(cert).issuer == "cli-warden-ca"@,
        certified(cert).profile.common_name == "cli-warden-ca"@,
        certified(cert).profile.authority == Some(None::<u8>),
        certified(cert).profile.sans.len() == 0,
        certified(cert).profile.key_usages == seq![
            KeyUsage::KeyCertSign,
            KeyUsage::CrlSign,
            KeyUsage::DigitalSignature,
        ],
        certified(cert).profile.extended_usages.len() == 0,
{
    choose|cert: Certificate| #[trigger]
        certificate_pem(cert) == built.cert_pem@ && certified(cert) == authority_cert(
            public_key_in(built.key_pem@)->0,
        )
}

} // verus!
