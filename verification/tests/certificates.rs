use openssl::asn1::Asn1Time;
use openssl::bn::BigNum;
use openssl::ec::{EcGroup, EcKey};
use openssl::hash::MessageDigest;
use openssl::nid::Nid;
use openssl::pkey::{PKey, Private};
use openssl::x509::extension::SubjectAlternativeName;
use openssl::x509::{X509Builder, X509NameBuilder};
use true_track_proxy::tls::{
    ca_certificate_from_pem, certificate_names, client_cert_key_from_pem, client_certificate_from_pem,
    client_key_from_pem, names_from_parsed, prefer_h2, CaCertificateError, CertificateConfig,
    CertificateError, CertificateInfo, CertificateNames, Certificates, ClientCredentialsError,
};

fn key() -> PKey<Private> {
    let group = EcGroup::from_curve_name(Nid::X9_62_PRIME256V1).unwrap();
    PKey::from_ec_key(EcKey::generate(&group).unwrap()).unwrap()
}

fn cert_pem(common_names: &[&str], dns: &[&str], key: &PKey<Private>) -> Vec<u8> {
    let mut name = X509NameBuilder::new().unwrap();
    for cn in common_names {
        name.append_entry_by_nid(Nid::COMMONNAME, cn).unwrap();
    }
    let name = name.build();
    let mut b = X509Builder::new().unwrap();
    b.set_version(2).unwrap();
    b.set_serial_number(&BigNum::from_u32(1).unwrap().to_asn1_integer().unwrap()).unwrap();
    b.set_subject_name(&name).unwrap();
    b.set_issuer_name(&name).unwrap();
    b.set_pubkey(key).unwrap();
    b.set_not_before(&Asn1Time::days_from_now(0).unwrap()).unwrap();
    b.set_not_after(&Asn1Time::days_from_now(30).unwrap()).unwrap();
    if !dns.is_empty() {
        let mut san = SubjectAlternativeName::new();
        for d in dns {
            san.dns(d);
        }
        let ext = san.build(&b.x509v3_context(None, None)).unwrap();
        b.append_extension(ext).unwrap();
    }
    b.sign(key, MessageDigest::sha256()).unwrap();
    b.build().to_pem().unwrap()
}

fn sorted(mut v: Vec<String>) -> Vec<String> {
    v.sort();
    v
}

fn info(cn: &[&str], alt: &[&str], ctx: u32) -> CertificateInfo<u32> {
    CertificateInfo::new(
        CertificateNames {
            common_names: cn.iter().map(|s| s.to_string()).collect(),
            alt_names: alt.iter().map(|s| s.to_string()).collect(),
        },
        ctx,
        "c.pem",
        "k.pem",
    )
}

fn config(cert: &str, key: &str) -> CertificateConfig {
    CertificateConfig { cert_path: cert.to_string(), key_path: key.to_string() }
}

#[test]
fn names_split_into_common_and_alternative() {
    let k = key();
    let pem = cert_pem(&["example.com"], &["example.com", "www.example.com", "*.api.example.com", "www.example.com"], &k);
    let names = certificate_names(&pem).expect("names");
    assert_eq!(names.common_names, vec!["example.com".to_string()]);
    assert_eq!(
        sorted(names.alt_names),
        vec!["*.api.example.com".to_string(), "www.example.com".to_string()]
    );
}

#[test]
fn names_without_alternative_extension() {
    let k = key();
    let pem = cert_pem(&["a.test", "b.test", "a.test"], &[], &k);
    let names = certificate_names(&pem).expect("names");
    assert_eq!(sorted(names.common_names), vec!["a.test".to_string(), "b.test".to_string()]);
    assert!(names.alt_names.is_empty());
}

#[test]
fn names_errors() {
    assert_eq!(certificate_names(b"").unwrap_err(), CertificateError::NoCertificate);
    assert_eq!(certificate_names(b"not a pem file").unwrap_err(), CertificateError::NoCertificate);
    let key_pem = key().private_key_to_pem_pkcs8().unwrap();
    assert_eq!(certificate_names(&key_pem).unwrap_err(), CertificateError::NoCertificate);
    let garbage = b"-----BEGIN CERTIFICATE-----\nAAECAwQF\n-----END CERTIFICATE-----\n";
    assert_eq!(certificate_names(garbage).unwrap_err(), CertificateError::Unparsable);
}

#[test]
fn server_name_picks_first_serving_certificate() {
    let certs = Certificates::new(
        &vec![config("a.pem", "a.key"), config("b.pem", "b.key"), config("c.pem", "c.key")],
        vec![
            info(&["example.com"], &["www.example.com"], 1),
            info(&["*.example.com"], &[], 2),
            info(&["other.org"], &["*.other.org"], 3),
        ],
    );
    assert_eq!(certs.default_cert_path, "a.pem");
    assert_eq!(certs.default_key_path, "a.key");
    assert_eq!(certs.find_ssl_context("example.com"), Some(&1));
    assert_eq!(certs.find_ssl_context("www.example.com"), Some(&1));
    assert_eq!(certs.find_ssl_context("api.example.com"), Some(&2));
    assert_eq!(certs.find_ssl_context("a.b.example.com"), Some(&2));
    assert_eq!(certs.find_ssl_context("x.other.org"), Some(&3));
    assert_eq!(certs.find_ssl_context("other.org"), Some(&3));
    assert_eq!(certs.find_ssl_context("notexample.com"), None);
    assert_eq!(certs.find_ssl_context("org"), None);
    assert_eq!(certs.server_name_callback(Some("api.example.com")), Some(&2));
    assert_eq!(certs.server_name_callback(None), None);
}

#[test]
fn wildcard_does_not_serve_bare_domain() {
    let certs = Certificates::new(&vec![config("w.pem", "w.key")], vec![info(&[], &["*.example.com"], 7)]);
    assert_eq!(certs.find_ssl_context("example.com"), None);
    assert_eq!(certs.find_ssl_context("a.example.com"), Some(&7));
}

#[test]
fn names_from_parsed_dedups_and_splits() {
    let some = |s: &str| Some(s.to_string());
    let names = names_from_parsed(
        &vec![some("a.test"), None, some("a.test"), some("b.test")],
        &vec![some("b.test"), None, some("c.test"), some("c.test")],
    );
    assert_eq!(sorted(names.common_names), vec!["a.test".to_string(), "b.test".to_string()]);
    assert_eq!(names.alt_names, vec!["c.test".to_string()]);
}

#[test]
fn alpn_prefers_http2() {
    let both = b"\x08http/1.1\x02h2";
    assert_eq!(prefer_h2(both), Some(&b"h2"[..]));
    let h1 = b"\x06spdy/3\x08http/1.1";
    assert_eq!(prefer_h2(h1), Some(&b"http/1.1"[..]));
    let none = b"\x06spdy/3";
    assert_eq!(prefer_h2(none), None);
    assert_eq!(prefer_h2(b""), None);
}

#[test]
fn ca_certificate_loads_from_pem() {
    let k = key();
    let pem = cert_pem(&["Root CA"], &[], &k);
    let cert = ca_certificate_from_pem(&pem).expect("ca");
    assert_eq!(cert.to_pem().unwrap(), pem);
    assert!(matches!(ca_certificate_from_pem(b"nothing"), Err(CaCertificateError::NoCertificate)));
    let garbage = b"-----BEGIN CERTIFICATE-----\nAAECAwQF\n-----END CERTIFICATE-----\n";
    assert!(matches!(ca_certificate_from_pem(garbage), Err(CaCertificateError::OpenSsl(_))));
}

#[test]
fn client_certificate_and_key_load() {
    let k = key();
    let pem = cert_pem(&["client"], &[], &k);
    let key_pem = k.private_key_to_pem_pkcs8().unwrap();
    let (cert, loaded) = client_cert_key_from_pem(&pem, &key_pem).expect("client");
    assert!(cert.public_key().unwrap().public_eq(&loaded));
    assert!(matches!(client_cert_key_from_pem(b"x", &key_pem), Err(ClientCredentialsError::Certificate(_))));
    assert!(matches!(client_cert_key_from_pem(b"x", b"y"), Err(ClientCredentialsError::Certificate(_))));
    assert!(matches!(client_cert_key_from_pem(&pem, b"x"), Err(ClientCredentialsError::Key(_))));
    assert!(client_certificate_from_pem(&pem).is_ok());
    assert!(client_certificate_from_pem(&key_pem).is_err());
    assert!(client_key_from_pem(&key_pem).is_ok());
    assert!(client_key_from_pem(&pem).is_err());
}

#[test]
fn only_the_first_certificate_of_a_file_names_it() {
    let k = key();
    let first = cert_pem(&["first.test"], &["www.first.test"], &k);
    let second = cert_pem(&["second.test"], &["www.second.test"], &k);
    let mut both = first.clone();
    both.extend_from_slice(&second);
    let alone = certificate_names(&first).expect("names");
    let chained = certificate_names(&both).expect("names");
    assert_eq!(chained.common_names, vec!["first.test".to_string()]);
    assert_eq!(chained.alt_names, vec!["www.first.test".to_string()]);
    assert_eq!(sorted(alone.common_names), sorted(chained.common_names));
    assert_eq!(sorted(alone.alt_names), sorted(chained.alt_names));
}
