use vstd::prelude::*;

use x509_parser::prelude::{FromDer, GeneralName, X509Certificate};

use vstd::string::StringExecFns;

use crate::text::{bytes_equal, ends_with, ends_with_from, texts, utf8};

verus! {

/// Where one site's certificate chain and private key are kept.
#[derive(Debug, Clone)]
pub struct CertificateConfig {
    pub cert_path: String,
    pub key_path: String,
}

/// The bytes of an optional byte vector.
pub open spec fn opt_bytes(v: Option<Vec<u8>>) -> Option<Seq<u8>> {
    match v {
        Some(b) => Some(b@),
        None => None,
    }
}

/// The texts of a sequence of optional strings.
pub open spec fn opt_texts(v: Seq<Option<String>>) -> Seq<Option<Seq<char>>> {
    v.map_values(
        |o: Option<String>|
            match o {
                Some(s) => Some(s@),
                None => None,
            },
    )
}

/// The DER bytes of the first certificate that `rustls_pemfile::read_one`
/// finds in `data`; none when it fails, finds nothing, or first finds
/// another kind of item.
pub uninterp spec fn pem_first_certificate(data: Seq<u8>) -> Option<Seq<u8>>;

/// Reads the first PEM item of `data` with `rustls_pemfile::read_one`.
///
/// Trusted: the result is `pem_first_certificate(data)`, a function of the
/// bytes alone; a decoding error, an empty input and an item that is not a
/// certificate all come back as `None`.
#[verifier::external_body]
fn read_pem_certificate(data: &[u8]) -> (r: Option<Vec<u8>>)
    ensures
        opt_bytes(r) == pem_first_certificate(data@),
{
    match rustls_pemfile::read_one(&mut &data[..]) {
        Ok(Some(rustls_pemfile::Item::X509Certificate(der))) => Some(der.as_ref().to_vec()),
        _ => None,
    }
}

/// What `x509_parser` reads of a DER certificate: none when
/// `X509Certificate::from_der` rejects it; otherwise, in order, each subject
/// common name (its text, or none where `as_str` fails) and each entry of
/// the subject alternative name extension (the text of a DNS name, none for
/// any other kind of name; no entries when the extension is absent or
/// invalid).
pub uninterp spec fn x509_subject_names(der: Seq<u8>) -> Option<(Seq<Option<Seq<char>>>, Seq<Option<Seq<char>>>)>;

/// The texts of the names that [`read_x509_names`] returns.
pub open spec fn names_view(r: Option<(Vec<Option<String>>, Vec<Option<String>>)>) -> Option<(Seq<Option<Seq<char>>>, Seq<Option<Seq<char>>>)> {
    match r {
        Some((cn, dns)) => Some((opt_texts(cn@), opt_texts(dns@))),
        None => None,
    }
}

/// Parses a DER certificate with `x509_parser` and reads its subject
/// common names and its DNS subject alternative names.
///
/// Trusted: the result is `x509_subject_names(der)`, a function of the
/// bytes alone.
#[verifier::external_body]
fn read_x509_names(der: &[u8]) -> (r: Option<(Vec<Option<String>>, Vec<Option<String>>)>)
    ensures
        names_view(r) == x509_subject_names(der@),
{
    let (_, cert) = match X509Certificate::from_der(der) {
        Ok(parsed) => parsed,
        Err(_) => return None,
    };
    let common_names = cert.subject().iter_common_name().map(|a| a.as_str().ok().map(String::from)).collect();
    let alt_names = match cert.subject_alternative_name() {
        Ok(Some(san)) => san.value.general_names.iter().map(|n| match n {
            GeneralName::DNSName(dns) => Some(dns.to_string()),
            _ => None,
        }).collect(),
        _ => Vec::new(),
    };
    Some((common_names, alt_names))
}


/// The texts that occur in `values`.
pub open spec fn present(values: Seq<Option<Seq<char>>>) -> Set<Seq<char>> {
    Set::new(|s: Seq<char>| values.contains(Some(s)))
}

/// No text occurs twice in `v`.
pub open spec fn distinct(v: Seq<Seq<char>>) -> bool {
    forall|i: int, j: int| 0 <= i < j < v.len() ==> v[i] != v[j]
}

proof fn lemma_present_step(values: Seq<Option<Seq<char>>>, i: int)
    requires
        0 <= i < values.len(),
    ensures
        present(values.take(i + 1)) == match values[i] {
            Some(s) => present(values.take(i)).insert(s),
            None => present(values.take(i)),
        },
{
    let before = values.take(i);
    let after = values.take(i + 1);
    assert(after =~= before.push(values[i]));
    let expected = match values[i] {
        Some(s) => present(before).insert(s),
        None => present(before),
    };
    assert forall|s: Seq<char>| present(after).contains(s) <==> expected.contains(s) by {
        if after.contains(Some(s)) {
            let k = choose|k: int| 0 <= k < after.len() && after[k] == Some(s);
            if k < i {
                assert(before[k] == Some(s));
            }
        }
        if before.contains(Some(s)) {
            let k = choose|k: int| 0 <= k < before.len() && before[k] == Some(s);
            assert(after[k] == Some(s));
        }
        if values[i] == Some(s) {
            assert(after[i] == Some(s));
        }
    }
    assert(present(after) =~= expected);
}

proof fn lemma_texts_push(v: Seq<String>, s: String)
    ensures
        texts(v.push(s)) == texts(v).push(s@),
        texts(v.push(s)).to_set() == texts(v).to_set().insert(s@),
{
    assert(texts(v.push(s)) =~= texts(v).push(s@));
    assert forall|t: Seq<char>| texts(v).push(s@).contains(t) <==> texts(v).to_set().insert(s@).contains(t) by {
        if texts(v).push(s@).contains(t) {
            let k = choose|k: int| 0 <= k < texts(v).push(s@).len() && texts(v).push(s@)[k] == t;
            if k < texts(v).len() {
                assert(texts(v)[k] == t);
            }
        }
        if texts(v).contains(t) {
            let k = choose|k: int| 0 <= k < texts(v).len() && texts(v)[k] == t;
            assert(texts(v).push(s@)[k] == t);
        }
        if t == s@ {
            assert(texts(v).push(s@)[texts(v).len() as int] == t);
        }
    }
    assert(texts(v).push(s@).to_set() =~= texts(v).to_set().insert(s@));
}

/// Decides whether the text `s` occurs in `v`.
fn contains_text(v: &Vec<String>, s: &String) -> (r: bool)
    ensures
        r == texts(v@).contains(s@),
{
    let mut i: usize = 0;
    while i < v.len()
        invariant
            i <= v@.len(),
            forall|j: int| 0 <= j < i ==> #[trigger] texts(v@)[j] != s@,
        decreases v@.len() - i,
    {
        if v[i] == *s {
            assert(texts(v@)[i as int] == s@);
            return true;
        }
        i = i + 1;
    }
    false
}

/// The texts that occur in `values` and not in `exclude`, each once, in the
/// order of their first occurrence.
fn distinct_present(values: &Vec<Option<String>>, exclude: &Vec<String>) -> (r: Vec<String>)
    ensures
        distinct(texts(r@)),
        texts(r@).to_set() == present(opt_texts(values@)).difference(texts(exclude@).to_set()),
{
    let ghost all = opt_texts(values@);
    let ghost excluded = texts(exclude@).to_set();
    let mut r: Vec<String> = Vec::new();
    let mut i: usize = 0;
    assert(all.take(0) =~= Seq::empty());
    assert(texts(r@).to_set() =~= present(all.take(0)).difference(excluded));
    while i < values.len()
        invariant
            i <= values@.len(),
            all == opt_texts(values@),
            excluded == texts(exclude@).to_set(),
            distinct(texts(r@)),
            texts(r@).to_set() == present(all.take(i as int)).difference(excluded),
        decreases values@.len() - i,
    {
        proof {
            lemma_present_step(all, i as int);
        }
        match &values[i] {
            Some(s) => {
                if !contains_text(exclude, s) && !contains_text(&r, s) {
                    let ghost before = r@;
                    proof {
                        lemma_texts_push(before, *s);
                    }
                    r.push(s.clone());
                    assert(texts(r@).to_set() =~= present(all.take(i + 1)).difference(excluded));
                } else {
                    assert(texts(r@).to_set() =~= present(all.take(i + 1)).difference(excluded));
                }
            },
            None => {},
        }
        i = i + 1;
    }
    assert(all.take(values@.len() as int) =~= all);
    r
}


/// The names that a certificate is presented for.
#[derive(Debug, Clone)]
pub struct CertificateNames {
    pub common_names: Vec<String>,
    pub alt_names: Vec<String>,
}

impl CertificateNames {
    /// The lists hold, each text once and in no promised order, the subject
    /// common names among `cn`, and the DNS alternative names among `dns`
    /// that are not also common names.
    pub open spec fn lists(
        self,
        cn: Seq<Option<Seq<char>>>,
        dns: Seq<Option<Seq<char>>>,
    ) -> bool {
        &&& distinct(texts(self.common_names@))
        &&& texts(self.common_names@).to_set() == present(cn)
        &&& distinct(texts(self.alt_names@))
        &&& texts(self.alt_names@).to_set() == present(dns).difference(present(cn))
    }
}

/// Why a certificate file yields no names.
#[derive(Debug, Clone, Copy, PartialEq, Eq, Structural)]
pub enum CertificateError {
    /// The file's first PEM item does not decode, or is not a certificate.
    NoCertificate,
    /// The certificate is not a valid X.509 certificate.
    Unparsable,
}

/// Reads the names that the first certificate of a PEM file is presented
/// for: its subject common names, and its DNS alternative names that are
/// not also common names.
pub fn certificate_names(pem: &[u8]) -> (r: Result<CertificateNames, CertificateError>)
    ensures
        r == Err::<CertificateNames, CertificateError>(CertificateError::NoCertificate)
            <==> pem_first_certificate(pem@) is None,
        r == Err::<CertificateNames, CertificateError>(CertificateError::Unparsable) <==> (
        pem_first_certificate(pem@) matches Some(der) && x509_subject_names(der) is None),
        r matches Ok(names) ==> (pem_first_certificate(pem@) matches Some(der)
            && x509_subject_names(der) matches Some(found) && names.lists(found.0, found.1)),
{
    let der = match read_pem_certificate(pem) {
        Some(der) => der,
        None => return Err(CertificateError::NoCertificate),
    };
    let (cn, dns) = match read_x509_names(der.as_slice()) {
        Some(found) => found,
        None => return Err(CertificateError::Unparsable),
    };
    Ok(names_from_parsed(&cn, &dns))
}

/// The names a certificate serves, from what its subject holds: `cn`, its
/// common names, and `dns`, its alternative names (each the text of a name,
/// or none where it is not a text name). Each text is listed once; a DNS
/// name that is also a common name is listed with the common names only.
pub fn names_from_parsed(cn: &Vec<Option<String>>, dns: &Vec<Option<String>>) -> (r: CertificateNames)
    ensures
        r.lists(opt_texts(cn@), opt_texts(dns@)),
{
    let nothing: Vec<String> = Vec::new();
    let common_names = distinct_present(cn, &nothing);
    let alt_names = distinct_present(dns, &common_names);
    assert(texts(nothing@).to_set() =~= Set::empty());
    assert(present(opt_texts(cn@)).difference(Set::empty()) =~= present(opt_texts(cn@)));
    CertificateNames { common_names, alt_names }
}


/// A certificate name that serves `server`: the same name, or a wildcard
/// `*.<suffix>` when `server` ends with `.<suffix>`.
pub open spec fn name_serves(pattern: Seq<u8>, server: Seq<u8>) -> bool {
    ||| pattern == server
    ||| pattern.len() >= 2 && pattern[0] == 42u8 && pattern[1] == 46u8 && ends_with(
        server,
        pattern.subrange(1, pattern.len() as int),
    )
}

/// One of `names` serves `server`.
pub open spec fn some_name_serves(names: Seq<Seq<char>>, server: Seq<u8>) -> bool {
    exists|i: int| 0 <= i < names.len() && name_serves(utf8(#[trigger] names[i]), server)
}

/// A loaded certificate: the names it serves and the TLS context that
/// presents it.
#[derive(Debug)]
pub struct CertificateInfo<C> {
    pub common_names: Vec<String>,
    pub alt_names: Vec<String>,
    pub ssl_context: C,
    pub cert_path: String,
    pub key_path: String,
}

impl<C> CertificateInfo<C> {
    /// The certificate at `cert_path`, presented with `ssl_context`.
    pub fn new(names: CertificateNames, ssl_context: C, cert_path: &str, key_path: &str) -> (r: Self)
        ensures
            r.common_names == names.common_names,
            r.alt_names == names.alt_names,
            r.ssl_context == ssl_context,
            r.cert_path@ == cert_path@,
            r.key_path@ == key_path@,
    {
        CertificateInfo {
            common_names: names.common_names,
            alt_names: names.alt_names,
            ssl_context,
            cert_path: String::from_str(cert_path),
            key_path: String::from_str(key_path),
        }
    }

    /// This certificate serves `server` by one of its common or
    /// alternative names.
    pub open spec fn serves(&self, server: Seq<u8>) -> bool {
        some_name_serves(texts(self.common_names@), server) || some_name_serves(
            texts(self.alt_names@),
            server,
        )
    }
}

/// Decides whether one of `names` serves `server`.
fn any_name_serves(names: &Vec<String>, server: &[u8]) -> (r: bool)
    ensures
        r == some_name_serves(texts(names@), server@),
{
    let mut i: usize = 0;
    while i < names.len()
        invariant
            i <= names@.len(),
            forall|j: int| 0 <= j < i ==> !name_serves(utf8(#[trigger] texts(names@)[j]), server@),
        decreases names@.len() - i,
    {
        let name = names[i].as_str().as_bytes();
        assert(name@ == utf8(texts(names@)[i as int]));
        if bytes_equal(name, server) {
            return true;
        }
        if name.len() >= 2 && name[0] == 42u8 && name[1] == 46u8 && ends_with_from(server, name, 1) {
            return true;
        }
        i = i + 1;
    }
    false
}

/// The certificates that the TLS listener presents, chosen by server name.
#[derive(Debug)]
pub struct Certificates<C> {
    pub configs: Vec<CertificateInfo<C>>,
    pub default_cert_path: String,
    pub default_key_path: String,
}

impl<C> Certificates<C> {
    /// `i` is the first certificate that serves `server`.
    pub open spec fn is_first_match(&self, server: Seq<u8>, i: int) -> bool {
        &&& 0 <= i < self.configs@.len()
        &&& self.configs@[i].serves(server)
        &&& forall|j: int| 0 <= j < i ==> !(#[trigger] self.configs@[j]).serves(server)
    }

    /// The certificate set for `configs`, given the loaded certificate of
    /// each of them, in the same order. The first configuration's files are
    /// the listener's default certificate. At least one certificate is
    /// required, and each must have loaded.
    pub fn new(configs: &Vec<CertificateConfig>, loaded: Vec<CertificateInfo<C>>) -> (r: Self)
        requires
            configs@.len() > 0,
            loaded@.len() == configs@.len(),
        ensures
            r.default_cert_path == configs@[0].cert_path,
            r.default_key_path == configs@[0].key_path,
            r.configs@ == loaded@,
    {
        Certificates {
            configs: loaded,
            default_cert_path: configs[0].cert_path.clone(),
            default_key_path: configs[0].key_path.clone(),
        }
    }

    /// The TLS context of the first certificate that serves `server_name`,
    /// by one of its names or by a wildcard.
    pub fn find_ssl_context(&self, server_name: &str) -> (r: Option<&C>)
        ensures
            r is None <==> forall|j: int| 0 <= j < self.configs@.len() ==> !(#[trigger] self.configs@[j]).serves(utf8(server_name@)),
            r matches Some(c) ==> exists|i: int| self.is_first_match(utf8(server_name@), i) && *c == self.configs@[i].ssl_context,
    {
        let server = server_name.as_bytes();
        let mut i: usize = 0;
        while i < self.configs.len()
            invariant
                i <= self.configs@.len(),
                server@ == utf8(server_name@),
                forall|j: int| 0 <= j < i ==> !(#[trigger] self.configs@[j]).serves(server@),
            decreases self.configs@.len() - i,
        {
            let config = &self.configs[i];
            if any_name_serves(&config.common_names, server) || any_name_serves(&config.alt_names, server) {
                assert(self.is_first_match(server@, i as int));
                return Some(&config.ssl_context);
            }
            i = i + 1;
        }
        None
    }

    /// The TLS context to switch a connection to, from the server name the
    /// client sent: none when it sent none or no certificate serves it, in
    /// which case the default certificate stays.
    pub fn server_name_callback(&self, server_name: Option<&str>) -> (r: Option<&C>)
        ensures
            server_name is None ==> r is None,
            server_name matches Some(name) ==> (r is None <==> forall|j: int|
                0 <= j < self.configs@.len() ==> !(#[trigger] self.configs@[j]).serves(utf8(name@))),
            r matches Some(c) ==> server_name matches Some(name) && exists|i: int|
                self.is_first_match(utf8(name@), i) && *c == self.configs@[i].ssl_context,
    {
        match server_name {
            Some(name) => self.find_ssl_context(name),
            None => None,
        }
    }
}


/// The protocols of an ALPN wire-format list: each is one length byte
/// followed by that many bytes.
pub open spec fn alpn_protocols(list: Seq<u8>) -> Seq<Seq<u8>>
    decreases list.len(),
{
    if list.len() == 0 {
        Seq::empty()
    } else if 1 + list[0] <= list.len() {
        seq![list.subrange(1, 1 + list[0])] + alpn_protocols(list.subrange(1 + list[0], list.len() as int))
    } else {
        Seq::empty()
    }
}

/// An ALPN list made of whole, non-empty protocol names.
pub open spec fn alpn_well_formed(list: Seq<u8>) -> bool
    decreases list.len(),
{
    list.len() == 0 || (list[0] > 0 && 1 + list[0] <= list.len() && alpn_well_formed(
        list.subrange(1 + list[0], list.len() as int),
    ))
}

/// The first of the `server` protocols that the client also offers.
pub open spec fn alpn_choice(server: Seq<Seq<u8>>, client: Seq<Seq<u8>>) -> Option<Seq<u8>>
    decreases server.len(),
{
    if server.len() == 0 {
        None
    } else if client.contains(server[0]) {
        Some(server[0])
    } else {
        alpn_choice(server.drop_first(), client)
    }
}

/// The bytes of an optional slice.
pub open spec fn opt_slice(s: Option<&[u8]>) -> Option<Seq<u8>> {
    match s {
        Some(b) => Some(b@),
        None => None,
    }
}

/// ALPN selection with `openssl::ssl::select_next_proto`.
///
/// Trusted, as the crate documents it: of two well-formed lists, the first
/// protocol of `server` that `client` also lists is chosen, and none when
/// they share none. Nothing is promised of malformed lists, whose handling
/// differs between OpenSSL releases. The crate passes each length to
/// OpenSSL as a `c_uint`, so longer lists are left out.
#[verifier::external_body]
fn select_next_proto<'a>(server: &'static [u8], client: &'a [u8]) -> (r: Option<&'a [u8]>)
    requires
        server@.len() <= u32::MAX,
        client@.len() <= u32::MAX,
    ensures
        alpn_well_formed(server@) && alpn_well_formed(client@) ==> opt_slice(r) == alpn_choice(
            alpn_protocols(server@),
            alpn_protocols(client@),
        ),
{
    openssl::ssl::select_next_proto(server, client)
}

/// The protocols the listener offers, by preference: HTTP/2, then
/// HTTP/1.1, in ALPN wire format.
pub const ALPN_H2_HTTP11: [u8; 12] = [2, 104, 50, 8, 104, 116, 116, 112, 47, 49, 46, 49];

/// `h2`, then `http/1.1`.
pub open spec fn preferred_protocols() -> Seq<Seq<u8>> {
    seq![seq![104u8, 50u8], seq![104u8, 116u8, 116u8, 112u8, 47u8, 49u8, 46u8, 49u8]]
}

/// Chooses the application protocol of a TLS connection from the list the
/// client offers: HTTP/2 if it offers it, else HTTP/1.1 if it offers that;
/// none otherwise, and the client falls back to its default.
pub fn prefer_h2<'a>(alpn_in: &'a [u8]) -> (r: Option<&'a [u8]>)
    requires
        alpn_in@.len() <= u32::MAX,
    ensures
        alpn_well_formed(alpn_in@) ==> opt_slice(r) == alpn_choice(
            preferred_protocols(),
            alpn_protocols(alpn_in@),
        ),
{
    let server: &'static [u8; 12] = &ALPN_H2_HTTP11;
    let server = server.as_slice();
    proof {
        assert(server@ =~= seq![2u8, 104, 50, 8, 104, 116, 116, 112, 47, 49, 46, 49]);
        reveal_with_fuel(alpn_well_formed, 3);
        reveal_with_fuel(alpn_protocols, 3);
        assert(server@.subrange(3, 12) =~= seq![8u8, 104, 116, 116, 112, 47, 49, 46, 49]);
        let rest = server@.subrange(3, 12);
        assert(rest.subrange(9, 9) =~= Seq::<u8>::empty());
        assert(alpn_protocols(rest.subrange(9, 9)) =~= Seq::<Seq<u8>>::empty());
        assert(rest.subrange(1, 9) =~= preferred_protocols()[1]);
        assert(alpn_protocols(rest) =~= seq![preferred_protocols()[1]]);
        assert(server@.subrange(1, 3) =~= preferred_protocols()[0]);
        assert(alpn_protocols(server@) =~= preferred_protocols());
    }
    select_next_proto(server, alpn_in)
}


#[verifier::external_type_specification]
#[verifier::external_body]
pub struct ExX509(openssl::x509::X509);

#[verifier::external_type_specification]
#[verifier::external_body]
#[verifier::reject_recursive_types(T)]
pub struct ExPKey<T>(openssl::pkey::PKey<T>);

#[verifier::external_type_specification]
#[verifier::external_body]
pub struct ExPrivate(openssl::pkey::Private);

/// OpenSSL accepts `der` as a DER certificate
/// (`openssl::x509::X509::from_der` succeeds on it).
pub uninterp spec fn openssl_x509_der_accepted(der: Seq<u8>) -> bool;

/// Decodes a DER certificate with `openssl::x509::X509::from_der`.
///
/// Trusted: whether it succeeds is `openssl_x509_der_accepted(der)`, a
/// function of the bytes alone; what the certificate holds is left unsaid.
#[verifier::external_body]
fn openssl_x509_from_der(der: &[u8]) -> (r: Result<openssl::x509::X509, openssl::error::ErrorStack>)
    ensures
        r is Ok <==> openssl_x509_der_accepted(der@),
{
    openssl::x509::X509::from_der(der)
}

/// OpenSSL's PEM reader finds in `pem` a section of a type that it reads as
/// a certificate (such as `CERTIFICATE`); a function of the bytes alone.
pub uninterp spec fn pem_has_certificate_section(pem: Seq<u8>) -> bool;

/// OpenSSL's PEM reader finds in `pem` a section of a type that it reads as
/// a private key (such as `PRIVATE KEY` or `EC PRIVATE KEY`); a function of
/// the bytes alone.
pub uninterp spec fn pem_has_private_key_section(pem: Seq<u8>) -> bool;

/// Decodes a PEM certificate with `openssl::x509::X509::from_pem`.
///
/// Trusted: it succeeds only on input that holds a certificate section,
/// since OpenSSL decodes the section it finds. Whether it succeeds is not
/// stated otherwise: the crate hands OpenSSL no passphrase callback, so for
/// encrypted input OpenSSL may ask for a passphrase on the terminal, and the
/// outcome is not a function of the bytes. The crate copies the input into a
/// memory BIO, which asserts that its length fits in a `c_int`; longer
/// inputs are left out.
#[verifier::external_body]
fn openssl_x509_from_pem(pem: &[u8]) -> (r: Result<openssl::x509::X509, openssl::error::ErrorStack>)
    requires
        pem@.len() <= i32::MAX,
    ensures
        r is Ok ==> pem_has_certificate_section(pem@),
{
    openssl::x509::X509::from_pem(pem)
}

/// Decodes a PEM private key with
/// `openssl::pkey::PKey::private_key_from_pem`.
///
/// Trusted: it succeeds only on input that holds a private key section,
/// since OpenSSL decodes the section it finds. Whether it succeeds is not
/// stated otherwise: the crate hands OpenSSL no passphrase callback, so for
/// an encrypted key OpenSSL may ask for a passphrase on the terminal, and
/// the outcome is not a function of the bytes. The crate copies the input
/// into a memory BIO, which asserts that its length fits in a `c_int`;
/// longer inputs are left out.
#[verifier::external_body]
fn openssl_private_key_from_pem(pem: &[u8]) -> (r: Result<
    openssl::pkey::PKey<openssl::pkey::Private>,
    openssl::error::ErrorStack,
>)
    requires
        pem@.len() <= i32::MAX,
    ensures
        r is Ok ==> pem_has_private_key_section(pem@),
{
    openssl::pkey::PKey::private_key_from_pem(pem)
}

/// Why a CA certificate file does not load.
#[derive(Debug)]
pub enum CaCertificateError {
    /// The file's first PEM item does not decode, or is not a certificate.
    NoCertificate,
    /// OpenSSL refused the certificate.
    OpenSsl(openssl::error::ErrorStack),
}

/// Loads the CA certificate that a PEM file begins with into OpenSSL: the
/// DER bytes of the file's first certificate are handed to OpenSSL.
pub fn ca_certificate_from_pem(pem: &[u8]) -> (r: Result<openssl::x509::X509, CaCertificateError>)
    ensures
        r matches Err(CaCertificateError::NoCertificate) <==> pem_first_certificate(pem@) is None,
        r is Ok <==> (pem_first_certificate(pem@) matches Some(der) && openssl_x509_der_accepted(der)),
{
    match read_pem_certificate(pem) {
        Some(der) => match openssl_x509_from_der(der.as_slice()) {
            Ok(cert) => Ok(cert),
            Err(e) => Err(CaCertificateError::OpenSsl(e)),
        },
        None => Err(CaCertificateError::NoCertificate),
    }
}

/// Loads a client certificate, PEM, into OpenSSL; whether OpenSSL accepts
/// it is OpenSSL's to decide (an encrypted file may need a passphrase).
pub fn client_certificate_from_pem(pem: &[u8]) -> (r: Result<openssl::x509::X509, openssl::error::ErrorStack>)
    requires
        pem@.len() <= i32::MAX,
    ensures
        r is Ok ==> pem_has_certificate_section(pem@),
{
    openssl_x509_from_pem(pem)
}

/// Loads a client private key, PEM, into OpenSSL; whether OpenSSL accepts
/// it is OpenSSL's to decide (an encrypted key may need a passphrase).
pub fn client_key_from_pem(pem: &[u8]) -> (r: Result<
    openssl::pkey::PKey<openssl::pkey::Private>,
    openssl::error::ErrorStack,
>)
    requires
        pem@.len() <= i32::MAX,
    ensures
        r is Ok ==> pem_has_private_key_section(pem@),
{
    openssl_private_key_from_pem(pem)
}

/// Which of a client's credentials OpenSSL refused.
#[derive(Debug)]
pub enum ClientCredentialsError {
    Certificate(openssl::error::ErrorStack),
    Key(openssl::error::ErrorStack),
}

/// Loads a client certificate and its private key, both PEM, into OpenSSL;
/// the certificate is loaded first, the key only once the certificate has
/// loaded, and a certificate that OpenSSL refuses is the error, whatever the
/// key. Whether OpenSSL accepts each is OpenSSL's to decide (an encrypted
/// file may need a passphrase).
pub fn client_cert_key_from_pem(cert_pem: &[u8], key_pem: &[u8]) -> (r: Result<
    (openssl::x509::X509, openssl::pkey::PKey<openssl::pkey::Private>),
    ClientCredentialsError,
>)
    requires
        cert_pem@.len() <= i32::MAX,
        key_pem@.len() <= i32::MAX,
    ensures
        r is Ok ==> pem_has_certificate_section(cert_pem@) && pem_has_private_key_section(
            key_pem@,
        ),
        r matches Err(ClientCredentialsError::Key(_)) ==> pem_has_certificate_section(cert_pem@),
{
    let cert = match client_certificate_from_pem(cert_pem) {
        Ok(cert) => cert,
        Err(e) => return Err(ClientCredentialsError::Certificate(e)),
    };
    let key = match client_key_from_pem(key_pem) {
        Ok(key) => key,
        Err(e) => return Err(ClientCredentialsError::Key(e)),
    };
    Ok((cert, key))
}

} // verus!
