use vstd::prelude::*;
use vstd::string::StringExecFns;
use crate::cipher_suites::{rustls_cipher_suites, rustls_suite_table};

verus! {

/// The TLS settings of a member: certificate and key files for serving and for
/// dialing, the trusted CA file, the checks asked of peers, and the cipher suites
/// allowed, by number.
#[derive(Clone)]
pub struct TLSInfo {
    /// The server certificate; also the client certificate when `client_cert_file` is
    /// empty.
    pub cert_file: String,
    /// The key of `cert_file`.
    pub key_file: String,
    /// The client certificate used to dial peers.
    pub client_cert_file: String,
    /// The key of `client_cert_file`.
    pub client_key_file: String,
    pub trusted_ca_file: String,
    pub client_cert_auth: bool,
    pub crl_file: String,
    pub insecure_skip_verify: bool,
    pub skip_client_san_verify: bool,
    /// The host name that the peer's certificate must match.
    pub server_name: String,
    /// The cipher suites allowed, by IANA number.
    pub cipher_suites: Vec<u16>,
    /// The certificates were generated by this member.
    pub self_cert: bool,
    /// The common name that a client must present.
    pub allowed_cn: String,
    /// The address or host name that a client's certificate must match.
    pub allowed_hostname: String,
    /// The certificate must have an empty common name.
    pub empty_cn: bool,
}

/// The numbers of the cipher suites that rustls supports, in its order.
pub open spec fn all_suite_numbers() -> Seq<u16> {
    rustls_suite_table().map_values(|e: (Seq<char>, u16)| e.1)
}

/// How `TLSInfo::string` writes a flag.
pub open spec fn flag_text(b: bool) -> Seq<char> {
    if b {
        "true"@
    } else {
        "false"@
    }
}

fn flag_string(b: bool) -> (r: &'static str)
    ensures
        r@ == flag_text(b),
{
    proof {
        reveal_strlit("true");
        reveal_strlit("false");
    }
    if b {
        "true"
    } else {
        "false"
    }
}

/// The description of the settings that `TLSInfo::string` gives.
pub open spec fn tls_info_text(i: TLSInfo) -> Seq<char> {
    "cert_file: "@ + i.cert_file@ + ", key_file: "@ + i.key_file@ + ", client_cert_file: "@
        + i.client_cert_file@ + ", client_key_file: "@ + i.client_key_file@
        + ", trusted_ca_file: "@ + i.trusted_ca_file@ + ", client_cert_auth: "@ + flag_text(
        i.client_cert_auth,
    ) + ", CRL_file: "@ + i.crl_file@ + ", insecure_skip_verify: "@ + flag_text(
        i.insecure_skip_verify,
    ) + ", skip_clientSAN_verify: "@ + flag_text(i.skip_client_san_verify) + ", server_name: "@
        + i.server_name@ + ", allowed_cn: "@ + i.allowed_cn@ + ", allowed_hostname: "@
        + i.allowed_hostname@ + ", empty_cn: "@ + flag_text(i.empty_cn) + ", self_check: "@
        + flag_text(i.self_cert)
}

/// Every setting but the certificate files and the self-generated flag as a blank
/// `TLSInfo` has it: no CA file, no checks, all the cipher suites that rustls supports.
pub open spec fn default_checks(i: TLSInfo) -> bool {
    &&& i.trusted_ca_file@ == Seq::<char>::empty()
    &&& !i.client_cert_auth
    &&& i.crl_file@ == Seq::<char>::empty()
    &&& !i.insecure_skip_verify
    &&& !i.skip_client_san_verify
    &&& i.server_name@ == Seq::<char>::empty()
    &&& i.cipher_suites@ == all_suite_numbers()
    &&& i.allowed_cn@ == Seq::<char>::empty()
    &&& i.allowed_hostname@ == Seq::<char>::empty()
    &&& !i.empty_cn
}

/// The settings of a member with no certificate: every file and name empty, every
/// check off, and all the cipher suites that rustls supports allowed.
pub open spec fn is_blank(i: TLSInfo) -> bool {
    &&& i.cert_file@ == Seq::<char>::empty()
    &&& i.key_file@ == Seq::<char>::empty()
    &&& i.client_cert_file@ == Seq::<char>::empty()
    &&& i.client_key_file@ == Seq::<char>::empty()
    &&& !i.self_cert
    &&& default_checks(i)
}

impl TLSInfo {
    /// No certificate, no checks, all the cipher suites that rustls supports.
    pub fn new() -> (r: TLSInfo)
        ensures
            is_blank(r),
    {
        let suites = rustls_cipher_suites();
        let mut numbers: Vec<u16> = Vec::new();
        let n = suites.len();
        let mut i: usize = 0;
        while i < n
            invariant
                n == suites@.len(),
                i <= n,
                numbers@ == suites@.subrange(0, i as int).map_values(
                    |e: (Option<String>, u16)| e.1,
                ),
            decreases n - i,
        {
            numbers.push(suites[i].1);
            assert(suites@.subrange(0, i + 1).map_values(|e: (Option<String>, u16)| e.1)
                =~= suites@.subrange(0, i as int).map_values(|e: (Option<String>, u16)| e.1).push(
                suites@[i as int].1,
            ));
            i = i + 1;
        }
        proof {
            assert(suites@.subrange(0, n as int) =~= suites@);
            assert(numbers@.len() == rustls_suite_table().len());
            assert forall|k: int| 0 <= k < numbers@.len() implies numbers@[k]
                == all_suite_numbers()[k] by {
                assert(rustls_suite_table()[k] == (suites@[k].0->Some_0@, suites@[k].1));
            }
            assert(numbers@ =~= all_suite_numbers());
        }
        TLSInfo {
            cert_file: String::new(),
            key_file: String::new(),
            client_cert_file: String::new(),
            client_key_file: String::new(),
            trusted_ca_file: String::new(),
            client_cert_auth: false,
            crl_file: String::new(),
            insecure_skip_verify: false,
            skip_client_san_verify: false,
            server_name: String::new(),
            cipher_suites: numbers,
            self_cert: false,
            allowed_cn: String::new(),
            allowed_hostname: String::new(),
            empty_cn: false,
        }
    }

    /// The settings of a member that serves and dials with the certificate and key it
    /// generated itself.
    pub fn with_self_cert(cert_file: String, key_file: String) -> (r: TLSInfo)
        ensures
            r.cert_file@ == cert_file@,
            r.key_file@ == key_file@,
            r.client_cert_file@ == cert_file@,
            r.client_key_file@ == key_file@,
            r.self_cert,
            default_checks(r),
    {
        let mut info = TLSInfo::new();
        info.cert_file = cert_file.clone();
        info.key_file = key_file.clone();
        info.client_cert_file = cert_file;
        info.client_key_file = key_file;
        info.self_cert = true;
        info
    }

    /// A description of the settings.
    pub fn string(&self) -> (r: String)
        ensures
            r@ == tls_info_text(*self),
    {
        proof {
            reveal_strlit("cert_file: ");
            reveal_strlit(", key_file: ");
            reveal_strlit(", client_cert_file: ");
            reveal_strlit(", client_key_file: ");
            reveal_strlit(", trusted_ca_file: ");
            reveal_strlit(", client_cert_auth: ");
            reveal_strlit(", CRL_file: ");
            reveal_strlit(", insecure_skip_verify: ");
            reveal_strlit(", skip_clientSAN_verify: ");
            reveal_strlit(", server_name: ");
            reveal_strlit(", allowed_cn: ");
            reveal_strlit(", allowed_hostname: ");
            reveal_strlit(", empty_cn: ");
            reveal_strlit(", self_check: ");
        }
        let mut s = "cert_file: ".to_string();
        s.append(self.cert_file.as_str());
        s.append(", key_file: ");
        s.append(self.key_file.as_str());
        s.append(", client_cert_file: ");
        s.append(self.client_cert_file.as_str());
        s.append(", client_key_file: ");
        s.append(self.client_key_file.as_str());
        s.append(", trusted_ca_file: ");
        s.append(self.trusted_ca_file.as_str());
        s.append(", client_cert_auth: ");
        s.append(flag_string(self.client_cert_auth));
        s.append(", CRL_file: ");
        s.append(self.crl_file.as_str());
        s.append(", insecure_skip_verify: ");
        s.append(flag_string(self.insecure_skip_verify));
        s.append(", skip_clientSAN_verify: ");
        s.append(flag_string(self.skip_client_san_verify));
        s.append(", server_name: ");
        s.append(self.server_name.as_str());
        s.append(", allowed_cn: ");
        s.append(self.allowed_cn.as_str());
        s.append(", allowed_hostname: ");
        s.append(self.allowed_hostname.as_str());
        s.append(", empty_cn: ");
        s.append(flag_string(self.empty_cn));
        s.append(", self_check: ");
        s.append(flag_string(self.self_cert));
        s
    }

    /// No server certificate and no key are set.
    pub fn empty(&self) -> (r: bool)
        ensures
            r == (self.cert_file@.len() == 0 && self.key_file@.len() == 0),
    {
        self.cert_file.as_str().is_empty() && self.key_file.as_str().is_empty()
    }

    pub fn get_key_file(&self) -> (r: String)
        ensures
            r@ == self.key_file@,
    {
        self.key_file.clone()
    }

    pub fn get_cert_file(&self) -> (r: String)
        ensures
            r@ == self.cert_file@,
    {
        self.cert_file.clone()
    }

    /// The file whose certificates a client trusts: the trusted CA file when one is set,
    /// and otherwise the client certificate file.
    pub fn client_trust_file(&self) -> (r: &str)
        ensures
            r@ == (if self.trusted_ca_file@.len() > 0 {
                self.trusted_ca_file@
            } else {
                self.client_cert_file@
            }),
    {
        if !self.trusted_ca_file.as_str().is_empty() {
            self.trusted_ca_file.as_str()
        } else {
            self.client_cert_file.as_str()
        }
    }

    /// The CA files to trust: the trusted CA file, when one is set.
    pub fn cafiles(&self) -> (r: Result<Vec<String>, std::io::Error>)
        ensures
            r matches Ok(v) && v@.map_values(|s: String| s@) == (if self.trusted_ca_file@.len()
                > 0 {
                seq![self.trusted_ca_file@]
            } else {
                Seq::empty()
            }),
    {
        let mut cafiles: Vec<String> = Vec::new();
        if !self.trusted_ca_file.as_str().is_empty() {
            cafiles.push(self.trusted_ca_file.clone());
        }
        assert(cafiles@.map_values(|s: String| s@) =~= (if self.trusted_ca_file@.len() > 0 {
            seq![self.trusted_ca_file@]
        } else {
            Seq::empty()
        }));
        Ok(cafiles)
    }
}

/// Whether a self-signed certificate may be generated with a validity of
/// `self_signed_cert_validity` days: it must be valid for at least one day, else the
/// answer is the error `cannot generate cert`.
pub fn check_self_cert_validity(self_signed_cert_validity: usize) -> (r: Result<(), String>)
    ensures
        self_signed_cert_validity == 0 ==> (r matches Err(m) && m@ == "cannot generate cert"@),
        self_signed_cert_validity > 0 ==> r is Ok,
{
    if self_signed_cert_validity == 0 {
        return Err("cannot generate cert".to_string());
    }
    Ok(())
}

} // verus!
