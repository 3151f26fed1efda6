use vstd::prelude::*;
use crate::text::str_eq;

verus! {

/// The cipher suites that rustls supports (`rustls::ALL_CIPHER_SUITES` with the default
/// `tls12` feature), in its order: each suite's name and IANA number.
pub open spec fn rustls_suite_table() -> Seq<(Seq<char>, u16)> {
    seq![
        ("TLS13_AES_256_GCM_SHA384"@, 0x1302u16),
        ("TLS13_AES_128_GCM_SHA256"@, 0x1301u16),
        ("TLS13_CHACHA20_POLY1305_SHA256"@, 0x1303u16),
        ("TLS_ECDHE_ECDSA_WITH_AES_256_GCM_SHA384"@, 0xc02cu16),
        ("TLS_ECDHE_ECDSA_WITH_AES_128_GCM_SHA256"@, 0xc02bu16),
        ("TLS_ECDHE_ECDSA_WITH_CHACHA20_POLY1305_SHA256"@, 0xcca9u16),
        ("TLS_ECDHE_RSA_WITH_AES_256_GCM_SHA384"@, 0xc030u16),
        ("TLS_ECDHE_RSA_WITH_AES_128_GCM_SHA256"@, 0xc02fu16),
        ("TLS_ECDHE_RSA_WITH_CHACHA20_POLY1305_SHA256"@, 0xcca8u16),
    ]
}

/// The names and numbers of a list of suites whose names are all present.
pub open spec fn suite_names(suites: Seq<(Option<String>, u16)>) -> Seq<(Seq<char>, u16)> {
    suites.map_values(|e: (Option<String>, u16)| (e.0->Some_0@, e.1))
}

/// Lists `rustls::ALL_CIPHER_SUITES`, each suite as its name (`CipherSuite::as_str`,
/// present for every suite of the list) and its number (`get_u16`): the nine suites of
/// `rustls_suite_table`, in that order.
#[verifier::external_body]
pub(crate) fn rustls_cipher_suites() -> (r: Vec<(Option<String>, u16)>)
    ensures
        forall|k: int| 0 <= k < r@.len() ==> (#[trigger] r@[k]).0 is Some,
        suite_names(r@) == rustls_suite_table(),
{
    rustls::ALL_CIPHER_SUITES.iter().map(
        |s| (s.suite().as_str().map(|n| n.to_string()), s.suite().get_u16()),
    ).collect()
}

/// The number of the first suite in `suites` named `s`, if any.
pub open spec fn find_suite(s: Seq<char>, suites: Seq<(Seq<char>, u16)>) -> Option<u16>
    decreases suites.len(),
{
    if suites.len() == 0 {
        None
    } else if suites[0].0 == s {
        Some(suites[0].1)
    } else {
        find_suite(s, suites.drop_first())
    }
}

/// The number of the cipher suite named `s`: looked up among `suites` first, then among
/// the two ChaCha20 suites that are also known by a shorter name.
pub open spec fn cipher_suite_number(s: Seq<char>, suites: Seq<(Seq<char>, u16)>) -> Option<u16> {
    match find_suite(s, suites) {
        Some(v) => Some(v),
        None => if s == "TLS_ECDHE_RSA_WITH_CHACHA20_POLY1305"@ {
            Some(0xcca8u16)
        } else if s == "TLS_ECDHE_ECDSA_WITH_CHACHA20_POLY1305"@ {
            Some(0xcca9u16)
        } else {
            None
        },
    }
}

/// Looks up the cipher suite named `s` in the list `suites`, whose suites all have
/// names.
pub fn lookup_cipher_suite(s: &str, suites: &Vec<(Option<String>, u16)>) -> (r: Option<u16>)
    requires
        forall|k: int| 0 <= k < suites@.len() ==> (#[trigger] suites@[k]).0 is Some,
    ensures
        r == cipher_suite_number(s@, suite_names(suites@)),
{
    let n = suites.len();
    let ghost tbl = suite_names(suites@);
    let mut i: usize = 0;
    assert(tbl.subrange(0, n as int) =~= tbl);
    while i < n
        invariant
            n == suites@.len(),
            tbl == suite_names(suites@),
            i <= n,
            forall|k: int| 0 <= k < suites@.len() ==> (#[trigger] suites@[k]).0 is Some,
            find_suite(s@, tbl) == find_suite(s@, tbl.subrange(i as int, n as int)),
        decreases n - i,
    {
        let ghost rest = tbl.subrange(i as int, n as int);
        assert(rest[0] == tbl[i as int]);
        assert(rest.drop_first() =~= tbl.subrange(i + 1, n as int));
        match &suites[i].0 {
            Some(name) => {
                if str_eq(s, name.as_str()) {
                    return Some(suites[i].1);
                }
            },
            None => {},
        }
        i = i + 1;
    }
    proof {
        reveal_strlit("TLS_ECDHE_RSA_WITH_CHACHA20_POLY1305");
        reveal_strlit("TLS_ECDHE_ECDSA_WITH_CHACHA20_POLY1305");
    }
    if str_eq(s, "TLS_ECDHE_RSA_WITH_CHACHA20_POLY1305") {
        Some(0xcca8)
    } else if str_eq(s, "TLS_ECDHE_ECDSA_WITH_CHACHA20_POLY1305") {
        Some(0xcca9)
    } else {
        None
    }
}

/// The number of the cipher suite named `s`, among the suites that rustls supports and
/// the two ChaCha20 suites known by a shorter name.
pub fn get_cipher_suite(s: &str) -> (r: Option<u16>)
    ensures
        r == cipher_suite_number(s@, rustls_suite_table()),
{
    let suites = rustls_cipher_suites();
    lookup_cipher_suite(s, &suites)
}

} // verus!
