use vstd::prelude::*;
use crate::text::str_eq;
use rustls_pemfile::Item;

verus! {

/// What `rustls_pemfile::certs` makes of the contents of a PEM file: the DER bytes of
/// its certificates, in order, or nothing when the file is malformed.
pub uninterp spec fn spec_pem_certs(pem: Seq<u8>) -> Option<Seq<Seq<u8>>>;

/// Calls `rustls_pemfile::certs` on the bytes: the certificates' DER bytes, or `None`
/// when the reader reports an error.
#[verifier::external_body]
fn pem_certs(pem: &[u8]) -> (r: Option<Vec<Vec<u8>>>)
    ensures
        r is Some == spec_pem_certs(pem@) is Some,
        r matches Some(v) ==> v.deep_view() == spec_pem_certs(pem@)->Some_0,
{
    let mut rd: &[u8] = pem;
    rustls_pemfile::certs(&mut rd).ok()
}

/// The certificates of a PEM file, as DER bytes in file order; `None` when the file is
/// malformed.
pub fn load_certs(contents: &[u8]) -> (r: Option<Vec<Vec<u8>>>)
    ensures
        r is Some == spec_pem_certs(contents@) is Some,
        r matches Some(v) ==> v.deep_view() == spec_pem_certs(contents@)->Some_0,
{
    pem_certs(contents)
}

/// What one `rustls_pemfile::read_one` makes of the start of `pem`: nothing when it
/// reports an error, `Some(None)` at the end of the input, and otherwise the kind of
/// the next recognised section (0 a certificate, 1 an RSA key, 2 a PKCS#8 key, 3 an EC
/// key, 4 a revocation list, 5 any other), its DER bytes, and how many bytes of `pem`
/// are left after it.
pub uninterp spec fn spec_pem_next(pem: Seq<u8>) -> Option<Option<(u8, Seq<u8>, nat)>>;

/// Calls `rustls_pemfile::read_one` once on the bytes. A section that it hands back
/// spans at least its begin and end lines, so fewer bytes are left than were given.
#[verifier::external_body]
fn pem_next(pem: &[u8]) -> (r: Option<Option<(u8, Vec<u8>, usize)>>)
    ensures
        match spec_pem_next(pem@) {
            None => r is None,
            Some(None) => r matches Some(None),
            Some(Some((k, d, rest))) => r matches Some(Some((rk, rd, rr))) && rk == k && rd@ == d
                && rr == rest,
        },
        r matches Some(Some((_, _, rest))) ==> rest < pem@.len(),
{
    let mut rd: &[u8] = pem;
    let item = match rustls_pemfile::read_one(&mut rd) {
        Ok(i) => i,
        Err(_) => return None,
    };
    let (k, d) = match item {
        None => return Some(None),
        Some(Item::X509Certificate(d)) => (0, d),
        Some(Item::RSAKey(d)) => (1, d),
        Some(Item::PKCS8Key(d)) => (2, d),
        Some(Item::ECKey(d)) => (3, d),
        Some(Item::Crl(d)) => (4, d),
        Some(_) => (5, Vec::new()),
    };
    Some(Some((k, d, rd.len())))
}

/// The first private key (RSA, PKCS#8 or EC) of a PEM file, read section by section:
/// nothing when a section before it is malformed, `Some(None)` when the file holds
/// no key.
pub open spec fn first_key(pem: Seq<u8>) -> Option<Option<Seq<u8>>>
    decreases pem.len(),
{
    match spec_pem_next(pem) {
        None => None,
        Some(None) => Some(None),
        Some(Some((k, d, rest))) => if 1 <= k <= 3 {
            Some(Some(d))
        } else if rest < pem.len() {
            first_key(pem.subrange(pem.len() - rest, pem.len() as int))
        } else {
            None
        },
    }
}

/// The search for a private key stops at the first section that holds one, whichever
/// of the three kinds it is: an RSA key, a PKCS#8 key or an EC key gives its DER
/// bytes. A certificate, a revocation list or any other section is passed over, and
/// the search goes on after it. The end of the file means there is no key, and a
/// malformed section before a key means there is no answer.
pub proof fn law_first_key_sections(pem: Seq<u8>)
    ensures
        spec_pem_next(pem) matches Some(Some((k, d, rest))) ==> ((k == 1 || k == 2 || k == 3)
            ==> first_key(pem) == Some(Some(d))),
        spec_pem_next(pem) matches Some(Some((k, d, rest))) ==> ((k == 0 || k == 4 || k == 5)
            && rest < pem.len() ==> first_key(pem) == first_key(
            pem.subrange(pem.len() - rest, pem.len() as int),
        )),
        spec_pem_next(pem) == Some(None::<(u8, Seq<u8>, nat)>) ==> first_key(pem) == Some(
            None::<Seq<u8>>,
        ),
        spec_pem_next(pem) is None ==> first_key(pem) is None,
{
}

/// The DER bytes of the first private key of a PEM file: its first RSA, PKCS#8 or EC
/// key section; `None` when the file holds no key or is malformed before one.
pub fn load_private_key(contents: &[u8]) -> (r: Option<Vec<u8>>)
    ensures
        match first_key(contents@) {
            Some(Some(d)) => r matches Some(v) && v@ == d,
            _ => r is None,
        },
        spec_pem_next(contents@) matches Some(Some((k, d, rest))) ==> ((k == 1 || k == 2 || k
            == 3) ==> (r matches Some(v) && v@ == d)),
{
    proof {
        law_first_key_sections(contents@);
    }
    let mut rest: &[u8] = contents;
    loop
        invariant
            first_key(contents@) == first_key(rest@),
        decreases rest@.len(),
    {
        match pem_next(rest) {
            None => {
                return None;
            },
            Some(None) => {
                return None;
            },
            Some(Some((k, d, left))) => {
                if 1 <= k && k <= 3 {
                    return Some(d);
                }
                let len = rest.len();
                let next = vstd::slice::slice_subrange(rest, len - left, len);
                rest = next;
            },
        }
    }
}

/// What `pem::parse` makes of the contents of a PEM file: the tag and the contents of
/// its first block, or nothing when that block is malformed.
pub uninterp spec fn spec_pem_parse(pem: Seq<u8>) -> Option<(Seq<char>, Seq<u8>)>;

/// Calls `pem::parse` on the bytes: the first block's tag (`Pem::tag`) and contents
/// (`Pem::contents`), or `None` when it reports an error.
#[verifier::external_body]
fn pem_parse(pem: &[u8]) -> (r: Option<(String, Vec<u8>)>)
    ensures
        match spec_pem_parse(pem@) {
            None => r is None,
            Some((t, c)) => r matches Some((rt, rc)) && rt@ == t && rc@ == c,
        },
{
    match ::pem::parse(pem) {
        Ok(p) => Some((p.tag().to_string(), p.contents().to_vec())),
        Err(_) => None,
    }
}

/// What one pass over a CA file does when a certificate pool is made from it.
#[derive(Debug, PartialEq, Eq)]
pub enum PoolStep {
    /// The file's first block does not parse: the file is done with.
    Stop,
    /// The first block is a certificate: its contents go into the pool, and the file
    /// is passed over again.
    AddCertificate(Vec<u8>),
    /// The first block is something else: the file is passed over again.
    Skip,
}

/// One pass over the contents of a CA file: it looks at the file's first block only.
pub fn cert_pool_step(contents: &[u8]) -> (r: PoolStep)
    ensures
        match spec_pem_parse(contents@) {
            None => r == PoolStep::Stop,
            Some((t, c)) => if t == "CERTIFICATE"@ {
                r matches PoolStep::AddCertificate(v) && v@ == c
            } else {
                r == PoolStep::Skip
            },
        },
{
    proof {
        reveal_strlit("CERTIFICATE");
    }
    match pem_parse(contents) {
        None => PoolStep::Stop,
        Some((tag, c)) => {
            if str_eq(tag.as_str(), "CERTIFICATE") {
                PoolStep::AddCertificate(c)
            } else {
                PoolStep::Skip
            }
        },
    }
}

} // verus!
