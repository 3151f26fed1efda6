use vstd::prelude::*;
use crate::order::{TotalOrder, sort_in_place, sorted};
use crate::text::{lex_le, lemma_lex_le_total, lemma_lex_le_trans, str_eq, str_le, trim, trimmed};
use vstd::string::StringExecFns;

verus! {

broadcast use vstd::seq_lib::group_to_multiset_ensures;

#[verifier::external_type_specification]
#[verifier::external_body]
pub struct ExUrl(url::Url);

/// What the URL parser makes of a string: the URL's serialization, its scheme and
/// its path, or nothing when the string is not a URL.
pub uninterp spec fn spec_url_parse(s: Seq<char>) -> Option<(Seq<char>, Seq<char>, Seq<char>)>;

/// A parsed URL: the parser's value, with the parts of it that the peer logic reads.
pub struct PeerUrl {
    url: url::Url,
    serialization: String,
    scheme: String,
    path: String,
}

impl View for PeerUrl {
    type V = (Seq<char>, Seq<char>, Seq<char>);

    /// The serialization, the scheme and the path.
    closed spec fn view(&self) -> (Seq<char>, Seq<char>, Seq<char>) {
        (self.serialization@, self.scheme@, self.path@)
    }
}

/// The URL as text.
pub open spec fn url_text(v: (Seq<char>, Seq<char>, Seq<char>)) -> Seq<char> {
    v.0
}

pub open spec fn url_scheme(v: (Seq<char>, Seq<char>, Seq<char>)) -> Seq<char> {
    v.1
}

pub open spec fn url_path(v: (Seq<char>, Seq<char>, Seq<char>)) -> Seq<char> {
    v.2
}

/// Calls `url::Url::parse`; on success the result carries the URL with its
/// serialization (`as_str`), `scheme` and `path`, as the parser computed them.
#[verifier::external_body]
pub(crate) fn parse_url(s: &str) -> (r: Option<PeerUrl>)
    ensures
        match spec_url_parse(s@) {
            Some(v) => r matches Some(u) && u@ == v,
            None => r is None,
        },
{
    match url::Url::parse(s) {
        Ok(u) => Some(
            PeerUrl {
                serialization: u.as_str().to_string(),
                scheme: u.scheme().to_string(),
                path: u.path().to_string(),
                url: u,
            },
        ),
        Err(_) => None,
    }
}

/// Calls `url::Url::clone`, which `Url` derives: the copy holds the same fields, so
/// it is the same value.
#[verifier::external_body]
fn clone_url(u: &url::Url) -> (r: url::Url)
    ensures
        r == *u,
{
    u.clone()
}

/// Calls `url::Url::socket_addrs` with no fallback port and reports how many socket
/// addresses the host resolved to, or the error's text. The answer depends on name
/// resolution at the time of the call, so nothing is claimed of it.
#[verifier::external_body]
fn url_socket_addrs(u: &url::Url) -> (r: Result<usize, String>) {
    match u.socket_addrs(|| None) {
        Ok(addrs) => Ok(addrs.len()),
        Err(e) => Err(e.to_string()),
    }
}

/// Resolves the URL's host (`url::Url::socket_addrs`, with no fallback port): how many
/// socket addresses it resolved to, or the error's text. The answer depends on name
/// resolution at the time of the call, so nothing is claimed of it.
pub fn resolve_peer_url(u: &PeerUrl) -> (r: Result<usize, String>) {
    url_socket_addrs(&u.url)
}

/// What `url::Url::set_path` turns the URL with the given view into when handed
/// `path`: the new URL's text.
pub uninterp spec fn spec_url_with_path(
    url: (Seq<char>, Seq<char>, Seq<char>),
    path: Seq<char>,
) -> Seq<char>;

/// Calls `url::Url::set_path` on a copy of the URL and hands back the new URL's text
/// (`as_str`).
#[verifier::external_body]
pub(crate) fn url_with_path(u: &PeerUrl, path: &str) -> (r: String)
    ensures
        r@ == spec_url_with_path(u@, path@),
{
    let mut v = u.url.clone();
    v.set_path(path);
    v.as_str().to_string()
}

impl PeerUrl {
    /// The URL as text.
    pub fn as_str(&self) -> (r: &str)
        ensures
            r@ == url_text(self@),
    {
        self.serialization.as_str()
    }

    pub fn scheme(&self) -> (r: &str)
        ensures
            r@ == url_scheme(self@),
    {
        self.scheme.as_str()
    }

    pub fn path(&self) -> (r: &str)
        ensures
            r@ == url_path(self@),
    {
        self.path.as_str()
    }
}

impl Clone for PeerUrl {
    fn clone(&self) -> (r: Self)
        ensures
            r@ == self@,
    {
        PeerUrl {
            url: clone_url(&self.url),
            serialization: self.serialization.clone(),
            scheme: self.scheme.clone(),
            path: self.path.clone(),
        }
    }
}

/// URLs are ordered as their texts are.
impl TotalOrder for PeerUrl {
    open spec fn le(self, other: Self) -> bool {
        lex_le(url_text(self@), url_text(other@))
    }

    proof fn lemma_total(a: Self, b: Self) {
        lemma_lex_le_total(url_text(a@), url_text(b@));
    }

    proof fn lemma_trans(a: Self, b: Self, c: Self) {
        lemma_lex_le_trans(url_text(a@), url_text(b@), url_text(c@));
    }

    fn is_le(&self, other: &Self) -> (r: bool) {
        str_le(self.serialization.as_str(), other.serialization.as_str())
    }
}

/// A list of peer URLs.
pub struct URLs(Vec<PeerUrl>);

impl View for URLs {
    type V = Seq<(Seq<char>, Seq<char>, Seq<char>)>;

    closed spec fn view(&self) -> Seq<(Seq<char>, Seq<char>, Seq<char>)> {
        self.0@.map_values(|u: PeerUrl| u@)
    }
}

impl Clone for URLs {
    fn clone(&self) -> (r: Self)
        ensures
            r@ == self@,
    {
        let mut v: Vec<PeerUrl> = Vec::new();
        let mut i: usize = 0;
        while i < self.0.len()
            invariant
                i <= self.0@.len(),
                v@.len() == i,
                forall|k: int| 0 <= k < i ==> (#[trigger] v@[k])@ == self.0@[k]@,
            decreases self.0@.len() - i,
        {
            v.push(self.0[i].clone());
            i = i + 1;
        }
        let r = URLs(v);
        assert(r@ =~= self@);
        r
    }
}

/// The texts of the URLs, each followed by a comma.
pub open spec fn joined_texts(s: Seq<(Seq<char>, Seq<char>, Seq<char>)>) -> Seq<char>
    decreases s.len(),
{
    if s.len() == 0 {
        Seq::empty()
    } else {
        joined_texts(s.drop_last()) + url_text(s.last()) + seq![',']
    }
}

impl URLs {
    /// The URLs themselves.
    pub closed spec fn items(&self) -> Seq<PeerUrl> {
        self.0@
    }

    pub fn new(urls: Vec<PeerUrl>) -> (r: URLs)
        ensures
            r.items() == urls@,
    {
        URLs(urls)
    }

    /// The URLs' texts, each followed by a comma.
    #[allow(non_snake_case)]
    pub fn String(&self) -> (r: String)
        ensures
            r@ == joined_texts(self@),
    {
        let mut result = String::new();
        let mut i: usize = 0;
        while i < self.0.len()
            invariant
                i <= self.0@.len(),
                result@ == joined_texts(self@.subrange(0, i as int)),
            decreases self.0@.len() - i,
        {
            result.append(self.0[i].serialization.as_str());
            result.append(",");
            proof {
                assert(self@.subrange(0, i + 1).drop_last() =~= self@.subrange(0, i as int));
                reveal_strlit(",");
            }
            i = i + 1;
        }
        assert(self@.subrange(0, self@.len() as int) =~= self@);
        result
    }

    pub fn len(&self) -> (r: usize)
        ensures
            r == self@.len(),
    {
        self.0.len()
    }

    /// Whether the `i`-th URL comes strictly before the `j`-th one.
    pub fn less(&self, i: usize, j: usize) -> (r: bool)
        requires
            i < self@.len(),
            j < self@.len(),
        ensures
            r == !lex_le(url_text(self@[j as int]), url_text(self@[i as int])),
    {
        !str_le(self.0[j].serialization.as_str(), self.0[i].serialization.as_str())
    }

    /// Exchanges the `i`-th and the `j`-th URL.
    pub fn swap(&mut self, i: usize, j: usize)
        requires
            i < old(self)@.len(),
            j < old(self)@.len(),
        ensures
            final(self)@ == old(self)@.update(i as int, old(self)@[j as int]).update(
                j as int,
                old(self)@[i as int],
            ),
    {
        let a = self.0[i].clone();
        let b = self.0[j].clone();
        self.0.set(i, b);
        self.0.set(j, a);
        assert(self@ =~= old(self)@.update(i as int, old(self)@[j as int]).update(
            j as int,
            old(self)@[i as int],
        ));
    }

    /// The URLs' texts.
    pub fn string_slice(&self) -> (r: Vec<String>)
        ensures
            r@.len() == self@.len(),
            forall|k: int| 0 <= k < r@.len() ==> #[trigger] r@[k]@ == url_text(self@[k]),
    {
        let mut result: Vec<String> = Vec::new();
        let mut i: usize = 0;
        while i < self.0.len()
            invariant
                i <= self.0@.len(),
                result@.len() == i,
                forall|k: int| 0 <= k < i ==> #[trigger] result@[k]@ == url_text(self@[k]),
            decreases self.0@.len() - i,
        {
            result.push(self.0[i].serialization.clone());
            i = i + 1;
        }
        result
    }

    /// Puts the URLs in the order of their texts.
    pub fn sort(&mut self)
        ensures
            sorted(final(self).items()),
            final(self).items().to_multiset() == old(self).items().to_multiset(),
    {
        sort_in_place(&mut self.0);
    }

    /// The `index`-th URL, if there is one.
    pub fn get_url(&self, index: usize) -> (r: Option<PeerUrl>)
        ensures
            index < self@.len() ==> (r matches Some(u) && u@ == self@[index as int]),
            index >= self@.len() ==> r is None,
    {
        if index < self.0.len() {
            Some(self.0[index].clone())
        } else {
            None
        }
    }
}

/// Why a list of peer URLs was refused.
#[derive(Debug, PartialEq, Eq)]
pub enum UrlsError {
    NoUrls,
    BadScheme,
    Resolve(String),
    NotHostPort,
    HasPath,
}

impl UrlsError {
    /// The text that describes the error.
    pub fn message(&self) -> (r: String)
        ensures
            match self {
                UrlsError::NoUrls => r@ == "no valid URLs given"@,
                UrlsError::BadScheme => r@ == "URL scheme must be http, https, unix, or unixs: {}"@,
                UrlsError::Resolve(m) => r@ == m@,
                UrlsError::NotHostPort => r@ == "URL address does not have the form \"host:port\": {}"@,
                UrlsError::HasPath => r@ == "URL must not contain a path"@,
            },
    {
        match self {
            UrlsError::NoUrls => "no valid URLs given".to_string(),
            UrlsError::BadScheme => "URL scheme must be http, https, unix, or unixs: {}".to_string(),
            UrlsError::Resolve(m) => m.clone(),
            UrlsError::NotHostPort => "URL address does not have the form \"host:port\": {}".to_string(),
            UrlsError::HasPath => "URL must not contain a path".to_string(),
        }
    }
}

/// The schemes a peer URL may have.
pub open spec fn allowed_scheme(s: Seq<char>) -> bool {
    s == "http"@ || s == "https"@ || s == "unix"@ || s == "unixs"@
}

/// The URL passed every check: an allowed scheme, a host that resolved to at least one
/// address, and no path.
pub open spec fn url_passed(u: PeerUrl, r: Result<usize, String>) -> bool {
    &&& allowed_scheme(url_scheme(u@))
    &&& match r {
        Ok(c) => c > 0,
        Err(_) => false,
    }
    &&& url_path(u@) == "/"@
}

/// What checking a parsed URL with an allowed scheme comes to, given what resolving its
/// host gave (a count of addresses or an error text): the resolution's error, the
/// host:port error when no address came back, the path error when the URL has a path,
/// and otherwise nothing.
pub open spec fn peer_url_check(
    u: (Seq<char>, Seq<char>, Seq<char>),
    resolved: Result<usize, String>,
) -> Result<(), UrlsError> {
    match resolved {
        Err(m) => Err(UrlsError::Resolve(m)),
        Ok(n) => if n == 0 {
            Err(UrlsError::NotHostPort)
        } else if url_path(u) != "/"@ {
            Err(UrlsError::HasPath)
        } else {
            Ok(())
        },
    }
}

/// Checks a parsed URL against what resolving its host gave: the resolution's error,
/// the host:port error when it gave no address, the path error when the URL has a path,
/// and otherwise `Ok`.
pub fn check_peer_url(u: &PeerUrl, resolved: &Result<usize, String>) -> (r: Result<(), UrlsError>)
    ensures
        r == peer_url_check(u@, *resolved),
{
    match resolved {
        Err(m) => Err(UrlsError::Resolve(m.clone())),
        Ok(n) => {
            if *n == 0 {
                Err(UrlsError::NotHostPort)
            } else if !str_eq(u.path.as_str(), "/") {
                proof {
                    reveal_strlit("/");
                }
                Err(UrlsError::HasPath)
            } else {
                proof {
                    reveal_strlit("/");
                }
                Ok(())
            }
        },
    }
}

/// Checks the URLs from the `i`-th on, given what resolving each host gave (a count
/// of addresses or an error text): the first problem found, if any.
pub open spec fn scan_urls(us: Seq<PeerUrl>, res: Seq<Result<usize, String>>, i: int) -> Option<
    UrlsError,
>
    decreases us.len() - i,
{
    if i < 0 || i >= us.len() {
        None
    } else if !allowed_scheme(url_scheme(us[i]@)) {
        Some(UrlsError::BadScheme)
    } else {
        match peer_url_check(us[i]@, res[i]) {
            Err(e) => Some(e),
            Ok(_) => scan_urls(us, res, i + 1),
        }
    }
}

/// The `k`-th string, trimmed, is a URL with an allowed scheme and no path: checking it
/// goes on to the next string unless resolving its host fails.
pub open spec fn passes_static(strs: Seq<String>, k: int) -> bool {
    &&& spec_url_parse(trimmed(strs[k]@)) is Some
    &&& allowed_scheme(url_scheme(spec_url_parse(trimmed(strs[k]@))->Some_0))
    &&& url_path(spec_url_parse(trimmed(strs[k]@))->Some_0) == "/"@
}

/// Every string before the `k`-th passes the checks that need no resolution.
pub open spec fn prefix_passes(strs: Seq<String>, k: int) -> bool {
    forall|j: int| 0 <= j < k ==> #[trigger] passes_static(strs, j)
}

/// Every string that `new_urls` may reach parses as a URL once trimmed: each one whose
/// predecessors all pass the checks that need no resolution.
pub open spec fn parse_until_refused(strs: Seq<String>) -> bool {
    forall|k: int|
        0 <= k < strs.len() && #[trigger] prefix_passes(strs, k) ==> spec_url_parse(
            trimmed(strs[k]@),
        ) is Some
}

/// The outcome of `new_urls` on `n` strings, of which the first ones parsed as `us`,
/// given what resolving each of those hosts gave.
pub open spec fn new_urls_outcome(
    n: nat,
    us: Seq<PeerUrl>,
    res: Seq<Result<usize, String>>,
    r: Result<URLs, UrlsError>,
) -> bool {
    if n == 0 {
        r == Err::<URLs, UrlsError>(UrlsError::NoUrls)
    } else {
        match scan_urls(us, res, 0) {
            Some(e) => r == Err::<URLs, UrlsError>(e),
            None => us.len() == n && (r matches Ok(v) && sorted(v.items())
                && v.items().to_multiset() == us.to_multiset()),
        }
    }
}

/// `us` are the URLs that the first strings parse to once trimmed, `res` what resolving
/// each of their hosts gave, and `r` is what `new_urls` answers after them.
pub open spec fn new_urls_run(
    strs: Seq<String>,
    us: Seq<PeerUrl>,
    res: Seq<Result<usize, String>>,
    r: Result<URLs, UrlsError>,
) -> bool {
    &&& us.len() <= strs.len()
    &&& res.len() == us.len()
    &&& forall|k: int|
        0 <= k < us.len() ==> (#[trigger] us[k])@ == spec_url_parse(trimmed(strs[k]@))->Some_0
    &&& new_urls_outcome(strs.len(), us, res, r)
}

proof fn lemma_scan_prefix(us: Seq<PeerUrl>, res: Seq<Result<usize, String>>, i: int)
    requires
        0 <= i <= us.len(),
        forall|k: int| 0 <= k < i ==> url_passed(#[trigger] us[k], res[k]),
    ensures
        scan_urls(us, res, 0) == scan_urls(us, res, i),
    decreases i,
{
    if i > 0 {
        lemma_scan_prefix(us, res, i - 1);
        assert(url_passed(us[i - 1], res[i - 1]));
    }
}

/// Parses peer URLs: each string is trimmed and parsed, and must have one of the
/// schemes `http`, `https`, `unix` or `unixs`, a host that resolves to at least one
/// address, and no path. The URLs come back in the order of their texts. Every string
/// that the checks reach must be a URL. Hosts are resolved with `resolve`, once for
/// each URL whose scheme passes, in order (`resolve_peer_url` asks the system's
/// resolver); `res` holds its answers for those URLs.
pub fn new_urls<F: Fn(&PeerUrl) -> Result<usize, String>>(strs: Vec<String>, resolve: F) -> (r:
    Result<URLs, UrlsError>)
    requires
        parse_until_refused(strs@),
        forall|u: &PeerUrl| #[trigger] call_requires(resolve, (u,)),
    ensures
        exists|us: Seq<PeerUrl>, res: Seq<Result<usize, String>>|
            {
                &&& new_urls_run(strs@, us, res, r)
                &&& forall|k: int|
                    0 <= k < res.len() && allowed_scheme(url_scheme(us[k]@)) ==> call_ensures(
                        resolve,
                        (&us[k],),
                        #[trigger] res[k],
                    )
            },
{
    let n = strs.len();
    let ghost mut us: Seq<PeerUrl> = Seq::empty();
    let ghost mut res: Seq<Result<usize, String>> = Seq::empty();
    if n == 0 {
        assert(new_urls_run(strs@, us, res, Err(UrlsError::NoUrls)));
        return Err(UrlsError::NoUrls);
    }
    let mut urls: Vec<PeerUrl> = Vec::with_capacity(n);
    let mut i: usize = 0;
    while i < n
        invariant
            n == strs@.len(),
            n > 0,
            i <= n,
            parse_until_refused(strs@),
            us.len() == i,
            res.len() == i,
            urls@ == us,
            forall|k: int|
                0 <= k < i ==> (#[trigger] us[k])@ == spec_url_parse(trimmed(strs@[k]@))->Some_0,
            forall|k: int| 0 <= k < i ==> url_passed(#[trigger] us[k], res[k]),
            forall|k: int| 0 <= k < i ==> call_ensures(resolve, (&us[k],), #[trigger] res[k]),
            forall|u: &PeerUrl| #[trigger] call_requires(resolve, (u,)),
            prefix_passes(strs@, i as int),
        decreases n - i,
    {
        let t = trim(strs[i].as_str());
        let parsed = parse_url(t.as_str());
        proof {
            assert(spec_url_parse(trimmed(strs@[i as int]@)) is Some);
        }
        let u = match parsed {
            Some(u) => u,
            None => {
                return Err(UrlsError::NoUrls);
            },
        };
        let ghost fus = us.push(u);
        let scheme = u.scheme.as_str();
        let ok_scheme = str_eq(scheme, "http") || str_eq(scheme, "https") || str_eq(scheme, "unix")
            || str_eq(scheme, "unixs");
        proof {
            reveal_strlit("http");
            reveal_strlit("https");
            reveal_strlit("unix");
            reveal_strlit("unixs");
        }
        if !ok_scheme {
            proof {
                let fres = res.push(Ok(1));
                assert forall|k: int| 0 <= k < i implies url_passed(#[trigger] fus[k], fres[k]) by {
                    assert(fus[k] == us[k]);
                    assert(fres[k] == res[k]);
                }
                lemma_scan_prefix(fus, fres, i as int);
                assert(new_urls_run(strs@, fus, fres, Err(UrlsError::BadScheme)));
                assert forall|k: int|
                    0 <= k < fres.len() && allowed_scheme(url_scheme(fus[k]@)) implies call_ensures(
                    resolve,
                    (&fus[k],),
                    #[trigger] fres[k],
                ) by {
                    assert(k < i);
                    assert(fus[k] == us[k]);
                    assert(fres[k] == res[k]);
                }
            }
            return Err(UrlsError::BadScheme);
        }
        let addrs = resolve(&u);
        let ghost fres = res.push(addrs);
        proof {
            assert forall|k: int| 0 <= k < i implies url_passed(#[trigger] fus[k], fres[k]) by {
                assert(fus[k] == us[k]);
                assert(fres[k] == res[k]);
            }
            lemma_scan_prefix(fus, fres, i as int);
        }
        match check_peer_url(&u, &addrs) {
            Err(e) => {
                assert(new_urls_run(strs@, fus, fres, Err(e)));
                return Err(e);
            },
            Ok(()) => {},
        }
        proof {
            reveal_strlit("/");
            assert(passes_static(strs@, i as int));
            assert forall|j: int| 0 <= j < i + 1 implies #[trigger] passes_static(strs@, j) by {
                if j < i {
                    assert(prefix_passes(strs@, i as int));
                }
            }
        }
        urls.push(u);
        proof {
            us = fus;
            res = fres;
        }
        i = i + 1;
    }
    proof {
        lemma_scan_prefix(us, res, n as int);
    }
    let mut v = URLs(urls);
    v.sort();
    assert(new_urls_run(strs@, us, res, Ok(v)));
    Ok(v)
}

/// `new_urls` for strings that may not all be URLs: `None` when a string that the
/// checks would reach does not parse once trimmed, and otherwise what `new_urls`
/// answers with the resolver `resolve`.
pub fn try_new_urls<F: Fn(&PeerUrl) -> Result<usize, String>>(strs: Vec<String>, resolve: F) -> (r:
    Option<Result<URLs, UrlsError>>)
    requires
        forall|u: &PeerUrl| #[trigger] call_requires(resolve, (u,)),
    ensures
        r is None <==> !parse_until_refused(strs@),
        r matches Some(x) ==> exists|us: Seq<PeerUrl>, res: Seq<Result<usize, String>>|
            {
                &&& new_urls_run(strs@, us, res, x)
                &&& forall|k: int|
                    0 <= k < res.len() && allowed_scheme(url_scheme(us[k]@)) ==> call_ensures(
                        resolve,
                        (&us[k],),
                        #[trigger] res[k],
                    )
            },
{
    let mut i: usize = 0;
    while i < strs.len()
        invariant
            i <= strs@.len(),
            prefix_passes(strs@, i as int),
            forall|u: &PeerUrl| #[trigger] call_requires(resolve, (u,)),
        decreases strs@.len() - i,
    {
        let t = trim(strs[i].as_str());
        match parse_url(t.as_str()) {
            None => {
                proof {
                    assert(!(0 <= i < strs@.len() && prefix_passes(strs@, i as int) ==> spec_url_parse(
                        trimmed(strs@[i as int]@),
                    ) is Some));
                }
                return None;
            },
            Some(u) => {
                let scheme = u.scheme();
                let ok_scheme = str_eq(scheme, "http") || str_eq(scheme, "https") || str_eq(
                    scheme,
                    "unix",
                ) || str_eq(scheme, "unixs");
                let ok_path = str_eq(u.path(), "/");
                proof {
                    reveal_strlit("http");
                    reveal_strlit("https");
                    reveal_strlit("unix");
                    reveal_strlit("unixs");
                    reveal_strlit("/");
                }
                if !(ok_scheme && ok_path) {
                    proof {
                        assert(!passes_static(strs@, i as int));
                        assert forall|k: int|
                            0 <= k < strs@.len() && #[trigger] prefix_passes(strs@, k) implies spec_url_parse(
                            trimmed(strs@[k]@),
                        ) is Some by {
                            if k > i {
                                assert(passes_static(strs@, i as int));
                            } else if k < i {
                                assert(passes_static(strs@, k));
                            }
                        }
                    }
                    return Some(new_urls(strs, resolve));
                }
                proof {
                    assert(passes_static(strs@, i as int));
                    assert forall|j: int| 0 <= j < i + 1 implies #[trigger] passes_static(
                        strs@,
                        j,
                    ) by {
                        if j < i {
                            assert(prefix_passes(strs@, i as int));
                        }
                    }
                }
            },
        }
        i = i + 1;
    }
    proof {
        assert forall|k: int|
            0 <= k < strs@.len() && #[trigger] prefix_passes(strs@, k) implies spec_url_parse(
            trimmed(strs@[k]@),
        ) is Some by {
            assert(passes_static(strs@, k));
        }
    }
    Some(new_urls(strs, resolve))
}

} // verus!
