use vstd::prelude::*;
use vstd::string::StringExecFns;
use vstd::utf8::{valid_utf8, decode_utf8};
use crate::id::ID;
use crate::urls::{joined_texts, spec_url_with_path, url_with_path, PeerUrl, URLs};
use crate::text::{decimal, str_eq, trim_end, trim_end_str, u64_to_decimal};

verus! {

/// Errors that a peer reports in answer to a post.
pub enum CustomError {
    IncompatibleVersion,
    ClusterIDMismatch,
    MemberRemoved,
    Other(String),
}

impl CustomError {
    pub open spec fn spec_message(&self) -> Seq<char> {
        match self {
            CustomError::IncompatibleVersion => "incompatible version"@,
            CustomError::ClusterIDMismatch => "Cluster ID mismatch"@,
            CustomError::MemberRemoved => "the member has been permanently removed from the cluster"@,
            CustomError::Other(m) => "Unhandled error: "@ + m@,
        }
    }

    /// The text that describes the error.
    pub fn message(&self) -> (r: String)
        ensures
            r@ == self.spec_message(),
    {
        match self {
            CustomError::IncompatibleVersion => "incompatible version".to_string(),
            CustomError::ClusterIDMismatch => "Cluster ID mismatch".to_string(),
            CustomError::MemberRemoved => "the member has been permanently removed from the cluster".to_string(),
            CustomError::Other(m) => {
                let mut s = "Unhandled error: ".to_string();
                s.append(m.as_str());
                s
            },
        }
    }
}

/// What `String::from_utf8_lossy` makes of a byte string.
pub uninterp spec fn spec_utf8_lossy(b: Seq<u8>) -> Seq<char>;

/// Calls `String::from_utf8_lossy`; for valid UTF-8 its result is the decoded text.
#[verifier::external_body]
fn utf8_lossy(b: &[u8]) -> (r: String)
    ensures
        r@ == spec_utf8_lossy(b@),
        valid_utf8(b@) ==> r@ == decode_utf8(b@),
{
    String::from_utf8_lossy(b).into_owned()
}

/// How `http::StatusCode` writes the status code `code` through its `Display`: the
/// number, a space and the reason phrase, or `<unknown status code>` in its place.
pub uninterp spec fn spec_status_text(code: u16) -> Seq<char>;

/// Makes the status code `code` with `StatusCode::from_u16`, which takes every code
/// from 100 to 999, and writes it with `to_string`.
#[verifier::external_body]
fn status_text(code: u16) -> (r: String)
    requires
        100 <= code <= 999,
    ensures
        r@ == spec_status_text(code),
{
    match hyper::StatusCode::from_u16(code) {
        Ok(s) => s.to_string(),
        Err(e) => e.to_string(),
    }
}

/// What a post to a peer comes to, given the answer's status code and body and the
/// address posted to: the text of the error, or nothing when the post went through.
pub open spec fn post_response_text(status: u16, body: Seq<u8>, uri: Seq<char>) -> Seq<char> {
    if status == 412 {
        let b = trim_end(spec_utf8_lossy(body));
        if b == "incompatible version"@ || b == "Cluster ID mismatch"@ {
            b
        } else {
            ""@
        }
    } else if status == 403 {
        "the member has been permanently removed from the cluster"@
    } else if status == 204 {
        ""@
    } else {
        "unexpected http status "@ + spec_status_text(status) + " while posting to "@ + uri
    }
}

/// Interprets a peer's answer to a post: a precondition failure names the peer's
/// complaint, a refusal means this member was removed, no content means success, and
/// any other status is unexpected.
pub fn check_post_response(status: u16, body: &[u8], uri: &str, to: ID) -> (r: String)
    requires
        100 <= status <= 999,
    ensures
        r@ == post_response_text(status, body@, uri@),
{
    proof {
        reveal_strlit("incompatible version");
        reveal_strlit("Cluster ID mismatch");
        reveal_strlit("the member has been permanently removed from the cluster");
        reveal_strlit("");
        reveal_strlit("unexpected http status ");
        reveal_strlit(" while posting to ");
    }
    if status == 412 {
        let text = utf8_lossy(body);
        let b = trim_end_str(text.as_str());
        if str_eq(b.as_str(), "incompatible version") || str_eq(b.as_str(), "Cluster ID mismatch") {
            return b;
        }
        return String::new();
    }
    if status == 403 {
        return "the member has been permanently removed from the cluster".to_string();
    }
    if status == 204 {
        return String::new();
    }
    let mut s = "unexpected http status ".to_string();
    s.append(status_text(status).as_str());
    s.append(" while posting to ");
    s.append(uri);
    s
}

/// The part of a version that peers compare: major, minor and patch numbers, and the
/// pre-release and build labels.
#[derive(Debug, Clone)]
pub struct Version {
    pub major: u64,
    pub minor: u64,
    pub patch: u64,
    pub pre: String,
    pub build: String,
}

impl View for Version {
    type V = (u64, u64, u64, Seq<char>, Seq<char>);

    open spec fn view(&self) -> (u64, u64, u64, Seq<char>, Seq<char>) {
        (self.major, self.minor, self.patch, self.pre@, self.build@)
    }
}

/// A version as text, as semver writes it: `major.minor.patch`, then `-pre` when there
/// is a pre-release label and `+build` when there is a build label.
pub open spec fn version_text(v: (u64, u64, u64, Seq<char>, Seq<char>)) -> Seq<char> {
    decimal(v.0 as nat) + "."@ + decimal(v.1 as nat) + "."@ + decimal(v.2 as nat) + (if v.3.len()
        > 0 {
        "-"@ + v.3
    } else {
        Seq::empty()
    }) + (if v.4.len() > 0 {
        "+"@ + v.4
    } else {
        Seq::empty()
    })
}

impl Version {
    /// The version as text.
    pub fn to_string(&self) -> (s: String)
        ensures
            s@ == version_text(self@),
    {
        proof {
            reveal_strlit(".");
            reveal_strlit("-");
            reveal_strlit("+");
        }
        let mut s = u64_to_decimal(self.major);
        s.append(".");
        s.append(u64_to_decimal(self.minor).as_str());
        s.append(".");
        s.append(u64_to_decimal(self.patch).as_str());
        if !self.pre.as_str().is_empty() {
            s.append("-");
            s.append(self.pre.as_str());
        }
        if !self.build.as_str().is_empty() {
            s.append("+");
            s.append(self.build.as_str());
        }
        s
    }
}

/// What `semver::Version::parse` makes of a string: the major, minor and patch numbers
/// and the pre-release and build labels as written, or the text of the parser's error.
pub uninterp spec fn spec_semver_parse(s: Seq<char>) -> Result<
    (u64, u64, u64, Seq<char>, Seq<char>),
    Seq<char>,
>;

/// A parse result seen through the version's view.
pub open spec fn parsed(r: Result<Version, String>) -> Result<
    (u64, u64, u64, Seq<char>, Seq<char>),
    Seq<char>,
> {
    match r {
        Ok(v) => Ok(v@),
        Err(e) => Err(e@),
    }
}

/// Calls `semver::Version::parse`, handing back the parts of the version, or the text
/// of the parser's error.
#[verifier::external_body]
fn parse_version(s: &str) -> (r: Result<Version, String>)
    ensures
        parsed(r) == spec_semver_parse(s@),
{
    match semver::Version::parse(s) {
        Ok(v) => Ok(
            Version {
                major: v.major,
                minor: v.minor,
                patch: v.patch,
                pre: v.pre.as_str().to_string(),
                build: v.build.as_str().to_string(),
            },
        ),
        Err(e) => Err(e.to_string()),
    }
}

/// The version that a peer announces in a header, or `2.0.0` when it sends none.
pub open spec fn announced_version(header: Option<Seq<char>>) -> Seq<char> {
    match header {
        Some(h) => h,
        None => "2.0.0"@,
    }
}

/// The server version of a peer: the value of its `X-Server-Version` header (given
/// here as `header`), parsed, or `2.0.0` when the header is missing.
pub fn server_version(header: Option<&str>) -> (r: Result<Version, String>)
    ensures
        parsed(r) == spec_semver_parse(
            announced_version(
                match header {
                    Some(h) => Some(h@),
                    None => None,
                },
            ),
        ),
{
    match header {
        Some(h) => parse_version(h),
        None => parse_version("2.0.0"),
    }
}

/// The minimal cluster version of a peer: the value of its `X-Min-Cluster-Version`
/// header (given here as `header`), parsed, or `2.0.0` when the header is missing.
pub fn min_cluster_version(header: Option<&str>) -> (r: Result<Version, String>)
    ensures
        parsed(r) == spec_semver_parse(
            announced_version(
                match header {
                    Some(h) => Some(h@),
                    None => None,
                },
            ),
        ),
{
    match header {
        Some(h) => parse_version(h),
        None => parse_version("2.0.0"),
    }
}

/// How two versions compare by their major and minor numbers alone: -1, 0 or 1.
pub open spec fn spec_compare_major_minor(a_major: u64, a_minor: u64, b_major: u64, b_minor: u64) -> i32 {
    if a_major < b_major || (a_major == b_major && a_minor < b_minor) {
        -1i32
    } else if a_major == b_major && a_minor == b_minor {
        0i32
    } else {
        1i32
    }
}

/// Swapping the versions flips the comparison.
pub proof fn law_compare_antisymmetric(a_major: u64, a_minor: u64, b_major: u64, b_minor: u64)
    ensures
        spec_compare_major_minor(a_major, a_minor, b_major, b_minor) == -spec_compare_major_minor(
            b_major,
            b_minor,
            a_major,
            a_minor,
        ),
{
}

/// Compares two versions by their major and minor numbers alone: -1, 0 or 1.
pub fn compare_major_minor_version(a: &Version, b: &Version) -> (r: i32)
    ensures
        r == spec_compare_major_minor(a.major, a.minor, b.major, b.minor),
{
    if a.major < b.major {
        -1
    } else if a.major > b.major {
        1
    } else if a.minor < b.minor {
        -1
    } else if a.minor > b.minor {
        1
    } else {
        0
    }
}

/// The complaint about a peer's version: which side is too old, the peer's name and
/// server version, and the local server version.
pub open spec fn too_low_text(
    side: Seq<char>,
    name: Seq<char>,
    server: (u64, u64, u64, Seq<char>, Seq<char>),
    local: (u64, u64, u64, Seq<char>, Seq<char>),
) -> Seq<char> {
    side + " version is too low: remote["@ + name + "]="@ + version_text(server) + ", local="@
        + version_text(local)
}

/// What checking a peer's versions against the local ones comes to: an error when a
/// local version does not parse, when the peer's server version is below the local
/// minimal cluster version, or when the peer's minimal cluster version is above it
/// (major and minor numbers only); otherwise the local server and minimal cluster
/// versions.
pub open spec fn spec_version_compatibility(
    name: Seq<char>,
    server: (u64, u64, u64, Seq<char>, Seq<char>),
    min_cluster: (u64, u64, u64, Seq<char>, Seq<char>),
    local_version: Seq<char>,
    local_min_cluster_version: Seq<char>,
) -> Result<((u64, u64, u64, Seq<char>, Seq<char>), (u64, u64, u64, Seq<char>, Seq<char>)), Seq<char>> {
    match spec_semver_parse(local_version) {
        Err(e) => Err(e),
        Ok(ls) => match spec_semver_parse(local_min_cluster_version) {
            Err(e) => Err(e),
            Ok(lm) => if spec_compare_major_minor(server.0, server.1, lm.0, lm.1) == -1 {
                Err(too_low_text("remote"@, name, server, ls))
            } else if spec_compare_major_minor(min_cluster.0, min_cluster.1, lm.0, lm.1) == 1 {
                Err(too_low_text("local"@, name, server, ls))
            } else {
                Ok((ls, lm))
            },
        },
    }
}

/// Whether version `a` comes before version `b` by its major and minor numbers.
pub open spec fn older_major_minor(
    a: (u64, u64, u64, Seq<char>, Seq<char>),
    b: (u64, u64, u64, Seq<char>, Seq<char>),
) -> bool {
    a.0 < b.0 || (a.0 == b.0 && a.1 < b.1)
}

/// Once both local versions parse, a peer is accepted exactly when its server version
/// is not older than the local minimal cluster version and its own minimal cluster
/// version is not newer than it (major and minor numbers only); the local server
/// version plays no part in the decision. A peer that is too old is refused with a
/// complaint about the remote side, one that asks for too new a cluster with one
/// about the local side. A local version that does not parse is refused with the
/// parser's error.
pub proof fn law_version_compatibility(
    name: Seq<char>,
    server: (u64, u64, u64, Seq<char>, Seq<char>),
    min_cluster: (u64, u64, u64, Seq<char>, Seq<char>),
    local_version: Seq<char>,
    local_min_cluster_version: Seq<char>,
)
    ensures
        spec_semver_parse(local_version) matches Err(e) ==> spec_version_compatibility(
            name,
            server,
            min_cluster,
            local_version,
            local_min_cluster_version,
        ) == Err::<((u64, u64, u64, Seq<char>, Seq<char>), (u64, u64, u64, Seq<char>, Seq<char>)), Seq<char>>(e),
        spec_semver_parse(local_version) is Ok ==> (spec_semver_parse(local_min_cluster_version) matches Err(e)
            ==> spec_version_compatibility(
            name,
            server,
            min_cluster,
            local_version,
            local_min_cluster_version,
        ) == Err::<((u64, u64, u64, Seq<char>, Seq<char>), (u64, u64, u64, Seq<char>, Seq<char>)), Seq<char>>(e)),
        spec_semver_parse(local_version) matches Ok(ls) ==> (spec_semver_parse(local_min_cluster_version) matches Ok(lm) ==> {
            let r = spec_version_compatibility(
                name,
                server,
                min_cluster,
                local_version,
                local_min_cluster_version,
            );
            &&& (!older_major_minor(server, lm) && !older_major_minor(lm, min_cluster)) ==> r == Ok::<
                ((u64, u64, u64, Seq<char>, Seq<char>), (u64, u64, u64, Seq<char>, Seq<char>)),
                Seq<char>,
            >((ls, lm))
            &&& older_major_minor(server, lm) ==> r == Err::<
                ((u64, u64, u64, Seq<char>, Seq<char>), (u64, u64, u64, Seq<char>, Seq<char>)),
                Seq<char>,
            >(too_low_text("remote"@, name, server, ls))
            &&& (!older_major_minor(server, lm) && older_major_minor(lm, min_cluster)) ==> r == Err::<
                ((u64, u64, u64, Seq<char>, Seq<char>), (u64, u64, u64, Seq<char>, Seq<char>)),
                Seq<char>,
            >(too_low_text("local"@, name, server, ls))
        }),
{
    match spec_semver_parse(local_version) {
        Err(e) => {},
        Ok(ls) => match spec_semver_parse(local_min_cluster_version) {
            Err(e) => {},
            Ok(lm) => {
                let r = spec_version_compatibility(
                    name,
                    server,
                    min_cluster,
                    local_version,
                    local_min_cluster_version,
                );
                if older_major_minor(server, lm) {
                    assert(spec_compare_major_minor(server.0, server.1, lm.0, lm.1) == -1);
                } else {
                    assert(spec_compare_major_minor(server.0, server.1, lm.0, lm.1) != -1);
                    if older_major_minor(lm, min_cluster) {
                        assert(spec_compare_major_minor(min_cluster.0, min_cluster.1, lm.0, lm.1)
                            == 1);
                    } else {
                        assert(spec_compare_major_minor(min_cluster.0, min_cluster.1, lm.0, lm.1)
                            != 1);
                    }
                }
            },
        },
    }
}

/// A compatibility check's result seen through the versions' views.
pub open spec fn compatibility(r: Result<(Version, Version), String>) -> Result<
    ((u64, u64, u64, Seq<char>, Seq<char>), (u64, u64, u64, Seq<char>, Seq<char>)),
    Seq<char>,
> {
    match r {
        Ok((a, b)) => Ok((a@, b@)),
        Err(e) => Err(e@),
    }
}

/// Checks that a peer named `name`, running `server` and requiring `min_cluster`, can
/// talk to this member, which runs `local_version` and requires
/// `local_min_cluster_version`; hands back the local versions parsed.
pub fn check_version_compatibility(
    name: &str,
    server: &Version,
    min_cluster: &Version,
    local_version: &str,
    local_min_cluster_version: &str,
) -> (r: Result<(Version, Version), String>)
    ensures
        compatibility(r) == spec_version_compatibility(
            name@,
            server@,
            min_cluster@,
            local_version@,
            local_min_cluster_version@,
        ),
        spec_semver_parse(local_version@) is Ok ==> (spec_semver_parse(local_min_cluster_version@) matches Ok(lm) ==> (
            r is Ok <==> !older_major_minor(server@, lm) && !older_major_minor(lm, min_cluster@))),
{
    proof {
        law_version_compatibility(
            name@,
            server@,
            min_cluster@,
            local_version@,
            local_min_cluster_version@,
        );
    }
    let local_server = match parse_version(local_version) {
        Ok(v) => v,
        Err(e) => {
            return Err(e);
        },
    };
    let local_min_cluster = match parse_version(local_min_cluster_version) {
        Ok(v) => v,
        Err(e) => {
            return Err(e);
        },
    };
    proof {
        reveal_strlit(" version is too low: remote[");
        reveal_strlit("]=");
        reveal_strlit(", local=");
    }
    if compare_major_minor_version(server, &local_min_cluster) == -1 {
        let mut s = "remote".to_string();
        s.append(" version is too low: remote[");
        s.append(name);
        s.append("]=");
        s.append(server.to_string().as_str());
        s.append(", local=");
        s.append(local_server.to_string().as_str());
        return Err(s);
    }
    if compare_major_minor_version(min_cluster, &local_min_cluster) == 1 {
        let mut s = "local".to_string();
        s.append(" version is too low: remote[");
        s.append(name);
        s.append("]=");
        s.append(server.to_string().as_str());
        s.append(", local=");
        s.append(local_server.to_string().as_str());
        return Err(s);
    }
    Ok((local_server, local_min_cluster))
}

/// A post to a peer, as the library prepares it: the address, the headers in order,
/// and the body.
pub struct PostRequest {
    pub uri: String,
    pub headers: Vec<(String, String)>,
    pub body: Vec<u8>,
}

/// The headers as pairs of texts.
pub open spec fn header_pairs(h: Seq<(String, String)>) -> Seq<(Seq<char>, Seq<char>)> {
    h.map_values(|p: (String, String)| (p.0@, p.1@))
}

/// The header that lists the peer URLs of this member, when it has any.
pub open spec fn peer_urls_headers(urls: Seq<(Seq<char>, Seq<char>, Seq<char>)>) -> Seq<
    (Seq<char>, Seq<char>),
> {
    if urls.len() == 0 {
        Seq::empty()
    } else {
        seq![("X-PeerURLs"@, joined_texts(urls))]
    }
}

/// Adds the `X-PeerURLs` header, the texts of `urls` each followed by a comma, unless
/// there are no URLs.
pub fn set_peer_urls_header(req: PostRequest, urls: &URLs) -> (r: PostRequest)
    ensures
        r.uri == req.uri,
        r.body == req.body,
        header_pairs(r.headers@) == header_pairs(req.headers@) + peer_urls_headers(urls@),
{
    if urls.len() == 0 {
        assert(header_pairs(req.headers@) + peer_urls_headers(urls@) =~= header_pairs(
            req.headers@,
        ));
        return req;
    }
    let mut req = req;
    let ghost h0 = req.headers@;
    req.headers.push(("X-PeerURLs".to_string(), urls.String()));
    assert(header_pairs(req.headers@) =~= header_pairs(h0) + peer_urls_headers(urls@));
    req
}

/// The headers of a post from member `from` of cluster `cid`, which runs
/// `server_version` and requires `min_cluster_version`.
pub open spec fn post_headers(
    ct: Seq<char>,
    from: ID,
    cid: ID,
    server_version: Seq<char>,
    min_cluster_version: Seq<char>,
    urls: Seq<(Seq<char>, Seq<char>, Seq<char>)>,
) -> Seq<(Seq<char>, Seq<char>)> {
    seq![
        ("Content-Type"@, ct),
        ("X-Server-From"@, decimal(from.value() as nat)),
        ("X-Server-Version"@, server_version),
        ("X-Min-Cluster-Version"@, min_cluster_version),
        ("X-Etcd-Cluster-ID"@, decimal(cid.value() as nat)),
    ] + peer_urls_headers(urls)
}

/// Prepares a post of `body` to `path` at the peer URL `u`, with the content type `ct`,
/// the identities of this member and of its cluster, its versions and its peer URLs.
#[allow(non_snake_case)]
pub fn create_POST_request(
    u: &PeerUrl,
    path: &str,
    body: Vec<u8>,
    ct: &str,
    urls: &URLs,
    from: ID,
    cid: ID,
    server_version: &str,
    min_cluster_version: &str,
) -> (r: PostRequest)
    ensures
        r.uri@ == spec_url_with_path(u@, path@),
        r.body@ == body@,
        header_pairs(r.headers@) == post_headers(
            ct@,
            from,
            cid,
            server_version@,
            min_cluster_version@,
            urls@,
        ),
{
    let uri = url_with_path(u, path);
    let mut headers: Vec<(String, String)> = Vec::new();
    headers.push(("Content-Type".to_string(), ct.to_string()));
    headers.push(("X-Server-From".to_string(), from.to_string()));
    headers.push(("X-Server-Version".to_string(), server_version.to_string()));
    headers.push(("X-Min-Cluster-Version".to_string(), min_cluster_version.to_string()));
    headers.push(("X-Etcd-Cluster-ID".to_string(), cid.to_string()));
    let req = PostRequest { uri, headers, body };
    let ghost h0 = req.headers@;
    assert(header_pairs(h0) =~= seq![
        ("Content-Type"@, ct@),
        ("X-Server-From"@, decimal(from.value() as nat)),
        ("X-Server-Version"@, server_version@),
        ("X-Min-Cluster-Version"@, min_cluster_version@),
        ("X-Etcd-Cluster-ID"@, decimal(cid.value() as nat)),
    ]);
    set_peer_urls_header(req, urls)
}

} // verus!
