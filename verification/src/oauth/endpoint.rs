//! Addresses of servers: the resource that one stands for, where metadata is
//! looked for, and where a browser is sent to authorize.
use vstd::prelude::*;
use vstd::string::*;
use crate::oauth::challenge::pair_models;
use crate::scan::{fields_of, lemma_without_trailing, trim_trailing, without_trailing};
use crate::text::{decimal, opt_str, opt_text, render_u64, same_text, text2, text3, texts};

verus! {

/// How many characters the names and the fixed values of a request to authorize take
/// at most.
pub const REQUEST_NAME_CHARS: usize = 128;

/// How many characters parameters have, with the two that stand before and in each.
pub open spec fn pairs_len(pairs: Seq<(Seq<char>, Seq<char>)>) -> nat
    decreases pairs.len(),
{
    if pairs.len() == 0 {
        0
    } else {
        pairs_len(pairs.drop_last()) + pairs.last().0.len() + pairs.last().1.len() + 2
    }
}

/// Whether an address still can be indexed by 32 bits once parameters are added to it.
/// A character of a parameter takes up to 12 bytes when it is escaped. One of a host may
/// become 18 others, each of which takes up to 10 bytes in ASCII; 256 are more than that.
pub open spec fn fits_address(address: nat, parameters: nat) -> bool {
    256 * address + 12 * parameters <= u32::MAX
}

/// The parts of an address that matter here.
#[derive(Debug)]
pub struct UrlParts {
    pub scheme: String,
    pub host: Option<String>,
    /// The port, unless it is the default of the scheme.
    pub port: Option<u16>,
    pub path: String,
}

/// What the parts of an address say.
#[verifier::ext_equal]
pub struct UrlModel {
    pub scheme: Seq<char>,
    pub host: Option<Seq<char>>,
    pub port: Option<u16>,
    pub path: Seq<char>,
}

impl View for UrlParts {
    type V = UrlModel;

    open spec fn view(&self) -> UrlModel {
        UrlModel {
            scheme: self.scheme@,
            host: opt_text(self.host),
            port: self.port,
            path: self.path@,
        }
    }
}

/// The scheme, host, port and path of the address that a text spells, or why it
/// spells none.
pub uninterp spec fn url_parts(text: Seq<char>) -> Result<UrlModel, Seq<char>>;

/// Whether an address is one of the web.
pub open spec fn is_web(url: UrlModel) -> bool {
    url.scheme == "http"@ || url.scheme == "https"@
}

/// Whether a text holds no capital letter of ASCII, and nothing that ends a host, a path
/// or a query.
pub open spec fn is_plain_host(text: Seq<char>) -> bool {
    forall|i: int|
        0 <= i < text.len() ==> {
            let c = #[trigger] text[i];
            c != '/' && c != '?' && c != '#' && !('A' <= c && c <= 'Z')
        }
}

/// How long the encoded part of a label of a host may be to be decoded again.
pub const MAX_ENCODED_LABEL: usize = 2000;

/// Whether every label of a host that is encoded in ASCII can be decoded again. No name
/// that can be looked up comes near the limit.
pub open spec fn has_readable_labels(host: Seq<char>) -> bool {
    forall|i: int|
        0 <= i < fields_of(host, '.').len() && "xn--"@.is_prefix_of(
            #[trigger] fields_of(host, '.')[i],
        ) ==> fields_of(host, '.')[i].len() <= 4 + MAX_ENCODED_LABEL
}

/// Whether the parts of an address of the web are as they are written: the host in small
/// letters, no default port, a path from the root without query and fragment. Written out
/// as a resource, they spell the same parts again, but for the slashes at the end, where
/// the labels of the host can be read again.
pub open spec fn is_settled(url: UrlModel) -> bool {
    is_web(url) ==> {
        &&& url.host is Some
        &&& url.host->Some_0.len() > 0
        &&& is_plain_host(url.host->Some_0)
        &&& url.scheme == "http"@ ==> url.port != Some(80u16)
        &&& url.scheme == "https"@ ==> url.port != Some(443u16)
        &&& url.path.len() > 0
        &&& url.path[0] == '/'
        &&& !url.path.contains('?')
        &&& !url.path.contains('#')
        &&& has_readable_labels(url.host->Some_0) ==> url_parts(resource_of(url)) == Ok::<
            UrlModel,
            Seq<char>,
        >(resource_parts(url))
    }
}

/// The parts of the resource that an address of the web stands for.
pub open spec fn resource_parts(url: UrlModel) -> UrlModel {
    UrlModel {
        path: if bare_path(url).len() == 0 {
            "/"@
        } else {
            bare_path(url)
        },
        ..url
    }
}

/// Calls `Url::parse` and reads `scheme`, `host_str`, `port` and `path` off the
/// address; the error is the text of its `ParseError`. All of it depends on the
/// text alone. The parts of an address of the web are in the form that is written out:
/// parsing them again, without query, fragment, user and the slashes at the end, gives
/// the same, unless a label of the host is longer than what is decoded. Nothing more is said of how an address is parsed.
#[verifier::external_body]
pub(crate) fn parse_url(text: &str) -> (parts: Result<UrlParts, String>)
    ensures
        match (parts, url_parts(text@)) {
            (Ok(found), Ok(model)) => found@ == model && is_settled(model),
            (Err(error), Err(reason)) => error@ == reason,
            _ => false,
        },
{
    match reqwest::Url::parse(text) {
        Ok(url) => Ok(
            UrlParts {
                scheme: url.scheme().to_string(),
                host: url.host_str().map(str::to_string),
                port: url.port(),
                path: url.path().to_string(),
            },
        ),
        Err(error) => Err(error.to_string()),
    }
}

/// The address that a text spells with parameters added behind those it has, or
/// why it spells none.
pub uninterp spec fn url_with_pairs(
    text: Seq<char>,
    pairs: Seq<(Seq<char>, Seq<char>)>,
) -> Result<Seq<char>, Seq<char>>;

/// Calls `Url::parse`, adds the pairs in order by `query_pairs_mut` and
/// `extend_pairs`, and writes the address out; the error is the text of its
/// `ParseError`. The result depends on the text and the pairs alone, and fails
/// exactly where the text spells no address. How names and values are encoded is
/// left to the name.
#[verifier::external_body]
pub(crate) fn add_query_pairs(text: &str, pairs: &Vec<(String, String)>) -> (url: Result<
    String,
    String,
>)
    requires
        fits_address(text@.len(), pairs_len(pair_models(pairs@))),
    ensures
        match (url, url_with_pairs(text@, pair_models(pairs@))) {
            (Ok(found), Ok(model)) => found@ == model,
            (Err(error), Err(reason)) => error@ == reason,
            _ => false,
        },
        url is Ok <==> url_parts(text@) is Ok,
        url matches Err(error) ==> (url_parts(text@) matches Err(reason) && reason == error@),
{
    match reqwest::Url::parse(text) {
        Ok(mut url) => {
            url.query_pairs_mut().extend_pairs(pairs);
            Ok(url.to_string())
        },
        Err(error) => Err(error.to_string()),
    }
}

/// Scheme, host and port of an address: `scheme://host` or `scheme://host:port`.
pub open spec fn origin_of(url: UrlModel) -> Seq<char> {
    let host = match url.host {
        Some(named) => named,
        None => Seq::empty(),
    };
    match url.port {
        Some(port) => url.scheme + "://"@ + host + ":"@ + decimal(port as nat),
        None => url.scheme + "://"@ + host,
    }
}

/// The path of an address without slashes at its end.
pub open spec fn bare_path(url: UrlModel) -> Seq<char> {
    without_trailing(url.path, '/')
}

/// Scheme, host and port of an address.
pub fn origin_string(url: &UrlParts) -> (origin: String)
    ensures
        origin@ == origin_of(url@),
{
    let host = match &url.host {
        Some(named) => named.clone(),
        None => String::new(),
    };
    let mut origin = text3(url.scheme.as_str(), "://", host.as_str());
    assert(url.host is None ==> host@ =~= Seq::empty());
    if let Some(port) = url.port {
        origin.append(":");
        origin.append(render_u64(port as u64).as_str());
    }
    origin
}

/// The resource that an address stands for: its origin and path, without query,
/// fragment and trailing slashes.
pub open spec fn resource_of(url: UrlModel) -> Seq<char> {
    origin_of(url) + bare_path(url)
}

/// The resource that an address stands for.
pub fn canonical_of(url: &UrlParts) -> (resource: String)
    ensures
        resource@ == resource_of(url@),
{
    text2(origin_string(url).as_str(), trim_trailing(url.path.as_str(), '/').as_str())
}

/// Whether a resource is bare: it begins with its origin, which holds no capital letter,
/// has neither query nor fragment, and ends in no slash.
pub open spec fn is_bare(resource: Seq<char>, origin: Seq<char>) -> bool {
    &&& origin.is_prefix_of(resource)
    &&& forall|i: int| 0 <= i < origin.len() ==> !('A' <= #[trigger] origin[i] <= 'Z')
    &&& !resource.contains('?')
    &&& !resource.contains('#')
    &&& resource.last() != '/'
}

/// Whether a text is a resource in its one form: it stands for itself.
pub open spec fn is_canonical(resource: Seq<char>) -> bool {
    url_parts(resource) matches Ok(parts) && resource_of(parts) == resource
}

/// The resource that a server's address stands for, or why it is no address. That of an
/// address of the web is bare and, where the labels of its host can be read again, in its
/// one form.
pub fn canonical_resource_uri(url: &str) -> (resource: Result<String, String>)
    ensures
        match (resource, url_parts(url@)) {
            (Ok(found), Ok(parts)) => {
                &&& found@ == resource_of(parts)
                &&& is_settled(parts)
                &&& is_web(parts) ==> is_bare(found@, origin_of(parts))
                &&& is_web(parts) && has_readable_labels(parts.host->Some_0) ==> is_canonical(
                    found@,
                )
            },
            (Err(error), Err(reason)) => error@ == "Invalid server URL '"@ + url@ + "': "@ + reason,
            _ => false,
        },
{
    match parse_url(url) {
        Ok(parts) => {
            proof {
                if is_web(parts@) {
                    law_resource_is_bare(parts@);
                    if has_readable_labels(parts@.host->Some_0) {
                        law_resource_is_canonical(parts@);
                    }
                }
            }
            Ok(canonical_of(&parts))
        },
        Err(reason) => {
            let mut error = text3("Invalid server URL '", url, "': ");
            error.append(reason.as_str());
            Err(error)
        },
    }
}

/// The resource of an address of the web is in its one form: taking its resource again
/// changes nothing.
pub proof fn law_resource_is_canonical(url: UrlModel)
    requires
        is_web(url),
        is_settled(url),
        has_readable_labels(url.host->Some_0),
    ensures
        is_canonical(resource_of(url)),
{
    reveal_strlit("/");
    assert("/"@ =~= seq!['/']);
    let again = resource_parts(url);
    let path = bare_path(url);
    lemma_without_trailing(url.path, '/');
    lemma_without_trailing(path, '/');
    lemma_without_trailing(seq!['/'], '/');
    assert(without_trailing(seq!['/'], '/') =~= Seq::empty());
    assert(bare_path(again) =~= path);
}

/// The resource of an address of the web is bare: scheme and host in small letters, no
/// query, no fragment and no slash at the end.
pub proof fn law_resource_is_bare(url: UrlModel)
    requires
        is_web(url),
        is_settled(url),
    ensures
        is_bare(resource_of(url), origin_of(url)),
{
    let path = bare_path(url);
    let host = url.host->Some_0;
    let origin = origin_of(url);
    lemma_without_trailing(url.path, '/');
    assert(host.last() != '/');
    if let Some(port) = url.port {
        lemma_decimal_digits(port as nat);
        let number = decimal(port as nat);
        let front = url.scheme + "://"@ + host + ":"@;
        assert(origin == front + number);
        assert(origin.last() == number.last());
        assert forall|i: int| 0 <= i < origin.len() implies is_small(#[trigger] origin[i]) by {
            lemma_front_is_small(url.scheme, host, i);
            if i >= front.len() {
                assert(origin[i] == number[i - front.len()]);
            }
        }
    } else {
        assert(origin.last() == host.last());
        assert forall|i: int| 0 <= i < origin.len() implies is_small(#[trigger] origin[i]) by {
            lemma_front_is_small(url.scheme, host, i);
        }
    }
    let resource = resource_of(url);
    assert forall|i: int| 0 <= i < resource.len() implies #[trigger] resource[i] != '?'
        && resource[i] != '#' by {
        if i < origin.len() {
            assert(resource[i] == origin[i]);
            assert(is_small(origin[i]));
        } else {
            let at = i - origin.len();
            assert(resource[i] == path[at]);
            assert(path[at] == url.path[at]);
            assert(url.path.contains(url.path[at]));
        }
    }
    law_resource_has_no_trailing_slash(url);
}

/// Whether a character is no capital letter of ASCII and begins no query or fragment.
spec fn is_small(c: char) -> bool {
    c != '?' && c != '#' && !('A' <= c && c <= 'Z')
}

/// Scheme and host of an address of the web hold no capital letter and begin no query or
/// fragment.
proof fn lemma_front_is_small(scheme: Seq<char>, host: Seq<char>, i: int)
    requires
        scheme == "http"@ || scheme == "https"@,
        is_plain_host(host),
    ensures
        0 <= i < (scheme + "://"@ + host).len() ==> is_small((scheme + "://"@ + host)[i]),
        0 <= i < (scheme + "://"@ + host + ":"@).len() ==> is_small(
            (scheme + "://"@ + host + ":"@)[i],
        ),
{
    reveal_strlit("http");
    reveal_strlit("https");
    reveal_strlit("://");
    reveal_strlit(":");
    assert("http"@ =~= seq!['h', 't', 't', 'p']);
    assert("https"@ =~= seq!['h', 't', 't', 'p', 's']);
    assert("://"@ =~= seq![':', '/', '/']);
    assert(":"@ =~= seq![':']);
    let start = scheme.len() + 3;
    if start <= i < start + host.len() {
        assert((scheme + "://"@ + host)[i] == host[i - start]);
    }
}

/// A number in decimal is a row of digits.
proof fn lemma_decimal_digits(n: nat)
    ensures
        decimal(n).len() > 0,
        forall|i: int|
            0 <= i < decimal(n).len() ==> '0' <= #[trigger] decimal(n)[i] && decimal(n)[i] <= '9',
    decreases n,
{
    if n >= 10 {
        lemma_decimal_digits(n / 10);
    }
}

/// A resource does not end in a slash of its path: what is left of the path is
/// empty or ends in another character.
pub proof fn law_resource_has_no_trailing_slash(url: UrlModel)
    ensures
        bare_path(url).len() > 0 ==> resource_of(url).last() != '/',
        bare_path(url).len() == 0 ==> resource_of(url) == origin_of(url),
{
    lemma_without_trailing(url.path, '/');
    if bare_path(url).len() == 0 {
        assert(resource_of(url) =~= origin_of(url));
    } else {
        assert(resource_of(url).last() == bare_path(url).last());
    }
}

/// Where the metadata of a resource is looked for: first for its path, then for
/// its origin.
pub open spec fn prm_urls(url: UrlModel) -> Seq<Seq<char>> {
    let root = origin_of(url) + "/.well-known/oauth-protected-resource"@;
    if bare_path(url).len() > 0 {
        seq![root + bare_path(url), root]
    } else {
        seq![root]
    }
}

/// Where the metadata of a resource is looked for.
pub fn prm_urls_of(url: &UrlParts) -> (urls: Vec<String>)
    ensures
        texts(urls@) == prm_urls(url@),
{
    let path = trim_trailing(url.path.as_str(), '/');
    let root = text2(origin_string(url).as_str(), "/.well-known/oauth-protected-resource");
    let mut urls: Vec<String> = Vec::new();
    if !path.as_str().is_empty() {
        urls.push(text2(root.as_str(), path.as_str()));
    }
    urls.push(root);
    assert(texts(urls@) =~= prm_urls(url@));
    urls
}

/// Where the metadata of a resource is looked for, in this order; nowhere for what
/// is no address.
pub fn prm_well_known_urls(resource_url: &str) -> (urls: Vec<String>)
    ensures
        texts(urls@) == match url_parts(resource_url@) {
            Ok(parts) => prm_urls(parts),
            Err(_) => Seq::empty(),
        },
{
    match parse_url(resource_url) {
        Ok(parts) => prm_urls_of(&parts),
        Err(_) => {
            let none: Vec<String> = Vec::new();
            assert(texts(none@) =~= Seq::empty());
            none
        },
    }
}

/// Where the metadata of an authorization server is looked for. With a path: for
/// that path by both conventions, then below it. Without one: at the origin.
pub open spec fn server_urls(url: UrlModel) -> Seq<Seq<char>> {
    let origin = origin_of(url);
    let path = bare_path(url);
    if path.len() == 0 {
        seq![
            origin + "/.well-known/oauth-authorization-server"@,
            origin + "/.well-known/openid-configuration"@,
        ]
    } else {
        seq![
            origin + "/.well-known/oauth-authorization-server"@ + path,
            origin + "/.well-known/openid-configuration"@ + path,
            origin + path + "/.well-known/openid-configuration"@,
        ]
    }
}

/// Where the metadata of an authorization server is looked for.
pub fn server_urls_of(url: &UrlParts) -> (urls: Vec<String>)
    ensures
        texts(urls@) == server_urls(url@),
{
    let path = trim_trailing(url.path.as_str(), '/');
    let origin = origin_string(url);
    let mut urls: Vec<String> = Vec::new();
    if path.as_str().is_empty() {
        urls.push(text2(origin.as_str(), "/.well-known/oauth-authorization-server"));
        urls.push(text2(origin.as_str(), "/.well-known/openid-configuration"));
    } else {
        urls.push(
            text3(origin.as_str(), "/.well-known/oauth-authorization-server", path.as_str()),
        );
        urls.push(text3(origin.as_str(), "/.well-known/openid-configuration", path.as_str()));
        urls.push(text3(origin.as_str(), path.as_str(), "/.well-known/openid-configuration"));
    }
    assert(texts(urls@) =~= server_urls(url@));
    urls
}

/// Where the metadata of an authorization server is looked for, in this order;
/// nowhere for what is no address.
pub fn as_metadata_urls(issuer: &str) -> (urls: Vec<String>)
    ensures
        texts(urls@) == match url_parts(issuer@) {
            Ok(parts) => server_urls(parts),
            Err(_) => Seq::empty(),
        },
{
    match parse_url(issuer) {
        Ok(parts) => server_urls_of(&parts),
        Err(_) => {
            let none: Vec<String> = Vec::new();
            assert(texts(none@) =~= Seq::empty());
            none
        },
    }
}

/// Whether a host is this machine.
pub open spec fn is_loopback(host: Option<Seq<char>>) -> bool {
    host == Some("127.0.0.1"@) || host == Some("localhost"@) || host == Some("[::1]"@)
}

/// Whether a host is this machine.
pub fn is_loopback_host(host: &Option<String>) -> (loopback: bool)
    ensures
        loopback == is_loopback(opt_text(*host)),
{
    match host {
        Some(named) => same_text(named.as_str(), "127.0.0.1") || same_text(
            named.as_str(),
            "localhost",
        ) || same_text(named.as_str(), "[::1]"),
        None => false,
    }
}

/// Whether secrets may be sent to an address: over HTTPS, or to this machine.
pub open spec fn is_secure(url: UrlModel) -> bool {
    url.scheme == "https"@ || (url.scheme == "http"@ && is_loopback(url.host))
}

/// Whether secrets may be sent to an address.
pub fn secure_parts(url: &UrlParts) -> (secure: bool)
    ensures
        secure == is_secure(url@),
{
    same_text(url.scheme.as_str(), "https") || (same_text(url.scheme.as_str(), "http")
        && is_loopback_host(&url.host))
}

/// Whether a text spells an address that secrets may be sent to.
pub open spec fn spells_secure(text: Seq<char>) -> bool {
    url_parts(text) matches Ok(parts) && is_secure(parts)
}

/// Whether a text spells an address that secrets may be sent to.
pub fn is_secure_endpoint(url: &str) -> (secure: bool)
    ensures
        secure == spells_secure(url@),
{
    match parse_url(url) {
        Ok(parts) => secure_parts(&parts),
        Err(_) => false,
    }
}

/// The parameters of a request to authorize. They name the resource, the state and
/// the challenge; the scope only where there is one.
pub open spec fn authorize_pairs(
    client_id: Seq<char>,
    redirect_uri: Seq<char>,
    resource: Seq<char>,
    state: Seq<char>,
    code_challenge: Seq<char>,
    scope: Option<Seq<char>>,
) -> Seq<(Seq<char>, Seq<char>)> {
    let bound = seq![
        ("response_type"@, "code"@),
        ("client_id"@, client_id),
        ("redirect_uri"@, redirect_uri),
        ("state"@, state),
        ("code_challenge"@, code_challenge),
        ("code_challenge_method"@, "S256"@),
        ("resource"@, resource),
    ];
    match scope {
        Some(named) => bound.push(("scope"@, named)),
        None => bound,
    }
}

/// Adds a parameter.
pub(crate) fn add_pair(pairs: &mut Vec<(String, String)>, name: &str, value: &str)
    ensures
        pair_models(final(pairs)@) == pair_models(old(pairs)@).push((name@, value@)),
        pairs_len(pair_models(final(pairs)@)) == pairs_len(pair_models(old(pairs)@)) + name@.len()
            + value@.len() + 2,
{
    let ghost before = pair_models(pairs@);
    pairs.push((name.to_owned(), value.to_owned()));
    assert(pair_models(pairs@) =~= before.push((name@, value@)));
    assert(before.push((name@, value@)).drop_last() =~= before);
}

/// How many characters a scope has.
pub open spec fn scope_len(scope: Option<&str>) -> nat {
    match scope {
        Some(named) => named@.len(),
        None => 0,
    }
}

/// The parameters of a request to authorize.
pub fn authorize_query(
    client_id: &str,
    redirect_uri: &str,
    resource: &str,
    state: &str,
    code_challenge: &str,
    scope: Option<&str>,
) -> (pairs: Vec<(String, String)>)
    ensures
        pair_models(pairs@) == authorize_pairs(
            client_id@,
            redirect_uri@,
            resource@,
            state@,
            code_challenge@,
            opt_str(scope),
        ),
        pairs_len(pair_models(pairs@)) <= client_id@.len() + redirect_uri@.len() + resource@.len()
            + state@.len() + code_challenge@.len() + scope_len(scope) + REQUEST_NAME_CHARS,
{
    proof {
        reveal_strlit("response_type");
        reveal_strlit("code");
        reveal_strlit("client_id");
        reveal_strlit("redirect_uri");
        reveal_strlit("state");
        reveal_strlit("code_challenge");
        reveal_strlit("code_challenge_method");
        reveal_strlit("S256");
        reveal_strlit("resource");
        reveal_strlit("scope");
    }
    let mut pairs: Vec<(String, String)> = Vec::new();
    add_pair(&mut pairs, "response_type", "code");
    add_pair(&mut pairs, "client_id", client_id);
    add_pair(&mut pairs, "redirect_uri", redirect_uri);
    add_pair(&mut pairs, "state", state);
    add_pair(&mut pairs, "code_challenge", code_challenge);
    add_pair(&mut pairs, "code_challenge_method", "S256");
    add_pair(&mut pairs, "resource", resource);
    if let Some(named) = scope {
        add_pair(&mut pairs, "scope", named);
    }
    assert(pair_models(pairs@) =~= authorize_pairs(
        client_id@,
        redirect_uri@,
        resource@,
        state@,
        code_challenge@,
        opt_str(scope),
    ));
    pairs
}

/// The address that a browser is sent to, to authorize, or why the endpoint is no
/// address.
pub fn build_authorize_url(
    authorization_endpoint: &str,
    client_id: &str,
    redirect_uri: &str,
    resource: &str,
    state: &str,
    code_challenge: &str,
    scope: Option<&str>,
) -> (url: Result<String, String>)
    requires
        fits_address(
            authorization_endpoint@.len(),
            client_id@.len() + redirect_uri@.len() + resource@.len() + state@.len()
                + code_challenge@.len() + scope_len(scope) + REQUEST_NAME_CHARS as nat,
        ),
    ensures
        match (
            url,
            url_with_pairs(
                authorization_endpoint@,
                authorize_pairs(
                    client_id@,
                    redirect_uri@,
                    resource@,
                    state@,
                    code_challenge@,
                    opt_str(scope),
                ),
            ),
        ) {
            (Ok(found), Ok(model)) => found@ == model,
            (Err(error), Err(reason)) => error@ == "Invalid authorization endpoint: "@ + reason,
            _ => false,
        },
        url is Ok <==> url_parts(authorization_endpoint@) is Ok,
{
    let pairs = authorize_query(client_id, redirect_uri, resource, state, code_challenge, scope);
    match add_query_pairs(authorization_endpoint, &pairs) {
        Ok(url) => Ok(url),
        Err(reason) => Err(text2("Invalid authorization endpoint: ", reason.as_str())),
    }
}

/// Every request to authorize names the resource, the state and the challenge that
/// it was made with.
pub proof fn law_authorize_request_is_bound(
    client_id: Seq<char>,
    redirect_uri: Seq<char>,
    resource: Seq<char>,
    state: Seq<char>,
    code_challenge: Seq<char>,
    scope: Option<Seq<char>>,
)
    ensures
        ({
            let pairs = authorize_pairs(
                client_id,
                redirect_uri,
                resource,
                state,
                code_challenge,
                scope,
            );
            &&& pairs.contains(("resource"@, resource))
            &&& pairs.contains(("state"@, state))
            &&& pairs.contains(("code_challenge"@, code_challenge))
            &&& pairs.contains(("code_challenge_method"@, "S256"@))
            &&& pairs.len() == 7 + if scope is Some {
                1int
            } else {
                0
            }
        }),
{
    let pairs = authorize_pairs(client_id, redirect_uri, resource, state, code_challenge, scope);
    assert(pairs[3] == ("state"@, state));
    assert(pairs[4] == ("code_challenge"@, code_challenge));
    assert(pairs[5] == ("code_challenge_method"@, "S256"@));
    assert(pairs[6] == ("resource"@, resource));
}

/// A request to authorize asks for a code, says who asks and where to return to, and names
/// the scope where one is given.
pub proof fn law_authorize_request_says_who_asks(
    client_id: Seq<char>,
    redirect_uri: Seq<char>,
    resource: Seq<char>,
    state: Seq<char>,
    code_challenge: Seq<char>,
    scope: Option<Seq<char>>,
)
    ensures
        ({
            let pairs = authorize_pairs(
                client_id,
                redirect_uri,
                resource,
                state,
                code_challenge,
                scope,
            );
            &&& pairs.contains(("response_type"@, "code"@))
            &&& pairs.contains(("client_id"@, client_id))
            &&& pairs.contains(("redirect_uri"@, redirect_uri))
            &&& scope matches Some(named) ==> pairs.contains(("scope"@, named))
        }),
{
    let pairs = authorize_pairs(client_id, redirect_uri, resource, state, code_challenge, scope);
    assert(pairs[0] == ("response_type"@, "code"@));
    assert(pairs[1] == ("client_id"@, client_id));
    assert(pairs[2] == ("redirect_uri"@, redirect_uri));
    if let Some(named) = scope {
        assert(pairs[7] == ("scope"@, named));
    }
}

/// Secrets go to addresses under https, and under http to this machine only.
pub proof fn law_secrets_go_to_secure_addresses(url: UrlModel)
    ensures
        is_secure(url) ==> url.scheme == "https"@ || url.scheme == "http"@,
        url.scheme == "https"@ ==> is_secure(url),
        url.scheme == "http"@ ==> (is_secure(url) <==> (url.host matches Some(host) && (host
            == "127.0.0.1"@ || host == "localhost"@ || host == "[::1]"@))),
{
    reveal_strlit("http");
    reveal_strlit("https");
    assert("http"@.len() != "https"@.len());
}

/// The origin of an address is its scheme, its host and, where it has one, its port; the
/// resource is that and the path without the slashes at its end.
pub proof fn law_resource_is_made_of_its_parts(url: UrlModel, host: Seq<char>)
    requires
        url.host == Some(host),
    ensures
        url.port is None ==> origin_of(url) == url.scheme + "://"@ + host,
        url.port matches Some(port) ==> origin_of(url) == url.scheme + "://"@ + host + ":"@
            + decimal(port as nat),
        exists|path: Seq<char>, slashes: Seq<char>|
            url.path == #[trigger] (path + slashes) && (forall|i: int|
                0 <= i < slashes.len() ==> #[trigger] slashes[i] == '/') && (path.len() > 0
                ==> path.last() != '/') && resource_of(url) == origin_of(url) + path,
{
    lemma_without_trailing(url.path, '/');
    let path = bare_path(url);
    let slashes = url.path.skip(path.len() as int);
    assert(url.path =~= path + slashes);
    lemma_trailing_is_all(url.path, '/');
    assert forall|i: int| 0 <= i < slashes.len() implies #[trigger] slashes[i] == '/' by {
        assert(slashes[i] == url.path[path.len() + i]);
    }
}

/// All that is taken off the end of a text is the character that is taken off.
proof fn lemma_trailing_is_all(s: Seq<char>, c: char)
    ensures
        forall|i: int| without_trailing(s, c).len() <= i < s.len() ==> #[trigger] s[i] == c,
    decreases s.len(),
{
    if s.len() > 0 && s.last() == c {
        lemma_trailing_is_all(s.drop_last(), c);
        assert forall|i: int| without_trailing(s, c).len() <= i < s.len() implies #[trigger] s[i]
            == c by {
            if i < s.len() - 1 {
                assert(s.drop_last()[i] == s[i]);
            }
        }
    }
}

/// Metadata is looked for at the origin of the address only, under its well-known names:
/// for the path first, and for the resource at the root as well.
pub proof fn law_metadata_is_looked_for_at_the_origin(url: UrlModel)
    ensures
        ({
            let path = bare_path(url);
            let resource = prm_urls(url);
            let server = server_urls(url);
            &&& forall|i: int|
                0 <= i < resource.len() ==> origin_of(url).is_prefix_of(#[trigger] resource[i])
            &&& forall|i: int|
                0 <= i < server.len() ==> origin_of(url).is_prefix_of(#[trigger] server[i])
            &&& resource.last() == origin_of(url) + "/.well-known/oauth-protected-resource"@
            &&& resource[0] == origin_of(url) + "/.well-known/oauth-protected-resource"@ + path
            &&& resource.len() == if path.len() == 0 {
                1int
            } else {
                2
            }
            &&& server[0] == origin_of(url) + "/.well-known/oauth-authorization-server"@ + path
            &&& server[1] == origin_of(url) + "/.well-known/openid-configuration"@ + path
            &&& server.last() == origin_of(url) + path + "/.well-known/openid-configuration"@
            &&& server.len() == if path.len() == 0 {
                2int
            } else {
                3
            }
        }),
{
    let path = bare_path(url);
    let origin = origin_of(url);
    if path.len() == 0 {
        assert(prm_urls(url)[0] =~= origin + "/.well-known/oauth-protected-resource"@ + path);
        assert(server_urls(url)[0] =~= origin + "/.well-known/oauth-authorization-server"@ + path);
        assert(server_urls(url)[1] =~= origin + "/.well-known/openid-configuration"@ + path);
        assert(server_urls(url)[1] =~= origin + path + "/.well-known/openid-configuration"@);
    }
    assert forall|i: int| 0 <= i < server_urls(url).len() implies origin.is_prefix_of(
        #[trigger] server_urls(url)[i],
    ) by {
        assert(origin =~= server_urls(url)[i].subrange(0, origin.len() as int));
    }
    assert forall|i: int| 0 <= i < prm_urls(url).len() implies origin.is_prefix_of(
        #[trigger] prm_urls(url)[i],
    ) by {
        assert(origin =~= prm_urls(url)[i].subrange(0, origin.len() as int));
    }
}

} // verus!
