//! Finding the authorization server of a resource, and registering there.
use vstd::prelude::*;
use vstd::string::*;
use crate::oauth::endpoint::{is_secure_endpoint, spells_secure};
use crate::text::{contains_item, opt_str, opt_text, same_text, text2, text3, texts};

verus! {

/// The metadata of a protected resource.
#[derive(Debug, Clone)]
pub struct ProtectedResourceMetadata {
    pub resource: Option<String>,
    pub authorization_servers: Vec<String>,
    pub scopes_supported: Vec<String>,
}

impl Default for ProtectedResourceMetadata {
    /// Metadata that says nothing.
    fn default() -> (empty: Self)
        ensures
            empty.resource is None,
            empty.authorization_servers@.len() == 0,
            empty.scopes_supported@.len() == 0,
    {
        ProtectedResourceMetadata {
            resource: None,
            authorization_servers: Vec::new(),
            scopes_supported: Vec::new(),
        }
    }
}

/// The authorization server of a resource: the first that it names.
pub fn select_authorization_server(prm: &ProtectedResourceMetadata) -> (server: Option<String>)
    ensures
        opt_text(server) == if prm.authorization_servers@.len() == 0 {
            None
        } else {
            Some(prm.authorization_servers@[0]@)
        },
{
    if prm.authorization_servers.len() == 0 {
        None
    } else {
        Some(prm.authorization_servers[0].clone())
    }
}

/// The metadata of an authorization server.
#[derive(Debug, Clone)]
pub struct AuthServerMetadata {
    pub issuer: String,
    pub authorization_endpoint: String,
    pub token_endpoint: String,
    pub registration_endpoint: Option<String>,
    pub scopes_supported: Vec<String>,
    pub code_challenge_methods_supported: Vec<String>,
    pub grant_types_supported: Vec<String>,
}

impl Default for AuthServerMetadata {
    /// Metadata that says nothing.
    fn default() -> (empty: Self)
        ensures
            empty.issuer@.len() == 0,
            empty.authorization_endpoint@.len() == 0,
            empty.token_endpoint@.len() == 0,
            empty.registration_endpoint is None,
            empty.scopes_supported@.len() == 0,
            empty.code_challenge_methods_supported@.len() == 0,
            empty.grant_types_supported@.len() == 0,
    {
        AuthServerMetadata {
            issuer: String::new(),
            authorization_endpoint: String::new(),
            token_endpoint: String::new(),
            registration_endpoint: None,
            scopes_supported: Vec::new(),
            code_challenge_methods_supported: Vec::new(),
            grant_types_supported: Vec::new(),
        }
    }
}

/// Whether a server takes challenges of the kind that is used here.
pub open spec fn takes_s256(meta: AuthServerMetadata) -> bool {
    texts(meta.code_challenge_methods_supported@).contains("S256"@)
}

/// Whether a server takes challenges of the kind that is used here.
pub fn supports_s256(meta: &AuthServerMetadata) -> (supports: bool)
    ensures
        supports == takes_s256(*meta),
{
    contains_item(&meta.code_challenge_methods_supported, "S256")
}

/// How a document was fetched.
#[derive(Debug)]
pub enum FetchAnswer {
    /// The request failed.
    NotSent(String),
    /// It was refused with this status.
    Refused(String),
    /// Its body could not be read.
    Unreadable(String),
    Body(String),
}

/// Whether this is what an answer holds.
pub open spec fn is_body(url: &str, answer: FetchAnswer, body: Result<String, String>) -> bool {
    match answer {
        FetchAnswer::NotSent(error) => body matches Err(reason) && reason@ == "GET "@ + url@
            + " failed: "@ + error@,
        FetchAnswer::Refused(status) => body matches Err(reason) && reason@ == "GET "@ + url@
            + " returned "@ + status@,
        FetchAnswer::Unreadable(error) => body matches Err(reason) && reason@ == "Reading "@
            + url@ + " failed: "@ + error@,
        FetchAnswer::Body(text) => body == Ok::<String, String>(text),
    }
}

/// The document at an address, or why there is none.
pub fn fetch_json(url: &str, answer: FetchAnswer) -> (body: Result<String, String>)
    ensures
        is_body(url, answer, body),
{
    match answer {
        FetchAnswer::NotSent(error) => {
            let mut reason = text3("GET ", url, " failed: ");
            reason.append(error.as_str());
            Err(reason)
        },
        FetchAnswer::Refused(status) => {
            let mut reason = text3("GET ", url, " returned ");
            reason.append(status.as_str());
            Err(reason)
        },
        FetchAnswer::Unreadable(error) => {
            let mut reason = text3("Reading ", url, " failed: ");
            reason.append(error.as_str());
            Err(reason)
        },
        FetchAnswer::Body(text) => Ok(text),
    }
}

/// What comes after one place was tried.
#[derive(Debug)]
pub enum Discovery<T> {
    /// The metadata that was looked for.
    Found(T),
    /// The next place is tried; why this one did not serve.
    Next(String),
    /// The search is over without metadata.
    Failed(String),
}

/// Whether the search for metadata goes on like this.
pub open spec fn is_discovery(
    tried: Option<Result<ProtectedResourceMetadata, String>>,
    last_error: String,
    next: Discovery<ProtectedResourceMetadata>,
) -> bool {
    match tried {
        Some(Ok(prm)) => next == Discovery::Found(prm),
        Some(Err(error)) => next == Discovery::<ProtectedResourceMetadata>::Next(error),
        None => next matches Discovery::Failed(error) && error@
            == "Protected resource metadata discovery failed: "@ + last_error@,
    }
}

/// Takes up the metadata of a resource at one place, or that no place is left.
/// `last_error` is why the place before did not serve.
pub fn fetch_protected_resource_metadata(
    tried: Option<Result<ProtectedResourceMetadata, String>>,
    last_error: String,
) -> (next: Discovery<ProtectedResourceMetadata>)
    ensures
        is_discovery(tried, last_error, next),
{
    match tried {
        Some(Ok(prm)) => Discovery::Found(prm),
        Some(Err(error)) => Discovery::Next(error),
        None => Discovery::Failed(
            text2("Protected resource metadata discovery failed: ", last_error.as_str()),
        ),
    }
}

/// What a document that is no metadata of a resource is answered with.
pub fn invalid_resource_metadata(error: &str) -> (reason: String)
    ensures
        reason@ == "Invalid protected resource metadata: "@ + error@,
{
    text2("Invalid protected resource metadata: ", error)
}

/// What a document that is no metadata of a server is answered with.
pub fn invalid_server_metadata(error: &str) -> (reason: String)
    ensures
        reason@ == "Invalid authorization server metadata: "@ + error@,
{
    text2("Invalid authorization server metadata: ", error)
}

/// The error before any place was tried.
pub fn no_candidates(of_server: bool) -> (error: String)
    ensures
        error@ == if of_server {
            "no AS metadata candidate URLs"@
        } else {
            "no PRM candidate URLs"@
        },
{
    if of_server {
        "no AS metadata candidate URLs".to_owned()
    } else {
        "no PRM candidate URLs".to_owned()
    }
}

/// What comes after the metadata of a server was looked for at one place. A server
/// that does not take challenges ends the search.
pub open spec fn server_follows(
    issuer: Seq<char>,
    url: Seq<char>,
    tried: Option<Result<AuthServerMetadata, String>>,
    last_error: Seq<char>,
    next: Discovery<AuthServerMetadata>,
) -> bool {
    match tried {
        Some(Ok(meta)) => if meta.authorization_endpoint@.len() == 0 {
            next matches Discovery::Next(error) && error@ == "AS metadata at "@ + url
                + " has no authorization_endpoint"@
        } else if !takes_s256(meta) {
            next matches Discovery::Failed(error) && error@ == "Authorization server "@ + issuer
                + " does not advertise PKCE S256 (code_challenge_methods_supported); refusing to proceed."@
        } else {
            next == Discovery::Found(meta)
        },
        Some(Err(error)) => next == Discovery::<AuthServerMetadata>::Next(error),
        None => next matches Discovery::Failed(error) && error@
            == "Authorization server metadata discovery failed: "@ + last_error,
    }
}

/// Takes up the metadata of a server at one place, or that no place is left.
pub fn fetch_auth_server_metadata(
    issuer: &str,
    url: &str,
    tried: Option<Result<AuthServerMetadata, String>>,
    last_error: String,
) -> (next: Discovery<AuthServerMetadata>)
    ensures
        server_follows(issuer@, url@, tried, last_error@, next),
{
    match tried {
        Some(Ok(meta)) => {
            if meta.authorization_endpoint.as_str().is_empty() {
                Discovery::Next(text3("AS metadata at ", url, " has no authorization_endpoint"))
            } else if !supports_s256(&meta) {
                Discovery::Failed(
                    text3(
                        "Authorization server ",
                        issuer,
                        " does not advertise PKCE S256 (code_challenge_methods_supported); refusing to proceed.",
                    ),
                )
            } else {
                Discovery::Found(meta)
            }
        },
        Some(Err(error)) => Discovery::Next(error),
        None => Discovery::Failed(
            text2("Authorization server metadata discovery failed: ", last_error.as_str()),
        ),
    }
}

/// No authorization is begun at a server that does not take challenges, or that
/// names no place to authorize at.
pub proof fn law_found_server_takes_challenges(
    issuer: Seq<char>,
    url: Seq<char>,
    tried: Option<Result<AuthServerMetadata, String>>,
    last_error: Seq<char>,
    meta: AuthServerMetadata,
)
    requires
        server_follows(issuer, url, tried, last_error, Discovery::Found(meta)),
    ensures
        takes_s256(meta),
        meta.authorization_endpoint@.len() > 0,
        tried == Some(Ok::<AuthServerMetadata, String>(meta)),
{
}

/// The grants that a client registers for: the code always, and the renewal unless
/// the server names its grants and that is not among them.
pub open spec fn grants_for(supported: Seq<Seq<char>>) -> Seq<Seq<char>> {
    if supported.len() == 0 || supported.contains("refresh_token"@) {
        seq!["authorization_code"@, "refresh_token"@]
    } else {
        seq!["authorization_code"@]
    }
}

/// What string slices say.
pub open spec fn str_texts(items: Seq<&'static str>) -> Seq<Seq<char>> {
    items.map_values(|item: &'static str| item@)
}

/// Whether strings hold the given text.
fn slice_contains(items: &[String], text: &str) -> (found: bool)
    ensures
        found == texts(items@).contains(text@),
{
    let mut i: usize = 0;
    while i < items.len()
        invariant
            i <= items@.len(),
            forall|j: int| 0 <= j < i ==> #[trigger] texts(items@)[j] != text@,
        decreases items.len() - i,
    {
        assert(texts(items@)[i as int] == items@[i as int]@);
        if same_text(items[i].as_str(), text) {
            return true;
        }
        i += 1;
    }
    assert(!texts(items@).contains(text@)) by {
        if texts(items@).contains(text@) {
            let at = choose|at: int| 0 <= at < texts(items@).len() && texts(items@)[at] == text@;
            assert(texts(items@)[at] != text@);
        }
    }
    false
}

/// The grants that a client registers for.
pub fn scoped_grant_types(supported: &[String]) -> (grants: Vec<&'static str>)
    ensures
        str_texts(grants@) == grants_for(texts(supported@)),
{
    assert(texts(supported@).len() == supported@.len());
    let mut grants: Vec<&'static str> = Vec::new();
    grants.push("authorization_code");
    if supported.len() == 0 || slice_contains(supported, "refresh_token") {
        grants.push("refresh_token");
    }
    assert(str_texts(grants@) =~= grants_for(texts(supported@)));
    grants
}

/// What a client registers with.
#[derive(Debug)]
pub struct RegistrationRequest {
    pub client_name: String,
    pub redirect_uris: Vec<String>,
    pub grant_types: Vec<&'static str>,
    pub response_types: Vec<&'static str>,
    pub token_endpoint_auth_method: &'static str,
    pub scope: Option<String>,
}

/// A client that is registered.
#[derive(Debug, Clone)]
pub struct ClientCredentials {
    pub client_id: String,
    pub client_secret: Option<String>,
}

/// Whether a client is registered by this request.
pub open spec fn asks_registration(
    registration_endpoint: &str,
    redirect_uri: &str,
    client_name: &str,
    scope: Option<&str>,
    grant_types_supported: &[String],
    request: Result<RegistrationRequest, String>,
) -> bool {
    match request {
        Ok(asked) => {
            &&& spells_secure(registration_endpoint@)
            &&& asked.client_name@ == client_name@
            &&& texts(asked.redirect_uris@) == seq![redirect_uri@]
            &&& str_texts(asked.grant_types@) == grants_for(texts(grant_types_supported@))
            &&& str_texts(asked.response_types@) == seq!["code"@]
            &&& asked.token_endpoint_auth_method@ == "none"@
            &&& opt_text(asked.scope) == opt_str(scope)
        },
        Err(error) => !spells_secure(registration_endpoint@) && error@
            == "Registration endpoint must be HTTPS: "@ + registration_endpoint@,
    }
}

/// What a client registers with: as a public client with one address to come back
/// to. It is sent only to an endpoint that secrets may be sent to.
pub fn register_client(
    registration_endpoint: &str,
    redirect_uri: &str,
    client_name: &str,
    scope: Option<&str>,
    grant_types_supported: &[String],
) -> (request: Result<RegistrationRequest, String>)
    ensures
        asks_registration(
            registration_endpoint,
            redirect_uri,
            client_name,
            scope,
            grant_types_supported,
            request,
        ),
{
    if !is_secure_endpoint(registration_endpoint) {
        return Err(text2("Registration endpoint must be HTTPS: ", registration_endpoint));
    }
    let mut redirect_uris: Vec<String> = Vec::new();
    redirect_uris.push(redirect_uri.to_owned());
    assert(texts(redirect_uris@) =~= seq![redirect_uri@]);
    let mut response_types: Vec<&'static str> = Vec::new();
    response_types.push("code");
    assert(str_texts(response_types@) =~= seq!["code"@]);
    let scope = match scope {
        Some(named) => Some(named.to_owned()),
        None => None,
    };
    Ok(
        RegistrationRequest {
            client_name: client_name.to_owned(),
            redirect_uris,
            grant_types: scoped_grant_types(grant_types_supported),
            response_types,
            token_endpoint_auth_method: "none",
            scope,
        },
    )
}

/// How a registration was answered.
#[derive(Debug)]
pub enum RegistrationAnswer {
    /// It could not be sent.
    NotSent(String),
    /// It was refused, with this status and body.
    Refused { status: String, body: String },
    /// It was accepted; the client as it was read, or why it could not be.
    Accepted { parsed: Result<ClientCredentials, String>, body: String },
}

/// Whether a client is registered like this.
pub open spec fn is_registered(
    answer: RegistrationAnswer,
    client: Result<ClientCredentials, String>,
) -> bool {
    match answer {
        RegistrationAnswer::NotSent(error) => client matches Err(reason) && reason@
            == "Client registration request failed: "@ + error@,
        RegistrationAnswer::Refused { status, body } => client matches Err(reason) && reason@
            == "Client registration returned "@ + status@ + ": "@ + body@,
        RegistrationAnswer::Accepted { parsed: Err(error), body } => client matches Err(reason)
            && reason@ == "Invalid client registration response: "@ + error@ + ": "@ + body@,
        RegistrationAnswer::Accepted { parsed: Ok(read), .. } => client == Ok::<
            ClientCredentials,
            String,
        >(read),
    }
}

/// The client that was registered, or why there is none.
pub fn registered_client(answer: RegistrationAnswer) -> (client: Result<ClientCredentials, String>)
    ensures
        is_registered(answer, client),
{
    match answer {
        RegistrationAnswer::NotSent(error) => Err(
            text2("Client registration request failed: ", error.as_str()),
        ),
        RegistrationAnswer::Refused { status, body } => {
            let mut reason = text3("Client registration returned ", status.as_str(), ": ");
            reason.append(body.as_str());
            Err(reason)
        },
        RegistrationAnswer::Accepted { parsed, body } => match parsed {
            Ok(read) => Ok(read),
            Err(error) => {
                let mut reason = text3(
                    "Invalid client registration response: ",
                    error.as_str(),
                    ": ",
                );
                reason.append(body.as_str());
                Err(reason)
            },
        },
    }
}

/// A client always registers for the code. It registers for renewals too unless the server
/// names its grants and renewal is not among them, and for nothing else.
pub proof fn law_client_registers_for_what_is_offered(supported: Seq<Seq<char>>)
    ensures
        grants_for(supported).contains("authorization_code"@),
        grants_for(supported).contains("refresh_token"@) <==> supported.len() == 0
            || supported.contains("refresh_token"@),
        forall|grant: Seq<char>| #[trigger]
            grants_for(supported).contains(grant) ==> grant == "authorization_code"@ || grant
                == "refresh_token"@,
        grants_for(supported).no_duplicates(),
{
    reveal_strlit("authorization_code");
    reveal_strlit("refresh_token");
    assert("authorization_code"@[0] == 'a');
    assert("refresh_token"@[0] == 'r');
    let grants = grants_for(supported);
    assert(grants[0] == "authorization_code"@);
    if supported.len() == 0 || supported.contains("refresh_token"@) {
        assert(grants[1] == "refresh_token"@);
    }
}

/// A server is taken exactly if it names a place to authorize at and takes S256 challenges.
/// One that names no such place is passed over for the next address; one that takes no
/// such challenge ends the search. What could not be read is passed over with its reason.
pub proof fn law_server_is_taken_iff_it_is_fit(
    issuer: Seq<char>,
    url: Seq<char>,
    tried: Option<Result<AuthServerMetadata, String>>,
    last_error: Seq<char>,
    next: Discovery<AuthServerMetadata>,
)
    requires
        server_follows(issuer, url, tried, last_error, next),
    ensures
        tried matches Some(Ok(meta)) ==> {
            let offers = exists|i: int|
                0 <= i < meta.code_challenge_methods_supported@.len() && (
                #[trigger] meta.code_challenge_methods_supported@[i])@ == "S256"@;
            let named = meta.authorization_endpoint@.len() > 0;
            &&& named && offers ==> next == Discovery::Found(meta)
            &&& !named ==> next is Next
            &&& named && !offers ==> next is Failed
        },
        tried matches Some(Err(error)) ==> next == Discovery::<AuthServerMetadata>::Next(error),
        tried is None ==> next is Failed,
{
    if let Some(Ok(meta)) = tried {
        let methods = texts(meta.code_challenge_methods_supported@);
        if methods.contains("S256"@) {
            let i = choose|i: int| 0 <= i < methods.len() && methods[i] == "S256"@;
            assert(meta.code_challenge_methods_supported@[i]@ == "S256"@);
        }
        if exists|i: int|
            0 <= i < meta.code_challenge_methods_supported@.len() && (
            #[trigger] meta.code_challenge_methods_supported@[i])@ == "S256"@ {
            let i = choose|i: int|
                0 <= i < meta.code_challenge_methods_supported@.len() && (
                #[trigger] meta.code_challenge_methods_supported@[i])@ == "S256"@;
            assert(methods[i] == "S256"@);
        }
    }
}

/// A body is read exactly if the request was sent, accepted and readable; what went wrong
/// names the address.
pub proof fn law_body_is_what_was_answered(
    url: &str,
    answer: FetchAnswer,
    body: Result<String, String>,
)
    requires
        is_body(url, answer, body),
    ensures
        body is Ok <==> answer is Body,
        body matches Ok(text) ==> answer == FetchAnswer::Body(text),
        answer matches FetchAnswer::Refused(status) ==> body->Err_0@ == "GET "@ + url@
            + " returned "@ + status@,
{
}

/// The first metadata that is found is taken; a fault leads on to the next address, and the
/// last one is told where there is no other.
pub proof fn law_first_metadata_is_taken(
    tried: Option<Result<ProtectedResourceMetadata, String>>,
    last_error: String,
    next: Discovery<ProtectedResourceMetadata>,
)
    requires
        is_discovery(tried, last_error, next),
    ensures
        next is Found <==> (tried matches Some(Ok(_))),
        next is Failed <==> tried is None,
        tried matches Some(Ok(found)) ==> next == Discovery::Found(found),
        tried matches Some(Err(error)) ==> next == Discovery::<ProtectedResourceMetadata>::Next(
            error,
        ),
        next matches Discovery::Failed(error) ==> error@
            == "Protected resource metadata discovery failed: "@ + last_error@,
{
}

/// A client is registered only at a secure address: under its name, for the one address it
/// is called back at, as a public client that asks for a code, in the scope that is wanted.
pub proof fn law_registration_says_who_asks(
    endpoint: &str,
    redirect_uri: &str,
    client_name: &str,
    scope: Option<&str>,
    supported: &[String],
    request: Result<RegistrationRequest, String>,
)
    requires
        asks_registration(endpoint, redirect_uri, client_name, scope, supported, request),
    ensures
        request is Ok <==> spells_secure(endpoint@),
        request matches Ok(asked) ==> {
            &&& asked.client_name@ == client_name@
            &&& texts(asked.redirect_uris@) == seq![redirect_uri@]
            &&& str_texts(asked.response_types@) == seq!["code"@]
            &&& asked.token_endpoint_auth_method@ == "none"@
            &&& opt_text(asked.scope) == opt_str(scope)
        },
{
}

/// A client is registered exactly if the server accepted it in a way that can be read.
pub proof fn law_accepted_client_is_registered(
    answer: RegistrationAnswer,
    client: Result<ClientCredentials, String>,
)
    requires
        is_registered(answer, client),
    ensures
        client is Ok <==> (answer matches RegistrationAnswer::Accepted { parsed, .. } && parsed
            is Ok),
        answer matches RegistrationAnswer::Accepted { parsed, .. } ==> (parsed matches Ok(read)
            ==> client == Ok::<ClientCredentials, String>(read)),
{
}

} // verus!
