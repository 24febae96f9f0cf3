//! Tokens: the requests for them and what the token endpoint answers.
use vstd::prelude::*;
use vstd::string::*;
use crate::oauth::challenge::pair_models;
use crate::oauth::endpoint::{add_pair, is_secure_endpoint, spells_secure};
use crate::text::{opt_str, opt_text, text2, text3};

verus! {

/// The latest time that the clock can show, in seconds since 1970.
pub const MAX_CLOCK_SECS: i64 = 0x1_0000_0000_0000;

/// Calls `chrono::Utc::now` and `timestamp`: the time, in seconds since 1970. It is
/// not before 1970, and lies within the days that a date of chrono can count.
#[verifier::external_body]
pub(crate) fn now_secs() -> (now: i64)
    ensures
        0 <= now <= MAX_CLOCK_SECS,
{
    chrono::Utc::now().timestamp()
}

/// A token, with the time when it expires.
#[derive(Debug, Clone)]
pub struct TokenSet {
    pub access_token: String,
    pub refresh_token: Option<String>,
    /// When the token expires, in seconds since 1970, where the server says it.
    pub expires_at: Option<i64>,
    pub scope: Option<String>,
    pub token_type: String,
}

/// What a token set says.
#[verifier::ext_equal]
pub struct TokenModel {
    pub access_token: Seq<char>,
    pub refresh_token: Option<Seq<char>>,
    pub expires_at: Option<int>,
    pub scope: Option<Seq<char>>,
    pub token_type: Seq<char>,
}

impl View for TokenSet {
    type V = TokenModel;

    open spec fn view(&self) -> TokenModel {
        TokenModel {
            access_token: self.access_token@,
            refresh_token: opt_text(self.refresh_token),
            expires_at: match self.expires_at {
                Some(time) => Some(time as int),
                None => None,
            },
            scope: opt_text(self.scope),
            token_type: self.token_type@,
        }
    }
}

/// The body of a token endpoint's response.
#[derive(Debug)]
pub struct TokenResponseBody {
    pub access_token: String,
    pub token_type: Option<String>,
    pub expires_in: Option<i64>,
    pub refresh_token: Option<String>,
    pub scope: Option<String>,
}

/// The token that a response gives at a time. Without a new refresh token the one
/// used stays; without a type it is a bearer token.
pub open spec fn token_of(
    body: TokenResponseBody,
    prior_refresh: Option<Seq<char>>,
    now: int,
) -> TokenModel {
    TokenModel {
        access_token: body.access_token@,
        refresh_token: match body.refresh_token {
            Some(rotated) => Some(rotated@),
            None => prior_refresh,
        },
        expires_at: match body.expires_in {
            Some(secs) => Some(now + secs),
            None => None,
        },
        scope: opt_text(body.scope),
        token_type: match body.token_type {
            Some(named) => named@,
            None => "Bearer"@,
        },
    }
}

impl TokenResponseBody {
    /// The token that a response gives at a time.
    pub fn into_token_set_at(self, prior_refresh: Option<String>, now: i64) -> (tokens: TokenSet)
        requires
            self.expires_in matches Some(secs) ==> i64::MIN <= now + secs <= i64::MAX,
        ensures
            tokens@ == token_of(self, opt_text(prior_refresh), now as int),
    {
        let expires_at = match self.expires_in {
            Some(secs) => Some(now + secs),
            None => None,
        };
        let refresh_token = match self.refresh_token {
            Some(rotated) => Some(rotated),
            None => prior_refresh,
        };
        let token_type = match self.token_type {
            Some(named) => named,
            None => "Bearer".to_owned(),
        };
        TokenSet {
            access_token: self.access_token,
            refresh_token,
            expires_at,
            scope: self.scope,
            token_type,
        }
    }

    /// The token that a response gives now.
    pub fn into_token_set(self, prior_refresh: Option<String>) -> (tokens: TokenSet)
        requires
            self.expires_in matches Some(secs) ==> secs <= i64::MAX - MAX_CLOCK_SECS,
        ensures
            exists|now: int|
                0 <= now <= MAX_CLOCK_SECS && tokens@ == #[trigger] token_of(
                    self,
                    opt_text(prior_refresh),
                    now,
                ),
    {
        let now: i64 = now_secs();
        let ghost body = self;
        let ghost prior = opt_text(prior_refresh);
        let tokens = self.into_token_set_at(prior_refresh, now);
        assert(tokens@ == token_of(body, prior, now as int));
        tokens
    }
}

/// A request to a token endpoint.
#[derive(Debug)]
pub struct TokenRequest {
    pub endpoint: String,
    pub form: Vec<(String, String)>,
    /// The refresh token that is kept where the response brings no new one.
    pub prior_refresh: Option<String>,
}

/// A pair where there is a value for it.
pub open spec fn optional_pair(name: Seq<char>, value: Option<Seq<char>>) -> Seq<
    (Seq<char>, Seq<char>),
> {
    match value {
        Some(found) => seq![(name, found)],
        None => Seq::empty(),
    }
}

/// Adds a pair where there is a value for it.
fn add_optional(form: &mut Vec<(String, String)>, name: &str, value: Option<&str>)
    ensures
        pair_models(final(form)@) == pair_models(old(form)@) + optional_pair(name@, opt_str(value)),
{
    let ghost before = pair_models(form@);
    match value {
        Some(found) => {
            add_pair(form, name, found);
            assert(before.push((name@, found@)) =~= before + seq![(name@, found@)]);
        },
        None => {
            assert(before + Seq::<(Seq<char>, Seq<char>)>::empty() =~= before);
        },
    }
}

/// The form that exchanges a code for a token.
pub open spec fn exchange_form(
    client_id: Seq<char>,
    client_secret: Option<Seq<char>>,
    code: Seq<char>,
    code_verifier: Seq<char>,
    redirect_uri: Seq<char>,
    resource: Seq<char>,
) -> Seq<(Seq<char>, Seq<char>)> {
    seq![
        ("grant_type"@, "authorization_code"@),
        ("code"@, code),
        ("redirect_uri"@, redirect_uri),
        ("client_id"@, client_id),
        ("code_verifier"@, code_verifier),
        ("resource"@, resource),
    ] + optional_pair("client_secret"@, client_secret)
}

/// Whether a code is exchanged by this request.
pub open spec fn asks_exchange(
    token_endpoint: &str,
    client_id: &str,
    client_secret: Option<&str>,
    code: &str,
    code_verifier: &str,
    redirect_uri: &str,
    resource: &str,
    request: Result<TokenRequest, String>,
) -> bool {
    match request {
        Ok(asked) => {
            &&& spells_secure(token_endpoint@)
            &&& asked.endpoint@ == token_endpoint@
            &&& pair_models(asked.form@) == exchange_form(
                client_id@,
                opt_str(client_secret),
                code@,
                code_verifier@,
                redirect_uri@,
                resource@,
            )
            &&& asked.prior_refresh is None
        },
        Err(error) => !spells_secure(token_endpoint@) && error@
            == "Token endpoint must be HTTPS: "@ + token_endpoint@,
    }
}

/// The request that exchanges a code for a token. It goes only to an endpoint that
/// secrets may be sent to.
pub fn exchange_code(
    token_endpoint: &str,
    client_id: &str,
    client_secret: Option<&str>,
    code: &str,
    code_verifier: &str,
    redirect_uri: &str,
    resource: &str,
) -> (request: Result<TokenRequest, String>)
    ensures
        asks_exchange(
            token_endpoint,
            client_id,
            client_secret,
            code,
            code_verifier,
            redirect_uri,
            resource,
            request,
        ),
{
    if !is_secure_endpoint(token_endpoint) {
        return Err(text2("Token endpoint must be HTTPS: ", token_endpoint));
    }
    let mut form: Vec<(String, String)> = Vec::new();
    add_pair(&mut form, "grant_type", "authorization_code");
    add_pair(&mut form, "code", code);
    add_pair(&mut form, "redirect_uri", redirect_uri);
    add_pair(&mut form, "client_id", client_id);
    add_pair(&mut form, "code_verifier", code_verifier);
    add_pair(&mut form, "resource", resource);
    add_optional(&mut form, "client_secret", client_secret);
    assert(pair_models(form@) =~= exchange_form(
        client_id@,
        opt_str(client_secret),
        code@,
        code_verifier@,
        redirect_uri@,
        resource@,
    ));
    Ok(TokenRequest { endpoint: token_endpoint.to_owned(), form, prior_refresh: None })
}

/// The form that renews a token.
pub open spec fn refresh_form(
    client_id: Seq<char>,
    client_secret: Option<Seq<char>>,
    refresh_token: Seq<char>,
    resource: Seq<char>,
    scope: Option<Seq<char>>,
) -> Seq<(Seq<char>, Seq<char>)> {
    seq![
        ("grant_type"@, "refresh_token"@),
        ("refresh_token"@, refresh_token),
        ("client_id"@, client_id),
        ("resource"@, resource),
    ] + optional_pair("client_secret"@, client_secret) + optional_pair("scope"@, scope)
}

/// Whether a token is renewed by this request.
pub open spec fn asks_refresh(
    token_endpoint: &str,
    client_id: &str,
    client_secret: Option<&str>,
    refresh_token: &str,
    resource: &str,
    scope: Option<&str>,
    request: Result<TokenRequest, String>,
) -> bool {
    match request {
        Ok(asked) => {
            &&& spells_secure(token_endpoint@)
            &&& asked.endpoint@ == token_endpoint@
            &&& pair_models(asked.form@) == refresh_form(
                client_id@,
                opt_str(client_secret),
                refresh_token@,
                resource@,
                opt_str(scope),
            )
            &&& opt_text(asked.prior_refresh) == Some(refresh_token@)
        },
        Err(error) => !spells_secure(token_endpoint@) && error@
            == "Token endpoint must be HTTPS: "@ + token_endpoint@,
    }
}

/// The request that renews a token. It goes only to an endpoint that secrets may
/// be sent to, and the refresh token is kept where no new one comes back.
pub fn refresh_access_token(
    token_endpoint: &str,
    client_id: &str,
    client_secret: Option<&str>,
    refresh_token: &str,
    resource: &str,
    scope: Option<&str>,
) -> (request: Result<TokenRequest, String>)
    ensures
        asks_refresh(
            token_endpoint,
            client_id,
            client_secret,
            refresh_token,
            resource,
            scope,
            request,
        ),
{
    if !is_secure_endpoint(token_endpoint) {
        return Err(text2("Token endpoint must be HTTPS: ", token_endpoint));
    }
    let mut form: Vec<(String, String)> = Vec::new();
    add_pair(&mut form, "grant_type", "refresh_token");
    add_pair(&mut form, "refresh_token", refresh_token);
    add_pair(&mut form, "client_id", client_id);
    add_pair(&mut form, "resource", resource);
    add_optional(&mut form, "client_secret", client_secret);
    add_optional(&mut form, "scope", scope);
    assert(pair_models(form@) =~= refresh_form(
        client_id@,
        opt_str(client_secret),
        refresh_token@,
        resource@,
        opt_str(scope),
    ));
    Ok(
        TokenRequest {
            endpoint: token_endpoint.to_owned(),
            form,
            prior_refresh: Some(refresh_token.to_owned()),
        },
    )
}

/// Every request for a token names the resource that the token is for.
pub proof fn law_token_requests_name_the_resource(
    client_id: Seq<char>,
    client_secret: Option<Seq<char>>,
    code: Seq<char>,
    code_verifier: Seq<char>,
    redirect_uri: Seq<char>,
    refresh_token: Seq<char>,
    scope: Option<Seq<char>>,
    resource: Seq<char>,
)
    ensures
        exchange_form(
            client_id,
            client_secret,
            code,
            code_verifier,
            redirect_uri,
            resource,
        ).contains(("resource"@, resource)),
        refresh_form(client_id, client_secret, refresh_token, resource, scope).contains(
            ("resource"@, resource),
        ),
{
    let exchange = exchange_form(
        client_id,
        client_secret,
        code,
        code_verifier,
        redirect_uri,
        resource,
    );
    assert(exchange[5] == ("resource"@, resource));
    let refresh = refresh_form(client_id, client_secret, refresh_token, resource, scope);
    assert(refresh[3] == ("resource"@, resource));
}

/// How a token endpoint answered.
#[derive(Debug)]
pub enum TokenAnswer {
    /// It could not be asked.
    NotSent(String),
    /// It refused, with this status and body.
    Refused { status: String, body: String },
    /// It agreed; the body as it was read, or why it could not be.
    Agreed { parsed: Result<TokenResponseBody, String>, body: String },
}

/// Whether a token can be taken from an answer at any time that the clock can show.
pub open spec fn expiry_fits(answer: TokenAnswer) -> bool {
    answer matches TokenAnswer::Agreed { parsed: Ok(read), .. } ==> read.expires_in matches Some(
        secs,
    ) ==> secs <= i64::MAX - MAX_CLOCK_SECS
}

/// Why an answer gives no token.
pub open spec fn token_refusal(answer: TokenAnswer) -> Option<Seq<char>> {
    match answer {
        TokenAnswer::NotSent(error) => Some("Token request failed: "@ + error@),
        TokenAnswer::Refused { status, body } => Some(
            "Token endpoint returned "@ + status@ + ": "@ + body@,
        ),
        TokenAnswer::Agreed { parsed: Err(error), body } => Some(
            "Invalid token response: "@ + error@ + ": "@ + body@,
        ),
        TokenAnswer::Agreed { parsed: Ok(_), .. } => None,
    }
}

/// Takes up the answer of a token endpoint.
pub fn post_token_request(answer: TokenAnswer, prior_refresh: Option<String>) -> (tokens: Result<
    TokenSet,
    String,
>)
    requires
        expiry_fits(answer),
    ensures
        match (tokens, token_refusal(answer)) {
            (Ok(set), None) => answer matches TokenAnswer::Agreed { parsed: Ok(read), .. } && exists|
                now: int,
            |
                0 <= now <= MAX_CLOCK_SECS && set@ == #[trigger] token_of(
                    read,
                    opt_text(prior_refresh),
                    now,
                ),
            (Err(error), Some(reason)) => error@ == reason,
            _ => false,
        },
{
    match answer {
        TokenAnswer::NotSent(error) => Err(text2("Token request failed: ", error.as_str())),
        TokenAnswer::Refused { status, body } => {
            let mut error = text3("Token endpoint returned ", status.as_str(), ": ");
            error.append(body.as_str());
            Err(error)
        },
        TokenAnswer::Agreed { parsed, body } => match parsed {
            Ok(read) => Ok(read.into_token_set(prior_refresh)),
            Err(reason) => {
                let mut error = text3("Invalid token response: ", reason.as_str(), ": ");
                error.append(body.as_str());
                Err(error)
            },
        },
    }
}

/// A request for a token says who asks, and with what: the grant, the client and its
/// secret where it has one, and the code with its verifier or the refresh token. The
/// renewal also says the scope where one is given. Nothing else is sent.
pub proof fn law_token_requests_say_who_asks(
    client_id: Seq<char>,
    client_secret: Option<Seq<char>>,
    code: Seq<char>,
    code_verifier: Seq<char>,
    redirect_uri: Seq<char>,
    refresh_token: Seq<char>,
    scope: Option<Seq<char>>,
    resource: Seq<char>,
)
    ensures
        ({
            let exchange = exchange_form(
                client_id,
                client_secret,
                code,
                code_verifier,
                redirect_uri,
                resource,
            );
            let secrets: int = if client_secret is Some {
                1
            } else {
                0
            };
            &&& exchange.contains(("grant_type"@, "authorization_code"@))
            &&& exchange.contains(("code"@, code))
            &&& exchange.contains(("code_verifier"@, code_verifier))
            &&& exchange.contains(("redirect_uri"@, redirect_uri))
            &&& exchange.contains(("client_id"@, client_id))
            &&& exchange.contains(("resource"@, resource))
            &&& client_secret matches Some(secret) ==> exchange.contains(
                ("client_secret"@, secret),
            )
            &&& exchange.len() == 6 + secrets
        }),
        ({
            let renewal = refresh_form(client_id, client_secret, refresh_token, resource, scope);
            let secrets: int = if client_secret is Some {
                1
            } else {
                0
            };
            let scopes: int = if scope is Some {
                1
            } else {
                0
            };
            &&& renewal.contains(("grant_type"@, "refresh_token"@))
            &&& renewal.contains(("refresh_token"@, refresh_token))
            &&& renewal.contains(("client_id"@, client_id))
            &&& renewal.contains(("resource"@, resource))
            &&& client_secret matches Some(secret) ==> renewal.contains(("client_secret"@, secret))
            &&& scope matches Some(named) ==> renewal.contains(("scope"@, named))
            &&& renewal.len() == 4 + secrets + scopes
        }),
{
    let exchange = exchange_form(
        client_id,
        client_secret,
        code,
        code_verifier,
        redirect_uri,
        resource,
    );
    assert(exchange[0] == ("grant_type"@, "authorization_code"@));
    assert(exchange[1] == ("code"@, code));
    assert(exchange[2] == ("redirect_uri"@, redirect_uri));
    assert(exchange[3] == ("client_id"@, client_id));
    assert(exchange[4] == ("code_verifier"@, code_verifier));
    assert(exchange[5] == ("resource"@, resource));
    let renewal = refresh_form(client_id, client_secret, refresh_token, resource, scope);
    assert(renewal[0] == ("grant_type"@, "refresh_token"@));
    assert(renewal[1] == ("refresh_token"@, refresh_token));
    assert(renewal[2] == ("client_id"@, client_id));
    assert(renewal[3] == ("resource"@, resource));
    if let Some(secret) = client_secret {
        assert(exchange[6] == ("client_secret"@, secret));
        assert(renewal[4] == ("client_secret"@, secret));
    }
    if let Some(named) = scope {
        assert(renewal.last() == ("scope"@, named));
    }
}

/// What a response says is what the token is: its access token, its scope, its type, and
/// its life counted from the time of the response. A new refresh token takes the place of
/// the one used; without one the used one is kept. Without a life it never expires.
pub proof fn law_token_is_what_the_response_says(
    body: TokenResponseBody,
    prior_refresh: Option<Seq<char>>,
    now: int,
)
    ensures
        ({
            let token = token_of(body, prior_refresh, now);
            &&& token.access_token == body.access_token@
            &&& body.refresh_token matches Some(rotated) ==> token.refresh_token == Some(rotated@)
            &&& body.refresh_token is None ==> token.refresh_token == prior_refresh
            &&& body.expires_in matches Some(secs) ==> (token.expires_at matches Some(time) && time
                - now == secs)
            &&& body.expires_in is None ==> token.expires_at is None
            &&& body.scope matches Some(scope) ==> token.scope == Some(scope@)
            &&& body.scope is None ==> token.scope is None
            &&& body.token_type matches Some(named) ==> token.token_type == named@
            &&& body.token_type is None ==> token.token_type == "Bearer"@
        }),
{
}

/// A token comes of an answer exactly if the endpoint agreed and its answer could be read;
/// otherwise what it said is passed on.
pub proof fn law_only_a_read_answer_gives_a_token(answer: TokenAnswer)
    ensures
        token_refusal(answer) is None <==> (answer matches TokenAnswer::Agreed { parsed, .. }
            && parsed is Ok),
        answer matches TokenAnswer::NotSent(error) ==> (token_refusal(answer) matches Some(said)
            && said == "Token request failed: "@ + error@),
        answer matches TokenAnswer::Refused { status, body } ==> (token_refusal(
            answer,
        ) matches Some(said) && said == "Token endpoint returned "@ + status@ + ": "@ + body@),
        answer matches TokenAnswer::Agreed { parsed: Err(error), body } ==> (token_refusal(
            answer,
        ) matches Some(said) && said == "Invalid token response: "@ + error@ + ": "@ + body@),
{
}

/// Tokens are asked for only at secure addresses, at the one that was given; a renewal keeps
/// the refresh token for the case that no new one comes, and an exchange has none to keep.
pub proof fn law_tokens_are_asked_for_securely(
    endpoint: &str,
    client_id: &str,
    client_secret: Option<&str>,
    code: &str,
    verifier: &str,
    redirect_uri: &str,
    resource: &str,
    refresh_token: &str,
    scope: Option<&str>,
    exchange: Result<TokenRequest, String>,
    renewal: Result<TokenRequest, String>,
)
    requires
        asks_exchange(
            endpoint,
            client_id,
            client_secret,
            code,
            verifier,
            redirect_uri,
            resource,
            exchange,
        ),
        asks_refresh(endpoint, client_id, client_secret, refresh_token, resource, scope, renewal),
    ensures
        exchange is Ok <==> spells_secure(endpoint@),
        renewal is Ok <==> spells_secure(endpoint@),
        exchange matches Ok(asked) ==> asked.endpoint@ == endpoint@ && asked.prior_refresh is None
            && pair_models(asked.form@).contains(("code"@, code@)) && pair_models(
            asked.form@,
        ).contains(("code_verifier"@, verifier@)) && (client_secret matches Some(secret)
            ==> pair_models(asked.form@).contains(("client_secret"@, secret@))),
        renewal matches Ok(asked) ==> asked.endpoint@ == endpoint@ && opt_text(asked.prior_refresh)
            == Some(refresh_token@) && pair_models(asked.form@).contains(
            ("refresh_token"@, refresh_token@),
        ) && (client_secret matches Some(secret) ==> pair_models(asked.form@).contains(
            ("client_secret"@, secret@),
        )),
{
    law_token_requests_say_who_asks(
        client_id@,
        opt_str(client_secret),
        code@,
        verifier@,
        redirect_uri@,
        refresh_token@,
        opt_str(scope),
        resource@,
    );
}

} // verus!
