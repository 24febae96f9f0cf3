//! What is kept of an authorization: the endpoints, the client, the resource, the
//! scopes and the tokens.
use vstd::prelude::*;
use vstd::string::*;
use crate::oauth::token::{now_secs, TokenSet, MAX_CLOCK_SECS};
use crate::oauth::scope::scope_param;
use crate::scan::{split_words, words_of};
use crate::text::{contains_item, joined, opt_text, texts};

verus! {

/// How many seconds before its expiry a token is renewed, so that it does not
/// expire during a call.
pub const EXPIRY_SKEW_SECS: i64 = 60;

/// All that is needed to use a token and to renew it.
#[derive(Debug, Clone, PartialEq)]
pub struct StoredAuth {
    /// The resource that every request for a token names.
    pub resource: String,
    pub authorization_endpoint: String,
    pub token_endpoint: String,
    pub registration_endpoint: Option<String>,
    pub client_id: String,
    pub client_secret: Option<String>,
    pub access_token: String,
    pub refresh_token: Option<String>,
    /// When the access token expires, in seconds since 1970, where that is known.
    pub expires_at: Option<i64>,
    /// The scopes that were granted.
    pub scopes: Vec<String>,
    /// The scopes that were asked for since and are not granted.
    pub needs_scopes: Vec<String>,
}

/// What a record says.
#[verifier::ext_equal]
pub struct AuthModel {
    pub resource: Seq<char>,
    pub authorization_endpoint: Seq<char>,
    pub token_endpoint: Seq<char>,
    pub registration_endpoint: Option<Seq<char>>,
    pub client_id: Seq<char>,
    pub client_secret: Option<Seq<char>>,
    pub access_token: Seq<char>,
    pub refresh_token: Option<Seq<char>>,
    pub expires_at: Option<i64>,
    pub scopes: Seq<Seq<char>>,
    pub needs_scopes: Seq<Seq<char>>,
}

impl View for StoredAuth {
    type V = AuthModel;

    open spec fn view(&self) -> AuthModel {
        AuthModel {
            resource: self.resource@,
            authorization_endpoint: self.authorization_endpoint@,
            token_endpoint: self.token_endpoint@,
            registration_endpoint: opt_text(self.registration_endpoint),
            client_id: self.client_id@,
            client_secret: opt_text(self.client_secret),
            access_token: self.access_token@,
            refresh_token: opt_text(self.refresh_token),
            expires_at: self.expires_at,
            scopes: texts(self.scopes@),
            needs_scopes: texts(self.needs_scopes@),
        }
    }
}

/// Whether a token that expires then is expired now, or will be shortly.
pub open spec fn expired_at(expires_at: Option<i64>, now: i64) -> bool {
    expires_at matches Some(time) && now + EXPIRY_SKEW_SECS >= time
}

/// The record after a token was obtained.
pub open spec fn with_tokens(auth: AuthModel, tokens: TokenSet) -> AuthModel {
    AuthModel {
        access_token: tokens.access_token@,
        refresh_token: match tokens.refresh_token {
            Some(rotated) => Some(rotated@),
            None => auth.refresh_token,
        },
        expires_at: tokens.expires_at,
        scopes: match tokens.scope {
            Some(granted) => if words_of(granted@).len() > 0 {
                words_of(granted@)
            } else {
                auth.scopes
            },
            None => auth.scopes,
        },
        ..auth
    }
}

impl StoredAuth {
    /// Whether the access token is expired at the given time, or will be shortly.
    pub fn is_expired_at(&self, now: i64) -> (expired: bool)
        requires
            now + EXPIRY_SKEW_SECS <= i64::MAX,
        ensures
            expired == expired_at(self.expires_at, now),
    {
        match self.expires_at {
            Some(time) => now + EXPIRY_SKEW_SECS >= time,
            None => false,
        }
    }

    /// Whether the access token is expired, or will be shortly.
    pub fn is_expired(&self) -> (expired: bool)
        ensures
            exists|now: i64|
                0 <= now <= MAX_CLOCK_SECS && expired == #[trigger] expired_at(
                    self.expires_at,
                    now,
                ),
    {
        let now: i64 = now_secs();
        let expired = self.is_expired_at(now);
        assert(expired == expired_at(self.expires_at, now));
        expired
    }

    /// Takes up a token that was obtained. The endpoints, the client and the
    /// resource stay. A refresh token stays unless a new one came with the token;
    /// the scopes stay unless the response names those granted.
    pub fn apply_tokens(&mut self, tokens: TokenSet)
        ensures
            final(self)@ == with_tokens(old(self)@, tokens),
    {
        self.access_token = tokens.access_token;
        if tokens.refresh_token.is_some() {
            self.refresh_token = tokens.refresh_token;
        }
        self.expires_at = tokens.expires_at;
        if let Some(scope) = tokens.scope {
            let granted = split_words(scope.as_str());
            assert(texts(granted@).len() == granted@.len());
            if granted.len() > 0 {
                self.scopes = granted;
            }
        }
    }
}

/// How a server stands, for those who look at it.
#[derive(Debug, Clone, PartialEq)]
pub struct OAuthStatus {
    /// `authorized`, `needs_auth` or `none`.
    pub state: String,
    pub detail: Option<String>,
    pub scopes: Vec<String>,
    /// The scopes that are waited for.
    pub needs_scopes: Vec<String>,
}

impl OAuthStatus {
    /// Whether this is the status of a server with a token.
    pub open spec fn is_authorized(
        scopes: Vec<String>,
        needs_scopes: Vec<String>,
        status: Self,
    ) -> bool {
        &&& status.state@ == "authorized"@
        &&& opt_text(status.detail) == if needs_scopes@.len() == 0 {
            None
        } else {
            Some("Additional scopes required"@)
        }
        &&& status.scopes == scopes
        &&& status.needs_scopes == needs_scopes
    }

    /// There is a token; further scopes may be waited for.
    pub fn authorized(scopes: Vec<String>, needs_scopes: Vec<String>) -> (status: Self)
        ensures
            Self::is_authorized(scopes, needs_scopes, status),
    {
        let detail = if needs_scopes.len() == 0 {
            None
        } else {
            Some("Additional scopes required".to_owned())
        };
        OAuthStatus { state: "authorized".to_owned(), detail, scopes, needs_scopes }
    }

    /// The server asks for authorization, and there is no token.
    pub fn needs_auth() -> (status: Self)
        ensures
            status.state@ == "needs_auth"@,
            status.detail is None,
            status.scopes@.len() == 0,
            status.needs_scopes@.len() == 0,
    {
        OAuthStatus {
            state: "needs_auth".to_owned(),
            detail: None,
            scopes: Vec::new(),
            needs_scopes: Vec::new(),
        }
    }

    /// The server asks for no authorization.
    pub fn none() -> (status: Self)
        ensures
            status.state@ == "none"@,
            status.detail is None,
            status.scopes@.len() == 0,
            status.needs_scopes@.len() == 0,
    {
        OAuthStatus {
            state: "none".to_owned(),
            detail: None,
            scopes: Vec::new(),
            needs_scopes: Vec::new(),
        }
    }
}

/// Whether a record can still give a token: its token is not expired, or it can be
/// renewed.
pub open spec fn is_usable(auth: AuthModel, now: i64) -> bool {
    !expired_at(auth.expires_at, now) || auth.refresh_token is Some
}

/// Whether a status is that of a record at a time. A record whose token is expired
/// and cannot be renewed is as good as none.
pub open spec fn status_shows(status: OAuthStatus, auth: Option<StoredAuth>, now: i64) -> bool {
    if auth matches Some(found) && is_usable(found@, now) {
        let found = auth->Some_0;
        &&& status.state@ == "authorized"@
        &&& opt_text(status.detail) == if found.needs_scopes@.len() == 0 {
            None
        } else {
            Some("Additional scopes required"@)
        }
        &&& status.scopes == found.scopes
        &&& status.needs_scopes == found.needs_scopes
    } else {
        &&& status.state@ == "needs_auth"@
        &&& status.detail is None
        &&& status.scopes@.len() == 0
        &&& status.needs_scopes@.len() == 0
    }
}

/// How a server with this record stands at a time.
pub fn status_at(auth: Option<StoredAuth>, now: i64) -> (status: OAuthStatus)
    requires
        now + EXPIRY_SKEW_SECS <= i64::MAX,
    ensures
        status_shows(status, auth, now),
{
    match auth {
        Some(found) => {
            if found.is_expired_at(now) && found.refresh_token.is_none() {
                OAuthStatus::needs_auth()
            } else {
                OAuthStatus::authorized(found.scopes, found.needs_scopes)
            }
        },
        None => OAuthStatus::needs_auth(),
    }
}

/// How a server with this record stands.
pub fn status(auth: Option<StoredAuth>) -> (status: OAuthStatus)
    ensures
        exists|now: i64|
            0 <= now <= MAX_CLOCK_SECS && #[trigger] status_shows(status, auth, now),
{
    let now: i64 = now_secs();
    let ghost given = auth;
    let status = status_at(auth, now);
    assert(status_shows(status, given, now));
    status
}

/// Those of the first `k` required scopes that are not granted, each once, in
/// their order.
pub open spec fn missing_scopes(
    granted: Seq<Seq<char>>,
    required: Seq<Seq<char>>,
    k: int,
) -> Seq<Seq<char>>
    decreases k,
{
    if k <= 0 {
        Seq::empty()
    } else {
        let before = missing_scopes(granted, required, k - 1);
        if granted.contains(required[k - 1]) || before.contains(required[k - 1]) {
            before
        } else {
            before.push(required[k - 1])
        }
    }
}

/// Whether the record is this after scopes were asked for.
pub open spec fn steps_up(auth: StoredAuth, after: StoredAuth, required: &[String]) -> bool {
    after@ == if required@.len() == 0 {
        auth@
    } else {
        AuthModel {
            needs_scopes: missing_scopes(
                auth@.scopes,
                texts(required@),
                required@.len() as int,
            ),
            ..auth@
        }
    }
}

/// Records that a server asked for scopes: those of them that are not granted are
/// waited for. Without any nothing changes.
pub fn record_scope_step_up(auth: &mut StoredAuth, required: &[String])
    ensures
        steps_up(*old(auth), *final(auth), required),
{
    if required.len() == 0 {
        return;
    }
    let mut missing: Vec<String> = Vec::new();
    assert(texts(missing@) =~= Seq::empty());
    let mut k: usize = 0;
    while k < required.len()
        invariant
            k <= required@.len(),
            texts(missing@) == missing_scopes(texts(auth.scopes@), texts(required@), k as int),
        decreases required.len() - k,
    {
        let scope = required[k].as_str();
        assert(texts(required@)[k as int] == scope@);
        let ghost before = texts(missing@);
        if !contains_item(&auth.scopes, scope) && !contains_item(&missing, scope) {
            missing.push(required[k].clone());
            assert(texts(missing@) =~= before.push(scope@));
        }
        k += 1;
    }
    auth.needs_scopes = missing;
}

/// The scopes that are waited for are exactly those that were required and are not
/// granted, and each is named once.
pub proof fn law_step_up_waits_for_the_missing_scopes(
    granted: Seq<Seq<char>>,
    required: Seq<Seq<char>>,
    k: int,
)
    requires
        0 <= k <= required.len(),
    ensures
        forall|scope: Seq<char>| #[trigger]
            missing_scopes(granted, required, k).contains(scope) <==> required.take(k).contains(
                scope,
            ) && !granted.contains(scope),
        missing_scopes(granted, required, k).no_duplicates(),
    decreases k,
{
    let missing = missing_scopes(granted, required, k);
    if k == 0 {
        assert(required.take(0).len() == 0);
    } else {
        law_step_up_waits_for_the_missing_scopes(granted, required, k - 1);
        let before = missing_scopes(granted, required, k - 1);
        let last = required[k - 1];
        assert(required.take(k) =~= required.take(k - 1).push(last));
        assert forall|scope: Seq<char>| #[trigger]
            missing.contains(scope) <==> required.take(k).contains(scope) && !granted.contains(
                scope,
            ) by {
            let prior = required.take(k - 1);
            assert(required.take(k).contains(scope) <==> prior.contains(scope) || scope
                == last) by {
                if prior.contains(scope) {
                    let i = choose|i: int| 0 <= i < prior.len() && prior[i] == scope;
                    assert(required.take(k)[i] == scope);
                }
                assert(required.take(k)[k - 1] == last);
            }
            if before.push(last).contains(scope) && scope != last {
                let more = before.push(last);
                let i = choose|i: int| 0 <= i < more.len() && more[i] == scope;
                assert(before[i] == scope);
            }
            if before.contains(scope) {
                let i = choose|i: int| 0 <= i < before.len() && before[i] == scope;
                assert(before.push(last)[i] == scope);
            }
            assert(before.push(last)[before.len() as int] == last);
        }
    }
}

/// Drops the trust in the token of a record: it is expired at once, so that the
/// next use renews it.
pub fn force_expire(auth: &mut StoredAuth)
    ensures
        final(auth)@ == (AuthModel { expires_at: Some(0), ..old(auth)@ }),
{
    auth.expires_at = Some(0);
}

/// A record whose token was dropped is expired at every time since 1970, and stays
/// usable only if it can be renewed.
pub proof fn law_forced_expiry_takes_effect(auth: AuthModel, now: i64)
    requires
        now >= 0,
    ensures
        expired_at(Some(0i64), now),
        is_usable(AuthModel { expires_at: Some(0), ..auth }, now) <==> auth.refresh_token is Some,
{
}

/// A token renews what it is for and nothing else: endpoints, client, resource and
/// the scopes that are waited for stay, and a refresh token is never lost.
pub proof fn law_tokens_keep_the_client(auth: AuthModel, tokens: TokenSet)
    ensures
        ({
            let after = with_tokens(auth, tokens);
            &&& after.resource == auth.resource
            &&& after.authorization_endpoint == auth.authorization_endpoint
            &&& after.token_endpoint == auth.token_endpoint
            &&& after.registration_endpoint == auth.registration_endpoint
            &&& after.client_id == auth.client_id
            &&& after.client_secret == auth.client_secret
            &&& after.needs_scopes == auth.needs_scopes
            &&& auth.refresh_token is Some ==> after.refresh_token is Some
            &&& auth.scopes.len() > 0 ==> after.scopes.len() > 0
        }),
{
}

/// How an access token is come by.
#[derive(Debug)]
pub enum TokenPlan {
    /// There is none.
    Missing,
    /// The stored one is used.
    Use(String),
    /// It is renewed with this refresh token, for these scopes.
    Refresh { refresh_token: String, scope: Option<String> },
}

/// How an access token is come by at a time.
pub open spec fn plan_shows(plan: TokenPlan, auth: Option<StoredAuth>, now: i64) -> bool {
    match auth {
        None => plan is Missing,
        Some(found) => if !expired_at(found.expires_at, now) {
            plan matches TokenPlan::Use(token) && token@ == found.access_token@
        } else {
            match found.refresh_token {
                None => plan is Missing,
                Some(refresh) => plan matches TokenPlan::Refresh { refresh_token, scope }
                    && refresh_token@ == refresh@ && opt_text(scope) == if found.scopes@.len() == 0 {
                    None
                } else {
                    Some(joined(texts(found.scopes@), " "@))
                },
            }
        },
    }
}

/// How an access token is come by at a time.
pub fn plan_token_at(auth: &Option<StoredAuth>, now: i64) -> (plan: TokenPlan)
    requires
        now + EXPIRY_SKEW_SECS <= i64::MAX,
    ensures
        plan_shows(plan, *auth, now),
{
    let found = match auth {
        None => return TokenPlan::Missing,
        Some(found) => found,
    };
    if !found.is_expired_at(now) {
        return TokenPlan::Use(found.access_token.clone());
    }
    match &found.refresh_token {
        None => TokenPlan::Missing,
        Some(refresh) => TokenPlan::Refresh {
            refresh_token: refresh.clone(),
            scope: scope_param(&found.scopes),
        },
    }
}

/// How an access token is come by now.
pub fn plan_token(auth: &Option<StoredAuth>) -> (plan: TokenPlan)
    ensures
        exists|now: i64|
            0 <= now <= MAX_CLOCK_SECS && #[trigger] plan_shows(plan, *auth, now),
{
    let now: i64 = now_secs();
    let plan = plan_token_at(auth, now);
    assert(plan_shows(plan, *auth, now));
    plan
}

/// Whether a record gives this token after it was renewed.
pub open spec fn is_renewed(
    auth: StoredAuth,
    after: StoredAuth,
    renewed: Result<TokenSet, String>,
    token: Option<String>,
) -> bool {
    match renewed {
        Ok(tokens) => opt_text(token) == Some(tokens.access_token@) && after@
            == with_tokens(auth@, tokens),
        Err(_) => token is None && after == auth,
    }
}

/// The access token of a record that was renewed, and none where that failed. The
/// record is stored again where it was renewed.
pub fn get_valid_access_token(auth: &mut StoredAuth, renewed: Result<TokenSet, String>) -> (token:
    Option<String>)
    ensures
        is_renewed(*old(auth), *final(auth), renewed, token),
{
    match renewed {
        Ok(tokens) => {
            auth.apply_tokens(tokens);
            Some(auth.access_token.clone())
        },
        Err(_) => None,
    }
}

/// A token is taken for expired from a minute before its end on, and never before that;
/// one without an end is never expired.
pub proof fn law_token_expires_a_minute_early(expires_at: Option<i64>, now: i64)
    ensures
        expires_at is None ==> !expired_at(expires_at, now),
        expires_at matches Some(end) ==> (expired_at(expires_at, now) <==> end - now <= 60),
{
}

/// A renewed record holds the new token with its end, a new refresh token where one came,
/// and the scopes that were granted; what was not said stays.
pub proof fn law_record_takes_the_new_token(auth: AuthModel, tokens: TokenSet)
    ensures
        ({
            let after = with_tokens(auth, tokens);
            &&& after.access_token == tokens.access_token@
            &&& after.expires_at == tokens.expires_at
            &&& tokens.refresh_token matches Some(rotated) ==> after.refresh_token == Some(rotated@)
            &&& tokens.refresh_token is None ==> after.refresh_token == auth.refresh_token
            &&& tokens.scope is None ==> after.scopes == auth.scopes
            &&& tokens.scope matches Some(granted) ==> (words_of(granted@).len() == 0
                ==> after.scopes == auth.scopes) && (words_of(granted@).len() > 0 ==> after.scopes
                == words_of(granted@))
        }),
{
}

/// A token is used as it is while it lasts, and renewed with its refresh token and its
/// scopes once it does not; without a refresh token it is then missing.
pub proof fn law_token_is_used_while_it_lasts(plan: TokenPlan, auth: StoredAuth, now: i64)
    requires
        plan_shows(plan, Some(auth), now),
    ensures
        ({
            let lasts = match auth.expires_at {
                Some(end) => end - now > 60,
                None => true,
            };
            &&& plan is Use <==> lasts
            &&& plan matches TokenPlan::Use(token) ==> token@ == auth.access_token@
            &&& plan is Refresh <==> !lasts && auth.refresh_token is Some
            &&& plan matches TokenPlan::Refresh { refresh_token, scope } ==> {
                &&& auth.refresh_token matches Some(kept) && refresh_token@ == kept@
                &&& scope is None <==> auth.scopes@.len() == 0
                &&& scope matches Some(named) ==> named@ == joined(texts(auth.scopes@), " "@)
            }
            &&& plan is Missing <==> !lasts && auth.refresh_token is None
        }),
{
}

/// A server stands as authorized exactly while a token lasts or can be renewed, with the
/// scopes that are granted and those that are waited for; otherwise it needs to be
/// authorized, and no scope is shown.
pub proof fn law_status_says_whether_a_token_can_be_had(
    status: OAuthStatus,
    auth: Option<StoredAuth>,
    now: i64,
)
    requires
        status_shows(status, auth, now),
    ensures
        ({
            let usable = match auth {
                Some(found) => found.refresh_token is Some || match found.expires_at {
                    Some(end) => end - now > 60,
                    None => true,
                },
                None => false,
            };
            &&& status.state@ == "authorized"@ <==> usable
            &&& status.state@ == "needs_auth"@ <==> !usable
            &&& usable ==> status.scopes == auth->Some_0.scopes && status.needs_scopes
                == auth->Some_0.needs_scopes
            &&& usable ==> (status.detail is Some <==> auth->Some_0.needs_scopes@.len() > 0)
            &&& !usable ==> status.scopes@.len() == 0 && status.needs_scopes@.len() == 0
                && status.detail is None
        }),
{
    reveal_strlit("authorized");
    reveal_strlit("needs_auth");
    assert("authorized"@[0] == 'a');
    assert("needs_auth"@[0] == 'n');
}

/// What is waited for after a server asked for scopes is what it asked for and was not
/// granted; nothing else of the record changes.
pub proof fn law_step_up_waits_for_what_is_missing(
    auth: StoredAuth,
    after: StoredAuth,
    required: &[String],
)
    requires
        steps_up(auth, after, required),
    ensures
        required@.len() == 0 ==> after@ == auth@,
        after@.scopes == auth@.scopes && after@.access_token == auth@.access_token
            && after@.refresh_token == auth@.refresh_token && after@.expires_at == auth@.expires_at,
        required@.len() > 0 ==> after@.needs_scopes == missing_scopes(
            auth@.scopes,
            texts(required@),
            required@.len() as int,
        ),
{
}

/// A record that was renewed gives its new token and holds it; one that was not gives none
/// and stays as it was.
pub proof fn law_renewed_record_gives_its_token(
    auth: StoredAuth,
    after: StoredAuth,
    renewed: Result<TokenSet, String>,
    token: Option<String>,
)
    requires
        is_renewed(auth, after, renewed, token),
    ensures
        token is Some <==> renewed is Ok,
        renewed matches Ok(tokens) ==> opt_text(token) == Some(tokens.access_token@)
            && after@.access_token == tokens.access_token@ && after@.expires_at
            == tokens.expires_at,
        renewed is Err ==> after == auth,
{
}

/// A server with a token is authorized, and says so where further scopes are waited for.
pub proof fn law_authorized_status_tells_what_is_missing(
    scopes: Vec<String>,
    needs: Vec<String>,
    status: OAuthStatus,
)
    requires
        OAuthStatus::is_authorized(scopes, needs, status),
    ensures
        status.state@ == "authorized"@ && status.scopes == scopes && status.needs_scopes == needs,
        status.detail is Some <==> needs@.len() > 0,
        status.detail matches Some(said) ==> said@ == "Additional scopes required"@,
{
}

} // verus!
