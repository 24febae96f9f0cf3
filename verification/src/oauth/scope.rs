//! The scopes that an authorization asks for.
use vstd::prelude::*;
use vstd::string::*;
use crate::scan::{trim, trimmed};
use crate::text::{join, joined, opt_str, opt_text, texts};

verus! {

/// A copy of strings.
pub fn owned(items: &[String]) -> (copy: Vec<String>)
    ensures
        texts(copy@) == texts(items@),
{
    let mut copy: Vec<String> = Vec::new();
    let mut i: usize = 0;
    while i < items.len()
        invariant
            i <= items@.len(),
            texts(copy@) == texts(items@).take(i as int),
        decreases items.len() - i,
    {
        let ghost before = texts(copy@);
        let item = items[i].clone();
        let ghost said = item@;
        copy.push(item);
        assert(texts(copy@) =~= before.push(said));
        assert(texts(items@)[i as int] == said);
        assert(texts(items@).take(i + 1) =~= before.push(said));
        i += 1;
    }
    assert(texts(items@).take(i as int) =~= texts(items@));
    copy
}

/// Scopes as a request names them, with spaces between them; none are not named.
pub open spec fn named_scopes(scopes: Seq<Seq<char>>) -> Option<Seq<char>> {
    if scopes.len() == 0 {
        None
    } else {
        Some(joined(scopes, " "@))
    }
}

/// Scopes as a request names them.
pub fn scope_param(scopes: &[String]) -> (named: Option<String>)
    ensures
        opt_text(named) == named_scopes(texts(scopes@)),
{
    assert(texts(scopes@).len() == scopes@.len());
    if scopes.len() == 0 {
        None
    } else {
        Some(join(&owned(scopes), " "))
    }
}

/// The scopes to ask for: those configured, or else those that the challenge asks
/// for, or else those that the resource, or else the server, supports.
pub open spec fn chosen_scope(
    requested: Seq<Seq<char>>,
    challenge: Option<Seq<char>>,
    of_resource: Seq<Seq<char>>,
    of_server: Seq<Seq<char>>,
) -> Option<Seq<char>> {
    if requested.len() > 0 {
        named_scopes(requested)
    } else if challenge matches Some(scope) && trimmed(scope).len() > 0 {
        Some(trimmed(challenge->Some_0))
    } else if of_resource.len() > 0 {
        named_scopes(of_resource)
    } else {
        named_scopes(of_server)
    }
}

/// Picks the scopes to ask for.
pub fn choose_scope(
    requested: &[String],
    challenge_scope: Option<&str>,
    prm_scopes: &[String],
    as_scopes: &[String],
) -> (scope: Option<String>)
    ensures
        opt_text(scope) == chosen_scope(
            texts(requested@),
            opt_str(challenge_scope),
            texts(prm_scopes@),
            texts(as_scopes@),
        ),
{
    assert(texts(requested@).len() == requested@.len());
    assert(texts(prm_scopes@).len() == prm_scopes@.len());
    if requested.len() > 0 {
        return scope_param(requested);
    }
    if let Some(scope) = challenge_scope {
        let asked = trim(scope);
        if !asked.as_str().is_empty() {
            return Some(asked);
        }
    }
    if prm_scopes.len() > 0 {
        return scope_param(prm_scopes);
    }
    scope_param(as_scopes)
}

/// What is configured is asked for, whatever a server says; and no scope is asked
/// for only where nobody named one.
pub proof fn law_configured_scopes_win(
    requested: Seq<Seq<char>>,
    challenge: Option<Seq<char>>,
    of_resource: Seq<Seq<char>>,
    of_server: Seq<Seq<char>>,
)
    ensures
        requested.len() > 0 ==> chosen_scope(requested, challenge, of_resource, of_server) == Some(
            joined(requested, " "@),
        ),
        chosen_scope(requested, challenge, of_resource, of_server) is None <==> requested.len() == 0
            && of_resource.len() == 0 && of_server.len() == 0 && !(challenge matches Some(scope)
            && trimmed(scope).len() > 0),
{
}

/// Scopes are asked for in this order: those that are configured, those of the challenge,
/// those of the resource, those of the server. The first that are named are asked for,
/// all of them and no others.
pub proof fn law_scopes_are_chosen_in_order(
    requested: Seq<Seq<char>>,
    challenge: Option<Seq<char>>,
    of_resource: Seq<Seq<char>>,
    of_server: Seq<Seq<char>>,
)
    ensures
        ({
            let chosen = chosen_scope(requested, challenge, of_resource, of_server);
            let challenged = challenge matches Some(scope) && trimmed(scope).len() > 0;
            &&& requested.len() > 0 ==> chosen == Some(joined(requested, " "@))
            &&& requested.len() == 0 && challenged ==> chosen == Some(trimmed(challenge->Some_0))
            &&& requested.len() == 0 && !challenged && of_resource.len() > 0 ==> chosen == Some(
                joined(of_resource, " "@),
            )
            &&& requested.len() == 0 && !challenged && of_resource.len() == 0 && of_server.len() > 0
                ==> chosen == Some(joined(of_server, " "@))
        }),
{
}

} // verus!
