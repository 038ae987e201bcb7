//! The access gate: the allow-list first, the token second.

use vstd::prelude::*;
use crate::config::AppConfig;
use crate::request::{authorization_of, RequestDescriptor};
use crate::token::{bearer_prefix, bearer_presents, header_presents, query_has_token, query_presents};
use crate::whitelist::{
    ip_allowed, lemma_one_entry_suffices, list_admits, parsed_address, parsed_range,
};

verus! {

/// Why a request is turned away.
#[derive(Clone, Copy, Debug, PartialEq, Eq, Structural)]
pub enum DenyReason {
    /// The sender's address is on no entry of the allow-list.
    IpNotWhitelisted,
    /// Neither the `Authorization` header nor the query string holds the token.
    MissingOrInvalidToken,
}

/// What is decided of a request.
#[derive(Clone, Copy, Debug, PartialEq, Eq, Structural)]
pub enum AccessDecision {
    Allowed,
    Denied(DenyReason),
}

/// A refusal as it is sent back: the status code and the body.
#[derive(Debug, Clone)]
pub struct Denial {
    pub status: u16,
    pub body: String,
}

/// The status of a refusal by the allow-list.
pub const STATUS_FORBIDDEN: u16 = 403;

/// The status of a refusal for want of the token.
pub const STATUS_UNAUTHORIZED: u16 = 401;

/// The body of every refusal.
pub open spec fn denial_body() -> Seq<char> {
    "Access denied"@
}

/// The allow-list lets a request through when it is switched off, when the
/// sender's address is not known, or when an entry admits that address.
pub open spec fn whitelist_passes(req: RequestDescriptor, config: AppConfig) -> bool {
    !config.whitelist.enabled || match req.peer_ip {
        Some(ip) => list_admits(config.whitelist.list@, ip),
        None => true,
    }
}

/// The request's first `Authorization` header is `Bearer ` and the token.
pub open spec fn header_authenticates(req: RequestDescriptor, config: AppConfig) -> bool {
    match authorization_of(req.headers@) {
        Some(value) => bearer_presents(value, config.token@),
        None => false,
    }
}

/// The request holds the token, in its header or in its query string.
pub open spec fn token_presented(req: RequestDescriptor, config: AppConfig) -> bool {
    header_authenticates(req, config) || query_presents(req.query_string@, config.token@)
}

/// The decision: the allow-list is asked first, and only a request that it
/// lets through is asked for the token.
pub open spec fn decision(req: RequestDescriptor, config: AppConfig) -> AccessDecision {
    if !whitelist_passes(req, config) {
        AccessDecision::Denied(DenyReason::IpNotWhitelisted)
    } else if !token_presented(req, config) {
        AccessDecision::Denied(DenyReason::MissingOrInvalidToken)
    } else {
        AccessDecision::Allowed
    }
}

impl DenyReason {
    /// The status code that tells this refusal from the other.
    pub open spec fn spec_status(self) -> u16 {
        match self {
            DenyReason::IpNotWhitelisted => STATUS_FORBIDDEN,
            DenyReason::MissingOrInvalidToken => STATUS_UNAUTHORIZED,
        }
    }

    /// The status code that tells this refusal from the other.
    pub fn status(self) -> (code: u16)
        ensures
            code == self.spec_status(),
    {
        match self {
            DenyReason::IpNotWhitelisted => STATUS_FORBIDDEN,
            DenyReason::MissingOrInvalidToken => STATUS_UNAUTHORIZED,
        }
    }

    /// The refusal as it is sent back.
    pub fn denial(self) -> (d: Denial)
        ensures
            d.status == self.spec_status(),
            d.body@ == denial_body(),
    {
        Denial { status: self.status(), body: "Access denied".to_string() }
    }
}

/// Judges a request against the settings. Nothing is changed by it.
pub fn evaluate(req: &RequestDescriptor, config: &AppConfig) -> (d: AccessDecision)
    ensures
        d == decision(*req, *config),
{
    if config.whitelist.enabled {
        if let Some(ip) = req.peer_ip {
            if !ip_allowed(&config.whitelist.list, ip) {
                return AccessDecision::Denied(DenyReason::IpNotWhitelisted);
            }
        }
    }
    let token = config.token.as_str();
    let mut token_match = false;
    if let Some(value) = req.authorization() {
        if header_presents(value, token) {
            token_match = true;
        }
    }
    if !token_match {
        token_match = query_has_token(req.query_string.as_str(), token);
    }
    if !token_match {
        return AccessDecision::Denied(DenyReason::MissingOrInvalidToken);
    }
    AccessDecision::Allowed
}

/// Lets a request through or says how it is refused: 403 where the allow-list
/// turns it away, 401 where the token is missing or wrong, and the same body
/// for both.
pub fn check_auth(req: &RequestDescriptor, config: &AppConfig) -> (r: Result<(), Denial>)
    ensures
        match decision(*req, *config) {
            AccessDecision::Allowed => r is Ok,
            AccessDecision::Denied(reason) => r matches Err(d) && d.status == reason.spec_status()
                && d.body@ == denial_body(),
        },
{
    match evaluate(req, config) {
        AccessDecision::Allowed => Ok(()),
        AccessDecision::Denied(reason) => Err(reason.denial()),
    }
}

/// A request whose sender is not known is never turned away by the
/// allow-list, whatever the list holds.
pub proof fn lemma_unknown_peer_passes_whitelist(req: RequestDescriptor, config: AppConfig)
    requires
        req.peer_ip is None,
    ensures
        whitelist_passes(req, config),
        decision(req, config) != AccessDecision::Denied(DenyReason::IpNotWhitelisted),
        decision(req, config) == AccessDecision::Allowed <==> token_presented(req, config),
{
}

/// With the allow-list switched off, the token alone decides.
pub proof fn lemma_disabled_whitelist_passes(req: RequestDescriptor, config: AppConfig)
    requires
        !config.whitelist.enabled,
    ensures
        whitelist_passes(req, config),
        decision(req, config) == AccessDecision::Allowed <==> token_presented(req, config),
{
}

/// One entry that reads as a range holding the sender's address, or as that
/// address itself, is enough for the allow-list to let the request through:
/// the other entries may hold anything, readable or not, before it or after it.
pub proof fn lemma_admitting_entry_passes_whitelist(
    req: RequestDescriptor,
    config: AppConfig,
    at: int,
)
    requires
        req.peer_ip is Some,
        0 <= at < config.whitelist.list@.len(),
        (parsed_range(config.whitelist.list@[at]@) matches Some(r) && r.spec_contains(
            req.peer_ip->0,
        )) || parsed_address(config.whitelist.list@[at]@) == req.peer_ip,
    ensures
        whitelist_passes(req, config),
        decision(req, config) != AccessDecision::Denied(DenyReason::IpNotWhitelisted),
{
    lemma_one_entry_suffices(config.whitelist.list@, at, req.peer_ip->0);
}

/// A request from a sender that one entry admits, whose first `Authorization`
/// header is `Bearer ` and the configured token, is allowed, whatever the
/// other entries of the allow-list hold.
pub proof fn lemma_admitted_sender_with_bearer_token_is_allowed(
    req: RequestDescriptor,
    config: AppConfig,
    at: int,
)
    requires
        req.peer_ip is Some,
        0 <= at < config.whitelist.list@.len(),
        (parsed_range(config.whitelist.list@[at]@) matches Some(r) && r.spec_contains(
            req.peer_ip->0,
        )) || parsed_address(config.whitelist.list@[at]@) == req.peer_ip,
        authorization_of(req.headers@) == Some(bearer_prefix() + config.token@),
    ensures
        decision(req, config) == AccessDecision::Allowed,
{
    lemma_admitting_entry_passes_whitelist(req, config, at);
}

/// A sender that no entry admits is turned away by a switched-on allow-list
/// before the token is looked at.
pub proof fn lemma_whitelist_is_asked_first(req: RequestDescriptor, config: AppConfig)
    requires
        config.whitelist.enabled,
        req.peer_ip is Some,
        !list_admits(config.whitelist.list@, req.peer_ip->0),
    ensures
        decision(req, config) == AccessDecision::Denied(DenyReason::IpNotWhitelisted),
{
}

/// A request whose first `Authorization` header is `Bearer ` and the
/// configured token is allowed wherever the allow-list lets it through.
pub proof fn lemma_bearer_token_is_allowed(req: RequestDescriptor, config: AppConfig)
    requires
        whitelist_passes(req, config),
        authorization_of(req.headers@) == Some(bearer_prefix() + config.token@),
    ensures
        decision(req, config) == AccessDecision::Allowed,
{
}

/// A request whose first `Authorization` header is `Bearer ` and another
/// token, and whose query string does not hold the configured one, is refused
/// for its token wherever the allow-list lets it through.
pub proof fn lemma_other_bearer_token_is_refused(
    req: RequestDescriptor,
    config: AppConfig,
    carried: Seq<char>,
)
    requires
        whitelist_passes(req, config),
        authorization_of(req.headers@) == Some(bearer_prefix() + carried),
        carried != config.token@,
        !query_presents(req.query_string@, config.token@),
    ensures
        decision(req, config) == AccessDecision::Denied(DenyReason::MissingOrInvalidToken),
{
    crate::token::lemma_bearer_presents_only_its_token(carried, config.token@);
}

/// The two refusals never share a status code.
pub proof fn lemma_refusals_are_told_apart(a: DenyReason, b: DenyReason)
    ensures
        a.spec_status() == b.spec_status() <==> a == b,
{
}

} // verus!
