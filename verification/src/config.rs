//! The service's settings, and the rule that a token is always in place
//! before traffic is served.

use vstd::prelude::*;
use crate::text::string_of;

verus! {

/// The allow-list and its switch.
#[derive(Debug, Clone)]
pub struct WhitelistConfig {
    pub enabled: bool,
    /// CIDR ranges or single addresses, as text.
    pub list: Vec<String>,
}

/// Everything the service is told at startup.
#[derive(Debug, Clone)]
pub struct AppConfig {
    pub host: String,
    pub port: u16,
    pub whitelist: WhitelistConfig,
    pub token: String,
}

/// The length of a token that the service makes for itself.
pub const TOKEN_LEN: usize = 32;

/// The port that is listened on unless the settings say otherwise.
pub const DEFAULT_PORT: u16 = 2141;

/// An ASCII letter or digit.
pub open spec fn is_alphanumeric(c: char) -> bool {
    ('0' <= c && c <= '9') || ('A' <= c && c <= 'Z') || ('a' <= c && c <= 'z')
}

/// A token as the service makes it: `TOKEN_LEN` ASCII letters and digits.
pub open spec fn is_fresh_token(token: Seq<char>) -> bool {
    token.len() == TOKEN_LEN && forall|i: int| 0 <= i < token.len() ==> is_alphanumeric(token[i])
}

impl AppConfig {
    /// A token is in place.
    pub open spec fn wf(&self) -> bool {
        self.token@.len() > 0
    }

    /// The settings that are used where none are given, but for the token:
    /// every interface, the default port, and an allow-list that is switched
    /// on and holds the loopback address alone.
    pub open spec fn has_default_shape(&self) -> bool {
        &&& self.host@ == "0.0.0.0"@
        &&& self.port == DEFAULT_PORT
        &&& self.whitelist.enabled
        &&& self.whitelist.list@.len() == 1
        &&& self.whitelist.list@[0]@ == "127.0.0.1/32"@
    }
}

/// Calls `rand::Rng::sample` on the thread's generator with the
/// `Alphanumeric` distribution, which draws from the ASCII letters and digits.
/// Nothing else is known of the outcome.
#[verifier::external_body]
fn sample_alphanumeric() -> (c: char)
    ensures
        is_alphanumeric(c),
{
    char::from(rand::Rng::sample(&mut rand::thread_rng(), rand::distributions::Alphanumeric))
}

/// Draws a token of `TOKEN_LEN` random ASCII letters and digits.
pub fn generate_token() -> (token: String)
    ensures
        is_fresh_token(token@),
{
    let mut drawn: Vec<char> = Vec::new();
    while drawn.len() < TOKEN_LEN
        invariant
            drawn.len() <= TOKEN_LEN,
            forall|i: int| 0 <= i < drawn.len() ==> is_alphanumeric(drawn@[i]),
        decreases TOKEN_LEN - drawn.len(),
    {
        let c = sample_alphanumeric();
        drawn.push(c);
    }
    string_of(&drawn)
}

impl Default for AppConfig {
    /// The default settings with a token drawn for the occasion.
    fn default() -> (config: AppConfig)
        ensures
            config.has_default_shape(),
            is_fresh_token(config.token@),
    {
        let mut list: Vec<String> = Vec::new();
        list.push("127.0.0.1/32".to_string());
        AppConfig {
            host: "0.0.0.0".to_string(),
            port: DEFAULT_PORT,
            whitelist: WhitelistConfig { enabled: true, list },
            token: generate_token(),
        }
    }
}

/// There are no stored settings to serve with: none were found, or what was
/// found could not be read as settings. Startup ends on it.
#[derive(Clone, Copy, Debug, PartialEq, Eq, Structural)]
pub struct ConfigInvalid;

/// Settles the settings to serve with, from what was read of the stored ones
/// (`None` where nothing was stored or it could not be read).
///
/// Without stored settings there is nothing to serve with. Stored settings
/// are kept as they are; where they lack a token, one is drawn and the flag
/// beside the settings says that they are to be stored again before any
/// request is answered.
pub fn settle_config(stored: Option<AppConfig>) -> (r: Result<(AppConfig, bool), ConfigInvalid>)
    ensures
        match stored {
            None => r is Err,
            Some(given) => {
                &&& r matches Ok(settled)
                &&& settled.0.wf()
                &&& settled.0.host == given.host
                &&& settled.0.port == given.port
                &&& settled.0.whitelist == given.whitelist
                &&& settled.1 == (given.token@.len() == 0)
                &&& if given.token@.len() == 0 {
                    is_fresh_token(settled.0.token@)
                } else {
                    settled.0.token == given.token
                }
            },
        },
{
    match stored {
        None => Err(ConfigInvalid),
        Some(given) => {
            if given.token.as_str().is_empty() {
                let mut config = given;
                config.token = generate_token();
                Ok((config, true))
            } else {
                Ok((given, false))
            }
        },
    }
}

} // verus!
