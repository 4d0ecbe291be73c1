//! The decisions of a usage fetch: which source to try next, which region
//! to fall back to, and where credentials come from. The requests
//! themselves are made by the caller, which reports each outcome back.

use vstd::prelude::*;
use crate::json::{json_get, json_str, parse_json, spec_json_parse, str_of};
use crate::provider::{ProviderError, SourceMode};
use crate::region::MiniMaxRegion;

verus! {

/// A way of reading usage.
#[derive(Debug, Clone, Copy, PartialEq, Eq, Structural)]
pub enum FetchStep {
    /// The token-plan endpoint, with the API key from settings.
    TokenPlan,
    /// The billing history, with the cookie from settings.
    CookieBilling,
    /// The legacy usage endpoint, with the key from the environment or the
    /// config file.
    LegacyApi,
    /// A check that credentials are configured at all.
    Probe,
}

/// What to do next.
#[derive(Debug, Clone, Copy, PartialEq, Eq, Structural)]
pub enum FetchAction {
    /// Carry out this step and report whether it succeeded.
    Run(FetchStep),
    /// Return the outcome of the step just carried out.
    Finish,
    /// Fail: the source cannot be read.
    Unsupported,
}

/// The first action of a fetch.
pub open spec fn first_action_of(mode: SourceMode, has_api_key: bool, has_cookie: bool) -> FetchAction {
    match mode {
        SourceMode::Auto | SourceMode::Web => if has_api_key {
            FetchAction::Run(FetchStep::TokenPlan)
        } else if has_cookie {
            FetchAction::Run(FetchStep::CookieBilling)
        } else {
            FetchAction::Run(FetchStep::LegacyApi)
        },
        SourceMode::Cli => FetchAction::Run(FetchStep::Probe),
        SourceMode::OAuth => FetchAction::Unsupported,
    }
}

/// The action after `step` ended (`succeeded` tells how). In automatic
/// mode a failed step falls back to the next source: a failed token-plan
/// request to the cookie (when there is one) or else to the legacy
/// endpoint, a failed cookie request to the legacy endpoint, and a failed
/// legacy request to the probe; in the other modes the first step's
/// outcome is final.
pub open spec fn next_action_of(mode: SourceMode, has_cookie: bool, step: FetchStep, succeeded: bool) -> FetchAction {
    if succeeded || mode != SourceMode::Auto {
        FetchAction::Finish
    } else {
        match step {
            FetchStep::TokenPlan => if has_cookie {
                FetchAction::Run(FetchStep::CookieBilling)
            } else {
                FetchAction::Run(FetchStep::LegacyApi)
            },
            FetchStep::CookieBilling => FetchAction::Run(FetchStep::LegacyApi),
            FetchStep::LegacyApi => FetchAction::Run(FetchStep::Probe),
            FetchStep::Probe => FetchAction::Finish,
        }
    }
}

pub fn first_action(mode: SourceMode, has_api_key: bool, has_cookie: bool) -> (r: FetchAction)
    ensures
        r == first_action_of(mode, has_api_key, has_cookie),
{
    match mode {
        SourceMode::Auto | SourceMode::Web => if has_api_key {
            FetchAction::Run(FetchStep::TokenPlan)
        } else if has_cookie {
            FetchAction::Run(FetchStep::CookieBilling)
        } else {
            FetchAction::Run(FetchStep::LegacyApi)
        },
        SourceMode::Cli => FetchAction::Run(FetchStep::Probe),
        SourceMode::OAuth => FetchAction::Unsupported,
    }
}

pub fn next_action(mode: SourceMode, has_cookie: bool, step: FetchStep, succeeded: bool) -> (r:
    FetchAction)
    ensures
        r == next_action_of(mode, has_cookie, step, succeeded),
{
    if succeeded {
        return FetchAction::Finish;
    }
    match mode {
        SourceMode::Auto => match step {
            FetchStep::TokenPlan => if has_cookie {
                FetchAction::Run(FetchStep::CookieBilling)
            } else {
                FetchAction::Run(FetchStep::LegacyApi)
            },
            FetchStep::CookieBilling => FetchAction::Run(FetchStep::LegacyApi),
            FetchStep::LegacyApi => FetchAction::Run(FetchStep::Probe),
            FetchStep::Probe => FetchAction::Finish,
        },
        _ => FetchAction::Finish,
    }
}

/// The label of the source a step reads usage from.
pub open spec fn source_label_of(step: FetchStep) -> Seq<char> {
    match step {
        FetchStep::TokenPlan => "api"@,
        FetchStep::CookieBilling => "web-billing"@,
        FetchStep::LegacyApi => "api"@,
        FetchStep::Probe => "cli"@,
    }
}

pub fn source_label(step: FetchStep) -> (r: &'static str)
    ensures
        r@ == source_label_of(step),
{
    match step {
        FetchStep::TokenPlan => "api",
        FetchStep::CookieBilling => "web-billing",
        FetchStep::LegacyApi => "api",
        FetchStep::Probe => "cli",
    }
}

/// The region to retry a legacy request in: a global request refused for
/// its credentials is retried in the China mainland region.
pub open spec fn retry_region_of(region: MiniMaxRegion, auth_refused: bool) -> Option<MiniMaxRegion> {
    if auth_refused && region == MiniMaxRegion::Global {
        Some(MiniMaxRegion::ChinaMainland)
    } else {
        None
    }
}

pub fn retry_region(region: MiniMaxRegion, auth_refused: bool) -> (r: Option<MiniMaxRegion>)
    ensures
        r == retry_region_of(region, auth_refused),
{
    if auth_refused && region == MiniMaxRegion::Global {
        Some(MiniMaxRegion::ChinaMainland)
    } else {
        None
    }
}

/// A group id and API key.
#[derive(Debug)]
pub struct Credentials {
    pub group_id: String,
    pub api_key: String,
}

/// The credentials the environment gives, when it gives both parts.
pub fn env_credentials(group_id: Option<String>, api_key: Option<String>) -> (r: Option<Credentials>)
    ensures
        match (group_id, api_key) {
            (Some(g), Some(k)) => r matches Some(c) && c.group_id@ == g@ && c.api_key@ == k@,
            _ => r is None,
        },
{
    match (group_id, api_key) {
        (Some(g), Some(k)) => Some(Credentials { group_id: g, api_key: k }),
        _ => None,
    }
}

/// What was found of the config file.
#[derive(Debug)]
pub enum ConfigLookup {
    /// No config directory is known.
    NoConfigDir,
    /// The config file does not exist.
    Missing,
    /// The file could not be read; the reason.
    Unreadable(String),
    /// The file's text.
    Contents(String),
}

/// Whether an error is `NotInstalled` with message `m`.
pub open spec fn not_installed_with(e: ProviderError, m: Seq<char>) -> bool {
    e matches ProviderError::NotInstalled(text) && text@ == m
}

/// The credentials a config file's text gives: read as JSON, its string
/// members `group_id` and `api_key`; a parse error with serde's message
/// when the text is not JSON; `AuthRequired` when either member is missing
/// or not a string.
pub open spec fn config_text_outcome(content: Seq<char>, r: Result<Credentials, ProviderError>) -> bool {
    match spec_json_parse(content) {
        Err(m) => r matches Err(ProviderError::Parse(t)) && t@ == m,
        Ok(json) => match (json_str(json_get(json, "group_id"@)), json_str(json_get(json, "api_key"@))) {
            (Some(g), Some(k)) => r matches Ok(c) && c.group_id@ == g && c.api_key@ == k,
            _ => r matches Err(ProviderError::AuthRequired),
        },
    }
}

/// What reading credentials from the config file ends with.
pub open spec fn config_outcome_ok(lookup: ConfigLookup, r: Result<Credentials, ProviderError>) -> bool {
    match lookup {
        ConfigLookup::NoConfigDir => r matches Err(e) && not_installed_with(
            e,
            "MiniMax config not found"@,
        ),
        ConfigLookup::Missing => r matches Err(ProviderError::AuthRequired),
        ConfigLookup::Unreadable(m) => r matches Err(ProviderError::Other(t)) && t@ == m@,
        ConfigLookup::Contents(text) => config_text_outcome(text@, r),
    }
}

/// Reads the credentials from a config file's text.
pub fn config_credentials_from_text(content: &str) -> (r: Result<Credentials, ProviderError>)
    ensures
        config_text_outcome(content@, r),
{
    match parse_json(content) {
        Err(m) => Err(ProviderError::Parse(m)),
        Ok(json) => {
            let group_id = str_of(json.get("group_id"));
            let api_key = str_of(json.get("api_key"));
            match (group_id, api_key) {
                (Some(g), Some(k)) => Ok(
                    Credentials { group_id: String::from_str(g), api_key: String::from_str(k) },
                ),
                _ => Err(ProviderError::AuthRequired),
            }
        },
    }
}

pub fn config_credentials(lookup: ConfigLookup) -> (r: Result<Credentials, ProviderError>)
    ensures
        config_outcome_ok(lookup, r),
{
    match lookup {
        ConfigLookup::NoConfigDir => Err(
            ProviderError::NotInstalled(String::from_str("MiniMax config not found")),
        ),
        ConfigLookup::Missing => Err(ProviderError::AuthRequired),
        ConfigLookup::Unreadable(m) => Err(ProviderError::Other(m)),
        ConfigLookup::Contents(text) => config_credentials_from_text(text.as_str()),
    }
}

/// The outcome of the credentials probe: configured when an API key is in
/// the environment or a config file exists.
pub fn probe_outcome(has_env_key: bool, has_config_file: bool) -> (r: Result<&'static str, ProviderError>)
    ensures
        has_env_key || has_config_file ==> (r matches Ok(label) && label@
            == "MiniMax (configured)"@),
        !(has_env_key || has_config_file) ==> (r matches Err(e) && not_installed_with(
            e,
            "MiniMax API not configured. Set MINIMAX_API_KEY and MINIMAX_GROUP_ID environment variables"@,
        )),
{
    if has_env_key || has_config_file {
        Ok("MiniMax (configured)")
    } else {
        Err(
            ProviderError::NotInstalled(
                String::from_str(
                    "MiniMax API not configured. Set MINIMAX_API_KEY and MINIMAX_GROUP_ID environment variables",
                ),
            ),
        )
    }
}

} // verus!
