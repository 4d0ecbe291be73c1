//! The provider's identity, its static metadata and its error values.

use vstd::prelude::*;
use crate::region::{MiniMaxRegion, region_for_setting};
use crate::text::{chars_of, string_of, trim, trim_chars};

verus! {

/// Identifies a usage provider.
#[derive(Debug, Clone, Copy, PartialEq, Eq, Structural)]
pub enum ProviderId {
    MiniMax,
}

/// Where usage is read from.
#[derive(Debug, Clone, Copy, PartialEq, Eq, Structural)]
pub enum SourceMode {
    Auto,
    Web,
    Cli,
    OAuth,
}

/// Why fetching usage failed.
#[derive(Debug)]
pub enum ProviderError {
    /// The provider's credentials or tools are not set up.
    NotInstalled(String),
    /// The service refused the credentials.
    AuthRequired,
    /// A response could not be read.
    Parse(String),
    /// The request could not be carried out.
    Network(String),
    /// Any other failure, with its message.
    Other(String),
    /// The provider cannot read usage from this source.
    UnsupportedSource(SourceMode),
}

/// Static facts about a provider, as shown in settings and menus.
#[derive(Debug, Clone, Copy)]
pub struct ProviderMetadata {
    pub id: ProviderId,
    pub display_name: &'static str,
    pub session_label: &'static str,
    pub weekly_label: &'static str,
    pub supports_opus: bool,
    pub supports_credits: bool,
    pub default_enabled: bool,
    pub is_primary: bool,
    pub dashboard_url: Option<&'static str>,
    pub status_page_url: Option<&'static str>,
}

/// The dashboard opened for MiniMax when no region is chosen.
pub open spec fn minimax_dashboard_text() -> Seq<char> {
    "https://platform.minimax.io/user-center/payment/coding-plan?cycle_type=3"@
}

/// The metadata the MiniMax provider carries.
pub open spec fn minimax_metadata(m: ProviderMetadata) -> bool {
    &&& m.id == ProviderId::MiniMax
    &&& m.display_name@ == "MiniMax"@
    &&& m.session_label@ == "Usage"@
    &&& m.weekly_label@ == "Monthly"@
    &&& !m.supports_opus
    &&& m.supports_credits
    &&& !m.default_enabled
    &&& !m.is_primary
    &&& m.dashboard_url matches Some(u) && u@ == minimax_dashboard_text()
    &&& m.status_page_url is None
}

/// MiniMax provider
pub struct MiniMaxProvider {
    metadata: ProviderMetadata,
}

impl MiniMaxProvider {
    /// The metadata this provider was built with.
    pub closed spec fn spec_metadata(&self) -> ProviderMetadata {
        self.metadata
    }

    pub fn new() -> (r: Self)
        ensures
            minimax_metadata(r.spec_metadata()),
    {
        Self {
            metadata: ProviderMetadata {
                id: ProviderId::MiniMax,
                display_name: "MiniMax",
                session_label: "Usage",
                weekly_label: "Monthly",
                supports_opus: false,
                supports_credits: true,
                default_enabled: false,
                is_primary: false,
                dashboard_url: Some(
                    "https://platform.minimax.io/user-center/payment/coding-plan?cycle_type=3",
                ),
                status_page_url: None,
            },
        }
    }

    pub fn id(&self) -> (r: ProviderId)
        ensures
            r == ProviderId::MiniMax,
    {
        ProviderId::MiniMax
    }

    pub fn metadata(&self) -> (r: &ProviderMetadata)
        ensures
            *r == self.spec_metadata(),
    {
        &self.metadata
    }

    /// The sources this provider can read usage from.
    pub fn available_sources(&self) -> (r: Vec<SourceMode>)
        ensures
            r@ == seq![SourceMode::Auto, SourceMode::Web, SourceMode::Cli],
    {
        vec![SourceMode::Auto, SourceMode::Web, SourceMode::Cli]
    }

    pub fn supports_web(&self) -> (r: bool)
        ensures
            r,
    {
        true
    }

    pub fn supports_cli(&self) -> (r: bool)
        ensures
            r,
    {
        true
    }

    pub fn region_from_settings(value: Option<&str>) -> (r: MiniMaxRegion)
        ensures
            r == region_for_setting(value),
    {
        MiniMaxRegion::from_settings_value(value)
    }

    pub fn dashboard_url_for_region(value: Option<&str>) -> (r: String)
        ensures
            r@ == region_for_setting(value).coding_plan_text(),
    {
        Self::region_from_settings(value).coding_plan_url()
    }

    pub fn cookie_domain_for_region(value: Option<&str>) -> (r: &'static str)
        ensures
            r@ == region_for_setting(value).cookie_domain_text(),
    {
        Self::region_from_settings(value).cookie_domain()
    }

    /// The group id of an imported browser session, trimmed; nothing when
    /// the session has none or it is blank.
    pub fn local_storage_group_id(session_group_id: Option<&str>) -> (r: Option<String>)
        ensures
            match session_group_id {
                Some(g) => if trim(g@).len() > 0 {
                    r matches Some(s) && s@ == trim(g@)
                } else {
                    r is None
                },
                None => r is None,
            },
    {
        match session_group_id {
            Some(g) => {
                let t = trim_chars(&chars_of(g));
                if t.len() > 0 {
                    Some(string_of(&t))
                } else {
                    None
                }
            },
            None => None,
        }
    }

    /// API base URLs for different regions
    pub fn api_base_url(region: MiniMaxRegion) -> (r: &'static str)
        ensures
            r@ == region.api_base_text(),
    {
        match region {
            MiniMaxRegion::Global => "https://api.minimax.io",
            MiniMaxRegion::ChinaMainland => "https://api.minimaxi.com",
        }
    }
}

impl Default for MiniMaxProvider {
    fn default() -> (r: Self)
        ensures
            minimax_metadata(r.spec_metadata()),
    {
        Self::new()
    }
}

} // verus!
