//! The two MiniMax regions and the hosts each one is served from.

use vstd::prelude::*;
use vstd::std_specs::convert::FromSpecImpl;
use crate::text::{chars_eq, chars_of, string_of, to_lowercase, trim, trim_chars, lowercase};

verus! {

/// Path of the coding-plan page on a region's web console.
pub const CODING_PLAN_PATH: &'static str = "/user-center/payment/coding-plan";

/// Query selecting the billing cycle shown on the coding-plan page.
pub const CODING_PLAN_QUERY: &'static str = "cycle_type=3";

/// MiniMax API region
#[derive(Debug, Clone, Copy, PartialEq, Eq, Structural)]
pub enum MiniMaxRegion {
    Global,
    ChinaMainland,
}

/// The text of an optional setting, the empty text when it is absent.
pub open spec fn setting_text(value: Option<&str>) -> Seq<char> {
    match value {
        Some(s) => s@,
        None => Seq::empty(),
    }
}

/// The setting trimmed and lowered, as the region lookup compares it.
pub open spec fn region_key(value: Option<&str>) -> Seq<char> {
    lowercase(trim(setting_text(value)))
}

/// The spellings that select the China mainland region.
pub open spec fn names_china_mainland(key: Seq<char>) -> bool {
    ||| key == "cn"@
    ||| key == "china"@
    ||| key == "china-mainland"@
    ||| key == "china_mainland"@
    ||| key == "mainland"@
}

/// The region a settings value selects.
pub open spec fn region_for_setting(value: Option<&str>) -> MiniMaxRegion {
    if names_china_mainland(region_key(value)) {
        MiniMaxRegion::ChinaMainland
    } else {
        MiniMaxRegion::Global
    }
}

impl MiniMaxRegion {
    /// The value stored in settings for this region.
    pub open spec fn settings_text(self) -> Seq<char> {
        match self {
            MiniMaxRegion::Global => "global"@,
            MiniMaxRegion::ChinaMainland => "cn"@,
        }
    }

    /// The name shown to users for this region.
    pub open spec fn display_text(self) -> Seq<char> {
        match self {
            MiniMaxRegion::Global => "Global (platform.minimax.io)"@,
            MiniMaxRegion::ChinaMainland => "China mainland (platform.minimaxi.com)"@,
        }
    }

    /// The web console of this region.
    pub open spec fn base_text(self) -> Seq<char> {
        match self {
            MiniMaxRegion::Global => "https://platform.minimax.io"@,
            MiniMaxRegion::ChinaMainland => "https://platform.minimaxi.com"@,
        }
    }

    /// The API host of this region.
    pub open spec fn api_base_text(self) -> Seq<char> {
        match self {
            MiniMaxRegion::Global => "https://api.minimax.io"@,
            MiniMaxRegion::ChinaMainland => "https://api.minimaxi.com"@,
        }
    }

    /// The domain whose cookies authenticate against this region.
    pub open spec fn cookie_domain_text(self) -> Seq<char> {
        match self {
            MiniMaxRegion::Global => "platform.minimax.io"@,
            MiniMaxRegion::ChinaMainland => "platform.minimaxi.com"@,
        }
    }

    /// The coding-plan page of this region.
    pub open spec fn coding_plan_text(self) -> Seq<char> {
        self.base_text() + CODING_PLAN_PATH@ + "?"@ + CODING_PLAN_QUERY@
    }

    /// The billing-history endpoint of this region. The China console keeps
    /// its dashboards on platform.minimaxi.com but serves billing history
    /// from www.minimaxi.com.
    pub open spec fn billing_history_text(self) -> Seq<char> {
        match self {
            MiniMaxRegion::ChinaMainland => "https://www.minimaxi.com/account/amount"@,
            MiniMaxRegion::Global => self.base_text() + "/account/amount"@,
        }
    }

    /// Reads the region from a settings value: surrounding whitespace is
    /// ignored, case is folded, and the China mainland spellings select
    /// `ChinaMainland`; anything else, an absent value included, is `Global`.
    pub fn from_settings_value(value: Option<&str>) -> (r: Self)
        ensures
            r == region_for_setting(value),
    {
        let raw = match value {
            Some(s) => chars_of(s),
            None => Vec::new(),
        };
        let trimmed = string_of(&trim_chars(&raw));
        let lowered = to_lowercase(trimmed.as_str());
        let key = chars_of(lowered.as_str());
        if chars_eq(&key, &chars_of("cn")) || chars_eq(&key, &chars_of("china")) || chars_eq(
            &key,
            &chars_of("china-mainland"),
        ) || chars_eq(&key, &chars_of("china_mainland")) || chars_eq(&key, &chars_of("mainland")) {
            MiniMaxRegion::ChinaMainland
        } else {
            MiniMaxRegion::Global
        }
    }

    pub fn settings_value(self) -> (r: &'static str)
        ensures
            r@ == self.settings_text(),
    {
        match self {
            MiniMaxRegion::Global => "global",
            MiniMaxRegion::ChinaMainland => "cn",
        }
    }

    pub fn display_name(self) -> (r: &'static str)
        ensures
            r@ == self.display_text(),
    {
        match self {
            MiniMaxRegion::Global => "Global (platform.minimax.io)",
            MiniMaxRegion::ChinaMainland => "China mainland (platform.minimaxi.com)",
        }
    }

    pub fn base_url(self) -> (r: &'static str)
        ensures
            r@ == self.base_text(),
    {
        match self {
            MiniMaxRegion::Global => "https://platform.minimax.io",
            MiniMaxRegion::ChinaMainland => "https://platform.minimaxi.com",
        }
    }

    pub fn api_base_url(self) -> (r: &'static str)
        ensures
            r@ == self.api_base_text(),
    {
        match self {
            MiniMaxRegion::Global => "https://api.minimax.io",
            MiniMaxRegion::ChinaMainland => "https://api.minimaxi.com",
        }
    }

    pub fn cookie_domain(self) -> (r: &'static str)
        ensures
            r@ == self.cookie_domain_text(),
    {
        match self {
            MiniMaxRegion::Global => "platform.minimax.io",
            MiniMaxRegion::ChinaMainland => "platform.minimaxi.com",
        }
    }

    pub fn coding_plan_url(self) -> (r: String)
        ensures
            r@ == self.coding_plan_text(),
    {
        let mut url = String::from_str(self.base_url());
        url.append(CODING_PLAN_PATH);
        url.append("?");
        url.append(CODING_PLAN_QUERY);
        url
    }

    pub fn billing_history_url(self) -> (r: String)
        ensures
            r@ == self.billing_history_text(),
    {
        match self {
            MiniMaxRegion::ChinaMainland => String::from_str("https://www.minimaxi.com/account/amount"),
            MiniMaxRegion::Global => {
                let mut url = String::from_str(self.base_url());
                url.append("/account/amount");
                url
            },
        }
    }
}

impl<'a> From<&'a str> for MiniMaxRegion {
    fn from(s: &'a str) -> (r: Self) {
        if chars_eq(&chars_of(s), &chars_of("china")) {
            MiniMaxRegion::ChinaMainland
        } else {
            MiniMaxRegion::Global
        }
    }
}

impl<'a> FromSpecImpl<&'a str> for MiniMaxRegion {
    open spec fn obeys_from_spec() -> bool {
        true
    }

    /// Only the exact word "china" selects the China mainland region.
    open spec fn from_spec(s: &'a str) -> Self {
        if s@ == "china"@ {
            MiniMaxRegion::ChinaMainland
        } else {
            MiniMaxRegion::Global
        }
    }
}

} // verus!
