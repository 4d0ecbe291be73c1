use codexbar_minimax::provider::MiniMaxProvider;
use codexbar_minimax::region::MiniMaxRegion;

#[test]
fn minimax_region_defaults_to_global_io_urls() {
    let region = MiniMaxRegion::from_settings_value(None);
    assert_eq!(region, MiniMaxRegion::Global);
    assert_eq!(region.settings_value(), "global");
    assert_eq!(region.cookie_domain(), "platform.minimax.io");
    assert_eq!(
        region.coding_plan_url(),
        "https://platform.minimax.io/user-center/payment/coding-plan?cycle_type=3"
    );
    assert_eq!(
        MiniMaxProvider::dashboard_url_for_region(None),
        "https://platform.minimax.io/user-center/payment/coding-plan?cycle_type=3"
    );
}

#[test]
fn minimax_region_accepts_legacy_china_value() {
    for value in ["cn", "china", "china-mainland", "china_mainland"] {
        let region = MiniMaxRegion::from_settings_value(Some(value));
        assert_eq!(region, MiniMaxRegion::ChinaMainland);
        assert_eq!(region.settings_value(), "cn");
        assert_eq!(region.cookie_domain(), "platform.minimaxi.com");
        assert_eq!(
            region.coding_plan_url(),
            "https://platform.minimaxi.com/user-center/payment/coding-plan?cycle_type=3"
        );
    }
}

#[test]
fn minimax_region_cookie_domain_global() {
    assert_eq!(MiniMaxRegion::Global.cookie_domain(), "platform.minimax.io");
}

#[test]
fn minimax_region_cookie_domain_china() {
    assert_eq!(
        MiniMaxRegion::ChinaMainland.cookie_domain(),
        "platform.minimaxi.com"
    );
}

#[test]
fn minimax_region_from_str() {
    assert_eq!(MiniMaxRegion::from("china"), MiniMaxRegion::ChinaMainland);
    assert_eq!(MiniMaxRegion::from("global"), MiniMaxRegion::Global);
    assert_eq!(MiniMaxRegion::from("unknown"), MiniMaxRegion::Global);
    assert_eq!(MiniMaxRegion::from(""), MiniMaxRegion::Global);
}

#[test]
fn region_setting_ignores_case_and_whitespace() {
    assert_eq!(
        MiniMaxRegion::from_settings_value(Some("  CHINA \n")),
        MiniMaxRegion::ChinaMainland
    );
    assert_eq!(
        MiniMaxRegion::from_settings_value(Some("Mainland")),
        MiniMaxRegion::ChinaMainland
    );
    assert_eq!(
        MiniMaxRegion::from_settings_value(Some("china mainland")),
        MiniMaxRegion::Global
    );
    assert_eq!(MiniMaxRegion::from_settings_value(Some("")), MiniMaxRegion::Global);
    assert_eq!(MiniMaxRegion::from("China"), MiniMaxRegion::Global);
}

#[test]
fn settings_value_round_trips() {
    for region in [MiniMaxRegion::Global, MiniMaxRegion::ChinaMainland] {
        assert_eq!(
            MiniMaxRegion::from_settings_value(Some(region.settings_value())),
            region
        );
    }
}

#[test]
fn region_hosts() {
    assert_eq!(MiniMaxRegion::Global.base_url(), "https://platform.minimax.io");
    assert_eq!(MiniMaxRegion::ChinaMainland.api_base_url(), "https://api.minimaxi.com");
    assert_eq!(MiniMaxRegion::Global.api_base_url(), "https://api.minimax.io");
    assert_eq!(
        MiniMaxRegion::ChinaMainland.display_name(),
        "China mainland (platform.minimaxi.com)"
    );
    assert_eq!(MiniMaxRegion::Global.display_name(), "Global (platform.minimax.io)");
    assert_eq!(
        MiniMaxRegion::ChinaMainland.billing_history_url(),
        "https://www.minimaxi.com/account/amount"
    );
    assert_eq!(
        MiniMaxRegion::Global.billing_history_url(),
        "https://platform.minimax.io/account/amount"
    );
    for region in [MiniMaxRegion::Global, MiniMaxRegion::ChinaMainland] {
        assert_eq!(region.base_url(), format!("https://{}", region.cookie_domain()));
    }
}

#[test]
fn provider_metadata_and_region_helpers() {
    let provider = MiniMaxProvider::new();
    let meta = provider.metadata();
    assert_eq!(meta.display_name, "MiniMax");
    assert_eq!(meta.session_label, "Usage");
    assert_eq!(meta.weekly_label, "Monthly");
    assert!(meta.supports_credits);
    assert!(!meta.supports_opus);
    assert!(!meta.default_enabled);
    assert!(!meta.is_primary);
    assert_eq!(
        meta.dashboard_url,
        Some(MiniMaxRegion::Global.coding_plan_url().as_str())
    );
    assert_eq!(meta.status_page_url, None);
    assert_eq!(
        MiniMaxProvider::cookie_domain_for_region(Some("cn")),
        "platform.minimaxi.com"
    );
    assert_eq!(
        MiniMaxProvider::region_from_settings(Some("china")),
        MiniMaxRegion::ChinaMainland
    );
    assert_eq!(
        MiniMaxProvider::dashboard_url_for_region(Some("cn")),
        "https://platform.minimaxi.com/user-center/payment/coding-plan?cycle_type=3"
    );
    assert_eq!(
        MiniMaxProvider::api_base_url(MiniMaxRegion::Global),
        "https://api.minimax.io"
    );
    assert!(provider.supports_web());
    assert!(provider.supports_cli());
    assert_eq!(provider.available_sources().len(), 3);
}

#[test]
fn unknown_region_uses_global_cookie_domain() {
    for name in ["unknown", "China", "cn", " china", ""] {
        assert_eq!(MiniMaxRegion::from(name).cookie_domain(), "platform.minimax.io");
    }
    assert_eq!(MiniMaxRegion::from("china").cookie_domain(), "platform.minimaxi.com");
}
