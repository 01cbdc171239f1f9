use rehyke_core::browser_fingerprint::{
    desktop_timezones, desktop_uas, language_profiles, profile_for_viewport, FingerprintProfile,
};
use rehyke_core::config::Viewport;

#[test]
fn test_fingerprint_profile_from_viewport() {
    assert_eq!(
        FingerprintProfile::from(Viewport::Desktop),
        FingerprintProfile::Desktop
    );
    assert_eq!(
        FingerprintProfile::from(Viewport::Tablet),
        FingerprintProfile::Tablet
    );
    assert_eq!(
        FingerprintProfile::from(Viewport::Mobile),
        FingerprintProfile::Mobile
    );
}

#[test]
fn test_desktop_ua_pool_non_empty() {
    assert!(!desktop_uas().is_empty());
}

#[test]
fn test_language_profiles_non_empty() {
    assert!(!language_profiles().is_empty());
    for profile in language_profiles() {
        assert!(!profile.is_empty(), "Empty language profile found");
    }
}

#[test]
fn test_timezone_table_non_empty() {
    assert!(!desktop_timezones().is_empty());
    for (name, _offset) in desktop_timezones() {
        assert!(!name.is_empty(), "Empty timezone name");
    }
}

#[test]
fn test_profile_for_viewport_matches_from() {
    for v in [Viewport::Desktop, Viewport::Tablet, Viewport::Mobile] {
        assert_eq!(profile_for_viewport(v), FingerprintProfile::from(v));
    }
}

#[test]
fn test_desktop_uas_cover_platforms() {
    let uas = desktop_uas();
    assert!(uas.iter().any(|u| u.contains("Macintosh")));
    assert!(uas.iter().any(|u| u.contains("Windows NT")));
    assert!(uas.iter().any(|u| u.contains("Linux")));
}

#[test]
fn desktop_platform_follows_the_user_agent() {
    assert_eq!(
        rehyke_core::browser_fingerprint::desktop_platform(
            "Mozilla/5.0 (Macintosh; Intel Mac OS X 14_5) AppleWebKit/605.1.15"
        ),
        "MacIntel"
    );
    assert_eq!(
        rehyke_core::browser_fingerprint::desktop_platform("Mozilla/5.0 (Windows NT 10.0; Win64; x64)"),
        "Win32"
    );
}
