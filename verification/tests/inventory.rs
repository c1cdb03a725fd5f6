//! The networks in reach.
use xbar::dbus::inventory::deduplicate_wifi_access_points;
use xbar::domain::state::NetworkAccessPoint;

fn ap(ssid: &str, frequency: u32, strength: u8, active: bool) -> NetworkAccessPoint {
    NetworkAccessPoint {
        path: format!("/ap/{ssid}/{frequency}/{strength}"),
        device_path: "/device/0".into(),
        interface: "wlan0".into(),
        ssid: ssid.into(),
        strength,
        frequency,
        is_active: active,
        saved_profile: None,
    }
}

#[test]
fn empty_ssids_are_filtered_without_synthesizing_hidden_rows() {
    let candidates = deduplicate_wifi_access_points(vec![
        ap("", 2412, 90, false),
        ap("   ", 5180, 80, false),
        ap("Visible", 2412, 70, false),
    ]);
    assert_eq!(candidates.len(), 1);
    assert_eq!(candidates[0].ssid, "Visible");
    assert!(candidates.iter().all(|candidate| {
        !candidate.ssid.is_empty() && !candidate.ssid.eq_ignore_ascii_case("hidden")
    }));
}

#[test]
fn saved_and_unsaved_networks_are_both_candidates() {
    let mut saved = ap("Saved", 2412, 50, false);
    saved.saved_profile = Some("/profile/saved".into());
    let unsaved = ap("Unsaved", 2412, 60, false);
    let other_unsaved = ap("Other", 5180, 55, false);
    let candidates = deduplicate_wifi_access_points(vec![saved, unsaved, other_unsaved]);
    assert_eq!(candidates.len(), 3);
    assert!(candidates
        .iter()
        .any(|candidate| candidate.saved_profile.is_none()));
    assert!(candidates
        .iter()
        .any(|candidate| candidate.saved_profile.is_some()));
}

#[test]
fn strongest_ap_wins_per_ssid_and_band_while_bands_are_preserved() {
    let candidates = deduplicate_wifi_access_points(vec![
        ap("Foo", 5180, 40, false),
        ap("Foo", 5200, 75, true),
        ap("Foo", 2412, 55, false),
    ]);
    assert_eq!(candidates.len(), 2);
    assert_eq!(
        candidates
            .iter()
            .find(|candidate| candidate.frequency == 5200)
            .map(|candidate| candidate.strength),
        Some(75)
    );
    assert!(candidates
        .iter()
        .any(|candidate| candidate.frequency == 2412));
    assert!(candidates
        .iter()
        .find(|candidate| candidate.frequency == 5200)
        .is_some_and(|candidate| candidate.is_active));
}

#[test]
fn inventory_does_not_truncate_large_candidate_sets() {
    let raw = (0..64)
        .map(|index| ap(&format!("Network-{index}"), 2412, index as u8, false))
        .collect();
    assert_eq!(deduplicate_wifi_access_points(raw).len(), 64);
}

#[test]
fn same_ssid_on_different_devices_is_not_globally_deduplicated() {
    let wlan0 = deduplicate_wifi_access_points(vec![ap("Foo", 2412, 80, true)]);
    let mut wlan1_ap = ap("Foo", 2412, 70, true);
    wlan1_ap.device_path = "/device/1".into();
    wlan1_ap.interface = "wlan1".into();
    let wlan1 = deduplicate_wifi_access_points(vec![wlan1_ap]);
    assert_eq!(wlan0.len(), 1);
    assert_eq!(wlan1.len(), 1);
    assert_ne!(wlan0[0].device_path, wlan1[0].device_path);
}
