//! The reports of the usage service.
use xbar::dbus::ai_usage::{
    AccountIdentityWire, ActivationGate, ActiveAgentUsageWire, AiUsageSnapshotWire,
    AiUsageSubscription, SnapshotDisposition, UsageMeterWire, UsageStatusWire, UsageSummaryWire,
    UsageValueWire, unique_owner_destination,
};
use xbar::domain::usage::AccountIdentity;

#[test]
fn activation_is_requested_at_most_once() {
    let mut gate = ActivationGate::default();
    assert!(gate.request_once());
    assert!(!gate.request_once());
}

#[test]
fn activation_reply_is_not_state() {
    let mut gate = ActivationGate::default();
    assert!(gate.request_once());
    assert!(!gate.request_once());
}
fn payload(revision: u64, account: AccountIdentityWire) -> Result<AiUsageSnapshotWire, String> {
    Ok(AiUsageSnapshotWire {
        state_revision: revision,
        agents: vec![ActiveAgentUsageWire {
            agent_id: "codex".into(),
            provider_id: "openai".into(),
            account_id: account,
            display_name: "Codex".into(),
            active_instances: 1,
            meters: vec![UsageMeterWire {
                id: "primary".into(),
                label: "Primary".into(),
                used_pct: Some(1),
                remaining_pct: Some(99),
                value: Some(UsageValueWire::Percentage {
                    used_pct: Some(1),
                    remaining_pct: Some(99),
                }),
                reset_at: None,
            }],
            summary: UsageSummaryWire {
                primary_meter_id: Some("primary".into()),
                remaining_pct: Some(99),
            },
            status: UsageStatusWire::Fresh,
            fetched_at: None,
            cache_age_secs: None,
        }],
    })
}

#[test]
fn owner_generation_resets_revision_and_clears_state() {
    let mut subscription = AiUsageSubscription::default();
    assert!(!subscription.owner_appeared(":1.1".into()));
    assert!(matches!(
        subscription.accept_snapshot(":1.1", payload(4, AccountIdentityWire::Default)),
        Ok(SnapshotDisposition::Accepted(_))
    ));
    assert!(subscription.owner_appeared(":1.2".into()));
    assert_eq!(subscription.last_revision, None);
    assert!(subscription.current_usage.is_empty());
    assert!(matches!(
        subscription.accept_snapshot(":1.2", payload(1, AccountIdentityWire::Default)),
        Ok(SnapshotDisposition::Accepted(_))
    ));
}

#[test]
fn stale_and_non_current_snapshots_are_rejected() {
    let mut subscription = AiUsageSubscription::default();
    subscription.owner_appeared(":1.1".into());
    assert!(matches!(
        subscription.accept_snapshot(":1.1", payload(4, AccountIdentityWire::Default)),
        Ok(SnapshotDisposition::Accepted(_))
    ));
    assert!(matches!(
        subscription.accept_snapshot(":1.1", payload(4, AccountIdentityWire::Default)),
        Ok(SnapshotDisposition::Rejected)
    ));
    assert!(matches!(
        subscription.accept_snapshot(":1.1", payload(3, AccountIdentityWire::Default)),
        Ok(SnapshotDisposition::Rejected)
    ));
    assert!(matches!(
        subscription.accept_snapshot(":1.9", payload(9, AccountIdentityWire::Default)),
        Ok(SnapshotDisposition::Rejected)
    ));
}

#[test]
fn owner_loss_clears_canonical_usage() {
    let mut subscription = AiUsageSubscription::default();
    subscription.owner_appeared(":1.1".into());
    assert!(matches!(
        subscription.accept_snapshot(":1.1", payload(1, AccountIdentityWire::Default)),
        Ok(SnapshotDisposition::Accepted(_))
    ));
    assert!(subscription.owner_disappeared(":1.1"));
    assert_eq!(subscription.current_unique_owner, None);
    assert_eq!(subscription.last_revision, None);
    assert!(subscription.current_usage.is_empty());
    assert!(!subscription.owner_disappeared(":1.1"));
}

#[test]
fn initial_and_higher_revisions_are_accepted_once() {
    let mut subscription = AiUsageSubscription::default();
    subscription.owner_appeared(":1.1".into());
    assert!(matches!(
        subscription.accept_snapshot(":1.1", payload(1, AccountIdentityWire::Default)),
        Ok(SnapshotDisposition::Accepted(_))
    ));
    assert!(matches!(
        subscription.accept_snapshot(":1.1", payload(2, AccountIdentityWire::Default)),
        Ok(SnapshotDisposition::Accepted(_))
    ));
    assert_eq!(subscription.last_revision, Some(2));
}

#[test]
fn invalid_snapshot_does_not_replace_last_valid_state() {
    let mut subscription = AiUsageSubscription::default();
    subscription.owner_appeared(":1.1".into());
    let valid = payload(1, AccountIdentityWire::Default);
    assert!(matches!(
        subscription.accept_snapshot(":1.1", valid),
        Ok(SnapshotDisposition::Accepted(_))
    ));
    let before = subscription.current_usage.clone();
    assert!(subscription.accept_snapshot(":1.1", Err("not-json".to_owned())).is_err());
    assert_eq!(subscription.last_revision, Some(1));
    assert_eq!(subscription.current_usage, before);
}

#[test]
fn named_and_unknown_accounts_are_preserved_without_path_logic() {
    let mut subscription = AiUsageSubscription::default();
    subscription.owner_appeared(":1.1".into());
    let named = match subscription.accept_snapshot(
        ":1.1",
        payload(1, AccountIdentityWire::Named("scope-v1-abcd".into())),
    ) {
        Ok(SnapshotDisposition::Accepted(usage)) => usage,
        other => panic!("unexpected snapshot result: {other:?}"),
    };
    assert_eq!(
        named[0].account_id,
        AccountIdentity::Named("scope-v1-abcd".into())
    );
    subscription.owner_appeared(":1.2".into());
    let unknown =
        match subscription.accept_snapshot(":1.2", payload(1, AccountIdentityWire::Unknown)) {
            Ok(SnapshotDisposition::Accepted(usage)) => usage,
            other => panic!("unexpected snapshot result: {other:?}"),
        };
    assert_eq!(unknown[0].account_id, AccountIdentity::Unknown);
}

#[test]
fn initial_owner_lookup_cannot_overwrite_newer_owner_event() {
    let mut subscription = AiUsageSubscription::default();
    subscription.owner_appeared(":1.10".into());
    subscription.owner_appeared(":1.11".into());
    assert_eq!(subscription.current_unique_owner.as_deref(), Some(":1.11"));
    assert!(matches!(
        subscription.accept_snapshot(":1.10", payload(99, AccountIdentityWire::Default)),
        Ok(SnapshotDisposition::Rejected)
    ));
    assert_eq!(subscription.current_unique_owner.as_deref(), Some(":1.11"));
    assert_eq!(subscription.last_revision, None);
}

#[test]
fn get_state_and_signal_race_keeps_higher_revision() {
    let mut subscription = AiUsageSubscription::default();
    subscription.owner_appeared(":1.57".into());
    assert!(matches!(
        subscription.accept_snapshot(":1.57", payload(5, AccountIdentityWire::Default)),
        Ok(SnapshotDisposition::Accepted(_))
    ));
    assert!(matches!(
        subscription.accept_snapshot(":1.57", payload(4, AccountIdentityWire::Default)),
        Ok(SnapshotDisposition::Rejected)
    ));
    assert_eq!(subscription.last_revision, Some(5));
}

#[test]
fn old_owner_loss_cannot_clear_new_owner_generation() {
    let mut subscription = AiUsageSubscription::default();
    subscription.owner_appeared(":1.20".into());
    subscription
        .accept_snapshot(":1.20", payload(1, AccountIdentityWire::Default))
        .unwrap();
    subscription.owner_appeared(":1.21".into());
    assert!(!subscription.owner_disappeared(":1.20"));
    assert_eq!(subscription.current_unique_owner.as_deref(), Some(":1.21"));
    assert_eq!(subscription.last_revision, None);
}

#[test]
fn direct_owner_replacement_clears_before_new_snapshot() {
    let mut subscription = AiUsageSubscription::default();
    subscription.owner_appeared(":1.30".into());
    subscription
        .accept_snapshot(":1.30", payload(8, AccountIdentityWire::Default))
        .unwrap();
    assert!(subscription.owner_appeared(":1.31".into()));
    assert!(subscription.current_usage.is_empty());
    assert_eq!(subscription.last_revision, None);
    assert!(matches!(
        subscription.accept_snapshot(":1.31", payload(1, AccountIdentityWire::Default)),
        Ok(SnapshotDisposition::Accepted(_))
    ));
}

#[test]
fn failed_new_owner_state_leaves_empty_generation() {
    let mut subscription = AiUsageSubscription::default();
    subscription.owner_appeared(":1.40".into());
    subscription
        .accept_snapshot(":1.40", payload(3, AccountIdentityWire::Default))
        .unwrap();
    subscription.owner_appeared(":1.41".into());
    assert_eq!(subscription.current_unique_owner.as_deref(), Some(":1.41"));
    assert_eq!(subscription.last_revision, None);
    assert!(subscription.current_usage.is_empty());
}

#[test]
fn get_state_target_is_the_unique_owner() {
    assert_eq!(
        unique_owner_destination(":1.57")
            .expect("valid unique name")
            .as_str(),
        ":1.57"
    );
    assert!(unique_owner_destination("org.xbar.AiUsage1").is_none());
}
