//! The parts of the state of the bar.
use xbar::domain::notification::{
    GroupKey, HistoryEntryId, NotificationCenterItem, NotificationHistoryEntry, NotificationSource,
    notification_center_items, notification_group_for_history_id,
};
use xbar::table::KeySet;

fn entry(id: u64, app_name: &str) -> NotificationHistoryEntry {
    NotificationHistoryEntry {
        id: HistoryEntryId(id),
        live_notification_id: None,
        source: NotificationSource::Freedesktop,
        app_name: app_name.into(),
        summary: id.to_string(),
        body: String::new(),
        order: id,
        received_at: id,
        updated_at: id,
    }
}

fn group_items(entries: &[NotificationHistoryEntry]) -> Vec<NotificationCenterItem> {
    notification_center_items(entries, &Default::default())
}

#[test]
fn same_app_forms_one_newest_first_group() {
    let items = group_items(&[
        entry(3, "Discord"),
        entry(2, "Discord"),
        entry(1, "Discord"),
    ]);
    assert_eq!(items.len(), 1);
    assert_eq!(
        items[0].group_key(),
        Some(&GroupKey::ApplicationName("Discord".into()))
    );
    assert_eq!(
        items[0].members(),
        &[HistoryEntryId(3), HistoryEntryId(2), HistoryEntryId(1)]
    );
    assert_eq!(items[0].front_member(), HistoryEntryId(3));
    assert!(!items[0].is_expanded());
}

#[test]
fn different_apps_keep_first_newest_occurrence_order() {
    let items = group_items(&[
        entry(2, "Discord"),
        entry(4, "Slack"),
        entry(1, "Discord"),
        entry(3, "Slack"),
    ]);
    assert_eq!(items.len(), 2);
    assert_eq!(
        items[0].group_key(),
        Some(&GroupKey::ApplicationName("Discord".into()))
    );
    assert_eq!(items[0].members(), &[HistoryEntryId(2), HistoryEntryId(1)]);
    assert_eq!(
        items[1].group_key(),
        Some(&GroupKey::ApplicationName("Slack".into()))
    );
    assert_eq!(items[1].members(), &[HistoryEntryId(4), HistoryEntryId(3)]);
}

#[test]
fn empty_names_are_independent_singles_and_names_are_exact() {
    let items = group_items(&[
        entry(4, ""),
        entry(3, ""),
        entry(2, "Discord"),
        entry(1, "discord"),
    ]);
    assert!(matches!(
        items[0],
        NotificationCenterItem::Single {
            member: HistoryEntryId(4)
        }
    ));
    assert!(matches!(
        items[1],
        NotificationCenterItem::Single {
            member: HistoryEntryId(3)
        }
    ));
    assert_eq!(items[2].group_key(), None);
    assert_eq!(items[3].group_key(), None);
}

#[test]
fn expansion_is_derived_without_redundant_member_count() {
    let mut expanded = KeySet::new();
    expanded.insert(GroupKey::ApplicationName("Discord".into()));
    let items = notification_center_items(
        &[entry(2, "Discord"), entry(1, "Discord"), entry(9, "Slack")],
        &expanded,
    );
    assert!(items[0].is_expanded());
    assert_eq!(items[0].members().len(), 2);
    assert_eq!(items[1].members().len(), 1);
}

#[test]
fn group_transitions_follow_authoritative_members() {
    let key = GroupKey::ApplicationName("Discord".into());
    let mut expanded = KeySet::new();
    expanded.insert(key.clone());
    let group =
        notification_center_items(&[entry(2, "Discord"), entry(1, "Discord")], &expanded);
    assert!(group[0].is_expanded());
    let singleton = notification_center_items(&[entry(1, "Discord")], &expanded);
    assert!(matches!(
        singleton[0],
        NotificationCenterItem::Single { .. }
    ));
    assert!(!singleton[0].is_expanded());
    assert!(notification_center_items(&[], &expanded).is_empty());
}

#[test]
fn target_lookup_returns_only_real_group_members() {
    let history = [entry(3, "Discord"), entry(2, "Discord"), entry(1, "Slack")];
    assert_eq!(
        notification_group_for_history_id(&history, HistoryEntryId(2)),
        Some(GroupKey::ApplicationName("Discord".into()))
    );
    assert_eq!(
        notification_group_for_history_id(&history, HistoryEntryId(1)),
        None
    );
    assert_eq!(
        notification_group_for_history_id(&history, HistoryEntryId(99)),
        None
    );
}
