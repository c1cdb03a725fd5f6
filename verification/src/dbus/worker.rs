//! What the bar decides on what it hears from the bus.
use std::collections::VecDeque;
use vstd::prelude::*;

use crate::dbus::ai_usage;
use crate::dbus::ai_usage::{
    ActivationGate, AiUsageSnapshotWire, AiUsageSubscription, AiUsageSubscriptionView,
    SnapshotDisposition, SnapshotDispositionView, SnapshotError,
};
use crate::dbus::inventory;
use crate::dbus::notifier;
use crate::dbus::notifier::OwnerStep;
use crate::dbus::watchers;
use crate::dbus::watchers::{MenuWatcherControlView, MenuWatchers};
use crate::domain::event::Event;
use crate::domain::menu;
use crate::domain::menu::{MenuEndpoint, MenuRegistry, MenuSource};
use crate::domain::state::{BluetoothPendingAction, BluetoothPendingActionView, WindowId};
use crate::table;
use crate::table::{KeySet, Table};
use crate::text;
use crate::value;
use crate::value::Value;

verus! {

/// What the bar knows of those that it talks to on the bus.
#[derive(Clone, Debug, PartialEq)]
pub struct Worker {
    /// The owner of the watcher of tray items.
    pub sni_owner: Option<String>,
    pub ai_usage: AiUsageSubscription,
    pub ai_activation: ActivationGate,
    pub menu_watchers: MenuWatchers,
    pub next_menu_watcher_generation: u64,
    /// The exported menus that are followed.
    pub watched_menus: KeySet<String>,
    /// The groups of exported menus that were asked for.
    pub menu_subscriptions: Table<String, Vec<u32>>,
}

/// What a change of an owner on the bus asks for.
#[derive(Clone, Debug, Eq, PartialEq)]
pub enum OwnerChange {
    /// The watcher of tray items has another owner.
    Watcher(OwnerStep),
    /// The usage service is to be asked for its state, where it has an owner.
    Usage(Option<String>),
    /// A connection is gone: the watchers of these keys are to be cancelled.
    Gone(Vec<String>),
    Nothing,
}

/// How to start with the usage service.
#[derive(Clone, Debug, Eq, PartialEq)]
pub enum UsageStart {
    /// Ask its owner for the state.
    Ask(String),
    /// Have it started.
    Activate,
    Nothing,
}

/// A queue with one more event.
pub open spec fn told(before: Seq<Event>, after: Seq<Event>, is_event: spec_fn(Event) -> bool) -> bool {
    after.len() == before.len() + 1 && after.drop_last() == before && is_event(after.last())
}

/// Whether an event says that no usage is known any more.
pub open spec fn is_no_usage(event: Event) -> bool {
    event matches Event::ActiveAiUsageChanged(usage) && usage@.len() == 0
}

/// Whether a name is the unique name of a connection.
pub open spec fn is_connection(name: Seq<char>) -> bool {
    text::is_prefix(name, seq![':'])
}

impl Worker {
    /// What the bar knows at the start, given the owner of the watcher of tray items.
    pub fn new(sni_owner: Option<String>) -> (r: Self)
        ensures
            r.sni_owner == sni_owner,
            r.ai_usage.deep_view() == AiUsageSubscriptionView::initial(),
            !r.ai_activation.requested,
            r.menu_watchers.deep_view() == Map::<Seq<char>, MenuWatcherControlView>::empty(),
            r.next_menu_watcher_generation == 1,
            r.watched_menus.deep_view() == Set::<Seq<char>>::empty(),
            r.menu_subscriptions.deep_view() == Map::<Seq<char>, Seq<u32>>::empty(),
    {
        Worker {
            sni_owner,
            ai_usage: AiUsageSubscription::default(),
            ai_activation: ActivationGate::default(),
            menu_watchers: Table::new(),
            next_menu_watcher_generation: 1,
            watched_menus: KeySet::new(),
            menu_subscriptions: Table::new(),
        }
    }
}

/// Starts with the usage service: its owner is asked where it has one, and it is started once where it
/// has none.
pub fn usage_started(
    ai_usage: &mut AiUsageSubscription,
    ai_activation: &mut ActivationGate,
    owner: Option<String>,
) -> (r: UsageStart)
    ensures
        match owner {
            Some(name) => {
                &&& final(ai_usage).deep_view() == old(ai_usage).deep_view().owned_by(name@)
                &&& *final(ai_activation) == *old(ai_activation)
                &&& r matches UsageStart::Ask(asked) && asked@ == name@
            },
            None => {
                &&& final(ai_usage).deep_view() == old(ai_usage).deep_view()
                &&& final(ai_activation).requested
                &&& r == (if old(ai_activation).requested {
                    UsageStart::Nothing
                } else {
                    UsageStart::Activate
                })
            },
        },
{
    match owner {
        Some(owner) => {
            ai_usage.owner_appeared(owner.dup());
            UsageStart::Ask(owner)
        },
        None => {
            if ai_activation.request_once() {
                UsageStart::Activate
            } else {
                UsageStart::Nothing
            }
        },
    }
}

/// What a change of the owner of the usage service comes to: what is known of the service, and the
/// event that tells where usage was known that does not count any more.
pub open spec fn usage_step(
    before: AiUsageSubscriptionView,
    after: AiUsageSubscriptionView,
    queue: (Seq<Event>, Seq<u8>),
    queue_after: (Seq<Event>, Seq<u8>),
    new_owner: Option<Seq<char>>,
    old_owner: Option<Seq<char>>,
) -> bool {
    &&& after == (match (new_owner, old_owner) {
        (Some(owner), _) => before.owned_by(owner),
        (None, Some(owner)) => before.without(owner),
        (None, None) => before,
    })
    &&& if after.current_usage != before.current_usage {
        told(queue.0, queue_after.0, |e: Event| is_no_usage(e)) && queue_after.1 == queue.1.push(1)
    } else {
        queue_after == queue
    }
}

/// The usage service has another owner, or none any more: returns the owner to ask for the state. It
/// is told where usage was known that does not count any more.
pub fn usage_owner_changed(
    ai_usage: &mut AiUsageSubscription,
    events: &mut VecDeque<Event>,
    wake: &mut Vec<u8>,
    new_owner: Option<String>,
    old_owner: Option<String>,
) -> (r: Option<String>)
    ensures
        usage_step(
            old(ai_usage).deep_view(),
            final(ai_usage).deep_view(),
            (old(events)@, old(wake)@),
            (final(events)@, final(wake)@),
            new_owner.deep_view(),
            old_owner.deep_view(),
        ),
        r.deep_view() == new_owner.deep_view(),
{
    let ghost before = ai_usage.deep_view();
    let (changed, ask) = match new_owner {
        Some(owner) => {
            let changed = ai_usage.owner_appeared(owner.dup());
            (changed, Some(owner))
        },
        None => match old_owner {
            Some(owner) => (ai_usage.owner_disappeared(owner.as_str()), None),
            None => (false, None),
        },
    };
    assert(changed == (ai_usage.deep_view().current_usage != before.current_usage)) by {
        if before.current_usage.len() == 0 {
            assert(before.current_usage =~= Seq::empty());
        }
    }
    if changed {
        let ghost queue = events@;
        notifier::push_event_with_writer(events, wake, Event::ActiveAiUsageChanged(Vec::new()));
        assert(events@.drop_last() =~= queue);
    }
    ask
}

/// What the loss of a connection comes to: the watchers that are left, the keys of those to cancel,
/// and the two events that tell of the loss.
pub open spec fn gone_step(
    before: Map<Seq<char>, MenuWatcherControlView>,
    after: Map<Seq<char>, MenuWatcherControlView>,
    cancelled: Seq<Seq<char>>,
    queue: (Seq<Event>, Seq<u8>),
    queue_after: (Seq<Event>, Seq<u8>),
    name: Seq<char>,
) -> bool {
    &&& after == table::restricted(before, |key: Seq<char>| !watchers::key_of_owner(key, name))
    &&& forall|key: Seq<char>| #[trigger]
        cancelled.contains(key) <==> before.contains_key(key) && watchers::key_of_owner(key, name)
    &&& queue_after.0.len() == queue.0.len() + 2
    &&& queue_after.0.take(queue.0.len() as int) == queue.0
    &&& queue_after.0[queue.0.len() as int] matches Event::MenuOwnerVanished { sender } && sender@
        == name
    &&& queue_after.0.last() matches Event::StatusNotifierOwnerVanished(owner) && owner@ == name
    &&& queue_after.1 == queue.1.push(1).push(1)
}

/// A connection is gone: its menus are not watched any more, and it is told that its menus and its tray
/// items are gone. Returns the keys of the watchers to cancel.
pub fn connection_gone(
    menu_watchers: &mut MenuWatchers,
    events: &mut VecDeque<Event>,
    wake: &mut Vec<u8>,
    name: &str,
) -> (r: Vec<String>)
    ensures
        gone_step(
            old(menu_watchers).deep_view(),
            final(menu_watchers).deep_view(),
            r.deep_view(),
            (old(events)@, old(wake)@),
            (final(events)@, final(wake)@),
            name@,
        ),
{
    let cancelled = watchers::cancel_watchers_for_unique_owner(menu_watchers, name);
    let ghost queue = events@;
    notifier::push_event_with_writer(
        events,
        wake,
        Event::MenuOwnerVanished { sender: name.to_owned() },
    );
    notifier::push_event_with_writer(
        events,
        wake,
        Event::StatusNotifierOwnerVanished(name.to_owned()),
    );
    assert(events@.take(queue.len() as int) =~= queue);
    cancelled
}

impl Worker {
    /// Takes a change of an owner on the bus in.
    pub fn name_owner_changed(
        &mut self,
        events: &mut VecDeque<Event>,
        wake: &mut Vec<u8>,
        name: &str,
        new_owner: Option<String>,
        old_owner: Option<String>,
    ) -> (r: OwnerChange)
        ensures
            final(self).ai_activation == old(self).ai_activation,
            final(self).next_menu_watcher_generation == old(self).next_menu_watcher_generation,
            final(self).watched_menus == old(self).watched_menus,
            final(self).menu_subscriptions == old(self).menu_subscriptions,
            ({
                let queue = (old(events)@, old(wake)@);
                let queue_after = (final(events)@, final(wake)@);
                if name@ == notifier::SNI_NAME@ {
                    &&& r matches OwnerChange::Watcher(step) && (
                        final(self).sni_owner.deep_view(),
                        step.detach,
                        step.unavailable,
                        step.attach.deep_view(),
                    ) == notifier::owner_step(
                        old(self).sni_owner.deep_view(),
                        new_owner.deep_view(),
                        old_owner.deep_view(),
                    )
                    &&& final(self).ai_usage == old(self).ai_usage
                    &&& final(self).menu_watchers == old(self).menu_watchers
                    &&& queue_after == queue
                } else if name@ == ai_usage::BUS_NAME@ {
                    &&& r matches OwnerChange::Usage(ask) && ask.deep_view() == new_owner.deep_view()
                    &&& usage_step(
                        old(self).ai_usage.deep_view(),
                        final(self).ai_usage.deep_view(),
                        queue,
                        queue_after,
                        new_owner.deep_view(),
                        old_owner.deep_view(),
                    )
                    &&& final(self).sni_owner == old(self).sni_owner
                    &&& final(self).menu_watchers == old(self).menu_watchers
                } else if is_connection(name@) && new_owner is None {
                    &&& r matches OwnerChange::Gone(cancelled) && gone_step(
                        old(self).menu_watchers.deep_view(),
                        final(self).menu_watchers.deep_view(),
                        cancelled.deep_view(),
                        queue,
                        queue_after,
                        name@,
                    )
                    &&& final(self).sni_owner == old(self).sni_owner
                    &&& final(self).ai_usage == old(self).ai_usage
                } else {
                    &&& r is Nothing
                    &&& final(self).sni_owner == old(self).sni_owner
                    &&& final(self).ai_usage == old(self).ai_usage
                    &&& final(self).menu_watchers == old(self).menu_watchers
                    &&& queue_after == queue
                }
            }),
    {
        let name_text = name.to_owned();
        if value::is_text(&name_text, notifier::SNI_NAME) {
            return OwnerChange::Watcher(
                notifier::sni_owner_changed(&mut self.sni_owner, new_owner, old_owner),
            );
        }
        if value::is_text(&name_text, ai_usage::BUS_NAME) {
            return OwnerChange::Usage(
                usage_owner_changed(&mut self.ai_usage, events, wake, new_owner, old_owner),
            );
        }
        proof {
            reveal_strlit(":");
            assert(":"@ =~= seq![':']);
        }
        if text::starts_with(name, ":") && new_owner.is_none() {
            return OwnerChange::Gone(
                connection_gone(&mut self.menu_watchers, events, wake, name),
            );
        }
        OwnerChange::Nothing
    }
}

/// Takes a report of the usage service in; what it says is told where it counts.
pub fn usage_reported(
    ai_usage: &mut AiUsageSubscription,
    events: &mut VecDeque<Event>,
    wake: &mut Vec<u8>,
    owner: &str,
    snapshot: Result<AiUsageSnapshotWire, String>,
) -> (r: Result<(), SnapshotError>)
    ensures
        final(ai_usage).deep_view() == old(ai_usage).deep_view().informed(
            owner@,
            ai_usage::report_view(snapshot),
        ),
        match old(ai_usage).deep_view().disposition(owner@, ai_usage::report_view(snapshot)) {
            Ok(SnapshotDispositionView::Accepted(usage)) => {
                &&& r is Ok
                &&& told(
                    old(events)@,
                    final(events)@,
                    |e: Event| e matches Event::ActiveAiUsageChanged(u) && u.deep_view() == usage,
                )
                &&& final(wake)@ == old(wake)@.push(1)
            },
            Ok(SnapshotDispositionView::Rejected) => {
                &&& r is Ok
                &&& final(events)@ == old(events)@
                &&& final(wake)@ == old(wake)@
            },
            Err(reason) => {
                &&& r matches Err(e) && e.deep_view() == reason
                &&& final(events)@ == old(events)@
                &&& final(wake)@ == old(wake)@
            },
        },
{
    match ai_usage.accept_snapshot(owner, snapshot) {
        Ok(SnapshotDisposition::Accepted(usage)) => {
            let ghost queue = events@;
            notifier::push_event_with_writer(events, wake, Event::ActiveAiUsageChanged(usage));
            assert(events@.drop_last() =~= queue);
            Ok(())
        },
        Ok(SnapshotDisposition::Rejected) => Ok(()),
        Err(e) => Err(e),
    }
}

/// A request to the Bluetooth service is not under way any more; what is told of it.
pub fn bluetooth_finished(
    in_flight: &mut Vec<BluetoothPendingAction>,
    action: BluetoothPendingAction,
) -> (r: Event)
    ensures
        final(in_flight).deep_view() == old(in_flight).deep_view().filter(
            |a: BluetoothPendingActionView| a != action.deep_view(),
        ),
        r == Event::BluetoothActionFinished(action),
{
    inventory::finish_bluetooth_action(in_flight, &action);
    Event::BluetoothActionFinished(action)
}

/// What is told where a window is registered with its menu.
pub fn window_registered(window_id: u32, service: String, object_path: String) -> (r: Event)
    ensures
        r == (Event::MenuRegistered {
            window_id: WindowId(window_id),
            endpoint: MenuSource::DbusMenu(MenuEndpoint { service, object_path }),
        }),
{
    Event::MenuRegistered {
        window_id: WindowId(window_id),
        endpoint: MenuSource::DbusMenu(MenuEndpoint { service, object_path }),
    }
}

/// What is told where a window is not registered any more.
pub fn window_unregistered(window_id: u32) -> (r: Event)
    ensures
        r == (Event::MenuUnregistered { window_id: WindowId(window_id) }),
{
    Event::MenuUnregistered { window_id: WindowId(window_id) }
}

/// Where the registered menu of a window is: no service and the root object where there is none.
pub fn menu_for_window(registry: &MenuRegistry, window_id: u32) -> (r: (String, String))
    ensures
        match menu::registered(registry.deep_view(), WindowId(window_id)) {
            Some(endpoint) => r.0@ == endpoint.service && r.1@ == endpoint.object_path,
            None => r.0@.len() == 0 && r.1@ == "/"@,
        },
{
    match registry.get(WindowId(window_id)) {
        Some(endpoint) => (endpoint.service.dup(), endpoint.object_path.dup()),
        None => (String::new(), "/".to_owned()),
    }
}

} // verus!
