//! What follows where the notifications of the bar change: what is kept, shown and told on the bus.
use vstd::prelude::*;

use crate::domain::notification::{HistoryEntryId, NotificationId};
use crate::domain::state::WindowId;
use crate::lists;

verus! {

/// What the notifications of the bar can do.
pub fn notification_capabilities() -> (r: Vec<String>)
    ensures
        r.deep_view() == seq!["body"@, "actions"@],
{
    let mut capabilities: Vec<String> = Vec::new();
    capabilities.push("body".to_owned());
    capabilities.push("actions".to_owned());
    assert(capabilities.deep_view() =~= seq!["body"@, "actions"@]);
    capabilities
}

/// What the notification service says of itself: its name, its vendor, its version and the version of
/// the protocol that it speaks.
pub fn server_information(version: &str) -> (r: (String, String, String, String))
    ensures
        r.0@ == "xbar"@,
        r.1@ == "Demostenes Albert"@,
        r.2@ == version@,
        r.3@ == "1.2"@,
{
    ("xbar".to_owned(), "Demostenes Albert".to_owned(), version.to_owned(), "1.2".to_owned())
}

/// What is asked of the notifications.
#[derive(Clone, Debug, Eq, PartialEq)]
pub enum NotificationRequest {
    TimerFired,
    DismissHistoryEntry(HistoryEntryId),
    ClearHistory,
    InvokeDefault(HistoryEntryId),
    InvokeAction(HistoryEntryId, String),
    WindowAttention { window: WindowId, app_name: String, attention: bool },
}

/// What the store of notifications is to do.
#[derive(Clone, Debug, Eq, PartialEq)]
pub enum StoreCall {
    Expire,
    Dismiss(HistoryEntryId),
    Clear,
    /// Invoke the action with a key of the notification of an entry.
    Invoke(HistoryEntryId, String),
    Attention { window: WindowId, app_name: String, attention: bool },
}

/// An action of a notification that was invoked, with the reason why it closed the notification, where
/// it did.
#[derive(Clone, Debug, Eq, PartialEq)]
pub struct ActionInvocation {
    pub notification_id: NotificationId,
    pub action_key: String,
    pub closed: Option<u32>,
}

/// What the store of notifications has done.
#[derive(Clone, Debug, Eq, PartialEq)]
pub enum StoreOutcome {
    /// A notification was taken in.
    Notified,
    /// A notification was to be closed, and was open or not.
    Closed { id: NotificationId, was_open: bool, reason: u32 },
    /// The history was to be changed, and was or was not.
    HistoryChanged(bool),
    /// An action was to be invoked; there is nothing to say where there was no such action.
    Invoked(Option<ActionInvocation>),
    /// The time of notifications was up.
    Expired { ids: Vec<NotificationId>, reason: u32 },
    /// A window has asked for attention or does not any more.
    Attention,
}

/// What is to be done next.
#[derive(Clone, Debug, Eq, PartialEq)]
pub enum NotificationStep {
    /// Keep the history.
    Save,
    /// Show what is there now.
    Publish,
    /// Tell that an action was invoked.
    TellInvoked { id: u32, action_key: String },
    /// Tell that a notification is closed, and why.
    TellClosed { id: u32, reason: u32 },
}

/// The model of a [`NotificationStep`].
#[verifier::ext_equal]
pub enum NotificationStepView {
    Save,
    Publish,
    TellInvoked { id: u32, action_key: Seq<char> },
    TellClosed { id: u32, reason: u32 },
}

impl DeepView for NotificationStep {
    type V = NotificationStepView;

    open spec fn deep_view(&self) -> NotificationStepView {
        match self {
            NotificationStep::Save => NotificationStepView::Save,
            NotificationStep::Publish => NotificationStepView::Publish,
            NotificationStep::TellInvoked { id, action_key } => NotificationStepView::TellInvoked {
                id: *id,
                action_key: action_key@,
            },
            NotificationStep::TellClosed { id, reason } => NotificationStepView::TellClosed {
                id: *id,
                reason: *reason,
            },
        }
    }
}

/// What the store is to do on a request: the action that stands for the notification as a whole has
/// the key `default`.
pub fn store_call(request: NotificationRequest) -> (r: StoreCall)
    ensures
        match request {
            NotificationRequest::TimerFired => r is Expire,
            NotificationRequest::DismissHistoryEntry(id) => r == StoreCall::Dismiss(id),
            NotificationRequest::ClearHistory => r is Clear,
            NotificationRequest::InvokeDefault(id) => r matches StoreCall::Invoke(entry, key)
                && entry == id && key@ == "default"@,
            NotificationRequest::InvokeAction(id, key) => r == StoreCall::Invoke(id, key),
            NotificationRequest::WindowAttention { window, app_name, attention } => r == (
            StoreCall::Attention { window, app_name, attention }),
        },
{
    match request {
        NotificationRequest::TimerFired => StoreCall::Expire,
        NotificationRequest::DismissHistoryEntry(id) => StoreCall::Dismiss(id),
        NotificationRequest::ClearHistory => StoreCall::Clear,
        NotificationRequest::InvokeDefault(id) => StoreCall::Invoke(id, "default".to_owned()),
        NotificationRequest::InvokeAction(id, key) => StoreCall::Invoke(id, key),
        NotificationRequest::WindowAttention { window, app_name, attention } => {
            StoreCall::Attention { window, app_name, attention }
        },
    }
}

/// What follows a change of the history: it is kept, and what is there now is shown.
pub open spec fn kept_and_shown() -> Seq<NotificationStepView> {
    seq![NotificationStepView::Save, NotificationStepView::Publish]
}

/// The steps that follow what the store has done, in their order.
pub open spec fn steps_of(outcome: StoreOutcome) -> Seq<NotificationStepView> {
    match outcome {
        StoreOutcome::Notified => kept_and_shown(),
        StoreOutcome::Closed { id, was_open, reason } => if was_open {
            kept_and_shown().push(NotificationStepView::TellClosed { id: id.0, reason })
        } else {
            Seq::empty()
        },
        StoreOutcome::HistoryChanged(changed) => if changed {
            kept_and_shown()
        } else {
            Seq::empty()
        },
        StoreOutcome::Invoked(None) => Seq::empty(),
        StoreOutcome::Invoked(Some(invocation)) => {
            let id = invocation.notification_id.0;
            let told = seq![
                NotificationStepView::TellInvoked { id, action_key: invocation.action_key@ },
            ];
            match invocation.closed {
                Some(reason) => told + kept_and_shown().push(
                    NotificationStepView::TellClosed { id, reason },
                ),
                None => told,
            }
        },
        StoreOutcome::Expired { ids, reason } => ids@.map_values(
            |id: NotificationId| NotificationStepView::TellClosed { id: id.0, reason },
        ),
        StoreOutcome::Attention => seq![NotificationStepView::Publish],
    }
}

fn keep_and_show(steps: &mut Vec<NotificationStep>)
    ensures
        final(steps).deep_view() == old(steps).deep_view() + kept_and_shown(),
{
    lists::push(steps, NotificationStep::Save);
    lists::push(steps, NotificationStep::Publish);
    assert(steps.deep_view() =~= old(steps).deep_view() + kept_and_shown());
}

/// The steps that follow what the store has done, in their order.
pub fn steps_after(outcome: StoreOutcome) -> (r: Vec<NotificationStep>)
    ensures
        r.deep_view() == steps_of(outcome),
{
    let mut steps: Vec<NotificationStep> = Vec::new();
    assert(steps.deep_view() =~= Seq::empty());
    match outcome {
        StoreOutcome::Notified => keep_and_show(&mut steps),
        StoreOutcome::Closed { id, was_open, reason } => {
            if was_open {
                keep_and_show(&mut steps);
                lists::push(&mut steps, NotificationStep::TellClosed { id: id.0, reason });
            }
        },
        StoreOutcome::HistoryChanged(changed) => {
            if changed {
                keep_and_show(&mut steps);
            }
        },
        StoreOutcome::Invoked(None) => {},
        StoreOutcome::Invoked(Some(invocation)) => {
            let id: u32 = invocation.notification_id.0;
            lists::push(
                &mut steps,
                NotificationStep::TellInvoked { id, action_key: invocation.action_key },
            );
            if let Some(reason) = invocation.closed {
                keep_and_show(&mut steps);
                lists::push(&mut steps, NotificationStep::TellClosed { id, reason });
            }
        },
        StoreOutcome::Expired { ids, reason } => {
            let mut i: usize = 0;
            while i < ids.len()
                invariant
                    i <= ids.len(),
                    steps.deep_view() == steps_of(StoreOutcome::Expired { ids, reason }).take(
                        i as int,
                    ),
                decreases ids.len() - i,
            {
                lists::push(&mut steps, NotificationStep::TellClosed { id: ids[i].0, reason });
                i += 1;
                assert(steps.deep_view() =~= steps_of(StoreOutcome::Expired { ids, reason }).take(
                    i as int,
                ));
            }
        },
        StoreOutcome::Attention => lists::push(&mut steps, NotificationStep::Publish),
    }
    assert(steps.deep_view() =~= steps_of(outcome));
    steps
}

/// A notification is told to be closed only behind its history having been kept and what is left having
/// been shown, unless its time was up.
pub proof fn lemma_kept_before_told(outcome: StoreOutcome, at: int)
    requires
        !(outcome is Expired),
        0 <= at < steps_of(outcome).len(),
        steps_of(outcome)[at] is TellClosed,
    ensures
        exists|i: int|
            0 <= i && i + 1 < at && #[trigger] steps_of(outcome)[i] is Save && steps_of(
                outcome,
            )[i + 1] is Publish,
{
    let steps = steps_of(outcome);
    assert(steps[at - 2] is Save && steps[at - 1] is Publish);
}

/// That a notification is closed is told once, with the reason, where it was open, and not at all where
/// it was not.
pub proof fn lemma_closing_is_told_once(id: NotificationId, was_open: bool, reason: u32, other: u32, why: u32)
    ensures
        ({
            let steps = steps_of(StoreOutcome::Closed { id, was_open, reason });
            &&& steps.contains(NotificationStepView::TellClosed { id: other, reason: why }) <==> was_open
                && other == id.0 && why == reason
            &&& steps.no_duplicates()
            &&& steps.contains(NotificationStepView::Save) <==> was_open
            &&& steps.contains(NotificationStepView::Publish) <==> was_open
        }),
{
    let steps = steps_of(StoreOutcome::Closed { id, was_open, reason });
    if was_open {
        assert(steps.len() == 3);
        assert(steps[0] is Save);
        assert(steps[1] is Publish);
        assert(steps[2] == (NotificationStepView::TellClosed { id: id.0, reason }));
    }
}

/// An action that is invoked is told first, with its key; where it closes the notification, that is told
/// last.
pub proof fn lemma_invocation_is_told_first(invocation: ActionInvocation)
    ensures
        ({
            let steps = steps_of(StoreOutcome::Invoked(Some(invocation)));
            &&& steps.len() > 0
            &&& steps[0] == (NotificationStepView::TellInvoked {
                id: invocation.notification_id.0,
                action_key: invocation.action_key@,
            })
            &&& match invocation.closed {
                Some(reason) => steps.last() == (NotificationStepView::TellClosed {
                    id: invocation.notification_id.0,
                    reason,
                }),
                None => steps.len() == 1,
            }
        }),
{
}

/// What changes the history is kept before it is shown, and what does not is neither; each notification
/// whose time is up is told to be closed, in turn.
pub proof fn lemma_changes_are_kept_and_shown(changed: bool, ids: Vec<NotificationId>, reason: u32, i: int)
    requires
        0 <= i < ids@.len(),
    ensures
        steps_of(StoreOutcome::HistoryChanged(changed)).len() == if changed {
            2int
        } else {
            0
        },
        changed ==> steps_of(StoreOutcome::HistoryChanged(changed))[0] is Save && steps_of(
            StoreOutcome::HistoryChanged(changed),
        )[1] is Publish,
        steps_of(StoreOutcome::Notified) == steps_of(StoreOutcome::HistoryChanged(true)),
        steps_of(StoreOutcome::Expired { ids, reason }).len() == ids@.len(),
        steps_of(StoreOutcome::Expired { ids, reason })[i] == (NotificationStepView::TellClosed {
            id: ids@[i].0,
            reason,
        }),
{
}

} // verus!
