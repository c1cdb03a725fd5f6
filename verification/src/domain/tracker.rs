//! When the layout of a menu has to be loaded once more.
use vstd::prelude::*;

use crate::domain::menu::{MenuSource, MenuSourceView};
use crate::domain::reducer::loading;
use crate::table::Table;
use crate::value::Value;

verus! {

/// How far the loads for a numbered invalidation have come.
#[derive(Clone, Copy, Debug, Eq, PartialEq, Structural)]
pub enum LayoutConvergencePhase {
    /// A load that covers the invalidation is still to begin.
    FollowUpNeeded,
    /// A load that should cover the invalidation is under way.
    FollowUpInFlight,
    /// That load fell short; one more may begin.
    RetryAvailable,
    /// The one more load is under way.
    RetryInFlight,
    /// It fell short too; only a new invalidation helps.
    AwaitingNewInvalidation,
}

impl DeepView for LayoutConvergencePhase {
    type V = LayoutConvergencePhase;

    open spec fn deep_view(&self) -> LayoutConvergencePhase {
        *self
    }
}

impl Value for LayoutConvergencePhase {
    fn same(&self, other: &Self) -> (r: bool) {
        *self == *other
    }

    fn dup(&self) -> (r: Self) {
        *self
    }
}

/// What is known of a layout that is out of date.
#[derive(Clone, Debug, Eq, PartialEq)]
pub struct PendingLayoutReload {
    pub endpoint: MenuSource,
    /// The highest revision that an invalidation announced.
    pub numeric_watermark: Option<u32>,
    pub numeric_phase: Option<LayoutConvergencePhase>,
    /// How many invalidations without a revision have come.
    pub revisionless_epoch: u64,
    /// How many of them a load has covered.
    pub revisionless_satisfied_epoch: u64,
}

/// The model of a [`PendingLayoutReload`].
#[verifier::ext_equal]
pub struct PendingLayoutReloadView {
    pub endpoint: MenuSourceView,
    pub numeric_watermark: Option<u32>,
    pub numeric_phase: Option<LayoutConvergencePhase>,
    pub revisionless_epoch: u64,
    pub revisionless_satisfied_epoch: u64,
}

impl DeepView for PendingLayoutReload {
    type V = PendingLayoutReloadView;

    open spec fn deep_view(&self) -> PendingLayoutReloadView {
        PendingLayoutReloadView {
            endpoint: self.endpoint.deep_view(),
            numeric_watermark: self.numeric_watermark.deep_view(),
            numeric_phase: self.numeric_phase.deep_view(),
            revisionless_epoch: self.revisionless_epoch,
            revisionless_satisfied_epoch: self.revisionless_satisfied_epoch,
        }
    }
}

/// Tracks structural invalidations which arrive while a layout request is in flight.
///
/// The tracker is endpoint-local. The main loop still applies its window, endpoint and request-id
/// authority checks before a model can be committed. Numeric invalidations retain their highest
/// watermark and permit one immediate convergence retry. Revision-less invalidations advance an
/// independent epoch; a load satisfies only the epoch captured when that load began, so
/// invalidations observed during it coalesce into one deterministic follow-up.
#[derive(Clone, Debug, Eq, PartialEq)]
pub struct MenuLayoutReloadTracker {
    pending: Option<PendingLayoutReload>,
    active_endpoint: Option<MenuSource>,
    watcher_generations: Table<MenuSource, u64>,
    in_flight_request: Option<u64>,
    in_flight_revisionless_epoch: Option<u64>,
}

/// The model of a [`MenuLayoutReloadTracker`].
#[verifier::ext_equal]
pub struct MenuLayoutReloadTrackerView {
    pub pending: Option<PendingLayoutReloadView>,
    pub active_endpoint: Option<MenuSourceView>,
    pub watcher_generations: Map<MenuSourceView, u64>,
    pub in_flight_request: Option<u64>,
    pub in_flight_revisionless_epoch: Option<u64>,
}

impl DeepView for MenuLayoutReloadTracker {
    type V = MenuLayoutReloadTrackerView;

    closed spec fn deep_view(&self) -> MenuLayoutReloadTrackerView {
        MenuLayoutReloadTrackerView {
            pending: self.pending.deep_view(),
            active_endpoint: self.active_endpoint.deep_view(),
            watcher_generations: self.watcher_generations.deep_view(),
            in_flight_request: self.in_flight_request.deep_view(),
            in_flight_revisionless_epoch: self.in_flight_revisionless_epoch.deep_view(),
        }
    }
}

impl MenuLayoutReloadTrackerView {
    /// Nothing is tracked.
    pub open spec fn initial() -> MenuLayoutReloadTrackerView {
        MenuLayoutReloadTrackerView {
            pending: None,
            active_endpoint: None,
            watcher_generations: Map::empty(),
            in_flight_request: None,
            in_flight_revisionless_epoch: None,
        }
    }

    /// What is out of date is the layout of the active endpoint, and no more invalidations are
    /// covered than have come.
    pub open spec fn is_valid(self) -> bool {
        let (endpoint, come, covered) = match self.pending {
            Some(p) => (
                Some(p.endpoint),
                p.revisionless_epoch,
                p.revisionless_satisfied_epoch,
            ),
            None => (self.active_endpoint, 0, 0),
        };
        &&& endpoint == self.active_endpoint
        &&& covered <= come
        &&& self.in_flight_revisionless_epoch matches Some(epoch) ==> epoch <= come
    }

    /// No endpoint is active; the watchers are kept.
    pub open spec fn cleared(self) -> MenuLayoutReloadTrackerView {
        MenuLayoutReloadTrackerView {
            pending: None,
            active_endpoint: None,
            in_flight_request: None,
            in_flight_revisionless_epoch: None,
            ..self
        }
    }

    /// An endpoint is not the active one.
    pub open spec fn cleared_for(self, endpoint: MenuSourceView) -> MenuLayoutReloadTrackerView {
        if self.active_endpoint == Some(endpoint) {
            self.cleared()
        } else {
            self
        }
    }

    /// A load of an endpoint is the one under way.
    pub open spec fn is_loading(self, endpoint: MenuSourceView, request_id: u64) -> bool {
        self.active_endpoint == Some(endpoint) && self.in_flight_request == Some(request_id)
    }

    /// The watcher of the active endpoint is the one of the given generation.
    pub open spec fn accepts_watcher(self, endpoint: MenuSourceView, generation: u64) -> bool {
        self.active_endpoint == Some(endpoint) && self.watcher_generations.contains_key(endpoint)
            && self.watcher_generations[endpoint] == generation
    }

    /// The source of a load has got a watcher. What an earlier watcher reported no longer counts.
    pub open spec fn watcher_ready(self, endpoint: MenuSourceView, generation: u64) -> MenuLayoutReloadTrackerView {
        let replaced = self.watcher_generations.contains_key(endpoint)
            && self.watcher_generations[endpoint] != generation;
        MenuLayoutReloadTrackerView {
            watcher_generations: self.watcher_generations.insert(endpoint, generation),
            pending: if replaced {
                None
            } else {
                self.pending
            },
            in_flight_revisionless_epoch: if replaced {
                Some(0)
            } else {
                self.in_flight_revisionless_epoch
            },
            ..self
        }
    }

    /// The watchers of a bus name are gone, and the active endpoint if it was one of its menus.
    pub open spec fn without_owner(self, owner: Seq<char>) -> MenuLayoutReloadTrackerView {
        let left = MenuLayoutReloadTrackerView {
            watcher_generations: loading::watchers_without_owner(self.watcher_generations, owner),
            ..self
        };
        if self.active_endpoint matches Some(e) && loading::is_served_by(e, owner) {
            left.cleared()
        } else {
            left
        }
    }

    /// A load has begun.
    pub open spec fn load_begun(self, endpoint: MenuSourceView, request_id: u64) -> MenuLayoutReloadTrackerView {
        let pending = match self.pending {
            Some(p) => if self.active_endpoint == Some(endpoint) {
                Some(PendingLayoutReloadView { numeric_phase: phase_begun(p.numeric_phase), ..p })
            } else {
                None
            },
            None => None,
        };
        MenuLayoutReloadTrackerView {
            pending,
            active_endpoint: Some(endpoint),
            in_flight_request: Some(request_id),
            in_flight_revisionless_epoch: Some(
                match pending {
                    Some(p) => p.revisionless_epoch,
                    None => 0,
                },
            ),
            ..self
        }
    }

    /// Whether an invalidation tells anything new: one without a revision always does, one with a
    /// revision where none as high has come.
    pub open spec fn is_news(self, endpoint: MenuSourceView, revision: Option<u32>) -> bool {
        match (self.pending, revision) {
            (Some(p), Some(next)) => p.endpoint != endpoint || match p.numeric_watermark {
                Some(current) => next > current,
                None => true,
            },
            _ => true,
        }
    }

    /// An invalidation that tells something new has come.
    pub open spec fn recorded(self, endpoint: MenuSourceView, revision: Option<u32>) -> MenuLayoutReloadTrackerView {
        let fresh = PendingLayoutReloadView {
            endpoint,
            numeric_watermark: revision,
            numeric_phase: match revision {
                Some(_) => Some(LayoutConvergencePhase::FollowUpNeeded),
                None => None,
            },
            revisionless_epoch: match revision {
                Some(_) => 0,
                None => 1,
            },
            revisionless_satisfied_epoch: 0,
        };
        MenuLayoutReloadTrackerView {
            pending: Some(
                match (self.pending, revision) {
                    (Some(p), Some(next)) => if p.endpoint == endpoint {
                        PendingLayoutReloadView {
                            numeric_watermark: Some(next),
                            numeric_phase: Some(
                                match p.numeric_phase {
                                    Some(phase) => phase_invalidated(phase),
                                    None => LayoutConvergencePhase::FollowUpNeeded,
                                },
                            ),
                            ..p
                        }
                    } else {
                        fresh
                    },
                    (Some(p), None) => if p.endpoint == endpoint {
                        PendingLayoutReloadView {
                            revisionless_epoch: next_epoch(p.revisionless_epoch),
                            numeric_phase: match p.numeric_phase {
                                Some(phase) => Some(phase_invalidated(phase)),
                                None => None,
                            },
                            ..p
                        }
                    } else {
                        fresh
                    },
                    (None, _) => fresh,
                },
            ),
            ..self
        }
    }

    /// A load has ended with a layout of the given revision, and whether one more has to follow.
    pub open spec fn load_completed(
        self,
        endpoint: MenuSourceView,
        request_id: u64,
        model_revision: u32,
    ) -> (MenuLayoutReloadTrackerView, bool) {
        if !self.is_loading(endpoint, request_id) {
            (self, false)
        } else {
            let ended = MenuLayoutReloadTrackerView {
                in_flight_request: None,
                in_flight_revisionless_epoch: None,
                ..self
            };
            let covered = match self.in_flight_revisionless_epoch {
                Some(epoch) => epoch,
                None => 0,
            };
            match self.pending {
                Some(p) => if p.endpoint == endpoint {
                    let (left, follow_up) = pending_covered(p, covered, model_revision);
                    (
                        MenuLayoutReloadTrackerView {
                            pending: if is_settled(left) {
                                None
                            } else {
                                Some(left)
                            },
                            ..ended
                        },
                        follow_up,
                    )
                } else {
                    (ended, false)
                },
                None => (ended, false),
            }
        }
    }
}

/// The phase of an invalidation once a load has begun.
pub open spec fn phase_begun(phase: Option<LayoutConvergencePhase>) -> Option<
    LayoutConvergencePhase,
> {
    match phase {
        Some(LayoutConvergencePhase::FollowUpNeeded) => Some(
            LayoutConvergencePhase::FollowUpInFlight,
        ),
        Some(LayoutConvergencePhase::RetryAvailable) => Some(LayoutConvergencePhase::RetryInFlight),
        _ => phase,
    }
}

fn begin_phase(phase: Option<LayoutConvergencePhase>) -> (r: Option<LayoutConvergencePhase>)
    ensures
        r == phase_begun(phase),
{
    match phase {
        Some(LayoutConvergencePhase::FollowUpNeeded) => Some(
            LayoutConvergencePhase::FollowUpInFlight,
        ),
        Some(LayoutConvergencePhase::RetryAvailable) => Some(LayoutConvergencePhase::RetryInFlight),
        _ => phase,
    }
}

/// The phase of an invalidation once another one has come.
pub open spec fn phase_invalidated(phase: LayoutConvergencePhase) -> LayoutConvergencePhase {
    match phase {
        LayoutConvergencePhase::RetryInFlight => LayoutConvergencePhase::FollowUpInFlight,
        LayoutConvergencePhase::AwaitingNewInvalidation => LayoutConvergencePhase::FollowUpNeeded,
        _ => phase,
    }
}

fn invalidate_phase(phase: LayoutConvergencePhase) -> (r: LayoutConvergencePhase)
    ensures
        r == phase_invalidated(phase),
{
    match phase {
        LayoutConvergencePhase::RetryInFlight => LayoutConvergencePhase::FollowUpInFlight,
        LayoutConvergencePhase::AwaitingNewInvalidation => LayoutConvergencePhase::FollowUpNeeded,
        _ => phase,
    }
}

/// The number of the next invalidation without a revision; the last number is kept.
pub open spec fn next_epoch(epoch: u64) -> u64 {
    if epoch == u64::MAX {
        epoch
    } else {
        (epoch + 1) as u64
    }
}

/// What is left of an out-of-date layout once a load has ended that covers the given number of
/// invalidations without a revision, and whether another load has to follow.
pub open spec fn pending_covered(
    p: PendingLayoutReloadView,
    covered: u64,
    model_revision: u32,
) -> (PendingLayoutReloadView, bool) {
    let satisfied = if p.revisionless_satisfied_epoch >= covered {
        p.revisionless_satisfied_epoch
    } else {
        covered
    };
    let reached = p.numeric_watermark matches Some(watermark) && model_revision >= watermark;
    let watermark = if reached {
        None
    } else {
        p.numeric_watermark
    };
    let phase = if reached {
        None
    } else {
        p.numeric_phase
    };
    let (next_phase, numeric) = match (watermark, phase) {
        (Some(_), Some(LayoutConvergencePhase::FollowUpNeeded)) => (phase, true),
        (Some(_), Some(LayoutConvergencePhase::FollowUpInFlight)) => (
            Some(LayoutConvergencePhase::RetryAvailable),
            true,
        ),
        (Some(_), Some(LayoutConvergencePhase::RetryInFlight)) => (
            Some(LayoutConvergencePhase::AwaitingNewInvalidation),
            false,
        ),
        _ => (phase, false),
    };
    (
        PendingLayoutReloadView {
            numeric_watermark: watermark,
            numeric_phase: next_phase,
            revisionless_satisfied_epoch: satisfied,
            ..p
        },
        p.revisionless_epoch > satisfied || numeric,
    )
}

/// Nothing of the layout is out of date any more.
pub open spec fn is_settled(p: PendingLayoutReloadView) -> bool {
    p.numeric_watermark is None && p.revisionless_epoch <= p.revisionless_satisfied_epoch
}

fn cover_pending(pending: &mut PendingLayoutReload, covered: u64, model_revision: u32) -> (r: bool)
    ensures
        (final(pending).deep_view(), r) == pending_covered(
            old(pending).deep_view(),
            covered,
            model_revision,
        ),
{
    if pending.revisionless_satisfied_epoch < covered {
        pending.revisionless_satisfied_epoch = covered;
    }
    let reached = match pending.numeric_watermark {
        Some(watermark) => model_revision >= watermark,
        None => false,
    };
    if reached {
        pending.numeric_watermark = None;
        pending.numeric_phase = None;
    }
    let numeric = match (pending.numeric_watermark, pending.numeric_phase) {
        (Some(_), Some(LayoutConvergencePhase::FollowUpNeeded)) => true,
        (Some(_), Some(LayoutConvergencePhase::FollowUpInFlight)) => {
            pending.numeric_phase = Some(LayoutConvergencePhase::RetryAvailable);
            true
        },
        (Some(_), Some(LayoutConvergencePhase::RetryInFlight)) => {
            pending.numeric_phase = Some(LayoutConvergencePhase::AwaitingNewInvalidation);
            false
        },
        _ => false,
    };
    pending.revisionless_epoch > pending.revisionless_satisfied_epoch || numeric
}

fn invalidate_pending(pending: &mut PendingLayoutReload, revision: Option<u32>)
    ensures
        final(pending).deep_view() == (match revision {
            Some(next) => PendingLayoutReloadView {
                numeric_watermark: Some(next),
                numeric_phase: Some(
                    match old(pending).deep_view().numeric_phase {
                        Some(phase) => phase_invalidated(phase),
                        None => LayoutConvergencePhase::FollowUpNeeded,
                    },
                ),
                ..old(pending).deep_view()
            },
            None => PendingLayoutReloadView {
                revisionless_epoch: next_epoch(old(pending).deep_view().revisionless_epoch),
                numeric_phase: match old(pending).deep_view().numeric_phase {
                    Some(phase) => Some(phase_invalidated(phase)),
                    None => None,
                },
                ..old(pending).deep_view()
            },
        }),
{
    match revision {
        Some(next) => {
            pending.numeric_watermark = Some(next);
            pending.numeric_phase =
            Some(
                match pending.numeric_phase {
                    Some(phase) => invalidate_phase(phase),
                    None => LayoutConvergencePhase::FollowUpNeeded,
                },
            );
        },
        None => {
            if pending.revisionless_epoch < u64::MAX {
                pending.revisionless_epoch = pending.revisionless_epoch + 1;
            }
            pending.numeric_phase =
            match pending.numeric_phase {
                Some(phase) => Some(invalidate_phase(phase)),
                None => None,
            };
        },
    }
}

impl Default for MenuLayoutReloadTracker {
    fn default() -> (r: Self)
        ensures
            r.deep_view() == MenuLayoutReloadTrackerView::initial(),
    {
        MenuLayoutReloadTracker {
            pending: None,
            active_endpoint: None,
            watcher_generations: Table::new(),
            in_flight_request: None,
            in_flight_revisionless_epoch: None,
        }
    }
}

impl MenuLayoutReloadTracker {
    fn is_active(&self, endpoint: &MenuSource) -> (r: bool)
        ensures
            r == (self.deep_view().active_endpoint == Some(endpoint.deep_view())),
    {
        match &self.active_endpoint {
            Some(active) => active.same(endpoint),
            None => false,
        }
    }

    fn is_loading(&self, endpoint: &MenuSource, request_id: u64) -> (r: bool)
        ensures
            r == self.deep_view().is_loading(endpoint.deep_view(), request_id),
    {
        self.is_active(endpoint) && self.in_flight_request.same(&Some(request_id))
    }

    /// Takes note of the watcher of the source of a load, and returns whether the load is the one
    /// under way.
    pub fn watcher_ready(
        &mut self,
        endpoint: MenuSource,
        watcher_generation: u64,
        request_id: u64,
    ) -> (r: bool)
        ensures
            r == old(self).deep_view().is_loading(endpoint.deep_view(), request_id),
            final(self).deep_view() == (if r {
                old(self).deep_view().watcher_ready(endpoint.deep_view(), watcher_generation)
            } else {
                old(self).deep_view()
            }),
    {
        if !self.is_loading(&endpoint, request_id) {
            return false;
        }
        let replaced = match self.watcher_generations.insert(endpoint, watcher_generation) {
            Some(previous) => previous != watcher_generation,
            None => false,
        };
        if replaced {
            self.pending = None;
            self.in_flight_revisionless_epoch = Some(0);
        }
        true
    }

    /// Forgets the watcher of an endpoint.
    pub fn remove_watcher(&mut self, endpoint: &MenuSource)
        ensures
            final(self).deep_view() == (MenuLayoutReloadTrackerView {
                watcher_generations: old(self).deep_view().watcher_generations.remove(
                    endpoint.deep_view(),
                ),
                ..old(self).deep_view()
            }).cleared_for(endpoint.deep_view()),
    {
        self.watcher_generations.remove(endpoint);
        self.clear_for(endpoint);
    }

    /// Forgets the watchers of the menus that a bus name serves.
    pub fn remove_watchers_for_owner(&mut self, owner: &str)
        ensures
            final(self).deep_view() == old(self).deep_view().without_owner(owner@),
    {
        let name = owner.to_owned();
        loading::drop_watchers_of(&mut self.watcher_generations, &name);
        let served = match &self.active_endpoint {
            Some(endpoint) => loading::served_by(endpoint, &name),
            None => false,
        };
        if served {
            self.clear_active();
        }
    }

    /// Takes note that a load begins.
    pub fn begin_load(&mut self, endpoint: MenuSource, request_id: u64)
        ensures
            final(self).deep_view() == old(self).deep_view().load_begun(
                endpoint.deep_view(),
                request_id,
            ),
    {
        if !self.is_active(&endpoint) {
            self.pending = None;
            self.active_endpoint = Some(endpoint);
        }
        match &mut self.pending {
            Some(pending) => {
                pending.numeric_phase = begin_phase(pending.numeric_phase);
            },
            None => {},
        }
        let epoch: u64 = match &self.pending {
            Some(pending) => pending.revisionless_epoch,
            None => 0,
        };
        self.in_flight_revisionless_epoch = Some(epoch);
        self.in_flight_request = Some(request_id);
    }

    fn tells_news(&self, endpoint: &MenuSource, revision: Option<u32>) -> (r: bool)
        ensures
            r == self.deep_view().is_news(endpoint.deep_view(), revision),
    {
        match (&self.pending, revision) {
            (Some(pending), Some(next)) => {
                let higher = match pending.numeric_watermark {
                    Some(current) => next > current,
                    None => true,
                };
                !pending.endpoint.same(endpoint) || higher
            },
            _ => true,
        }
    }

    fn take_invalidation(&mut self, endpoint: MenuSource, revision: Option<u32>)
        ensures
            final(self).deep_view() == old(self).deep_view().recorded(
                endpoint.deep_view(),
                revision,
            ),
    {
        let known = match &self.pending {
            Some(pending) => pending.endpoint.same(&endpoint),
            None => false,
        };
        if known {
            match &mut self.pending {
                Some(pending) => {
                    invalidate_pending(pending, revision);
                },
                None => {},
            }
        } else {
            let epoch: u64 = match revision {
                Some(_) => 0,
                None => 1,
            };
            let numeric_phase = match revision {
                Some(_) => Some(LayoutConvergencePhase::FollowUpNeeded),
                None => None,
            };
            self.pending =
            Some(
                PendingLayoutReload {
                    endpoint,
                    numeric_watermark: revision,
                    numeric_phase,
                    revisionless_epoch: epoch,
                    revisionless_satisfied_epoch: 0,
                },
            );
        }
    }

    /// Takes note of an invalidation, and returns whether it counts: it has to come from the
    /// current watcher of the active endpoint and to tell something new.
    pub fn record(
        &mut self,
        endpoint: MenuSource,
        watcher_generation: u64,
        revision: Option<u32>,
    ) -> (r: bool)
        ensures
            r == (old(self).deep_view().accepts_watcher(endpoint.deep_view(), watcher_generation)
                && old(self).deep_view().is_news(endpoint.deep_view(), revision)),
            final(self).deep_view() == (if r {
                old(self).deep_view().recorded(endpoint.deep_view(), revision)
            } else {
                old(self).deep_view()
            }),
    {
        if !self.accepts_watcher(&endpoint, watcher_generation) || !self.tells_news(
            &endpoint,
            revision,
        ) {
            return false;
        }
        self.take_invalidation(endpoint, revision);
        true
    }

    /// Forgets the active endpoint.
    pub fn clear_active(&mut self)
        ensures
            final(self).deep_view() == old(self).deep_view().cleared(),
    {
        self.pending = None;
        self.active_endpoint = None;
        self.in_flight_request = None;
        self.in_flight_revisionless_epoch = None;
    }

    /// Forgets the active endpoint if it is the given one.
    pub fn clear_for(&mut self, endpoint: &MenuSource)
        ensures
            final(self).deep_view() == old(self).deep_view().cleared_for(endpoint.deep_view()),
    {
        if self.is_active(endpoint) {
            self.clear_active();
        }
    }

    /// Whether a watcher is the current one of the active endpoint.
    pub fn accepts_watcher(&self, endpoint: &MenuSource, watcher_generation: u64) -> (r: bool)
        ensures
            r == self.deep_view().accepts_watcher(endpoint.deep_view(), watcher_generation),
    {
        let current = match self.watcher_generations.get(endpoint) {
            Some(generation) => *generation == watcher_generation,
            None => false,
        };
        self.is_active(endpoint) && current
    }

    /// Takes note that a load has ended, and returns whether another one has to follow.
    pub fn complete_load(
        &mut self,
        endpoint: &MenuSource,
        request_id: u64,
        model_revision: u32,
    ) -> (r: bool)
        ensures
            (final(self).deep_view(), r) == old(self).deep_view().load_completed(
                endpoint.deep_view(),
                request_id,
                model_revision,
            ),
    {
        if !self.is_loading(endpoint, request_id) {
            return false;
        }
        let covered: u64 = match self.in_flight_revisionless_epoch {
            Some(epoch) => epoch,
            None => 0,
        };
        self.in_flight_request = None;
        self.in_flight_revisionless_epoch = None;
        self.cover(endpoint, covered, model_revision)
    }

    fn cover(&mut self, endpoint: &MenuSource, covered: u64, model_revision: u32) -> (r: bool)
        ensures
            ({
                let t = old(self).deep_view();
                (final(self).deep_view(), r) == (match t.pending {
                    Some(p) => if p.endpoint == endpoint.deep_view() {
                        let (left, follow_up) = pending_covered(p, covered, model_revision);
                        (
                            MenuLayoutReloadTrackerView {
                                pending: if is_settled(left) {
                                    None
                                } else {
                                    Some(left)
                                },
                                ..t
                            },
                            follow_up,
                        )
                    } else {
                        (t, false)
                    },
                    None => (t, false),
                })
            }),
    {
        if !self.has_pending(endpoint) {
            return false;
        }
        let follow_up = match &mut self.pending {
            Some(pending) => cover_pending(pending, covered, model_revision),
            None => false,
        };
        let settled = match &self.pending {
            Some(pending) => pending.numeric_watermark.is_none() && pending.revisionless_epoch
                <= pending.revisionless_satisfied_epoch,
            None => true,
        };
        if settled {
            self.pending = None;
        }
        follow_up
    }

    /// Whether the layout of an endpoint is out of date.
    pub fn has_pending(&self, endpoint: &MenuSource) -> (r: bool)
        ensures
            r == (self.deep_view().pending matches Some(p) && p.endpoint == endpoint.deep_view()),
    {
        match &self.pending {
            Some(pending) => pending.endpoint.same(endpoint),
            None => false,
        }
    }

    /// How far the loads for the numbered invalidations of an endpoint have come.
    pub fn convergence_phase(&self, endpoint: &MenuSource) -> (r: Option<LayoutConvergencePhase>)
        ensures
            r == (match self.deep_view().pending {
                Some(p) => if p.endpoint == endpoint.deep_view() {
                    p.numeric_phase
                } else {
                    None
                },
                None => None,
            }),
    {
        match &self.pending {
            Some(pending) => if pending.endpoint.same(endpoint) {
                pending.numeric_phase
            } else {
                None
            },
            None => None,
        }
    }

    /// The highest revision that an invalidation of an endpoint announced.
    pub fn numeric_watermark(&self, endpoint: &MenuSource) -> (r: Option<u32>)
        ensures
            r == (match self.deep_view().pending {
                Some(p) => if p.endpoint == endpoint.deep_view() {
                    p.numeric_watermark
                } else {
                    None
                },
                None => None,
            }),
    {
        match &self.pending {
            Some(pending) => if pending.endpoint.same(endpoint) {
                pending.numeric_watermark
            } else {
                None
            },
            None => None,
        }
    }

    /// How many invalidations without a revision an endpoint has had, and how many of them have
    /// been covered.
    pub fn revisionless_epochs(&self, endpoint: &MenuSource) -> (r: Option<(u64, u64)>)
        ensures
            r == (match self.deep_view().pending {
                Some(p) => if p.endpoint == endpoint.deep_view() {
                    Some((p.revisionless_epoch, p.revisionless_satisfied_epoch))
                } else {
                    None
                },
                None => None,
            }),
    {
        match &self.pending {
            Some(pending) => if pending.endpoint.same(endpoint) {
                Some((pending.revisionless_epoch, pending.revisionless_satisfied_epoch))
            } else {
                None
            },
            None => None,
        }
    }
}

/// Whatever the tracker is told, only the layout of the active endpoint is out of date.
pub proof fn lemma_valid(
    t: MenuLayoutReloadTrackerView,
    endpoint: MenuSourceView,
    number: u64,
    revision: Option<u32>,
    owner: Seq<char>,
)
    requires
        t.is_valid(),
    ensures
        MenuLayoutReloadTrackerView::initial().is_valid(),
        t.cleared().is_valid(),
        t.cleared_for(endpoint).is_valid(),
        t.is_loading(endpoint, number) ==> t.watcher_ready(endpoint, number).is_valid(),
        t.without_owner(owner).is_valid(),
        t.load_begun(endpoint, number).is_valid(),
        t.active_endpoint == Some(endpoint) ==> t.recorded(endpoint, revision).is_valid(),
        revision is Some ==> t.load_completed(endpoint, number, revision->0).0.is_valid(),
{
}

/// A load that is not the one under way changes nothing when it ends, and asks for nothing.
pub proof fn lemma_stale_load_is_ignored(
    t: MenuLayoutReloadTrackerView,
    endpoint: MenuSourceView,
    request_id: u64,
    model_revision: u32,
)
    requires
        !t.is_loading(endpoint, request_id),
    ensures
        t.load_completed(endpoint, request_id, model_revision) == (t, false),
{
}

/// The revision that has to be reached never sinks: what counts as news is above it.
pub proof fn lemma_watermark_rises(
    t: MenuLayoutReloadTrackerView,
    endpoint: MenuSourceView,
    revision: u32,
)
    requires
        t.is_news(endpoint, Some(revision)),
    ensures
        t.recorded(endpoint, Some(revision)).pending->0.endpoint == endpoint,
        t.recorded(endpoint, Some(revision)).pending->0.numeric_watermark == Some(revision),
        t.pending matches Some(p) ==> p.endpoint == endpoint ==> match p.numeric_watermark {
            Some(watermark) => watermark < revision,
            None => true,
        },
        !t.recorded(endpoint, Some(revision)).is_news(endpoint, Some(revision)),
{
}

/// A layout that is new enough settles all that was announced before its load began.
pub proof fn lemma_new_layout_settles(
    t: MenuLayoutReloadTrackerView,
    endpoint: MenuSourceView,
    request_id: u64,
    model_revision: u32,
)
    requires
        t.pending matches Some(p) ==> match p.numeric_watermark {
            Some(watermark) => model_revision >= watermark,
            None => true,
        },
    ensures
        ({
            let (after, follow_up) = t.load_begun(endpoint, request_id).load_completed(
                endpoint,
                request_id,
                model_revision,
            );
            &&& !follow_up
            &&& !(after.pending matches Some(p) && p.endpoint == endpoint)
        }),
{
}

/// A load that has begun and ended again with the given revision.
pub open spec fn loaded_once(
    t: MenuLayoutReloadTrackerView,
    endpoint: MenuSourceView,
    request_id: u64,
    model_revision: u32,
) -> (MenuLayoutReloadTrackerView, bool) {
    t.load_begun(endpoint, request_id).load_completed(endpoint, request_id, model_revision)
}

/// Where the revision that was announced is never reached, one more load is tried after the first,
/// and no other until a new invalidation comes.
pub proof fn lemma_one_retry(
    t: MenuLayoutReloadTrackerView,
    endpoint: MenuSourceView,
    requests: (u64, u64, u64),
    revisions: (u32, u32, u32),
)
    requires
        t.active_endpoint == Some(endpoint),
        t.pending matches Some(p) && p.endpoint == endpoint && p.numeric_phase == Some(
            LayoutConvergencePhase::FollowUpNeeded,
        ) && (p.numeric_watermark matches Some(watermark) && revisions.0 < watermark && revisions.1
            < watermark && revisions.2 < watermark),
    ensures
        ({
            let (first, again) = loaded_once(t, endpoint, requests.0, revisions.0);
            let (second, third_time) = loaded_once(first, endpoint, requests.1, revisions.1);
            let (last, ever) = loaded_once(second, endpoint, requests.2, revisions.2);
            &&& again
            &&& !third_time
            &&& !ever
            &&& last.pending->0.numeric_phase == Some(
                LayoutConvergencePhase::AwaitingNewInvalidation,
            )
        }),
{
}

/// Invalidations without a revision that come one after the other.
pub open spec fn recorded_often(
    t: MenuLayoutReloadTrackerView,
    endpoint: MenuSourceView,
    times: nat,
) -> MenuLayoutReloadTrackerView
    decreases times,
{
    if times == 0 {
        t
    } else {
        recorded_often(t, endpoint, (times - 1) as nat).recorded(endpoint, None)
    }
}

proof fn lemma_recorded_often(
    t: MenuLayoutReloadTrackerView,
    endpoint: MenuSourceView,
    times: nat,
)
    requires
        times > 0,
    ensures
        ({
            let after = recorded_often(t, endpoint, times);
            let known = t.pending matches Some(p) && p.endpoint == endpoint;
            let epoch = if known {
                t.pending->0.revisionless_epoch
            } else {
                0u64
            };
            &&& after.active_endpoint == t.active_endpoint
            &&& after.in_flight_request == t.in_flight_request
            &&& after.in_flight_revisionless_epoch == t.in_flight_revisionless_epoch
            &&& after.pending is Some
            &&& after.pending->0.endpoint == endpoint
            &&& after.pending->0.revisionless_epoch > epoch || epoch == u64::MAX
            &&& known ==> after.pending->0.numeric_watermark == t.pending->0.numeric_watermark
            &&& known ==> after.pending->0.revisionless_satisfied_epoch
                == t.pending->0.revisionless_satisfied_epoch
            &&& !known ==> after.pending->0.numeric_watermark is None
            &&& !known ==> after.pending->0.revisionless_satisfied_epoch == 0
        }),
    decreases times,
{
    if times > 1 {
        lemma_recorded_often(t, endpoint, (times - 1) as nat);
    } else {
        assert(recorded_often(t, endpoint, 0) == t);
    }
}

/// Invalidations without a revision that come during a load, however many, ask for exactly one more
/// load.
pub proof fn lemma_late_invalidations_coalesce(
    t: MenuLayoutReloadTrackerView,
    endpoint: MenuSourceView,
    times: nat,
    requests: (u64, u64),
    revisions: (u32, u32),
)
    requires
        times > 0,
        t.is_valid(),
        t.pending matches Some(p) ==> p.numeric_watermark is None && p.revisionless_epoch
            < u64::MAX,
    ensures
        ({
            let loading = recorded_often(t.load_begun(endpoint, requests.0), endpoint, times);
            let (first, again) = loading.load_completed(endpoint, requests.0, revisions.0);
            let (second, ever) = loaded_once(first, endpoint, requests.1, revisions.1);
            &&& again
            &&& !ever
            &&& second.pending is None
        }),
{
    let begun = t.load_begun(endpoint, requests.0);
    lemma_recorded_often(begun, endpoint, times);
}

/// Once a watcher has been replaced, the old one does not count any more, nor what it reported.
pub proof fn lemma_replaced_watcher_does_not_count(
    t: MenuLayoutReloadTrackerView,
    endpoint: MenuSourceView,
    old_generation: u64,
    generation: u64,
)
    requires
        t.accepts_watcher(endpoint, old_generation),
        old_generation != generation,
    ensures
        !t.watcher_ready(endpoint, generation).accepts_watcher(endpoint, old_generation),
        t.watcher_ready(endpoint, generation).accepts_watcher(endpoint, generation),
        t.watcher_ready(endpoint, generation).pending is None,
{
}

/// Once the bus name of an endpoint is gone, no watcher of the endpoint counts.
pub proof fn lemma_gone_owner_does_not_count(
    t: MenuLayoutReloadTrackerView,
    endpoint: MenuSourceView,
    owner: Seq<char>,
    generation: u64,
)
    requires
        loading::is_served_by(endpoint, owner),
    ensures
        !t.without_owner(owner).accepts_watcher(endpoint, generation),
        t.active_endpoint == Some(endpoint) ==> t.without_owner(owner).pending is None,
{
}

/// A higher revision that is announced while a load is under way has the layout loaded again where the
/// load does not reach it, even where that load was the last try.
pub proof fn lemma_new_revision_is_tried_for(
    t: MenuLayoutReloadTrackerView,
    endpoint: MenuSourceView,
    request_id: u64,
    revision: u32,
    model_revision: u32,
)
    requires
        t.is_loading(endpoint, request_id),
        t.pending matches Some(p) && p.endpoint == endpoint && p.numeric_phase == Some(
            LayoutConvergencePhase::RetryInFlight,
        ),
        model_revision < revision,
    ensures
        ({
            let told = t.recorded(endpoint, Some(revision));
            let (after, again) = told.load_completed(endpoint, request_id, model_revision);
            &&& again
            &&& after.pending is Some
            &&& after.pending->0.numeric_watermark == Some(revision)
        }),
{
}

/// Where the layout was given up on, a new announcement has it loaded twice more at most.
pub proof fn lemma_given_up_is_tried_again(
    t: MenuLayoutReloadTrackerView,
    endpoint: MenuSourceView,
    request_id: u64,
    revision: u32,
    model_revision: u32,
)
    requires
        t.active_endpoint == Some(endpoint),
        t.pending matches Some(p) && p.endpoint == endpoint && p.numeric_phase == Some(
            LayoutConvergencePhase::AwaitingNewInvalidation,
        ) && p.revisionless_epoch <= p.revisionless_satisfied_epoch,
        model_revision < revision,
    ensures
        ({
            let told = t.recorded(endpoint, Some(revision));
            let (first, again) = loaded_once(told, endpoint, request_id, model_revision);
            let (second, ever) = loaded_once(first, endpoint, request_id, model_revision);
            &&& again
            &&& !ever
            &&& second.pending is Some
        }),
{
}

} // verus!
