//! What the usage service reports of the agents that run, and which of its reports count.
use vstd::prelude::*;

use crate::domain::usage::{
    AccountIdentity, AccountIdentityView, ActiveAgentUsage, ActiveAgentUsageView, UsageMeter,
    UsageMeterView, UsageStatus, UsageSummary, UsageSummaryView, UsageValue, UsageValueView,
};
use crate::lists;
use crate::value;
use crate::value::Value;

verus! {

/// The name of the usage service on the bus.
pub const BUS_NAME: &'static str = "org.xbar.AiUsage1";

/// The object of the usage service.
pub const OBJECT_PATH: &'static str = "/org/xbar/AiUsage1";

/// The interface of the usage service.
pub const INTERFACE: &'static str = "org.xbar.AiUsage1";

/// The account of an agent in a report.
#[derive(Clone, Debug, Eq, PartialEq)]
pub enum AccountIdentityWire {
    Default,
    Named(String),
    Unknown,
}

/// The model of a [`AccountIdentityWire`].
#[verifier::ext_equal]
pub enum AccountIdentityWireView {
    Default,
    Named(Seq<char>),
    Unknown,
}

impl DeepView for AccountIdentityWire {
    type V = AccountIdentityWireView;

    open spec fn deep_view(&self) -> AccountIdentityWireView {
        match self {
            AccountIdentityWire::Default => AccountIdentityWireView::Default,
            AccountIdentityWire::Named(a) => AccountIdentityWireView::Named(a.deep_view()),
            AccountIdentityWire::Unknown => AccountIdentityWireView::Unknown,
        }
    }
}

/// The status of an agent in a report.
#[derive(Clone, Copy, Debug, Eq, PartialEq, Structural)]
pub enum UsageStatusWire {
    Fresh,
    Stale,
    Unavailable,
    Unknown,
}

/// The value of a meter in a report.
#[derive(Clone, Debug, Eq, PartialEq)]
pub enum UsageValueWire {
    Percentage { used_pct: Option<u16>, remaining_pct: Option<u16> },
    Amount { value: String, unit: Option<String> },
    Count { value: u64, unit: Option<String> },
    Text { value: String, unit: Option<String> },
}

/// The model of a [`UsageValueWire`].
#[verifier::ext_equal]
pub enum UsageValueWireView {
    Percentage { used_pct: Option<u16>, remaining_pct: Option<u16> },
    Amount { value: Seq<char>, unit: Option<Seq<char>> },
    Count { value: u64, unit: Option<Seq<char>> },
    Text { value: Seq<char>, unit: Option<Seq<char>> },
}

impl DeepView for UsageValueWire {
    type V = UsageValueWireView;

    open spec fn deep_view(&self) -> UsageValueWireView {
        match self {
            UsageValueWire::Percentage { used_pct, remaining_pct } => UsageValueWireView::Percentage { used_pct: used_pct.deep_view(), remaining_pct: remaining_pct.deep_view() },
            UsageValueWire::Amount { value, unit } => UsageValueWireView::Amount { value: value.deep_view(), unit: unit.deep_view() },
            UsageValueWire::Count { value, unit } => UsageValueWireView::Count { value: *value, unit: unit.deep_view() },
            UsageValueWire::Text { value, unit } => UsageValueWireView::Text { value: value.deep_view(), unit: unit.deep_view() },
        }
    }
}

/// A meter in a report.
#[derive(Clone, Debug, Eq, PartialEq)]
pub struct UsageMeterWire {
    pub id: String,
    pub label: String,
    pub used_pct: Option<u16>,
    pub remaining_pct: Option<u16>,
    pub value: Option<UsageValueWire>,
    pub reset_at: Option<i64>,
}

/// The model of a [`UsageMeterWire`].
#[verifier::ext_equal]
pub struct UsageMeterWireView {
    pub id: Seq<char>,
    pub label: Seq<char>,
    pub used_pct: Option<u16>,
    pub remaining_pct: Option<u16>,
    pub value: Option<UsageValueWireView>,
    pub reset_at: Option<i64>,
}

impl DeepView for UsageMeterWire {
    type V = UsageMeterWireView;

    open spec fn deep_view(&self) -> UsageMeterWireView {
        UsageMeterWireView {
            id: self.id.deep_view(),
            label: self.label.deep_view(),
            used_pct: self.used_pct.deep_view(),
            remaining_pct: self.remaining_pct.deep_view(),
            value: self.value.deep_view(),
            reset_at: self.reset_at.deep_view(),
        }
    }
}

/// The summary of an agent in a report.
#[derive(Clone, Debug, Eq, PartialEq)]
pub struct UsageSummaryWire {
    pub primary_meter_id: Option<String>,
    pub remaining_pct: Option<u16>,
}

/// The model of a [`UsageSummaryWire`].
#[verifier::ext_equal]
pub struct UsageSummaryWireView {
    pub primary_meter_id: Option<Seq<char>>,
    pub remaining_pct: Option<u16>,
}

impl DeepView for UsageSummaryWire {
    type V = UsageSummaryWireView;

    open spec fn deep_view(&self) -> UsageSummaryWireView {
        UsageSummaryWireView {
            primary_meter_id: self.primary_meter_id.deep_view(),
            remaining_pct: self.remaining_pct.deep_view(),
        }
    }
}

/// An agent in a report.
#[derive(Clone, Debug, Eq, PartialEq)]
pub struct ActiveAgentUsageWire {
    pub agent_id: String,
    pub provider_id: String,
    pub account_id: AccountIdentityWire,
    pub display_name: String,
    pub active_instances: u32,
    pub meters: Vec<UsageMeterWire>,
    pub summary: UsageSummaryWire,
    pub status: UsageStatusWire,
    pub fetched_at: Option<i64>,
    pub cache_age_secs: Option<u64>,
}

/// The model of a [`ActiveAgentUsageWire`].
#[verifier::ext_equal]
pub struct ActiveAgentUsageWireView {
    pub agent_id: Seq<char>,
    pub provider_id: Seq<char>,
    pub account_id: AccountIdentityWireView,
    pub display_name: Seq<char>,
    pub active_instances: u32,
    pub meters: Seq<UsageMeterWireView>,
    pub summary: UsageSummaryWireView,
    pub status: UsageStatusWire,
    pub fetched_at: Option<i64>,
    pub cache_age_secs: Option<u64>,
}

impl DeepView for ActiveAgentUsageWire {
    type V = ActiveAgentUsageWireView;

    open spec fn deep_view(&self) -> ActiveAgentUsageWireView {
        ActiveAgentUsageWireView {
            agent_id: self.agent_id.deep_view(),
            provider_id: self.provider_id.deep_view(),
            account_id: self.account_id.deep_view(),
            display_name: self.display_name.deep_view(),
            active_instances: self.active_instances,
            meters: self.meters.deep_view(),
            summary: self.summary.deep_view(),
            status: self.status,
            fetched_at: self.fetched_at.deep_view(),
            cache_age_secs: self.cache_age_secs.deep_view(),
        }
    }
}

/// A report of the usage service.
#[derive(Clone, Debug, Eq, PartialEq)]
pub struct AiUsageSnapshotWire {
    pub state_revision: u64,
    pub agents: Vec<ActiveAgentUsageWire>,
}

/// The model of a [`AiUsageSnapshotWire`].
#[verifier::ext_equal]
pub struct AiUsageSnapshotWireView {
    pub state_revision: u64,
    pub agents: Seq<ActiveAgentUsageWireView>,
}

impl DeepView for AiUsageSnapshotWire {
    type V = AiUsageSnapshotWireView;

    open spec fn deep_view(&self) -> AiUsageSnapshotWireView {
        AiUsageSnapshotWireView {
            state_revision: self.state_revision,
            agents: self.agents.deep_view(),
        }
    }
}

/// Lets one request to start the service through.
#[derive(Clone, Copy, Debug, Eq, PartialEq)]
pub struct ActivationGate {
    pub requested: bool,
}

impl Default for ActivationGate {
    fn default() -> (r: Self)
        ensures
            !r.requested,
    {
        ActivationGate { requested: false }
    }
}

impl ActivationGate {
    /// Whether the service is to be started now: only the first call says so.
    pub fn request_once(&mut self) -> (r: bool)
        ensures
            r == !old(self).requested,
            final(self).requested,
    {
        if self.requested {
            false
        } else {
            self.requested = true;
            true
        }
    }
}

/// Why a report that came from the current service is refused.
#[derive(Clone, Debug, Eq, PartialEq)]
pub enum SnapshotError {
    /// The bytes are no report.
    Protocol(String),
    /// A value in the report is out of range.
    InvalidValue(String),
}

/// The model of a [`SnapshotError`].
pub enum SnapshotErrorView {
    Protocol(Seq<char>),
    InvalidValue(Seq<char>),
}

impl DeepView for SnapshotError {
    type V = SnapshotErrorView;

    open spec fn deep_view(&self) -> SnapshotErrorView {
        match self {
            SnapshotError::Protocol(a) => SnapshotErrorView::Protocol(a@),
            SnapshotError::InvalidValue(a) => SnapshotErrorView::InvalidValue(a@),
        }
    }
}

impl SnapshotError {
    /// What is said of the error.
    pub fn message(&self) -> (r: String)
        ensures
            r@ == (match self.deep_view() {
                SnapshotErrorView::Protocol(s) => s,
                SnapshotErrorView::InvalidValue(s) => s,
            }),
    {
        match self {
            SnapshotError::Protocol(s) => s.dup(),
            SnapshotError::InvalidValue(s) => s.dup(),
        }
    }
}

/// What became of a report.
#[derive(Clone, Debug, PartialEq)]
pub enum SnapshotDisposition {
    Accepted(Vec<ActiveAgentUsage>),
    Rejected,
}

/// The model of a [`SnapshotDisposition`].
#[verifier::ext_equal]
pub enum SnapshotDispositionView {
    Accepted(Seq<ActiveAgentUsageView>),
    Rejected,
}

impl DeepView for SnapshotDisposition {
    type V = SnapshotDispositionView;

    open spec fn deep_view(&self) -> SnapshotDispositionView {
        match self {
            SnapshotDisposition::Accepted(a) => SnapshotDispositionView::Accepted(a.deep_view()),
            SnapshotDisposition::Rejected => SnapshotDispositionView::Rejected,
        }
    }
}

/// A moment that is not before the epoch.
pub open spec fn moment_of(t: Option<i64>) -> Option<u64> {
    match t {
        Some(t) => Some(t as u64),
        None => None,
    }
}

/// Whether a moment is not before the epoch.
pub open spec fn moment_valid(t: Option<i64>) -> bool {
    t matches Some(t) ==> t >= 0
}

/// What is said of a moment before the epoch.
pub open spec fn negative_timestamp() -> SnapshotErrorView {
    SnapshotErrorView::InvalidValue("negative timestamp"@)
}

/// A moment in a report.
pub fn nonnegative_timestamp(t: i64) -> (r: Result<u64, SnapshotError>)
    ensures
        t >= 0 ==> r == Ok::<u64, SnapshotError>(t as u64),
        t < 0 ==> (r matches Err(e) && e.deep_view() == negative_timestamp()),
{
    if t >= 0 {
        Ok(t as u64)
    } else {
        Err(SnapshotError::InvalidValue("negative timestamp".to_owned()))
    }
}

fn optional_moment(t: Option<i64>) -> (r: Result<Option<u64>, SnapshotError>)
    ensures
        moment_valid(t) ==> r == Ok::<Option<u64>, SnapshotError>(moment_of(t)),
        !moment_valid(t) ==> (r matches Err(e) && e.deep_view() == negative_timestamp()),
{
    match t {
        Some(t) => match nonnegative_timestamp(t) {
            Ok(t) => Ok(Some(t)),
            Err(e) => Err(e),
        },
        None => Ok(None),
    }
}

/// The account that a report speaks of.
pub open spec fn account_of(account: AccountIdentityWireView) -> AccountIdentityView {
    match account {
        AccountIdentityWireView::Default => AccountIdentityView::Default,
        AccountIdentityWireView::Named(scope) => AccountIdentityView::Named(scope),
        AccountIdentityWireView::Unknown => AccountIdentityView::Unknown,
    }
}

fn account_to_core(account: &AccountIdentityWire) -> (r: AccountIdentity)
    ensures
        r.deep_view() == account_of(account.deep_view()),
{
    match account {
        AccountIdentityWire::Default => AccountIdentity::Default,
        AccountIdentityWire::Named(scope) => AccountIdentity::Named(scope.dup()),
        AccountIdentityWire::Unknown => AccountIdentity::Unknown,
    }
}

/// The status that a report speaks of.
pub open spec fn status_of(status: UsageStatusWire) -> UsageStatus {
    match status {
        UsageStatusWire::Fresh => UsageStatus::Fresh,
        UsageStatusWire::Stale => UsageStatus::Stale,
        UsageStatusWire::Unavailable => UsageStatus::Unavailable,
        UsageStatusWire::Unknown => UsageStatus::Unknown,
    }
}

fn status_to_core(status: &UsageStatusWire) -> (r: UsageStatus)
    ensures
        r == status_of(*status),
{
    match status {
        UsageStatusWire::Fresh => UsageStatus::Fresh,
        UsageStatusWire::Stale => UsageStatus::Stale,
        UsageStatusWire::Unavailable => UsageStatus::Unavailable,
        UsageStatusWire::Unknown => UsageStatus::Unknown,
    }
}

/// The value that a report speaks of.
pub open spec fn value_of(v: UsageValueWireView) -> UsageValueView {
    match v {
        UsageValueWireView::Percentage { used_pct, remaining_pct } => UsageValueView::Percentage {
            remaining_pct,
            used_pct,
        },
        UsageValueWireView::Amount { value, unit } => UsageValueView::Amount { value, unit },
        UsageValueWireView::Count { value, unit } => UsageValueView::Count { value, unit },
        UsageValueWireView::Text { value, unit } => UsageValueView::Text { value, unit },
    }
}

fn value_to_core(v: &UsageValueWire) -> (r: UsageValue)
    ensures
        r.deep_view() == value_of(v.deep_view()),
{
    match v {
        UsageValueWire::Percentage { used_pct, remaining_pct } => UsageValue::Percentage {
            remaining_pct: remaining_pct.dup(),
            used_pct: used_pct.dup(),
        },
        UsageValueWire::Amount { value, unit } => UsageValue::Amount {
            value: value.dup(),
            unit: unit.dup(),
        },
        UsageValueWire::Count { value, unit } => UsageValue::Count {
            value: *value,
            unit: unit.dup(),
        },
        UsageValueWire::Text { value, unit } => UsageValue::Text {
            value: value.dup(),
            unit: unit.dup(),
        },
    }
}

/// The meter that a report speaks of.
pub open spec fn meter_of(meter: UsageMeterWireView) -> UsageMeterView {
    UsageMeterView {
        id: meter.id,
        label: meter.label,
        remaining_pct: meter.remaining_pct,
        used_pct: meter.used_pct,
        value: match meter.value {
            Some(v) => Some(value_of(v)),
            None => None,
        },
        reset_at: moment_of(meter.reset_at),
    }
}

fn meter_to_core(meter: &UsageMeterWire) -> (r: Result<UsageMeter, SnapshotError>)
    ensures
        moment_valid(meter.reset_at) ==> (r matches Ok(m) && m.deep_view() == meter_of(
            meter.deep_view(),
        )),
        !moment_valid(meter.reset_at) ==> (r matches Err(e) && e.deep_view()
            == negative_timestamp()),
{
    let reset_at = match optional_moment(meter.reset_at) {
        Ok(reset_at) => reset_at,
        Err(e) => {
            return Err(e);
        },
    };
    Ok(
        UsageMeter {
            id: meter.id.dup(),
            label: meter.label.dup(),
            remaining_pct: meter.remaining_pct.dup(),
            used_pct: meter.used_pct.dup(),
            value: match &meter.value {
                Some(v) => Some(value_to_core(v)),
                None => None,
            },
            reset_at,
        },
    )
}

/// Whether no moment of the first meters is before the epoch.
pub open spec fn meters_valid(meters: Seq<UsageMeterWireView>) -> bool {
    forall|i: int| 0 <= i < meters.len() ==> moment_valid((#[trigger] meters[i]).reset_at)
}

fn meters_to_core(meters: &Vec<UsageMeterWire>) -> (r: Result<Vec<UsageMeter>, SnapshotError>)
    ensures
        meters_valid(meters.deep_view()) ==> (r matches Ok(m) && m.deep_view()
            == meters.deep_view().map_values(|w: UsageMeterWireView| meter_of(w))),
        !meters_valid(meters.deep_view()) ==> (r matches Err(e) && e.deep_view()
            == negative_timestamp()),
{
    let ghost all = meters.deep_view();
    let ghost f = |w: UsageMeterWireView| meter_of(w);
    let mut result: Vec<UsageMeter> = Vec::new();
    let mut i: usize = 0;
    assert(result.deep_view() =~= all.take(0).map_values(f));
    while i < meters.len()
        invariant
            i <= meters.len(),
            all == meters.deep_view(),
            f == (|w: UsageMeterWireView| meter_of(w)),
            meters_valid(all.take(i as int)),
            result.deep_view() == all.take(i as int).map_values(f),
        decreases meters.len() - i,
    {
        assert(all[i as int] == meters[i as int].deep_view());
        match meter_to_core(&meters[i]) {
            Ok(meter) => {
                lists::push(&mut result, meter);
            },
            Err(e) => {
                return Err(e);
            },
        }
        assert(all.take(i + 1) =~= all.take(i as int).push(all[i as int]));
        assert(all.take(i + 1).map_values(f) =~= all.take(i as int).map_values(f).push(
            f(all[i as int]),
        ));
        i += 1;
    }
    assert(all.take(i as int) =~= all);
    Ok(result)
}

/// Whether no moment in what a report says of an agent is before the epoch.
pub open spec fn agent_valid(agent: ActiveAgentUsageWireView) -> bool {
    meters_valid(agent.meters) && moment_valid(agent.fetched_at)
}

/// The usage that a report speaks of.
pub open spec fn usage_of(agent: ActiveAgentUsageWireView) -> ActiveAgentUsageView {
    ActiveAgentUsageView {
        agent_id: agent.agent_id,
        provider_id: agent.provider_id,
        account_id: account_of(agent.account_id),
        display_name: agent.display_name,
        active_instances: agent.active_instances,
        meters: agent.meters.map_values(|w: UsageMeterWireView| meter_of(w)),
        summary: UsageSummaryView {
            label: match agent.summary.primary_meter_id {
                Some(id) => id,
                None => Seq::empty(),
            },
            remaining_pct: agent.summary.remaining_pct,
        },
        status: status_of(agent.status),
        fetched_at: moment_of(agent.fetched_at),
        cache_age_secs: agent.cache_age_secs,
    }
}

/// The usage that a report speaks of.
pub fn wire_to_core(agent: &ActiveAgentUsageWire) -> (r: Result<ActiveAgentUsage, SnapshotError>)
    ensures
        agent_valid(agent.deep_view()) ==> (r matches Ok(u) && u.deep_view() == usage_of(
            agent.deep_view(),
        )),
        !agent_valid(agent.deep_view()) ==> (r matches Err(e) && e.deep_view()
            == negative_timestamp()),
{
    let meters = match meters_to_core(&agent.meters) {
        Ok(meters) => meters,
        Err(e) => {
            return Err(e);
        },
    };
    let fetched_at = match optional_moment(agent.fetched_at) {
        Ok(fetched_at) => fetched_at,
        Err(e) => {
            return Err(e);
        },
    };
    let label = match &agent.summary.primary_meter_id {
        Some(id) => id.dup(),
        None => String::new(),
    };
    assert(agent.summary.primary_meter_id is None ==> label@ =~= Seq::<char>::empty());
    Ok(
        ActiveAgentUsage {
            agent_id: agent.agent_id.dup(),
            provider_id: agent.provider_id.dup(),
            account_id: account_to_core(&agent.account_id),
            display_name: agent.display_name.dup(),
            active_instances: agent.active_instances,
            meters,
            summary: UsageSummary { label, remaining_pct: agent.summary.remaining_pct.dup() },
            status: status_to_core(&agent.status),
            fetched_at,
            cache_age_secs: agent.cache_age_secs.dup(),
        },
    )
}

/// Whether no moment in a report is before the epoch.
pub open spec fn agents_valid(agents: Seq<ActiveAgentUsageWireView>) -> bool {
    forall|i: int| 0 <= i < agents.len() ==> agent_valid(#[trigger] agents[i])
}

fn agents_to_core(agents: &Vec<ActiveAgentUsageWire>) -> (r: Result<
    Vec<ActiveAgentUsage>,
    SnapshotError,
>)
    ensures
        agents_valid(agents.deep_view()) ==> (r matches Ok(u) && u.deep_view()
            == agents.deep_view().map_values(|w: ActiveAgentUsageWireView| usage_of(w))),
        !agents_valid(agents.deep_view()) ==> (r matches Err(e) && e.deep_view()
            == negative_timestamp()),
{
    let ghost all = agents.deep_view();
    let ghost f = |w: ActiveAgentUsageWireView| usage_of(w);
    let mut result: Vec<ActiveAgentUsage> = Vec::new();
    let mut i: usize = 0;
    assert(result.deep_view() =~= all.take(0).map_values(f));
    while i < agents.len()
        invariant
            i <= agents.len(),
            all == agents.deep_view(),
            f == (|w: ActiveAgentUsageWireView| usage_of(w)),
            agents_valid(all.take(i as int)),
            result.deep_view() == all.take(i as int).map_values(f),
        decreases agents.len() - i,
    {
        assert(all[i as int] == agents[i as int].deep_view());
        match wire_to_core(&agents[i]) {
            Ok(usage) => {
                lists::push(&mut result, usage);
            },
            Err(e) => {
                return Err(e);
            },
        }
        assert(all.take(i + 1) =~= all.take(i as int).push(all[i as int]));
        assert(all.take(i + 1).map_values(f) =~= all.take(i as int).map_values(f).push(
            f(all[i as int]),
        ));
        i += 1;
    }
    assert(all.take(i as int) =~= all);
    Ok(result)
}

/// What is known of the usage service: its owner on the bus, and its last report that counted.
#[derive(Clone, Debug, PartialEq)]
pub struct AiUsageSubscription {
    pub current_unique_owner: Option<String>,
    pub last_revision: Option<u64>,
    pub current_usage: Vec<ActiveAgentUsage>,
}

/// The model of a [`AiUsageSubscription`].
#[verifier::ext_equal]
pub struct AiUsageSubscriptionView {
    pub current_unique_owner: Option<Seq<char>>,
    pub last_revision: Option<u64>,
    pub current_usage: Seq<ActiveAgentUsageView>,
}

impl DeepView for AiUsageSubscription {
    type V = AiUsageSubscriptionView;

    open spec fn deep_view(&self) -> AiUsageSubscriptionView {
        AiUsageSubscriptionView {
            current_unique_owner: self.current_unique_owner.deep_view(),
            last_revision: self.last_revision.deep_view(),
            current_usage: self.current_usage.deep_view(),
        }
    }
}

impl AiUsageSubscriptionView {
    /// The model of a default [`AiUsageSubscription`].
    pub open spec fn initial() -> AiUsageSubscriptionView {
        AiUsageSubscriptionView {
            current_unique_owner: None,
            last_revision: None,
            current_usage: Seq::empty(),
        }
    }
}

impl Default for AiUsageSubscription {
    fn default() -> (r: Self)
        ensures
            r.deep_view() == AiUsageSubscriptionView::initial(),
    {
        let r = AiUsageSubscription {
            current_unique_owner: None,
            last_revision: None,
            current_usage: Vec::new(),
        };
        assert(r.deep_view() =~= AiUsageSubscriptionView::initial());
        r
    }
}

impl AiUsageSubscriptionView {
    /// After an owner appeared: nothing is left of another one.
    pub open spec fn owned_by(self, owner: Seq<char>) -> AiUsageSubscriptionView {
        if self.current_unique_owner == Some(owner) {
            self
        } else {
            AiUsageSubscriptionView {
                current_unique_owner: Some(owner),
                last_revision: None,
                current_usage: Seq::empty(),
            }
        }
    }

    /// After an owner disappeared.
    pub open spec fn without(self, owner: Seq<char>) -> AiUsageSubscriptionView {
        if self.current_unique_owner == Some(owner) {
            AiUsageSubscriptionView::initial()
        } else {
            self
        }
    }

    /// Whether a revision of the current owner is news.
    pub open spec fn is_news(self, revision: u64) -> bool {
        self.last_revision matches Some(last) ==> last < revision
    }

    /// Whether a report counts.
    pub open spec fn accepts(
        self,
        owner: Seq<char>,
        snapshot: Result<AiUsageSnapshotWireView, Seq<char>>,
    ) -> bool {
        self.current_unique_owner == Some(owner) && (snapshot matches Ok(s) && self.is_news(
            s.state_revision,
        ) && agents_valid(s.agents))
    }

    /// After a report.
    pub open spec fn informed(
        self,
        owner: Seq<char>,
        snapshot: Result<AiUsageSnapshotWireView, Seq<char>>,
    ) -> AiUsageSubscriptionView {
        if self.accepts(owner, snapshot) {
            AiUsageSubscriptionView {
                last_revision: Some(snapshot->Ok_0.state_revision),
                current_usage: snapshot->Ok_0.agents.map_values(
                    |w: ActiveAgentUsageWireView| usage_of(w),
                ),
                ..self
            }
        } else {
            self
        }
    }

    /// What becomes of a report: one of another owner or of no news is passed over, one that is broken
    /// is refused.
    pub open spec fn disposition(
        self,
        owner: Seq<char>,
        snapshot: Result<AiUsageSnapshotWireView, Seq<char>>,
    ) -> Result<SnapshotDispositionView, SnapshotErrorView> {
        if self.current_unique_owner != Some(owner) {
            Ok(SnapshotDispositionView::Rejected)
        } else {
            match snapshot {
                Err(reason) => Err(SnapshotErrorView::Protocol(reason)),
                Ok(s) => if !self.is_news(s.state_revision) {
                    Ok(SnapshotDispositionView::Rejected)
                } else if !agents_valid(s.agents) {
                    Err(negative_timestamp())
                } else {
                    Ok(
                        SnapshotDispositionView::Accepted(
                            self.informed(owner, snapshot).current_usage,
                        ),
                    )
                },
            }
        }
    }
}

/// The model of a report, or of what is said of bytes that are none.
pub open spec fn report_view(snapshot: Result<AiUsageSnapshotWire, String>) -> Result<
    AiUsageSnapshotWireView,
    Seq<char>,
> {
    match snapshot {
        Ok(s) => Ok(s.deep_view()),
        Err(e) => Err(e@),
    }
}

impl AiUsageSubscription {
    fn is_owner(&self, owner: &str) -> (r: bool)
        ensures
            r == (self.deep_view().current_unique_owner == Some(owner@)),
    {
        match &self.current_unique_owner {
            Some(current) => value::is_text(current, owner),
            None => false,
        }
    }

    /// The service has an owner; returns whether usage was known of another one.
    pub fn owner_appeared(&mut self, owner: String) -> (r: bool)
        ensures
            final(self).deep_view() == old(self).deep_view().owned_by(owner@),
            r == (old(self).deep_view().current_unique_owner != Some(owner@) && old(
                self,
            ).deep_view().current_usage.len() > 0),
    {
        if self.is_owner(owner.as_str()) {
            return false;
        }
        self.current_unique_owner = Some(owner);
        self.last_revision = None;
        let changed = self.current_usage.len() > 0;
        self.current_usage = Vec::new();
        assert(self.current_usage.deep_view() =~= Seq::<ActiveAgentUsageView>::empty());
        changed
    }

    /// An owner of the service is gone; returns whether usage was known of it.
    pub fn owner_disappeared(&mut self, owner: &str) -> (r: bool)
        ensures
            final(self).deep_view() == old(self).deep_view().without(owner@),
            r == (old(self).deep_view().current_unique_owner == Some(owner@) && old(
                self,
            ).deep_view().current_usage.len() > 0),
    {
        if !self.is_owner(owner) {
            return false;
        }
        self.current_unique_owner = None;
        self.last_revision = None;
        let changed = self.current_usage.len() > 0;
        self.current_usage = Vec::new();
        assert(self.current_usage.deep_view() =~= Seq::<ActiveAgentUsageView>::empty());
        changed
    }

    /// Takes a report of the service in.
    pub fn accept_snapshot(
        &mut self,
        owner: &str,
        snapshot: Result<AiUsageSnapshotWire, String>,
    ) -> (r: Result<SnapshotDisposition, SnapshotError>)
        ensures
            final(self).deep_view() == old(self).deep_view().informed(
                owner@,
                report_view(snapshot),
            ),
            match old(self).deep_view().disposition(owner@, report_view(snapshot)) {
                Ok(d) => r matches Ok(disposition) && disposition.deep_view() == d,
                Err(e) => r matches Err(error) && error.deep_view() == e,
            },
    {
        if !self.is_owner(owner) {
            return Ok(SnapshotDisposition::Rejected);
        }
        let snapshot = match snapshot {
            Ok(snapshot) => snapshot,
            Err(e) => {
                return Err(SnapshotError::Protocol(e));
            },
        };
        if let Some(last) = self.last_revision {
            if snapshot.state_revision <= last {
                return Ok(SnapshotDisposition::Rejected);
            }
        }
        let usage = match agents_to_core(&snapshot.agents) {
            Ok(usage) => usage,
            Err(e) => {
                return Err(e);
            },
        };
        self.last_revision = Some(snapshot.state_revision);
        let accepted = usage.dup();
        self.current_usage = usage;
        Ok(SnapshotDisposition::Accepted(accepted))
    }
}

/// A report that counts has a higher revision than the last one of its owner.
pub proof fn lemma_revision_increases(
    subscription: AiUsageSubscriptionView,
    owner: Seq<char>,
    snapshot: Result<AiUsageSnapshotWireView, Seq<char>>,
)
    ensures
        subscription.disposition(owner, snapshot) matches Ok(
            SnapshotDispositionView::Accepted(_),
        ) ==> (subscription.informed(owner, snapshot).last_revision matches Some(revision)
            && subscription.is_news(revision)),
{
}

/// A report counts at most once.
pub proof fn lemma_report_counts_once(
    subscription: AiUsageSubscriptionView,
    owner: Seq<char>,
    snapshot: Result<AiUsageSnapshotWireView, Seq<char>>,
)
    requires
        subscription.accepts(owner, snapshot),
    ensures
        subscription.informed(owner, snapshot).disposition(owner, snapshot) == Ok::<
            SnapshotDispositionView,
            SnapshotErrorView,
        >(SnapshotDispositionView::Rejected),
        subscription.informed(owner, snapshot).informed(owner, snapshot) == subscription.informed(
            owner,
            snapshot,
        ),
{
}

/// A report of another owner than the current one, and one that is refused, change nothing.
pub proof fn lemma_other_reports_change_nothing(
    subscription: AiUsageSubscriptionView,
    owner: Seq<char>,
    snapshot: Result<AiUsageSnapshotWireView, Seq<char>>,
)
    requires
        subscription.current_unique_owner != Some(owner) || subscription.disposition(
            owner,
            snapshot,
        ) is Err,
    ensures
        subscription.informed(owner, snapshot) == subscription,
{
}

/// The owner that is gone is not the current one where another one appeared after it.
pub proof fn lemma_late_loss_changes_nothing(
    subscription: AiUsageSubscriptionView,
    gone: Seq<char>,
    owner: Seq<char>,
)
    requires
        gone != owner,
    ensures
        subscription.owned_by(owner).without(gone) == subscription.owned_by(owner),
{
}

/// Whether a character may stand in an element of a name on the bus.
pub open spec fn is_name_char(c: char) -> bool {
    ||| 'a' <= c <= 'z'
    ||| 'A' <= c <= 'Z'
    ||| '0' <= c <= '9'
    ||| c == '_'
    ||| c == '-'
}

/// Whether a text is the unique name of a connection: a colon in front of two or more elements with
/// a dot between them, or the name of the bus itself.
pub open spec fn is_unique_name(s: Seq<char>) -> bool {
    ||| s == "org.freedesktop.DBus"@
    ||| {
        &&& 4 <= s.len() <= 255
        &&& s[0] == ':'
        &&& forall|i: int| 1 <= i < s.len() ==> is_name_char(#[trigger] s[i]) || s[i] == '.'
        &&& exists|i: int| 1 <= i < s.len() && #[trigger] s[i] == '.'
        &&& s[1] != '.'
        &&& s.last() != '.'
        &&& forall|i: int| 1 <= i < s.len() - 1 && #[trigger] s[i] == '.' ==> s[i + 1] != '.'
    }
}

/// Calls `TryFrom<String>` of `zbus::names::OwnedUniqueName`: the call gives the name back where the
/// text is a unique name, and an error where it is none.
#[verifier::external_body]
fn unique_name(owner: String) -> (r: Option<String>)
    ensures
        match r {
            Some(name) => is_unique_name(owner@) && name@ == owner@,
            None => !is_unique_name(owner@),
        },
{
    zbus::names::OwnedUniqueName::try_from(owner).ok().map(|name| name.as_str().to_owned())
}

/// Where to ask for the state of the service: its owner, by the unique name.
pub fn unique_owner_destination(owner: &str) -> (r: Option<String>)
    ensures
        match r {
            Some(name) => is_unique_name(owner@) && name@ == owner@,
            None => !is_unique_name(owner@),
        },
{
    unique_name(owner.to_owned())
}

/// Whether what is known of an agent is what was reported of it.
pub open spec fn tells(usage: ActiveAgentUsageView, agent: ActiveAgentUsageWireView) -> bool {
    &&& usage.agent_id == agent.agent_id
    &&& usage.provider_id == agent.provider_id
    &&& usage.display_name == agent.display_name
    &&& usage.active_instances == agent.active_instances
    &&& usage.account_id is Default <==> agent.account_id is Default
    &&& agent.account_id matches AccountIdentityWireView::Named(name) ==> usage.account_id
        == AccountIdentityView::Named(name)
    &&& usage.summary.remaining_pct == agent.summary.remaining_pct
    &&& usage.status is Fresh <==> agent.status is Fresh
    &&& usage.status is Stale <==> agent.status is Stale
    &&& usage.status is Unavailable <==> agent.status is Unavailable
    &&& usage.cache_age_secs == agent.cache_age_secs
    &&& usage.fetched_at is Some <==> agent.fetched_at is Some
    &&& usage.fetched_at matches Some(t) ==> t == agent.fetched_at->0
    &&& usage.meters.len() == agent.meters.len()
    &&& forall|i: int|
        0 <= i < agent.meters.len() ==> tells_meter(#[trigger] usage.meters[i], agent.meters[i])
}

/// Whether what is known of a meter is what was reported of it.
pub open spec fn tells_meter(usage: UsageMeterView, meter: UsageMeterWireView) -> bool {
    &&& usage.id == meter.id
    &&& usage.label == meter.label
    &&& usage.used_pct == meter.used_pct
    &&& usage.remaining_pct == meter.remaining_pct
    &&& usage.reset_at is Some <==> meter.reset_at is Some
    &&& usage.reset_at matches Some(t) ==> t == meter.reset_at->0
    &&& usage.value is Some <==> meter.value is Some
    &&& meter.value matches Some(UsageValueWireView::Percentage { used_pct, remaining_pct })
        ==> usage.value == Some(UsageValueView::Percentage { remaining_pct, used_pct })
    &&& meter.value matches Some(UsageValueWireView::Amount { value, unit }) ==> usage.value == Some(
        UsageValueView::Amount { value, unit },
    )
    &&& meter.value matches Some(UsageValueWireView::Count { value, unit }) ==> usage.value == Some(
        UsageValueView::Count { value, unit },
    )
    &&& meter.value matches Some(UsageValueWireView::Text { value, unit }) ==> usage.value == Some(
        UsageValueView::Text { value, unit },
    )
}

/// Whether some moment that is reported of an agent lies before 1970.
pub open spec fn has_negative_time(agent: ActiveAgentUsageWireView) -> bool {
    ||| (agent.fetched_at matches Some(t) && t < 0)
    ||| exists|i: int|
        0 <= i < agent.meters.len() && ((#[trigger] agent.meters[i]).reset_at matches Some(t) && t
            < 0)
}

/// A report of the current owner counts where its revision is higher than that of the last one and none
/// of its moments lies before 1970. What is known afterwards is what it tells of each agent.
pub proof fn lemma_newer_report_counts(
    subscription: AiUsageSubscriptionView,
    owner: Seq<char>,
    report: AiUsageSnapshotWireView,
)
    requires
        subscription.current_unique_owner == Some(owner),
    ensures
        ({
            let snapshot = Ok::<AiUsageSnapshotWireView, Seq<char>>(report);
            let after = subscription.informed(owner, snapshot);
            let outcome = subscription.disposition(owner, snapshot);
            let newer = subscription.last_revision is None || subscription.last_revision->0
                < report.state_revision;
            let sound = forall|i: int|
                0 <= i < report.agents.len() ==> !has_negative_time(#[trigger] report.agents[i]);
            &&& newer && sound ==> {
                &&& outcome == Ok::<SnapshotDispositionView, SnapshotErrorView>(
                    SnapshotDispositionView::Accepted(after.current_usage),
                )
                &&& after.last_revision == Some(report.state_revision)
                &&& after.current_unique_owner == Some(owner)
                &&& after.current_usage.len() == report.agents.len()
                &&& forall|i: int|
                    0 <= i < report.agents.len() ==> tells(
                        #[trigger] after.current_usage[i],
                        report.agents[i],
                    )
            }
            &&& !newer ==> outcome == Ok::<SnapshotDispositionView, SnapshotErrorView>(
                SnapshotDispositionView::Rejected,
            ) && after == subscription
            &&& newer && !sound ==> outcome is Err && after == subscription
        }),
{
    assert forall|i: int| 0 <= i < report.agents.len() implies agent_valid(
        #[trigger] report.agents[i],
    ) == !has_negative_time(report.agents[i]) by {
        let agent = report.agents[i];
        if !meters_valid(agent.meters) {
            let k = choose|k: int|
                0 <= k < agent.meters.len() && !moment_valid((#[trigger] agent.meters[k]).reset_at);
            assert(agent.meters[k].reset_at->0 < 0);
        }
        if has_negative_time(agent) && !(agent.fetched_at matches Some(t) && t < 0) {
            let k = choose|k: int|
                0 <= k < agent.meters.len() && ((#[trigger] agent.meters[k]).reset_at matches Some(t)
                    && t < 0);
            assert(!moment_valid(agent.meters[k].reset_at));
        }
    }
    if agents_valid(report.agents) {
        assert forall|i: int| 0 <= i < report.agents.len() implies tells(
            usage_of(#[trigger] report.agents[i]),
            report.agents[i],
        ) by {
            assert(agent_valid(report.agents[i]));
        }
    } else {
        let i = choose|i: int|
            0 <= i < report.agents.len() && !agent_valid(#[trigger] report.agents[i]);
        assert(has_negative_time(report.agents[i]));
    }
}

/// Nothing is known of a new owner of the service until it reports, and nothing once the owner is gone.
pub proof fn lemma_owner_starts_afresh(
    subscription: AiUsageSubscriptionView,
    owner: Seq<char>,
    report: AiUsageSnapshotWireView,
)
    requires
        subscription.current_unique_owner != Some(owner),
    ensures
        ({
            let owned = subscription.owned_by(owner);
            let gone = owned.without(owner);
            &&& owned.current_unique_owner == Some(owner)
            &&& owned.current_usage.len() == 0
            &&& owned.is_news(report.state_revision)
            &&& gone.current_unique_owner is None
            &&& gone.current_usage.len() == 0
            &&& subscription.without(owner) == subscription
        }),
{
}

} // verus!
