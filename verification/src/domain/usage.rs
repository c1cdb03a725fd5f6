//! Usage of AI agents, and how it is summed up on the bar.
use vstd::prelude::*;

use crate::lists;
use crate::seqs;
use crate::text;
use crate::value::Value;

verus! {

/// Names a plugin on the bar.
#[derive(Clone, Debug, Eq, Hash, Ord, PartialEq, PartialOrd)]
pub struct PluginId(pub String);

impl DeepView for PluginId {
    type V = Seq<char>;

    open spec fn deep_view(&self) -> Seq<char> {
        self.0.deep_view()
    }
}

impl Value for PluginId {
    fn same(&self, other: &Self) -> (r: bool) {
        self.0.same(&other.0)
    }

    fn dup(&self) -> (r: Self) {
        PluginId(self.0.dup())
    }
}

/// Whether what a plugin shows can be relied on.
#[derive(Clone, Copy, Debug, Eq, PartialEq, Structural)]
pub enum PluginStatus {
    Ready,
    Stale,
    Unavailable,
    Unknown,
}

impl DeepView for PluginStatus {
    type V = PluginStatus;

    open spec fn deep_view(&self) -> PluginStatus {
        *self
    }
}

impl Value for PluginStatus {
    fn same(&self, other: &Self) -> (r: bool) {
        *self == *other
    }

    fn dup(&self) -> (r: Self) {
        *self
    }
}

/// What a plugin shows on the bar.
#[derive(Clone, Debug, Eq, PartialEq)]
pub struct PluginSummary {
    pub id: PluginId,
    pub display_name: String,
    pub text: String,
    pub status: PluginStatus,
}

/// The model of a [`PluginSummary`].
#[verifier::ext_equal]
pub struct PluginSummaryView {
    pub id: Seq<char>,
    pub display_name: Seq<char>,
    pub text: Seq<char>,
    pub status: PluginStatus,
}

impl DeepView for PluginSummary {
    type V = PluginSummaryView;

    open spec fn deep_view(&self) -> PluginSummaryView {
        PluginSummaryView {
            id: self.id.deep_view(),
            display_name: self.display_name.deep_view(),
            text: self.text.deep_view(),
            status: self.status,
        }
    }
}

impl Value for PluginSummary {
    fn same(&self, other: &Self) -> (r: bool) {
        self.id.same(&other.id) && self.display_name.same(&other.display_name) && self.text.same(&other.text) && self.status == other.status
    }

    fn dup(&self) -> (r: Self) {
        PluginSummary {
            id: self.id.dup(),
            display_name: self.display_name.dup(),
            text: self.text.dup(),
            status: self.status,
        }
    }
}

/// The plugins on the bar, in order.
#[derive(Clone, Debug, Eq, PartialEq)]
pub struct PluginZoneState {
    pub plugins: Vec<PluginSummary>,
}

/// The model of a [`PluginZoneState`].
#[verifier::ext_equal]
pub struct PluginZoneStateView {
    pub plugins: Seq<PluginSummaryView>,
}

impl DeepView for PluginZoneState {
    type V = PluginZoneStateView;

    open spec fn deep_view(&self) -> PluginZoneStateView {
        PluginZoneStateView {
            plugins: self.plugins.deep_view(),
        }
    }
}

impl Value for PluginZoneState {
    fn same(&self, other: &Self) -> (r: bool) {
        self.plugins.same(&other.plugins)
    }

    fn dup(&self) -> (r: Self) {
        PluginZoneState {
            plugins: self.plugins.dup(),
        }
    }
}

impl PluginZoneStateView {
    /// The model of a default [`PluginZoneState`].
    pub open spec fn initial() -> PluginZoneStateView {
        PluginZoneStateView {
            plugins: Seq::empty(),
        }
    }
}

impl Default for PluginZoneState {
    fn default() -> (r: Self)
        ensures
            r.deep_view() == PluginZoneStateView::initial(),
    {
        let r = PluginZoneState {
            plugins: Vec::new(),
        };
        assert(r.deep_view() =~= PluginZoneStateView::initial());
        r
    }
}

/// The account that an agent runs under.
#[derive(Clone, Debug, Eq, Hash, Ord, PartialEq, PartialOrd)]
pub enum AccountIdentity {
    Default,
    Named(String),
    Unknown,
}

/// The model of a [`AccountIdentity`].
#[verifier::ext_equal]
pub enum AccountIdentityView {
    Default,
    Named(Seq<char>),
    Unknown,
}

impl DeepView for AccountIdentity {
    type V = AccountIdentityView;

    open spec fn deep_view(&self) -> AccountIdentityView {
        match self {
            AccountIdentity::Default => AccountIdentityView::Default,
            AccountIdentity::Named(a) => AccountIdentityView::Named(a.deep_view()),
            AccountIdentity::Unknown => AccountIdentityView::Unknown,
        }
    }
}

impl Value for AccountIdentity {
    fn same(&self, other: &Self) -> (r: bool) {
        match (self, other) {
            (AccountIdentity::Default, AccountIdentity::Default) => true,
            (AccountIdentity::Named(a), AccountIdentity::Named(u)) => a.same(u),
            (AccountIdentity::Unknown, AccountIdentity::Unknown) => true,
            _ => false,
        }
    }

    fn dup(&self) -> (r: Self) {
        match self {
            AccountIdentity::Default => AccountIdentity::Default,
            AccountIdentity::Named(a) => AccountIdentity::Named(a.dup()),
            AccountIdentity::Unknown => AccountIdentity::Unknown,
        }
    }
}

/// Whether a usage report is up to date.
#[derive(Clone, Copy, Debug, Eq, PartialEq, Structural)]
pub enum UsageStatus {
    Fresh,
    Stale,
    Unavailable,
    Unknown,
}

impl DeepView for UsageStatus {
    type V = UsageStatus;

    open spec fn deep_view(&self) -> UsageStatus {
        *self
    }
}

impl Value for UsageStatus {
    fn same(&self, other: &Self) -> (r: bool) {
        *self == *other
    }

    fn dup(&self) -> (r: Self) {
        *self
    }
}

/// What a meter reads.
#[derive(Clone, Debug, PartialEq)]
pub enum UsageValue {
    Percentage { remaining_pct: Option<u16>, used_pct: Option<u16> },
    Amount { value: String, unit: Option<String> },
    Count { value: u64, unit: Option<String> },
    Text { value: String, unit: Option<String> },
}

/// The model of a [`UsageValue`].
#[verifier::ext_equal]
pub enum UsageValueView {
    Percentage { remaining_pct: Option<u16>, used_pct: Option<u16> },
    Amount { value: Seq<char>, unit: Option<Seq<char>> },
    Count { value: u64, unit: Option<Seq<char>> },
    Text { value: Seq<char>, unit: Option<Seq<char>> },
}

impl DeepView for UsageValue {
    type V = UsageValueView;

    open spec fn deep_view(&self) -> UsageValueView {
        match self {
            UsageValue::Percentage { remaining_pct, used_pct } => UsageValueView::Percentage { remaining_pct: remaining_pct.deep_view(), used_pct: used_pct.deep_view() },
            UsageValue::Amount { value, unit } => UsageValueView::Amount { value: value.deep_view(), unit: unit.deep_view() },
            UsageValue::Count { value, unit } => UsageValueView::Count { value: *value, unit: unit.deep_view() },
            UsageValue::Text { value, unit } => UsageValueView::Text { value: value.deep_view(), unit: unit.deep_view() },
        }
    }
}

impl Value for UsageValue {
    fn same(&self, other: &Self) -> (r: bool) {
        match (self, other) {
            (UsageValue::Percentage { remaining_pct: a_remaining_pct, used_pct: a_used_pct }, UsageValue::Percentage { remaining_pct: b_remaining_pct, used_pct: b_used_pct }) => a_remaining_pct.same(b_remaining_pct) && a_used_pct.same(b_used_pct),
            (UsageValue::Amount { value: a_value, unit: a_unit }, UsageValue::Amount { value: b_value, unit: b_unit }) => a_value.same(b_value) && a_unit.same(b_unit),
            (UsageValue::Count { value: a_value, unit: a_unit }, UsageValue::Count { value: b_value, unit: b_unit }) => *a_value == *b_value && a_unit.same(b_unit),
            (UsageValue::Text { value: a_value, unit: a_unit }, UsageValue::Text { value: b_value, unit: b_unit }) => a_value.same(b_value) && a_unit.same(b_unit),
            _ => false,
        }
    }

    fn dup(&self) -> (r: Self) {
        match self {
            UsageValue::Percentage { remaining_pct, used_pct } => UsageValue::Percentage { remaining_pct: remaining_pct.dup(), used_pct: used_pct.dup() },
            UsageValue::Amount { value, unit } => UsageValue::Amount { value: value.dup(), unit: unit.dup() },
            UsageValue::Count { value, unit } => UsageValue::Count { value: *value, unit: unit.dup() },
            UsageValue::Text { value, unit } => UsageValue::Text { value: value.dup(), unit: unit.dup() },
        }
    }
}

/// One measure of what an agent has used.
#[derive(Clone, Debug, PartialEq)]
pub struct UsageMeter {
    pub id: String,
    pub label: String,
    pub remaining_pct: Option<u16>,
    pub used_pct: Option<u16>,
    pub value: Option<UsageValue>,
    pub reset_at: Option<u64>,
}

/// The model of a [`UsageMeter`].
#[verifier::ext_equal]
pub struct UsageMeterView {
    pub id: Seq<char>,
    pub label: Seq<char>,
    pub remaining_pct: Option<u16>,
    pub used_pct: Option<u16>,
    pub value: Option<UsageValueView>,
    pub reset_at: Option<u64>,
}

impl DeepView for UsageMeter {
    type V = UsageMeterView;

    open spec fn deep_view(&self) -> UsageMeterView {
        UsageMeterView {
            id: self.id.deep_view(),
            label: self.label.deep_view(),
            remaining_pct: self.remaining_pct.deep_view(),
            used_pct: self.used_pct.deep_view(),
            value: self.value.deep_view(),
            reset_at: self.reset_at.deep_view(),
        }
    }
}

impl Value for UsageMeter {
    fn same(&self, other: &Self) -> (r: bool) {
        self.id.same(&other.id) && self.label.same(&other.label) && self.remaining_pct.same(&other.remaining_pct) && self.used_pct.same(&other.used_pct) && self.value.same(&other.value) && self.reset_at.same(&other.reset_at)
    }

    fn dup(&self) -> (r: Self) {
        UsageMeter {
            id: self.id.dup(),
            label: self.label.dup(),
            remaining_pct: self.remaining_pct.dup(),
            used_pct: self.used_pct.dup(),
            value: self.value.dup(),
            reset_at: self.reset_at.dup(),
        }
    }
}

/// The measure of an agent that the bar shows.
#[derive(Clone, Debug, PartialEq)]
pub struct UsageSummary {
    pub label: String,
    pub remaining_pct: Option<u16>,
}

/// The model of a [`UsageSummary`].
#[verifier::ext_equal]
pub struct UsageSummaryView {
    pub label: Seq<char>,
    pub remaining_pct: Option<u16>,
}

impl DeepView for UsageSummary {
    type V = UsageSummaryView;

    open spec fn deep_view(&self) -> UsageSummaryView {
        UsageSummaryView {
            label: self.label.deep_view(),
            remaining_pct: self.remaining_pct.deep_view(),
        }
    }
}

impl Value for UsageSummary {
    fn same(&self, other: &Self) -> (r: bool) {
        self.label.same(&other.label) && self.remaining_pct.same(&other.remaining_pct)
    }

    fn dup(&self) -> (r: Self) {
        UsageSummary {
            label: self.label.dup(),
            remaining_pct: self.remaining_pct.dup(),
        }
    }
}

impl UsageSummaryView {
    /// The model of a default [`UsageSummary`].
    pub open spec fn initial() -> UsageSummaryView {
        UsageSummaryView {
            label: Seq::empty(),
            remaining_pct: None,
        }
    }
}

impl Default for UsageSummary {
    fn default() -> (r: Self)
        ensures
            r.deep_view() == UsageSummaryView::initial(),
    {
        let r = UsageSummary {
            label: String::new(),
            remaining_pct: None,
        };
        assert(r.deep_view() =~= UsageSummaryView::initial());
        r
    }
}

/// What one agent has used.
#[derive(Clone, Debug, PartialEq)]
pub struct ActiveAgentUsage {
    pub agent_id: String,
    pub provider_id: String,
    pub account_id: AccountIdentity,
    pub display_name: String,
    pub active_instances: u32,
    pub meters: Vec<UsageMeter>,
    pub summary: UsageSummary,
    pub status: UsageStatus,
    pub fetched_at: Option<u64>,
    pub cache_age_secs: Option<u64>,
}

/// The model of a [`ActiveAgentUsage`].
#[verifier::ext_equal]
pub struct ActiveAgentUsageView {
    pub agent_id: Seq<char>,
    pub provider_id: Seq<char>,
    pub account_id: AccountIdentityView,
    pub display_name: Seq<char>,
    pub active_instances: u32,
    pub meters: Seq<UsageMeterView>,
    pub summary: UsageSummaryView,
    pub status: UsageStatus,
    pub fetched_at: Option<u64>,
    pub cache_age_secs: Option<u64>,
}

impl DeepView for ActiveAgentUsage {
    type V = ActiveAgentUsageView;

    open spec fn deep_view(&self) -> ActiveAgentUsageView {
        ActiveAgentUsageView {
            agent_id: self.agent_id.deep_view(),
            provider_id: self.provider_id.deep_view(),
            account_id: self.account_id.deep_view(),
            display_name: self.display_name.deep_view(),
            active_instances: self.active_instances,
            meters: self.meters.deep_view(),
            summary: self.summary.deep_view(),
            status: self.status,
            fetched_at: self.fetched_at.deep_view(),
            cache_age_secs: self.cache_age_secs.deep_view(),
        }
    }
}

impl Value for ActiveAgentUsage {
    fn same(&self, other: &Self) -> (r: bool) {
        self.agent_id.same(&other.agent_id) && self.provider_id.same(&other.provider_id) && self.account_id.same(&other.account_id) && self.display_name.same(&other.display_name) && self.active_instances == other.active_instances && self.meters.same(&other.meters) && self.summary.same(&other.summary) && self.status == other.status && self.fetched_at.same(&other.fetched_at) && self.cache_age_secs.same(&other.cache_age_secs)
    }

    fn dup(&self) -> (r: Self) {
        ActiveAgentUsage {
            agent_id: self.agent_id.dup(),
            provider_id: self.provider_id.dup(),
            account_id: self.account_id.dup(),
            display_name: self.display_name.dup(),
            active_instances: self.active_instances,
            meters: self.meters.dup(),
            summary: self.summary.dup(),
            status: self.status,
            fetched_at: self.fetched_at.dup(),
            cache_age_secs: self.cache_age_secs.dup(),
        }
    }
}

/// The account as it stands in the id of a plugin.
pub open spec fn account_text(account: AccountIdentityView) -> Seq<char> {
    match account {
        AccountIdentityView::Default => "default"@,
        AccountIdentityView::Named(name) => "named:"@ + name,
        AccountIdentityView::Unknown => "unknown"@,
    }
}

fn format_account(account: &AccountIdentity) -> (r: String)
    ensures
        r@ == account_text(account.deep_view()),
{
    match account {
        AccountIdentity::Default => "default".to_owned(),
        AccountIdentity::Named(name) => text::concat("named:", name.as_str()),
        AccountIdentity::Unknown => "unknown".to_owned(),
    }
}

/// The id of the plugin that shows an agent.
pub open spec fn plugin_id(agent: ActiveAgentUsageView) -> Seq<char> {
    "ai-usage:"@ + agent.provider_id + ":"@ + agent.agent_id + ":"@ + account_text(agent.account_id)
}

/// What an agent has left, as far as it is known.
pub open spec fn remaining_text(agent: ActiveAgentUsageView) -> Seq<char> {
    match (agent.status, agent.summary.remaining_pct) {
        (UsageStatus::Fresh, Some(percent)) => text::decimal(percent as nat) + "%"@,
        (UsageStatus::Stale, Some(percent)) => text::decimal(percent as nat) + "%"@,
        _ => "?"@,
    }
}

fn format_remaining(agent: &ActiveAgentUsage) -> (r: String)
    ensures
        r@ == remaining_text(agent.deep_view()),
{
    let known = match agent.status {
        UsageStatus::Fresh | UsageStatus::Stale => true,
        UsageStatus::Unavailable | UsageStatus::Unknown => false,
    };
    match agent.summary.remaining_pct {
        Some(percent) => if known {
            text::concat(text::format_decimal(percent as u64).as_str(), "%")
        } else {
            "?".to_owned()
        },
        None => "?".to_owned(),
    }
}

/// How much a plugin can be relied on, by how up to date its usage report is.
pub open spec fn plugin_status(status: UsageStatus) -> PluginStatus {
    match status {
        UsageStatus::Fresh => PluginStatus::Ready,
        UsageStatus::Stale => PluginStatus::Stale,
        UsageStatus::Unavailable => PluginStatus::Unavailable,
        UsageStatus::Unknown => PluginStatus::Unknown,
    }
}

/// What the bar shows of an agent: a robot glyph, its name, and what it has left.
pub open spec fn summary_of(agent: ActiveAgentUsageView) -> PluginSummaryView {
    PluginSummaryView {
        id: plugin_id(agent),
        display_name: agent.display_name,
        text: "\u{f06a9} "@ + agent.display_name + " "@ + remaining_text(agent),
        status: plugin_status(agent.status),
    }
}

impl ActiveAgentUsage {
    /// What the bar shows of an agent.
    pub fn plugin_summary(&self) -> (r: PluginSummary)
        ensures
            r.deep_view() == summary_of(self.deep_view()),
    {
        let id = text::concat("ai-usage:", self.provider_id.as_str());
        let id = text::concat(id.as_str(), ":");
        let id = text::concat(id.as_str(), self.agent_id.as_str());
        let id = text::concat(id.as_str(), ":");
        let id = text::concat(id.as_str(), format_account(&self.account_id).as_str());
        let shown = text::concat("\u{f06a9} ", self.display_name.as_str());
        let shown = text::concat(shown.as_str(), " ");
        let shown = text::concat(shown.as_str(), format_remaining(self).as_str());
        PluginSummary {
            id: PluginId(id),
            display_name: self.display_name.dup(),
            text: shown,
            status: match self.status {
                UsageStatus::Fresh => PluginStatus::Ready,
                UsageStatus::Stale => PluginStatus::Stale,
                UsageStatus::Unavailable => PluginStatus::Unavailable,
                UsageStatus::Unknown => PluginStatus::Unknown,
            },
        }
    }
}

/// The order of accounts: the default one, then those with a name by name, then the unknown one.
pub open spec fn account_le(a: AccountIdentityView, b: AccountIdentityView) -> bool {
    match (a, b) {
        (AccountIdentityView::Default, _) => true,
        (_, AccountIdentityView::Default) => false,
        (AccountIdentityView::Named(x), AccountIdentityView::Named(y)) => text::text_le(x, y),
        (AccountIdentityView::Named(_), AccountIdentityView::Unknown) => true,
        (AccountIdentityView::Unknown, AccountIdentityView::Named(_)) => false,
        (AccountIdentityView::Unknown, AccountIdentityView::Unknown) => true,
    }
}

fn account_not_after(a: &AccountIdentity, b: &AccountIdentity) -> (r: bool)
    ensures
        r == account_le(a.deep_view(), b.deep_view()),
{
    match (a, b) {
        (AccountIdentity::Default, _) => true,
        (_, AccountIdentity::Default) => false,
        (AccountIdentity::Named(x), AccountIdentity::Named(y)) => text::not_after(
            x.as_str(),
            y.as_str(),
        ),
        (AccountIdentity::Named(_), AccountIdentity::Unknown) => true,
        (AccountIdentity::Unknown, AccountIdentity::Named(_)) => false,
        (AccountIdentity::Unknown, AccountIdentity::Unknown) => true,
    }
}

/// The order of agents: by provider, then by agent, then by account.
pub open spec fn agent_le(a: ActiveAgentUsageView, b: ActiveAgentUsageView) -> bool {
    if a.provider_id != b.provider_id {
        text::text_le(a.provider_id, b.provider_id)
    } else if a.agent_id != b.agent_id {
        text::text_le(a.agent_id, b.agent_id)
    } else {
        account_le(a.account_id, b.account_id)
    }
}

fn agent_not_after(a: &ActiveAgentUsage, b: &ActiveAgentUsage) -> (r: bool)
    ensures
        r == agent_le(a.deep_view(), b.deep_view()),
{
    if !a.provider_id.same(&b.provider_id) {
        text::not_after(a.provider_id.as_str(), b.provider_id.as_str())
    } else if !a.agent_id.same(&b.agent_id) {
        text::not_after(a.agent_id.as_str(), b.agent_id.as_str())
    } else {
        account_not_after(&a.account_id, &b.account_id)
    }
}

/// The order of meters: by id.
pub open spec fn meter_le(a: UsageMeterView, b: UsageMeterView) -> bool {
    text::text_le(a.id, b.id)
}

/// An agent with its meters in order.
pub open spec fn with_sorted_meters(agent: ActiveAgentUsageView) -> ActiveAgentUsageView {
    ActiveAgentUsageView {
        meters: seqs::stable_sorted(
            agent.meters,
            |a: UsageMeterView, b: UsageMeterView| meter_le(a, b),
        ),
        ..agent
    }
}

fn sort_meters(agent: ActiveAgentUsage) -> (r: ActiveAgentUsage)
    ensures
        r.deep_view() == with_sorted_meters(agent.deep_view()),
{
    let not_after = |a: &UsageMeter, b: &UsageMeter| -> (c: bool)
        ensures
            c == meter_le(a.deep_view(), b.deep_view()),
    {
        text::not_after(a.id.as_str(), b.id.as_str())
    };
    let mut sorted = agent;
    let mut meters: Vec<UsageMeter> = Vec::new();
    std::mem::swap(&mut sorted.meters, &mut meters);
    sorted.meters = lists::sort(
        meters,
        not_after,
        Ghost(|a: UsageMeterView, b: UsageMeterView| meter_le(a, b)),
    );
    sorted
}

/// Agents in order, and the meters of each in order.
pub open spec fn canonical_order(usage: Seq<ActiveAgentUsageView>) -> Seq<ActiveAgentUsageView> {
    seqs::stable_sorted(
        usage.map_values(|a: ActiveAgentUsageView| with_sorted_meters(a)),
        |a: ActiveAgentUsageView, b: ActiveAgentUsageView| agent_le(a, b),
    )
}

/// Puts agents in order, and the meters of each.
pub(crate) fn canonicalize_ai_usage_order(usage: Vec<ActiveAgentUsage>) -> (r: Vec<
    ActiveAgentUsage,
>)
    ensures
        r.deep_view() == canonical_order(usage.deep_view()),
{
    let ghost all = usage.deep_view();
    let mut rest = usage;
    let mut agents: Vec<ActiveAgentUsage> = Vec::new();
    let ghost mut seen: int = 0;
    while rest.len() > 0
        invariant
            0 <= seen <= all.len(),
            rest.deep_view() == all.skip(seen),
            agents.deep_view() =~= all.take(seen).map_values(
                |a: ActiveAgentUsageView| with_sorted_meters(a),
            ),
        decreases rest.len(),
    {
        let ghost before = rest.deep_view();
        let agent = rest.remove(0);
        assert(before[0] == agent.deep_view());
        assert(rest.deep_view() =~= before.remove(0));
        assert(before.remove(0) =~= all.skip(seen + 1));
        lists::push(&mut agents, sort_meters(agent));
        proof {
            seen = seen + 1;
        }
    }
    assert(agents.deep_view() =~= all.map_values(
        |a: ActiveAgentUsageView| with_sorted_meters(a),
    ));
    let not_after = |a: &ActiveAgentUsage, b: &ActiveAgentUsage| -> (c: bool)
        ensures
            c == agent_le(a.deep_view(), b.deep_view()),
    {
        agent_not_after(a, b)
    };
    lists::sort(
        agents,
        not_after,
        Ghost(|a: ActiveAgentUsageView, b: ActiveAgentUsageView| agent_le(a, b)),
    )
}

/// The plugins that show agents.
pub open spec fn plugins_of(usage: Seq<ActiveAgentUsageView>) -> Seq<PluginSummaryView> {
    usage.map_values(|a: ActiveAgentUsageView| summary_of(a))
}

pub(crate) fn summarize(usage: &Vec<ActiveAgentUsage>) -> (r: Vec<PluginSummary>)
    ensures
        r.deep_view() == plugins_of(usage.deep_view()),
{
    let mut plugins: Vec<PluginSummary> = Vec::new();
    let mut i: usize = 0;
    while i < usage.len()
        invariant
            i <= usage.len(),
            plugins.deep_view() =~= plugins_of(usage.deep_view().take(i as int)),
        decreases usage.len() - i,
    {
        lists::push(&mut plugins, usage[i].plugin_summary());
        i += 1;
    }
    assert(usage.deep_view().take(i as int) =~= usage.deep_view());
    plugins
}

/// What of a plugin can be seen: which one it is and its text.
pub open spec fn visual_key(plugin: PluginSummaryView) -> (Seq<char>, Seq<char>) {
    (plugin.id, plugin.text)
}

/// What of the plugins can be seen.
pub open spec fn visual_keys(plugins: Seq<PluginSummaryView>) -> Seq<(Seq<char>, Seq<char>)> {
    plugins.map_values(|p: PluginSummaryView| visual_key(p))
}

pub(crate) fn looks_same(a: &Vec<PluginSummary>, b: &Vec<PluginSummary>) -> (r: bool)
    ensures
        r == (visual_keys(a.deep_view()) == visual_keys(b.deep_view())),
{
    let ghost x = visual_keys(a.deep_view());
    let ghost y = visual_keys(b.deep_view());
    if a.len() != b.len() {
        assert(x.len() != y.len());
        return false;
    }
    let mut i: usize = 0;
    while i < a.len()
        invariant
            i <= a.len(),
            a.len() == b.len(),
            x == visual_keys(a.deep_view()),
            y == visual_keys(b.deep_view()),
            forall|j: int| 0 <= j < i ==> x[j] == y[j],
        decreases a.len() - i,
    {
        if !(a[i].id.same(&b[i].id) && a[i].text.same(&b[i].text)) {
            assert(x[i as int] != y[i as int]);
            return false;
        }
        i += 1;
    }
    assert(x =~= y);
    true
}

/// Two agents are told apart by provider, agent and account.
pub open spec fn same_agent(a: ActiveAgentUsageView, b: ActiveAgentUsageView) -> bool {
    a.provider_id == b.provider_id && a.agent_id == b.agent_id && a.account_id == b.account_id
}

proof fn lemma_account_order(
    a: AccountIdentityView,
    b: AccountIdentityView,
    c: AccountIdentityView,
)
    ensures
        account_le(a, b) || account_le(b, a),
        account_le(a, b) && account_le(b, c) ==> account_le(a, c),
        account_le(a, b) && account_le(b, a) ==> a == b,
{
    if let (AccountIdentityView::Named(x), AccountIdentityView::Named(y)) = (a, b) {
        text::lemma_text_le_total(x, y);
        if text::text_le(x, y) && text::text_le(y, x) {
            text::lemma_text_le_antisymmetric(x, y);
        }
        if let AccountIdentityView::Named(z) = c {
            if text::text_le(x, y) && text::text_le(y, z) {
                text::lemma_text_le_transitive(x, y, z);
            }
        }
    }
}

proof fn lemma_text_order(a: Seq<char>, b: Seq<char>, c: Seq<char>)
    ensures
        text::text_le(a, b) || text::text_le(b, a),
        text::text_le(a, b) && text::text_le(b, c) ==> text::text_le(a, c),
        text::text_le(a, b) && text::text_le(b, a) ==> a == b,
{
    text::lemma_text_le_total(a, b);
    if text::text_le(a, b) && text::text_le(b, c) {
        text::lemma_text_le_transitive(a, b, c);
    }
    if text::text_le(a, b) && text::text_le(b, a) {
        text::lemma_text_le_antisymmetric(a, b);
    }
}

proof fn lemma_agent_order(
    a: ActiveAgentUsageView,
    b: ActiveAgentUsageView,
    c: ActiveAgentUsageView,
)
    ensures
        agent_le(a, b) || agent_le(b, a),
        agent_le(a, b) && agent_le(b, c) ==> agent_le(a, c),
        agent_le(a, b) && agent_le(b, a) ==> same_agent(a, b),
{
    lemma_text_order(a.provider_id, b.provider_id, c.provider_id);
    lemma_text_order(b.provider_id, c.provider_id, a.provider_id);
    lemma_text_order(a.agent_id, b.agent_id, c.agent_id);
    lemma_text_order(b.agent_id, c.agent_id, a.agent_id);
    lemma_account_order(a.account_id, b.account_id, c.account_id);
}

proof fn lemma_agents_can_be_sorted()
    ensures
        seqs::is_total_order(|a: ActiveAgentUsageView, b: ActiveAgentUsageView| agent_le(a, b)),
{
    let le = |a: ActiveAgentUsageView, b: ActiveAgentUsageView| agent_le(a, b);
    assert forall|a: ActiveAgentUsageView, b: ActiveAgentUsageView| #[trigger]
        le(a, b) || le(b, a) by {
        lemma_agent_order(a, b, b);
    }
    assert forall|a: ActiveAgentUsageView, b: ActiveAgentUsageView, c: ActiveAgentUsageView|
        #[trigger] le(a, b) && #[trigger] le(b, c) implies le(a, c) by {
        lemma_agent_order(a, b, c);
    }
}

proof fn lemma_meters_can_be_sorted()
    ensures
        seqs::is_total_order(|a: UsageMeterView, b: UsageMeterView| meter_le(a, b)),
{
    let le = |a: UsageMeterView, b: UsageMeterView| meter_le(a, b);
    assert forall|a: UsageMeterView, b: UsageMeterView| #[trigger] le(a, b) || le(b, a) by {
        lemma_text_order(a.id, b.id, b.id);
    }
    assert forall|a: UsageMeterView, b: UsageMeterView, c: UsageMeterView|
        #[trigger] le(a, b) && #[trigger] le(b, c) implies le(a, c) by {
        lemma_text_order(a.id, b.id, c.id);
    }
}

/// What is shown of agents is in order, and is what was reported of them.
pub proof fn lemma_canonical_order(usage: Seq<ActiveAgentUsageView>)
    ensures
        seqs::is_ordered(
            canonical_order(usage),
            |a: ActiveAgentUsageView, b: ActiveAgentUsageView| agent_le(a, b),
        ),
        canonical_order(usage).to_multiset() == usage.map_values(
            |a: ActiveAgentUsageView| with_sorted_meters(a),
        ).to_multiset(),
        canonical_order(usage).len() == usage.len(),
{
    let le = |a: ActiveAgentUsageView, b: ActiveAgentUsageView| agent_le(a, b);
    let agents = usage.map_values(|a: ActiveAgentUsageView| with_sorted_meters(a));
    lemma_agents_can_be_sorted();
    seqs::lemma_sorted_ordered(agents, le);
    seqs::lemma_sorted_multiset(agents, le);
}

/// Agents that are told apart come to the same order whatever order they are reported in.
pub proof fn lemma_agent_order_does_not_matter(
    usage: Seq<ActiveAgentUsageView>,
    other: Seq<ActiveAgentUsageView>,
)
    requires
        forall|i: int, j: int|
            0 <= i < j < usage.len() ==> !same_agent(#[trigger] usage[i], #[trigger] usage[j]),
        usage.map_values(|a: ActiveAgentUsageView| with_sorted_meters(a)).to_multiset()
            == other.map_values(|a: ActiveAgentUsageView| with_sorted_meters(a)).to_multiset(),
    ensures
        canonical_order(usage) == canonical_order(other),
{
    broadcast use vstd::seq_lib::group_to_multiset_ensures;

    let le = |a: ActiveAgentUsageView, b: ActiveAgentUsageView| agent_le(a, b);
    let agents = usage.map_values(|a: ActiveAgentUsageView| with_sorted_meters(a));
    let order = canonical_order(usage);
    lemma_canonical_order(usage);
    lemma_canonical_order(other);
    assert forall|x: ActiveAgentUsageView, y: ActiveAgentUsageView|
        order.contains(x) && order.contains(y) && #[trigger] le(x, y) && #[trigger] le(
            y,
            x,
        ) implies x == y by {
        lemma_agent_order(x, y, y);
        assert(order.to_multiset().contains(x));
        assert(order.to_multiset().contains(y));
        assert(agents.contains(x));
        assert(agents.contains(y));
        let i = choose|i: int| 0 <= i < agents.len() && agents[i] == x;
        let j = choose|j: int| 0 <= j < agents.len() && agents[j] == y;
        assert(same_agent(usage[i], usage[j]));
        assert(same_agent(usage[j], usage[i]));
    }
    seqs::lemma_ordered_unique(order, canonical_order(other), le);
}

/// The meters of an agent come to the same order whatever order they are reported in, as long as each
/// has an id of its own.
pub proof fn lemma_meter_order_does_not_matter(
    agent: ActiveAgentUsageView,
    meters: Seq<UsageMeterView>,
)
    requires
        forall|i: int, j: int|
            0 <= i < j < agent.meters.len() ==> (#[trigger] agent.meters[i]).id != (
            #[trigger] agent.meters[j]).id,
        meters.to_multiset() == agent.meters.to_multiset(),
    ensures
        with_sorted_meters(ActiveAgentUsageView { meters, ..agent }) == with_sorted_meters(agent),
{
    broadcast use vstd::seq_lib::group_to_multiset_ensures;

    let le = |a: UsageMeterView, b: UsageMeterView| meter_le(a, b);
    let order = seqs::stable_sorted(agent.meters, le);
    lemma_meters_can_be_sorted();
    seqs::lemma_sorted_ordered(agent.meters, le);
    seqs::lemma_sorted_multiset(agent.meters, le);
    seqs::lemma_sorted_ordered(meters, le);
    seqs::lemma_sorted_multiset(meters, le);
    assert forall|x: UsageMeterView, y: UsageMeterView|
        order.contains(x) && order.contains(y) && #[trigger] le(x, y) && #[trigger] le(
            y,
            x,
        ) implies x == y by {
        lemma_text_order(x.id, y.id, y.id);
        assert(order.to_multiset().contains(x));
        assert(order.to_multiset().contains(y));
        assert(agent.meters.contains(x));
        assert(agent.meters.contains(y));
        let i = choose|i: int| 0 <= i < agent.meters.len() && agent.meters[i] == x;
        let j = choose|j: int| 0 <= j < agent.meters.len() && agent.meters[j] == y;
        assert(agent.meters[i].id == agent.meters[j].id);
    }
    seqs::lemma_ordered_unique(order, seqs::stable_sorted(meters, le), le);
}

/// Whether an account does not come after another one: the default one is the first, and unknown ones are
/// the last.
pub open spec fn is_not_later(a: AccountIdentityView, b: AccountIdentityView) -> bool {
    &&& b is Default ==> a is Default
    &&& a is Unknown ==> b is Unknown
    &&& (a matches AccountIdentityView::Named(x) ==> (b matches AccountIdentityView::Named(y)
        ==> text::text_le(x, y)))
}

/// Agents are shown by the names of their providers, then by their own, then by their accounts.
pub proof fn lemma_agents_are_shown_by_name(usage: Seq<ActiveAgentUsageView>, i: int, j: int)
    requires
        0 <= i < j < usage.len(),
    ensures
        ({
            let shown = canonical_order(usage);
            &&& shown.len() == usage.len()
            &&& text::text_le(shown[i].provider_id, shown[j].provider_id)
            &&& shown[i].provider_id == shown[j].provider_id ==> text::text_le(
                shown[i].agent_id,
                shown[j].agent_id,
            )
            &&& shown[i].provider_id == shown[j].provider_id && shown[i].agent_id
                == shown[j].agent_id ==> is_not_later(shown[i].account_id, shown[j].account_id)
        }),
{
    let le = |a: ActiveAgentUsageView, b: ActiveAgentUsageView| agent_le(a, b);
    lemma_canonical_order(usage);
    let shown = canonical_order(usage);
    assert(le(shown[i], shown[j]));
    lemma_text_order(shown[i].provider_id, shown[i].provider_id, shown[i].provider_id);
    text::lemma_text_le_total(shown[i].provider_id, shown[i].provider_id);
    text::lemma_text_le_total(shown[i].agent_id, shown[i].agent_id);
}

/// What is shown of an agent is what was reported of it, with its meters by their names.
pub proof fn lemma_agents_are_kept(usage: Seq<ActiveAgentUsageView>, i: int)
    requires
        0 <= i < usage.len(),
    ensures
        ({
            let shown = canonical_order(usage);
            &&& shown.len() == usage.len()
            &&& exists|k: int|
                0 <= k < usage.len() && shown[i] == (ActiveAgentUsageView {
                    meters: shown[i].meters,
                    ..#[trigger] usage[k]
                }) && shown[i].meters.to_multiset() == usage[k].meters.to_multiset()
            &&& forall|a: int, b: int|
                0 <= a < b < shown[i].meters.len() ==> text::text_le(
                    (#[trigger] shown[i].meters[a]).id,
                    (#[trigger] shown[i].meters[b]).id,
                )
        }),
{
    let le = |a: ActiveAgentUsageView, b: ActiveAgentUsageView| agent_le(a, b);
    let meters_le = |a: UsageMeterView, b: UsageMeterView| meter_le(a, b);
    let agents = usage.map_values(|a: ActiveAgentUsageView| with_sorted_meters(a));
    let shown = canonical_order(usage);
    lemma_canonical_order(usage);
    assert(shown.contains(shown[i]));
    seqs::lemma_sorted_members(agents, le, shown[i]);
    let k = choose|k: int| 0 <= k < agents.len() && agents[k] == shown[i];
    lemma_meters_can_be_sorted();
    seqs::lemma_sorted_ordered(usage[k].meters, meters_le);
    seqs::lemma_sorted_multiset(usage[k].meters, meters_le);
    assert(shown[i] == with_sorted_meters(usage[k]));
    assert forall|a: int, b: int| 0 <= a < b < shown[i].meters.len() implies text::text_le(
        (#[trigger] shown[i].meters[a]).id,
        (#[trigger] shown[i].meters[b]).id,
    ) by {
        assert(meters_le(shown[i].meters[a], shown[i].meters[b]));
    }
}

/// What is left to an agent is shown as a percentage where it is known and is not out of date beyond use,
/// and as a question mark otherwise.
pub proof fn lemma_share_is_shown(agent: ActiveAgentUsageView)
    ensures
        ({
            let shown = summary_of(agent);
            let known = (agent.status is Fresh || agent.status is Stale)
                && agent.summary.remaining_pct is Some;
            &&& shown.display_name == agent.display_name
            &&& known ==> text::is_suffix(
                shown.text,
                text::decimal(agent.summary.remaining_pct->0 as nat) + "%"@,
            )
            &&& !known ==> text::is_suffix(shown.text, "?"@)
            &&& shown.status is Ready <==> agent.status is Fresh
            &&& shown.status is Stale <==> agent.status is Stale
            &&& shown.status is Unavailable <==> agent.status is Unavailable
        }),
{
    let front = "\u{f06a9} "@ + agent.display_name + " "@;
    text::lemma_parts_stand_at_ends(front, remaining_text(agent));
}

/// Accounts of one agent are shown under different ids.
pub proof fn lemma_accounts_are_told_apart(a: ActiveAgentUsageView, b: ActiveAgentUsageView)
    requires
        a.provider_id == b.provider_id,
        a.agent_id == b.agent_id,
        a.account_id != b.account_id,
    ensures
        summary_of(a).id != summary_of(b).id,
{
    let front = "ai-usage:"@ + a.provider_id + ":"@ + a.agent_id + ":"@;
    let (x, y) = (account_text(a.account_id), account_text(b.account_id));
    reveal_strlit("default");
    reveal_strlit("named:");
    reveal_strlit("unknown");
    assert((front + x).skip(front.len() as int) =~= x);
    assert((front + y).skip(front.len() as int) =~= y);
    assert(x != y) by {
        match (a.account_id, b.account_id) {
            (AccountIdentityView::Named(m), AccountIdentityView::Named(n)) => {
                assert(x.skip(6) =~= m);
                assert(y.skip(6) =~= n);
            },
            _ => {
                assert(x[0] != y[0]);
            },
        }
    }
}

} // verus!
