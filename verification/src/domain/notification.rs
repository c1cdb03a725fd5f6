//! Notifications, their history, and how the notification center groups them.
use vstd::prelude::*;

use crate::domain::state::WindowId;
use crate::lists;
use crate::seqs;
use crate::table::KeySet;
use crate::value::Value;

verus! {

/// The number by which a shown notification can be replaced or closed.
#[derive(Clone, Copy, Debug, Default, Eq, Hash, Ord, PartialEq, PartialOrd, Structural)]
pub struct NotificationId(pub u32);

impl DeepView for NotificationId {
    type V = NotificationId;

    open spec fn deep_view(&self) -> NotificationId {
        *self
    }
}

impl Value for NotificationId {
    fn same(&self, other: &Self) -> (r: bool) {
        *self == *other
    }

    fn dup(&self) -> (r: Self) {
        *self
    }
}

/// Names an entry of the notification history.
#[derive(Clone, Copy, Debug, Default, Eq, Hash, Ord, PartialEq, PartialOrd, Structural)]
pub struct HistoryEntryId(pub u64);

impl DeepView for HistoryEntryId {
    type V = HistoryEntryId;

    open spec fn deep_view(&self) -> HistoryEntryId {
        *self
    }
}

impl Value for HistoryEntryId {
    fn same(&self, other: &Self) -> (r: bool) {
        *self == *other
    }

    fn dup(&self) -> (r: Self) {
        *self
    }
}

/// Who raised a notification.
#[derive(Clone, Copy, Debug, Default, Eq, PartialEq, Structural)]
pub enum NotificationSource {
    #[default]
    Freedesktop,
    WindowAttention,
    Internal,
}

impl DeepView for NotificationSource {
    type V = NotificationSource;

    open spec fn deep_view(&self) -> NotificationSource {
        *self
    }
}

impl Value for NotificationSource {
    fn same(&self, other: &Self) -> (r: bool) {
        *self == *other
    }

    fn dup(&self) -> (r: Self) {
        *self
    }
}

/// A notification that is being shown.
#[derive(Clone, Debug, Eq, PartialEq)]
pub struct Notification {
    pub id: NotificationId,
    pub source: NotificationSource,
    pub window_id: Option<WindowId>,
    pub app_name: String,
    pub summary: String,
    pub body: String,
}

/// The model of a [`Notification`].
#[verifier::ext_equal]
pub struct NotificationView {
    pub id: NotificationId,
    pub source: NotificationSource,
    pub window_id: Option<WindowId>,
    pub app_name: Seq<char>,
    pub summary: Seq<char>,
    pub body: Seq<char>,
}

impl DeepView for Notification {
    type V = NotificationView;

    open spec fn deep_view(&self) -> NotificationView {
        NotificationView {
            id: self.id,
            source: self.source,
            window_id: self.window_id.deep_view(),
            app_name: self.app_name.deep_view(),
            summary: self.summary.deep_view(),
            body: self.body.deep_view(),
        }
    }
}

impl Value for Notification {
    fn same(&self, other: &Self) -> (r: bool) {
        self.id == other.id && self.source == other.source && self.window_id.same(&other.window_id) && self.app_name.same(&other.app_name) && self.summary.same(&other.summary) && self.body.same(&other.body)
    }

    fn dup(&self) -> (r: Self) {
        Notification {
            id: self.id,
            source: self.source,
            window_id: self.window_id.dup(),
            app_name: self.app_name.dup(),
            summary: self.summary.dup(),
            body: self.body.dup(),
        }
    }
}

impl NotificationView {
    /// The model of a default [`Notification`].
    pub open spec fn initial() -> NotificationView {
        NotificationView {
            id: NotificationId(0),
            source: NotificationSource::Freedesktop,
            window_id: None,
            app_name: Seq::empty(),
            summary: Seq::empty(),
            body: Seq::empty(),
        }
    }
}

impl Default for Notification {
    fn default() -> (r: Self)
        ensures
            r.deep_view() == NotificationView::initial(),
    {
        let r = Notification {
            id: NotificationId(0),
            source: NotificationSource::Freedesktop,
            window_id: None,
            app_name: String::new(),
            summary: String::new(),
            body: String::new(),
        };
        assert(r.deep_view() =~= NotificationView::initial());
        r
    }
}

/// An action that a notification offers.
#[derive(Clone, Debug, Eq, PartialEq)]
pub struct NotificationActionView {
    pub key: String,
    pub label: String,
}

/// The model of an action that a notification offers.
#[verifier::ext_equal]
pub struct NotificationActionModel {
    pub key: Seq<char>,
    pub label: Seq<char>,
}

impl DeepView for NotificationActionView {
    type V = NotificationActionModel;

    open spec fn deep_view(&self) -> NotificationActionModel {
        NotificationActionModel {
            key: self.key.deep_view(),
            label: self.label.deep_view(),
        }
    }
}

impl Value for NotificationActionView {
    fn same(&self, other: &Self) -> (r: bool) {
        self.key.same(&other.key) && self.label.same(&other.label)
    }

    fn dup(&self) -> (r: Self) {
        NotificationActionView {
            key: self.key.dup(),
            label: self.label.dup(),
        }
    }
}

/// The actions that an entry of the history still offers.
#[derive(Clone, Debug, Eq, PartialEq)]
pub struct NotificationActionProjection {
    pub history_id: HistoryEntryId,
    pub actions: Vec<NotificationActionView>,
}

/// The model of a [`NotificationActionProjection`].
#[verifier::ext_equal]
pub struct NotificationActionProjectionView {
    pub history_id: HistoryEntryId,
    pub actions: Seq<NotificationActionModel>,
}

impl DeepView for NotificationActionProjection {
    type V = NotificationActionProjectionView;

    open spec fn deep_view(&self) -> NotificationActionProjectionView {
        NotificationActionProjectionView {
            history_id: self.history_id,
            actions: self.actions.deep_view(),
        }
    }
}

impl Value for NotificationActionProjection {
    fn same(&self, other: &Self) -> (r: bool) {
        self.history_id == other.history_id && self.actions.same(&other.actions)
    }

    fn dup(&self) -> (r: Self) {
        NotificationActionProjection {
            history_id: self.history_id,
            actions: self.actions.dup(),
        }
    }
}

/// A notification that was received.
#[derive(Clone, Debug, Eq, PartialEq)]
pub struct NotificationHistoryEntry {
    pub id: HistoryEntryId,
    pub live_notification_id: Option<NotificationId>,
    pub source: NotificationSource,
    pub app_name: String,
    pub summary: String,
    pub body: String,
    pub order: u64,
    pub received_at: u64,
    pub updated_at: u64,
}

/// The model of a [`NotificationHistoryEntry`].
#[verifier::ext_equal]
pub struct NotificationHistoryEntryView {
    pub id: HistoryEntryId,
    pub live_notification_id: Option<NotificationId>,
    pub source: NotificationSource,
    pub app_name: Seq<char>,
    pub summary: Seq<char>,
    pub body: Seq<char>,
    pub order: u64,
    pub received_at: u64,
    pub updated_at: u64,
}

impl DeepView for NotificationHistoryEntry {
    type V = NotificationHistoryEntryView;

    open spec fn deep_view(&self) -> NotificationHistoryEntryView {
        NotificationHistoryEntryView {
            id: self.id,
            live_notification_id: self.live_notification_id.deep_view(),
            source: self.source,
            app_name: self.app_name.deep_view(),
            summary: self.summary.deep_view(),
            body: self.body.deep_view(),
            order: self.order,
            received_at: self.received_at,
            updated_at: self.updated_at,
        }
    }
}

impl Value for NotificationHistoryEntry {
    fn same(&self, other: &Self) -> (r: bool) {
        self.id == other.id && self.live_notification_id.same(&other.live_notification_id) && self.source == other.source && self.app_name.same(&other.app_name) && self.summary.same(&other.summary) && self.body.same(&other.body) && self.order == other.order && self.received_at == other.received_at && self.updated_at == other.updated_at
    }

    fn dup(&self) -> (r: Self) {
        NotificationHistoryEntry {
            id: self.id,
            live_notification_id: self.live_notification_id.dup(),
            source: self.source,
            app_name: self.app_name.dup(),
            summary: self.summary.dup(),
            body: self.body.dup(),
            order: self.order,
            received_at: self.received_at,
            updated_at: self.updated_at,
        }
    }
}

/// What the members of a group of notifications have in common.
#[derive(Clone, Debug, Eq, Hash, Ord, PartialEq, PartialOrd)]
pub enum GroupKey {
    ApplicationName(String),
}

/// The model of a [`GroupKey`].
#[verifier::ext_equal]
pub enum GroupKeyView {
    ApplicationName(Seq<char>),
}

impl DeepView for GroupKey {
    type V = GroupKeyView;

    open spec fn deep_view(&self) -> GroupKeyView {
        match self {
            GroupKey::ApplicationName(a) => GroupKeyView::ApplicationName(a.deep_view()),
        }
    }
}

impl Value for GroupKey {
    fn same(&self, other: &Self) -> (r: bool) {
        match (self, other) {
            (GroupKey::ApplicationName(a), GroupKey::ApplicationName(u)) => a.same(u),
        }
    }

    fn dup(&self) -> (r: Self) {
        match self {
            GroupKey::ApplicationName(a) => GroupKey::ApplicationName(a.dup()),
        }
    }
}

/// A row of the notification center.
#[derive(Clone, Debug, Eq, PartialEq)]
pub enum NotificationCenterItem {
    Single { member: HistoryEntryId },
    Group { key: GroupKey, members: Vec<HistoryEntryId>, expanded: bool },
}

/// The model of a [`NotificationCenterItem`].
#[verifier::ext_equal]
pub enum NotificationCenterItemView {
    Single { member: HistoryEntryId },
    Group { key: GroupKeyView, members: Seq<HistoryEntryId>, expanded: bool },
}

impl DeepView for NotificationCenterItem {
    type V = NotificationCenterItemView;

    open spec fn deep_view(&self) -> NotificationCenterItemView {
        match self {
            NotificationCenterItem::Single { member } => NotificationCenterItemView::Single { member: *member },
            NotificationCenterItem::Group { key, members, expanded } => NotificationCenterItemView::Group { key: key.deep_view(), members: members.deep_view(), expanded: *expanded },
        }
    }
}

impl NotificationCenterItemView {
    /// The entries of a row, newest first.
    pub open spec fn members(self) -> Seq<HistoryEntryId> {
        match self {
            NotificationCenterItemView::Single { member } => seq![member],
            NotificationCenterItemView::Group { members, .. } => members,
        }
    }

    /// What the entries of a group have in common.
    pub open spec fn group_key(self) -> Option<GroupKeyView> {
        match self {
            NotificationCenterItemView::Single { .. } => None,
            NotificationCenterItemView::Group { key, .. } => Some(key),
        }
    }
}

impl NotificationCenterItem {
    /// The entries of a row, newest first.
    pub fn members(&self) -> (r: Vec<HistoryEntryId>)
        ensures
            r@ == self.deep_view().members(),
    {
        match self {
            NotificationCenterItem::Single { member } => {
                let mut one: Vec<HistoryEntryId> = Vec::new();
                one.push(*member);
                assert(one@ =~= seq![*member]);
                one
            },
            NotificationCenterItem::Group { members, .. } => {
                let all = members.dup();
                assert(all.deep_view() =~= all@);
                all
            },
        }
    }

    /// What the entries of a group have in common.
    pub fn group_key(&self) -> (r: Option<&GroupKey>)
        ensures
            r.deep_view() == self.deep_view().group_key(),
    {
        match self {
            NotificationCenterItem::Single { .. } => None,
            NotificationCenterItem::Group { key, .. } => Some(key),
        }
    }

    /// The newest entry of a row.
    pub fn front_member(&self) -> (r: HistoryEntryId)
        requires
            self.deep_view().members().len() > 0,
        ensures
            r == self.deep_view().members()[0],
    {
        match self {
            NotificationCenterItem::Single { member } => *member,
            NotificationCenterItem::Group { members, .. } => members[0],
        }
    }

    /// Whether a row is a group that is expanded.
    pub fn is_expanded(&self) -> (r: bool)
        ensures
            r == (self.deep_view() matches NotificationCenterItemView::Group { expanded, .. }
                && expanded),
    {
        match self {
            NotificationCenterItem::Single { .. } => false,
            NotificationCenterItem::Group { expanded, .. } => *expanded,
        }
    }
}

/// The entry stands for a row of its own: its application has no name, or no newer entry.
pub open spec fn is_lead(history: Seq<NotificationHistoryEntryView>, at: int) -> bool {
    history[at].app_name.len() == 0 || forall|i: int|
        0 <= i < at ==> (#[trigger] history[i]).app_name != history[at].app_name
}

/// The entries of an application, newest first.
pub open spec fn entries_of(
    history: Seq<NotificationHistoryEntryView>,
    app_name: Seq<char>,
) -> Seq<HistoryEntryId> {
    history.filter(|e: NotificationHistoryEntryView| e.app_name == app_name).map_values(
        |e: NotificationHistoryEntryView| e.id,
    )
}

/// The row that an entry stands for.
pub open spec fn row_at(
    history: Seq<NotificationHistoryEntryView>,
    at: int,
    expanded: Set<GroupKeyView>,
) -> NotificationCenterItemView {
    let name = history[at].app_name;
    let members = entries_of(history, name);
    if name.len() == 0 || members.len() <= 1 {
        NotificationCenterItemView::Single { member: history[at].id }
    } else {
        let key = GroupKeyView::ApplicationName(name);
        NotificationCenterItemView::Group { key, members, expanded: expanded.contains(key) }
    }
}

/// The places of the first so many entries.
pub open spec fn places(n: int) -> Seq<int> {
    Seq::new(n as nat, |i: int| i)
}

/// The entries that stand for rows, among the first so many.
pub open spec fn leads(history: Seq<NotificationHistoryEntryView>, n: int) -> Seq<int> {
    places(n).filter(|i: int| is_lead(history, i))
}

/// The rows of the notification center: one for each application with a name, in the order of
/// their newest entries, and one for each entry without.
pub open spec fn center_rows(
    history: Seq<NotificationHistoryEntryView>,
    expanded: Set<GroupKeyView>,
) -> Seq<NotificationCenterItemView> {
    leads(history, history.len() as int).map_values(|i: int| row_at(history, i, expanded))
}

proof fn lemma_leads_step(history: Seq<NotificationHistoryEntryView>, n: int)
    requires
        0 <= n,
    ensures
        leads(history, n + 1) == (if is_lead(history, n) {
            leads(history, n).push(n)
        } else {
            leads(history, n)
        }),
{
    let p = |i: int| is_lead(history, i);
    seqs::lemma_filter_take(places(n + 1), p, n);
    assert(places(n + 1).take(n + 1) =~= places(n + 1));
    assert(places(n + 1).take(n) =~= places(n));
}

fn leads_row(history: &[NotificationHistoryEntry], at: usize) -> (r: bool)
    requires
        at < history.len(),
    ensures
        r == is_lead(history.deep_view(), at as int),
{
    if history[at].app_name.as_str().is_empty() {
        return true;
    }
    let mut i: usize = 0;
    while i < at
        invariant
            i <= at < history.len(),
            history.deep_view()[at as int].app_name.len() > 0,
            forall|j: int|
                0 <= j < i ==> (#[trigger] history.deep_view()[j]).app_name
                    != history.deep_view()[at as int].app_name,
        decreases at - i,
    {
        if history[i].app_name.same(&history[at].app_name) {
            assert(history.deep_view()[i as int].app_name
                == history.deep_view()[at as int].app_name);
            return false;
        }
        i += 1;
    }
    true
}

fn members_of(history: &[NotificationHistoryEntry], app_name: &String) -> (r: Vec<HistoryEntryId>)
    ensures
        r@ == entries_of(history.deep_view(), app_name@),
{
    let ghost all = history.deep_view();
    let ghost p = |e: NotificationHistoryEntryView| e.app_name == app_name@;
    proof {
        seqs::lemma_filter_none(all, p);
    }
    let mut ids: Vec<HistoryEntryId> = Vec::new();
    let mut i: usize = 0;
    while i < history.len()
        invariant
            i <= history.len(),
            all == history.deep_view(),
            p == (|e: NotificationHistoryEntryView| e.app_name == app_name@),
            ids@ =~= all.take(i as int).filter(p).map_values(
                |e: NotificationHistoryEntryView| e.id,
            ),
        decreases history.len() - i,
    {
        proof {
            seqs::lemma_filter_take(all, p, i as int);
        }
        if history[i].app_name.same(app_name) {
            ids.push(history[i].id);
        }
        i += 1;
    }
    assert(all.take(i as int) =~= all);
    ids
}

fn row_of(
    history: &[NotificationHistoryEntry],
    at: usize,
    expanded_groups: &KeySet<GroupKey>,
) -> (r: NotificationCenterItem)
    requires
        at < history.len(),
    ensures
        r.deep_view() == row_at(history.deep_view(), at as int, expanded_groups.deep_view()),
{
    let entry = &history[at];
    let members = members_of(history, &entry.app_name);
    if entry.app_name.as_str().is_empty() || members.len() <= 1 {
        NotificationCenterItem::Single { member: entry.id }
    } else {
        let key = GroupKey::ApplicationName(entry.app_name.dup());
        let expanded = expanded_groups.contains(&key);
        assert(members.deep_view() =~= members@);
        NotificationCenterItem::Group { key, members, expanded }
    }
}

/// The rows of the notification center.
pub fn notification_center_items(
    history: &[NotificationHistoryEntry],
    expanded_groups: &KeySet<GroupKey>,
) -> (r: Vec<NotificationCenterItem>)
    ensures
        r.deep_view() == center_rows(history.deep_view(), expanded_groups.deep_view()),
{
    let ghost all = history.deep_view();
    let ghost expanded = expanded_groups.deep_view();
    let mut items: Vec<NotificationCenterItem> = Vec::new();
    let mut i: usize = 0;
    proof {
        seqs::lemma_filter_none(places(0), |i: int| is_lead(all, i));
        assert(places(0).take(0) =~= places(0));
    }
    while i < history.len()
        invariant
            i <= history.len(),
            all == history.deep_view(),
            expanded == expanded_groups.deep_view(),
            items.deep_view() =~= leads(all, i as int).map_values(
                |j: int| row_at(all, j, expanded),
            ),
        decreases history.len() - i,
    {
        proof {
            lemma_leads_step(all, i as int);
        }
        if leads_row(history, i) {
            lists::push(&mut items, row_of(history, i, expanded_groups));
        }
        i += 1;
    }
    items
}

/// The groups of the notification center.
pub open spec fn group_keys(history: Seq<NotificationHistoryEntryView>) -> Set<GroupKeyView> {
    Set::new(
        |key: GroupKeyView|
            exists|i: int|
                0 <= i < center_rows(history, Set::empty()).len() && (
                #[trigger] center_rows(history, Set::empty())[i]).group_key() == Some(key),
    )
}

/// The groups of the notification center.
pub fn notification_group_keys(history: &[NotificationHistoryEntry]) -> (r: KeySet<GroupKey>)
    ensures
        r.deep_view() == group_keys(history.deep_view()),
{
    let items = notification_center_items(history, &KeySet::new());
    let ghost rows = center_rows(history.deep_view(), Set::empty());
    let mut keys: KeySet<GroupKey> = KeySet::new();
    let mut i: usize = 0;
    while i < items.len()
        invariant
            i <= items.len(),
            rows == items.deep_view(),
            forall|key: GroupKeyView| #[trigger]
                keys.deep_view().contains(key) <==> exists|j: int|
                    0 <= j < i && (#[trigger] rows[j]).group_key() == Some(key),
        decreases items.len() - i,
    {
        let ghost before = keys.deep_view();
        assert(rows[i as int] == items[i as int].deep_view());
        match items[i].group_key() {
            Some(key) => {
                keys.insert(key.dup());
            },
            None => {},
        }
        assert forall|key: GroupKeyView| #[trigger]
            keys.deep_view().contains(key) <==> exists|j: int|
                0 <= j < i + 1 && (#[trigger] rows[j]).group_key() == Some(key) by {
            if before.contains(key) {
                let j = choose|j: int| 0 <= j < i && (#[trigger] rows[j]).group_key() == Some(key);
                assert(rows[j].group_key() == Some(key));
            }
            if keys.deep_view().contains(key) && !before.contains(key) {
                assert(rows[i as int].group_key() == Some(key));
            }
        }
        i += 1;
    }
    assert(keys.deep_view() =~= group_keys(history.deep_view()));
    keys
}

/// The group that the entry belongs to.
pub open spec fn group_of(history: Seq<NotificationHistoryEntryView>, id: HistoryEntryId) -> Option<
    GroupKeyView,
> {
    match seqs::first_in(
        center_rows(history, Set::empty()),
        |row: NotificationCenterItemView| row.members().contains(id),
    ) {
        Some(row) => row.group_key(),
        None => None,
    }
}

/// The group that the entry belongs to.
pub fn notification_group_for_history_id(
    history: &[NotificationHistoryEntry],
    history_id: HistoryEntryId,
) -> (r: Option<GroupKey>)
    ensures
        r.deep_view() == group_of(history.deep_view(), history_id),
{
    let items = notification_center_items(history, &KeySet::new());
    let test = |row: &NotificationCenterItem| -> (b: bool)
        ensures
            b == row.deep_view().members().contains(history_id),
    {
        let members = row.members();
        assert(members.deep_view() =~= members@);
        lists::contains(&members, &history_id)
    };
    match lists::first(
        &items,
        test,
        Ghost(|row: NotificationCenterItemView| row.members().contains(history_id)),
    ) {
        Some(row) => match row.group_key() {
            Some(key) => Some(key.dup()),
            None => None,
        },
        None => None,
    }
}

/// The entries have ids of their own.
pub open spec fn distinct_ids(history: Seq<NotificationHistoryEntryView>) -> bool {
    forall|i: int, j: int|
        0 <= i < j < history.len() ==> (#[trigger] history[i]).id != (#[trigger] history[j]).id
}

/// Where the entry stands that leads the row of a given one.
pub open spec fn lead_of(history: Seq<NotificationHistoryEntryView>, at: int) -> int {
    if history[at].app_name.len() == 0 {
        at
    } else {
        seqs::index_in(
            history,
            |e: NotificationHistoryEntryView| e.app_name == history[at].app_name,
        )->0
    }
}

proof fn lemma_lead_of(history: Seq<NotificationHistoryEntryView>, at: int)
    requires
        0 <= at < history.len(),
    ensures
        0 <= lead_of(history, at) <= at,
        is_lead(history, lead_of(history, at)),
        history[lead_of(history, at)].app_name == history[at].app_name,
        is_lead(history, at) ==> lead_of(history, at) == at,
{
    let p = |e: NotificationHistoryEntryView| e.app_name == history[at].app_name;
    seqs::lemma_index_props(history, p);
    assert(p(history[at]));
    if history[at].app_name.len() > 0 {
        let lead = lead_of(history, at);
        assert forall|i: int| 0 <= i < lead implies (#[trigger] history[i]).app_name
            != history[lead].app_name by {
            assert(!p(history[i]));
        }
    }
}

proof fn lemma_leads(history: Seq<NotificationHistoryEntryView>, n: int)
    requires
        0 <= n,
    ensures
        forall|k: int, l: int|
            0 <= k < l < leads(history, n).len() ==> leads(history, n)[k] < leads(history, n)[l],
        forall|i: int| #[trigger]
            leads(history, n).contains(i) <==> 0 <= i < n && is_lead(history, i),
    decreases n,
{
    if n == 0 {
        seqs::lemma_filter_none(places(0), |i: int| is_lead(history, i));
        assert(places(0).take(0) =~= places(0));
    } else {
        lemma_leads(history, n - 1);
        lemma_leads_step(history, n - 1);
        let before = leads(history, n - 1);
        assert forall|k: int| 0 <= k < before.len() implies #[trigger] before[k] < n - 1 by {
            assert(before.contains(before[k]));
        }
        assert forall|i: int| #[trigger]
            leads(history, n).contains(i) <==> 0 <= i < n && is_lead(history, i) by {
            if before.contains(i) {
                let k = choose|k: int| 0 <= k < before.len() && before[k] == i;
                assert(leads(history, n)[k] == i);
            }
            if is_lead(history, n - 1) {
                assert(leads(history, n)[before.len() as int] == n - 1);
            }
            if leads(history, n).contains(i) && i != n - 1 {
                let k = choose|k: int| 0 <= k < leads(history, n).len() && leads(history, n)[k] == i;
                assert(before[k] == i);
            }
        }
    }
}

proof fn lemma_entries_of(history: Seq<NotificationHistoryEntryView>, app_name: Seq<char>, at: int)
    requires
        0 <= at < history.len(),
        distinct_ids(history),
    ensures
        entries_of(history, app_name).contains(history[at].id) <==> history[at].app_name == app_name,
        forall|id: HistoryEntryId| #[trigger]
            entries_of(history, app_name).contains(id) ==> exists|i: int|
                0 <= i < history.len() && (#[trigger] history[i]).id == id,
{
    let p = |e: NotificationHistoryEntryView| e.app_name == app_name;
    let kept = history.filter(p);
    let ids = entries_of(history, app_name);
    if history[at].app_name == app_name {
        seqs::lemma_filter_members(history, p, history[at]);
        let k = choose|k: int| 0 <= k < kept.len() && kept[k] == history[at];
        assert(ids[k] == history[at].id);
    }
    assert forall|id: HistoryEntryId| #[trigger] ids.contains(id) implies exists|i: int|
        0 <= i < history.len() && (#[trigger] history[i]).id == id by {
        let k = choose|k: int| 0 <= k < ids.len() && ids[k] == id;
        seqs::lemma_filter_members(history, p, kept[k]);
        let i = choose|i: int| 0 <= i < history.len() && history[i] == kept[k];
        assert(history[i].id == id);
    }
    if ids.contains(history[at].id) {
        let k = choose|k: int| 0 <= k < ids.len() && ids[k] == history[at].id;
        seqs::lemma_filter_members(history, p, kept[k]);
        let i = choose|i: int| 0 <= i < history.len() && history[i] == kept[k];
        assert(history[i].id == history[at].id);
        assert(i == at) by {
            if i < at {
                assert(history[i].id != history[at].id);
            } else if at < i {
                assert(history[at].id != history[i].id);
            }
        }
    }
}

/// An entry is among the members of a row exactly where the row is that of its lead.
proof fn lemma_row_members(
    history: Seq<NotificationHistoryEntryView>,
    lead: int,
    at: int,
    expanded: Set<GroupKeyView>,
)
    requires
        0 <= lead < history.len(),
        0 <= at < history.len(),
        is_lead(history, lead),
        distinct_ids(history),
    ensures
        row_at(history, lead, expanded).members().contains(history[at].id) <==> lead == lead_of(
            history,
            at,
        ),
{
    lemma_lead_of(history, at);
    lemma_lead_of(history, lead);
    let name = history[lead].app_name;
    let members = entries_of(history, name);
    let row = row_at(history, lead, expanded);
    lemma_entries_of(history, name, at);
    lemma_entries_of(history, name, lead);
    assert(lead_of(history, at) == lead <==> (if name.len() == 0 {
        at == lead
    } else {
        history[at].app_name == name
    })) by {
        if name.len() > 0 && history[at].app_name == name {
            let other = lead_of(history, at);
            if other < lead {
                assert(history[other].app_name != history[lead].app_name);
            } else if lead < other {
                assert(history[lead].app_name != history[other].app_name);
            }
        }
    }
    if name.len() == 0 || members.len() <= 1 {
        assert(row.members() =~= seq![history[lead].id]);
        assert(row.members()[0] == history[lead].id);
        assert(row.members().contains(history[at].id) <==> at == lead) by {
            if history[at].id == history[lead].id {
                if at < lead {
                    assert(history[at].id != history[lead].id);
                } else if lead < at {
                    assert(history[lead].id != history[at].id);
                }
            }
        }
        if name.len() > 0 && history[at].app_name == name {
            let j = choose|j: int| 0 <= j < members.len() && members[j] == history[at].id;
            let k = choose|k: int| 0 <= k < members.len() && members[k] == history[lead].id;
            assert(j == k);
        }
    }
}

/// Every entry of the history belongs to exactly one row of the notification center.
pub proof fn lemma_one_row_each(
    history: Seq<NotificationHistoryEntryView>,
    expanded: Set<GroupKeyView>,
    at: int,
)
    requires
        0 <= at < history.len(),
        distinct_ids(history),
    ensures
        exists|k: int|
            0 <= k < center_rows(history, expanded).len() && (#[trigger] center_rows(
                history,
                expanded,
            )[k]).members().contains(history[at].id),
        forall|k: int, l: int|
            0 <= k < center_rows(history, expanded).len() && 0 <= l < center_rows(
                history,
                expanded,
            ).len() && (#[trigger] center_rows(history, expanded)[k]).members().contains(
                history[at].id,
            ) && (#[trigger] center_rows(history, expanded)[l]).members().contains(history[at].id)
                ==> k == l,
{
    let n = history.len() as int;
    let places = leads(history, n);
    let rows = center_rows(history, expanded);
    lemma_leads(history, n);
    lemma_lead_of(history, at);
    let lead = lead_of(history, at);
    assert(places.contains(lead));
    let k = choose|k: int| 0 <= k < places.len() && places[k] == lead;
    lemma_row_members(history, lead, at, expanded);
    assert(rows[k].members().contains(history[at].id));
    assert forall|l: int|
        0 <= l < rows.len() && (#[trigger] rows[l]).members().contains(history[at].id) implies l
        == k by {
        assert(places.contains(places[l]));
        lemma_row_members(history, places[l], at, expanded);
    }
}

/// The rows of the notification center stand in the order of their newest entries.
pub proof fn lemma_rows_newest_first(
    history: Seq<NotificationHistoryEntryView>,
    expanded: Set<GroupKeyView>,
    k: int,
    l: int,
)
    requires
        0 <= k < l < center_rows(history, expanded).len(),
    ensures
        leads(history, history.len() as int)[k] < leads(history, history.len() as int)[l],
        center_rows(history, expanded)[k] == row_at(
            history,
            leads(history, history.len() as int)[k],
            expanded,
        ),
{
    lemma_leads(history, history.len() as int);
}

/// Which entries belong together does not depend on which groups are expanded.
pub proof fn lemma_expansion_keeps_rows(
    history: Seq<NotificationHistoryEntryView>,
    expanded: Set<GroupKeyView>,
    other: Set<GroupKeyView>,
    k: int,
)
    requires
        0 <= k < center_rows(history, expanded).len(),
    ensures
        center_rows(history, expanded).len() == center_rows(history, other).len(),
        center_rows(history, expanded)[k].members() == center_rows(history, other)[k].members(),
        center_rows(history, expanded)[k].group_key() == center_rows(history, other)[k].group_key(),
{
}

proof fn lemma_row_front(
    history: Seq<NotificationHistoryEntryView>,
    lead: int,
    expanded: Set<GroupKeyView>,
)
    requires
        0 <= lead < history.len(),
        is_lead(history, lead),
    ensures
        row_at(history, lead, expanded).members().len() > 0,
        row_at(history, lead, expanded).members()[0] == history[lead].id,
{
    let name = history[lead].app_name;
    let p = |e: NotificationHistoryEntryView| e.app_name == name;
    if name.len() > 0 {
        assert forall|i: int| 0 <= i < lead implies !p(#[trigger] history.take(lead)[i]) by {
            assert(history[i].app_name != name);
        }
        seqs::lemma_filter_nothing(history.take(lead), p);
        seqs::lemma_filter_around(history, p, lead);
        assert(history.filter(p)[0] == history[lead]);
    }
}

proof fn lemma_distinct(history: Seq<NotificationHistoryEntryView>, i: int, j: int)
    requires
        distinct_ids(history),
        0 <= i < history.len(),
        0 <= j < history.len(),
        history[i].id == history[j].id,
    ensures
        i == j,
{
    if i < j {
        assert(history[i].id != history[j].id);
    } else if j < i {
        assert(history[j].id != history[i].id);
    }
}

/// Of two rows of the notification center the upper one has the entry at its front that comes first in
/// the history.
pub proof fn lemma_upper_row_is_newer(
    history: Seq<NotificationHistoryEntryView>,
    expanded: Set<GroupKeyView>,
    k: int,
    l: int,
    i: int,
    j: int,
)
    requires
        distinct_ids(history),
        0 <= k < l < center_rows(history, expanded).len(),
        0 <= i < history.len(),
        0 <= j < history.len(),
        center_rows(history, expanded)[k].members()[0] == history[i].id,
        center_rows(history, expanded)[l].members()[0] == history[j].id,
    ensures
        i < j,
{
    let places = leads(history, history.len() as int);
    lemma_leads(history, history.len() as int);
    assert(places.contains(places[k]) && places.contains(places[l]));
    lemma_row_front(history, places[k], expanded);
    lemma_row_front(history, places[l], expanded);
    lemma_distinct(history, i, places[k]);
    lemma_distinct(history, j, places[l]);
}

/// Two entries are in one row exactly where they are of one application that has a name.
pub proof fn lemma_rows_are_applications(
    history: Seq<NotificationHistoryEntryView>,
    expanded: Set<GroupKeyView>,
    k: int,
    i: int,
    j: int,
)
    requires
        distinct_ids(history),
        0 <= k < center_rows(history, expanded).len(),
        0 <= i < history.len(),
        0 <= j < history.len(),
        i != j,
        center_rows(history, expanded)[k].members().contains(history[i].id),
    ensures
        center_rows(history, expanded)[k].members().contains(history[j].id)
            <==> history[i].app_name.len() > 0 && history[i].app_name == history[j].app_name,
{
    let places = leads(history, history.len() as int);
    lemma_leads(history, history.len() as int);
    assert(places.contains(places[k]));
    lemma_row_members(history, places[k], i, expanded);
    lemma_row_members(history, places[k], j, expanded);
    lemma_lead_of(history, i);
    lemma_lead_of(history, j);
}

/// A row with more than one entry is a group of its application, and is expanded where that is asked
/// for; a row with one entry is none.
pub proof fn lemma_rows_of_many_are_groups(
    history: Seq<NotificationHistoryEntryView>,
    expanded: Set<GroupKeyView>,
    k: int,
    i: int,
)
    requires
        distinct_ids(history),
        0 <= k < center_rows(history, expanded).len(),
        0 <= i < history.len(),
        center_rows(history, expanded)[k].members().contains(history[i].id),
    ensures
        match center_rows(history, expanded)[k] {
            NotificationCenterItemView::Group { key, members, expanded: open } => {
                &&& members.len() > 1
                &&& key == GroupKeyView::ApplicationName(history[i].app_name)
                &&& history[i].app_name.len() > 0
                &&& open == expanded.contains(GroupKeyView::ApplicationName(history[i].app_name))
            },
            NotificationCenterItemView::Single { member } => member == history[i].id,
        },
{
    let places = leads(history, history.len() as int);
    lemma_leads(history, history.len() as int);
    assert(places.contains(places[k]));
    lemma_row_members(history, places[k], i, expanded);
    lemma_lead_of(history, i);
}

/// The entries of a row stand in the order of the history.
pub proof fn lemma_members_newest_first(
    history: Seq<NotificationHistoryEntryView>,
    expanded: Set<GroupKeyView>,
    k: int,
    m: int,
    n: int,
    i: int,
    j: int,
)
    requires
        distinct_ids(history),
        0 <= k < center_rows(history, expanded).len(),
        0 <= m < n < center_rows(history, expanded)[k].members().len(),
        0 <= i < history.len(),
        0 <= j < history.len(),
        center_rows(history, expanded)[k].members()[m] == history[i].id,
        center_rows(history, expanded)[k].members()[n] == history[j].id,
    ensures
        i < j,
{
    let places = leads(history, history.len() as int);
    lemma_leads(history, history.len() as int);
    assert(places.contains(places[k]));
    let name = history[places[k]].app_name;
    let p = |e: NotificationHistoryEntryView| e.app_name == name;
    lemma_kept_order(history, p, m, n, i, j);
}

proof fn lemma_kept_order(
    history: Seq<NotificationHistoryEntryView>,
    p: spec_fn(NotificationHistoryEntryView) -> bool,
    m: int,
    n: int,
    i: int,
    j: int,
)
    requires
        distinct_ids(history),
        0 <= m < n < history.filter(p).len(),
        0 <= i < history.len(),
        0 <= j < history.len(),
        history.filter(p)[m].id == history[i].id,
        history.filter(p)[n].id == history[j].id,
    ensures
        i < j,
    decreases history.len(),
{
    let before = history.drop_last();
    let last = history.len() - 1;
    assert(history.take(last) =~= before);
    assert(history.take(last + 1) =~= history);
    seqs::lemma_filter_take(history, p, last);
    let kept = before.filter(p);
    assert(kept.contains(kept[m]));
    seqs::lemma_filter_members(before, p, kept[m]);
    let a = choose|a: int| 0 <= a < before.len() && before[a] == kept[m];
    assert(history[a].id == history[i].id);
    lemma_distinct(history, a, i);
    if n < kept.len() {
        assert(kept.contains(kept[n]));
        seqs::lemma_filter_members(before, p, kept[n]);
        let b = choose|b: int| 0 <= b < before.len() && before[b] == kept[n];
        assert(history[b].id == history[j].id);
        lemma_distinct(history, b, j);
        assert(distinct_ids(before)) by {
            assert forall|x: int, y: int| 0 <= x < y < before.len() implies (#[trigger] before[x]).id
                != (#[trigger] before[y]).id by {
                assert(history[x].id != history[y].id);
            }
        }
        lemma_kept_order(before, p, m, n, i, j);
    } else {
        lemma_distinct(history, last, j);
    }
}

} // verus!
