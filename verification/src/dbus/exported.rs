//! The dealings with applications that export their menus and actions.
use vstd::prelude::*;

use crate::dbus::gmenu;
use crate::dbus::gmenu::RawMenu;
use crate::dbus::wire::{Properties, WireValue};
use crate::domain::event::Event;
use crate::domain::menu::{
    GtkMenuEndpoint, GtkMenuEndpointView, MenuActionTarget, MenuActionTargetView, MenuModel,
    MenuSource, MenuSourceView,
};
use crate::domain::state::WindowId;
use crate::lists;
use crate::seqs;
use crate::table::{KeySet, Table};
use crate::text;
use crate::value::Value;

verus! {

/// The moment of an input, where the input has one.
pub fn activation_timestamp(timestamp: u32) -> (r: Option<u32>)
    ensures
        r == (if timestamp == 0 {
            None
        } else {
            Some(timestamp)
        }),
{
    if timestamp == 0 {
        None
    } else {
        Some(timestamp)
    }
}

/// What an application is told of the input that activates an action: the moment of the input, where
/// it has one.
pub fn platform_data(timestamp: Option<u32>) -> (r: Properties)
    ensures
        match timestamp {
            Some(t) if t != 0 => r@.len() == 1 && r@[0].0@ == "desktop-startup-id"@ && (
            r@[0].1 matches WireValue::Str(id) && id@ == "_TIME"@ + text::decimal(t as nat)),
            _ => r@.len() == 0,
        },
{
    let mut data: Properties = Vec::new();
    if let Some(timestamp) = timestamp {
        if timestamp != 0 {
            let number = text::format_decimal(timestamp as u64);
            let id = text::concat("_TIME", number.as_str());
            data.push(("desktop-startup-id".to_owned(), WireValue::Str(id)));
        }
    }
    data
}

/// The name of an action within its group: what stands behind the first dot, which the name of the
/// group ends with.
pub open spec fn local_part(action: Seq<char>) -> Seq<char> {
    match seqs::position_in(action, '.') {
        Some(at) => action.skip(at + 1),
        None => action,
    }
}

/// The name of an action within its group.
pub fn local_action(action: &str) -> (r: String)
    ensures
        r@ == local_part(action@),
{
    let n: usize = action.unicode_len();
    let mut at: usize = 0;
    while at < n
        invariant
            at <= n,
            n == action@.len(),
            forall|i: int| 0 <= i < at ==> (#[trigger] action@[i]) != '.',
        decreases n - at,
    {
        if action.get_char(at) == '.' {
            proof {
                seqs::lemma_position_at(action@, '.', at as int);
            }
            let name = action.substring_char(at + 1, n).to_owned();
            assert(name@ =~= local_part(action@));
            return name;
        }
        at += 1;
    }
    proof {
        seqs::lemma_position_none(action@, '.');
    }
    action.to_owned()
}

/// The value that the argument of an action is sent as.
pub fn menu_action_target(target: &MenuActionTarget) -> (r: WireValue)
    ensures
        match target.deep_view() {
            MenuActionTargetView::String(s) => r matches WireValue::Str(t) && t@ == s,
            MenuActionTargetView::Boolean(b) => r == WireValue::Bool(b),
            MenuActionTargetView::Int32(n) => r == WireValue::I32(n),
            MenuActionTargetView::Uint32(n) => r == WireValue::U32(n),
        },
        gmenu::target_of(r) == Some(target.deep_view()),
{
    match target {
        MenuActionTarget::String(s) => WireValue::Str(s.dup()),
        MenuActionTarget::Boolean(b) => WireValue::Bool(*b),
        MenuActionTarget::Int32(n) => WireValue::I32(*n),
        MenuActionTarget::Uint32(n) => WireValue::U32(*n),
    }
}

/// The revision that a load has: the number of its request, as far as a revision can hold it.
pub open spec fn revision_of(request_id: u64) -> u32 {
    if request_id <= u32::MAX {
        request_id as u32
    } else {
        u32::MAX
    }
}

/// The revision that a load has.
pub fn load_revision(request_id: u64) -> (r: u32)
    ensures
        r == revision_of(request_id),
{
    if request_id <= 0xffff_ffff {
        request_id as u32
    } else {
        0xffff_ffff
    }
}

/// A load of exported menus, group by group.
#[derive(Debug, Eq, PartialEq)]
pub struct ExportedLoad {
    /// The menus that came.
    pub content: Vec<RawMenu>,
    /// The groups that were asked for.
    pub requested: Vec<u32>,
}

impl ExportedLoad {
    /// The groups that were asked for are in ascending order, and the first one is among them.
    pub open spec fn is_valid(self) -> bool {
        gmenu::strictly_ascending(self.requested@) && self.requested@.contains(0)
    }

    /// A load that has asked for the first group.
    pub fn new() -> (r: Self)
        ensures
            r.is_valid(),
            r.content@.len() == 0,
            r.requested@ == seq![0u32],
    {
        let mut requested: Vec<u32> = Vec::new();
        requested.push(0);
        assert(requested@[0] == 0);
        ExportedLoad { content: Vec::new(), requested }
    }

    /// Takes menus in; returns the groups to ask for next: those that some menu refers to and that
    /// were not asked for. Where there are none the load is complete.
    pub fn take(&mut self, loaded: Vec<RawMenu>) -> (r: Vec<u32>)
        requires
            old(self).is_valid(),
        ensures
            final(self).is_valid(),
            final(self).content@ == old(self).content@ + loaded@,
            gmenu::strictly_ascending(r@),
            forall|g: u32| #[trigger]
                r@.contains(g) <==> gmenu::group_referenced(
                    gmenu::content_view(final(self).content@),
                    g,
                ) && !old(self).requested@.contains(g),
            forall|g: u32| #[trigger]
                final(self).requested@.contains(g) <==> old(self).requested@.contains(g)
                    || r@.contains(g),
    {
        let ghost before = self.requested@;
        let mut loaded = loaded;
        self.content.append(&mut loaded);
        let ghost content = self.content@;
        let groups = gmenu::referenced_groups(&self.content);
        let next = groups_not_in(&groups, &self.requested);
        let mut i: usize = 0;
        while i < next.len()
            invariant
                i <= next.len(),
                gmenu::strictly_ascending(self.requested@),
                forall|g: u32| #[trigger]
                    self.requested@.contains(g) <==> before.contains(g) || next@.take(
                        i as int,
                    ).contains(g),
                self.content@ == content,
            decreases next.len() - i,
        {
            gmenu::insert_group(&mut self.requested, next[i]);
            assert(next@.take(i + 1) =~= next@.take(i as int).push(next@[i as int]));
            assert forall|g: u32| #[trigger]
                self.requested@.contains(g) <==> before.contains(g) || next@.take(
                    i + 1,
                ).contains(g) by {
                let shorter = next@.take(i as int);
                let longer = next@.take(i + 1);
                assert(longer[i as int] == next@[i as int]);
                if shorter.contains(g) {
                    let k = choose|k: int| 0 <= k < shorter.len() && shorter[k] == g;
                    assert(longer[k] == g);
                }
                if longer.contains(g) && g != next@[i as int] {
                    let k = choose|k: int| 0 <= k < longer.len() && longer[k] == g;
                    assert(shorter[k] == g);
                }
            }
            i += 1;
        }
        assert(next@.take(i as int) =~= next@);
        next
    }

    /// The menu that the menus that came stand for.
    pub fn finish(self, request_id: u64, actions: &Table<String, bool>) -> (r: Result<
        (MenuModel, Vec<u32>),
        String,
    >)
        ensures
            match gmenu::start_model(
                revision_of(request_id),
                gmenu::content_view(self.content@),
                actions.deep_view(),
            ) {
                Ok(model) => r matches Ok(loaded) && loaded.0.deep_view() == model && loaded.1
                    == self.requested,
                Err(reason) => r matches Err(e) && e@ == reason,
            },
    {
        match gmenu::convert_start(load_revision(request_id), self.content, actions) {
            Ok(model) => Ok((model, self.requested)),
            Err(e) => Err(e),
        }
    }
}

fn groups_not_in(groups: &Vec<u32>, known: &Vec<u32>) -> (r: Vec<u32>)
    requires
        gmenu::strictly_ascending(groups@),
    ensures
        gmenu::strictly_ascending(r@),
        forall|g: u32| #[trigger] r@.contains(g) <==> groups@.contains(g) && !known@.contains(g),
{
    let ghost unknown = |g: u32| !known@.contains(g);
    let test = |g: &u32| -> (b: bool)
        ensures
            b == !known@.contains(*g),
    {
        assert(known.deep_view() =~= known@);
        !lists::contains(known, g)
    };
    let next = lists::select(groups, test, Ghost(unknown));
    proof {
        assert(groups.deep_view() =~= groups@);
        assert(next.deep_view() =~= next@);
        gmenu::lemma_filter_ascending(groups@, unknown);
        assert forall|g: u32| #[trigger] next@.contains(g) <==> groups@.contains(g)
            && !known@.contains(g) by {
            seqs::lemma_filter_members(groups@, unknown, g);
        }
    }
    next
}

/// Whether an event tells of the outcome of a load of exported menus.
pub open spec fn is_loaded_event(
    event: Event,
    window: WindowId,
    source: GtkMenuEndpointView,
    request: u64,
    result: Result<(MenuModel, Vec<u32>), String>,
) -> bool {
    match result {
        Ok(loaded) => event matches Event::MenuLoaded { window_id, endpoint, request_id, model }
            && window_id == window && endpoint.deep_view() == MenuSourceView::GtkGMenu(source)
            && request_id == request && model == loaded.0,
        Err(reason) => event matches Event::MenuLoadFailed { window_id, endpoint, request_id, error }
            && window_id == window && endpoint.deep_view() == MenuSourceView::GtkGMenu(source)
            && request_id == request && error == reason,
    }
}

/// The name under which the menus of an application are kept.
pub open spec fn exported_key(endpoint: GtkMenuEndpointView) -> Seq<char> {
    endpoint.bus_name + endpoint.menu_object_path
}

/// What is told of the outcome of a load of exported menus, and whether the menus are to be followed
/// from now on; the groups that were asked for are kept.
pub fn exported_menus_loaded(
    subscriptions: &mut Table<String, Vec<u32>>,
    watched: &mut KeySet<String>,
    window_id: WindowId,
    endpoint: &GtkMenuEndpoint,
    request_id: u64,
    result: Result<(MenuModel, Vec<u32>), String>,
) -> (r: (Event, bool))
    ensures
        is_loaded_event(r.0, window_id, endpoint.deep_view(), request_id, result),
        r.1 == !old(watched).deep_view().contains(exported_key(endpoint.deep_view())),
        final(watched).deep_view() == old(watched).deep_view().insert(
            exported_key(endpoint.deep_view()),
        ),
        final(subscriptions).deep_view() == (match result {
            Ok(loaded) => old(subscriptions).deep_view().insert(
                exported_key(endpoint.deep_view()),
                loaded.1.deep_view(),
            ),
            Err(_) => old(subscriptions).deep_view(),
        }),
{
    let key = gmenu::endpoint_key(endpoint);
    let event = match result {
        Ok((model, groups)) => {
            subscriptions.insert(key.dup(), groups);
            Event::MenuLoaded {
                window_id,
                endpoint: MenuSource::GtkGMenu(endpoint.dup()),
                request_id,
                model,
            }
        },
        Err(error) => Event::MenuLoadFailed {
            window_id,
            endpoint: MenuSource::GtkGMenu(endpoint.dup()),
            request_id,
            error,
        },
    };
    let watch = watched.insert(key);
    (event, watch)
}

/// Stops following exported menus; returns the groups to give up, which is the first one where no load
/// succeeded.
pub fn exported_menus_ended(
    subscriptions: &mut Table<String, Vec<u32>>,
    watched: &mut KeySet<String>,
    endpoint: &GtkMenuEndpoint,
) -> (r: Vec<u32>)
    ensures
        final(watched).deep_view() == old(watched).deep_view().remove(
            exported_key(endpoint.deep_view()),
        ),
        final(subscriptions).deep_view() == old(subscriptions).deep_view().remove(
            exported_key(endpoint.deep_view()),
        ),
        r.deep_view() == (if old(subscriptions).deep_view().contains_key(
            exported_key(endpoint.deep_view()),
        ) {
            old(subscriptions).deep_view()[exported_key(endpoint.deep_view())]
        } else {
            seq![0u32]
        }),
{
    let key = gmenu::endpoint_key(endpoint);
    watched.remove(&key);
    let groups = match subscriptions.get(&key) {
        Some(groups) => groups.dup(),
        None => {
            let mut first: Vec<u32> = Vec::new();
            first.push(0);
            assert(first.deep_view() =~= seq![0u32]);
            first
        },
    };
    subscriptions.remove(&key);
    groups
}

/// An action is named within its group by what stands behind the name of the group and a dot, be there
/// further dots or not.
pub proof fn lemma_group_is_left_out(group: Seq<char>, name: Seq<char>)
    requires
        !group.contains('.'),
    ensures
        local_part(group + seq!['.'] + name) == name,
        local_part(group) == group,
{
    let action = group + seq!['.'] + name;
    assert forall|i: int| 0 <= i < group.len() implies (#[trigger] action[i]) != '.' by {
        assert(group.contains(group[i]));
    }
    seqs::lemma_position_at(action, '.', group.len() as int);
    seqs::lemma_position_none(group, '.');
    assert(action.skip(group.len() as int + 1) =~= name);
}

/// A later load has no lower revision than an earlier one, and a revision of its own as long as there
/// are any.
pub proof fn lemma_revisions_rise(earlier: u64, later: u64)
    requires
        earlier < later,
    ensures
        revision_of(earlier) <= revision_of(later),
        later <= u32::MAX ==> revision_of(earlier) < revision_of(later),
        earlier <= u32::MAX ==> revision_of(earlier) == earlier,
{
}

} // verus!
