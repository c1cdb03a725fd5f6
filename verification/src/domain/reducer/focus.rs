//! Workspaces, focus, and pinning the presented menu to a workspace.
use vstd::prelude::*;

use crate::domain::menu;
use crate::domain::menu::{MenuRegistry, MenuRegistryView};
use crate::domain::reducer::presentation;
use crate::domain::state::{
    MenuPresentationPolicy, MenuPresentationPolicyView, State, StateView, WindowId, WorkspaceState,
    WorkspaceStateView,
};
use crate::lists;
use crate::seqs;
use crate::value::Value;

verus! {

/// The workspace that is marked as focused.
pub open spec fn marked_workspace(workspaces: Seq<WorkspaceStateView>) -> Option<
    WorkspaceStateView,
> {
    seqs::first_in(workspaces, |w: WorkspaceStateView| w.focused)
}

fn find_marked_workspace(workspaces: &Vec<WorkspaceState>) -> (r: Option<&WorkspaceState>)
    ensures
        r.deep_view() == marked_workspace(workspaces.deep_view()),
{
    let test = |w: &WorkspaceState| -> (b: bool)
        ensures
            b == w.deep_view().focused,
    {
        w.focused
    };
    lists::first(workspaces, test, Ghost(|w: WorkspaceStateView| w.focused))
}

/// A presentation that is pinned to another workspace than the focused one has ended.
pub open spec fn pin_checked(s: StateView) -> StateView {
    if !presentation::follows_focus(s) && presentation::pin(s) != s.focused_workspace {
        presentation::unpinned_by_workspace(s)
    } else {
        s
    }
}

fn check_pin(state: &mut State)
    ensures
        final(state).deep_view() == pin_checked(old(state).deep_view()),
{
    if !presentation::presentation_follows_focus(state) && !presentation::pinned_to(
        state,
        &state.focused_workspace,
    ) {
        presentation::end_pinned_presentation_for_workspace_change(state);
    }
}

fn set_workspaces(state: &mut State, workspaces: Vec<WorkspaceState>, focused: Option<String>)
    ensures
        final(state).deep_view() == (StateView {
            focused_workspace: focused.deep_view(),
            workspaces: workspaces.deep_view(),
            ..old(state).deep_view()
        }),
{
    state.focused_workspace = focused;
    state.workspaces = workspaces;
}

/// All workspaces have been reported.
pub open spec fn workspaces_reported(s: StateView, workspaces: Seq<WorkspaceStateView>) -> (
    StateView,
    bool,
) {
    let focused = match marked_workspace(workspaces) {
        Some(w) => Some(w.name),
        None => None,
    };
    let s1 = StateView { focused_workspace: focused, workspaces, ..s };
    (
        if s.focused_workspace != focused {
            pin_checked(s1)
        } else {
            s1
        },
        true,
    )
}

pub(crate) fn report_workspaces(state: &mut State, workspaces: Vec<WorkspaceState>) -> (r: bool)
    ensures
        (final(state).deep_view(), r) == workspaces_reported(
            old(state).deep_view(),
            workspaces.deep_view(),
        ),
{
    let focused = match find_marked_workspace(&workspaces) {
        Some(w) => Some(w.name.dup()),
        None => None,
    };
    let changed = !state.focused_workspace.same(&focused);
    set_workspaces(state, workspaces, focused);
    if changed {
        check_pin(state);
    }
    true
}

/// The workspaces with the one of the given name among them; a new one is on the monitor that is
/// focused so far.
pub open spec fn with_workspace(
    workspaces: Seq<WorkspaceStateView>,
    name: Option<Seq<char>>,
) -> Seq<WorkspaceStateView> {
    match name {
        Some(n) => if seqs::any_in(workspaces, |w: WorkspaceStateView| w.name == n) {
            workspaces
        } else {
            workspaces.push(
                WorkspaceStateView {
                    name: n,
                    output: match marked_workspace(workspaces) {
                        Some(w) => w.output,
                        None => None,
                    },
                    focused: false,
                },
            )
        },
        None => workspaces,
    }
}

/// The workspaces with the one of the given name marked as focused, and no other.
pub open spec fn with_mark(workspaces: Seq<WorkspaceStateView>, name: Option<Seq<char>>) -> Seq<
    WorkspaceStateView,
> {
    workspaces.map_values(
        |w: WorkspaceStateView| WorkspaceStateView { focused: Some(w.name) == name, ..w },
    )
}

fn mark_workspace(workspaces: Vec<WorkspaceState>, name: &Option<String>) -> (r: Vec<
    WorkspaceState,
>)
    ensures
        r.deep_view() == with_mark(workspaces.deep_view(), name.deep_view()),
{
    let ghost before = workspaces.deep_view();
    let mut marked = workspaces;
    let mut i: usize = 0;
    while i < marked.len()
        invariant
            i <= marked.len(),
            marked.len() == before.len(),
            forall|j: int|
                0 <= j < i ==> (#[trigger] marked.deep_view()[j]) == with_mark(
                    before,
                    name.deep_view(),
                )[j],
            forall|j: int| i <= j < marked.len() ==> (#[trigger] marked.deep_view()[j]) == before[j],
        decreases marked.len() - i,
    {
        let ghost now = marked.deep_view();
        assert(now[i as int] == before[i as int]);
        let focused = match name {
            Some(n) => marked[i].name.same(n),
            None => false,
        };
        marked[i].focused = focused;
        assert(marked.deep_view() =~= now.update(
            i as int,
            WorkspaceStateView { focused, ..now[i as int] },
        ));
        i += 1;
    }
    assert(marked.deep_view() =~= with_mark(before, name.deep_view()));
    marked
}

fn with_workspace_named(workspaces: &Vec<WorkspaceState>, name: &Option<String>) -> (r: Vec<
    WorkspaceState,
>)
    ensures
        r.deep_view() == with_workspace(workspaces.deep_view(), name.deep_view()),
{
    let mut all = workspaces.dup();
    match name {
        Some(n) => {
            let test = |w: &WorkspaceState| -> (b: bool)
                ensures
                    b == (w.deep_view().name == n@),
            {
                w.name.same(n)
            };
            if !lists::any(workspaces, test, Ghost(|w: WorkspaceStateView| w.name == n@)) {
                let output = match find_marked_workspace(workspaces) {
                    Some(w) => w.output.dup(),
                    None => None,
                };
                lists::push(&mut all, WorkspaceState { name: n.dup(), output, focused: false });
            }
        },
        None => {},
    }
    all
}

/// Another workspace has been focused.
pub open spec fn workspace_focused(s: StateView, name: Option<Seq<char>>) -> (StateView, bool) {
    if s.focused_workspace == name {
        (s, false)
    } else {
        (
            pin_checked(
                StateView {
                    focused_workspace: name,
                    workspaces: with_mark(with_workspace(s.workspaces, name), name),
                    ..s
                },
            ),
            true,
        )
    }
}

pub(crate) fn focus_workspace(state: &mut State, name: Option<String>) -> (r: bool)
    ensures
        (final(state).deep_view(), r) == workspace_focused(
            old(state).deep_view(),
            name.deep_view(),
        ),
{
    if state.focused_workspace.same(&name) {
        return false;
    }
    let workspaces = mark_workspace(with_workspace_named(&state.workspaces, &name), &name);
    set_workspaces(state, workspaces, name);
    check_pin(state);
    true
}

/// The presentation is free to go along with focus: it is neither pinned nor navigated.
pub open spec fn free_to_follow(s: StateView) -> bool {
    presentation::follows_focus(s) && s.menu_navigation is None
}

fn may_follow(state: &State) -> (r: bool)
    ensures
        r == free_to_follow(state.deep_view()),
{
    presentation::presentation_follows_focus(state) && state.menu_navigation.is_none()
}

/// A window has been focused, which closes every popup. The presentation goes along unless it is
/// pinned or navigated.
pub open spec fn window_taken(
    s: StateView,
    registry: MenuRegistryView,
    window: Option<WindowId>,
    app_name: Option<Seq<char>>,
) -> StateView {
    let s1 = StateView {
        focused_window: window,
        focused_app_name: app_name,
        audio_popup_open: false,
        audio_dragging: false,
        audio_drag_input: false,
        bluetooth_popup_open: false,
        network_popup_open: false,
        network_popup_open_pending: false,
        ..s
    };
    if free_to_follow(s) {
        presentation::reconciled(s1, registry)
    } else {
        s1
    }
}

fn take_window(
    state: &mut State,
    registry: &MenuRegistry,
    window: Option<WindowId>,
    app_name: Option<String>,
)
    ensures
        final(state).deep_view() == window_taken(
            old(state).deep_view(),
            registry.deep_view(),
            window,
            app_name.deep_view(),
        ),
{
    let follow = may_follow(state);
    state.focused_window = window;
    state.focused_app_name = app_name;
    state.audio_popup_open = false;
    state.audio_dragging = false;
    state.audio_drag_input = false;
    state.bluetooth_popup_open = false;
    state.network_popup_open = false;
    state.network_popup_open_pending = false;
    if follow {
        presentation::reconcile_menu_presentation_to_focus(state, registry);
    }
}

/// The presentation is waiting for a focus event, even for one that repeats the focused window.
pub open spec fn awaits_focus(s: StateView) -> bool {
    free_to_follow(s) && s.menu_presentation_needs_focus_reconciliation
}

/// A window has been focused of which nothing more is known.
pub open spec fn window_focused(
    s: StateView,
    registry: MenuRegistryView,
    window: Option<WindowId>,
) -> (StateView, bool) {
    if s.focused_window == window && !awaits_focus(s) {
        (s, false)
    } else {
        (window_taken(s, registry, window, None), true)
    }
}

pub(crate) fn focus_window(state: &mut State, registry: &MenuRegistry, window: Option<WindowId>) -> (r:
    bool)
    ensures
        (final(state).deep_view(), r) == window_focused(
            old(state).deep_view(),
            registry.deep_view(),
            window,
        ),
{
    let awaits = may_follow(state) && state.menu_presentation_needs_focus_reconciliation;
    if state.focused_window.same(&window) && !awaits {
        return false;
    }
    take_window(state, registry, window, None);
    true
}

/// A window of a known application has been focused.
pub open spec fn app_focused(
    s: StateView,
    registry: MenuRegistryView,
    window: Option<WindowId>,
    app_name: Option<Seq<char>>,
) -> (StateView, bool) {
    if s.focused_window == window && s.focused_app_name == app_name && !awaits_focus(s) {
        (s, false)
    } else {
        (window_taken(s, registry, window, app_name), true)
    }
}

pub(crate) fn focus_app(
    state: &mut State,
    registry: &MenuRegistry,
    window: Option<WindowId>,
    app_name: Option<String>,
) -> (r: bool)
    ensures
        (final(state).deep_view(), r) == app_focused(
            old(state).deep_view(),
            registry.deep_view(),
            window,
            app_name.deep_view(),
        ),
{
    let awaits = may_follow(state) && state.menu_presentation_needs_focus_reconciliation;
    if state.focused_window.same(&window) && state.focused_app_name.same(&app_name) && !awaits {
        return false;
    }
    take_window(state, registry, window, app_name);
    true
}

/// The presented menu is the one to show for its window.
pub open spec fn presentation_registered(s: StateView, registry: MenuRegistryView) -> bool {
    s.menu_presentation matches Some(p) && menu::active_source(registry, Some(p.window_id)) == Some(
        p.endpoint,
    )
}

/// The presented menu has been pinned to the focused workspace, where there is one with a name.
pub open spec fn pinned(s: StateView, registry: MenuRegistryView) -> (StateView, bool) {
    match s.focused_workspace {
        Some(workspace) => if presentation_registered(s, registry) && workspace.len() > 0
            && presentation::follows_focus(s) {
            (
                StateView {
                    menu_presentation_policy: MenuPresentationPolicyView::Pinned { workspace },
                    ..s
                },
                true,
            )
        } else {
            (s, false)
        },
        None => (s, false),
    }
}

pub(crate) fn pin(state: &mut State, registry: &MenuRegistry) -> (r: bool)
    ensures
        (final(state).deep_view(), r) == pinned(old(state).deep_view(), registry.deep_view()),
{
    let registered = match &state.menu_presentation {
        Some(p) => registry.source_matches(p.window_id, &p.endpoint),
        None => false,
    };
    let workspace = match &state.focused_workspace {
        Some(workspace) => workspace.dup(),
        None => {
            return false;
        },
    };
    if registered && !workspace.as_str().is_empty() && presentation::presentation_follows_focus(
        state,
    ) {
        state.menu_presentation_policy = MenuPresentationPolicy::Pinned { workspace };
        true
    } else {
        false
    }
}

/// The presented menu has been unpinned: navigation ends and the menu of the focused window is
/// presented.
pub open spec fn pin_released(s: StateView, registry: MenuRegistryView) -> (StateView, bool) {
    if presentation::follows_focus(s) {
        (s, false)
    } else {
        (presentation::unpinned(s, registry), true)
    }
}

pub(crate) fn unpin(state: &mut State, registry: &MenuRegistry) -> (r: bool)
    ensures
        (final(state).deep_view(), r) == pin_released(old(state).deep_view(), registry.deep_view()),
{
    if presentation::presentation_follows_focus(state) {
        return false;
    }
    presentation::end_pinned_presentation(state, registry);
    true
}

/// The pin of the presented menu has been set or released.
pub open spec fn pin_toggled(s: StateView, registry: MenuRegistryView) -> (StateView, bool) {
    if presentation::follows_focus(s) {
        pinned(s, registry)
    } else {
        pin_released(s, registry)
    }
}

pub(crate) fn toggle_pin(state: &mut State, registry: &MenuRegistry) -> (r: bool)
    ensures
        (final(state).deep_view(), r) == pin_toggled(old(state).deep_view(), registry.deep_view()),
{
    if presentation::presentation_follows_focus(state) {
        pin(state, registry)
    } else {
        unpin(state, registry)
    }
}

} // verus!
