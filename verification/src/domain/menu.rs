//! Menus as they are exported by applications: the item tree, where a menu lives and which window
//! it belongs to.
use vstd::prelude::*;

use crate::domain::state::WindowId;
use crate::table::Table;
use crate::value::Value;

verus! {

/// The number by which an application names one of its menu items.
#[derive(Clone, Copy, Debug, Eq, Hash, PartialEq, Structural)]
pub struct MenuItemId(pub i32);

impl DeepView for MenuItemId {
    type V = MenuItemId;

    open spec fn deep_view(&self) -> MenuItemId {
        *self
    }
}

impl Value for MenuItemId {
    fn same(&self, other: &Self) -> (r: bool) {
        *self == *other
    }

    fn dup(&self) -> (r: Self) {
        *self
    }
}

/// What kind of row a menu item is.
#[derive(Clone, Debug, Eq, PartialEq)]
pub enum MenuItemType {
    Standard,
    Separator,
    Unknown(String),
}

/// The model of a [`MenuItemType`].
#[verifier::ext_equal]
pub enum MenuItemTypeView {
    Standard,
    Separator,
    Unknown(Seq<char>),
}

impl DeepView for MenuItemType {
    type V = MenuItemTypeView;

    open spec fn deep_view(&self) -> MenuItemTypeView {
        match self {
            MenuItemType::Standard => MenuItemTypeView::Standard,
            MenuItemType::Separator => MenuItemTypeView::Separator,
            MenuItemType::Unknown(a) => MenuItemTypeView::Unknown(a.deep_view()),
        }
    }
}

impl Value for MenuItemType {
    fn same(&self, other: &Self) -> (r: bool) {
        match (self, other) {
            (MenuItemType::Standard, MenuItemType::Standard) => true,
            (MenuItemType::Separator, MenuItemType::Separator) => true,
            (MenuItemType::Unknown(a), MenuItemType::Unknown(u)) => a.same(u),
            _ => false,
        }
    }

    fn dup(&self) -> (r: Self) {
        match self {
            MenuItemType::Standard => MenuItemType::Standard,
            MenuItemType::Separator => MenuItemType::Separator,
            MenuItemType::Unknown(a) => MenuItemType::Unknown(a.dup()),
        }
    }
}

/// How the children of a menu item are shown.
#[derive(Clone, Debug, Eq, PartialEq)]
pub enum ChildrenDisplay {
    Submenu,
    Unknown(String),
}

/// The model of a [`ChildrenDisplay`].
#[verifier::ext_equal]
pub enum ChildrenDisplayView {
    Submenu,
    Unknown(Seq<char>),
}

impl DeepView for ChildrenDisplay {
    type V = ChildrenDisplayView;

    open spec fn deep_view(&self) -> ChildrenDisplayView {
        match self {
            ChildrenDisplay::Submenu => ChildrenDisplayView::Submenu,
            ChildrenDisplay::Unknown(a) => ChildrenDisplayView::Unknown(a.deep_view()),
        }
    }
}

impl Value for ChildrenDisplay {
    fn same(&self, other: &Self) -> (r: bool) {
        match (self, other) {
            (ChildrenDisplay::Submenu, ChildrenDisplay::Submenu) => true,
            (ChildrenDisplay::Unknown(a), ChildrenDisplay::Unknown(u)) => a.same(u),
            _ => false,
        }
    }

    fn dup(&self) -> (r: Self) {
        match self {
            ChildrenDisplay::Submenu => ChildrenDisplay::Submenu,
            ChildrenDisplay::Unknown(a) => ChildrenDisplay::Unknown(a.dup()),
        }
    }
}

/// The key combinations that trigger a menu item.
#[derive(Clone, Debug, Eq, PartialEq)]
pub struct MenuShortcut {
    pub keys: Vec<Vec<String>>,
}

/// The model of a [`MenuShortcut`].
#[verifier::ext_equal]
pub struct MenuShortcutView {
    pub keys: Seq<Seq<Seq<char>>>,
}

impl DeepView for MenuShortcut {
    type V = MenuShortcutView;

    open spec fn deep_view(&self) -> MenuShortcutView {
        MenuShortcutView {
            keys: self.keys.deep_view(),
        }
    }
}

impl Value for MenuShortcut {
    fn same(&self, other: &Self) -> (r: bool) {
        self.keys.same(&other.keys)
    }

    fn dup(&self) -> (r: Self) {
        MenuShortcut {
            keys: self.keys.dup(),
        }
    }
}

/// The parameter that an action is activated with.
#[derive(Clone, Debug, Eq, PartialEq)]
pub enum MenuActionTarget {
    String(String),
    Boolean(bool),
    Int32(i32),
    Uint32(u32),
}

/// The model of a [`MenuActionTarget`].
#[verifier::ext_equal]
pub enum MenuActionTargetView {
    String(Seq<char>),
    Boolean(bool),
    Int32(i32),
    Uint32(u32),
}

impl DeepView for MenuActionTarget {
    type V = MenuActionTargetView;

    open spec fn deep_view(&self) -> MenuActionTargetView {
        match self {
            MenuActionTarget::String(a) => MenuActionTargetView::String(a.deep_view()),
            MenuActionTarget::Boolean(a) => MenuActionTargetView::Boolean(*a),
            MenuActionTarget::Int32(a) => MenuActionTargetView::Int32(*a),
            MenuActionTarget::Uint32(a) => MenuActionTargetView::Uint32(*a),
        }
    }
}

impl Value for MenuActionTarget {
    fn same(&self, other: &Self) -> (r: bool) {
        match (self, other) {
            (MenuActionTarget::String(a), MenuActionTarget::String(u)) => a.same(u),
            (MenuActionTarget::Boolean(a), MenuActionTarget::Boolean(u)) => *a == *u,
            (MenuActionTarget::Int32(a), MenuActionTarget::Int32(u)) => *a == *u,
            (MenuActionTarget::Uint32(a), MenuActionTarget::Uint32(u)) => *a == *u,
            _ => false,
        }
    }

    fn dup(&self) -> (r: Self) {
        match self {
            MenuActionTarget::String(a) => MenuActionTarget::String(a.dup()),
            MenuActionTarget::Boolean(a) => MenuActionTarget::Boolean(*a),
            MenuActionTarget::Int32(a) => MenuActionTarget::Int32(*a),
            MenuActionTarget::Uint32(a) => MenuActionTarget::Uint32(*a),
        }
    }
}

/// A named action of an application.
#[derive(Clone, Debug, Eq, PartialEq)]
pub struct MenuAction {
    pub name: String,
    pub target: Option<MenuActionTarget>,
}

/// The model of a [`MenuAction`].
#[verifier::ext_equal]
pub struct MenuActionView {
    pub name: Seq<char>,
    pub target: Option<MenuActionTargetView>,
}

impl DeepView for MenuAction {
    type V = MenuActionView;

    open spec fn deep_view(&self) -> MenuActionView {
        MenuActionView {
            name: self.name.deep_view(),
            target: self.target.deep_view(),
        }
    }
}

impl Value for MenuAction {
    fn same(&self, other: &Self) -> (r: bool) {
        self.name.same(&other.name) && self.target.same(&other.target)
    }

    fn dup(&self) -> (r: Self) {
        MenuAction {
            name: self.name.dup(),
            target: self.target.dup(),
        }
    }
}

/// A node of a menu tree.
#[derive(Debug, Eq, PartialEq)]
pub struct MenuItem {
    pub id: MenuItemId,
    pub label: Option<String>,
    pub enabled: bool,
    pub visible: bool,
    pub item_type: MenuItemType,
    pub children_display: Option<ChildrenDisplay>,
    pub shortcut: Option<MenuShortcut>,
    pub icon_name: Option<String>,
    pub action: Option<MenuAction>,
    pub children: Vec<MenuItem>,
}

/// The model of a [`MenuItem`].
pub struct MenuItemView {
    pub id: MenuItemId,
    pub label: Option<Seq<char>>,
    pub enabled: bool,
    pub visible: bool,
    pub item_type: MenuItemTypeView,
    pub children_display: Option<ChildrenDisplayView>,
    pub shortcut: Option<MenuShortcutView>,
    pub icon_name: Option<Seq<char>>,
    pub action: Option<MenuActionView>,
    pub children: Seq<MenuItemView>,
}

/// The model of a [`MenuItem`], children included.
pub open spec fn item_view(item: MenuItem) -> MenuItemView
    decreases item,
{
    MenuItemView {
        id: item.id,
        label: item.label.deep_view(),
        enabled: item.enabled,
        visible: item.visible,
        item_type: item.item_type.deep_view(),
        children_display: item.children_display.deep_view(),
        shortcut: item.shortcut.deep_view(),
        icon_name: item.icon_name.deep_view(),
        action: item.action.deep_view(),
        children: Seq::new(
            item.children@.len(),
            |i: int|
                if 0 <= i < item.children@.len() {
                    item_view(item.children[i])
                } else {
                    arbitrary()
                },
        ),
    }
}

impl DeepView for MenuItem {
    type V = MenuItemView;

    open spec fn deep_view(&self) -> MenuItemView {
        item_view(*self)
    }
}

/// The model of an item holds the models of its children.
pub proof fn lemma_item_children(item: MenuItem)
    ensures
        item_view(item).children == item.children.deep_view(),
{
    assert(item_view(item).children =~= item.children.deep_view());
}

fn same_items(a: &Vec<MenuItem>, b: &Vec<MenuItem>) -> (r: bool)
    ensures
        r == (a.deep_view() == b.deep_view()),
    decreases a,
{
    if a.len() != b.len() {
        assert(a.deep_view().len() != b.deep_view().len());
        return false;
    }
    let mut i: usize = 0;
    while i < a.len()
        invariant
            i <= a.len(),
            a.len() == b.len(),
            forall|j: int| 0 <= j < i ==> a.deep_view()[j] == b.deep_view()[j],
        decreases a.len() - i,
    {
        if !same_item(&a[i], &b[i]) {
            assert(a.deep_view()[i as int] != b.deep_view()[i as int]);
            return false;
        }
        i += 1;
    }
    assert(a.deep_view() =~= b.deep_view());
    true
}

fn same_item(a: &MenuItem, b: &MenuItem) -> (r: bool)
    ensures
        r == (item_view(*a) == item_view(*b)),
    decreases a,
{
    proof {
        lemma_item_children(*a);
        lemma_item_children(*b);
    }
    a.id == b.id && a.label.same(&b.label) && a.enabled == b.enabled && a.visible == b.visible && a.item_type.same(&b.item_type) && a.children_display.same(&b.children_display) && a.shortcut.same(&b.shortcut) && a.icon_name.same(&b.icon_name) && a.action.same(&b.action) && same_items(&a.children, &b.children)
}

fn dup_items(items: &Vec<MenuItem>) -> (r: Vec<MenuItem>)
    ensures
        r.deep_view() == items.deep_view(),
    decreases items,
{
    let mut out: Vec<MenuItem> = Vec::new();
    let mut i: usize = 0;
    while i < items.len()
        invariant
            i <= items.len(),
            out.len() == i,
            forall|j: int| 0 <= j < i ==> item_view(#[trigger] out[j]) == item_view(items[j]),
        decreases items.len() - i,
    {
        out.push(dup_item(&items[i]));
        i += 1;
    }
    assert(out.deep_view() =~= items.deep_view());
    out
}

fn dup_item(item: &MenuItem) -> (r: MenuItem)
    ensures
        item_view(r) == item_view(*item),
    decreases item,
{
    let r = MenuItem {
        id: item.id,
        label: item.label.dup(),
        enabled: item.enabled,
        visible: item.visible,
        item_type: item.item_type.dup(),
        children_display: item.children_display.dup(),
        shortcut: item.shortcut.dup(),
        icon_name: item.icon_name.dup(),
        action: item.action.dup(),
        children: dup_items(&item.children),
    };
    proof {
        lemma_item_children(*item);
        lemma_item_children(r);
    }
    r
}

impl Clone for MenuItem {
    fn clone(&self) -> (r: Self)
        ensures
            r.deep_view() == self.deep_view(),
    {
        dup_item(self)
    }
}

impl Value for MenuItem {
    fn same(&self, other: &Self) -> (r: bool) {
        same_item(self, other)
    }

    fn dup(&self) -> (r: Self) {
        dup_item(self)
    }
}

/// A whole menu, as of one layout revision.
#[derive(Clone, Debug, Eq, PartialEq)]
pub struct MenuModel {
    pub revision: u32,
    pub root: MenuItem,
}

/// The model of a [`MenuModel`].
#[verifier::ext_equal]
pub struct MenuModelView {
    pub revision: u32,
    pub root: MenuItemView,
}

impl DeepView for MenuModel {
    type V = MenuModelView;

    open spec fn deep_view(&self) -> MenuModelView {
        MenuModelView {
            revision: self.revision,
            root: self.root.deep_view(),
        }
    }
}

impl Value for MenuModel {
    fn same(&self, other: &Self) -> (r: bool) {
        self.revision == other.revision && self.root.same(&other.root)
    }

    fn dup(&self) -> (r: Self) {
        MenuModel {
            revision: self.revision,
            root: self.root.dup(),
        }
    }
}

/// A new value for one property of a menu item.
#[derive(Clone, Debug, Eq, PartialEq)]
pub enum MenuPropertyUpdate {
    Label(Option<String>),
    Enabled(bool),
    Visible(bool),
    ItemType(MenuItemType),
    ChildrenDisplay(Option<ChildrenDisplay>),
    Shortcut(Option<MenuShortcut>),
    IconName(Option<String>),
}

/// The model of a [`MenuPropertyUpdate`].
#[verifier::ext_equal]
pub enum MenuPropertyUpdateView {
    Label(Option<Seq<char>>),
    Enabled(bool),
    Visible(bool),
    ItemType(MenuItemTypeView),
    ChildrenDisplay(Option<ChildrenDisplayView>),
    Shortcut(Option<MenuShortcutView>),
    IconName(Option<Seq<char>>),
}

impl DeepView for MenuPropertyUpdate {
    type V = MenuPropertyUpdateView;

    open spec fn deep_view(&self) -> MenuPropertyUpdateView {
        match self {
            MenuPropertyUpdate::Label(a) => MenuPropertyUpdateView::Label(a.deep_view()),
            MenuPropertyUpdate::Enabled(a) => MenuPropertyUpdateView::Enabled(*a),
            MenuPropertyUpdate::Visible(a) => MenuPropertyUpdateView::Visible(*a),
            MenuPropertyUpdate::ItemType(a) => MenuPropertyUpdateView::ItemType(a.deep_view()),
            MenuPropertyUpdate::ChildrenDisplay(a) => MenuPropertyUpdateView::ChildrenDisplay(a.deep_view()),
            MenuPropertyUpdate::Shortcut(a) => MenuPropertyUpdateView::Shortcut(a.deep_view()),
            MenuPropertyUpdate::IconName(a) => MenuPropertyUpdateView::IconName(a.deep_view()),
        }
    }
}

/// New values for properties of one menu item.
#[derive(Clone, Debug, Eq, PartialEq)]
pub struct MenuItemPropertiesUpdate {
    pub item_id: MenuItemId,
    pub properties: Vec<MenuPropertyUpdate>,
}

/// The model of a [`MenuItemPropertiesUpdate`].
#[verifier::ext_equal]
pub struct MenuItemPropertiesUpdateView {
    pub item_id: MenuItemId,
    pub properties: Seq<MenuPropertyUpdateView>,
}

impl DeepView for MenuItemPropertiesUpdate {
    type V = MenuItemPropertiesUpdateView;

    open spec fn deep_view(&self) -> MenuItemPropertiesUpdateView {
        MenuItemPropertiesUpdateView {
            item_id: self.item_id,
            properties: self.properties.deep_view(),
        }
    }
}

/// Where a menu is exported on the bus.
#[derive(Clone, Debug, Eq, Hash, PartialEq)]
pub struct MenuEndpoint {
    pub service: String,
    pub object_path: String,
}

/// The model of a [`MenuEndpoint`].
#[verifier::ext_equal]
pub struct MenuEndpointView {
    pub service: Seq<char>,
    pub object_path: Seq<char>,
}

impl DeepView for MenuEndpoint {
    type V = MenuEndpointView;

    open spec fn deep_view(&self) -> MenuEndpointView {
        MenuEndpointView {
            service: self.service.deep_view(),
            object_path: self.object_path.deep_view(),
        }
    }
}

impl Value for MenuEndpoint {
    fn same(&self, other: &Self) -> (r: bool) {
        self.service.same(&other.service) && self.object_path.same(&other.object_path)
    }

    fn dup(&self) -> (r: Self) {
        MenuEndpoint {
            service: self.service.dup(),
            object_path: self.object_path.dup(),
        }
    }
}

/// Where a menu model and the action groups it refers to are exported on the bus.
#[derive(Clone, Debug, Eq, Hash, PartialEq)]
pub struct GtkMenuEndpoint {
    pub bus_name: String,
    pub menu_object_path: String,
    pub actions_object_paths: Vec<String>,
}

/// The model of a [`GtkMenuEndpoint`].
#[verifier::ext_equal]
pub struct GtkMenuEndpointView {
    pub bus_name: Seq<char>,
    pub menu_object_path: Seq<char>,
    pub actions_object_paths: Seq<Seq<char>>,
}

impl DeepView for GtkMenuEndpoint {
    type V = GtkMenuEndpointView;

    open spec fn deep_view(&self) -> GtkMenuEndpointView {
        GtkMenuEndpointView {
            bus_name: self.bus_name.deep_view(),
            menu_object_path: self.menu_object_path.deep_view(),
            actions_object_paths: self.actions_object_paths.deep_view(),
        }
    }
}

impl Value for GtkMenuEndpoint {
    fn same(&self, other: &Self) -> (r: bool) {
        self.bus_name.same(&other.bus_name) && self.menu_object_path.same(&other.menu_object_path) && self.actions_object_paths.same(&other.actions_object_paths)
    }

    fn dup(&self) -> (r: Self) {
        GtkMenuEndpoint {
            bus_name: self.bus_name.dup(),
            menu_object_path: self.menu_object_path.dup(),
            actions_object_paths: self.actions_object_paths.dup(),
        }
    }
}

/// Where a menu comes from.
#[derive(Clone, Debug, Eq, Hash, PartialEq)]
pub enum MenuSource {
    DbusMenu(MenuEndpoint),
    GtkGMenu(GtkMenuEndpoint),
    Tray(MenuEndpoint),
}

/// The model of a [`MenuSource`].
#[verifier::ext_equal]
pub enum MenuSourceView {
    DbusMenu(MenuEndpointView),
    GtkGMenu(GtkMenuEndpointView),
    Tray(MenuEndpointView),
}

impl DeepView for MenuSource {
    type V = MenuSourceView;

    open spec fn deep_view(&self) -> MenuSourceView {
        match self {
            MenuSource::DbusMenu(a) => MenuSourceView::DbusMenu(a.deep_view()),
            MenuSource::GtkGMenu(a) => MenuSourceView::GtkGMenu(a.deep_view()),
            MenuSource::Tray(a) => MenuSourceView::Tray(a.deep_view()),
        }
    }
}

impl Value for MenuSource {
    fn same(&self, other: &Self) -> (r: bool) {
        match (self, other) {
            (MenuSource::DbusMenu(a), MenuSource::DbusMenu(u)) => a.same(u),
            (MenuSource::GtkGMenu(a), MenuSource::GtkGMenu(u)) => a.same(u),
            (MenuSource::Tray(a), MenuSource::Tray(u)) => a.same(u),
            _ => false,
        }
    }

    fn dup(&self) -> (r: Self) {
        match self {
            MenuSource::DbusMenu(a) => MenuSource::DbusMenu(a.dup()),
            MenuSource::GtkGMenu(a) => MenuSource::GtkGMenu(a.dup()),
            MenuSource::Tray(a) => MenuSource::Tray(a.dup()),
        }
    }
}

/// The menus known for a window: the one that its application registered, which the sender of the
/// registration serves, and the one that was discovered.
#[derive(Clone, Debug, Eq, PartialEq)]
pub struct WindowMenuSources {
    pub dbus: Option<MenuEndpoint>,
    pub gtk: Option<GtkMenuEndpoint>,
}

/// The model of [`WindowMenuSources`].
#[verifier::ext_equal]
pub struct WindowMenuSourcesView {
    pub dbus: Option<MenuEndpointView>,
    pub gtk: Option<GtkMenuEndpointView>,
}

impl DeepView for WindowMenuSources {
    type V = WindowMenuSourcesView;

    open spec fn deep_view(&self) -> WindowMenuSourcesView {
        WindowMenuSourcesView { dbus: self.dbus.deep_view(), gtk: self.gtk.deep_view() }
    }
}

impl Value for WindowMenuSources {
    fn same(&self, other: &Self) -> (r: bool) {
        self.dbus.same(&other.dbus) && self.gtk.same(&other.gtk)
    }

    fn dup(&self) -> (r: Self) {
        WindowMenuSources { dbus: self.dbus.dup(), gtk: self.gtk.dup() }
    }
}

/// The model of a [`MenuRegistry`]: the menus of each window that has any.
pub type MenuRegistryView = Map<WindowId, WindowMenuSourcesView>;

/// The menus known for a window, none where the window is not in the registry.
pub open spec fn sources_of(registry: MenuRegistryView, window: WindowId) -> WindowMenuSourcesView {
    if registry.contains_key(window) {
        registry[window]
    } else {
        WindowMenuSourcesView { dbus: None, gtk: None }
    }
}

/// A registry with the menus of one window replaced; a window without menus is left out.
pub open spec fn with_sources(
    registry: MenuRegistryView,
    window: WindowId,
    sources: WindowMenuSourcesView,
) -> MenuRegistryView {
    if sources.dbus is None && sources.gtk is None {
        registry.remove(window)
    } else {
        registry.insert(window, sources)
    }
}

/// Every window in the registry has a menu.
pub open spec fn no_empty_window(registry: MenuRegistryView) -> bool {
    forall|w: WindowId| #[trigger]
        registry.contains_key(w) ==> registry[w].dbus is Some || registry[w].gtk is Some
}

/// The endpoint that is registered for a window.
pub open spec fn registered(registry: MenuRegistryView, window: WindowId) -> Option<
    MenuEndpointView,
> {
    sources_of(registry, window).dbus
}

/// A registry in which a menu is the registered one of a window.
pub open spec fn with_registered(
    registry: MenuRegistryView,
    window: WindowId,
    endpoint: MenuEndpointView,
) -> MenuRegistryView {
    registry.insert(
        window,
        WindowMenuSourcesView {
            dbus: Some(endpoint),
            gtk: sources_of(registry, window).gtk,
        },
    )
}

/// A registry in which a menu is the discovered one of a window.
pub open spec fn with_discovered(
    registry: MenuRegistryView,
    window: WindowId,
    endpoint: GtkMenuEndpointView,
) -> MenuRegistryView {
    registry.insert(
        window,
        WindowMenuSourcesView {
            dbus: sources_of(registry, window).dbus,
            gtk: Some(endpoint),
        },
    )
}

/// A registry without the registered menu of a window.
pub open spec fn without_registered(registry: MenuRegistryView, window: WindowId) -> MenuRegistryView {
    with_sources(
        registry,
        window,
        WindowMenuSourcesView { dbus: None, gtk: sources_of(registry, window).gtk },
    )
}

/// A registry without the discovered menu of a window.
pub open spec fn without_discovered(registry: MenuRegistryView, window: WindowId) -> MenuRegistryView {
    with_sources(
        registry,
        window,
        WindowMenuSourcesView { dbus: sources_of(registry, window).dbus, gtk: None },
    )
}

/// The menu to show for a window: the registered one, or else the discovered one.
pub open spec fn active_source(registry: MenuRegistryView, window: Option<WindowId>) -> Option<
    MenuSourceView,
> {
    match window {
        Some(w) => match sources_of(registry, w).dbus {
            Some(endpoint) => Some(MenuSourceView::DbusMenu(endpoint)),
            None => match sources_of(registry, w).gtk {
                Some(endpoint) => Some(MenuSourceView::GtkGMenu(endpoint)),
                None => None,
            },
        },
        None => None,
    }
}

/// Whether any menu of a window belongs to the given bus name.
pub open spec fn owned_by(sources: WindowMenuSourcesView, owner: Seq<char>) -> bool {
    ||| sources.dbus matches Some(endpoint) && endpoint.service == owner
    ||| sources.gtk matches Some(endpoint) && endpoint.bus_name == owner
}

/// The menus of a window without those of the given bus name.
pub open spec fn without_owner(
    sources: WindowMenuSourcesView,
    owner: Seq<char>,
) -> WindowMenuSourcesView {
    WindowMenuSourcesView {
        dbus: match sources.dbus {
            Some(endpoint) => if endpoint.service == owner {
                None
            } else {
                Some(endpoint)
            },
            None => None,
        },
        gtk: match sources.gtk {
            Some(endpoint) => if endpoint.bus_name == owner {
                None
            } else {
                Some(endpoint)
            },
            None => None,
        },
    }
}

/// A registry without the menus of the given bus name.
pub open spec fn registry_without_owner(
    registry: MenuRegistryView,
    owner: Seq<char>,
) -> MenuRegistryView {
    Map::new(
        |w: WindowId|
            registry.contains_key(w) && (owned_by(registry[w], owner) ==> {
                let left = without_owner(registry[w], owner);
                left.dbus is Some || left.gtk is Some
            }),
        |w: WindowId| without_owner(registry[w], owner),
    )
}

/// Whether a window has a menu of the given bus name.
pub open spec fn window_owned_by(
    registry: MenuRegistryView,
    window: WindowId,
    owner: Seq<char>,
) -> bool {
    registry.contains_key(window) && owned_by(registry[window], owner)
}

/// Window ids in ascending order, none twice.
pub open spec fn ascending(windows: Seq<WindowId>) -> bool {
    forall|i: int, j: int| 0 <= i < j < windows.len() ==> windows[i].0 < windows[j].0
}

fn insert_ascending(windows: &mut Vec<WindowId>, window: WindowId)
    requires
        ascending(old(windows)@),
        !old(windows)@.contains(window),
    ensures
        ascending(final(windows)@),
        forall|w: WindowId|
            final(windows)@.contains(w) <==> old(windows)@.contains(w) || w == window,
{
    let ghost before = windows@;
    let mut at: usize = 0;
    while at < windows.len() && windows[at].0 < window.0
        invariant
            at <= windows.len(),
            windows@ == before,
            forall|i: int| 0 <= i < at ==> before[i].0 < window.0,
        decreases windows.len() - at,
    {
        at += 1;
    }
    assert(at < before.len() ==> before[at as int] != window);
    windows.insert(at, window);
    let ghost after = before.insert(at as int, window);
    assert forall|w: WindowId| windows@.contains(w) <==> before.contains(w) || w == window by {
        if before.contains(w) {
            let i = choose|i: int| 0 <= i < before.len() && before[i] == w;
            assert(after[if i < at { i } else { i + 1 }] == w);
        }
        if w == window {
            assert(after[at as int] == w);
        }
        if after.contains(w) && w != window {
            let i = choose|i: int| 0 <= i < after.len() && after[i] == w;
            assert(before[if i < at { i } else { i - 1 }] == w);
        }
    }
}

/// Knows which menus belong to which window.
#[derive(Clone, Debug, Eq, PartialEq)]
pub struct MenuRegistry {
    by_window: Table<WindowId, WindowMenuSources>,
}

impl DeepView for MenuRegistry {
    type V = MenuRegistryView;

    closed spec fn deep_view(&self) -> MenuRegistryView {
        self.by_window.deep_view()
    }
}

impl Default for MenuRegistry {
    fn default() -> (r: Self)
        ensures
            r.deep_view() == MenuRegistryView::empty(),
            no_empty_window(r.deep_view()),
    {
        MenuRegistry { by_window: Table::new() }
    }
}

impl MenuRegistry {
    fn sources(&self, window_id: WindowId) -> (r: WindowMenuSources)
        ensures
            r.deep_view() == sources_of(self.deep_view(), window_id),
    {
        match self.by_window.get(&window_id) {
            Some(sources) => sources.dup(),
            None => WindowMenuSources { dbus: None, gtk: None },
        }
    }

    fn set_sources(&mut self, window_id: WindowId, sources: WindowMenuSources)
        ensures
            final(self).deep_view() == with_sources(
                old(self).deep_view(),
                window_id,
                sources.deep_view(),
            ),
            no_empty_window(old(self).deep_view()) ==> no_empty_window(final(self).deep_view()),
    {
        if sources.dbus.is_none() && sources.gtk.is_none() {
            self.by_window.remove(&window_id);
        } else {
            self.by_window.insert(window_id, sources);
        }
    }

    /// Makes a menu the registered one of a window.
    pub fn register(&mut self, window_id: WindowId, sender: String, object_path: String)
        ensures
            final(self).deep_view() == with_registered(
                old(self).deep_view(),
                window_id,
                (MenuEndpointView { service: sender@, object_path: object_path@ }),
            ),
            no_empty_window(old(self).deep_view()) ==> no_empty_window(final(self).deep_view()),
    {
        let gtk = self.sources(window_id).gtk;
        let endpoint = MenuEndpoint { service: sender, object_path };
        self.set_sources(window_id, WindowMenuSources { dbus: Some(endpoint), gtk });
    }

    /// Makes a menu the discovered one of a window.
    pub fn register_gtk(&mut self, window_id: WindowId, endpoint: GtkMenuEndpoint)
        ensures
            final(self).deep_view() == with_discovered(
                old(self).deep_view(),
                window_id,
                endpoint.deep_view(),
            ),
            no_empty_window(old(self).deep_view()) ==> no_empty_window(final(self).deep_view()),
    {
        let dbus = self.sources(window_id).dbus;
        self.set_sources(window_id, WindowMenuSources { dbus, gtk: Some(endpoint) });
    }

    /// Forgets the registered menu of a window, and returns where it was.
    pub fn unregister(&mut self, window_id: WindowId) -> (r: Option<MenuEndpoint>)
        ensures
            final(self).deep_view() == without_registered(old(self).deep_view(), window_id),
            r.deep_view() == registered(old(self).deep_view(), window_id),
            no_empty_window(old(self).deep_view()) ==> no_empty_window(final(self).deep_view()),
    {
        let sources = self.sources(window_id);
        self.set_sources(window_id, WindowMenuSources { dbus: None, gtk: sources.gtk });
        sources.dbus
    }

    /// The registered menu of a window.
    pub fn get(&self, window_id: WindowId) -> (r: Option<&MenuEndpoint>)
        ensures
            r.deep_view() == registered(self.deep_view(), window_id),
    {
        match self.by_window.get(&window_id) {
            Some(sources) => sources.dbus.as_ref(),
            None => None,
        }
    }

    /// The discovered menu of a window.
    pub fn gtk(&self, window_id: WindowId) -> (r: Option<&GtkMenuEndpoint>)
        ensures
            r.deep_view() == sources_of(self.deep_view(), window_id).gtk,
    {
        match self.by_window.get(&window_id) {
            Some(sources) => sources.gtk.as_ref(),
            None => None,
        }
    }

    /// Forgets the discovered menu of a window, and returns whether there was one.
    pub fn remove_gtk(&mut self, window_id: WindowId) -> (r: bool)
        ensures
            final(self).deep_view() == without_discovered(old(self).deep_view(), window_id),
            r == (sources_of(old(self).deep_view(), window_id).gtk is Some),
            no_empty_window(old(self).deep_view()) ==> no_empty_window(final(self).deep_view()),
    {
        let sources = self.sources(window_id);
        let removed = sources.gtk.is_some();
        self.set_sources(window_id, WindowMenuSources { dbus: sources.dbus, gtk: None });
        removed
    }

    /// Forgets all menus of a bus name, and returns the windows that had one, in ascending order.
    pub fn remove_sender(&mut self, sender: &str) -> (r: Vec<WindowId>)
        ensures
            final(self).deep_view() == registry_without_owner(old(self).deep_view(), sender@),
            ascending(r@),
            forall|w: WindowId| #[trigger]
                r@.contains(w) <==> window_owned_by(old(self).deep_view(), w, sender@),
            forall|w: WindowId| #[trigger]
                registered(final(self).deep_view(), w) == (match registered(
                    old(self).deep_view(),
                    w,
                ) {
                    Some(endpoint) if endpoint.service != sender@ => Some(endpoint),
                    _ => None,
                }),
            no_empty_window(old(self).deep_view()) ==> no_empty_window(final(self).deep_view()),
    {
        let owner = sender.to_owned();
        let ghost before = self.deep_view();
        let mut removed: Vec<WindowId> = Vec::new();
        let keys = self.by_window.keys();
        let mut i: usize = 0;
        while i < keys.len()
            invariant
                i <= keys.len(),
                owner@ == sender@,
                forall|w: WindowId| #[trigger]
                    keys.deep_view().contains(w) <==> before.contains_key(w),
                ascending(removed@),
                forall|w: WindowId| #[trigger]
                    removed@.contains(w) <==> keys@.take(i as int).contains(w) && owned_by(
                        before[w],
                        owner@,
                    ),
                forall|w: WindowId| #[trigger]
                    sources_of(self.deep_view(), w) == (if keys@.take(i as int).contains(w) {
                        without_owner(before[w], owner@)
                    } else {
                        sources_of(before, w)
                    }),
                forall|w: WindowId| #[trigger]
                    self.deep_view().contains_key(w) <==> before.contains_key(w) && (keys@.take(
                        i as int,
                    ).contains(w) && owned_by(before[w], owner@) ==> {
                        let left = without_owner(before[w], owner@);
                        left.dbus is Some || left.gtk is Some
                    }),
            decreases keys.len() - i,
        {
            let window_id = keys[i];
            let ghost seen = keys@.take(i as int);
            let ghost now = self.deep_view();
            assert(keys@.take(i + 1) =~= seen.push(window_id));
            assert(keys.deep_view()[i as int] == window_id);
            assert(keys.deep_view().contains(window_id));
            assert(before.contains_key(window_id));
            assert forall|w: WindowId| #[trigger]
                seen.push(window_id).contains(w) <==> seen.contains(w) || w == window_id by {
                if seen.contains(w) {
                    let j = choose|j: int| 0 <= j < seen.len() && seen[j] == w;
                    assert(seen.push(window_id)[j] == w);
                }
                assert(seen.push(window_id)[i as int] == window_id);
            }
            let sources = self.sources(window_id);
            let dbus_removed = match &sources.dbus {
                Some(endpoint) => endpoint.service.same(&owner),
                None => false,
            };
            let gtk_removed = match &sources.gtk {
                Some(endpoint) => endpoint.bus_name.same(&owner),
                None => false,
            };
            if dbus_removed || gtk_removed {
                let dbus = if dbus_removed {
                    None
                } else {
                    sources.dbus.dup()
                };
                let gtk = if gtk_removed {
                    None
                } else {
                    sources.gtk.dup()
                };
                insert_ascending(&mut removed, window_id);
                self.set_sources(window_id, WindowMenuSources { dbus, gtk });
            }
            assert(sources_of(self.deep_view(), window_id) == without_owner(
                sources_of(now, window_id),
                owner@,
            ));
            assert forall|w: WindowId| #[trigger]
                sources_of(self.deep_view(), w) == (if seen.push(window_id).contains(w) {
                    without_owner(before[w], owner@)
                } else {
                    sources_of(before, w)
                }) by {
                assert(w != window_id ==> sources_of(self.deep_view(), w) == sources_of(now, w));
            }
            i += 1;
        }
        assert(keys@.take(i as int) =~= keys@);
        assert(keys.deep_view() =~= keys@);
        assert forall|w: WindowId| self.deep_view().contains_key(w) implies #[trigger] self.deep_view()[w]
            == without_owner(before[w], owner@) by {
            assert(sources_of(self.deep_view(), w) == self.deep_view()[w]);
            assert(keys.deep_view().contains(w));
        }
        assert(self.deep_view() =~= registry_without_owner(before, owner@));
        removed
    }

    /// The menu to show for the focused window. A registered menu goes before a discovered one.
    pub fn active(&self, focused_window: Option<WindowId>) -> (r: Option<MenuSource>)
        ensures
            r.deep_view() == active_source(self.deep_view(), focused_window),
    {
        let window_id = match focused_window {
            Some(window_id) => window_id,
            None => {
                return None;
            },
        };
        match self.by_window.get(&window_id) {
            Some(sources) => match &sources.dbus {
                Some(endpoint) => Some(MenuSource::DbusMenu(endpoint.dup())),
                None => match &sources.gtk {
                    Some(endpoint) => Some(MenuSource::GtkGMenu(endpoint.dup())),
                    None => None,
                },
            },
            None => None,
        }
    }

    /// Whether a source is the one to show for a window.
    pub fn source_matches(&self, window_id: WindowId, source: &MenuSource) -> (r: bool)
        ensures
            r == (active_source(self.deep_view(), Some(window_id)) == Some(source.deep_view())),
    {
        match self.active(Some(window_id)) {
            Some(active) => active.same(source),
            None => false,
        }
    }

    /// Forgets the discovered menu of a window if it is the given one, and returns whether it was.
    pub fn remove_gtk_if_matches(
        &mut self,
        window_id: WindowId,
        endpoint: &GtkMenuEndpoint,
    ) -> (r: bool)
        ensures
            r == (sources_of(old(self).deep_view(), window_id).gtk == Some(endpoint.deep_view())),
            final(self).deep_view() == (if r {
                without_discovered(old(self).deep_view(), window_id)
            } else {
                old(self).deep_view()
            }),
            no_empty_window(old(self).deep_view()) ==> no_empty_window(final(self).deep_view()),
    {
        let matches = match self.gtk(window_id) {
            Some(current) => current.same(endpoint),
            None => false,
        };
        matches && self.remove_gtk(window_id)
    }
}

/// A registered menu is the one to show, whatever was discovered; other windows keep their menus.
pub proof fn lemma_registered_menu_leads(
    registry: MenuRegistryView,
    window: WindowId,
    endpoint: MenuEndpointView,
    other: WindowId,
)
    ensures
        ({
            let after = with_registered(registry, window, endpoint);
            &&& active_source(after, Some(window)) == Some(MenuSourceView::DbusMenu(endpoint))
            &&& sources_of(after, window).gtk == sources_of(registry, window).gtk
            &&& other != window ==> sources_of(after, other) == sources_of(registry, other)
        }),
{
}

/// A discovered menu is shown only as long as none is registered.
pub proof fn lemma_discovered_menu_waits(
    registry: MenuRegistryView,
    window: WindowId,
    endpoint: GtkMenuEndpointView,
)
    ensures
        active_source(with_discovered(registry, window, endpoint), Some(window)) == (
        match registered(registry, window) {
            Some(menu) => Some(MenuSourceView::DbusMenu(menu)),
            None => Some(MenuSourceView::GtkGMenu(endpoint)),
        }),
{
}

/// Once the registered menu is gone, the discovered one is shown.
pub proof fn lemma_unregistered_falls_back(registry: MenuRegistryView, window: WindowId)
    ensures
        active_source(without_registered(registry, window), Some(window)) == (
        match sources_of(registry, window).gtk {
            Some(endpoint) => Some(MenuSourceView::GtkGMenu(endpoint)),
            None => None,
        }),
{
}

/// To forget a menu right after it was registered for a window without one brings the registry
/// back.
pub proof fn lemma_unregister_undoes_register(
    registry: MenuRegistryView,
    window: WindowId,
    endpoint: MenuEndpointView,
)
    requires
        no_empty_window(registry),
        registered(registry, window) is None,
    ensures
        without_registered(with_registered(registry, window, endpoint), window) == registry,
{
    assert(without_registered(with_registered(registry, window, endpoint), window) =~= registry);
}

/// A bus name that is gone has no menu left, and the menus of others stay.
pub proof fn lemma_gone_owner_has_no_menu(
    registry: MenuRegistryView,
    owner: Seq<char>,
    window: WindowId,
)
    ensures
        ({
            let after = registry_without_owner(registry, owner);
            let before = sources_of(registry, window);
            let left = sources_of(after, window);
            &&& !window_owned_by(after, window, owner)
            &&& window_owned_by(registry, window, owner) <==> (registered(registry, window) matches Some(
                endpoint,
            ) && endpoint.service == owner) || (before.gtk matches Some(endpoint)
                && endpoint.bus_name == owner)
            &&& registered(after, window) == left.dbus
            &&& left.dbus == (match before.dbus {
                Some(endpoint) if endpoint.service != owner => Some(endpoint),
                _ => None,
            })
            &&& left.gtk == (match before.gtk {
                Some(endpoint) if endpoint.bus_name != owner => Some(endpoint),
                _ => None,
            })
        }),
{
}

} // verus!
