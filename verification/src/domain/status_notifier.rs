//! Tray icons: the items that applications register and what the bar asks of them.
use vstd::prelude::*;
use vstd::string::*;

use crate::domain::menu::{MenuEndpoint, MenuEndpointView};
use crate::lists;
use crate::seqs;
use crate::text;
use crate::value::Value;

verus! {

/// Where a tray item is exported on the bus.
#[derive(Clone, Debug, Eq, Hash, PartialEq)]
pub struct StatusNotifierEndpoint {
    pub service: String,
    pub object_path: String,
}

/// The model of a [`StatusNotifierEndpoint`].
#[verifier::ext_equal]
pub struct StatusNotifierEndpointView {
    pub service: Seq<char>,
    pub object_path: Seq<char>,
}

impl DeepView for StatusNotifierEndpoint {
    type V = StatusNotifierEndpointView;

    open spec fn deep_view(&self) -> StatusNotifierEndpointView {
        StatusNotifierEndpointView {
            service: self.service.deep_view(),
            object_path: self.object_path.deep_view(),
        }
    }
}

impl Value for StatusNotifierEndpoint {
    fn same(&self, other: &Self) -> (r: bool) {
        self.service.same(&other.service) && self.object_path.same(&other.object_path)
    }

    fn dup(&self) -> (r: Self) {
        StatusNotifierEndpoint {
            service: self.service.dup(),
            object_path: self.object_path.dup(),
        }
    }
}

/// How much a tray item wants to be seen.
#[derive(Clone, Copy, Debug, Eq, PartialEq, Structural)]
pub enum StatusNotifierStatus {
    Passive,
    Active,
    NeedsAttention,
}

impl DeepView for StatusNotifierStatus {
    type V = StatusNotifierStatus;

    open spec fn deep_view(&self) -> StatusNotifierStatus {
        *self
    }
}

impl Value for StatusNotifierStatus {
    fn same(&self, other: &Self) -> (r: bool) {
        *self == *other
    }

    fn dup(&self) -> (r: Self) {
        *self
    }
}

/// What a click or a turn of the wheel asks of a tray item.
#[derive(Clone, Copy, Debug, Eq, PartialEq)]
pub enum StatusNotifierAction {
    Activate,
    SecondaryActivate,
    ContextMenu,
    Scroll { delta: i32, orientation: &'static str },
}

/// The model of a [`StatusNotifierAction`].
#[verifier::ext_equal]
pub enum StatusNotifierActionView {
    Activate,
    SecondaryActivate,
    ContextMenu,
    Scroll { delta: i32, orientation: Seq<char> },
}

impl DeepView for StatusNotifierAction {
    type V = StatusNotifierActionView;

    open spec fn deep_view(&self) -> StatusNotifierActionView {
        match self {
            StatusNotifierAction::Activate => StatusNotifierActionView::Activate,
            StatusNotifierAction::SecondaryActivate => StatusNotifierActionView::SecondaryActivate,
            StatusNotifierAction::ContextMenu => StatusNotifierActionView::ContextMenu,
            StatusNotifierAction::Scroll { delta, orientation } => StatusNotifierActionView::Scroll {
                delta: *delta,
                orientation: orientation@,
            },
        }
    }
}

/// The picture of a tray item.
#[derive(Clone, Debug, Eq, PartialEq)]
pub enum StatusNotifierIcon {
    Pixmap { width: u16, height: u16, argb: Vec<u32> },
}

/// The model of a [`StatusNotifierIcon`].
#[verifier::ext_equal]
pub enum StatusNotifierIconView {
    Pixmap { width: u16, height: u16, argb: Seq<u32> },
}

impl DeepView for StatusNotifierIcon {
    type V = StatusNotifierIconView;

    open spec fn deep_view(&self) -> StatusNotifierIconView {
        match self {
            StatusNotifierIcon::Pixmap { width, height, argb } => StatusNotifierIconView::Pixmap { width: *width, height: *height, argb: argb.deep_view() },
        }
    }
}

impl Value for StatusNotifierIcon {
    fn same(&self, other: &Self) -> (r: bool) {
        match (self, other) {
            (StatusNotifierIcon::Pixmap { width: a_width, height: a_height, argb: a_argb }, StatusNotifierIcon::Pixmap { width: b_width, height: b_height, argb: b_argb }) => *a_width == *b_width && *a_height == *b_height && a_argb.same(b_argb),
        }
    }

    fn dup(&self) -> (r: Self) {
        match self {
            StatusNotifierIcon::Pixmap { width, height, argb } => StatusNotifierIcon::Pixmap { width: *width, height: *height, argb: argb.dup() },
        }
    }
}

/// A tray item as last reported.
#[derive(Clone, Debug, Eq, PartialEq)]
pub struct StatusNotifierItem {
    pub endpoint: StatusNotifierEndpoint,
    pub status: StatusNotifierStatus,
    pub icon: Option<StatusNotifierIcon>,
    pub icon_name: Option<String>,
    pub attention_icon_name: Option<String>,
    pub item_is_menu: bool,
    pub menu: Option<MenuEndpoint>,
}

/// The model of a [`StatusNotifierItem`].
#[verifier::ext_equal]
pub struct StatusNotifierItemView {
    pub endpoint: StatusNotifierEndpointView,
    pub status: StatusNotifierStatus,
    pub icon: Option<StatusNotifierIconView>,
    pub icon_name: Option<Seq<char>>,
    pub attention_icon_name: Option<Seq<char>>,
    pub item_is_menu: bool,
    pub menu: Option<MenuEndpointView>,
}

impl DeepView for StatusNotifierItem {
    type V = StatusNotifierItemView;

    open spec fn deep_view(&self) -> StatusNotifierItemView {
        StatusNotifierItemView {
            endpoint: self.endpoint.deep_view(),
            status: self.status,
            icon: self.icon.deep_view(),
            icon_name: self.icon_name.deep_view(),
            attention_icon_name: self.attention_icon_name.deep_view(),
            item_is_menu: self.item_is_menu,
            menu: self.menu.deep_view(),
        }
    }
}

impl Value for StatusNotifierItem {
    fn same(&self, other: &Self) -> (r: bool) {
        self.endpoint.same(&other.endpoint) && self.status == other.status && self.icon.same(&other.icon) && self.icon_name.same(&other.icon_name) && self.attention_icon_name.same(&other.attention_icon_name) && self.item_is_menu == other.item_is_menu && self.menu.same(&other.menu)
    }

    fn dup(&self) -> (r: Self) {
        StatusNotifierItem {
            endpoint: self.endpoint.dup(),
            status: self.status,
            icon: self.icon.dup(),
            icon_name: self.icon_name.dup(),
            attention_icon_name: self.attention_icon_name.dup(),
            item_is_menu: self.item_is_menu,
            menu: self.menu.dup(),
        }
    }
}

/// The registered tray items, in the order in which they were registered.
#[derive(Clone, Debug, Eq, PartialEq)]
pub struct StatusNotifierRegistry {
    endpoints: Vec<StatusNotifierEndpoint>,
}

impl DeepView for StatusNotifierRegistry {
    type V = Seq<StatusNotifierEndpointView>;

    closed spec fn deep_view(&self) -> Seq<StatusNotifierEndpointView> {
        self.endpoints.deep_view()
    }
}

impl Default for StatusNotifierRegistry {
    fn default() -> (r: Self)
        ensures
            r.deep_view() == Seq::<StatusNotifierEndpointView>::empty(),
    {
        let r = StatusNotifierRegistry { endpoints: Vec::new() };
        assert(r.endpoints.deep_view() =~= Seq::<StatusNotifierEndpointView>::empty());
        r
    }
}

/// Where an endpoint stands among the registered ones.
pub open spec fn endpoint_index(
    endpoints: Seq<StatusNotifierEndpointView>,
    endpoint: StatusNotifierEndpointView,
) -> Option<int> {
    seqs::position_in(endpoints, endpoint)
}

/// The endpoints with one more, unless it is among them already.
pub open spec fn with_endpoint(
    endpoints: Seq<StatusNotifierEndpointView>,
    endpoint: StatusNotifierEndpointView,
) -> Seq<StatusNotifierEndpointView> {
    if endpoints.contains(endpoint) {
        endpoints
    } else {
        endpoints.push(endpoint)
    }
}

/// The endpoints without one of them.
pub open spec fn without_endpoint(
    endpoints: Seq<StatusNotifierEndpointView>,
    endpoint: StatusNotifierEndpointView,
) -> Seq<StatusNotifierEndpointView> {
    match endpoint_index(endpoints, endpoint) {
        Some(i) => endpoints.remove(i),
        None => endpoints,
    }
}

impl StatusNotifierRegistry {
    /// Registers an endpoint, and returns whether it is new.
    pub fn register(&mut self, endpoint: StatusNotifierEndpoint) -> (r: bool)
        ensures
            final(self).deep_view() == with_endpoint(old(self).deep_view(), endpoint.deep_view()),
            r == !old(self).deep_view().contains(endpoint.deep_view()),
    {
        if lists::contains(&self.endpoints, &endpoint) {
            false
        } else {
            lists::push(&mut self.endpoints, endpoint);
            true
        }
    }

    /// Forgets an endpoint, and returns whether it was registered.
    pub fn unregister(&mut self, endpoint: &StatusNotifierEndpoint) -> (r: bool)
        ensures
            final(self).deep_view() == without_endpoint(
                old(self).deep_view(),
                endpoint.deep_view(),
            ),
            r == old(self).deep_view().contains(endpoint.deep_view()),
    {
        match lists::position(&self.endpoints, endpoint) {
            Some(i) => {
                assert(self.endpoints.deep_view()[i as int] == endpoint.deep_view());
                lists::remove(&mut self.endpoints, i);
                true
            },
            None => false,
        }
    }

    /// Forgets the endpoints of a service, and returns them in order.
    pub fn remove_service(&mut self, service: &str) -> (r: Vec<StatusNotifierEndpoint>)
        ensures
            final(self).deep_view() == old(self).deep_view().filter(
                |e: StatusNotifierEndpointView| e.service != service@,
            ),
            r.deep_view() == old(self).deep_view().filter(
                |e: StatusNotifierEndpointView| e.service == service@,
            ),
    {
        let name = service.to_owned();
        let belongs = |e: &StatusNotifierEndpoint| -> (b: bool)
            ensures
                b == (e.deep_view().service == name@),
        {
            e.service.same(&name)
        };
        let removed = lists::select(
            &self.endpoints,
            belongs,
            Ghost(|e: StatusNotifierEndpointView| e.service == service@),
        );
        let stays = |e: &StatusNotifierEndpoint| -> (b: bool)
            ensures
                b == (e.deep_view().service != name@),
        {
            !e.service.same(&name)
        };
        lists::retain(
            &mut self.endpoints,
            stays,
            Ghost(|e: StatusNotifierEndpointView| e.service != service@),
        );
        removed
    }

    /// How many endpoints are registered.
    pub fn len(&self) -> (r: usize)
        ensures
            r == self.deep_view().len(),
    {
        self.endpoints.len()
    }

    /// Whether no endpoint is registered.
    pub fn is_empty(&self) -> (r: bool)
        ensures
            r == (self.deep_view().len() == 0),
    {
        self.endpoints.is_empty()
    }

    /// The registered endpoints.
    pub fn endpoints(&self) -> (r: &Vec<StatusNotifierEndpoint>)
        ensures
            r.deep_view() == self.deep_view(),
    {
        &self.endpoints
    }
}

/// What is known of the tray items, in the order in which they were first reported.
#[derive(Clone, Debug, Eq, PartialEq)]
pub struct StatusNotifierItemRegistry {
    items: Vec<StatusNotifierItem>,
}

impl DeepView for StatusNotifierItemRegistry {
    type V = Seq<StatusNotifierItemView>;

    closed spec fn deep_view(&self) -> Seq<StatusNotifierItemView> {
        self.items.deep_view()
    }
}

impl Default for StatusNotifierItemRegistry {
    fn default() -> (r: Self)
        ensures
            r.deep_view() == Seq::<StatusNotifierItemView>::empty(),
    {
        let r = StatusNotifierItemRegistry { items: Vec::new() };
        assert(r.items.deep_view() =~= Seq::<StatusNotifierItemView>::empty());
        r
    }
}

/// Where the item of an endpoint stands.
pub open spec fn item_index(
    items: Seq<StatusNotifierItemView>,
    endpoint: StatusNotifierEndpointView,
) -> Option<int> {
    seqs::index_in(items, |i: StatusNotifierItemView| i.endpoint == endpoint)
}

/// The items with one of them replaced, or with a new one.
pub open spec fn with_item(items: Seq<StatusNotifierItemView>, item: StatusNotifierItemView) -> Seq<
    StatusNotifierItemView,
> {
    match item_index(items, item.endpoint) {
        Some(i) => items.update(i, item),
        None => items.push(item),
    }
}

/// The items without that of an endpoint.
pub open spec fn without_item(
    items: Seq<StatusNotifierItemView>,
    endpoint: StatusNotifierEndpointView,
) -> Seq<StatusNotifierItemView> {
    match item_index(items, endpoint) {
        Some(i) => items.remove(i),
        None => items,
    }
}

impl StatusNotifierItemRegistry {
    fn position(&self, endpoint: &StatusNotifierEndpoint) -> (r: Option<usize>)
        ensures
            match r {
                Some(i) => i < self.deep_view().len() && item_index(
                    self.deep_view(),
                    endpoint.deep_view(),
                ) == Some(i as int),
                None => item_index(self.deep_view(), endpoint.deep_view()) is None,
            },
    {
        let test = |i: &StatusNotifierItem| -> (b: bool)
            ensures
                b == (i.deep_view().endpoint == endpoint.deep_view()),
        {
            i.endpoint.same(endpoint)
        };
        lists::index(
            &self.items,
            test,
            Ghost(|i: StatusNotifierItemView| i.endpoint == endpoint.deep_view()),
        )
    }

    /// Takes over what is reported of an item, and returns whether that is anything new.
    pub fn upsert(&mut self, item: StatusNotifierItem) -> (r: bool)
        ensures
            final(self).deep_view() == with_item(old(self).deep_view(), item.deep_view()),
            r == (final(self).deep_view() != old(self).deep_view()),
    {
        let ghost before = self.deep_view();
        match self.position(&item.endpoint) {
            Some(i) => {
                let changed = !self.items[i].same(&item);
                assert(before[i as int] == self.items[i as int].deep_view());
                lists::replace(&mut self.items, i, item);
                assert(self.deep_view()[i as int] == item.deep_view());
                assert(!changed ==> before =~= self.deep_view());
                changed
            },
            None => {
                lists::push(&mut self.items, item);
                assert(self.deep_view().len() != before.len());
                true
            },
        }
    }

    /// Forgets the item of an endpoint, and returns whether there was one.
    pub fn remove(&mut self, endpoint: &StatusNotifierEndpoint) -> (r: bool)
        ensures
            final(self).deep_view() == without_item(old(self).deep_view(), endpoint.deep_view()),
            r == (item_index(old(self).deep_view(), endpoint.deep_view()) is Some),
    {
        match self.position(endpoint) {
            Some(i) => {
                lists::remove(&mut self.items, i);
                true
            },
            None => false,
        }
    }

    /// Forgets the items of a service, and returns how many there were.
    pub fn remove_service(&mut self, service: &str) -> (r: usize)
        ensures
            final(self).deep_view() == old(self).deep_view().filter(
                |i: StatusNotifierItemView| i.endpoint.service != service@,
            ),
            r == old(self).deep_view().filter(
                |i: StatusNotifierItemView| i.endpoint.service == service@,
            ).len(),
    {
        let name = service.to_owned();
        let before: usize = self.items.len();
        let stays = |i: &StatusNotifierItem| -> (b: bool)
            ensures
                b == (i.deep_view().endpoint.service != name@),
        {
            !i.endpoint.service.same(&name)
        };
        let ghost belongs = |i: StatusNotifierItemView| i.endpoint.service == service@;
        let ghost other = |i: StatusNotifierItemView| i.endpoint.service != service@;
        proof {
            seqs::lemma_filter_split(self.items.deep_view(), belongs);
            assert((|i: StatusNotifierItemView| !belongs(i)) =~= other);
        }
        lists::retain(&mut self.items, stays, Ghost(other));
        before - self.items.len()
    }

    /// What is known of the items.
    pub fn items(&self) -> (r: &Vec<StatusNotifierItem>)
        ensures
            r.deep_view() == self.deep_view(),
    {
        &self.items
    }
}

/// How far one turn of the wheel scrolls.
pub const SCROLL_STEP: i32 = 1;

/// What a pointer button asks of an item: the left button activates it, or opens its menu where it
/// is nothing but a menu; the middle and right buttons and both wheels have fixed meanings.
pub open spec fn button_action(button: u8, item_is_menu: bool) -> Option<StatusNotifierActionView> {
    if button == 1 && item_is_menu || button == 3 {
        Some(StatusNotifierActionView::ContextMenu)
    } else if button == 1 {
        Some(StatusNotifierActionView::Activate)
    } else if button == 2 {
        Some(StatusNotifierActionView::SecondaryActivate)
    } else if button == 4 {
        Some(StatusNotifierActionView::Scroll { delta: 1, orientation: "vertical"@ })
    } else if button == 5 {
        Some(StatusNotifierActionView::Scroll { delta: (-1) as i32, orientation: "vertical"@ })
    } else if button == 6 {
        Some(StatusNotifierActionView::Scroll { delta: (-1) as i32, orientation: "horizontal"@ })
    } else if button == 7 {
        Some(StatusNotifierActionView::Scroll { delta: 1, orientation: "horizontal"@ })
    } else {
        None
    }
}

impl StatusNotifierAction {
    /// What a pointer button asks of an item.
    pub fn for_button(button: u8, item_is_menu: bool) -> (r: Option<Self>)
        ensures
            r.deep_view() == button_action(button, item_is_menu),
    {
        match button {
            1 => if item_is_menu {
                Some(StatusNotifierAction::ContextMenu)
            } else {
                Some(StatusNotifierAction::Activate)
            },
            2 => Some(StatusNotifierAction::SecondaryActivate),
            3 => Some(StatusNotifierAction::ContextMenu),
            4 => Some(
                StatusNotifierAction::Scroll { delta: SCROLL_STEP, orientation: "vertical" },
            ),
            5 => Some(
                StatusNotifierAction::Scroll { delta: -SCROLL_STEP, orientation: "vertical" },
            ),
            6 => Some(
                StatusNotifierAction::Scroll { delta: -SCROLL_STEP, orientation: "horizontal" },
            ),
            7 => Some(
                StatusNotifierAction::Scroll { delta: SCROLL_STEP, orientation: "horizontal" },
            ),
            _ => None,
        }
    }
}

/// The id of a tray item: its service followed by its object path.
pub open spec fn item_id(endpoint: StatusNotifierEndpointView) -> Seq<char> {
    endpoint.service + endpoint.object_path
}

/// The id of a tray item.
pub fn format_notifier_item_id(endpoint: &StatusNotifierEndpoint) -> (r: String)
    ensures
        r@ == item_id(endpoint.deep_view()),
{
    text::concat(endpoint.service.as_str(), endpoint.object_path.as_str())
}

/// The endpoint that an id names: what stands before the first slash is the service, the rest is
/// the object path. Neither may be missing.
pub open spec fn endpoint_of_id(id: Seq<char>) -> Option<StatusNotifierEndpointView> {
    match seqs::position_in(id, '/') {
        Some(i) => if 0 < i && i + 1 < id.len() {
            Some(StatusNotifierEndpointView { service: id.take(i), object_path: id.skip(i) })
        } else {
            None
        },
        None => None,
    }
}

/// The endpoint that an id names.
pub fn parse_notifier_item_id(item: &str) -> (r: Option<StatusNotifierEndpoint>)
    ensures
        r.deep_view() == endpoint_of_id(item@),
{
    let n: usize = item.unicode_len();
    let mut i: usize = 0;
    while i < n && item.get_char(i) != '/'
        invariant
            n == item@.len(),
            i <= n,
            forall|j: int| 0 <= j < i ==> (#[trigger] item@[j]) != '/',
        decreases n - i,
    {
        i += 1;
    }
    if i == n {
        proof {
            seqs::lemma_position_none(item@, '/');
        }
        return None;
    }
    proof {
        seqs::lemma_position_at(item@, '/', i as int);
    }
    if i == 0 || i == n - 1 {
        return None;
    }
    let service = item.substring_char(0, i).to_owned();
    let object_path = item.substring_char(i, n).to_owned();
    assert(service@ =~= item@.take(i as int));
    assert(object_path@ =~= item@.skip(i as int));
    Some(StatusNotifierEndpoint { service, object_path })
}

/// An id names the endpoint that it was made of, where the service has no slash in it and the
/// object path is one.
pub proof fn lemma_item_id_names_endpoint(endpoint: StatusNotifierEndpointView)
    requires
        endpoint.service.len() > 0,
        !endpoint.service.contains('/'),
        endpoint.object_path.len() > 1,
        endpoint.object_path[0] == '/',
    ensures
        endpoint_of_id(item_id(endpoint)) == Some(endpoint),
{
    let id = item_id(endpoint);
    let at = endpoint.service.len() as int;
    assert(id[at] == '/');
    assert forall|j: int| 0 <= j < at implies (#[trigger] id[j]) != '/' by {
        assert(id[j] == endpoint.service[j]);
        assert(endpoint.service.contains(endpoint.service[j]));
    }
    seqs::lemma_position_at(id, '/', at);
    assert(id.take(at) =~= endpoint.service);
    assert(id.skip(at) =~= endpoint.object_path);
}

/// What an id names has that id.
pub proof fn lemma_named_endpoint_has_id(id: Seq<char>)
    requires
        endpoint_of_id(id) is Some,
    ensures
        item_id(endpoint_of_id(id)->0) == id,
{
    let i = seqs::position_in(id, '/')->0;
    assert(id.take(i) + id.skip(i) =~= id);
}

/// Registering an endpoint twice is the same as registering it once.
pub proof fn lemma_register_idempotent(
    endpoints: Seq<StatusNotifierEndpointView>,
    endpoint: StatusNotifierEndpointView,
)
    ensures
        with_endpoint(with_endpoint(endpoints, endpoint), endpoint) == with_endpoint(
            endpoints,
            endpoint,
        ),
{
    if !endpoints.contains(endpoint) {
        assert(endpoints.push(endpoint)[endpoints.len() as int] == endpoint);
    }
}

/// No endpoint is registered twice, whatever is registered.
pub proof fn lemma_register_unique(
    endpoints: Seq<StatusNotifierEndpointView>,
    endpoint: StatusNotifierEndpointView,
)
    requires
        endpoints.no_duplicates(),
    ensures
        with_endpoint(endpoints, endpoint).no_duplicates(),
{
    if !endpoints.contains(endpoint) {
        let after = endpoints.push(endpoint);
        assert forall|i: int, j: int|
            0 <= i < after.len() && 0 <= j < after.len() && i != j implies after[i] != after[j] by {
            if i < endpoints.len() {
                assert(endpoints.contains(endpoints[i]));
            }
            if j < endpoints.len() {
                assert(endpoints.contains(endpoints[j]));
            }
        }
    }
}

/// Forgetting an endpoint undoes its registration.
pub proof fn lemma_unregister_undoes_register(
    endpoints: Seq<StatusNotifierEndpointView>,
    endpoint: StatusNotifierEndpointView,
)
    requires
        !endpoints.contains(endpoint),
    ensures
        without_endpoint(with_endpoint(endpoints, endpoint), endpoint) == endpoints,
{
    let after = endpoints.push(endpoint);
    assert forall|i: int| 0 <= i < endpoints.len() implies (#[trigger] after[i]) != endpoint by {
        assert(endpoints.contains(endpoints[i]));
    }
    seqs::lemma_position_at(after, endpoint, endpoints.len() as int);
    assert(after.remove(endpoints.len() as int) =~= endpoints);
}

/// Every item has an endpoint of its own.
pub open spec fn one_item_per_endpoint(items: Seq<StatusNotifierItemView>) -> bool {
    forall|i: int, j: int|
        0 <= i < j < items.len() ==> (#[trigger] items[i]).endpoint != (
        #[trigger] items[j]).endpoint
}

/// However items are reported, every item keeps an endpoint of its own.
pub proof fn lemma_upsert_unique(items: Seq<StatusNotifierItemView>, item: StatusNotifierItemView)
    requires
        one_item_per_endpoint(items),
    ensures
        one_item_per_endpoint(with_item(items, item)),
{
    let p = |i: StatusNotifierItemView| i.endpoint == item.endpoint;
    seqs::lemma_index_props(items, p);
    let after = with_item(items, item);
    match item_index(items, item.endpoint) {
        Some(at) => {
            assert(p(items[at]));
            assert forall|i: int, j: int| 0 <= i < j < after.len() implies (
            #[trigger] after[i]).endpoint != (#[trigger] after[j]).endpoint by {
                assert(items[i].endpoint != items[j].endpoint);
            }
        },
        None => {
            assert forall|i: int, j: int| 0 <= i < j < after.len() implies (
            #[trigger] after[i]).endpoint != (#[trigger] after[j]).endpoint by {
                if j < items.len() {
                    assert(items[i].endpoint != items[j].endpoint);
                } else {
                    assert(!p(items[i]));
                }
            }
        },
    }
}

/// Reporting an item twice is the same as reporting it once.
pub proof fn lemma_upsert_idempotent(
    items: Seq<StatusNotifierItemView>,
    item: StatusNotifierItemView,
)
    ensures
        with_item(with_item(items, item), item) == with_item(items, item),
{
    let p = |i: StatusNotifierItemView| i.endpoint == item.endpoint;
    seqs::lemma_index_props(items, p);
    let after = with_item(items, item);
    match item_index(items, item.endpoint) {
        Some(at) => {
            assert forall|i: int| 0 <= i < at implies !p(#[trigger] after[i]) by {
                assert(!p(items[i]));
            }
            seqs::lemma_index_at(after, p, at);
            assert(after.update(at, item) =~= after);
        },
        None => {
            let at = items.len() as int;
            assert forall|i: int| 0 <= i < at implies !p(#[trigger] after[i]) by {
                assert(!p(items[i]));
            }
            seqs::lemma_index_at(after, p, at);
            assert(after.update(at, item) =~= after);
        },
    }
}

/// An endpoint that was registered once is not registered any more once it is forgotten.
pub proof fn lemma_unregistered_is_gone(
    endpoints: Seq<StatusNotifierEndpointView>,
    endpoint: StatusNotifierEndpointView,
)
    requires
        endpoints.no_duplicates(),
    ensures
        !without_endpoint(endpoints, endpoint).contains(endpoint),
        forall|other: StatusNotifierEndpointView|
            other != endpoint ==> (#[trigger] without_endpoint(endpoints, endpoint).contains(other)
                <==> endpoints.contains(other)),
{
    seqs::lemma_position_found(endpoints, endpoint);
    if endpoints.contains(endpoint) {
        let k = choose|k: int| 0 <= k < endpoints.len() && endpoints[k] == endpoint;
        assert forall|i: int| 0 <= i < k implies (#[trigger] endpoints[i]) != endpoint by {}
        seqs::lemma_position_at(endpoints, endpoint, k);
        let after = endpoints.remove(k);
        assert forall|other: StatusNotifierEndpointView| other != endpoint implies (
        #[trigger] after.contains(other) <==> endpoints.contains(other)) by {
            if endpoints.contains(other) {
                let i = choose|i: int| 0 <= i < endpoints.len() && endpoints[i] == other;
                assert(after[if i < k {
                    i
                } else {
                    i - 1
                }] == other);
            }
            if after.contains(other) {
                let i = choose|i: int| 0 <= i < after.len() && after[i] == other;
                assert(endpoints[if i < k {
                    i
                } else {
                    i + 1
                }] == other);
            }
        }
        if after.contains(endpoint) {
            let i = choose|i: int| 0 <= i < after.len() && after[i] == endpoint;
            assert(endpoints[if i < k {
                i
            } else {
                i + 1
            }] == endpoint);
        }
    } else {
        seqs::lemma_position_none(endpoints, endpoint);
    }
}

/// An item that is put among others is among them, in place of the one of its endpoint alone.
pub proof fn lemma_upsert_keeps_others(
    items: Seq<StatusNotifierItemView>,
    item: StatusNotifierItemView,
    other: StatusNotifierItemView,
)
    ensures
        with_item(items, item).contains(item),
        other.endpoint != item.endpoint ==> (with_item(items, item).contains(other)
            <==> items.contains(other)),
{
    let p = |i: StatusNotifierItemView| i.endpoint == item.endpoint;
    seqs::lemma_index_props(items, p);
    let after = with_item(items, item);
    match item_index(items, item.endpoint) {
        Some(at) => {
            assert(p(items[at]));
            assert(after[at] == item);
            if other.endpoint != item.endpoint {
                if items.contains(other) {
                    let i = choose|i: int| 0 <= i < items.len() && items[i] == other;
                    assert(after[i] == other);
                }
                if after.contains(other) {
                    let i = choose|i: int| 0 <= i < after.len() && after[i] == other;
                    assert(items[i] == other);
                }
            }
        },
        None => {
            assert(after[items.len() as int] == item);
            if items.contains(other) {
                let i = choose|i: int| 0 <= i < items.len() && items[i] == other;
                assert(after[i] == other);
            }
            if after.contains(other) && other.endpoint != item.endpoint {
                let i = choose|i: int| 0 <= i < after.len() && after[i] == other;
                assert(items[i] == other);
            }
        },
    }
}

/// Of an endpoint whose item is removed no item is left, and the items of other endpoints stay.
pub proof fn lemma_removed_is_gone(
    items: Seq<StatusNotifierItemView>,
    endpoint: StatusNotifierEndpointView,
    other: StatusNotifierItemView,
)
    requires
        one_item_per_endpoint(items),
    ensures
        ({
            let after = without_item(items, endpoint);
            &&& forall|i: int| 0 <= i < after.len() ==> (#[trigger] after[i]).endpoint != endpoint
            &&& other.endpoint != endpoint ==> (after.contains(other) <==> items.contains(other))
            &&& item_index(items, endpoint) is Some <==> after.len() < items.len()
        }),
{
    let p = |i: StatusNotifierItemView| i.endpoint == endpoint;
    seqs::lemma_index_props(items, p);
    let after = without_item(items, endpoint);
    match item_index(items, endpoint) {
        Some(at) => {
            assert(p(items[at]));
            assert forall|i: int| 0 <= i < after.len() implies (#[trigger] after[i]).endpoint
                != endpoint by {
                let k = if i < at {
                    i
                } else {
                    i + 1
                };
                assert(after[i] == items[k]);
                if k < at {
                    assert(items[k].endpoint != items[at].endpoint);
                } else {
                    assert(items[at].endpoint != items[k].endpoint);
                }
            }
            if other.endpoint != endpoint {
                if items.contains(other) {
                    let i = choose|i: int| 0 <= i < items.len() && items[i] == other;
                    assert(after[if i < at {
                        i
                    } else {
                        i - 1
                    }] == other);
                }
                if after.contains(other) {
                    let i = choose|i: int| 0 <= i < after.len() && after[i] == other;
                    assert(items[if i < at {
                        i
                    } else {
                        i + 1
                    }] == other);
                }
            }
        },
        None => {
            assert forall|i: int| 0 <= i < after.len() implies (#[trigger] after[i]).endpoint
                != endpoint by {
                assert(!p(items[i]));
            }
        },
    }
}

/// The left button activates an item, unless it is a menu, which opens like that of the right button.
/// The wheel scrolls by one, up and right being the other way than down and left.
pub proof fn lemma_buttons_act(button: u8, item_is_menu: bool)
    ensures
        button_action(button, item_is_menu) is None <==> button == 0 || button > 7,
        button_action(1, false) == Some(StatusNotifierActionView::Activate),
        button_action(1, true) == button_action(3, item_is_menu),
        button_action(button, item_is_menu) == Some(StatusNotifierActionView::ContextMenu) <==> button
            == 3 || (button == 1 && item_is_menu),
        button_action(button, item_is_menu) == Some(StatusNotifierActionView::SecondaryActivate)
            <==> button == 2,
        button_action(button, item_is_menu) matches Some(action) ==> (
        action matches StatusNotifierActionView::Scroll { delta, orientation } ==> {
            &&& 4 <= button <= 7
            &&& delta == 1 || delta == -1
            &&& delta > 0 <==> button == 4 || button == 7
            &&& orientation == "vertical"@ <==> button == 4 || button == 5
            &&& orientation == "horizontal"@ <==> button == 6 || button == 7
        }),
        4 <= button <= 7 ==> (button_action(button, item_is_menu) matches Some(action) && action
            is Scroll),
{
    reveal_strlit("vertical");
    reveal_strlit("horizontal");
    assert("vertical"@.len() == 8);
    assert("horizontal"@.len() == 10);
}

} // verus!
