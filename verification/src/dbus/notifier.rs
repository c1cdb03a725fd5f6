//! What the bar does with the tray items that a watcher on the bus names.
use std::collections::VecDeque;
use vstd::prelude::*;

use crate::domain::event::Event;
use crate::domain::menu::{MenuEndpoint, MenuEndpointView};
use crate::domain::status_notifier::{
    StatusNotifierAction, StatusNotifierActionView, StatusNotifierEndpoint,
    StatusNotifierEndpointView, StatusNotifierIcon, StatusNotifierIconView, StatusNotifierItem,
    StatusNotifierItemView, StatusNotifierStatus,
};
use crate::table::Table;
use crate::value;
use crate::value::Value;

verus! {

/// The name of the watcher of tray items on the bus.
pub const SNI_NAME: &'static str = "org.kde.StatusNotifierWatcher";

/// Calls `std::path::Path::parent`: the directory that a path lies in, if there is one.
#[verifier::external_body]
fn parent_directory(path: &str) -> (r: Option<String>)
    ensures
        r.deep_view() == parent_of(path@),
{
    std::path::Path::new(path).parent().map(|parent| parent.to_string_lossy().into_owned())
}

/// The directory that a path lies in.
pub uninterp spec fn parent_of(path: Seq<char>) -> Option<Seq<char>>;

/// Calls `std::path::Path::join`: the path of a name in a directory.
#[verifier::external_body]
fn join_path(directory: &str, name: &str) -> (r: String)
    ensures
        r@ == joined(directory@, name@),
{
    std::path::Path::new(directory).join(name).to_string_lossy().into_owned()
}

/// The path of a name in a directory.
pub uninterp spec fn joined(directory: Seq<char>, name: Seq<char>) -> Seq<char>;

/// The path of the watcher program in a directory.
pub fn watcher_in(directory: Option<String>) -> (r: Option<String>)
    ensures
        match directory {
            Some(d) => r matches Some(path) && path@ == joined(d@, "xbar-sni-watcher"@),
            None => r is None,
        },
{
    match directory {
        Some(directory) => Some(join_path(directory.as_str(), "xbar-sni-watcher")),
        None => None,
    }
}

/// The path of the watcher program beside the program of the bar.
pub fn sibling_sni_watcher_path(executable: &str) -> (r: Option<String>)
    ensures
        match parent_of(executable@) {
            Some(d) => r matches Some(path) && path@ == joined(d, "xbar-sni-watcher"@),
            None => r is None,
        },
{
    watcher_in(parent_directory(executable))
}

/// Keeps the owner of the watcher though the bar could not attach to it.
pub fn retain_sni_owner_on_setup_failure(owner: &mut Option<String>, live_owner: &str)
    ensures
        final(owner).deep_view() == Some(live_owner@),
{
    *owner = Some(live_owner.to_owned());
}

/// Whether to attach once more after a failure: only where the owner is still the one expected.
pub fn retry_setup(live_owner: &Option<String>, expected_owner: &str) -> (r: bool)
    ensures
        r == (live_owner.deep_view() == Some(expected_owner@)),
{
    match live_owner {
        Some(owner) => value::is_text(owner, expected_owner),
        None => false,
    }
}

/// What a change of the owner of the watcher asks for.
#[derive(Clone, Debug, Eq, PartialEq)]
pub struct OwnerStep {
    /// The attachment to the owner before is to be dropped.
    pub detach: bool,
    /// It is to be told that the watcher is gone.
    pub unavailable: bool,
    /// The owner to attach to.
    pub attach: Option<String>,
}

/// What a change of the owner of the watcher comes to: the owner from then on, whether to drop the
/// attachment to the one before, whether to tell that the watcher is gone, and whom to attach to.
pub open spec fn owner_step(
    before: Option<Seq<char>>,
    new_owner: Option<Seq<char>>,
    old_owner: Option<Seq<char>>,
) -> (Option<Seq<char>>, bool, bool, Option<Seq<char>>) {
    match new_owner {
        Some(new) => if before == Some(new) {
            (before, false, false, None)
        } else {
            (Some(new), true, before is Some, Some(new))
        },
        None => if before == old_owner {
            (None, true, true, None)
        } else {
            (before, false, false, None)
        },
    }
}

/// Takes a change of the owner of the watcher in. The loss of an owner that is not the current one
/// changes nothing.
pub fn sni_owner_changed(
    owner: &mut Option<String>,
    new_owner: Option<String>,
    old_owner: Option<String>,
) -> (r: OwnerStep)
    ensures
        (final(owner).deep_view(), r.detach, r.unavailable, r.attach.deep_view()) == owner_step(
            old(owner).deep_view(),
            new_owner.deep_view(),
            old_owner.deep_view(),
        ),
{
    match new_owner {
        Some(new_owner) => {
            let same = match &*owner {
                Some(current) => current.same(&new_owner),
                None => false,
            };
            if same {
                return OwnerStep { detach: false, unavailable: false, attach: None };
            }
            let unavailable = owner.is_some();
            *owner = Some(new_owner.dup());
            OwnerStep { detach: true, unavailable, attach: Some(new_owner) }
        },
        None => {
            if owner.same(&old_owner) {
                *owner = None;
                OwnerStep { detach: true, unavailable: true, attach: None }
            } else {
                OwnerStep { detach: false, unavailable: false, attach: None }
            }
        },
    }
}

/// The status that a text names; any other text counts as passive.
pub open spec fn status_named(name: Seq<char>) -> StatusNotifierStatus {
    if name == "Active"@ {
        StatusNotifierStatus::Active
    } else if name == "NeedsAttention"@ {
        StatusNotifierStatus::NeedsAttention
    } else {
        StatusNotifierStatus::Passive
    }
}

/// The status that a text names.
pub fn parse_sni_status(status: &String) -> (r: StatusNotifierStatus)
    ensures
        r == status_named(status@),
{
    if value::is_text(status, "Active") {
        StatusNotifierStatus::Active
    } else if value::is_text(status, "NeedsAttention") {
        StatusNotifierStatus::NeedsAttention
    } else {
        StatusNotifierStatus::Passive
    }
}

/// An image of an item: its width, its height and its bytes, four for a pixel.
pub type Pixmap = (i32, i32, Vec<u8>);

/// Whether an image is small enough and has the bytes of all of its pixels.
pub open spec fn is_usable(p: Pixmap) -> bool {
    0 < p.0 <= 64 && 0 < p.1 <= 64 && p.2@.len() >= p.0 * p.1 * 4
}

/// How far a number is from another one.
pub open spec fn distance(a: int, b: int) -> int {
    if a < b {
        b - a
    } else {
        a - b
    }
}

/// How far an image is from sixteen pixels in both directions.
pub open spec fn size_error(p: Pixmap) -> int {
    distance(p.0 as int, 16) + distance(p.1 as int, 16)
}

/// Whether an image is to be preferred to another one: it is closer to sixteen pixels, or as close and
/// narrower, or as close and as wide and lower.
pub open spec fn is_better(a: Pixmap, b: Pixmap) -> bool {
    ||| size_error(a) < size_error(b)
    ||| (size_error(a) == size_error(b) && a.0 < b.0)
    ||| (size_error(a) == size_error(b) && a.0 == b.0 && a.1 < b.1)
}

/// The image to show: the first of the usable ones that no other one is preferred to.
pub open spec fn best_pixmap(pixmaps: Seq<Pixmap>) -> Option<int>
    decreases pixmaps.len(),
{
    if pixmaps.len() == 0 {
        None
    } else {
        let last = pixmaps.last();
        match best_pixmap(pixmaps.drop_last()) {
            None => if is_usable(last) {
                Some(pixmaps.len() - 1)
            } else {
                None
            },
            Some(i) => if is_usable(last) && is_better(last, pixmaps[i]) {
                Some(pixmaps.len() - 1)
            } else {
                Some(i)
            },
        }
    }
}

/// The image to show is usable, no usable one is preferred to it, and none is shown only where none is
/// usable.
pub proof fn lemma_best_pixmap(pixmaps: Seq<Pixmap>)
    ensures
        match best_pixmap(pixmaps) {
            Some(i) => {
                &&& 0 <= i < pixmaps.len()
                &&& is_usable(pixmaps[i])
                &&& forall|j: int|
                    0 <= j < pixmaps.len() && is_usable(#[trigger] pixmaps[j]) ==> !is_better(
                        pixmaps[j],
                        pixmaps[i],
                    )
                &&& forall|j: int|
                    0 <= j < i && is_usable(#[trigger] pixmaps[j]) ==> is_better(
                        pixmaps[i],
                        pixmaps[j],
                    )
            },
            None => forall|j: int| 0 <= j < pixmaps.len() ==> !is_usable(#[trigger] pixmaps[j]),
        },
    decreases pixmaps.len(),
{
    if pixmaps.len() > 0 {
        let before = pixmaps.drop_last();
        lemma_best_pixmap(before);
        assert forall|j: int| 0 <= j < before.len() implies #[trigger] pixmaps[j] == before[j] by {}
    }
}

/// The number that four bytes stand for, the highest first.
pub open spec fn pixel_at(bytes: Seq<u8>, i: int) -> u32 {
    (bytes[4 * i] * 0x100_0000 + bytes[4 * i + 1] * 0x1_0000 + bytes[4 * i + 2] * 0x100 + bytes[4 * i
        + 3]) as u32
}

/// The icon of an image.
pub open spec fn icon_of(p: Pixmap) -> StatusNotifierIconView {
    StatusNotifierIconView::Pixmap {
        width: p.0 as u16,
        height: p.1 as u16,
        argb: Seq::new((p.0 * p.1) as nat, |i: int| pixel_at(p.2@, i)),
    }
}

/// The icon to show of some images.
pub open spec fn selected_icon(pixmaps: Seq<Pixmap>) -> Option<StatusNotifierIconView> {
    match best_pixmap(pixmaps) {
        Some(i) => Some(icon_of(pixmaps[i])),
        None => None,
    }
}

proof fn lemma_area(width: int, height: int)
    by (nonlinear_arith)
    requires
        0 < width <= 64,
        0 < height <= 64,
    ensures
        0 < width * height <= 4096,
{
}

fn usable(p: &Pixmap) -> (r: bool)
    ensures
        r == is_usable(*p),
{
    if p.0 <= 0 || p.0 > 64 || p.1 <= 0 || p.1 > 64 {
        return false;
    }
    proof {
        lemma_area(p.0 as int, p.1 as int);
    }
    let size: usize = p.0 as usize * p.1 as usize * 4;
    p.2.len() >= size
}

fn error_of(p: &Pixmap) -> (r: i32)
    requires
        is_usable(*p),
    ensures
        r == size_error(*p),
{
    let w: i32 = if p.0 < 16 {
        16 - p.0
    } else {
        p.0 - 16
    };
    let h: i32 = if p.1 < 16 {
        16 - p.1
    } else {
        p.1 - 16
    };
    w + h
}

fn better(a: &Pixmap, b: &Pixmap) -> (r: bool)
    requires
        is_usable(*a),
        is_usable(*b),
    ensures
        r == is_better(*a, *b),
{
    let (x, y) = (error_of(a), error_of(b));
    x < y || (x == y && a.0 < b.0) || (x == y && a.0 == b.0 && a.1 < b.1)
}

fn best_index(pixmaps: &Vec<Pixmap>) -> (r: Option<usize>)
    ensures
        match best_pixmap(pixmaps@) {
            Some(i) => r matches Some(k) && k == i,
            None => r is None,
        },
{
    let mut best: Option<usize> = None;
    let mut i: usize = 0;
    while i < pixmaps.len()
        invariant
            i <= pixmaps.len(),
            match best_pixmap(pixmaps@.take(i as int)) {
                Some(k) => best matches Some(b) && b == k,
                None => best is None,
            },
        decreases pixmaps.len() - i,
    {
        proof {
            lemma_best_pixmap(pixmaps@.take(i as int));
            assert(pixmaps@.take(i + 1).drop_last() =~= pixmaps@.take(i as int));
            assert(pixmaps@.take(i + 1).last() == pixmaps@[i as int]);
        }
        if usable(&pixmaps[i]) {
            match best {
                Some(k) => {
                    if better(&pixmaps[i], &pixmaps[k]) {
                        best = Some(i);
                    }
                },
                None => {
                    best = Some(i);
                },
            }
        }
        i += 1;
    }
    assert(pixmaps@.take(i as int) =~= pixmaps@);
    best
}

fn read_pixel(bytes: &Vec<u8>, i: usize) -> (r: u32)
    requires
        i < 4096,
        4 * i + 3 < bytes@.len(),
    ensures
        r == pixel_at(bytes@, i as int),
{
    let k: usize = 4 * i;
    bytes[k] as u32 * 0x100_0000 + bytes[k + 1] as u32 * 0x1_0000 + bytes[k + 2] as u32 * 0x100
        + bytes[k + 3] as u32
}

/// The icon to show of some images.
pub fn select_pixmap(pixmaps: Vec<Pixmap>) -> (r: Option<StatusNotifierIcon>)
    ensures
        r.deep_view() == selected_icon(pixmaps@),
{
    proof {
        lemma_best_pixmap(pixmaps@);
    }
    let best: usize = match best_index(&pixmaps) {
        Some(best) => best,
        None => {
            return None;
        },
    };
    let (width, height) = (pixmaps[best].0, pixmaps[best].1);
    let bytes = &pixmaps[best].2;
    proof {
        lemma_area(width as int, height as int);
    }
    let count: usize = width as usize * height as usize;
    let mut argb: Vec<u32> = Vec::new();
    let mut i: usize = 0;
    while i < count
        invariant
            i <= count,
            count <= 4096,
            bytes@.len() >= 4 * count,
            argb@ =~= Seq::new(i as nat, |k: int| pixel_at(bytes@, k)),
        decreases count - i,
    {
        argb.push(read_pixel(bytes, i));
        i += 1;
    }
    let icon = StatusNotifierIcon::Pixmap { width: width as u16, height: height as u16, argb };
    assert(icon.deep_view() =~= icon_of(pixmaps@[best as int])) by {
        assert(argb.deep_view() =~= argb@);
        assert(argb@ =~= Seq::new((width * height) as nat, |k: int| pixel_at(bytes@, k)));
    }
    Some(icon)
}

/// The icon for a status: an item that needs attention shows its icon for that where it has one.
pub open spec fn icon_for(
    status: StatusNotifierStatus,
    normal: Option<StatusNotifierIconView>,
    attention: Option<StatusNotifierIconView>,
) -> Option<StatusNotifierIconView> {
    if status == StatusNotifierStatus::NeedsAttention && attention is Some {
        attention
    } else {
        normal
    }
}

/// The icon for a status.
pub fn choose_sni_icon(
    status: &StatusNotifierStatus,
    normal: Option<StatusNotifierIcon>,
    attention: Option<StatusNotifierIcon>,
) -> (r: Option<StatusNotifierIcon>)
    ensures
        r.deep_view() == icon_for(*status, normal.deep_view(), attention.deep_view()),
{
    match status {
        StatusNotifierStatus::NeedsAttention => match attention {
            Some(icon) => Some(icon),
            None => normal,
        },
        StatusNotifierStatus::Active | StatusNotifierStatus::Passive => normal,
    }
}

/// What an item says of itself; what could not be read is missing.
#[derive(Clone, Debug, Eq, PartialEq)]
pub struct ItemProperties {
    pub status: Option<String>,
    pub icon_name: Option<String>,
    pub icon_pixmap: Option<Vec<Pixmap>>,
    pub attention_icon_name: Option<String>,
    pub attention_icon_pixmap: Option<Vec<Pixmap>>,
    pub item_is_menu: Option<bool>,
    pub menu: Option<String>,
}

/// A name that is not empty.
pub open spec fn some_name(name: Option<Seq<char>>) -> Option<Seq<char>> {
    match name {
        Some(s) => if s.len() == 0 {
            None
        } else {
            Some(s)
        },
        None => None,
    }
}

fn keep_name(name: Option<String>) -> (r: Option<String>)
    ensures
        r.deep_view() == some_name(name.deep_view()),
{
    match name {
        Some(s) => {
            if s.as_str().unicode_len() == 0 {
                None
            } else {
                Some(s)
            }
        },
        None => None,
    }
}

/// The icon to show of images that may be missing.
pub open spec fn optional_icon(pixmaps: Option<Vec<Pixmap>>) -> Option<StatusNotifierIconView> {
    match pixmaps {
        Some(p) => selected_icon(p@),
        None => None,
    }
}

fn keep_icon(pixmaps: Option<Vec<Pixmap>>) -> (r: Option<StatusNotifierIcon>)
    ensures
        r.deep_view() == optional_icon(pixmaps),
{
    match pixmaps {
        Some(p) => select_pixmap(p),
        None => None,
    }
}

/// The menu of an item; the root object stands for none.
pub open spec fn item_menu(service: Seq<char>, path: Option<Seq<char>>) -> Option<MenuEndpointView> {
    match path {
        Some(object_path) => if object_path == "/"@ {
            None
        } else {
            Some(MenuEndpointView { service, object_path })
        },
        None => None,
    }
}

/// The tray item that an item is by what it says of itself.
pub open spec fn item_described(
    endpoint: StatusNotifierEndpointView,
    properties: ItemProperties,
) -> StatusNotifierItemView {
    let status = match properties.status {
        Some(name) => status_named(name@),
        None => StatusNotifierStatus::Passive,
    };
    StatusNotifierItemView {
        endpoint,
        status,
        icon: icon_for(
            status,
            optional_icon(properties.icon_pixmap),
            optional_icon(properties.attention_icon_pixmap),
        ),
        icon_name: some_name(properties.icon_name.deep_view()),
        attention_icon_name: some_name(properties.attention_icon_name.deep_view()),
        item_is_menu: properties.item_is_menu == Some(true),
        menu: item_menu(endpoint.service, properties.menu.deep_view()),
    }
}

/// The tray item that an item is by what it says of itself.
pub fn describe_item(endpoint: StatusNotifierEndpoint, properties: ItemProperties) -> (r:
    StatusNotifierItem)
    ensures
        r.deep_view() == item_described(endpoint.deep_view(), properties),
{
    let status = match &properties.status {
        Some(name) => parse_sni_status(name),
        None => StatusNotifierStatus::Passive,
    };
    let menu = match properties.menu {
        Some(path) => {
            if value::is_text(&path, "/") {
                None
            } else {
                Some(MenuEndpoint { service: endpoint.service.dup(), object_path: path })
            }
        },
        None => None,
    };
    let item_is_menu = match properties.item_is_menu {
        Some(item_is_menu) => item_is_menu,
        None => false,
    };
    let icon = choose_sni_icon(
        &status,
        keep_icon(properties.icon_pixmap),
        keep_icon(properties.attention_icon_pixmap),
    );
    StatusNotifierItem {
        endpoint,
        status,
        icon,
        icon_name: keep_name(properties.icon_name),
        attention_icon_name: keep_name(properties.attention_icon_name),
        item_is_menu,
        menu,
    }
}

/// The arguments of a call to an item.
#[derive(Clone, Debug, Eq, PartialEq)]
pub enum ItemArguments {
    /// A point of the screen.
    Point(i32, i32),
    /// How far and in which direction a wheel was turned.
    Turn(i32, String),
}

/// The method that an action calls.
pub open spec fn method_of(action: StatusNotifierActionView) -> Seq<char> {
    match action {
        StatusNotifierActionView::Activate => "Activate"@,
        StatusNotifierActionView::SecondaryActivate => "SecondaryActivate"@,
        StatusNotifierActionView::ContextMenu => "ContextMenu"@,
        StatusNotifierActionView::Scroll { .. } => "Scroll"@,
    }
}

/// The call that an action makes: the method and its arguments.
pub fn action_call(action: &StatusNotifierAction, root_x: i32, root_y: i32) -> (r: (
    String,
    ItemArguments,
))
    ensures
        r.0@ == method_of(action.deep_view()),
        match action.deep_view() {
            StatusNotifierActionView::Scroll { delta, orientation } => r.1 matches ItemArguments::Turn(
                d,
                o,
            ) && d == delta && o@ == orientation,
            _ => r.1 == ItemArguments::Point(root_x, root_y),
        },
{
    match action {
        StatusNotifierAction::Activate => (
            "Activate".to_owned(),
            ItemArguments::Point(root_x, root_y),
        ),
        StatusNotifierAction::SecondaryActivate => (
            "SecondaryActivate".to_owned(),
            ItemArguments::Point(root_x, root_y),
        ),
        StatusNotifierAction::ContextMenu => (
            "ContextMenu".to_owned(),
            ItemArguments::Point(root_x, root_y),
        ),
        StatusNotifierAction::Scroll { delta, orientation } => (
            "Scroll".to_owned(),
            ItemArguments::Turn(*delta, (*orientation).to_owned()),
        ),
    }
}

/// Why the watcher of an item woke up.
#[derive(Clone, Copy, Debug, Eq, PartialEq, Structural)]
pub enum ItemWake {
    PropertyChanged,
    PropertyStreamEnded,
    ItemCancelled,
}

/// Whether the watcher of an item ends.
pub fn item_wake_is_terminal(wake: ItemWake) -> (r: bool)
    ensures
        r == (wake != ItemWake::PropertyChanged),
{
    match wake {
        ItemWake::PropertyChanged => false,
        ItemWake::PropertyStreamEnded | ItemWake::ItemCancelled => true,
    }
}

/// Queues an event, together with a byte that wakes the main loop.
pub fn push_event_with_writer(events: &mut VecDeque<Event>, wake: &mut Vec<u8>, event: Event)
    ensures
        final(events)@ == old(events)@.push(event),
        final(wake)@ == old(wake)@.push(1),
{
    events.push_back(event);
    wake.push(1);
}

/// What is known of the attachment to a watcher.
#[derive(Clone, Debug, Eq, PartialEq)]
pub struct StatusNotifierAttachmentControl {
    pub active: bool,
    pub next_item_id: u64,
    /// The items that are watched, each with the number of its watcher.
    pub items: Table<StatusNotifierEndpoint, u64>,
}

/// The model of a [`StatusNotifierAttachmentControl`].
#[verifier::ext_equal]
pub struct StatusNotifierAttachmentControlView {
    pub active: bool,
    pub next_item_id: u64,
    pub items: Map<StatusNotifierEndpointView, u64>,
}

impl DeepView for StatusNotifierAttachmentControl {
    type V = StatusNotifierAttachmentControlView;

    open spec fn deep_view(&self) -> StatusNotifierAttachmentControlView {
        StatusNotifierAttachmentControlView {
            active: self.active,
            next_item_id: self.next_item_id,
            items: self.items.deep_view(),
        }
    }
}

impl StatusNotifierAttachmentControlView {
    /// An attachment without items.
    pub open spec fn initial() -> StatusNotifierAttachmentControlView {
        StatusNotifierAttachmentControlView { active: true, next_item_id: 0, items: Map::empty() }
    }

    /// After the attachment was dropped.
    pub open spec fn cancelled(self) -> StatusNotifierAttachmentControlView {
        StatusNotifierAttachmentControlView { active: false, items: Map::empty(), ..self }
    }

    /// Whether the item of an endpoint can get a watcher.
    pub open spec fn can_start(self, endpoint: StatusNotifierEndpointView) -> bool {
        self.active && !self.items.contains_key(endpoint)
    }

    /// After the item of an endpoint got a watcher, where it can get one.
    pub open spec fn started(self, endpoint: StatusNotifierEndpointView) -> Self {
        if self.can_start(endpoint) {
            StatusNotifierAttachmentControlView {
                next_item_id: if self.next_item_id == u64::MAX {
                    0
                } else {
                    (self.next_item_id + 1) as u64
                },
                items: self.items.insert(endpoint, self.next_item_id),
                ..self
            }
        } else {
            self
        }
    }

    /// After the item of an endpoint lost its watcher.
    pub open spec fn stopped(self, endpoint: StatusNotifierEndpointView) -> Self {
        StatusNotifierAttachmentControlView { items: self.items.remove(endpoint), ..self }
    }

    /// Whether a watcher is the one of the item of an endpoint.
    pub open spec fn watches(self, endpoint: StatusNotifierEndpointView, id: u64) -> bool {
        self.items.contains_key(endpoint) && self.items[endpoint] == id
    }

    /// Whether the watcher of an item still counts.
    pub open spec fn is_current(self, endpoint: StatusNotifierEndpointView, id: u64) -> bool {
        self.active && self.watches(endpoint, id)
    }

    /// After a watcher ended.
    pub open spec fn ended(self, endpoint: StatusNotifierEndpointView, id: u64) -> Self {
        if self.watches(endpoint, id) {
            self.stopped(endpoint)
        } else {
            self
        }
    }
}

impl StatusNotifierAttachmentControl {
    /// An attachment without items.
    pub fn new() -> (r: Self)
        ensures
            r.deep_view() == StatusNotifierAttachmentControlView::initial(),
    {
        StatusNotifierAttachmentControl { active: true, next_item_id: 0, items: Table::new() }
    }

    /// Drops the attachment; returns the items whose watchers are to be cancelled.
    pub fn cancel(&mut self) -> (r: Vec<StatusNotifierEndpoint>)
        ensures
            final(self).deep_view() == old(self).deep_view().cancelled(),
            forall|e: StatusNotifierEndpointView| #[trigger]
                r.deep_view().contains(e) <==> old(self).deep_view().items.contains_key(e),
    {
        let cancelled = self.items.keys();
        self.active = false;
        self.items = Table::new();
        cancelled
    }

    /// Whether the attachment still counts.
    pub fn is_active(&self) -> (r: bool)
        ensures
            r == self.deep_view().active,
    {
        self.active
    }

    /// Queues an event of an attachment that still counts; returns whether it does.
    pub fn publish(&self, events: &mut VecDeque<Event>, wake: &mut Vec<u8>, event: Event) -> (r: bool)
        ensures
            r == self.deep_view().active,
            final(events)@ == (if r {
                old(events)@.push(event)
            } else {
                old(events)@
            }),
            final(wake)@ == (if r {
                old(wake)@.push(1)
            } else {
                old(wake)@
            }),
    {
        if !self.active {
            return false;
        }
        push_event_with_writer(events, wake, event);
        true
    }

    /// Queues an event of a watcher that still counts; returns whether it does.
    pub fn publish_item(
        &self,
        endpoint: &StatusNotifierEndpoint,
        id: u64,
        events: &mut VecDeque<Event>,
        wake: &mut Vec<u8>,
        event: Event,
    ) -> (r: bool)
        ensures
            r == self.deep_view().is_current(endpoint.deep_view(), id),
            final(events)@ == (if r {
                old(events)@.push(event)
            } else {
                old(events)@
            }),
            final(wake)@ == (if r {
                old(wake)@.push(1)
            } else {
                old(wake)@
            }),
    {
        if !self.is_current_item(endpoint, id) {
            return false;
        }
        push_event_with_writer(events, wake, event);
        true
    }

    /// Gives the item of an endpoint a watcher, where it can get one, and returns its number.
    pub fn start_item(&mut self, endpoint: &StatusNotifierEndpoint) -> (r: Option<u64>)
        ensures
            final(self).deep_view() == old(self).deep_view().started(endpoint.deep_view()),
            r == (if old(self).deep_view().can_start(endpoint.deep_view()) {
                Some(old(self).deep_view().next_item_id)
            } else {
                None
            }),
    {
        if !self.active || self.items.get(endpoint).is_some() {
            return None;
        }
        let id: u64 = self.next_item_id;
        self.next_item_id = id.wrapping_add(1);
        self.items.insert(endpoint.dup(), id);
        Some(id)
    }

    /// Takes the watcher of an item away; returns whether one is to be cancelled.
    pub fn stop_item(&mut self, endpoint: &StatusNotifierEndpoint) -> (r: bool)
        ensures
            final(self).deep_view() == old(self).deep_view().stopped(endpoint.deep_view()),
            r == old(self).deep_view().items.contains_key(endpoint.deep_view()),
    {
        let found = self.items.get(endpoint).is_some();
        self.items.remove(endpoint);
        found
    }

    fn is_watcher(&self, endpoint: &StatusNotifierEndpoint, id: u64) -> (r: bool)
        ensures
            r == self.deep_view().watches(endpoint.deep_view(), id),
    {
        match self.items.get(endpoint) {
            Some(current) => *current == id,
            None => false,
        }
    }

    /// Whether the watcher of an item still counts.
    pub fn is_current_item(&self, endpoint: &StatusNotifierEndpoint, id: u64) -> (r: bool)
        ensures
            r == self.deep_view().is_current(endpoint.deep_view(), id),
    {
        self.active && self.is_watcher(endpoint, id)
    }

    /// A watcher ended by itself.
    pub fn finish_item(&mut self, endpoint: &StatusNotifierEndpoint, id: u64)
        ensures
            final(self).deep_view() == old(self).deep_view().ended(endpoint.deep_view(), id),
    {
        if self.is_watcher(endpoint, id) {
            self.items.remove(endpoint);
        }
    }

    /// Whether the watcher of an item that woke up is to read the item again and go on.
    pub fn goes_on(&self, endpoint: &StatusNotifierEndpoint, id: u64, wake: ItemWake) -> (r: bool)
        ensures
            r == (wake == ItemWake::PropertyChanged && self.deep_view().is_current(
                endpoint.deep_view(),
                id,
            )),
    {
        !item_wake_is_terminal(wake) && self.is_current_item(endpoint, id)
    }
}

/// What a watcher on the bus says of an item.
#[derive(Clone, Debug, Eq, PartialEq)]
pub enum OrderedWatcherEvent {
    Registered(StatusNotifierEndpoint),
    Unregistered(StatusNotifierEndpoint),
}

/// What is to be done with the watcher of an item.
#[derive(Clone, Debug, Eq, PartialEq)]
pub enum WatcherStep {
    /// A watcher with a number is to be started.
    Watch(StatusNotifierEndpoint, u64),
    /// The watcher is to be cancelled.
    Cancel(StatusNotifierEndpoint),
    Nothing,
}

/// Takes in what a watcher on the bus says of an item, in the order in which it came. An item that has a
/// watcher already is not told of again.
pub fn apply_ordered_watcher_event(
    control: &mut StatusNotifierAttachmentControl,
    events: &mut VecDeque<Event>,
    wake: &mut Vec<u8>,
    event: OrderedWatcherEvent,
) -> (r: WatcherStep)
    ensures
        match event {
            OrderedWatcherEvent::Registered(endpoint) => {
                let before = old(control).deep_view();
                &&& final(control).deep_view() == before.started(endpoint.deep_view())
                &&& if before.can_start(endpoint.deep_view()) {
                    &&& final(wake)@ == old(wake)@.push(1)
                    &&& final(events)@.len() == old(events)@.len() + 1
                    &&& final(events)@.drop_last() == old(events)@
                    &&& final(events)@.last() matches Event::StatusNotifierRegistered(told)
                        && told.deep_view() == endpoint.deep_view()
                    &&& r == WatcherStep::Watch(endpoint, before.next_item_id)
                } else {
                    &&& final(wake)@ == old(wake)@
                    &&& final(events)@ == old(events)@
                    &&& r is Nothing
                }
            },
            OrderedWatcherEvent::Unregistered(endpoint) => {
                let before = old(control).deep_view();
                &&& final(control).deep_view() == before.stopped(endpoint.deep_view())
                &&& final(wake)@ == (if before.active {
                    old(wake)@.push(1)
                } else {
                    old(wake)@
                })
                &&& final(events)@ == (if before.active {
                    old(events)@.push(Event::StatusNotifierUnregistered(endpoint))
                } else {
                    old(events)@
                })
                &&& if before.items.contains_key(endpoint.deep_view()) {
                    r matches WatcherStep::Cancel(told) && told.deep_view() == endpoint.deep_view()
                } else {
                    r is Nothing
                }
            },
        },
{
    match event {
        OrderedWatcherEvent::Registered(endpoint) => match control.start_item(&endpoint) {
            Some(id) => {
                control.publish(events, wake, Event::StatusNotifierRegistered(endpoint.dup()));
                assert(events@.drop_last() =~= old(events)@);
                WatcherStep::Watch(endpoint, id)
            },
            None => WatcherStep::Nothing,
        },
        OrderedWatcherEvent::Unregistered(endpoint) => {
            let step = if control.stop_item(&endpoint) {
                WatcherStep::Cancel(endpoint.dup())
            } else {
                WatcherStep::Nothing
            };
            control.publish(events, wake, Event::StatusNotifierUnregistered(endpoint));
            step
        },
    }
}

/// The watcher that an item had before it was taken away does not count any more once the item has
/// another one.
pub proof fn lemma_old_watcher_does_not_count(
    control: StatusNotifierAttachmentControlView,
    endpoint: StatusNotifierEndpointView,
)
    requires
        control.can_start(endpoint),
    ensures
        ({
            let first = control.started(endpoint);
            let second = first.stopped(endpoint).started(endpoint);
            &&& first.is_current(endpoint, control.next_item_id)
            &&& !first.stopped(endpoint).is_current(endpoint, control.next_item_id)
            &&& !second.is_current(endpoint, control.next_item_id)
            &&& second.is_current(endpoint, first.next_item_id)
        }),
{
}

/// Nothing counts and nothing can be started after an attachment was dropped.
pub proof fn lemma_cancelled_is_final(
    control: StatusNotifierAttachmentControlView,
    endpoint: StatusNotifierEndpointView,
    id: u64,
)
    ensures
        !control.cancelled().is_current(endpoint, id),
        !control.cancelled().can_start(endpoint),
        control.cancelled().started(endpoint) == control.cancelled(),
{
}

/// An item has one watcher however often it is named.
pub proof fn lemma_start_idempotent(
    control: StatusNotifierAttachmentControlView,
    endpoint: StatusNotifierEndpointView,
)
    ensures
        control.started(endpoint).started(endpoint) == control.started(endpoint),
{
}

/// The end of a watcher that does not count any more takes nothing away.
pub proof fn lemma_late_end_changes_nothing(
    control: StatusNotifierAttachmentControlView,
    endpoint: StatusNotifierEndpointView,
)
    requires
        control.can_start(endpoint),
    ensures
        ({
            let again = control.started(endpoint).stopped(endpoint).started(endpoint);
            again.ended(endpoint, control.next_item_id) == again
        }),
{
}

/// The bytes of a number, the highest first.
pub open spec fn bytes_of(pixel: u32) -> Seq<u8> {
    seq![
        (pixel / 0x100_0000) as u8,
        (pixel / 0x1_0000 % 0x100) as u8,
        (pixel / 0x100 % 0x100) as u8,
        (pixel % 0x100) as u8,
    ]
}

proof fn lemma_pixel_bytes(bytes: Seq<u8>, k: int)
    requires
        0 <= k,
        4 * k + 3 < bytes.len(),
    ensures
        bytes_of(pixel_at(bytes, k)) == bytes.subrange(4 * k, 4 * k + 4),
{
    let (a, b, c, d) = (bytes[4 * k], bytes[4 * k + 1], bytes[4 * k + 2], bytes[4 * k + 3]);
    let pixel = pixel_at(bytes, k);
    assert(pixel == a * 0x100_0000 + b * 0x1_0000 + c * 0x100 + d);
    assert(pixel / 0x100_0000 == a);
    assert(pixel / 0x1_0000 == a * 0x100 + b);
    assert(pixel / 0x100 == a * 0x1_0000 + b * 0x100 + c);
    assert(bytes_of(pixel) =~= bytes.subrange(4 * k, 4 * k + 4));
}

/// Whether an icon is an image pixel for pixel, the bytes of each pixel being its number, the highest
/// byte first.
pub open spec fn is_image(icon: StatusNotifierIconView, p: Pixmap) -> bool {
    icon matches StatusNotifierIconView::Pixmap { width, height, argb } && {
        &&& width == p.0
        &&& height == p.1
        &&& argb.len() == p.0 * p.1
        &&& forall|k: int|
            0 <= k < argb.len() ==> bytes_of(#[trigger] argb[k]) == p.2@.subrange(4 * k, 4 * k + 4)
    }
}

/// Whether an image has from 1 to 64 pixels in both directions and four bytes for each of them.
pub open spec fn is_complete(p: Pixmap) -> bool {
    1 <= p.0 <= 64 && 1 <= p.1 <= 64 && 4 * (p.0 * p.1) <= p.2@.len()
}

/// By how many pixels an image is too wide or too narrow, and too high or too low, for sixteen by
/// sixteen.
pub open spec fn off_sixteen(p: Pixmap) -> int {
    (if p.0 > 16 {
        p.0 - 16
    } else {
        16 - p.0
    }) + (if p.1 > 16 {
        p.1 - 16
    } else {
        16 - p.1
    })
}

/// The icon that is shown is one of the complete images, pixel for pixel, and none of them is closer to
/// sixteen pixels in width and height together. There is none only where no image is complete.
pub proof fn lemma_icon_is_closest_image(pixmaps: Seq<Pixmap>)
    ensures
        match selected_icon(pixmaps) {
            Some(icon) => exists|i: int|
                0 <= i < pixmaps.len() && is_complete(#[trigger] pixmaps[i]) && is_image(
                    icon,
                    pixmaps[i],
                ) && forall|j: int|
                    0 <= j < pixmaps.len() && is_complete(#[trigger] pixmaps[j]) ==> off_sixteen(
                        pixmaps[i],
                    ) <= off_sixteen(pixmaps[j]),
            None => forall|j: int| 0 <= j < pixmaps.len() ==> !is_complete(#[trigger] pixmaps[j]),
        },
{
    lemma_best_pixmap(pixmaps);
    assert forall|j: int| 0 <= j < pixmaps.len() implies is_complete(#[trigger] pixmaps[j])
        == is_usable(pixmaps[j]) by {
        let (w, h) = (pixmaps[j].0 as int, pixmaps[j].1 as int);
        assert(w * h * 4 == 4 * (w * h));
    }
    match best_pixmap(pixmaps) {
        Some(i) => {
            let p = pixmaps[i];
            let icon = icon_of(p);
            lemma_area(p.0 as int, p.1 as int);
            let argb = icon->argb;
            assert forall|k: int| 0 <= k < argb.len() implies bytes_of(#[trigger] argb[k])
                == p.2@.subrange(4 * k, 4 * k + 4) by {
                lemma_pixel_bytes(p.2@, k);
            }
            assert(is_image(icon, p));
            assert(is_complete(pixmaps[i]));
            assert forall|j: int| 0 <= j < pixmaps.len() && is_complete(
                #[trigger] pixmaps[j],
            ) implies off_sixteen(p) <= off_sixteen(pixmaps[j]) by {
                assert(is_usable(pixmaps[j]));
            }
        },
        None => {},
    }
}

/// The owner of the watcher is the one that was named last. Where it is another one than before, the bar
/// attaches to it, and tells that the one before is gone where there was one.
pub proof fn lemma_new_owner_is_followed(
    before: Option<Seq<char>>,
    new: Seq<char>,
    lost: Option<Seq<char>>,
)
    ensures
        ({
            let (owner, detach, unavailable, attach) = owner_step(before, Some(new), lost);
            &&& owner == Some(new)
            &&& attach is Some <==> before != Some(new)
            &&& attach is Some ==> attach == Some(new)
            &&& detach == attach is Some
            &&& unavailable <==> before is Some && before != Some(new)
        }),
{
}

/// The loss of the owner leaves none, and is told; the loss of any other one changes nothing.
pub proof fn lemma_lost_owner_is_left(before: Seq<char>, lost: Seq<char>)
    ensures
        ({
            let (owner, detach, unavailable, attach) = owner_step(Some(before), None, Some(lost));
            &&& attach is None
            &&& before == lost ==> owner is None && detach && unavailable
            &&& before != lost ==> owner == Some(before) && !detach && !unavailable
        }),
{
}

/// An item is shown as it says. The icon for attention is shown where attention is needed, and only
/// there; where it is missing the other one is. The menu is that of the service of the item.
pub proof fn lemma_item_is_as_it_says(
    endpoint: StatusNotifierEndpointView,
    properties: ItemProperties,
)
    ensures
        ({
            let item = item_described(endpoint, properties);
            let normal = optional_icon(properties.icon_pixmap);
            let attention = optional_icon(properties.attention_icon_pixmap);
            let needed = properties.status matches Some(s) && s@ == "NeedsAttention"@;
            &&& item.endpoint == endpoint
            &&& item.status == StatusNotifierStatus::NeedsAttention <==> needed
            &&& item.status == StatusNotifierStatus::Active <==> (properties.status matches Some(s)
                && s@ == "Active"@)
            &&& !needed ==> item.icon == normal
            &&& needed && attention is Some ==> item.icon == attention
            &&& needed && attention is None ==> item.icon == normal
            &&& item.item_is_menu <==> properties.item_is_menu == Some(true)
            &&& item.menu matches Some(menu) ==> menu.service == endpoint.service && Some(
                menu.object_path,
            ) == properties.menu.deep_view()
            &&& item.menu is None <==> (properties.menu is None || (properties.menu->0)@ == "/"@)
            &&& properties.icon_name matches Some(name) ==> (name@.len() > 0 ==> item.icon_name
                == Some(name@))
            &&& properties.attention_icon_name matches Some(name) ==> (name@.len() > 0
                ==> item.attention_icon_name == Some(name@))
            &&& item.icon_name matches Some(name) ==> name.len() > 0
            &&& item.attention_icon_name matches Some(name) ==> name.len() > 0
            &&& properties.icon_name is None ==> item.icon_name is None
            &&& properties.attention_icon_name is None ==> item.attention_icon_name is None
        }),
{
    reveal_strlit("Active");
    reveal_strlit("NeedsAttention");
    assert("Active"@.len() == 6);
    assert("NeedsAttention"@.len() == 14);
}

/// Items have watchers of their own: starting or stopping one leaves the others alone, and no two that
/// are started one after the other have one number.
pub proof fn lemma_items_are_watched_apart(
    control: StatusNotifierAttachmentControlView,
    a: StatusNotifierEndpointView,
    b: StatusNotifierEndpointView,
    id: u64,
)
    requires
        a != b,
    ensures
        control.started(a).watches(b, id) == control.watches(b, id),
        control.stopped(a).watches(b, id) == control.watches(b, id),
        control.can_start(a) ==> exists|n: u64| control.started(a).is_current(a, n),
        control.can_start(a) && control.can_start(b) ==> !(control.started(a).started(b).is_current(
            a,
            id,
        ) && control.started(a).started(b).is_current(b, id)),
        !control.stopped(a).watches(a, id),
        control.active ==> control.stopped(a).can_start(a),
        StatusNotifierAttachmentControlView::initial().can_start(a),
{
    if control.can_start(a) {
        assert(control.started(a).is_current(a, control.next_item_id));
    }
}

} // verus!
