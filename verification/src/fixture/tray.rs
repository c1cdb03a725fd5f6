//! An application with an item in the tray.
use vstd::prelude::*;

use crate::dbus::menu::WireLayoutNode;
use crate::dbus::notifier;
use crate::dbus::notifier::Pixmap;
use crate::dbus::wire::WireValue;
use crate::domain::menu::MenuItemView;
use crate::domain::status_notifier::StatusNotifierStatus;
use crate::fixture::args;
use crate::fixture::menu;
use crate::text;
use crate::value;
use crate::value::Value;

verus! {

pub const WATCHER_NAME: &'static str = "org.kde.StatusNotifierWatcher";

pub const WATCHER_PATH: &'static str = "/StatusNotifierWatcher";

pub const WATCHER_INTERFACE: &'static str = "org.kde.StatusNotifierWatcher";

/// What the program was asked to do.
pub struct Options {
    pub path: String,
    pub second: bool,
    pub unregister: bool,
    pub color: u8,
    pub status: String,
}

/// How much red was asked for; what is no number that fits counts as none.
pub open spec fn color_of(args: Seq<Seq<char>>) -> u8 {
    match args::value_after(args, "--color"@) {
        None => 0,
        Some(number) => match text::number_of(number, false, 255) {
            Ok(color) => color as u8,
            Err(_) => 0,
        },
    }
}

/// The status that was asked for.
pub open spec fn first_status(args: Seq<Seq<char>>) -> Seq<char> {
    if args.contains("--passive"@) {
        "Passive"@
    } else if args.contains("--attention"@) {
        "NeedsAttention"@
    } else {
        "Active"@
    }
}

proof fn lemma_digits_small(digits: Seq<char>, max: u32)
    ensures
        text::digits_of(digits, false, max) matches Ok(n) ==> n <= max,
    decreases digits.len(),
{
    if digits.len() > 0 {
        lemma_digits_small(digits.drop_last(), max);
    }
}

fn parse_color(args: &Vec<String>) -> (r: u8)
    ensures
        r == color_of(args.deep_view()),
{
    match args::following(args, "--color") {
        None => 0,
        Some(number) => {
            proof {
                lemma_digits_small(number@, 255);
                lemma_digits_small(number@.skip(1), 255);
            }
            match text::parse_number(number.as_str(), false, 255) {
                Ok(color) => color as u8,
                Err(_) => 0,
            }
        },
    }
}

/// What the program was asked to do.
pub fn parse_options(args: &Vec<String>) -> (r: Options)
    ensures
        r.path@ == (match args::value_after(args.deep_view(), "--path"@) {
            Some(path) => path,
            None => "/StatusNotifierItem"@,
        }),
        r.second == args.deep_view().contains("--second"@),
        r.unregister == args.deep_view().contains("--unregister"@),
        r.color == color_of(args.deep_view()),
        r.status@ == first_status(args.deep_view()),
{
    let path = match args::following(args, "--path") {
        Some(path) => path.dup(),
        None => "/StatusNotifierItem".to_owned(),
    };
    let status = if args::has(args, "--passive") {
        "Passive"
    } else if args::has(args, "--attention") {
        "NeedsAttention"
    } else {
        "Active"
    };
    Options {
        path,
        second: args::has(args, "--second"),
        unregister: args::has(args, "--unregister"),
        color: parse_color(args),
        status: status.to_owned(),
    }
}

/// The item.
pub struct FixtureItem {
    pub status: String,
    pub item_is_menu: bool,
    pub menu_path: Option<String>,
    pub color: u8,
}

/// The model of a [`FixtureItem`].
#[verifier::ext_equal]
pub struct FixtureItemView {
    pub status: Seq<char>,
    pub item_is_menu: bool,
    pub menu_path: Option<Seq<char>>,
    pub color: u8,
}

impl DeepView for FixtureItem {
    type V = FixtureItemView;

    open spec fn deep_view(&self) -> FixtureItemView {
        FixtureItemView {
            status: self.status@,
            item_is_menu: self.item_is_menu,
            menu_path: self.menu_path.deep_view(),
            color: self.color,
        }
    }
}

/// What an item has to tell once it has followed a command.
pub enum Notice {
    Nothing,
    NewStatus(String),
    NewItemIsMenu,
    NewMenu,
    Quit,
}

/// The model of a [`Notice`].
pub enum NoticeView {
    Nothing,
    NewStatus(Seq<char>),
    NewItemIsMenu,
    NewMenu,
    Quit,
}

impl DeepView for Notice {
    type V = NoticeView;

    open spec fn deep_view(&self) -> NoticeView {
        match self {
            Notice::Nothing => NoticeView::Nothing,
            Notice::NewStatus(status) => NoticeView::NewStatus(status@),
            Notice::NewItemIsMenu => NoticeView::NewItemIsMenu,
            Notice::NewMenu => NoticeView::NewMenu,
            Notice::Quit => NoticeView::Quit,
        }
    }
}

/// The status that a command names.
pub open spec fn named_status(command: Seq<char>) -> Option<Seq<char>> {
    if command == "active"@ {
        Some("Active"@)
    } else if command == "passive"@ {
        Some("Passive"@)
    } else if command == "attention"@ {
        Some("NeedsAttention"@)
    } else {
        None
    }
}

fn status_named(command: &String) -> (r: Option<&'static str>)
    ensures
        match named_status(command@) {
            Some(status) => r matches Some(s) && s@ == status,
            None => r is None,
        },
{
    if value::is_text(command, "active") {
        Some("Active")
    } else if value::is_text(command, "passive") {
        Some("Passive")
    } else if value::is_text(command, "attention") {
        Some("NeedsAttention")
    } else {
        None
    }
}

/// The item once it has followed a command, and what it has to tell.
pub open spec fn commanded(item: FixtureItemView, command: Seq<char>) -> (
    FixtureItemView,
    NoticeView,
) {
    match named_status(command) {
        Some(status) => (FixtureItemView { status, ..item }, NoticeView::NewStatus(status)),
        None => if command == "quit"@ {
            (item, NoticeView::Quit)
        } else if command == "menu"@ {
            (FixtureItemView { item_is_menu: true, ..item }, NoticeView::NewItemIsMenu)
        } else if command == "normal"@ {
            (FixtureItemView { item_is_menu: false, ..item }, NoticeView::NewItemIsMenu)
        } else if command == "menu-clear"@ {
            (FixtureItemView { menu_path: None, ..item }, NoticeView::NewMenu)
        } else if command == "menu-a"@ {
            (FixtureItemView { menu_path: Some("/MenuA"@), ..item }, NoticeView::NewMenu)
        } else if command == "menu-b"@ {
            (FixtureItemView { menu_path: Some("/MenuB"@), ..item }, NoticeView::NewMenu)
        } else {
            (item, NoticeView::Nothing)
        },
    }
}

/// How red a pixel is: the pixels alternate like the fields of a chess board.
pub open spec fn red_at(x: int, y: int, color: u8) -> int {
    let base = if (x + y) % 2 == 0 {
        0x30
    } else {
        0x80int
    };
    if base + color > 255 {
        255
    } else {
        base + color
    }
}

/// The bytes of the icon, four for a pixel: opacity, red, green and blue.
pub open spec fn pixel_byte(at: int, color: u8) -> int {
    let pixel = at / 4;
    let channel = at % 4;
    if channel == 0 {
        255
    } else if channel == 1 {
        red_at(pixel % 16, pixel / 16, color)
    } else if channel == 2 {
        0x90
    } else {
        0xe0
    }
}

impl FixtureItem {
    /// An item that has just been made.
    pub fn new(status: String, color: u8) -> (r: FixtureItem)
        ensures
            r.deep_view() == (FixtureItemView {
                status: status@,
                item_is_menu: false,
                menu_path: Some("/StatusNotifierMenu"@),
                color,
            }),
    {
        FixtureItem {
            status,
            item_is_menu: false,
            menu_path: Some("/StatusNotifierMenu".to_owned()),
            color,
        }
    }

    /// Follows a command, and returns what is to be told.
    pub fn follow(&mut self, line: &str) -> (r: Notice)
        ensures
            (final(self).deep_view(), r.deep_view()) == commanded(
                old(self).deep_view(),
                text::trimmed(line@),
            ),
    {
        let command = text::trim(line);
        match status_named(&command) {
            Some(status) => {
                self.status = status.to_owned();
                return Notice::NewStatus(status.to_owned());
            },
            None => {},
        }
        if value::is_text(&command, "quit") {
            Notice::Quit
        } else if value::is_text(&command, "menu") {
            self.item_is_menu = true;
            Notice::NewItemIsMenu
        } else if value::is_text(&command, "normal") {
            self.item_is_menu = false;
            Notice::NewItemIsMenu
        } else if value::is_text(&command, "menu-clear") {
            self.menu_path = None;
            Notice::NewMenu
        } else if value::is_text(&command, "menu-a") {
            self.menu_path = Some("/MenuA".to_owned());
            Notice::NewMenu
        } else if value::is_text(&command, "menu-b") {
            self.menu_path = Some("/MenuB".to_owned());
            Notice::NewMenu
        } else {
            Notice::Nothing
        }
    }

    /// Where the menu of the item is.
    pub fn menu(&self) -> (r: String)
        ensures
            r@ == (match self.deep_view().menu_path {
                Some(path) => path,
                None => "/"@,
            }),
    {
        match &self.menu_path {
            Some(path) => path.dup(),
            None => "/".to_owned(),
        }
    }

    /// The icon of the item.
    pub fn icon_pixmap(&self) -> (r: Vec<Pixmap>)
        ensures
            r@.len() == 1,
            r@[0].0 == 16,
            r@[0].1 == 16,
            r@[0].2@.len() == 1024,
            forall|i: int|
                0 <= i < 1024 ==> (#[trigger] r@[0].2@[i]) == pixel_byte(i, self.color),
    {
        let mut pixels: Vec<u8> = Vec::new();
        let mut pixel: u32 = 0;
        while pixel < 256
            invariant
                pixel <= 256,
                pixels@.len() == 4 * pixel,
                forall|i: int|
                    0 <= i < 4 * pixel ==> (#[trigger] pixels@[i]) == pixel_byte(i, self.color),
            decreases 256 - pixel,
        {
            let base: u8 = if (pixel % 16 + pixel / 16) % 2 == 0 {
                0x30
            } else {
                0x80
            };
            let red: u8 = if base as u32 + self.color as u32 > 255 {
                255
            } else {
                base + self.color
            };
            let ghost at = 4 * pixel as int;
            assert(at / 4 == pixel && (at + 1) / 4 == pixel && (at + 2) / 4 == pixel && (at + 3) / 4
                == pixel);
            pixels.push(255);
            pixels.push(red);
            pixels.push(0x90);
            pixels.push(0xe0);
            pixel += 1;
        }
        vec![(16, 16, pixels)]
    }
}

/// The menu of the item.
pub struct MenuFixture;

/// The items of the menu of the item.
pub open spec fn menu_items() -> Seq<MenuItemView> {
    seq![
        menu::plain_item(1, "Abrir"@),
        menu::plain_item(2, "Opção"@),
        menu::plain_item(3, "Sair"@),
    ]
}

impl MenuFixture {
    /// The menu, and its revision.
    pub fn get_layout(&self) -> (r: (u32, WireLayoutNode))
        ensures
            r.0 == 1,
            menu::is_menu_of(r.1, menu_items()),
    {
        let open = menu::leaf(menu::plain(1, "Abrir"));
        let option = menu::leaf(menu::plain(2, "Opção"));
        let quit = menu::leaf(menu::plain(3, "Sair"));
        let children: Vec<WireValue> = vec![open, option, quit];
        proof {
            assert(menu::stand_for(children@, menu_items()));
            menu::lemma_stand_for(children@, menu_items());
        }
        (1, WireLayoutNode(0, Vec::new(), children))
    }

    /// No item has anything to prepare before it shows.
    pub fn about_to_show(&self, _id: i32) -> (r: bool)
        ensures
            !r,
    {
        false
    }
}

proof fn lemma_names_differ()
    ensures
        "active"@ != "passive"@,
        "active"@ != "attention"@,
        "passive"@ != "attention"@,
        "quit"@ != "active"@ && "quit"@ != "passive"@ && "quit"@ != "attention"@,
        "menu"@ != "active"@ && "menu"@ != "passive"@ && "menu"@ != "attention"@ && "menu"@ != "quit"@,
        "normal"@ != "active"@ && "normal"@ != "passive"@ && "normal"@ != "attention"@ && "normal"@
            != "quit"@ && "normal"@ != "menu"@,
        "Active"@ != "Passive"@,
        "Active"@ != "NeedsAttention"@,
        "Passive"@ != "NeedsAttention"@,
{
    reveal_strlit("active");
    reveal_strlit("passive");
    reveal_strlit("attention");
    reveal_strlit("quit");
    reveal_strlit("menu");
    reveal_strlit("normal");
    reveal_strlit("Active");
    reveal_strlit("Passive");
    reveal_strlit("NeedsAttention");
    assert("active"@[0] == 'a');
    assert("normal"@[0] == 'n');
    assert("quit"@[0] == 'q');
    assert("menu"@[0] == 'm');
    assert("active"@.len() == 6 && "passive"@.len() == 7 && "attention"@.len() == 9);
    assert("Active"@.len() == 6 && "Passive"@.len() == 7 && "NeedsAttention"@.len() == 14);
}

/// The item has the status that it is told to have, as a host of the tray reads it, and tells so.
pub proof fn lemma_status_is_commanded(item: FixtureItemView)
    ensures
        notifier::status_named(commanded(item, "active"@).0.status) == StatusNotifierStatus::Active,
        notifier::status_named(commanded(item, "passive"@).0.status)
            == StatusNotifierStatus::Passive,
        notifier::status_named(commanded(item, "attention"@).0.status)
            == StatusNotifierStatus::NeedsAttention,
        commanded(item, "active"@).1 == NoticeView::NewStatus(commanded(item, "active"@).0.status),
        commanded(item, "passive"@).1 == NoticeView::NewStatus(commanded(item, "passive"@).0.status),
        commanded(item, "attention"@).1 == NoticeView::NewStatus(
            commanded(item, "attention"@).0.status,
        ),
        commanded(item, "menu"@).0.item_is_menu,
        !commanded(item, "normal"@).0.item_is_menu,
        commanded(item, "menu"@).0.status == item.status,
        commanded(item, "normal"@).0.status == item.status,
        commanded(item, "quit"@) == (item, NoticeView::Quit),
{
    lemma_names_differ();
}

/// The icon is opaque and checkered: each pixel differs in red from those beside, above and below it, and
/// is like those across the corners. A higher color is no less red.
pub proof fn lemma_icon_is_checkered(x: int, y: int, color: u8, higher: u8)
    requires
        0 <= x,
        0 <= y,
        color <= higher,
    ensures
        color < 207 ==> red_at(x, y, color) != red_at(x + 1, y, color),
        color < 207 ==> red_at(x, y, color) != red_at(x, y + 1, color),
        red_at(x, y, color) == red_at(x + 1, y + 1, color),
        red_at(0, 0, color) <= red_at(1, 0, color),
        red_at(x, y, color) <= red_at(x, y, higher),
        color < red_at(x, y, color) || color == 255,
        x < 16 && y < 16 ==> {
            let first = 4 * (16 * y + x);
            &&& pixel_byte(first, color) == 255
            &&& pixel_byte(first + 1, color) == red_at(x, y, color)
            &&& pixel_byte(first + 2, color) == pixel_byte(first + 2, higher)
            &&& pixel_byte(first + 3, color) == pixel_byte(first + 3, higher)
            &&& pixel_byte(first + 2, color) < pixel_byte(first + 3, color)
        },
{
    if x < 16 && y < 16 {
        let pixel = 16 * y + x;
        assert(pixel / 16 == y && pixel % 16 == x);
        assert((4 * pixel) / 4 == pixel && (4 * pixel + 1) / 4 == pixel);
        assert((4 * pixel) % 4 == 0 && (4 * pixel + 1) % 4 == 1);
        assert((4 * pixel + 2) % 4 == 2 && (4 * pixel + 3) % 4 == 3);
    }
}

} // verus!
