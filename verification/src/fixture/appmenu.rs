//! An application with a menu.
use vstd::prelude::*;

use crate::dbus::menu as wire_menu;
use crate::dbus::menu::WireLayoutNode;
use crate::dbus::wire;
use crate::dbus::wire::{Properties, WireValue};
use crate::domain::menu::{
    ChildrenDisplayView, MenuItemId, MenuItemTypeView, MenuItemView, MenuShortcutView,
};
use crate::fixture::args;
use crate::fixture::menu;
use crate::fixture::menu::Entry;
use crate::text;
use crate::text::NumberError;
use crate::value::Value;

verus! {

pub const REGISTRAR_NAME: &'static str = "com.canonical.AppMenu.Registrar";

pub const REGISTRAR_PATH: &'static str = "/com/canonical/AppMenu/Registrar";

/// The window that the menu is registered for where no other one is asked for.
pub const TEST_XID: u32 = 0x02e0_0003;

pub const TEST_OBJECT_PATH: &'static str = "/com/xbar/FixtureMenu";

/// What the program was asked to do.
pub struct Options {
    pub unregister: bool,
    pub query: bool,
    pub update: bool,
    pub disable_new: bool,
    pub hide_new: bool,
    pub add_export: bool,
    pub remove_recent: bool,
    pub rename_new: bool,
    pub prefix: String,
    pub xid: u32,
}

/// The window that was asked for, in hexadecimal behind `0x` or in decimal.
pub open spec fn window_of(args: Seq<Seq<char>>) -> Result<u32, NumberError> {
    match args::value_after(args, "--xid"@) {
        None => Ok(TEST_XID),
        Some(number) => if text::is_prefix(number, "0x"@) {
            text::number_of(number.skip(2), true, u32::MAX)
        } else {
            text::number_of(number, false, u32::MAX)
        },
    }
}

fn parse_window(args: &Vec<String>) -> (r: Result<u32, NumberError>)
    ensures
        r == window_of(args.deep_view()),
{
    match args::following(args, "--xid") {
        None => Ok(TEST_XID),
        Some(number) => {
            let number = number.as_str();
            if text::starts_with(number, "0x") {
                proof {
                    reveal_strlit("0x");
                }
                let digits = number.substring_char(2, number.unicode_len());
                assert(digits@ =~= number@.skip(2));
                text::parse_number(digits, true, u32::MAX)
            } else {
                text::parse_number(number, false, u32::MAX)
            }
        },
    }
}

/// What the program was asked to do.
pub fn parse_options(args: &Vec<String>) -> (r: Result<Options, NumberError>)
    ensures
        match window_of(args.deep_view()) {
            Err(e) => r matches Err(f) && f == e,
            Ok(xid) => r matches Ok(options) && {
                let given = args.deep_view();
                &&& options.xid == xid
                &&& options.unregister == given.contains("--unregister"@)
                &&& options.query == given.contains("--query"@)
                &&& options.update == given.contains("--update"@)
                &&& options.disable_new == given.contains("--disable-new"@)
                &&& options.hide_new == given.contains("--hide-new"@)
                &&& options.add_export == given.contains("--add-export"@)
                &&& options.remove_recent == given.contains("--remove-recent"@)
                &&& options.rename_new == given.contains("--rename-new"@)
                &&& options.prefix@ == (match args::value_after(given, "--prefix"@) {
                    Some(prefix) => prefix,
                    None => "Fixture"@,
                })
            },
        },
{
    let xid = match parse_window(args) {
        Ok(xid) => xid,
        Err(e) => {
            return Err(e);
        },
    };
    let prefix = match args::following(args, "--prefix") {
        Some(prefix) => prefix.dup(),
        None => "Fixture".to_owned(),
    };
    Ok(
        Options {
            unregister: args::has(args, "--unregister"),
            query: args::has(args, "--query"),
            update: args::has(args, "--update"),
            disable_new: args::has(args, "--disable-new"),
            hide_new: args::has(args, "--hide-new"),
            add_export: args::has(args, "--add-export"),
            remove_recent: args::has(args, "--remove-recent"),
            rename_new: args::has(args, "--rename-new"),
            prefix,
            xid,
        },
    )
}

impl Options {
    /// Whether the properties of an item are to change.
    pub open spec fn changes_properties(self) -> bool {
        self.disable_new || self.hide_new || self.rename_new
    }

    /// Whether the layout is to change.
    pub open spec fn changes_layout(self) -> bool {
        self.update || self.add_export || self.remove_recent
    }

    /// Whether the properties of an item are to change.
    pub fn announces_properties(&self) -> (r: bool)
        ensures
            r == self.changes_properties(),
    {
        self.disable_new || self.hide_new || self.rename_new
    }

    /// Whether the layout is to change.
    pub fn announces_layout(&self) -> (r: bool)
        ensures
            r == self.changes_layout(),
    {
        self.update || self.add_export || self.remove_recent
    }
}

/// An item that opens a menu of its own.
pub open spec fn submenu_item(id: i32, label: Seq<char>, children: Seq<MenuItemView>) -> MenuItemView {
    MenuItemView {
        children_display: Some(ChildrenDisplayView::Submenu),
        children,
        ..menu::plain_item(id, label)
    }
}

/// The item to make something new.
pub open spec fn new_item(disabled: bool, hidden: bool) -> MenuItemView {
    MenuItemView {
        enabled: !disabled,
        visible: !hidden,
        shortcut: Some(MenuShortcutView { keys: seq![seq!["<Control>"@, "N"@]] }),
        ..menu::plain_item(2, "Novo"@)
    }
}

/// The item with what was opened last, which is known only once the item has been about to show.
pub open spec fn recent_item(filled: bool) -> MenuItemView {
    submenu_item(
        9,
        "Recentes"@,
        if filled {
            seq![menu::plain_item(7, "projeto-a"@), menu::plain_item(8, "projeto-b"@)]
        } else {
            Seq::empty()
        },
    )
}

/// The line above the item to leave.
pub open spec fn separator_item() -> MenuItemView {
    MenuItemView {
        id: MenuItemId(10),
        label: None,
        enabled: true,
        visible: true,
        item_type: MenuItemTypeView::Separator,
        children_display: None,
        shortcut: None,
        icon_name: None,
        action: None,
        children: Seq::empty(),
    }
}

/// The item to leave.
pub open spec fn quit_item() -> MenuItemView {
    MenuItemView {
        enabled: false,
        icon_name: Some("application-exit"@),
        ..menu::plain_item(3, "Sair"@)
    }
}

/// The items of the menu for files.
pub open spec fn file_items(
    prepared: bool,
    disabled_new: bool,
    hidden_new: bool,
    extra_export: bool,
    remove_recent: bool,
) -> Seq<MenuItemView> {
    let new = new_item(disabled_new, hidden_new);
    let recent = recent_item(prepared && !remove_recent);
    if extra_export {
        seq![new, menu::plain_item(13, "Exportar"@), recent, separator_item(), quit_item()]
    } else {
        seq![new, recent, separator_item(), quit_item()]
    }
}

/// The items of the menu to edit.
pub open spec fn edit_items() -> Seq<MenuItemView> {
    seq![
        menu::plain_item(11, "Copiar"@),
        MenuItemView { enabled: false, ..menu::plain_item(12, "Colar"@) },
    ]
}

/// The menu of the application.
pub open spec fn menu_items(
    prepared: bool,
    disabled_new: bool,
    hidden_new: bool,
    extra_export: bool,
    remove_recent: bool,
    prefix: Seq<char>,
) -> Seq<MenuItemView> {
    seq![
        submenu_item(
            1,
            prefix + "-_Arquivo"@,
            file_items(prepared, disabled_new, hidden_new, extra_export, remove_recent),
        ),
        submenu_item(4, prefix + "-Editar"@, edit_items()),
        menu::plain_item(5, prefix + "-Exibir"@),
        MenuItemView { visible: false, ..menu::plain_item(6, "Ajuda"@) },
    ]
}

fn submenu(id: i32, label: &str, children: Vec<WireValue>, Ghost(items): Ghost<Seq<MenuItemView>>) -> (r:
    WireValue)
    requires
        menu::stand_for(children@, items),
    ensures
        menu::stands_for(r, submenu_item(id, label@, items)),
{
    let entry = Entry { children_display: Some("submenu".to_owned()), ..menu::plain(id, label) };
    assert(MenuItemView { children: items, ..menu::entry_item(entry) } =~= submenu_item(
        id,
        label@,
        items,
    ));
    menu::item(entry, children, Ghost(items))
}

fn plain(id: i32, label: &str) -> (r: WireValue)
    ensures
        menu::stands_for(r, menu::plain_item(id, label@)),
{
    menu::leaf(menu::plain(id, label))
}

fn new_entry(disabled: bool, hidden: bool) -> (r: WireValue)
    ensures
        menu::stands_for(r, new_item(disabled, hidden)),
{
    let combination: Vec<String> = vec!["<Control>".to_owned(), "N".to_owned()];
    assert(combination.deep_view() =~= seq!["<Control>"@, "N"@]);
    let keys: Vec<Vec<String>> = vec![combination];
    assert(keys.deep_view() =~= seq![seq!["<Control>"@, "N"@]]);
    let entry = Entry {
        enabled: Some(!disabled),
        visible: Some(!hidden),
        shortcut: Some(keys),
        ..menu::plain(2, "Novo")
    };
    assert(menu::entry_item(entry) =~= new_item(disabled, hidden));
    menu::leaf(entry)
}

fn recent_entry(filled: bool) -> (r: WireValue)
    ensures
        menu::stands_for(r, recent_item(filled)),
{
    if filled {
        let a = plain(7, "projeto-a");
        let b = plain(8, "projeto-b");
        let children: Vec<WireValue> = vec![a, b];
        let ghost items = seq![
            menu::plain_item(7, "projeto-a"@),
            menu::plain_item(8, "projeto-b"@),
        ];
        assert(menu::stand_for(children@, items));
        submenu(9, "Recentes", children, Ghost(items))
    } else {
        submenu(9, "Recentes", Vec::new(), Ghost(Seq::empty()))
    }
}

fn separator_entry() -> (r: WireValue)
    ensures
        menu::stands_for(r, separator_item()),
{
    let entry = Entry {
        id: 10,
        label: None,
        enabled: None,
        visible: None,
        item_type: Some("separator".to_owned()),
        children_display: None,
        shortcut: None,
        icon_name: None,
    };
    assert(menu::entry_item(entry) =~= separator_item());
    menu::leaf(entry)
}

fn quit_entry() -> (r: WireValue)
    ensures
        menu::stands_for(r, quit_item()),
{
    let entry = Entry {
        enabled: Some(false),
        icon_name: Some("application-exit".to_owned()),
        ..menu::plain(3, "Sair")
    };
    assert(menu::entry_item(entry) =~= quit_item());
    menu::leaf(entry)
}

fn file_entries(
    prepared: bool,
    disabled_new: bool,
    hidden_new: bool,
    extra_export: bool,
    remove_recent: bool,
) -> (r: Vec<WireValue>)
    ensures
        menu::stand_for(
            r@,
            file_items(prepared, disabled_new, hidden_new, extra_export, remove_recent),
        ),
{
    let mut children: Vec<WireValue> = Vec::new();
    children.push(new_entry(disabled_new, hidden_new));
    if extra_export {
        children.push(plain(13, "Exportar"));
    }
    children.push(recent_entry(prepared && !remove_recent));
    children.push(separator_entry());
    children.push(quit_entry());
    children
}

fn edit_entries() -> (r: Vec<WireValue>)
    ensures
        menu::stand_for(r@, edit_items()),
{
    let copy = plain(11, "Copiar");
    let entry = Entry { enabled: Some(false), ..menu::plain(12, "Colar") };
    assert(menu::entry_item(entry) =~= edit_items()[1]);
    let paste = menu::leaf(entry);
    vec![copy, paste]
}

/// The menu of the application, as it is sent.
pub fn layout(
    prepared: bool,
    disabled_new: bool,
    hidden_new: bool,
    extra_export: bool,
    remove_recent: bool,
    prefix: &str,
) -> (r: WireLayoutNode)
    ensures
        menu::is_menu_of(
            r,
            menu_items(
                prepared,
                disabled_new,
                hidden_new,
                extra_export,
                remove_recent,
                prefix@,
            ),
        ),
{
    let file_children = file_entries(
        prepared,
        disabled_new,
        hidden_new,
        extra_export,
        remove_recent,
    );
    let file = submenu(
        1,
        text::concat(prefix, "-_Arquivo").as_str(),
        file_children,
        Ghost(file_items(prepared, disabled_new, hidden_new, extra_export, remove_recent)),
    );
    let edit = submenu(
        4,
        text::concat(prefix, "-Editar").as_str(),
        edit_entries(),
        Ghost(edit_items()),
    );
    let view = plain(5, text::concat(prefix, "-Exibir").as_str());
    let entry = Entry { visible: Some(false), ..menu::plain(6, "Ajuda") };
    let ghost items = menu_items(
        prepared,
        disabled_new,
        hidden_new,
        extra_export,
        remove_recent,
        prefix@,
    );
    assert(menu::entry_item(entry) =~= items[3]);
    let help = menu::leaf(entry);
    let children: Vec<WireValue> = vec![file, edit, view, help];
    proof {
        assert(menu::stand_for(children@, items));
        menu::lemma_stand_for(children@, items);
    }
    WireLayoutNode(0, Vec::new(), children)
}

/// What the application remembers.
pub struct Fixture {
    pub revision: u32,
    pub prepared: bool,
    pub disabled_new: bool,
    pub hidden_new: bool,
    pub extra_export: bool,
    pub remove_recent: bool,
    pub prefix: String,
}

/// The label of an item, as the application tells which one was chosen.
pub open spec fn label_of(id: i32) -> Seq<char> {
    if id == 2 {
        "Novo"@
    } else if id == 7 {
        "projeto-a"@
    } else if id == 8 {
        "projeto-b"@
    } else if id == 11 {
        "Copiar"@
    } else if id == 3 {
        "Sair"@
    } else {
        "unknown"@
    }
}

/// The label of an item, as the application tells which one was chosen.
pub fn event_label(id: i32) -> (r: &'static str)
    ensures
        r@ == label_of(id),
{
    match id {
        2 => "Novo",
        7 => "projeto-a",
        8 => "projeto-b",
        11 => "Copiar",
        3 => "Sair",
        _ => "unknown",
    }
}

impl Fixture {
    /// The items of the menu as it is.
    pub open spec fn items(self) -> Seq<MenuItemView> {
        menu_items(
            self.prepared,
            self.disabled_new,
            self.hidden_new,
            self.extra_export,
            self.remove_recent,
            self.prefix@,
        )
    }

    /// An application that has just been started.
    pub fn new(prefix: String) -> (r: Fixture)
        ensures
            r.revision == 1,
            r.prefix == prefix,
            !r.prepared && !r.disabled_new && !r.hidden_new && !r.extra_export && !r.remove_recent,
    {
        Fixture {
            revision: 1,
            prepared: false,
            disabled_new: false,
            hidden_new: false,
            extra_export: false,
            remove_recent: false,
            prefix,
        }
    }

    /// The menu as it is, and its revision.
    pub fn get_layout(&self) -> (r: (u32, WireLayoutNode))
        ensures
            r.0 == self.revision,
            menu::is_menu_of(r.1, self.items()),
    {
        (
            self.revision,
            layout(
                self.prepared,
                self.disabled_new,
                self.hidden_new,
                self.extra_export,
                self.remove_recent,
                self.prefix.as_str(),
            ),
        )
    }

    /// An item is about to show: the first time, the one with what was opened last is filled, which
    /// makes a new revision.
    pub fn about_to_show(&mut self, id: i32) -> (r: bool)
        ensures
            r == (id == 9 && !old(self).prepared),
            *final(self) == (if r {
                Fixture {
                    prepared: true,
                    revision: old(self).revision.wrapping_add(1),
                    ..*old(self)
                }
            } else {
                *old(self)
            }),
    {
        if id == 9 && !self.prepared {
            self.prepared = true;
            self.revision = self.revision.wrapping_add(1);
            true
        } else {
            false
        }
    }

    /// The menu changes as it was asked for.
    pub fn apply(&mut self, options: &Options)
        ensures
            *final(self) == (Fixture {
                disabled_new: options.disable_new,
                hidden_new: options.hide_new,
                extra_export: options.add_export,
                remove_recent: options.remove_recent,
                revision: 2,
                ..*old(self)
            }),
    {
        self.disabled_new = options.disable_new;
        self.hidden_new = options.hide_new;
        self.extra_export = options.add_export;
        self.remove_recent = options.remove_recent;
        self.revision = 2;
    }
}

/// What is announced of the properties of the item to make something new: those that change.
pub fn property_updates(options: &Options) -> (r: Vec<(i32, Properties)>)
    ensures
        r@.len() == 1,
        r@[0].0 == 2,
        ({
            let changed = wire::named(r@[0].1@);
            &&& wire_menu::property_flag(changed, "enabled"@) == Ok::<Option<bool>, Seq<char>>(
                if options.disable_new {
                    Some(false)
                } else {
                    None
                },
            )
            &&& wire_menu::property_flag(changed, "visible"@) == Ok::<Option<bool>, Seq<char>>(
                if options.hide_new {
                    Some(false)
                } else {
                    None
                },
            )
            &&& wire_menu::property_text(changed, "label"@) == Ok::<Option<Seq<char>>, Seq<char>>(
                if options.rename_new {
                    Some("Novo atualizado"@)
                } else {
                    None
                },
            )
            &&& forall|name: Seq<char>| #[trigger]
                wire::property(changed, name) is Some ==> name == "enabled"@ || name == "visible"@
                    || name == "label"@
        }),
{
    let mut changed: Properties = Vec::new();
    proof {
        menu::lemma_names_differ();
    }
    assert(forall|name: Seq<char>| #[trigger]
        wire::property(wire::named(changed@), name) is None);
    if options.disable_new {
        menu::set_property(&mut changed, "enabled", WireValue::Bool(false));
    }
    if options.hide_new {
        menu::set_property(&mut changed, "visible", WireValue::Bool(false));
    }
    if options.rename_new {
        menu::set_property(&mut changed, "label", WireValue::Str("Novo atualizado".to_owned()));
    }
    vec![(2, changed)]
}

/// The menu follows its switches: the new entry can be used unless it is disabled and seen unless it is
/// hidden, the export entry is there where it is asked for, and the recent files are there once they are
/// prepared and not removed.
pub proof fn lemma_menu_follows_switches(
    prepared: bool,
    disabled_new: bool,
    hidden_new: bool,
    extra_export: bool,
    remove_recent: bool,
    prefix: Seq<char>,
)
    ensures
        ({
            let items = menu_items(
                prepared,
                disabled_new,
                hidden_new,
                extra_export,
                remove_recent,
                prefix,
            );
            let file = items[0].children;
            let recent = file[file.len() - 3];
            &&& file[0].enabled != disabled_new
            &&& file[0].visible != hidden_new
            &&& file.len() == if extra_export {
                5int
            } else {
                4
            }
            &&& recent.children.len() == if prepared && !remove_recent {
                2int
            } else {
                0
            }
            &&& file[file.len() - 2].item_type is Separator
            &&& items[0].label matches Some(label) && text::is_prefix(label, prefix)
            &&& items[1].label matches Some(label) && text::is_prefix(label, prefix)
            &&& items[2].label matches Some(label) && text::is_prefix(label, prefix)
        }),
{
    text::lemma_parts_stand_at_ends(prefix, "-_Arquivo"@);
    text::lemma_parts_stand_at_ends(prefix, "-Editar"@);
    text::lemma_parts_stand_at_ends(prefix, "-Exibir"@);
}

/// What is told of an item that is used is its label.
pub proof fn lemma_items_are_told_by_label(
    disabled_new: bool,
    hidden_new: bool,
    extra_export: bool,
    prefix: Seq<char>,
)
    ensures
        ({
            let items = menu_items(true, disabled_new, hidden_new, extra_export, false, prefix);
            let file = items[0].children;
            let recent = file[file.len() - 3].children;
            &&& file[0].label == Some(label_of(file[0].id.0))
            &&& file.last().label == Some(label_of(file.last().id.0))
            &&& recent[0].label == Some(label_of(recent[0].id.0))
            &&& recent[1].label == Some(label_of(recent[1].id.0))
            &&& items[1].children[0].label == Some(label_of(items[1].children[0].id.0))
        }),
{
}

} // verus!
