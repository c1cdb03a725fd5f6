//! A service that keeps the list of items in the tray.
use vstd::prelude::*;

use crate::lists;
use crate::seqs;
use crate::table::KeySet;
use crate::text;
use crate::value;
use crate::value::Value;

verus! {

pub const WATCHER_NAME: &'static str = "org.kde.StatusNotifierWatcher";

pub const WATCHER_PATH: &'static str = "/StatusNotifierWatcher";

/// What the service is told to do.
#[derive(Debug, Eq, PartialEq)]
pub enum Command {
    Add(String),
    Remove(String),
    Quit,
}

/// The model of a [`Command`].
pub enum CommandView {
    Add(Seq<char>),
    Remove(Seq<char>),
    Quit,
}

impl DeepView for Command {
    type V = CommandView;

    open spec fn deep_view(&self) -> CommandView {
        match self {
            Command::Add(item) => CommandView::Add(item@),
            Command::Remove(item) => CommandView::Remove(item@),
            Command::Quit => CommandView::Quit,
        }
    }
}

/// The command on a line: a word, and for some an item behind it. What is no command is passed over.
pub open spec fn command_of(line: Seq<char>) -> Option<CommandView> {
    let start = text::without_lead(line);
    let word = text::first_run(start);
    let item = text::first_run(text::without_lead(text::after_run(start)));
    if word == "add"@ && item.len() > 0 {
        Some(CommandView::Add(item))
    } else if word == "remove"@ && item.len() > 0 {
        Some(CommandView::Remove(item))
    } else if word == "quit"@ {
        Some(CommandView::Quit)
    } else {
        None
    }
}

proof fn lemma_commands_differ()
    ensures
        "add"@.len() == 3,
        "remove"@.len() == 6,
        "quit"@.len() == 4,
{
    reveal_strlit("add");
    reveal_strlit("remove");
    reveal_strlit("quit");
}

/// The command on a line.
pub fn parse_command(line: &str) -> (r: Option<Command>)
    ensures
        r.deep_view() == command_of(line@),
{
    proof {
        lemma_commands_differ();
    }
    let (word, rest) = text::split_word(line);
    let (item, _) = text::split_word(rest.as_str());
    if value::is_text(&word, "add") {
        if item.as_str().is_empty() {
            None
        } else {
            Some(Command::Add(item))
        }
    } else if value::is_text(&word, "remove") {
        if item.as_str().is_empty() {
            None
        } else {
            Some(Command::Remove(item))
        }
    } else if value::is_text(&word, "quit") {
        Some(Command::Quit)
    } else {
        None
    }
}

/// What is to be told once a command has been followed.
pub enum Notice {
    Nothing,
    Registered(String),
    Unregistered(String),
    Quit,
}

/// The model of a [`Notice`].
pub enum NoticeView {
    Nothing,
    Registered(Seq<char>),
    Unregistered(Seq<char>),
    Quit,
}

impl DeepView for Notice {
    type V = NoticeView;

    open spec fn deep_view(&self) -> NoticeView {
        match self {
            Notice::Nothing => NoticeView::Nothing,
            Notice::Registered(item) => NoticeView::Registered(item@),
            Notice::Unregistered(item) => NoticeView::Unregistered(item@),
            Notice::Quit => NoticeView::Quit,
        }
    }
}

/// The items in the tray, and those who show them.
pub struct Watcher {
    pub items: Vec<String>,
    pub hosts: KeySet<String>,
}

/// The items once a command has been followed, and what is to be told.
pub open spec fn commanded(items: Seq<Seq<char>>, command: CommandView) -> (
    Seq<Seq<char>>,
    NoticeView,
) {
    match command {
        CommandView::Add(item) => if items.contains(item) {
            (items, NoticeView::Nothing)
        } else {
            (items.push(item), NoticeView::Registered(item))
        },
        CommandView::Remove(item) => match seqs::position_in(items, item) {
            Some(i) => (items.remove(i), NoticeView::Unregistered(item)),
            None => (items, NoticeView::Nothing),
        },
        CommandView::Quit => (items, NoticeView::Quit),
    }
}

/// The item that is there from the start.
pub open spec fn initial_item(service: Seq<char>) -> Seq<char> {
    service + "/StatusNotifierItem"@
}

/// The item that is there from the start.
pub fn initial(service: &str) -> (r: String)
    ensures
        r@ == initial_item(service@),
{
    text::concat(service, "/StatusNotifierItem")
}

impl Watcher {
    /// A service without items and hosts.
    pub fn new() -> (r: Watcher)
        ensures
            r.items@.len() == 0,
            r.hosts.deep_view() == Set::<Seq<char>>::empty(),
    {
        Watcher { items: Vec::new(), hosts: KeySet::new() }
    }

    /// Somebody shows the items.
    pub fn register_status_notifier_host(&mut self, host: String)
        ensures
            final(self).items == old(self).items,
            final(self).hosts.deep_view() == old(self).hosts.deep_view().insert(host@),
    {
        self.hosts.insert(host);
    }

    /// Whether anybody shows the items.
    pub fn is_status_notifier_host_registered(&self) -> (r: bool)
        ensures
            r == (self.hosts.deep_view() != Set::<Seq<char>>::empty()),
    {
        !self.hosts.is_empty()
    }

    /// Follows a command, and returns what is to be told.
    pub fn follow(&mut self, command: Command) -> (r: Notice)
        ensures
            final(self).hosts == old(self).hosts,
            (final(self).items.deep_view(), r.deep_view()) == commanded(
                old(self).items.deep_view(),
                command.deep_view(),
            ),
    {
        match command {
            Command::Add(item) => {
                if lists::contains(&self.items, &item) {
                    Notice::Nothing
                } else {
                    lists::push(&mut self.items, item.dup());
                    Notice::Registered(item)
                }
            },
            Command::Remove(item) => {
                match lists::position(&self.items, &item) {
                    Some(i) => {
                        lists::remove(&mut self.items, i);
                        Notice::Unregistered(item)
                    },
                    None => Notice::Nothing,
                }
            },
            Command::Quit => Notice::Quit,
        }
    }
}

proof fn lemma_position_of_last(items: Seq<Seq<char>>, item: Seq<char>)
    requires
        !items.contains(item),
    ensures
        seqs::position_in(items.push(item), item) == Some(items.len() as int),
{
    let all = items.push(item);
    assert forall|i: int| 0 <= i < items.len() implies (#[trigger] all[i]) != item by {
        assert(items.contains(items[i]));
    }
    seqs::lemma_position_at(all, item, items.len() as int);
}

/// To remove an item right after it was added brings the list back.
pub proof fn lemma_remove_undoes_add(items: Seq<Seq<char>>, item: Seq<char>)
    requires
        !items.contains(item),
    ensures
        commanded(
            commanded(items, CommandView::Add(item)).0,
            CommandView::Remove(item),
        ).0 == items,
{
    lemma_position_of_last(items, item);
    assert(items.push(item).remove(items.len() as int) =~= items);
}

/// No item is listed twice.
pub proof fn lemma_items_unique(items: Seq<Seq<char>>, command: CommandView)
    requires
        items.no_duplicates(),
    ensures
        commanded(items, command).0.no_duplicates(),
{
    match command {
        CommandView::Remove(item) => {
            if let Some(i) = seqs::position_in(items, item) {
                seqs::lemma_position_found(items, item);
                let left = items.remove(i);
                assert forall|j: int, k: int| 0 <= j < left.len() && 0 <= k < left.len() && j != k
                    implies left[j] != left[k] by {
                    let j0 = if j < i { j } else { j + 1 };
                    let k0 = if k < i { k } else { k + 1 };
                    assert(items[j0] != items[k0]);
                }
            }
        },
        _ => {},
    }
}

/// An item that is named behind a command is the one that the command is about.
pub proof fn lemma_command_names_item(item: Seq<char>)
    requires
        item.len() > 0,
        forall|i: int| 0 <= i < item.len() ==> !text::is_white_space(#[trigger] item[i]),
    ensures
        command_of("add"@ + seq![' '] + item) == Some(CommandView::Add(item)),
        command_of("remove"@ + seq![' '] + item) == Some(CommandView::Remove(item)),
        command_of("quit"@) == Some(CommandView::Quit),
        command_of("add"@) is None,
        command_of("remove"@) is None,
{
    lemma_commands_differ();
    reveal_strlit("add");
    reveal_strlit("remove");
    reveal_strlit("quit");
    lemma_word("add"@, item);
    lemma_word("remove"@, item);
    lemma_single_word("quit"@);
    lemma_single_word("add"@);
    lemma_single_word("remove"@);
}

proof fn lemma_word(word: Seq<char>, item: Seq<char>)
    requires
        word.len() > 0,
        forall|i: int| 0 <= i < word.len() ==> !text::is_white_space(#[trigger] word[i]),
        item.len() > 0,
        forall|i: int| 0 <= i < item.len() ==> !text::is_white_space(#[trigger] item[i]),
    ensures
        ({
            let line = word + seq![' '] + item;
            let start = text::without_lead(line);
            &&& text::first_run(start) == word
            &&& text::first_run(text::without_lead(text::after_run(start))) == item
        }),
{
    let line = word + seq![' '] + item;
    let rest = seq![' '] + item;
    assert(line =~= word + rest);
    assert(line[0] == word[0]);
    assert(text::is_white_space(' '));
    text::lemma_run_is_found(word, rest);
    assert(rest.skip(1) =~= item);
    assert(text::without_lead(rest) == text::without_lead(item));
    text::lemma_run_is_found(item, Seq::empty());
    assert(item + Seq::<char>::empty() =~= item);
}

proof fn lemma_single_word(word: Seq<char>)
    requires
        word.len() > 0,
        forall|i: int| 0 <= i < word.len() ==> !text::is_white_space(#[trigger] word[i]),
    ensures
        text::first_run(text::without_lead(word)) == word,
        text::first_run(text::without_lead(text::after_run(text::without_lead(word)))).len() == 0,
{
    text::lemma_run_is_found(word, Seq::empty());
    assert(word + Seq::<char>::empty() =~= word);
}

/// An item that is added is there and an item that is removed is not; that is told where it was not so
/// before, and other items stay.
pub proof fn lemma_items_come_and_go(items: Seq<Seq<char>>, item: Seq<char>, other: Seq<char>)
    requires
        items.no_duplicates(),
    ensures
        ({
            let (with, added) = commanded(items, CommandView::Add(item));
            let (without, removed) = commanded(items, CommandView::Remove(item));
            &&& with.contains(item)
            &&& !without.contains(item)
            &&& added == (if items.contains(item) {
                NoticeView::Nothing
            } else {
                NoticeView::Registered(item)
            })
            &&& removed == (if items.contains(item) {
                NoticeView::Unregistered(item)
            } else {
                NoticeView::Nothing
            })
            &&& other != item ==> (with.contains(other) <==> items.contains(other))
            &&& other != item ==> (without.contains(other) <==> items.contains(other))
        }),
{
    let with = commanded(items, CommandView::Add(item)).0;
    let without = commanded(items, CommandView::Remove(item)).0;
    seqs::lemma_position_found(items, item);
    if items.contains(item) {
        let k = choose|k: int| 0 <= k < items.len() && items[k] == item;
        assert forall|i: int| 0 <= i < k implies (#[trigger] items[i]) != item by {}
        seqs::lemma_position_at(items, item, k);
        assert(without == items.remove(k));
        if without.contains(item) {
            let i = choose|i: int| 0 <= i < without.len() && without[i] == item;
            assert(items[if i < k {
                i
            } else {
                i + 1
            }] == item);
        }
        if items.contains(other) && other != item {
            let i = choose|i: int| 0 <= i < items.len() && items[i] == other;
            assert(without[if i < k {
                i
            } else {
                i - 1
            }] == other);
        }
        if without.contains(other) {
            let i = choose|i: int| 0 <= i < without.len() && without[i] == other;
            assert(items[if i < k {
                i
            } else {
                i + 1
            }] == other);
        }
    } else {
        seqs::lemma_position_none(items, item);
        assert(with[items.len() as int] == item);
        if items.contains(other) {
            let i = choose|i: int| 0 <= i < items.len() && items[i] == other;
            assert(with[i] == other);
        }
        if with.contains(other) && other != item {
            let i = choose|i: int| 0 <= i < with.len() && with[i] == other;
            assert(items[i] == other);
        }
    }
}

} // verus!
