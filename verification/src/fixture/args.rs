//! The arguments that a program was started with.
use vstd::prelude::*;

use crate::lists;
use crate::seqs;

verus! {

/// Whether an argument is there.
pub fn has(args: &Vec<String>, name: &str) -> (r: bool)
    ensures
        r == args.deep_view().contains(name@),
{
    let name = name.to_owned();
    lists::contains(args, &name)
}

/// The argument behind the first one of the given name.
pub open spec fn value_after(args: Seq<Seq<char>>, name: Seq<char>) -> Option<Seq<char>> {
    match seqs::position_in(args, name) {
        Some(i) => if i + 1 < args.len() {
            Some(args[i + 1])
        } else {
            None
        },
        None => None,
    }
}

/// The argument behind the first one of the given name.
pub fn following<'a>(args: &'a Vec<String>, name: &str) -> (r: Option<&'a String>)
    ensures
        r.deep_view() == value_after(args.deep_view(), name@),
{
    let name = name.to_owned();
    match lists::position(args, &name) {
        Some(i) => if i + 1 < args.len() {
            Some(&args[i + 1])
        } else {
            None
        },
        None => None,
    }
}

/// The value of an option is the argument that follows it where it first stands.
pub proof fn lemma_value_follows_name(
    before: Seq<Seq<char>>,
    name: Seq<char>,
    value: Seq<char>,
    rest: Seq<Seq<char>>,
)
    requires
        !before.contains(name),
    ensures
        value_after(before + seq![name, value] + rest, name) == Some(value),
        value_after(before + seq![name], name) is None,
        value_after(before, name) is None,
{
    let args = before + seq![name, value] + rest;
    assert forall|i: int| 0 <= i < before.len() implies (#[trigger] args[i]) != name by {
        assert(before.contains(before[i]));
    }
    seqs::lemma_position_at(args, name, before.len() as int);
    let short = before + seq![name];
    assert forall|i: int| 0 <= i < before.len() implies (#[trigger] short[i]) != name by {
        assert(before.contains(before[i]));
    }
    seqs::lemma_position_at(short, name, before.len() as int);
    seqs::lemma_position_none(before, name);
}

} // verus!
