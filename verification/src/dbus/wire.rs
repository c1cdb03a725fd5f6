//! Values as they come over the bus.
use vstd::prelude::*;

use crate::seqs;
use crate::value;
use crate::value::Value;

verus! {

/// A value as it comes over the bus, as far as menus are made of such values.
#[derive(Debug, Eq, PartialEq)]
pub enum WireValue {
    Str(String),
    Bool(bool),
    I32(i32),
    U32(u32),
    Structure(Vec<WireValue>),
    Array(Vec<WireValue>),
    Dict(Vec<(WireValue, WireValue)>),
    /// A value in a variant.
    Variant(Box<WireValue>),
    /// A value of any other type.
    Other,
}

/// Named values.
pub type Properties = Vec<(String, WireValue)>;

/// What is said of a value that has another type than the one asked for.
pub open spec fn wrong_type() -> Seq<char> {
    "incorrect type"@
}

/// The text that a value is.
pub open spec fn text_of(v: WireValue) -> Option<Seq<char>> {
    match v {
        WireValue::Str(s) => Some(s@),
        _ => None,
    }
}

/// The text that a value is.
pub fn as_text(v: &WireValue) -> (r: Option<&String>)
    ensures
        r.deep_view() == text_of(*v),
{
    match v {
        WireValue::Str(s) => Some(s),
        _ => None,
    }
}

/// The truth value that a value is.
pub open spec fn flag_of(v: WireValue) -> Option<bool> {
    match v {
        WireValue::Bool(b) => Some(b),
        _ => None,
    }
}

/// The truth value that a value is.
pub fn as_flag(v: &WireValue) -> (r: Option<bool>)
    ensures
        r == flag_of(*v),
{
    match v {
        WireValue::Bool(b) => Some(*b),
        _ => None,
    }
}

/// The number that a value is.
pub open spec fn number_of(v: WireValue) -> Option<u32> {
    match v {
        WireValue::U32(n) => Some(n),
        _ => None,
    }
}

/// The number that a value is.
pub fn as_number(v: &WireValue) -> (r: Option<u32>)
    ensures
        r == number_of(*v),
{
    match v {
        WireValue::U32(n) => Some(*n),
        _ => None,
    }
}

/// The number with a sign that a value is.
pub open spec fn signed_of(v: WireValue) -> Option<i32> {
    match v {
        WireValue::I32(n) => Some(n),
        _ => None,
    }
}

/// The number with a sign that a value is.
pub fn as_signed(v: &WireValue) -> (r: Option<i32>)
    ensures
        r == signed_of(*v),
{
    match v {
        WireValue::I32(n) => Some(*n),
        _ => None,
    }
}

/// A value, or the one in it where it is a variant.
pub open spec fn unwrapped_once(v: WireValue) -> WireValue {
    match v {
        WireValue::Variant(inner) => *inner,
        _ => v,
    }
}

/// A value, or the one in it where it is a variant.
pub fn unwrap_once(v: &WireValue) -> (r: &WireValue)
    ensures
        *r == unwrapped_once(*v),
{
    match v {
        WireValue::Variant(inner) => &**inner,
        _ => v,
    }
}

/// The value in any number of variants.
pub open spec fn unwrapped(v: WireValue) -> WireValue
    decreases v,
{
    match v {
        WireValue::Variant(inner) => unwrapped(*inner),
        _ => v,
    }
}

/// The value in any number of variants.
pub fn unwrap(v: &WireValue) -> (r: &WireValue)
    ensures
        *r == unwrapped(*v),
    decreases v,
{
    match v {
        WireValue::Variant(inner) => unwrap(&**inner),
        _ => v,
    }
}

/// Named values by the text of their names.
pub open spec fn named(properties: Seq<(String, WireValue)>) -> Seq<(Seq<char>, WireValue)> {
    properties.map_values(|p: (String, WireValue)| (p.0@, p.1))
}

/// The value of the first property of a name.
pub open spec fn property(properties: Seq<(Seq<char>, WireValue)>, name: Seq<char>) -> Option<
    WireValue,
>
    decreases properties.len(),
{
    if properties.len() == 0 {
        None
    } else if properties[0].0 == name {
        Some(properties[0].1)
    } else {
        property(properties.skip(1), name)
    }
}

/// The value of the first property of a name.
pub fn get_property<'a>(properties: &'a Properties, name: &str) -> (r: Option<&'a WireValue>)
    ensures
        match property(named(properties@), name@) {
            Some(v) => r == Some(&v),
            None => r is None,
        },
{
    let ghost all = named(properties@);
    let mut i: usize = 0;
    assert(all.skip(0) =~= all);
    while i < properties.len()
        invariant
            i <= properties.len(),
            all == named(properties@),
            property(all, name@) == property(all.skip(i as int), name@),
        decreases properties.len() - i,
    {
        assert(all.skip(i as int)[0] == all[i as int]);
        assert(all.skip(i as int).skip(1) =~= all.skip(i + 1));
        if value::is_text(&properties[i].0, name) {
            return Some(&properties[i].1);
        }
        i += 1;
    }
    None
}

/// The texts that the elements of an array are, each of which may be in a variant.
pub open spec fn texts_of(elements: Seq<WireValue>) -> Option<Seq<Seq<char>>>
    decreases elements.len(),
{
    if elements.len() == 0 {
        Some(Seq::empty())
    } else {
        match (texts_of(elements.drop_last()), text_of(unwrapped_once(elements.last()))) {
            (Some(texts), Some(text)) => Some(texts.push(text)),
            _ => None,
        }
    }
}

proof fn lemma_texts_prefix(elements: Seq<WireValue>, n: int)
    requires
        0 <= n <= elements.len(),
        texts_of(elements.take(n)) is None,
    ensures
        texts_of(elements) is None,
    decreases elements.len(),
{
    if n < elements.len() {
        assert(elements.drop_last().take(n) =~= elements.take(n));
        lemma_texts_prefix(elements.drop_last(), n);
    } else {
        assert(elements.take(n) =~= elements);
    }
}

fn as_texts(elements: &Vec<WireValue>) -> (r: Option<Vec<String>>)
    ensures
        r.deep_view() == texts_of(elements@),
{
    let mut texts: Vec<String> = Vec::new();
    let mut i: usize = 0;
    assert(elements@.take(0) =~= Seq::<WireValue>::empty());
    assert(texts.deep_view() =~= Seq::<Seq<char>>::empty());
    while i < elements.len()
        invariant
            i <= elements.len(),
            texts_of(elements@.take(i as int)) == Some(texts.deep_view()),
        decreases elements.len() - i,
    {
        assert(elements@.take(i + 1).drop_last() =~= elements@.take(i as int));
        assert(elements@.take(i + 1).last() == elements@[i as int]);
        let ghost before = texts.deep_view();
        match as_text(unwrap_once(&elements[i])) {
            Some(text) => {
                texts.push(text.dup());
                assert(texts.deep_view() =~= before.push(text@));
            },
            None => {
                proof {
                    lemma_texts_prefix(elements@, i + 1);
                }
                return None;
            },
        }
        i += 1;
    }
    assert(elements@.take(i as int) =~= elements@);
    Some(texts)
}

/// The lists of texts that the elements of an array are.
pub open spec fn text_lists_of(elements: Seq<WireValue>) -> Option<Seq<Seq<Seq<char>>>>
    decreases elements.len(),
{
    if elements.len() == 0 {
        Some(Seq::empty())
    } else {
        match (text_lists_of(elements.drop_last()), unwrapped_once(elements.last())) {
            (Some(lists), WireValue::Array(inner)) => match texts_of(inner@) {
                Some(texts) => Some(lists.push(texts)),
                None => None,
            },
            _ => None,
        }
    }
}

proof fn lemma_text_lists_prefix(elements: Seq<WireValue>, n: int)
    requires
        0 <= n <= elements.len(),
        text_lists_of(elements.take(n)) is None,
    ensures
        text_lists_of(elements) is None,
    decreases elements.len(),
{
    if n < elements.len() {
        assert(elements.drop_last().take(n) =~= elements.take(n));
        lemma_text_lists_prefix(elements.drop_last(), n);
    } else {
        assert(elements.take(n) =~= elements);
    }
}

/// The key combinations that a value is: an array of arrays of texts.
pub open spec fn keys_of(v: WireValue) -> Option<Seq<Seq<Seq<char>>>> {
    match v {
        WireValue::Array(elements) => text_lists_of(elements@),
        _ => None,
    }
}

fn one_text_list(v: &WireValue) -> (r: Option<Vec<String>>)
    ensures
        r.deep_view() == (match unwrapped_once(*v) {
            WireValue::Array(inner) => texts_of(inner@),
            _ => None,
        }),
{
    match unwrap_once(v) {
        WireValue::Array(inner) => as_texts(inner),
        _ => None,
    }
}

/// The key combinations that a value is.
pub fn as_keys(v: &WireValue) -> (r: Option<Vec<Vec<String>>>)
    ensures
        r.deep_view() == keys_of(*v),
{
    let elements = match v {
        WireValue::Array(elements) => elements,
        _ => {
            return None;
        },
    };
    let mut lists: Vec<Vec<String>> = Vec::new();
    let mut i: usize = 0;
    assert(elements@.take(0) =~= Seq::<WireValue>::empty());
    assert(lists.deep_view() =~= Seq::<Seq<Seq<char>>>::empty());
    while i < elements.len()
        invariant
            i <= elements.len(),
            *v == WireValue::Array(*elements),
            text_lists_of(elements@.take(i as int)) == Some(lists.deep_view()),
        decreases elements.len() - i,
    {
        assert(elements@.take(i + 1).drop_last() =~= elements@.take(i as int));
        assert(elements@.take(i + 1).last() == elements@[i as int]);
        let ghost before = lists.deep_view();
        match one_text_list(&elements[i]) {
            Some(texts) => {
                lists.push(texts);
                assert(lists.deep_view() =~= before.push(texts.deep_view()));
            },
            None => {
                proof {
                    lemma_text_lists_prefix(elements@, i + 1);
                }
                return None;
            },
        }
        i += 1;
    }
    assert(elements@.take(i as int) =~= elements@);
    Some(lists)
}

/// The value of a name is the one that stands with the name first.
pub proof fn lemma_property_is_first(
    properties: Seq<(Seq<char>, WireValue)>,
    name: Seq<char>,
    at: int,
)
    requires
        0 <= at < properties.len(),
        properties[at].0 == name,
        forall|i: int| 0 <= i < at ==> (#[trigger] properties[i]).0 != name,
    ensures
        property(properties, name) == Some(properties[at].1),
    decreases properties.len(),
{
    if at > 0 {
        assert(properties[0].0 != name);
        let rest = properties.skip(1);
        assert forall|i: int| 0 <= i < at - 1 implies (#[trigger] rest[i]).0 != name by {
            assert(rest[i] == properties[i + 1]);
        }
        lemma_property_is_first(rest, name, at - 1);
    }
}

/// A name that stands nowhere has no value.
pub proof fn lemma_property_is_missing(properties: Seq<(Seq<char>, WireValue)>, name: Seq<char>)
    requires
        forall|i: int| 0 <= i < properties.len() ==> (#[trigger] properties[i]).0 != name,
    ensures
        property(properties, name) is None,
    decreases properties.len(),
{
    if properties.len() > 0 {
        assert(properties[0].0 != name);
        let rest = properties.skip(1);
        assert forall|i: int| 0 <= i < rest.len() implies (#[trigger] rest[i]).0 != name by {
            assert(rest[i] == properties[i + 1]);
        }
        lemma_property_is_missing(rest, name);
    }
}

/// A name in front of others has its value there, and the others keep theirs.
pub proof fn lemma_property_in_front(
    properties: Seq<(Seq<char>, WireValue)>,
    set: (Seq<char>, WireValue),
    name: Seq<char>,
)
    ensures
        property(seq![set] + properties, name) == (if name == set.0 {
            Some(set.1)
        } else {
            property(properties, name)
        }),
{
    assert((seq![set] + properties).skip(1) =~= properties);
}

/// Whether a property has another name than the given one.
pub open spec fn named_otherwise(name: Seq<char>) -> spec_fn((Seq<char>, WireValue)) -> bool {
    |p: (Seq<char>, WireValue)| p.0 != name
}

/// Properties without those of a name.
pub open spec fn without(properties: Seq<(Seq<char>, WireValue)>, name: Seq<char>) -> Seq<
    (Seq<char>, WireValue),
> {
    properties.filter(named_otherwise(name))
}

proof fn lemma_without_first(properties: Seq<(Seq<char>, WireValue)>, name: Seq<char>)
    requires
        properties.len() > 0,
    ensures
        without(properties, name) == (if properties[0].0 != name {
            seq![properties[0]] + without(properties.skip(1), name)
        } else {
            without(properties.skip(1), name)
        }),
{
    seqs::lemma_filter_first(properties, named_otherwise(name));
}

/// Without a name, all other names keep their values.
pub proof fn lemma_property_removed(
    properties: Seq<(Seq<char>, WireValue)>,
    removed: Seq<char>,
    name: Seq<char>,
)
    ensures
        property(without(properties, removed), name) == (if name == removed {
            None
        } else {
            property(properties, name)
        }),
    decreases properties.len(),
{
    if properties.len() == 0 {
        reveal(Seq::filter);
    } else {
        let rest = properties.skip(1);
        lemma_without_first(properties, removed);
        lemma_property_removed(rest, removed, name);
        if properties[0].0 != removed {
            lemma_property_in_front(without(rest, removed), properties[0], name);
        }
    }
}

/// Texts in an array are read one by one, in order, where all of them are texts, and not otherwise.
pub proof fn lemma_texts_are_read(elements: Seq<WireValue>)
    ensures
        match texts_of(elements) {
            Some(texts) => texts.len() == elements.len() && forall|i: int|
                0 <= i < elements.len() ==> is_text_in(#[trigger] elements[i], texts[i]),
            None => exists|i: int|
                0 <= i < elements.len() && !(unwrapped_once(#[trigger] elements[i]) is Str),
        },
    decreases elements.len(),
{
    if elements.len() > 0 {
        let before = elements.drop_last();
        let last = elements.len() - 1;
        lemma_texts_are_read(before);
        match texts_of(elements) {
            Some(texts) => {
                assert forall|i: int| 0 <= i < elements.len() implies is_text_in(
                    #[trigger] elements[i],
                    texts[i],
                ) by {
                    if i < last {
                        assert(is_text_in(before[i], texts_of(before)->0[i]));
                    }
                }
            },
            None => {
                if texts_of(before) is None {
                    let i = choose|i: int|
                        0 <= i < before.len() && !(unwrapped_once(#[trigger] before[i]) is Str);
                    assert(!(unwrapped_once(elements[i]) is Str));
                } else {
                    assert(!(unwrapped_once(elements[last]) is Str));
                }
            },
        }
    }
}

/// Whether a value is a text, in a variant or not.
pub open spec fn is_text_in(v: WireValue, text: Seq<char>) -> bool {
    ||| (v matches WireValue::Str(s) && s@ == text)
    ||| (v matches WireValue::Variant(inner) && (*inner matches WireValue::Str(s) && s@ == text))
}

/// However many variants a value is wrapped in, it is the same value.
pub proof fn lemma_variants_do_not_matter(v: WireValue)
    ensures
        unwrapped(v) !is Variant,
        v !is Variant ==> unwrapped(v) == v && unwrapped_once(v) == v,
        v matches WireValue::Variant(inner) ==> unwrapped(v) == unwrapped(*inner) && unwrapped_once(v)
            == *inner,
    decreases v,
{
    if let WireValue::Variant(inner) = v {
        lemma_variants_do_not_matter(*inner);
    }
}

} // verus!
