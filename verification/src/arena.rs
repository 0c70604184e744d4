//! The state of the arena's entities, as the first value tree of a roster
//! packet gives it.

use crate::pickle::{
    debug_text, key_trees_of, trees_of, value_trees_of, PickleEntry, PickleTree, PickleValue,
};
use crate::text::{text_of, utf8_text};
use std::collections::HashMap;
use vstd::prelude::*;
use vstd::string::*;
use vstd::utf8::valid_utf8;

verus! {

broadcast use vstd::std_specs::hash::group_hash_axioms;

/// One named value of an entity's state, as `{:?}` shows it.
#[derive(Debug)]
pub struct NamedText {
    pub name: String,
    pub text: String,
}

/// The state of the arena's entities: under the number of each entity, a
/// list whose items are sets of named values, or nothing. A set of named
/// values holds them in the order of their names in the value tree.
pub type ArenaState = HashMap<i64, Vec<Option<Vec<NamedText>>>>;

/// The model of a set of named values: name and text of each.
pub type FieldsView = Seq<(Seq<char>, Seq<char>)>;

/// The mathematical model of the state of the arena's entities.
pub type ArenaView = Map<i64, Seq<Option<FieldsView>>>;

/// The model of a set of named values.
pub open spec fn fields_view(fields: Seq<NamedText>) -> FieldsView {
    Seq::new(fields.len(), |i: int| (fields[i].name@, fields[i].text@))
}

/// The model of one item of an entity's list.
pub open spec fn item_view(item: Option<Vec<NamedText>>) -> Option<FieldsView> {
    match item {
        Some(fields) => Some(fields_view(fields@)),
        None => None,
    }
}

/// The model of the items of an entity's list.
pub open spec fn items_view(items: Seq<Option<Vec<NamedText>>>) -> Seq<Option<FieldsView>> {
    Seq::new(items.len(), |i: int| item_view(items[i]))
}

/// The model of the state of the arena's entities.
pub open spec fn arena_view(state: Map<i64, Vec<Option<Vec<NamedText>>>>) -> ArenaView {
    Map::new(|k: i64| state.contains_key(k), |k: i64| items_view(state[k]@))
}

/// The named value that an entry of a dictionary gives: its key read as
/// text, and its value as `{:?}` shows it. It gives none where the key is
/// not a run of bytes that is well-formed UTF-8.
pub open spec fn field_of(key: PickleTree, value: PickleTree) -> Option<(Seq<char>, Seq<char>)> {
    match key {
        PickleTree::Bytes(b) => if valid_utf8(b) {
            Some((text_of(b), debug_text(value)))
        } else {
            None
        },
        _ => None,
    }
}

/// The named values that the entries of a dictionary give, if each gives
/// one.
pub open spec fn fields_of(keys: Seq<PickleTree>, values: Seq<PickleTree>) -> Option<FieldsView> {
    if forall|i: int| 0 <= i < keys.len() ==> (#[trigger] field_of(keys[i], values[i])) is Some {
        Some(Seq::new(keys.len(), |i: int| field_of(keys[i], values[i])->Some_0))
    } else {
        None
    }
}

/// What an item of an entity's list gives: the named values of a
/// dictionary, nothing for the absent value. Anything else is out of shape.
pub open spec fn item_of(item: PickleTree) -> Option<Option<FieldsView>> {
    match item {
        PickleTree::Dict(keys, values) => match fields_of(keys, values) {
            Some(fields) => Some(Some(fields)),
            None => None,
        },
        PickleTree::Null => Some(None),
        _ => None,
    }
}

/// What the items of an entity's list give, if each is in shape.
pub open spec fn items_of(items: Seq<PickleTree>) -> Option<Seq<Option<FieldsView>>> {
    if forall|i: int| 0 <= i < items.len() ==> (#[trigger] item_of(items[i])) is Some {
        Some(Seq::new(items.len(), |i: int| item_of(items[i])->Some_0))
    } else {
        None
    }
}

/// The state of the entity that an entry of the arena's dictionary gives:
/// the key is the entity's number, the value the list of its items.
pub open spec fn entry_of(key: PickleTree, value: PickleTree) -> Option<
    (i64, Seq<Option<FieldsView>>),
> {
    match (key, value) {
        (PickleTree::Int(number), PickleTree::List(items)) => match items_of(items) {
            Some(items) => Some((number, items)),
            None => None,
        },
        _ => None,
    }
}

/// The state that the first `n` entries of the arena's dictionary give, if
/// each gives the state of an entity: each under its number, in place of what
/// an earlier entry gave under that number.
pub open spec fn arena_upto(keys: Seq<PickleTree>, values: Seq<PickleTree>, n: nat) -> Option<
    ArenaView,
>
    decreases n,
{
    if n == 0 || n > keys.len() {
        Some(Map::empty())
    } else {
        match (arena_upto(keys, values, (n - 1) as nat), entry_of(keys[n - 1], values[n - 1])) {
            (Some(state), Some((number, items))) => Some(state.insert(number, items)),
            _ => None,
        }
    }
}

/// The state of the arena's entities that a tree gives: that of the entries
/// of the dictionary. It gives none where the tree is no dictionary or any
/// part of it is out of shape.
pub open spec fn arena_of(tree: PickleTree) -> Option<ArenaView> {
    match tree {
        PickleTree::Dict(keys, values) => arena_upto(keys, values, keys.len()),
        _ => None,
    }
}

/// Once the entries of a dictionary give no state, more of them give none
/// either.
proof fn lemma_no_arena_from(keys: Seq<PickleTree>, values: Seq<PickleTree>, n: nat, m: nat)
    requires
        n <= m <= keys.len(),
        arena_upto(keys, values, n) is None,
    ensures
        arena_upto(keys, values, m) is None,
    decreases m,
{
    if n < m {
        lemma_no_arena_from(keys, values, n, (m - 1) as nat);
    }
}

/// The named value that an entry of a dictionary gives.
fn field_from(entry: &PickleEntry) -> (r: Option<NamedText>)
    ensures
        match r {
            Some(f) => field_of(entry.key@, entry.value@) == Some((f.name@, f.text@)),
            None => field_of(entry.key@, entry.value@) is None,
        },
{
    match entry.key.as_bytes() {
        Some(bytes) => match utf8_text(bytes.as_slice()) {
            Some(name) => Some(
                NamedText { name: String::from_str(name), text: entry.value.debug_string() },
            ),
            None => None,
        },
        None => None,
    }
}

/// The named values that the entries of a dictionary give.
fn fields_from(entries: &Vec<PickleEntry>) -> (r: Option<Vec<NamedText>>)
    ensures
        match r {
            Some(f) => fields_of(key_trees_of(entries@), value_trees_of(entries@)) == Some(
                fields_view(f@),
            ),
            None => fields_of(key_trees_of(entries@), value_trees_of(entries@)) is None,
        },
{
    let ghost keys = key_trees_of(entries@);
    let ghost values = value_trees_of(entries@);
    let mut out: Vec<NamedText> = Vec::new();
    let mut i: usize = 0;
    while i < entries.len()
        invariant
            i <= entries.len(),
            keys == key_trees_of(entries@),
            values == value_trees_of(entries@),
            out@.len() == i,
            forall|j: int|
                0 <= j < i ==> (#[trigger] field_of(keys[j], values[j])) == Some(
                    (out@[j].name@, out@[j].text@),
                ),
        decreases entries.len() - i,
    {
        match field_from(&entries[i]) {
            Some(f) => {
                out.push(f);
            },
            None => {
                assert(field_of(keys[i as int], values[i as int]) is None);
                return None;
            },
        }
        i += 1;
    }
    assert(fields_of(keys, values)->Some_0 =~= fields_view(out@));
    Some(out)
}

/// What an item of an entity's list gives.
fn item_from(item: &PickleValue) -> (r: Option<Option<Vec<NamedText>>>)
    ensures
        match r {
            Some(found) => item_of(item@) == Some(item_view(found)),
            None => item_of(item@) is None,
        },
{
    match item {
        PickleValue::Dict(entries) => match fields_from(entries) {
            Some(fields) => Some(Some(fields)),
            None => None,
        },
        PickleValue::Null => Some(None),
        _ => None,
    }
}

/// What the items of an entity's list give.
fn items_from(items: &Vec<PickleValue>) -> (r: Option<Vec<Option<Vec<NamedText>>>>)
    ensures
        match r {
            Some(found) => items_of(trees_of(items@)) == Some(items_view(found@)),
            None => items_of(trees_of(items@)) is None,
        },
{
    let ghost trees = trees_of(items@);
    let mut out: Vec<Option<Vec<NamedText>>> = Vec::new();
    let mut i: usize = 0;
    while i < items.len()
        invariant
            i <= items.len(),
            trees == trees_of(items@),
            out@.len() == i,
            forall|j: int| 0 <= j < i ==> (#[trigger] item_of(trees[j])) == Some(item_view(out@[j])),
        decreases items.len() - i,
    {
        match item_from(&items[i]) {
            Some(found) => {
                out.push(found);
            },
            None => {
                assert(item_of(trees[i as int]) is None);
                return None;
            },
        }
        i += 1;
    }
    assert(items_of(trees)->Some_0 =~= items_view(out@));
    Some(out)
}

/// The state of the entity that an entry of the arena's dictionary gives.
fn entry_from(entry: &PickleEntry) -> (r: Option<(i64, Vec<Option<Vec<NamedText>>>)>)
    ensures
        match r {
            Some((number, items)) => entry_of(entry.key@, entry.value@) == Some(
                (number, items_view(items@)),
            ),
            None => entry_of(entry.key@, entry.value@) is None,
        },
{
    match (entry.key.as_int(), entry.value.as_list()) {
        (Some(number), Some(list)) => match items_from(list) {
            Some(items) => Some((number, items)),
            None => None,
        },
        _ => None,
    }
}

/// The state of the arena's entities that a tree gives; nothing where the
/// tree is out of shape.
pub fn arena_from_tree(tree: &PickleValue) -> (r: Option<ArenaState>)
    ensures
        match r {
            Some(state) => arena_of(tree@) == Some(arena_view(state@)),
            None => arena_of(tree@) is None,
        },
{
    match tree.as_dict() {
        None => None,
        Some(entries) => {
            let ghost keys = key_trees_of(entries@);
            let ghost values = value_trees_of(entries@);
            let mut state: ArenaState = HashMap::new();
            let mut i: usize = 0;
            assert(arena_view(state@) =~= Map::empty());
            while i < entries.len()
                invariant
                    i <= entries.len(),
                    keys == key_trees_of(entries@),
                    values == value_trees_of(entries@),
                    tree@ == PickleTree::Dict(keys, values),
                    arena_upto(keys, values, i as nat) == Some(arena_view(state@)),
                decreases entries.len() - i,
            {
                match entry_from(&entries[i]) {
                    Some((number, items)) => {
                        let ghost before = arena_view(state@);
                        let ghost added = items_view(items@);
                        state.insert(number, items);
                        assert(arena_view(state@) =~= before.insert(number, added));
                    },
                    None => {
                        proof {
                            assert(entry_of(keys[i as int], values[i as int]) is None);
                            assert(arena_upto(keys, values, (i + 1) as nat) is None);
                            lemma_no_arena_from(keys, values, (i + 1) as nat, keys.len());
                        }
                        return None;
                    },
                }
                i += 1;
            }
            Some(state)
        },
    }
}

} // verus!
