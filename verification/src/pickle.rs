//! The dynamically typed value trees that some replay packets embed.
//!
//! A tree arrives as a pickled blob. The decoder of `serde_pickle` reads the
//! blob; this module turns what it read into a tree of its own, `PickleValue`,
//! that the rest of the library can look into.

use crate::text::{
    debug_quoted, push_char, push_decimal, push_signed_decimal, push_text, quote, decimal,
    signed_decimal, utf8_text,
};
use serde_pickle::{HashableValue, Value};
use vstd::prelude::*;
use vstd::string::*;
use vstd::utf8::{decode_utf8, valid_utf8};

verus! {

/// A decoded value tree.
#[derive(Debug)]
pub enum PickleValue {
    /// The absent value.
    Null,
    Bool(bool),
    /// An integer that fits 64 bits.
    Int(i64),
    /// A longer integer, in decimal.
    Long(String),
    /// A float: its bit pattern, and the text that `{:?}` prints for it.
    Float(u64, String),
    Bytes(Vec<u8>),
    Text(String),
    List(Vec<PickleValue>),
    Tuple(Vec<PickleValue>),
    PlainSet(Vec<PickleValue>),
    FrozenSet(Vec<PickleValue>),
    /// The entries, in the order of their keys.
    Dict(Vec<PickleEntry>),
}

/// One entry of a dictionary.
#[derive(Debug)]
pub struct PickleEntry {
    pub key: PickleValue,
    pub value: PickleValue,
}

/// The mathematical model of a value tree.
pub enum PickleTree {
    Null,
    Bool(bool),
    Int(i64),
    Long(Seq<char>),
    Float(u64, Seq<char>),
    Bytes(Seq<u8>),
    Text(Seq<char>),
    List(Seq<PickleTree>),
    Tuple(Seq<PickleTree>),
    PlainSet(Seq<PickleTree>),
    FrozenSet(Seq<PickleTree>),
    /// The keys and the values, entry by entry: two runs of one length.
    Dict(Seq<PickleTree>, Seq<PickleTree>),
}

/// The models of a run of values.
pub open spec fn trees_of(values: Seq<PickleValue>) -> Seq<PickleTree>
    decreases values,
{
    Seq::new(
        values.len(),
        |i: int|
            if 0 <= i < values.len() {
                values[i]@
            } else {
                PickleTree::Null
            },
    )
}

/// The models of a run of entries.
/// The models of the keys of a run of entries.
pub open spec fn key_trees_of(entries: Seq<PickleEntry>) -> Seq<PickleTree>
    decreases entries,
{
    Seq::new(
        entries.len(),
        |i: int|
            if 0 <= i < entries.len() {
                entries[i].key@
            } else {
                PickleTree::Null
            },
    )
}

/// The models of the values of a run of entries.
pub open spec fn value_trees_of(entries: Seq<PickleEntry>) -> Seq<PickleTree>
    decreases entries,
{
    Seq::new(
        entries.len(),
        |i: int|
            if 0 <= i < entries.len() {
                entries[i].value@
            } else {
                PickleTree::Null
            },
    )
}

impl View for PickleValue {
    type V = PickleTree;

    open spec fn view(&self) -> PickleTree
        decreases self,
    {
        match self {
            PickleValue::Null => PickleTree::Null,
            PickleValue::Bool(b) => PickleTree::Bool(*b),
            PickleValue::Int(i) => PickleTree::Int(*i),
            PickleValue::Long(s) => PickleTree::Long(s@),
            PickleValue::Float(bits, s) => PickleTree::Float(*bits, s@),
            PickleValue::Bytes(b) => PickleTree::Bytes(b@),
            PickleValue::Text(s) => PickleTree::Text(s@),
            PickleValue::List(v) => PickleTree::List(trees_of(v@)),
            PickleValue::Tuple(v) => PickleTree::Tuple(trees_of(v@)),
            PickleValue::PlainSet(v) => PickleTree::PlainSet(trees_of(v@)),
            PickleValue::FrozenSet(v) => PickleTree::FrozenSet(trees_of(v@)),
            PickleValue::Dict(v) => PickleTree::Dict(key_trees_of(v@), value_trees_of(v@)),
        }
    }
}

/// How the items of a value that is no leaf are put together.
#[derive(Debug, Clone, Copy, PartialEq, Eq, Structural)]
pub enum Shape {
    List,
    Tuple,
    PlainSet,
    FrozenSet,
    /// The items are the key and the value of each entry in turn.
    Dict,
}

/// What decoding a pickled blob gives: the tree, or nothing where the blob
/// is no well-formed pickle.
pub uninterp spec fn pickled(bytes: Seq<u8>) -> Option<PickleTree>;

/// The tree that a value of the decoder holds.
pub uninterp spec fn held(value: serde_pickle::Value) -> PickleTree;

#[verifier::external_type_specification]
#[verifier::external_body]
pub struct ExPickle(serde_pickle::Value);

/// Whether a tree is a single value, with no items under it.
pub open spec fn is_leaf(tree: PickleTree) -> bool {
    match tree {
        PickleTree::List(_) => false,
        PickleTree::Tuple(_) => false,
        PickleTree::PlainSet(_) => false,
        PickleTree::FrozenSet(_) => false,
        PickleTree::Dict(_, _) => false,
        _ => true,
    }
}

/// Every second item of a run, from the given one on: from 0 the keys,
/// from 1 the values of a run of keys and values in turn.
pub open spec fn every_second(items: Seq<PickleTree>, from: int) -> Seq<PickleTree> {
    Seq::new((items.len() / 2) as nat, |i: int| items[2 * i + from])
}

/// The tree of the given shape over the given items.
pub open spec fn assemble(shape: Shape, items: Seq<PickleTree>) -> PickleTree {
    match shape {
        Shape::List => PickleTree::List(items),
        Shape::Tuple => PickleTree::Tuple(items),
        Shape::PlainSet => PickleTree::PlainSet(items),
        Shape::FrozenSet => PickleTree::FrozenSet(items),
        Shape::Dict => PickleTree::Dict(every_second(items, 0), every_second(items, 1)),
    }
}

/// The trees that a run of decoder values holds.
pub open spec fn held_all(values: Seq<serde_pickle::Value>) -> Seq<PickleTree> {
    Seq::new(values.len(), |i: int| held(values[i]))
}

/// Decodes a pickled blob.
///
/// Wraps `serde_pickle::de::value_from_slice` with the default options. What
/// it returns depends on the bytes alone; `pickled` names it. The decoder
/// goes down into nested values by recursion: a pickle nested deeper than
/// the stack holds ends the process, as running out of memory does.
#[verifier::external_body]
fn read_pickle(bytes: &[u8]) -> (r: Option<serde_pickle::Value>)
    ensures
        match r {
            Some(v) => pickled(bytes@) == Some(held(v)),
            None => pickled(bytes@) is None,
        },
{
    serde_pickle::de::value_from_slice(bytes, serde_pickle::de::DeOptions::new()).ok()
}

/// Takes a single value out of the decoder's type, or hands a value with
/// items under it back as it is.
///
/// Tells the variants of `serde_pickle::Value` apart. A long integer becomes
/// its decimal text (`BigInt::to_string`), a float its bits (`f64::to_bits`)
/// and its `{:?}` text.
#[verifier::external_body]
fn leaf_of(v: serde_pickle::Value) -> (r: Result<PickleValue, serde_pickle::Value>)
    ensures
        match r {
            Ok(leaf) => leaf@ == held(v) && is_leaf(held(v)),
            Err(branch) => held(branch) == held(v) && !is_leaf(held(v)),
        },
{
    match v {
        serde_pickle::Value::None => Ok(PickleValue::Null),
        serde_pickle::Value::Bool(b) => Ok(PickleValue::Bool(b)),
        serde_pickle::Value::I64(i) => Ok(PickleValue::Int(i)),
        serde_pickle::Value::Int(i) => Ok(PickleValue::Long(i.to_string())),
        serde_pickle::Value::F64(f) => Ok(PickleValue::Float(f.to_bits(), format!("{:?}", f))),
        serde_pickle::Value::Bytes(b) => Ok(PickleValue::Bytes(b)),
        serde_pickle::Value::String(s) => Ok(PickleValue::Text(s)),
        other => Err(other),
    }
}

/// Takes a value with items under it apart: its shape, and its items in
/// the order in which the decoder's collections hand them out (a list or a
/// tuple as written, a set by its order of keys, a dictionary by its order of
/// keys with each value behind its key).
///
/// Tells the variants of `serde_pickle::Value` apart; a key becomes a value by
/// `HashableValue::into_value`.
#[verifier::external_body]
fn parts(v: serde_pickle::Value) -> (r: (Shape, Vec<serde_pickle::Value>))
    requires
        !is_leaf(held(v)),
    ensures
        held(v) == assemble(r.0, held_all(r.1@)),
        r.0 == Shape::Dict ==> r.1@.len() % 2 == 0,
{
    match v {
        Value::Tuple(l) => (Shape::Tuple, l),
        Value::Set(s) => (Shape::PlainSet, s.into_iter().map(HashableValue::into_value).collect()),
        Value::FrozenSet(s) => (Shape::FrozenSet, s.into_iter().map(HashableValue::into_value).collect()),
        Value::Dict(d) => (Shape::Dict, d.into_iter().flat_map(|(k, v)| [k.into_value(), v]).collect()),
        Value::List(l) => (Shape::List, l),
        _ => (Shape::List, Vec::new()),
    }
}

/// Pairs up keys and values that come in turn.
fn pair_up(items: Vec<PickleValue>) -> (r: Vec<PickleEntry>)
    requires
        items@.len() % 2 == 0,
    ensures
        key_trees_of(r@) == every_second(trees_of(items@), 0),
        value_trees_of(r@) == every_second(trees_of(items@), 1),
{
    let ghost all = items@;
    let mut out: Vec<PickleEntry> = Vec::new();
    let mut key: Option<PickleValue> = None;
    for item in it: items
        invariant
            it.seq() == all,
            all.len() % 2 == 0,
            out@.len() == it.index() / 2,
            key is Some <==> it.index() % 2 == 1,
            key matches Some(k) ==> k == all[it.index() - 1],
            forall|j: int|
                0 <= j < out@.len() ==> out@[j] == (PickleEntry {
                    key: all[2 * j],
                    value: all[2 * j + 1],
                }),
    {
        match key {
            None => {
                key = Some(item);
            },
            Some(k) => {
                out.push(PickleEntry { key: k, value: item });
                key = None;
            },
        }
    }
    assert(key_trees_of(out@) =~= every_second(trees_of(all), 0));
    assert(value_trees_of(out@) =~= every_second(trees_of(all), 1));
    out
}

/// The value of the given shape over the given items.
fn put_together(shape: Shape, items: Vec<PickleValue>) -> (r: PickleValue)
    requires
        shape == Shape::Dict ==> items@.len() % 2 == 0,
    ensures
        r@ == assemble(shape, trees_of(items@)),
{
    match shape {
        Shape::List => PickleValue::List(items),
        Shape::Tuple => PickleValue::Tuple(items),
        Shape::PlainSet => PickleValue::PlainSet(items),
        Shape::FrozenSet => PickleValue::FrozenSet(items),
        Shape::Dict => PickleValue::Dict(pair_up(items)),
    }
}

/// Each item of a tree is smaller than the tree.
proof fn lemma_item_is_smaller(shape: Shape, items: Seq<PickleTree>, i: int)
    requires
        0 <= i < items.len(),
        shape == Shape::Dict ==> items.len() % 2 == 0,
    ensures
        decreases_to!(assemble(shape, items) => items[i]),
{
    broadcast use vstd::seq::axiom_seq_index_decreases;
    match shape {
        Shape::Dict => {
            let keys = every_second(items, 0);
            let values = every_second(items, 1);
            let j = i / 2;
            assert(i == 2 * j || i == 2 * j + 1);
            assert(0 <= j < keys.len() && 0 <= j < values.len());
            assert(keys[j] == items[2 * j] && values[j] == items[2 * j + 1]);
            assert(decreases_to!(keys => keys[j]));
            assert(decreases_to!(values => values[j]));
            let tree = assemble(shape, items);
            assert(tree->Dict_0 == keys && tree->Dict_1 == values);
            if i == 2 * j {
                assert(decreases_to!(tree => tree->Dict_0[j]));
                assert(tree->Dict_0[j] == items[i]);
            } else {
                assert(decreases_to!(tree => tree->Dict_1[j]));
                assert(tree->Dict_1[j] == items[i]);
            }
        },
        Shape::List => {
            assert(decreases_to!(assemble(shape, items) => assemble(shape, items)->List_0[i]));
        },
        Shape::Tuple => {
            assert(decreases_to!(assemble(shape, items) => assemble(shape, items)->Tuple_0[i]));
        },
        Shape::PlainSet => {
            assert(decreases_to!(assemble(shape, items) => assemble(shape, items)->PlainSet_0[i]));
        },
        Shape::FrozenSet => {
            assert(decreases_to!(assemble(shape, items) => assemble(shape, items)->FrozenSet_0[i]));
        },
    }
}

/// Turns a value of the decoder into a tree of this library.
fn build(v: serde_pickle::Value) -> (r: PickleValue)
    ensures
        r@ == held(v),
    decreases held(v),
{
    match leaf_of(v) {
        Ok(leaf) => leaf,
        Err(branch) => {
            let (shape, items) = parts(branch);
            let ghost all = items@;
            let mut out: Vec<PickleValue> = Vec::new();
            for item in it: items
                invariant
                    it.seq() == all,
                    held(v) == assemble(shape, held_all(all)),
                    shape == Shape::Dict ==> all.len() % 2 == 0,
                    out@.len() == it.index(),
                    forall|j: int| 0 <= j < out@.len() ==> out@[j]@ == held(all[j]),
            {
                proof {
                    lemma_item_is_smaller(shape, held_all(all), it.index() as int);
                }
                out.push(build(item));
            }
            assert(trees_of(out@) =~= held_all(all));
            put_together(shape, out)
        },
    }
}

/// A tree with each run of bytes that is well-formed UTF-8 read as text,
/// at every depth. Nothing else changes: the entries of a dictionary and the
/// members of a set stay where they are.
pub open spec fn with_text(tree: PickleTree) -> PickleTree
    decreases tree, 0nat,
{
    match tree {
        PickleTree::Bytes(b) => if valid_utf8(b) {
            PickleTree::Text(decode_utf8(b))
        } else {
            PickleTree::Bytes(b)
        },
        PickleTree::List(items) => PickleTree::List(with_text_all(items)),
        PickleTree::Tuple(items) => PickleTree::Tuple(with_text_all(items)),
        PickleTree::PlainSet(items) => PickleTree::PlainSet(with_text_all(items)),
        PickleTree::FrozenSet(items) => PickleTree::FrozenSet(with_text_all(items)),
        PickleTree::Dict(keys, values) => PickleTree::Dict(
            with_text_all(keys),
            with_text_all(values),
        ),
        other => other,
    }
}

/// `with_text` of each tree of a run.
pub open spec fn with_text_all(items: Seq<PickleTree>) -> Seq<PickleTree>
    decreases items, 1nat,
{
    Seq::new(
        items.len(),
        |i: int|
            if 0 <= i < items.len() {
                with_text(items[i])
            } else {
                PickleTree::Null
            },
    )
}

/// The bytes of a run as `{:?}` shows them: in decimal, between square
/// brackets, with a comma and a space between two of them.
pub open spec fn bytes_debug(bytes: Seq<u8>) -> Seq<char> {
    seq!['['] + bytes_listed(bytes, bytes.len()) + seq![']']
}

/// The first `n` bytes of a run, in decimal, with a comma and a space
/// between two of them.
pub open spec fn bytes_listed(bytes: Seq<u8>, n: nat) -> Seq<char>
    decreases n,
{
    if n == 0 {
        Seq::empty()
    } else if n == 1 {
        decimal(bytes[0] as nat)
    } else {
        bytes_listed(bytes, (n - 1) as nat) + seq![',', ' '] + decimal(bytes[n - 1] as nat)
    }
}

/// A tree as `{:?}` shows the value of the decoder that it came from.
pub open spec fn debug_text(tree: PickleTree) -> Seq<char>
    decreases tree, 1nat, 0nat,
{
    match tree {
        PickleTree::Null => "None"@,
        PickleTree::Bool(b) => if b {
            "Bool(true)"@
        } else {
            "Bool(false)"@
        },
        PickleTree::Int(i) => "I64("@ + signed_decimal(i as int) + ")"@,
        PickleTree::Long(t) => "Int("@ + t + ")"@,
        PickleTree::Float(_, t) => "F64("@ + t + ")"@,
        PickleTree::Bytes(b) => "Bytes("@ + bytes_debug(b) + ")"@,
        PickleTree::Text(t) => "String("@ + debug_quoted(t) + ")"@,
        PickleTree::List(items) => "List(["@ + listed(items, items.len()) + "])"@,
        PickleTree::Tuple(items) => "Tuple(["@ + listed(items, items.len()) + "])"@,
        PickleTree::PlainSet(items) => "Set({"@ + listed(items, items.len()) + "})"@,
        PickleTree::FrozenSet(items) => "FrozenSet({"@ + listed(items, items.len()) + "})"@,
        PickleTree::Dict(keys, values) => "Dict({"@ + entries_listed(tree, keys.len()) + "})"@,
    }
}

/// The first `n` trees of a run as `{:?}` shows them, with a comma and a
/// space between two of them.
pub open spec fn listed(items: Seq<PickleTree>, n: nat) -> Seq<char>
    decreases items, 0nat, n,
{
    if n == 0 || n > items.len() {
        Seq::empty()
    } else if n == 1 {
        debug_text(items[0])
    } else {
        listed(items, (n - 1) as nat) + ", "@ + debug_text(items[n - 1])
    }
}

/// The first `n` entries of a dictionary as `{:?}` shows them: key, colon,
/// space, value, with a comma and a space between two entries.
pub open spec fn entries_listed(dict: PickleTree, n: nat) -> Seq<char>
    decreases dict, 0nat, n,
{
    match dict {
        PickleTree::Dict(keys, values) => {
            if n == 0 || n > keys.len() || n > values.len() {
                Seq::empty()
            } else if n == 1 {
                debug_text(keys[0]) + ": "@ + debug_text(values[0])
            } else {
                entries_listed(dict, (n - 1) as nat) + ", "@ + debug_text(keys[n - 1]) + ": "@
                    + debug_text(values[n - 1])
            }
        },
        _ => Seq::empty(),
    }
}

/// Appends the bytes of a run as `{:?}` shows them.
pub fn push_bytes_debug(s: &mut String, bytes: &[u8])
    ensures
        final(s)@ == old(s)@ + bytes_debug(bytes@),
{
    push_char(s, '[');
    let mut i: usize = 0;
    while i < bytes.len()
        invariant
            i <= bytes.len(),
            s@ == old(s)@ + seq!['['] + bytes_listed(bytes@, i as nat),
        decreases bytes.len() - i,
    {
        if i > 0 {
            push_char(s, ',');
            push_char(s, ' ');
        }
        push_decimal(s, bytes[i] as u64);
        i += 1;
        assert(s@ =~= old(s)@ + seq!['['] + bytes_listed(bytes@, i as nat));
    }
    push_char(s, ']');
    assert(s@ =~= old(s)@ + bytes_debug(bytes@));
}

/// Appends the first values of a run as `{:?}` shows them.
fn push_listed(items: &Vec<PickleValue>, s: &mut String)
    ensures
        final(s)@ == old(s)@ + listed(trees_of(items@), items@.len()),
    decreases items, 0nat,
{
    let ghost trees = trees_of(items@);
    let mut i: usize = 0;
    while i < items.len()
        invariant
            i <= items.len(),
            trees == trees_of(items@),
            s@ == old(s)@ + listed(trees, i as nat),
        decreases items.len() - i,
    {
        if i > 0 {
            push_text(s, ", ");
        }
        items[i].push_debug(s);
        i += 1;
        assert(s@ =~= old(s)@ + listed(trees, i as nat));
    }
}

/// Appends the entries of a dictionary as `{:?}` shows them.
fn push_entries(entries: &Vec<PickleEntry>, s: &mut String)
    ensures
        final(s)@ == old(s)@ + entries_listed(
            PickleTree::Dict(key_trees_of(entries@), value_trees_of(entries@)),
            entries@.len(),
        ),
    decreases entries, 0nat,
{
    let ghost dict = PickleTree::Dict(key_trees_of(entries@), value_trees_of(entries@));
    let mut i: usize = 0;
    while i < entries.len()
        invariant
            i <= entries.len(),
            dict == PickleTree::Dict(key_trees_of(entries@), value_trees_of(entries@)),
            s@ == old(s)@ + entries_listed(dict, i as nat),
        decreases entries.len() - i,
    {
        if i > 0 {
            push_text(s, ", ");
        }
        entries[i].key.push_debug(s);
        push_text(s, ": ");
        entries[i].value.push_debug(s);
        i += 1;
        assert(s@ =~= old(s)@ + entries_listed(dict, i as nat));
    }
}

/// Reads as text each run of bytes that is well-formed UTF-8, in every value
/// of a run.
fn all_into_text(items: Vec<PickleValue>) -> (r: Vec<PickleValue>)
    ensures
        trees_of(r@) == with_text_all(trees_of(items@)),
    decreases items, 0nat,
{
    let ghost all = items@;
    let mut out: Vec<PickleValue> = Vec::new();
    for item in it: items
        invariant
            it.seq() == all,
            all == items@,
            out@.len() == it.index(),
            forall|j: int| 0 <= j < out@.len() ==> out@[j]@ == with_text(all[j]@),
    {
        out.push(item.into_text());
    }
    assert(trees_of(out@) =~= with_text_all(trees_of(all)));
    out
}

/// Reads as text each run of bytes that is well-formed UTF-8, in every key
/// and value of a run of entries.
fn entries_into_text(entries: Vec<PickleEntry>) -> (r: Vec<PickleEntry>)
    ensures
        key_trees_of(r@) == with_text_all(key_trees_of(entries@)),
        value_trees_of(r@) == with_text_all(value_trees_of(entries@)),
    decreases entries, 0nat,
{
    let ghost all = entries@;
    let mut out: Vec<PickleEntry> = Vec::new();
    for entry in it: entries
        invariant
            it.seq() == all,
            all == entries@,
            out@.len() == it.index(),
            forall|j: int|
                0 <= j < out@.len() ==> out@[j].key@ == with_text(all[j].key@) && out@[j].value@
                    == with_text(all[j].value@),
    {
        let PickleEntry { key, value } = entry;
        out.push(PickleEntry { key: key.into_text(), value: value.into_text() });
    }
    assert(key_trees_of(out@) =~= with_text_all(key_trees_of(all)));
    assert(value_trees_of(out@) =~= with_text_all(value_trees_of(all)));
    out
}

impl PickleValue {
    /// Appends the value as `{:?}` shows the value of the decoder that it
    /// came from.
    pub fn push_debug(&self, s: &mut String)
        ensures
            final(s)@ == old(s)@ + debug_text(self@),
        decreases self, 1nat,
    {
        match self {
            PickleValue::Null => {
                push_text(s, "None");
            },
            PickleValue::Bool(b) => {
                if *b {
                    push_text(s, "Bool(true)");
                } else {
                    push_text(s, "Bool(false)");
                }
            },
            PickleValue::Int(i) => {
                push_text(s, "I64(");
                push_signed_decimal(s, *i);
                push_text(s, ")");
                assert(s@ =~= old(s)@ + debug_text(self@));
            },
            PickleValue::Long(t) => {
                push_text(s, "Int(");
                push_text(s, t.as_str());
                push_text(s, ")");
                assert(s@ =~= old(s)@ + debug_text(self@));
            },
            PickleValue::Float(_, t) => {
                push_text(s, "F64(");
                push_text(s, t.as_str());
                push_text(s, ")");
                assert(s@ =~= old(s)@ + debug_text(self@));
            },
            PickleValue::Bytes(b) => {
                push_text(s, "Bytes(");
                push_bytes_debug(s, b.as_slice());
                push_text(s, ")");
                assert(s@ =~= old(s)@ + debug_text(self@));
            },
            PickleValue::Text(t) => {
                push_text(s, "String(");
                let quoted = quote(t.as_str());
                push_text(s, quoted.as_str());
                push_text(s, ")");
                assert(s@ =~= old(s)@ + debug_text(self@));
            },
            PickleValue::List(items) => {
                push_text(s, "List([");
                push_listed(items, s);
                push_text(s, "])");
                assert(s@ =~= old(s)@ + debug_text(self@));
            },
            PickleValue::Tuple(items) => {
                push_text(s, "Tuple([");
                push_listed(items, s);
                push_text(s, "])");
                assert(s@ =~= old(s)@ + debug_text(self@));
            },
            PickleValue::PlainSet(items) => {
                push_text(s, "Set({");
                push_listed(items, s);
                push_text(s, "})");
                assert(s@ =~= old(s)@ + debug_text(self@));
            },
            PickleValue::FrozenSet(items) => {
                push_text(s, "FrozenSet({");
                push_listed(items, s);
                push_text(s, "})");
                assert(s@ =~= old(s)@ + debug_text(self@));
            },
            PickleValue::Dict(entries) => {
                push_text(s, "Dict({");
                push_entries(entries, s);
                push_text(s, "})");
                assert(s@ =~= old(s)@ + debug_text(self@));
            },
        }
    }

    /// The value as `{:?}` shows the value of the decoder that it came from.
    pub fn debug_string(&self) -> (r: String)
        ensures
            r@ == debug_text(self@),
    {
        let mut s = String::new();
        self.push_debug(&mut s);
        assert(s@ =~= debug_text(self@));
        s
    }

    /// Reads as text each run of bytes that is well-formed UTF-8, at every
    /// depth; everything else stays as it is.
    pub fn into_text(self) -> (r: PickleValue)
        ensures
            r@ == with_text(self@),
        decreases self, 1nat,
    {
        match self {
            PickleValue::Bytes(b) => {
                let text: Option<String> = match utf8_text(b.as_slice()) {
                    Some(t) => Some(String::from_str(t)),
                    None => None,
                };
                match text {
                    Some(t) => PickleValue::Text(t),
                    None => PickleValue::Bytes(b),
                }
            },
            PickleValue::List(items) => PickleValue::List(all_into_text(items)),
            PickleValue::Tuple(items) => PickleValue::Tuple(all_into_text(items)),
            PickleValue::PlainSet(items) => PickleValue::PlainSet(all_into_text(items)),
            PickleValue::FrozenSet(items) => PickleValue::FrozenSet(all_into_text(items)),
            PickleValue::Dict(entries) => PickleValue::Dict(entries_into_text(entries)),
            other => other,
        }
    }

    /// The integer, where the value is one that fits 64 bits.
    pub fn as_int(&self) -> (r: Option<i64>)
        ensures
            r == (match self@ {
                PickleTree::Int(i) => Some(i),
                _ => None,
            }),
    {
        match self {
            PickleValue::Int(i) => Some(*i),
            _ => None,
        }
    }

    /// The text, where the value is text.
    pub fn as_text(&self) -> (r: Option<&String>)
        ensures
            match r {
                Some(t) => self@ == PickleTree::Text(t@),
                None => !(self@ is Text),
            },
    {
        match self {
            PickleValue::Text(t) => Some(t),
            _ => None,
        }
    }

    /// The bytes, where the value is a run of bytes.
    pub fn as_bytes(&self) -> (r: Option<&Vec<u8>>)
        ensures
            match r {
                Some(b) => self@ == PickleTree::Bytes(b@),
                None => !(self@ is Bytes),
            },
    {
        match self {
            PickleValue::Bytes(b) => Some(b),
            _ => None,
        }
    }

    /// The items, where the value is a list.
    pub fn as_list(&self) -> (r: Option<&Vec<PickleValue>>)
        ensures
            match r {
                Some(items) => self@ == PickleTree::List(trees_of(items@)),
                None => !(self@ is List),
            },
    {
        match self {
            PickleValue::List(items) => Some(items),
            _ => None,
        }
    }

    /// The items, where the value is a tuple.
    pub fn as_tuple(&self) -> (r: Option<&Vec<PickleValue>>)
        ensures
            match r {
                Some(items) => self@ == PickleTree::Tuple(trees_of(items@)),
                None => !(self@ is Tuple),
            },
    {
        match self {
            PickleValue::Tuple(items) => Some(items),
            _ => None,
        }
    }

    /// The entries, where the value is a dictionary.
    pub fn as_dict(&self) -> (r: Option<&Vec<PickleEntry>>)
        ensures
            match r {
                Some(entries) => self@ == PickleTree::Dict(
                    key_trees_of(entries@),
                    value_trees_of(entries@),
                ),
                None => !(self@ is Dict),
            },
    {
        match self {
            PickleValue::Dict(entries) => Some(entries),
            _ => None,
        }
    }

    /// Decodes a pickled blob into a tree; nothing where the blob is no
    /// well-formed pickle.
    pub fn from_bytes(bytes: &[u8]) -> (r: Option<PickleValue>)
        ensures
            match r {
                Some(v) => pickled(bytes@) == Some(v@),
                None => pickled(bytes@) is None,
            },
    {
        match read_pickle(bytes) {
            Some(v) => Some(build(v)),
            None => None,
        }
    }
}

} // verus!
