//! Bencode value trees and the boundary to the codec that turns them into
//! bytes and back.

use vstd::prelude::*;
use crate::util::bytes::{find, first_index, number, parse_number, slice_copy};

verus! {

/// A bencoded value as the program holds it. A dictionary keeps its entries
/// in a vector; where a key occurs more than once the last entry counts.
#[derive(Debug)]
pub enum Bencode {
    Bytes(Vec<u8>),
    Int(i64),
    List(Vec<Bencode>),
    Dict(Vec<(Vec<u8>, Bencode)>),
}

/// The mathematical content of a [`Bencode`]: a dictionary is a finite map.
pub ghost enum Tree {
    Bytes(Seq<u8>),
    Int(int),
    List(Seq<Tree>),
    Dict(Map<Seq<u8>, Tree>),
}

/// The trees of a sequence of values, in order.
pub open spec fn list_view(items: Seq<Bencode>) -> Seq<Tree>
    decreases items, 0int,
{
    Seq::new(items.len(), |i: int| if 0 <= i < items.len() { view_of(items[i]) } else { Tree::Int(0) })
}

/// The map that a sequence of dictionary entries stands for.
pub open spec fn dict_view(entries: Seq<(Vec<u8>, Bencode)>) -> Map<Seq<u8>, Tree>
    decreases entries, entries.len(),
{
    if entries.len() == 0 {
        Map::empty()
    } else {
        let last = entries[entries.len() - 1];
        dict_view(entries.subrange(0, entries.len() - 1)).insert(last.0@, view_of(last.1))
    }
}

/// The tree that a value stands for.
pub open spec fn view_of(v: Bencode) -> Tree
    decreases v, 0int,
{
    match v {
        Bencode::Bytes(b) => Tree::Bytes(b@),
        Bencode::Int(i) => Tree::Int(i as int),
        Bencode::List(l) => Tree::List(list_view(l@)),
        Bencode::Dict(d) => Tree::Dict(dict_view(d@)),
    }
}

/// The outside codec's own value type, carried through without looking inside.
#[verifier::external_type_specification]
#[verifier::external_body]
pub struct ExCodecValue(serde_bencode::value::Value);

/// The tree that a value of the outside codec holds.
pub uninterp spec fn held(v: serde_bencode::value::Value) -> Tree;

/// What the outside decoder makes of a byte string: the tree of the first
/// bencoded value in it, or nothing where the bytes are not bencode.
pub uninterp spec fn decoded(data: Seq<u8>) -> Option<Tree>;

/// The bytes that the outside encoder writes for a tree.
pub uninterp spec fn bencoded(t: Tree) -> Seq<u8>;

/// `serde_bencode::from_bytes` at the codec's own value type. The decoder
/// calls itself once for each list or dictionary that is open, so it is
/// given shallow input only. The contract names the outcome: the value
/// returned holds `decoded` of the input, which nests no deeper than the
/// input does, and nothing is returned exactly where `decoded` is `None`.
#[verifier::external_body]
fn parse(data: &[u8]) -> (r: Option<serde_bencode::value::Value>)
    requires
        shallow(data@),
    ensures
        match r {
            Some(v) => decoded(data@) == Some(held(v)) && fits(held(v), MAX_DEPTH as nat),
            None => decoded(data@).is_none(),
        },
{
    serde_bencode::from_bytes::<serde_bencode::value::Value>(data).ok()
}

/// Moves the fields of a `serde_bencode::value::Value` into a [`Bencode`],
/// variant by variant; the result stands for the tree that the argument
/// held, and nests as it does.
#[verifier::external_body]
fn lift(v: serde_bencode::value::Value) -> (r: Bencode)
    requires
        fits(held(v), MAX_DEPTH as nat),
    ensures
        view_of(r) == held(v),
        flat(r, MAX_DEPTH as nat),
{
    match v {
        serde_bencode::value::Value::Bytes(b) => Bencode::Bytes(b),
        serde_bencode::value::Value::Int(i) => Bencode::Int(i),
        serde_bencode::value::Value::List(l) => Bencode::List(l.into_iter().map(lift).collect()),
        serde_bencode::value::Value::Dict(d) => {
            Bencode::Dict(d.into_iter().map(|(k, x)| (k, lift(x))).collect())
        },
    }
}

/// Copies a [`Bencode`] into a `serde_bencode::value::Value`, variant by
/// variant; the result holds the tree that the argument stands for.
#[verifier::external_body]
fn lower(v: &Bencode) -> (r: serde_bencode::value::Value)
    requires
        flat(*v, MAX_DEPTH as nat),
    ensures
        held(r) == view_of(*v),
{
    match v {
        Bencode::Bytes(b) => serde_bencode::value::Value::Bytes(b.clone()),
        Bencode::Int(i) => serde_bencode::value::Value::Int(*i),
        Bencode::List(l) => serde_bencode::value::Value::List(l.iter().map(lower).collect()),
        Bencode::Dict(d) => {
            serde_bencode::value::Value::Dict(d.iter().map(|(k, x)| (k.clone(), lower(x))).collect())
        },
    }
}

/// `serde_bencode::to_bytes` on the codec's own value type, which it always
/// encodes. The encoder calls itself once for each list or dictionary that
/// is open, so it is given shallow values only. The contract names the
/// bytes, and adds the one fact the codec is built for: decoding them gives
/// the encoded tree back; they nest as the tree does.
#[verifier::external_body]
fn emit(v: &serde_bencode::value::Value) -> (r: Vec<u8>)
    requires
        fits(held(*v), MAX_DEPTH as nat),
    ensures
        r@ == bencoded(held(*v)),
        decoded(r@) == Some(held(*v)),
        shallow(r@),
{
    serde_bencode::to_bytes(v).unwrap_or_default()
}

/// What is read from a byte string: the tree of the first bencoded value
/// in it, if there is one and it nests no deeper than [`MAX_DEPTH`].
pub open spec fn read(data: Seq<u8>) -> Option<Tree> {
    if shallow(data) {
        decoded(data)
    } else {
        None
    }
}

/// Whether a tree nests at most `d` lists and dictionaries.
pub open spec fn fits(t: Tree, d: nat) -> bool
    decreases d,
{
    match t {
        Tree::Bytes(_) => true,
        Tree::Int(_) => true,
        Tree::List(l) => d > 0 && forall|i: int|
            0 <= i < l.len() ==> fits(#[trigger] l[i], (d - 1) as nat),
        Tree::Dict(m) => d > 0 && forall|k: Seq<u8>|
            m.contains_key(k) ==> fits(#[trigger] m[k], (d - 1) as nat),
    }
}

/// Whether a value nests at most `d` lists and dictionaries, every entry
/// of a dictionary counted.
pub open spec fn flat(v: Bencode, d: nat) -> bool
    decreases d, 0nat,
{
    match v {
        Bencode::Bytes(_) => true,
        Bencode::Int(_) => true,
        Bencode::List(l) => d > 0 && items_flat(l@, (d - 1) as nat),
        Bencode::Dict(e) => d > 0 && entries_flat(e@, (d - 1) as nat),
    }
}

/// Whether every value of a list nests at most `d` deep.
pub open spec fn items_flat(items: Seq<Bencode>, d: nat) -> bool
    decreases d, 1nat,
{
    forall|i: int| 0 <= i < items.len() ==> flat(#[trigger] items[i], d)
}

/// Whether every value of the entries of a dictionary nests at most `d`
/// deep.
pub open spec fn entries_flat(entries: Seq<(Vec<u8>, Bencode)>, d: nat) -> bool
    decreases d, 1nat,
{
    forall|i: int| 0 <= i < entries.len() ==> flat((#[trigger] entries[i]).1, d)
}

/// A value that nests at most `d` deep nests at most `e` deep, for any
/// greater `e`.
pub proof fn lemma_flat_more(v: Bencode, d: nat, e: nat)
    requires
        flat(v, d),
        d <= e,
    ensures
        flat(v, e),
    decreases d,
{
    match v {
        Bencode::List(l) => {
            assert forall|i: int| 0 <= i < l@.len() implies flat(
                #[trigger] l@[i],
                (e - 1) as nat,
            ) by {
                lemma_flat_more(l@[i], (d - 1) as nat, (e - 1) as nat);
            }
        },
        Bencode::Dict(m) => {
            assert forall|i: int| 0 <= i < m@.len() implies flat(
                (#[trigger] m@[i]).1,
                (e - 1) as nat,
            ) by {
                lemma_flat_more(m@[i].1, (d - 1) as nat, (e - 1) as nat);
            }
        },
        _ => {},
    }
}

/// Every value of a dictionary is the value of one of its entries.
pub proof fn lemma_dict_values(entries: Seq<(Vec<u8>, Bencode)>, key: Seq<u8>)
    requires
        dict_view(entries).contains_key(key),
    ensures
        exists|i: int|
            0 <= i < entries.len() && dict_view(entries)[key] == view_of(
                (#[trigger] entries[i]).1,
            ),
    decreases entries.len(),
{
    let n = entries.len() - 1;
    if entries[n].0@ == key {
        assert(dict_view(entries)[key] == view_of(entries[n].1));
    } else {
        let init = entries.subrange(0, n);
        lemma_dict_values(init, key);
        let i = choose|i: int|
            0 <= i < init.len() && dict_view(init)[key] == view_of((#[trigger] init[i]).1);
        assert(dict_view(entries)[key] == view_of(entries[i].1));
    }
}

/// The tree of a value nests no deeper than the value.
pub proof fn lemma_flat_fits(v: Bencode, d: nat)
    requires
        flat(v, d),
    ensures
        fits(view_of(v), d),
    decreases d,
{
    match v {
        Bencode::List(l) => {
            assert forall|i: int| 0 <= i < list_view(l@).len() implies fits(
                #[trigger] list_view(l@)[i],
                (d - 1) as nat,
            ) by {
                assert(flat(l@[i], (d - 1) as nat));
                lemma_flat_fits(l@[i], (d - 1) as nat);
            }
            assert(view_of(v) == Tree::List(list_view(l@)));
        },
        Bencode::Dict(m) => {
            assert forall|k: Seq<u8>| dict_view(m@).contains_key(k) implies fits(
                #[trigger] dict_view(m@)[k],
                (d - 1) as nat,
            ) by {
                lemma_dict_values(m@, k);
                let i = choose|i: int|
                    0 <= i < m@.len() && dict_view(m@)[k] == view_of((#[trigger] m@[i]).1);
                assert(flat(m@[i].1, (d - 1) as nat));
                lemma_flat_fits(m@[i].1, (d - 1) as nat);
            }
            assert(view_of(v) == Tree::Dict(dict_view(m@)));
        },
        _ => {},
    }
}

/// Tests whether a value nests at most `d` lists and dictionaries.
pub fn is_flat(v: &Bencode, d: usize) -> (r: bool)
    ensures
        r == flat(*v, d as nat),
    decreases d,
{
    match v {
        Bencode::Bytes(_) => true,
        Bencode::Int(_) => true,
        Bencode::List(l) => {
            if d == 0 {
                return false;
            }
            let mut i: usize = 0;
            while i < l.len()
                invariant
                    i <= l.len(),
                    d > 0,
                    *v == Bencode::List(*l),
                    forall|j: int| 0 <= j < i ==> flat(#[trigger] l@[j], (d - 1) as nat),
                decreases l.len() - i,
            {
                if !is_flat(&l[i], d - 1) {
                    assert(!flat(l@[i as int], (d - 1) as nat));
                    assert(!items_flat(l@, (d - 1) as nat));
                    return false;
                }
                i += 1;
            }
            true
        },
        Bencode::Dict(e) => {
            if d == 0 {
                return false;
            }
            let mut i: usize = 0;
            while i < e.len()
                invariant
                    i <= e.len(),
                    d > 0,
                    *v == Bencode::Dict(*e),
                    forall|j: int| 0 <= j < i ==> flat((#[trigger] e@[j]).1, (d - 1) as nat),
                decreases e.len() - i,
            {
                if !is_flat(&e[i].1, d - 1) {
                    assert(!flat(e@[i as int].1, (d - 1) as nat));
                    assert(!entries_flat(e@, (d - 1) as nat));
                    return false;
                }
                i += 1;
            }
            true
        },
    }
}

/// Encodes a value as bencode, unless it nests deeper than [`MAX_DEPTH`].
pub fn try_encode(v: &Bencode) -> (r: Option<Vec<u8>>)
    ensures
        r.is_some() == flat(*v, MAX_DEPTH as nat),
        r matches Some(bytes) ==> bytes@ == bencoded(view_of(*v)) && read(bytes@) == Some(
            view_of(*v),
        ),
{
    if is_flat(v, MAX_DEPTH) {
        Some(encode(v))
    } else {
        None
    }
}

/// Decodes the first bencoded value in `data`, unless it nests deeper than
/// [`MAX_DEPTH`].
pub fn decode(data: &[u8]) -> (r: Option<Bencode>)
    ensures
        match r {
            Some(v) => read(data@) == Some(view_of(v)) && flat(v, MAX_DEPTH as nat),
            None => read(data@).is_none(),
        },
{
    if nesting(data) > MAX_DEPTH {
        return None;
    }
    match parse(data) {
        Some(v) => Some(lift(v)),
        None => None,
    }
}

/// Encodes a value as bencode.
pub fn encode(v: &Bencode) -> (r: Vec<u8>)
    requires
        flat(*v, MAX_DEPTH as nat),
    ensures
        r@ == bencoded(view_of(*v)),
        read(r@) == Some(view_of(*v)),
{
    proof {
        lemma_flat_fits(*v, MAX_DEPTH as nat);
    }
    let raw = lower(v);
    emit(&raw)
}

/// Whether some entry of the sequence has the key.
pub open spec fn has_key(entries: Seq<(Vec<u8>, Bencode)>, key: Seq<u8>) -> bool {
    exists|i: int| 0 <= i < entries.len() && (#[trigger] entries[i]).0@ == key
}

/// A dictionary has a key exactly if one of its entries has it.
pub proof fn lemma_dict_keys(entries: Seq<(Vec<u8>, Bencode)>, key: Seq<u8>)
    ensures
        dict_view(entries).contains_key(key) == has_key(entries, key),
    decreases entries.len(),
{
    if entries.len() > 0 {
        let init = entries.subrange(0, entries.len() - 1);
        lemma_dict_keys(init, key);
        if has_key(init, key) {
            let i = choose|i: int| 0 <= i < init.len() && (#[trigger] init[i]).0@ == key;
            assert(entries[i].0@ == key);
        }
        if has_key(entries, key) && entries[entries.len() - 1].0@ != key {
            let i = choose|i: int| 0 <= i < entries.len() && (#[trigger] entries[i]).0@ == key;
            assert(init[i].0@ == key);
        }
    }
}

/// Taking one entry out of a dictionary changes nothing but its own key.
pub proof fn lemma_dict_remove(entries: Seq<(Vec<u8>, Bencode)>, i: int)
    requires
        0 <= i < entries.len(),
    ensures
        dict_view(entries.remove(i)).remove(entries[i].0@) == dict_view(entries).remove(
            entries[i].0@,
        ),
    decreases entries.len(),
{
    let key = entries[i].0@;
    let n = entries.len() - 1;
    let init = entries.subrange(0, n);
    if i == n {
        assert(entries.remove(i) =~= init);
        assert(dict_view(entries).remove(key) =~= dict_view(init).remove(key));
    } else {
        let last = entries[n];
        let cut = entries.remove(i);
        assert(cut.subrange(0, cut.len() - 1) =~= init.remove(i));
        assert(cut[cut.len() - 1] == last);
        assert(init[i] == entries[i]);
        lemma_dict_remove(init, i);
        assert(dict_view(cut).remove(key) =~= dict_view(init.remove(i)).remove(key).insert(
            last.0@,
            view_of(last.1),
        ).remove(key));
        assert(dict_view(entries).remove(key) =~= dict_view(init).remove(key).insert(
            last.0@,
            view_of(last.1),
        ).remove(key));
    }
}

/// Looks a key up in the entries of a dictionary.
pub fn dict_get<'a>(entries: &'a Vec<(Vec<u8>, Bencode)>, key: &[u8]) -> (r: Option<&'a Bencode>)
    ensures
        r.is_some() == dict_view(entries@).contains_key(key@),
        r matches Some(v) ==> view_of(*v) == dict_view(entries@)[key@],
        r matches Some(v) ==> exists|i: int|
            0 <= i < entries@.len() && *v == (#[trigger] entries@[i]).1,
{
    let mut i: usize = entries.len();
    assert(entries@ =~= entries@.subrange(0, entries.len() as int));
    while i > 0
        invariant
            i <= entries.len(),
            dict_view(entries@).contains_key(key@) == dict_view(
                entries@.subrange(0, i as int),
            ).contains_key(key@),
            dict_view(entries@).contains_key(key@) ==> dict_view(entries@)[key@] == dict_view(
                entries@.subrange(0, i as int),
            )[key@],
        decreases i,
    {
        let ghost cur = entries@.subrange(0, i as int);
        assert(cur.subrange(0, cur.len() - 1) =~= entries@.subrange(0, i - 1));
        assert(cur[cur.len() - 1] == entries@[i - 1]);
        i -= 1;
        if crate::util::bytes_eq(entries[i].0.as_slice(), key) {
            assert(entries@[i as int].1 == entries@[i as int].1);
            return Some(&entries[i].1);
        }
    }
    assert(entries@.subrange(0, 0) =~= Seq::empty());
    None
}

/// Sets a key of a dictionary, whether or not it was there before.
pub fn dict_insert(entries: &mut Vec<(Vec<u8>, Bencode)>, key: Vec<u8>, value: Bencode)
    ensures
        dict_view(final(entries)@) == dict_view(old(entries)@).insert(key@, view_of(value)),
        final(entries)@ == old(entries)@.push((key, value)),
        forall|d: nat|
            #[trigger] entries_flat(old(entries)@, d) && flat(value, d) ==> entries_flat(
                final(entries)@,
                d,
            ),
{
    entries.push((key, value));
    assert(entries@.subrange(0, entries@.len() - 1) =~= old(entries)@);
    assert forall|d: nat| #[trigger]
        entries_flat(old(entries)@, d) && flat(value, d) implies entries_flat(entries@, d) by {
        assert forall|i: int| 0 <= i < entries@.len() implies flat((#[trigger] entries@[i]).1, d) by {
            if i < old(entries)@.len() {
                assert(entries@[i] == old(entries)@[i]);
            }
        }
    }
}

/// Takes a key out of a dictionary, if it is there.
pub fn dict_remove(entries: &mut Vec<(Vec<u8>, Bencode)>, key: &[u8])
    ensures
        dict_view(final(entries)@) == dict_view(old(entries)@).remove(key@),
        forall|i: int|
            0 <= i < final(entries)@.len() ==> old(entries)@.contains(#[trigger] final(entries)@[i]),
        forall|d: nat| #[trigger] entries_flat(old(entries)@, d) ==> entries_flat(final(entries)@, d),
{
    let mut i: usize = 0;
    assert forall|j: int| 0 <= j < entries@.len() implies old(entries)@.contains(
        #[trigger] entries@[j],
    ) by {
        assert(old(entries)@[j] == entries@[j]);
    }
    while i < entries.len()
        invariant
            i <= entries.len(),
            forall|j: int| 0 <= j < entries@.len() ==> old(entries)@.contains(#[trigger] entries@[j]),
            dict_view(entries@).remove(key@) == dict_view(old(entries)@).remove(key@),
            forall|j: int| 0 <= j < i ==> (#[trigger] entries@[j]).0@ != key@,
        decreases entries.len() - i,
    {
        if crate::util::bytes_eq(entries[i].0.as_slice(), key) {
            proof {
                lemma_dict_remove(entries@, i as int);
            }
            let ghost before = entries@;
            let _ = entries.remove(i);
            assert forall|j: int| 0 <= j < entries@.len() implies old(entries)@.contains(
                #[trigger] entries@[j],
            ) by {
                if j < i {
                    assert(before[j] == entries@[j]);
                } else {
                    assert(before[j + 1] == entries@[j]);
                }
            }
        } else {
            i += 1;
        }
    }
    proof {
        lemma_dict_keys(entries@, key@);
        assert(dict_view(entries@).remove(key@) =~= dict_view(entries@));
        assert forall|d: nat| #[trigger] entries_flat(old(entries)@, d) implies entries_flat(
            entries@,
            d,
        ) by {
            assert forall|i: int| 0 <= i < entries@.len() implies flat(
                (#[trigger] entries@[i]).1,
                d,
            ) by {
                assert(old(entries)@.contains(entries@[i]));
                let j = choose|j: int| 0 <= j < old(entries)@.len() && old(entries)@[j] == entries@[i];
                assert(flat(old(entries)@[j].1, d));
            }
        }
    }
}

/// The deepest nesting of lists and dictionaries that the decoder is
/// asked to follow.
pub const MAX_DEPTH: usize = 64;

/// The position behind the integer or byte string that starts at `pos`,
/// or -1 where there is none that the decoder can read: an integer runs to
/// the next `e`; a byte string is a decimal length, a `:`, and as many
/// bytes.
pub open spec fn after_scalar(data: Seq<u8>, pos: int) -> int {
    let b = data[pos];
    if b == 105 {
        let end = pos + 1 + first_index(data.skip(pos + 1), 101);
        if end < data.len() {
            end + 1
        } else {
            -1
        }
    } else if 48 <= b <= 57 {
        let colon = pos + first_index(data.skip(pos), 58);
        if colon >= data.len() {
            -1
        } else {
            match number(data.subrange(pos, colon), usize::MAX as int) {
                None => -1,
                Some(n) => if colon + 1 + n <= data.len() {
                    colon + 1 + n
                } else {
                    -1
                },
            }
        }
    } else {
        -1
    }
}

/// The greatest number of lists and dictionaries that are open at once
/// while the value at the front of `data` is read, counted from `pos` on
/// with `open` of them open. Reading ends where the value is complete, and
/// where the bytes cannot be read on.
pub open spec fn deepest(data: Seq<u8>, pos: int, open: nat) -> nat
    decreases data.len() - pos,
{
    if pos < 0 || pos >= data.len() {
        open
    } else {
        let b = data[pos];
        if b == 108 || b == 100 {
            deepest(data, pos + 1, open + 1)
        } else if b == 101 {
            if open <= 1 {
                open
            } else {
                let rest = deepest(data, pos + 1, (open - 1) as nat);
                if rest > open {
                    rest
                } else {
                    open
                }
            }
        } else {
            let next = after_scalar(data, pos);
            if open == 0 || next <= pos {
                open
            } else {
                let rest = deepest(data, next, open);
                if rest > open {
                    rest
                } else {
                    open
                }
            }
        }
    }
}

/// Whether the value at the front of `data` nests no deeper than the
/// decoder is asked to follow.
pub open spec fn shallow(data: Seq<u8>) -> bool {
    deepest(data, 0, 0) <= MAX_DEPTH
}

/// Measures the nesting of the value at the front of `data`.
pub fn nesting(data: &[u8]) -> (r: usize)
    ensures
        r == deepest(data@, 0, 0),
{
    let mut pos: usize = 0;
    let mut open: usize = 0;
    let mut top: usize = 0;
    loop
        invariant
            pos <= data.len(),
            open <= pos,
            top <= pos,
            deepest(data@, 0, 0) == (if deepest(data@, pos as int, open as nat) > top {
                deepest(data@, pos as int, open as nat)
            } else {
                top as nat
            }),
        ensures
            deepest(data@, pos as int, open as nat) == open,
        decreases data.len() - pos,
    {
        if pos >= data.len() {
            break;
        }
        let b = data[pos];
        if b == 108 || b == 100 {
            open += 1;
            pos += 1;
        } else if b == 101 {
            if open <= 1 {
                break;
            }
            if open > top {
                top = open;
            }
            open -= 1;
            pos += 1;
        } else {
            let next = scalar_end(data, pos);
            match next {
                Some(n) => {
                    if open == 0 {
                        break;
                    }
                    if open > top {
                        top = open;
                    }
                    pos = n;
                },
                None => {
                    break;
                },
            }
        }
    }
    if open > top {
        open
    } else {
        top
    }
}

/// The position behind the integer or byte string at `pos`.
fn scalar_end(data: &[u8], pos: usize) -> (r: Option<usize>)
    requires
        pos < data.len(),
    ensures
        match r {
            Some(n) => n == after_scalar(data@, pos as int) && pos < n <= data.len(),
            None => after_scalar(data@, pos as int) == -1,
        },
{
    let b = data[pos];
    if b == 105 {
        let end = find(data, pos + 1, 101);
        if end < data.len() {
            Some(end + 1)
        } else {
            None
        }
    } else if b >= 48 && b <= 57 {
        let colon = find(data, pos, 58);
        if colon >= data.len() {
            return None;
        }
        let digits = slice_copy(data, pos, colon);
        match parse_number(digits.as_slice(), usize::MAX as u64) {
            None => None,
            Some(n) => {
                if n <= (data.len() - colon - 1) as u64 {
                    Some(colon + 1 + n as usize)
                } else {
                    None
                }
            },
        }
    } else {
        None
    }
}

} // verus!
