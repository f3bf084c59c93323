//! Query strings as the tracker reads them: parts split at `&`, each at its
//! first `=`, values percent-decoded to raw bytes, numbers in decimal.

use vstd::prelude::*;
use crate::util::bytes::{find, first_index, slice_copy};

verus! {

/// The value of a hexadecimal digit of either case, or -1 for another byte.
pub open spec fn hex_digit_value(b: u8) -> int {
    if 48 <= b <= 57 {
        b - 48
    } else if 97 <= b <= 102 {
        b - 87
    } else if 65 <= b <= 70 {
        b - 55
    } else {
        -1
    }
}

/// Percent-decoding: a `%` with two hexadecimal digits behind it stands for
/// one byte; every other byte stands for itself.
pub open spec fn percent_decoded(s: Seq<u8>) -> Seq<u8>
    decreases s.len(),
{
    if s.len() == 0 {
        Seq::empty()
    } else if s[0] == 37 && s.len() >= 3 && hex_digit_value(s[1]) >= 0 && hex_digit_value(s[2])
        >= 0 {
        seq![(hex_digit_value(s[1]) * 16 + hex_digit_value(s[2])) as u8] + percent_decoded(
            s.skip(3),
        )
    } else {
        seq![s[0]] + percent_decoded(s.skip(1))
    }
}

/// `url::percent_encoding::percent_decode`, its bytes collected. The
/// iterator it returns yields, for each `%` followed by two hexadecimal
/// digits, the byte they give, and every other byte unchanged.
#[verifier::external_body]
pub(crate) fn percent_decode(input: &[u8]) -> (r: Vec<u8>)
    ensures
        r@ == percent_decoded(input@),
{
    url::percent_encoding::percent_decode(input).collect()
}

/// The raw value of a part `key=value` if its key is `key`.
pub open spec fn part_value(part: Seq<u8>, key: Seq<u8>) -> Option<Seq<u8>> {
    let eq = first_index(part, 61);
    if eq < part.len() && part.take(eq) == key {
        Some(part.skip(eq + 1))
    } else {
        None
    }
}

/// The raw value of `key` in a query: that of the last part with this key.
pub open spec fn raw_value(query: Seq<u8>, key: Seq<u8>) -> Option<Seq<u8>>
    decreases query.len(),
{
    let end = first_index(query, 38);
    let here = part_value(query.take(end), key);
    if 0 <= end < query.len() {
        match raw_value(query.skip(end + 1), key) {
            Some(v) => Some(v),
            None => here,
        }
    } else {
        here
    }
}

/// The raw values of `key` in a query, one for each part with this key, in
/// the order of the parts.
pub open spec fn raw_values(query: Seq<u8>, key: Seq<u8>) -> Seq<Seq<u8>>
    decreases query.len(),
{
    let end = first_index(query, 38);
    let here = match part_value(query.take(end), key) {
        Some(v) => seq![v],
        None => Seq::empty(),
    };
    if 0 <= end < query.len() {
        here + raw_values(query.skip(end + 1), key)
    } else {
        here
    }
}

/// The decoded value of `key` in a query.
pub open spec fn value_of(query: Seq<u8>, key: Seq<u8>) -> Option<Seq<u8>> {
    match raw_value(query, key) {
        Some(v) => Some(percent_decoded(v)),
        None => None,
    }
}

/// The decoded values of `key` in a query.
pub open spec fn values_of(query: Seq<u8>, key: Seq<u8>) -> Seq<Seq<u8>> {
    raw_values(query, key).map_values(|v: Seq<u8>| percent_decoded(v))
}

/// The raw value of the part `s[from..to]` if its key is `key`.
fn part(s: &[u8], from: usize, to: usize, key: &[u8]) -> (r: Option<Vec<u8>>)
    requires
        from <= to <= s.len(),
    ensures
        match r {
            Some(v) => part_value(s@.subrange(from as int, to as int), key@) == Some(v@),
            None => part_value(s@.subrange(from as int, to as int), key@).is_none(),
        },
{
    let ghost p = s@.subrange(from as int, to as int);
    let piece = slice_copy(s, from, to);
    let eq = find(piece.as_slice(), 0, 61);
    assert(piece@.skip(0) =~= piece@);
    if eq < piece.len() {
        let name = slice_copy(piece.as_slice(), 0, eq);
        assert(name@ =~= p.take(eq as int));
        if crate::util::bytes_eq(name.as_slice(), key) {
            let v = slice_copy(piece.as_slice(), eq + 1, piece.len());
            assert(v@ =~= p.skip(eq + 1));
            return Some(v);
        }
    }
    None
}

/// Finds the raw value of `key` in a query.
pub fn raw_param(query: &[u8], key: &[u8]) -> (r: Option<Vec<u8>>)
    ensures
        match r {
            Some(v) => raw_value(query@, key@) == Some(v@),
            None => raw_value(query@, key@).is_none(),
        },
{
    let mut found: Option<Vec<u8>> = None;
    let mut pos: usize = 0;
    let mut done = false;
    assert(query@.skip(0) =~= query@);
    while !done
        invariant
            pos <= query.len(),
            !done ==> raw_value(query@, key@) == (match raw_value(query@.skip(pos as int), key@) {
                Some(v) => Some(v),
                None => match found {
                    Some(f) => Some(f@),
                    None => None,
                },
            }),
            done ==> raw_value(query@, key@) == (match found {
                Some(f) => Some(f@),
                None => None::<Seq<u8>>,
            }),
        decreases query.len() - pos + (if done { 0int } else { 1int }),
    {
        let end = find(query, pos, 38);
        let ghost rest = query@.skip(pos as int);
        assert(rest.take(end - pos) =~= query@.subrange(pos as int, end as int));
        match part(query, pos, end, key) {
            Some(v) => {
                found = Some(v);
            },
            None => {},
        }
        if end < query.len() {
            assert(rest.skip(end - pos + 1) =~= query@.skip(end + 1));
            pos = end + 1;
        } else {
            done = true;
        }
    }
    found
}

/// The views of a vector of byte strings.
pub open spec fn views(v: Seq<Vec<u8>>) -> Seq<Seq<u8>> {
    v.map_values(|b: Vec<u8>| b@)
}

/// Finds the raw values of `key` in a query, in order.
pub fn raw_params(query: &[u8], key: &[u8]) -> (r: Vec<Vec<u8>>)
    ensures
        views(r@) == raw_values(query@, key@),
{
    let mut found: Vec<Vec<u8>> = Vec::new();
    let mut pos: usize = 0;
    let mut done = false;
    assert(query@.skip(0) =~= query@);
    assert(views(found@) =~= Seq::empty());
    while !done
        invariant
            pos <= query.len(),
            !done ==> raw_values(query@, key@) == views(found@) + raw_values(
                query@.skip(pos as int),
                key@,
            ),
            done ==> raw_values(query@, key@) == views(found@),
        decreases query.len() - pos + (if done { 0int } else { 1int }),
    {
        let end = find(query, pos, 38);
        let ghost rest = query@.skip(pos as int);
        let ghost before = views(found@);
        assert(rest.take(end - pos) =~= query@.subrange(pos as int, end as int));
        match part(query, pos, end, key) {
            Some(v) => {
                let ghost item = v@;
                found.push(v);
                assert(views(found@) =~= before + seq![item]);
            },
            None => {
                assert(views(found@) =~= before + Seq::empty());
            },
        }
        if end < query.len() {
            assert(rest.skip(end - pos + 1) =~= query@.skip(end + 1));
            pos = end + 1;
            assert(raw_values(query@, key@) =~= views(found@) + raw_values(
                query@.skip(pos as int),
                key@,
            ));
        } else {
            done = true;
        }
    }
    found
}

/// Finds the decoded value of `key` in a query.
pub fn param(query: &[u8], key: &[u8]) -> (r: Option<Vec<u8>>)
    ensures
        match r {
            Some(v) => value_of(query@, key@) == Some(v@),
            None => value_of(query@, key@).is_none(),
        },
{
    match raw_param(query, key) {
        Some(raw) => Some(percent_decode(raw.as_slice())),
        None => None,
    }
}

} // verus!
