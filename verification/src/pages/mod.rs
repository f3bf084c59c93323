//! What the pages of the site take from their forms and show.

use vstd::prelude::*;
use vstd::string::StringExecFns;
use crate::util::{hex_char, hex_digit};

pub mod message;
pub mod static_content;
pub mod torrent;

verus! {

/// A time zone that a user can choose: a name, and the seconds that it is
/// ahead of UTC.
#[derive(Debug)]
pub struct Timezone {
    pub name: String,
    pub value: i32,
}

impl Timezone {
    /// A time zone.
    pub fn new(name: String, value: i32) -> (r: Self)
        ensures
            r.name == name,
            r.value == value,
    {
        Self { name, value }
    }
}

/// The time zones on offer, as seconds ahead of UTC, in rising order:
/// every full hour from twelve behind to fourteen ahead, and the zones that
/// lie between the hours.
pub open spec fn offsets() -> Seq<i32> {
    seq![
        -43200i32, -39600i32, -36000i32, -34200i32, -32400i32, -28800i32, -25200i32, -21600i32,
        -18000i32, -14400i32, -12600i32, -10800i32, -7200i32, -3600i32, 0i32, 3600i32, 7200i32,
        10800i32, 12600i32, 14400i32, 16200i32, 18000i32, 19800i32, 20700i32, 21600i32, 23400i32,
        25200i32, 28800i32, 32400i32, 34200i32, 36000i32, 37800i32, 39600i32, 43200i32, 45900i32,
        46800i32, 49500i32, 50400i32,
    ]
}

/// The decimal digits of a number below a hundred, without a leading zero.
pub open spec fn short_number(n: int) -> Seq<char> {
    if n < 10 {
        seq![hex_char(n)]
    } else {
        seq![hex_char(n / 10), hex_char(n % 10)]
    }
}

/// The name of a time zone: `UTC` for UTC itself, else `UTC`, the sign,
/// the hours, a colon, and the minutes in two digits.
pub open spec fn zone_name(offset: i32) -> Seq<char> {
    if offset == 0 {
        "UTC"@
    } else {
        let hours = if offset < 0 {
            (-offset) / 3600
        } else {
            offset / 3600
        };
        let minutes = if offset < 0 {
            ((-offset) % 3600) / 60
        } else {
            (offset % 3600) / 60
        };
        "UTC"@ + seq![if offset < 0 { '-' } else { '+' }] + short_number(hours) + seq![':']
            + seq![hex_char(minutes / 10), hex_char(minutes % 10)]
    }
}

fn zone(offset: i32) -> (r: Timezone)
    requires
        -360000 < offset < 360000,
    ensures
        r.value == offset,
        r.name@ == zone_name(offset),
{
    let mut name = "UTC".to_owned();
    if offset == 0 {
        return Timezone::new(name, 0);
    }
    proof {
        reveal_strlit("-");
        reveal_strlit("+");
        reveal_strlit(":");
    }
    let size: i32 = if offset < 0 { -offset } else { offset };
    let hours = size / 3600;
    let minutes = (size % 3600) / 60;
    name.append(if offset < 0 { "-" } else { "+" });
    if hours >= 10 {
        name.append(hex_digit((hours / 10) as u8));
    }
    name.append(hex_digit((hours % 10) as u8));
    name.append(":");
    name.append(hex_digit((minutes / 10) as u8));
    name.append(hex_digit((minutes % 10) as u8));
    assert(name@ =~= zone_name(offset));
    Timezone::new(name, offset)
}

/// The time zones on offer, in the order of their offsets.
pub fn timezones() -> (r: Vec<Timezone>)
    ensures
        r@.len() == offsets().len(),
        forall|i: int|
            0 <= i < r@.len() ==> (#[trigger] r@[i]).value == offsets()[i] && r@[i].name@
                == zone_name(offsets()[i]),
        forall|i: int, j: int| 0 <= i < j < r@.len() ==> r@[i].value < r@[j].value,
{
    let table: [i32; 38] = [
        -43200, -39600, -36000, -34200, -32400, -28800, -25200, -21600, -18000, -14400, -12600,
        -10800, -7200, -3600, 0, 3600, 7200, 10800, 12600, 14400, 16200, 18000, 19800, 20700, 21600,
        23400, 25200, 28800, 32400, 34200, 36000, 37800, 39600, 43200, 45900, 46800, 49500, 50400,
    ];
    assert(table@ =~= offsets());
    let mut out: Vec<Timezone> = Vec::with_capacity(38);
    let mut i: usize = 0;
    while i < 38
        invariant
            i <= 38,
            table@ == offsets(),
            out@.len() == i,
            forall|j: int|
                0 <= j < i ==> (#[trigger] out@[j]).value == offsets()[j] && out@[j].name@
                    == zone_name(offsets()[j]),
        decreases 38 - i,
    {
        out.push(zone(table[i]));
        i += 1;
    }
    out
}

} // verus!
