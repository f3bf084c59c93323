//! What the site reads from the settings of a user.

use vstd::prelude::*;
use crate::db::{Site, SiteView};
use crate::models::user::{property_of, Property, PropertyValue};
use crate::models::Uuid;

verus! {

/// The number that a user has set under a name, if it has set one.
pub open spec fn number_set(db: SiteView, user_id: Uuid, name: Seq<char>) -> Option<i64> {
    match property_of(db.user_properties, user_id, name) {
        Some(p) => match p.value {
            PropertyValue::Number(n) => Some(n),
            _ => None,
        },
        None => None,
    }
}

/// The number that a user has set under a name: see [`number_set`].
pub fn user_number(user_id: &Uuid, name: &str, db: &Site) -> (r: Option<i64>)
    ensures
        r == number_set(db@, *user_id, name@),
{
    match Property::find(user_id, name, db) {
        Some(prop) => prop.value().as_i64(),
        None => None,
    }
}

/// The time zone of a user: the number that it has set as `timezone`, cut
/// to thirty-two bits, else the given one.
pub fn user_timezone(user_id: &Uuid, db: &Site, default_timezone: i32) -> (r: i32)
    ensures
        r == match number_set(db@, *user_id, "timezone"@) {
            Some(n) => n as i32,
            None => default_timezone,
        },
{
    match user_number(user_id, "timezone", db) {
        Some(number) => {
            #[verifier::truncate]
            let zone = number as i32;
            zone
        },
        None => default_timezone,
    }
}

} // verus!
