//! The change of the settings of a user: its properties and its profile.

use vstd::prelude::*;
use crate::db::{first, position, Row, Site, SiteView, sorted, Tables};
use crate::error::Error;
use crate::handlers::user::UserSettingsMsg;
use crate::models::category::Category;
use crate::models::user::{
    blank_profile, Property, PropertyValue, saved_profile, saved_property, User, user_with_id,
    UserProfile,
};
use crate::models::{Timestamp, Uuid};
use crate::util::same_text;

verus! {

/// What a user changes of its profile. A new avatar comes with its name
/// and the place where it lies.
#[derive(Debug)]
pub struct UpdateProfileMsg {
    pub id: Uuid,
    pub avatar: Option<(String, String)>,
    pub flair: Option<String>,
    pub about: Option<String>,
}

impl UpdateProfileMsg {
    /// A change that so far changes nothing.
    pub fn new(id: Uuid) -> (r: Self)
        ensures
            r == (UpdateProfileMsg { id, avatar: None, flair: None, about: None }),
    {
        Self { id, avatar: None, flair: None, about: None }
    }

    /// Sets the new avatar and returns the one that was set before.
    pub fn set_avatar(&mut self, avatar: Option<(String, String)>) -> (r: Option<(String, String)>)
        ensures
            r == old(self).avatar,
            *final(self) == (UpdateProfileMsg { avatar, ..*old(self) }),
    {
        let mut next = avatar;
        std::mem::swap(&mut self.avatar, &mut next);
        next
    }

    /// Sets the new avatar, by its name and the place where it lies, and
    /// returns the one that was set before.
    pub fn set_avatar2(&mut self, name: String, file: String) -> (r: Option<(String, String)>)
        ensures
            r == old(self).avatar,
            *final(self) == (UpdateProfileMsg { avatar: Some((name, file)), ..*old(self) }),
    {
        self.set_avatar(Some((name, file)))
    }

    /// Sets the new flair and returns the one that was set before.
    pub fn set_flair(&mut self, flair: Option<String>) -> (r: Option<String>)
        ensures
            r == old(self).flair,
            *final(self) == (UpdateProfileMsg { flair, ..*old(self) }),
    {
        let mut next = flair;
        std::mem::swap(&mut self.flair, &mut next);
        next
    }

    /// Sets the new text about the user and returns the one that was set
    /// before.
    pub fn set_about(&mut self, about: Option<String>) -> (r: Option<String>)
        ensures
            r == old(self).about,
            *final(self) == (UpdateProfileMsg { about, ..*old(self) }),
    {
        let mut next = about;
        std::mem::swap(&mut self.about, &mut next);
        next
    }
}

/// Changes the settings of a user: the properties are saved one by one,
/// then the profile.
#[derive(Debug)]
pub struct UpdateUserSettingsMsg {
    pub id: Uuid,
    pub properties: Vec<Property>,
    pub profile: UpdateProfileMsg,
}

/// What the saving of properties has come to: the table, the properties of
/// the user as they are shown, and what ended it, if anything did.
pub ghost struct PropertiesPut {
    pub table: Seq<Property>,
    pub shown: Seq<Property>,
    pub failed: Option<Error>,
}

/// Holds of the properties with a name.
pub open spec fn property_named(name: Seq<char>) -> spec_fn(Property) -> bool {
    |p: Property| p.name@ == name
}

/// The saving of one property. Where a property that is shown has its
/// name, the first such takes its value and is saved; then the property
/// itself is saved and shown last. A save that fails ends it.
pub open spec fn property_put(before: PropertiesPut, p: Property) -> PropertiesPut {
    let i = position(before.shown, property_named(p.name@));
    if i < before.shown.len() {
        let changed = Property { value: p.value, ..before.shown[i] };
        let shown = before.shown.update(i, changed);
        match saved_property(before.table, changed) {
            Err(e) => PropertiesPut { table: before.table, shown, failed: Some(e) },
            Ok(table) => match saved_property(table, p) {
                Err(e) => PropertiesPut { table, shown, failed: Some(e) },
                Ok(last) => PropertiesPut { table: last, shown: shown.push(p), failed: None },
            },
        }
    } else {
        match saved_property(before.table, p) {
            Err(e) => PropertiesPut { failed: Some(e), ..before },
            Ok(table) => PropertiesPut { table, shown: before.shown.push(p), failed: None },
        }
    }
}

/// The saving of the first `n` of the new properties, one by one; the
/// first save that fails ends it.
pub open spec fn properties_put(start: PropertiesPut, new: Seq<Property>, n: nat) -> PropertiesPut
    decreases n,
{
    if n == 0 {
        start
    } else {
        let before = properties_put(start, new, (n - 1) as nat);
        if before.failed.is_some() {
            before
        } else {
            property_put(before, new[n - 1])
        }
    }
}

/// A failure of the saving stays.
pub proof fn lemma_properties_put_ends(start: PropertiesPut, new: Seq<Property>, n: nat, m: nat)
    requires
        n <= m,
        properties_put(start, new, n).failed.is_some(),
    ensures
        properties_put(start, new, m) == properties_put(start, new, n),
    decreases m,
{
    if n < m {
        lemma_properties_put_ends(start, new, n, (m - 1) as nat);
    }
}

/// The profile after the change: the text about the user and the flair
/// are those of the change, and the avatar is the name of the new one
/// where there is one.
pub open spec fn profile_changed(p: UserProfile, change: UpdateProfileMsg) -> UserProfile {
    UserProfile {
        id: p.id,
        about: change.about,
        flair: change.flair,
        avatar: match change.avatar {
            Some(a) => Some(a.0),
            None => p.avatar,
        },
    }
}

/// A copy of a text that may be absent.
fn copy_text(t: &Option<String>) -> (r: Option<String>)
    ensures
        r == *t,
{
    match t {
        Some(s) => Some(s.clone()),
        None => None,
    }
}

impl UpdateUserSettingsMsg {
    /// A change of the settings of a user that so far changes nothing.
    pub fn new(id: Uuid) -> (r: Self)
        ensures
            r.id == id,
            r.properties@.len() == 0,
            r.profile == (UpdateProfileMsg { id, avatar: None, flair: None, about: None }),
    {
        Self { id, properties: Vec::new(), profile: UpdateProfileMsg::new(id) }
    }

    /// The change of the profile.
    pub fn profile(&self) -> (r: &UpdateProfileMsg)
        ensures
            *r == self.profile,
    {
        &self.profile
    }

    /// The change of the profile, to be changed in place.
    pub fn profile_mut(&mut self) -> (r: &mut UpdateProfileMsg)
        ensures
            *r == old(self).profile,
            *final(self) == (UpdateUserSettingsMsg { profile: *final(r), ..*old(self) }),
    {
        &mut self.profile
    }

    /// The properties that are to be saved, to be changed in place.
    pub fn properties_mut(&mut self) -> (r: &mut Vec<Property>)
        ensures
            *r == old(self).properties,
            *final(self) == (UpdateUserSettingsMsg { properties: *final(r), ..*old(self) }),
    {
        &mut self.properties
    }

    /// The properties that are to be saved.
    pub fn properties(&self) -> (r: &Vec<Property>)
        ensures
            *r == self.properties,
    {
        &self.properties
    }

    /// Adds a property to those that are to be saved.
    pub fn push_property(&mut self, property: Property)
        ensures
            final(self).properties@ == old(self).properties@.push(property),
            final(self).id == old(self).id,
            final(self).profile == old(self).profile,
    {
        self.properties.push(property)
    }

    /// Adds a property of the user, made at `now` with an identifier made
    /// for it, to those that are to be saved.
    pub fn push_create_property(&mut self, name: String, value: PropertyValue, now: Timestamp)
        ensures
            final(self).properties@.len() == old(self).properties@.len() + 1,
            final(self).properties@.drop_last() == old(self).properties@,
            final(self).properties@.last() == (Property {
                id: final(self).properties@.last().id,
                user_id: old(self).id,
                name,
                value,
                created_at: now,
                updated_at: now,
            }),
            final(self).id == old(self).id,
            final(self).profile == old(self).profile,
    {
        let property = Property::new(name, value, &self.id, now);
        self.push_property(property);
        proof {
            assert(self.properties@.drop_last() =~= old(self).properties@);
        }
    }

    /// Saves the properties one by one: see [`properties_put`].
    fn put_properties(&self, shown: &mut Vec<Property>, site: &mut Site) -> (r: Option<Error>)
        ensures
            (PropertiesPut { table: final(site)@.user_properties, shown: final(shown)@, failed: r })
                == properties_put(
                (PropertiesPut {
                    table: old(site)@.user_properties,
                    shown: old(shown)@,
                    failed: None,
                }),
                self.properties@,
                self.properties@.len(),
            ),
            final(site)@ == (SiteView {
                user_properties: final(site)@.user_properties,
                ..old(site)@
            }),
    {
        let ghost start = PropertiesPut {
            table: site@.user_properties,
            shown: shown@,
            failed: None,
        };
        let mut k: usize = 0;
        while k < self.properties.len()
            invariant
                k <= self.properties.len(),
                start == (PropertiesPut {
                    table: old(site)@.user_properties,
                    shown: old(shown)@,
                    failed: None,
                }),
                (PropertiesPut { table: site@.user_properties, shown: shown@, failed: None })
                    == properties_put(start, self.properties@, k as nat),
                site@ == (SiteView { user_properties: site@.user_properties, ..old(site)@ }),
            decreases self.properties.len() - k,
        {
            let p = &self.properties[k];
            let ghost before = PropertiesPut {
                table: site@.user_properties,
                shown: shown@,
                failed: None,
            };
            let i = place_of(shown, p.name());
            let mut failed: Option<Error> = None;
            if i < shown.len() {
                let mut changed = shown[i].duplicate();
                changed.set_value(p.value().duplicate());
                match changed.save(site) {
                    Ok(_) => {},
                    Err(e) => {
                        failed = Some(e);
                    },
                }
                shown[i] = changed;
                proof {
                    assert(shown@ =~= before.shown.update(i as int, changed));
                }
            }
            if failed.is_none() {
                match p.save(site) {
                    Ok(_) => {
                        shown.push(p.duplicate());
                    },
                    Err(e) => {
                        failed = Some(e);
                    },
                }
            }
            proof {
                assert((PropertiesPut {
                    table: site@.user_properties,
                    shown: shown@,
                    failed,
                }) == property_put(before, *p));
            }
            if failed.is_some() {
                proof {
                    lemma_properties_put_ends(
                        start,
                        self.properties@,
                        (k + 1) as nat,
                        self.properties@.len(),
                    );
                }
                return failed;
            }
            k += 1;
        }
        None
    }

    /// What the change comes to, with the tables after it: without the
    /// user nothing; else the properties of the user, in the order of
    /// their names to start with, are saved over as [`properties_put`]
    /// says, and then the profile.
    pub fn handle(&self, db: &Tables, site: &mut Site) -> (r: Result<UserSettingsMsg, Error>)
        ensures
            match first(db@.users, user_with_id(self.id)) {
                None => r == Err::<UserSettingsMsg, Error>(Error::NoUser) && final(site)@ == old(site)@,
                Some(u) => exists|fetched: Seq<Property>|
                    {
                        let put = #[trigger] properties_put(
                            (PropertiesPut {
                                table: old(site)@.user_properties,
                                shown: fetched,
                                failed: None,
                            }),
                            self.properties@,
                            self.properties@.len(),
                        );
                        let profile = profile_changed(
                            match first(
                                old(site)@.profiles,
                                crate::db::with_id::<UserProfile>(u.id),
                            ) {
                                Some(p) => p,
                                None => blank_profile(u.id),
                            },
                            self.profile,
                        );
                        &&& sorted::<Property>(fetched)
                        &&& fetched.to_multiset() == crate::db::those(
                            old(site)@.user_properties,
                            crate::db::meeting::<Property, crate::models::user::OfUser>(
                                crate::models::user::OfUser(self.id),
                            ),
                        ).to_multiset()
                        &&& match put.failed {
                            Some(e) => r == Err::<UserSettingsMsg, Error>(e) && final(site)@ == (
                            SiteView { user_properties: put.table, ..old(site)@ }),
                            None => {
                                &&& r.is_ok()
                                &&& r.unwrap().user@ == u
                                &&& r.unwrap().profile == profile
                                &&& r.unwrap().properties@ == put.shown
                                &&& sorted::<Category>(r.unwrap().categories@)
                                &&& r.unwrap().categories@.to_multiset()
                                    == old(site)@.categories.to_multiset()
                                &&& final(site)@ == (SiteView {
                                    user_properties: put.table,
                                    profiles: saved_profile(old(site)@.profiles, profile),
                                    ..old(site)@
                                })
                            },
                        }
                    },
            },
    {
        let user = match User::find(&self.id, db) {
            Some(u) => u,
            None => return Err(Error::NoUser),
        };
        proof {
            crate::db::lemma_position(db@.users, user_with_id(self.id));
        }
        let mut properties = Property::fetch_for_user(&self.id, site);
        let ghost fetched = properties@;
        let mut profile = user.profile(site);
        match self.put_properties(&mut properties, site) {
            Some(e) => return Err(e),
            None => {},
        }
        profile.about = copy_text(&self.profile.about);
        profile.flair = copy_text(&self.profile.flair);
        match &self.profile.avatar {
            Some(a) => {
                profile.avatar = Some(a.0.clone());
            },
            None => {},
        }
        let _ = profile.save(site);
        let categories = Category::all(site);
        Ok(UserSettingsMsg::new(user, profile, properties, categories))
    }
}

/// The place of the first property with a name, or the number of
/// properties.
fn place_of(list: &Vec<Property>, name: &str) -> (r: usize)
    ensures
        r == position(list@, property_named(name@)),
{
    let ghost f = property_named(name@);
    let mut i: usize = 0;
    while i < list.len()
        invariant
            i <= list.len(),
            f == property_named(name@),
            forall|j: int| 0 <= j < i ==> !f(#[trigger] list@[j]),
        decreases list.len() - i,
    {
        if same_text(list[i].name(), name) {
            proof {
                crate::db::lemma_position_is(list@, f, i as int);
            }
            return i;
        }
        i += 1;
    }
    proof {
        crate::db::lemma_position_is(list@, f, i as int);
    }
    i
}

} // verus!
