//! Requests to the users of the site.

use vstd::prelude::*;
use crate::db::{capped, count, count_where, first, meeting, select_where, Site, SiteView, sorted, Tables, TablesView, those};
use crate::models::acl::{Permission, user_may};
use crate::models::category::Category;
use crate::models::peer::{Peer, PeerView};
use crate::models::user::{
    CompletedTorrent, marked_active, OfUser, PeerOf, Property, PropertyValue, PropertyWith,
    saved_user, STATUS_ACTIVE, TransferOf, user_with_id, UserConnection, UserProfile,
    UserTransfer, UserUpload, uploads_of, connection_of,
};
use crate::net::IpAddress;
use crate::util::user::{number_set, user_timezone};
use crate::error::Error;
use crate::models::group::Group;
use crate::models::{Bytes, Timestamp, Uuid};
use crate::models::user::{User, UserView};
use crate::state::AclContainer;

verus! {

/// Asks for a user; the second part says whether the user is to be marked
/// as active now.
#[derive(Debug)]
pub struct RequireUserMsg(pub Uuid, pub bool);

/// What a user types to log in.
#[derive(Debug)]
pub struct LoginForm {
    pub username: String,
    pub password: String,
}

/// What a user types to sign up.
#[derive(Debug)]
pub struct SignupForm {
    pub username: String,
    pub email: String,
    pub password: String,
    pub password_confirmation: String,
    pub terms: String,
}

/// Whether a byte is an ASCII letter.
pub open spec fn is_letter(b: u8) -> bool {
    (65 <= b <= 90) || (97 <= b <= 122)
}

/// Whether a byte may stand in a name behind its first: a letter, a
/// digit, `_` or `-`.
pub open spec fn is_name_byte(b: u8) -> bool {
    is_letter(b) || (48 <= b <= 57) || b == 95 || b == 45
}

/// Whether a text is a name for a user: four bytes or more, a letter
/// first, then letters, digits, `_` and `-`.
pub open spec fn username_ok(name: Seq<u8>) -> bool {
    name.len() >= 4 && is_letter(name[0]) && forall|i: int|
        1 <= i < name.len() ==> is_name_byte(#[trigger] name[i])
}

/// Whether an address for mail is well-formed, as `fast_chemail` judges.
pub uninterp spec fn well_formed_email(address: Seq<char>) -> bool;

/// `fast_chemail::is_valid_email`.
#[verifier::external_body]
fn email_is_valid(address: &str) -> (r: bool)
    ensures
        r == well_formed_email(address@),
{
    fast_chemail::is_valid_email(address)
}

/// What is wrong with a form, if anything: the first of the checks, in
/// this order, that does not pass.
pub open spec fn signup_failure(form: SignupForm, users: Seq<UserView>) -> Option<Error> {
    if !username_ok(vstd::utf8::encode_utf8(form.username@)) {
        Some(Error::BadUsername)
    } else if !well_formed_email(form.email@) {
        Some(Error::BadEmail)
    } else if form.password@ != form.password_confirmation@ {
        Some(Error::PasswordMismatch)
    } else if vstd::utf8::encode_utf8(form.password@).len() < 8 {
        Some(Error::BadPassword)
    } else if first(users, crate::models::user::user_named(form.username@)).is_some() {
        Some(Error::UsernameTaken)
    } else if first(users, crate::models::user::user_with_email(form.email@)).is_some() {
        Some(Error::EmailTaken)
    } else {
        None
    }
}

impl SignupForm {
    /// Whether the name is well-formed.
    pub fn username_valid(&self) -> (r: bool)
        ensures
            r == username_ok(vstd::utf8::encode_utf8(self.username@)),
    {
        let name = self.username.as_str().as_bytes();
        if name.len() < 4 {
            return false;
        }
        let b = name[0];
        if !((b >= 65 && b <= 90) || (b >= 97 && b <= 122)) {
            return false;
        }
        let mut i: usize = 1;
        while i < name.len()
            invariant
                1 <= i <= name.len(),
                name@.len() >= 4,
                name@ == vstd::utf8::encode_utf8(self.username@),
                is_letter(name@[0]),
                forall|j: int| 1 <= j < i ==> is_name_byte(#[trigger] name@[j]),
            decreases name.len() - i,
        {
            let c = name[i];
            if !((c >= 65 && c <= 90) || (c >= 97 && c <= 122) || (c >= 48 && c <= 57) || c == 95
                || c == 45) {
                assert(!is_name_byte(name@[i as int]));
                return false;
            }
            i += 1;
        }
        true
    }

    /// Whether the address for mail is well-formed.
    pub fn email_valid(&self) -> (r: bool)
        ensures
            r == well_formed_email(self.email@),
    {
        email_is_valid(self.email.as_str())
    }

    /// Whether no user has the name.
    pub fn username_unique(&self, db: &Tables) -> (r: bool)
        ensures
            r == first(db@.users, crate::models::user::user_named(self.username@)).is_none(),
    {
        User::find_by_name(self.username.as_str(), db).is_none()
    }

    /// Whether no user has the address for mail.
    pub fn email_unique(&self, db: &Tables) -> (r: bool)
        ensures
            r == first(db@.users, crate::models::user::user_with_email(self.email@)).is_none(),
    {
        User::find_by_email(self.email.as_str(), db).is_none()
    }

    /// Checks the form: see [`signup_failure`].
    pub fn is_valid(&self, db: &Tables) -> (r: Result<bool, Error>)
        ensures
            match r {
                Ok(b) => b && signup_failure(*self, db@.users).is_none(),
                Err(e) => signup_failure(*self, db@.users) == Some(e),
            },
    {
        if !self.username_valid() {
            return Err(Error::BadUsername);
        }
        if !self.email_valid() {
            return Err(Error::BadEmail);
        }
        if !self.passwords_match() {
            return Err(Error::PasswordMismatch);
        }
        if !self.password_valid() {
            return Err(Error::BadPassword);
        }
        if !self.username_unique(db) {
            return Err(Error::UsernameTaken);
        }
        if !self.email_unique(db) {
            return Err(Error::EmailTaken);
        }
        Ok(true)
    }

    /// Whether the password was typed the same twice.
    pub fn passwords_match(&self) -> (r: bool)
        ensures
            r == (self.password@ == self.password_confirmation@),
    {
        self.password == self.password_confirmation
    }

    /// Whether the password is long enough: eight bytes or more.
    pub fn password_valid(&self) -> (r: bool)
        ensures
            r == (vstd::utf8::encode_utf8(self.password@).len() >= 8),
    {
        self.password.as_str().as_bytes().len() >= 8
    }
}

/// Whether a user is one that signing up with a form makes: new at `now`,
/// with the name and the address of the form, in the group, with a
/// passcode of the length, and with the hash of the password of the form
/// under a salt of its own.
pub open spec fn member_made(
    u: UserView,
    form: SignupForm,
    gid: Uuid,
    passcode_len: usize,
    now: Timestamp,
) -> bool {
    &&& u.name == form.username@
    &&& u.email == form.email@
    &&& u.group_id == gid
    &&& u.status == crate::models::user::STATUS_NEW
    &&& u.created_at == now
    &&& u.updated_at == now
    &&& u.uploaded == 0
    &&& u.downloaded == 0
    &&& u.last_active.is_none()
    &&& u.ip_address.is_none()
    &&& u.passcode.len() == passcode_len
    &&& u.salt.len() == crate::models::user::SALTBYTES
    &&& u.password == crate::util::password::argon2i(
        vstd::utf8::encode_utf8(form.password@),
        u.salt,
    )
}

/// Whether the folders of a user were made, as far as they were: the
/// folders that were there stay, and those after them are the user's, in
/// the order of the names that every user has.
pub open spec fn folders_made(
    before: Seq<crate::models::message::MessageFolder>,
    after: Seq<crate::models::message::MessageFolder>,
    user_id: Uuid,
) -> bool {
    &&& before.len() <= after.len() <= before.len() + 3
    &&& after.take(before.len() as int) == before
    &&& forall|i: int|
        before.len() <= i < after.len() ==> (#[trigger] after[i]).user_id == user_id
            && after[i].purge == 0 && after[i].name@ == crate::models::user::folder_names()[i
            - before.len()]
}

/// Whether a user was set to wait to be confirmed under a text: the text
/// is a digest in hexadecimal, the property that says so was saved, and
/// nothing else has changed.
pub open spec fn waits_under(
    before: SiteView,
    after: SiteView,
    user_id: Uuid,
    now: Timestamp,
    text: Seq<char>,
    digest: Seq<u8>,
    p: Property,
) -> bool {
    &&& digest.len() == 32
    &&& text == crate::util::hex_text(digest)
    &&& crate::models::user::confirms(p, p.id, user_id, digest, now)
    &&& crate::models::user::saved_property(before.user_properties, p) == Ok::<
        Seq<Property>,
        Error,
    >(after.user_properties)
    &&& after == (SiteView { user_properties: after.user_properties, ..before })
}

/// Whether a user was set to wait to be confirmed under a text, with some
/// digest and some property: see [`waits_under`].
pub open spec fn waited(
    before: SiteView,
    after: SiteView,
    user_id: Uuid,
    now: Timestamp,
    text: Seq<char>,
) -> bool {
    exists|digest: Seq<u8>, p: Property| #[trigger]
        waits_under(before, after, user_id, now, text, digest, p)
}

/// Whether a user has signed up: it is the last user, with an identifier
/// that was free; it has its three folders; and it waits to be confirmed
/// under the text that is handed out, the digest in hexadecimal.
pub open spec fn signed_up(
    form: SignupForm,
    gid: Uuid,
    passcode_len: usize,
    now: Timestamp,
    before: (TablesView, SiteView),
    after: (TablesView, SiteView),
    text: Seq<char>,
    u: UserView,
    digest: Seq<u8>,
    p: Property,
) -> bool {
    &&& member_made(u, form, gid, passcode_len, now)
    &&& crate::db::position(before.0.users, crate::db::with_id::<User>(u.id))
        >= before.0.users.len()
    &&& after.0 == (TablesView { users: before.0.users.push(u), ..before.0 })
    &&& folders_made(before.1.folders, after.1.folders, u.id)
    &&& after.1.folders.len() == before.1.folders.len() + 3
    &&& waits_under(
        SiteView { folders: after.1.folders, ..before.1 },
        after.1,
        u.id,
        now,
        text,
        digest,
        p,
    )
}

/// Whether signing up has ended after the user was made: the user is the
/// last user, its folders are there as far as they were made, and nothing
/// else has changed.
pub open spec fn left_with(
    before: (TablesView, SiteView),
    after: (TablesView, SiteView),
    u: UserView,
) -> bool {
    &&& after.0 == (TablesView { users: before.0.users.push(u), ..before.0 })
    &&& folders_made(before.1.folders, after.1.folders, u.id)
    &&& after.1 == (SiteView { folders: after.1.folders, ..before.1 })
}

/// Whether signing up has failed on an identifier that was taken: the
/// tables are as they were, but for the user where it was made, and for
/// its folders as far as they were made.
pub open spec fn sign_up_undone(before: (TablesView, SiteView), after: (TablesView, SiteView)) -> bool {
    after == before || exists|u: UserView| #[trigger] left_with(before, after, u)
}

/// Lets a user wait to be confirmed, and returns the text under which it
/// waits: see [`waits_under`].
fn wait_for_confirmation(user: &User, site: &mut Site, now: Timestamp) -> (r: Result<String, Error>)
    ensures
        r.is_ok() ==> waited(old(site)@, final(site)@, user.id, now, r.unwrap()@),
        r matches Err(e) ==> e == Error::DuplicateKey && final(site)@ == old(site)@,
{
    let made = user.create_confirm_id(site, now);
    proof {
        let (seed, p) = choose|seed: Seq<u8>, p: Property|
            seed.len() == 16 && #[trigger] crate::models::user::confirms(
                p,
                p.id,
                user.id,
                crate::util::sha256(seed),
                now,
            ) && match crate::models::user::saved_property(old(site)@.user_properties, p) {
                Ok(rows) => made.is_ok() && made.unwrap()@ == crate::util::sha256(seed)
                    && made.unwrap()@.len() == 32 && site@ == (SiteView {
                    user_properties: rows,
                    ..old(site)@
                }),
                Err(e) => made == Err::<Bytes, Error>(e) && site@ == old(site)@,
            };
        if made.is_ok() {
            assert(waits_under(
                old(site)@,
                site@,
                user.id,
                now,
                crate::util::hex_text(made.unwrap()@),
                made.unwrap()@,
                p,
            ));
        }
    }
    match made {
        Ok(digest) => {
            let text = crate::util::to_hex(digest.as_slice());
            assert(waited(old(site)@, site@, user.id, now, text@));
            Ok(text)
        },
        Err(e) => Err(e),
    }
}

impl SignupForm {
    /// Signs a user up: where the form is in order and the group for new
    /// users is there, a user is made with its folders and waits to be
    /// confirmed; the result is the text under which it waits. A form
    /// that is not in order, or a missing group, changes nothing. Where an
    /// identifier made for a row is taken the signing up ends there.
    pub fn handle(
        &self,
        db: &mut Tables,
        site: &mut Site,
        settings: &crate::settings::User,
        now: Timestamp,
    ) -> (r: Result<String, Error>)
        requires
            vstd::utf8::encode_utf8(self.password@).len() <= u32::MAX,
            settings.passcode_length > 0,
        ensures
            signup_failure(*self, old(db)@.users) matches Some(e) ==> r == Err::<String, Error>(e)
                && final(db)@ == old(db)@ && final(site)@ == old(site)@,
            signup_failure(*self, old(db)@.users).is_none() && first(
                old(site)@.groups,
                crate::db::with_id::<Group>(settings.default_group),
            ).is_none() ==> r == Err::<String, Error>(Error::NoGroup) && final(db)@ == old(db)@
                && final(site)@ == old(site)@,
            signup_failure(*self, old(db)@.users).is_none() && first(
                old(site)@.groups,
                crate::db::with_id::<Group>(settings.default_group),
            ).is_some() ==> match r {
                Ok(text) => exists|u: UserView, digest: Seq<u8>, p: Property| #[trigger]
                    signed_up(
                        *self,
                        settings.default_group,
                        settings.passcode_length,
                        now,
                        (old(db)@, old(site)@),
                        (final(db)@, final(site)@),
                        text@,
                        u,
                        digest,
                        p,
                    ),
                Err(e) => e == Error::DuplicateKey && sign_up_undone(
                    (old(db)@, old(site)@),
                    (final(db)@, final(site)@),
                ),
            },
    {
        match self.is_valid(db) {
            Ok(_) => {},
            Err(e) => return Err(e),
        }
        let group = match Group::find(&settings.default_group, site) {
            Some(g) => g,
            None => return Err(Error::NoGroup),
        };
        proof {
            crate::db::lemma_position(
                site@.groups,
                crate::db::with_id::<Group>(settings.default_group),
            );
        }
        let user = match User::create(
            db,
            self.username.clone(),
            self.email.clone(),
            self.password.as_str(),
            &group,
            settings.passcode_length,
            now,
        ) {
            Ok(u) => u,
            Err(e) => return Err(e),
        };
        match user.create_message_folders(site) {
            Ok(_) => {},
            Err(e) => {
                proof {
                    assert(left_with((old(db)@, old(site)@), (db@, site@), user@));
                }
                return Err(e);
            },
        }
        let ghost middle = site@;
        let r = wait_for_confirmation(&user, site, now);
        proof {
            if r.is_ok() {
                let text = r.unwrap()@;
                let (digest, p) = choose|digest: Seq<u8>, p: Property| #[trigger]
                    waits_under(middle, site@, user.id, now, text, digest, p);
                assert(middle == (SiteView { folders: site@.folders, ..old(site)@ }));
                assert(signed_up(
                    *self,
                    settings.default_group,
                    settings.passcode_length,
                    now,
                    (old(db)@, old(site)@),
                    (db@, site@),
                    text,
                    user@,
                    digest,
                    p,
                ));
            } else {
                assert(left_with((old(db)@, old(site)@), (db@, site@), user@));
            }
        }
        r
    }
}

impl LoginForm {
    /// Logs a user in: the user with the name, if it is in good standing
    /// and the password is its own.
    pub fn handle(&self, db: &Tables) -> (r: Result<User, Error>)
        ensures
            match first(db@.users, crate::models::user::user_named(self.username@)) {
                None => r == Err::<User, Error>(Error::NotFound),
                Some(u) => if u.status != crate::models::user::STATUS_ACTIVE {
                    r == Err::<User, Error>(Error::NotActive)
                } else if crate::util::password::hashable(
                    vstd::utf8::encode_utf8(self.password@),
                    u.salt,
                ) && u.password == crate::util::password::argon2i(
                    vstd::utf8::encode_utf8(self.password@),
                    u.salt,
                ) {
                    r.is_ok() && r.unwrap()@ == u
                } else {
                    r == Err::<User, Error>(Error::WrongPassword)
                },
            },
    {
        let user = match User::find_by_name(self.username.as_str(), db) {
            Some(user) => user,
            None => return Err(Error::NotFound),
        };
        if user.status != crate::models::user::STATUS_ACTIVE {
            return Err(Error::NotActive);
        }
        if user.verify_password(self.password.as_str()) {
            Ok(user)
        } else {
            Err(Error::WrongPassword)
        }
    }
}

impl RequireUserMsg {
    /// Loads the user, and marks it as active at `now` where asked.
    pub fn handle(&self, db: &mut Tables, now: Timestamp) -> (r: Result<User, Error>)
        ensures
            match first(old(db)@.users, crate::models::user::user_with_id(self.0)) {
                None => r == Err::<User, Error>(Error::NotFound) && final(db)@ == old(db)@,
                Some(u) => r.is_ok() && r.unwrap()@ == (if self.1 {
                    UserView { last_active: Some(now), ..u }
                } else {
                    u
                }) && final(db)@ == (if self.1 {
                    TablesView { users: marked_active(old(db)@.users, self.0, now), ..old(db)@ }
                } else {
                    old(db)@
                }),
            },
    {
        match User::find(&self.0, db) {
            Some(mut user) => {
                if self.1 {
                    let _ = user.update_last_active(db, now);
                    proof {
                        crate::db::lemma_position(old(db)@.users, user_with_id(self.0));
                        assert(db@.users =~= marked_active(old(db)@.users, self.0, now));
                    }
                }
                Ok(user)
            },
            None => Err(Error::NotFound),
        }
    }
}

/// Asks for the statistics of a user.
#[derive(Debug)]
pub struct LoadUserStatsMsg(pub Uuid);

/// Asks for the profile of a user, for another user.
#[derive(Debug)]
pub struct LoadUserProfileMsg(pub Uuid, pub Uuid, pub AclContainer);

/// The users that were active of late, by group.
#[derive(Debug)]
pub struct ActiveUsers {
    pub group_order: Vec<Uuid>,
    pub groups: Vec<(Uuid, Group)>,
    pub user_list: Vec<(Uuid, Vec<(Uuid, String)>)>,
}

/// Asks for the settings of a user.
#[derive(Debug)]
pub struct LoadSettingsMsg(pub Uuid);

/// Confirms the user that waits under an identifier, from an address.
#[derive(Debug)]
pub struct ConfirmMsg {
    pub id: String,
    pub ip_address: IpAddress,
}

impl PropertyValue {
    /// Whether the value is text that reads `id`.
    pub open spec fn reads(self, id: Seq<char>) -> bool {
        self matches PropertyValue::Text(t) && t@ == id
    }
}

/// The property under which a user waits to be confirmed: the first with
/// the name `confirm_id` whose value is the identifier as text.
pub open spec fn confirmation(properties: Seq<Property>, id: Seq<char>) -> Option<Property> {
    first(properties, |p: Property| p.name@ == "confirm_id"@ && p.value.reads(id))
}

impl ConfirmMsg {
    /// Confirms a user: the user of the property that waits under the
    /// identifier becomes active, with the address, and the property is
    /// deleted. Without such a property, or without its user, nothing
    /// changes.
    pub fn handle(&self, db: &mut Tables, site: &mut Site) -> (r: Result<User, Error>)
        ensures
            match confirmation(old(site)@.user_properties, self.id@) {
                None => r == Err::<User, Error>(Error::NoConfirmation) && final(db)@ == old(db)@
                    && final(site)@ == old(site)@,
                Some(p) => match first(old(db)@.users, user_with_id(p.user_id)) {
                    None => r == Err::<User, Error>(Error::NoUser) && final(db)@ == old(db)@
                        && final(site)@ == old(site)@,
                    Some(u) => {
                        let v = UserView {
                            status: STATUS_ACTIVE,
                            ip_address: Some(self.ip_address),
                            ..u
                        };
                        &&& r.is_ok()
                        &&& r.unwrap()@ == v
                        &&& final(db)@ == (TablesView {
                            users: saved_user(old(db)@.users, v),
                            ..old(db)@
                        })
                        &&& final(site)@ == (SiteView {
                            user_properties: crate::db::without(
                                old(site)@.user_properties,
                                crate::db::with_id::<Property>(p.id),
                            ),
                            ..old(site)@
                        })
                    },
                },
            },
    {
        let value = PropertyValue::Text(self.id.clone());
        proof {
            let c = PropertyWith { name: "confirm_id", value: &value };
            assert forall|p: Property| #[trigger]
                meeting::<Property, PropertyWith>(c)(p) == (p.name@ == "confirm_id"@
                    && p.value.reads(self.id@)) by {}
            crate::db::lemma_position_same(
                site@.user_properties,
                meeting::<Property, PropertyWith>(c),
                |p: Property| p.name@ == "confirm_id"@ && p.value.reads(self.id@),
            );
        }
        let property = match Property::find_by_name_value("confirm_id", &value, site) {
            Some(p) => p,
            None => return Err(Error::NoConfirmation),
        };
        let mut user = match User::find(property.user_id(), db) {
            Some(u) => u,
            None => return Err(Error::NoUser),
        };
        user.status = STATUS_ACTIVE;
        user.ip_address = Some(self.ip_address);
        let _ = user.save(db);
        let _ = property.delete(site);
        Ok(user)
    }
}

/// What a user has moved and moves, as the site shows it.
#[derive(Debug)]
pub struct UserStatsMsg {
    pub id: Uuid,
    pub name: String,
    pub uploaded: i64,
    pub downloaded: i64,
    /// The number of peers of the user that seed.
    pub uploads: i64,
    /// The number of peers of the user that do not.
    pub downloads: i64,
}

impl LoadUserStatsMsg {
    /// The statistics of the user, if it is there.
    pub fn handle(&self, db: &Tables) -> (r: Result<UserStatsMsg, Error>)
        ensures
            match first(db@.users, user_with_id(self.0)) {
                None => r == Err::<UserStatsMsg, Error>(Error::NoUser),
                Some(u) => {
                    &&& r.is_ok()
                    &&& r.unwrap().id == u.id
                    &&& r.unwrap().name@ == u.name
                    &&& r.unwrap().uploaded == u.uploaded
                    &&& r.unwrap().downloaded == u.downloaded
                    &&& r.unwrap().uploads == capped(
                        count(
                            db@.peers,
                            meeting::<Peer, PeerOf>(PeerOf { user_id: u.id, seeder: true }),
                        ),
                    )
                    &&& r.unwrap().downloads == capped(
                        count(
                            db@.peers,
                            meeting::<Peer, PeerOf>(PeerOf { user_id: u.id, seeder: false }),
                        ),
                    )
                },
            },
    {
        let user = match User::find(&self.0, db) {
            Some(u) => u,
            None => return Err(Error::NoUser),
        };
        proof {
            crate::db::lemma_position(db@.users, user_with_id(self.0));
        }
        let uploads = count_where(&db.peers, &PeerOf { user_id: user.id, seeder: true });
        let downloads = count_where(&db.peers, &PeerOf { user_id: user.id, seeder: false });
        Ok(
            UserStatsMsg {
                id: user.id,
                name: user.name,
                uploaded: user.uploaded,
                downloaded: user.downloaded,
                uploads,
                downloads,
            },
        )
    }
}

/// The profile of a user as another user sees it.
#[derive(Debug)]
pub struct UserProfileMsg {
    pub user: User,
    pub active_uploads: Vec<UserTransfer>,
    pub active_downloads: Vec<UserTransfer>,
    pub uploads: Vec<UserUpload>,
    pub completed: Vec<CompletedTorrent>,
    pub connections: Vec<UserConnection>,
    pub timezone: i32,
    pub may_view_passcode: bool,
    pub profile: UserProfile,
}

impl LoadUserProfileMsg {
    /// Whether the one who asks may read what stands under `ns` of the
    /// user: it may where it is the user itself, or where the rules allow
    /// it.
    pub open spec fn may_see(self, viewer: UserView, ns: Seq<char>) -> bool {
        self.0 == self.1 || user_may(
            self.2.acl()@,
            viewer.id,
            viewer.group_id,
            ns,
            Permission::Read,
            self.2.acl().depth(),
        )
    }

    /// The profile of the user `self.0` as the user `self.1` sees it, with
    /// the time zone of the latter. The connections are shown only to one
    /// who may read `user#connections`, and the passcode only to one who
    /// may read `user#passcode`; the user itself may do both.
    pub fn handle(&self, db: &Tables, site: &Site, default_timezone: i32) -> (r: Result<
        UserProfileMsg,
        Error,
    >)
        ensures
            match (
                first(db@.users, user_with_id(self.0)),
                first(db@.users, user_with_id(self.1)),
            ) {
                (Some(u), Some(viewer)) => {
                    &&& r.is_ok()
                    &&& r.unwrap().user@ == u
                    &&& sorted::<UserTransfer>(r.unwrap().active_uploads@)
                    &&& r.unwrap().active_uploads@.to_multiset() == those(
                        site@.user_transfer,
                        meeting::<UserTransfer, TransferOf>(
                            TransferOf { user_id: u.id, seeder: true },
                        ),
                    ).to_multiset()
                    &&& sorted::<UserTransfer>(r.unwrap().active_downloads@)
                    &&& r.unwrap().active_downloads@.to_multiset() == those(
                        site@.user_transfer,
                        meeting::<UserTransfer, TransferOf>(
                            TransferOf { user_id: u.id, seeder: false },
                        ),
                    ).to_multiset()
                    &&& sorted::<CompletedTorrent>(r.unwrap().completed@)
                    &&& r.unwrap().completed@.to_multiset() == those(
                        site@.completed_torrents,
                        meeting::<CompletedTorrent, OfUser>(OfUser(u.id)),
                    ).to_multiset()
                    &&& if self.may_see(viewer, "user#connections"@) {
                        &&& sorted::<UserConnection>(crate::db::rows(r.unwrap().connections@))
                        &&& crate::db::rows(r.unwrap().connections@).to_multiset() == those(
                            db@.peers,
                            meeting::<Peer, OfUser>(OfUser(u.id)),
                        ).map_values(|p: PeerView| connection_of(p)).to_multiset()
                    } else {
                        r.unwrap().connections@.len() == 0
                    }
                    &&& crate::db::rows(r.unwrap().uploads@) == crate::db::in_order::<UserUpload>(
                        uploads_of(crate::models::torrent::listed(db@, site@), u.id),
                        true,
                        uploads_of(crate::models::torrent::listed(db@, site@), u.id).len(),
                    )
                    &&& r.unwrap().timezone == (match number_set(site@, self.1, "timezone"@) {
                        Some(n) => n as i32,
                        None => default_timezone,
                    })
                    &&& r.unwrap().may_view_passcode == self.may_see(viewer, "user#passcode"@)
                    &&& r.unwrap().profile == (match first(
                        site@.profiles,
                        crate::db::with_id::<UserProfile>(u.id),
                    ) {
                        Some(p) => p,
                        None => crate::models::user::blank_profile(u.id),
                    })
                },
                _ => r == Err::<UserProfileMsg, Error>(Error::NoUser),
            },
    {
        let user = match User::find(&self.0, db) {
            Some(u) => u,
            None => return Err(Error::NoUser),
        };
        let viewer = match User::find(&self.1, db) {
            Some(u) => u,
            None => return Err(Error::NoUser),
        };
        proof {
            crate::db::lemma_position(db@.users, user_with_id(self.0));
            crate::db::lemma_position(db@.users, user_with_id(self.1));
        }
        let active_uploads = UserTransfer::fetch_active(&user.id, true, site);
        let active_downloads = UserTransfer::fetch_active(&user.id, false, site);
        let completed = CompletedTorrent::fetch_for_user(&user.id, site);
        let own = user.id == self.1;
        let connections = if own || self.2.is_allowed(
            &viewer.id,
            &viewer.group_id,
            "user#connections",
            &Permission::Read,
        ) {
            UserConnection::fetch_for_user(&user.id, db)
        } else {
            Vec::new()
        };
        let may_view_passcode = own || self.2.is_allowed(
            &viewer.id,
            &viewer.group_id,
            "user#passcode",
            &Permission::Read,
        );
        let uploads = UserUpload::fetch_for_user(&user.id, db, site);
        let timezone = user_timezone(&self.1, site, default_timezone);
        let profile = user.profile(site);
        Ok(
            UserProfileMsg {
                user,
                active_uploads,
                active_downloads,
                uploads,
                completed,
                connections,
                timezone,
                may_view_passcode,
                profile,
            },
        )
    }
}

/// The settings of a user, with the categories of the site.
#[derive(Debug)]
pub struct UserSettingsMsg {
    pub user: User,
    pub profile: UserProfile,
    /// The properties of the user; of two with one name the later counts.
    pub properties: Vec<Property>,
    pub categories: Vec<Category>,
}

/// The property that counts under a name: the last that has it.
pub open spec fn setting(list: Seq<Property>, name: Seq<char>) -> Option<Property>
    decreases list.len(),
{
    if list.len() == 0 {
        None
    } else if list.last().name@ == name {
        Some(list.last())
    } else {
        setting(list.drop_last(), name)
    }
}

impl UserSettingsMsg {
    /// The settings, put together.
    pub fn new(
        user: User,
        profile: UserProfile,
        properties: Vec<Property>,
        categories: Vec<Category>,
    ) -> (r: Self)
        ensures
            r.user == user,
            r.profile == profile,
            r.properties == properties,
            r.categories == categories,
    {
        Self { user, profile, properties, categories }
    }

    /// The property that counts under a name: see [`setting`].
    pub fn property(&self, name: &str) -> (r: Option<Property>)
        ensures
            r == setting(self.properties@, name@),
    {
        let mut i: usize = self.properties.len();
        proof {
            assert(self.properties@.take(i as int) =~= self.properties@);
        }
        while i > 0
            invariant
                i <= self.properties.len(),
                setting(self.properties@, name@) == setting(self.properties@.take(i as int), name@),
            decreases i,
        {
            proof {
                assert(self.properties@.take(i as int).drop_last() =~= self.properties@.take(
                    i - 1,
                ));
            }
            if crate::util::same_text(self.properties[i - 1].name(), name) {
                return Some(crate::db::Row::duplicate(&self.properties[i - 1]));
            }
            i -= 1;
        }
        None
    }
}

impl LoadSettingsMsg {
    /// The settings of the user, if it is there: the user, its profile,
    /// its properties by name and the categories by name.
    pub fn handle(&self, db: &Tables, site: &Site) -> (r: Result<UserSettingsMsg, Error>)
        ensures
            match first(db@.users, user_with_id(self.0)) {
                None => r == Err::<UserSettingsMsg, Error>(Error::NoUser),
                Some(u) => {
                    &&& r.is_ok()
                    &&& r.unwrap().user@ == u
                    &&& r.unwrap().profile == (match first(
                        site@.profiles,
                        crate::db::with_id::<UserProfile>(u.id),
                    ) {
                        Some(p) => p,
                        None => crate::models::user::blank_profile(u.id),
                    })
                    &&& sorted::<Property>(r.unwrap().properties@)
                    &&& r.unwrap().properties@.to_multiset() == those(
                        site@.user_properties,
                        meeting::<Property, OfUser>(OfUser(self.0)),
                    ).to_multiset()
                    &&& sorted::<Category>(r.unwrap().categories@)
                    &&& r.unwrap().categories@.to_multiset() == site@.categories.to_multiset()
                },
            },
    {
        let user = match User::find(&self.0, db) {
            Some(u) => u,
            None => return Err(Error::NoUser),
        };
        proof {
            crate::db::lemma_position(db@.users, user_with_id(self.0));
        }
        let profile = user.profile(site);
        let properties = Property::fetch_for_user(&self.0, site);
        let categories = Category::all(site);
        Ok(UserSettingsMsg::new(user, profile, properties, categories))
    }
}

} // verus!
