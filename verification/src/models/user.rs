//! Users, as far as the tracker and the messages know them.

use vstd::prelude::*;
use crate::db::{count, first, lemma_position_is, position, rows, Tables, TablesView};
use crate::models::{Bytes, Timestamp, Uuid};
use crate::util::{bytes_eq, copy_bytes};

verus! {

/// A user that has signed up and not yet confirmed.
pub const STATUS_NEW: i16 = 0;

/// A parked user.
pub const STATUS_INACTIVE: i16 = 1;

/// A user in good standing.
pub const STATUS_ACTIVE: i16 = 2;

/// A locked user.
pub const STATUS_LOCKED: i16 = 3;

/// A banned user.
pub const STATUS_BANNED: i16 = 4;

/// A user of the site. The passcode is the secret in the user's announce
/// address; `uploaded` and `downloaded` are lifetime totals.
#[derive(Debug)]
pub struct User {
    pub id: Uuid,
    pub name: String,
    pub email: String,
    pub password: Bytes,
    pub salt: Bytes,
    pub status: i16,
    pub created_at: Timestamp,
    pub updated_at: Timestamp,
    pub passcode: Bytes,
    pub uploaded: i64,
    pub downloaded: i64,
    pub group_id: Uuid,
    pub ip_address: Option<crate::net::IpAddress>,
    pub last_active: Option<Timestamp>,
}

/// A user as a mathematical value.
pub ghost struct UserView {
    pub id: Uuid,
    pub name: Seq<char>,
    pub email: Seq<char>,
    pub password: Seq<u8>,
    pub salt: Seq<u8>,
    pub status: i16,
    pub created_at: Timestamp,
    pub updated_at: Timestamp,
    pub passcode: Seq<u8>,
    pub uploaded: i64,
    pub downloaded: i64,
    pub group_id: Uuid,
    pub ip_address: Option<crate::net::IpAddress>,
    pub last_active: Option<Timestamp>,
}

impl View for User {
    type V = UserView;

    open spec fn view(&self) -> UserView {
        UserView {
            id: self.id,
            name: self.name@,
            email: self.email@,
            password: self.password@,
            salt: self.salt@,
            status: self.status,
            created_at: self.created_at,
            updated_at: self.updated_at,
            passcode: self.passcode@,
            uploaded: self.uploaded,
            downloaded: self.downloaded,
            group_id: self.group_id,
            ip_address: self.ip_address,
            last_active: self.last_active,
        }
    }
}

impl Clone for User {
    fn clone(&self) -> (r: Self)
        ensures
            r@ == self@,
    {
        User {
            id: self.id,
            name: self.name.clone(),
            email: self.email.clone(),
            password: copy_bytes(self.password.as_slice()),
            salt: copy_bytes(self.salt.as_slice()),
            status: self.status,
            created_at: self.created_at,
            updated_at: self.updated_at,
            passcode: copy_bytes(self.passcode.as_slice()),
            uploaded: self.uploaded,
            downloaded: self.downloaded,
            group_id: self.group_id,
            ip_address: self.ip_address,
            last_active: self.last_active,
        }
    }
}

/// Holds of the user with the identifier.
pub open spec fn user_with_id(id: Uuid) -> spec_fn(UserView) -> bool {
    |u: UserView| u.id == id
}

/// Holds of the user with the passcode.
pub open spec fn user_with_passcode(passcode: Seq<u8>) -> spec_fn(UserView) -> bool {
    |u: UserView| u.passcode == passcode
}

/// The users table after a user is saved: every row with its identifier
/// takes its values.
pub open spec fn saved_user(users: Seq<UserView>, u: UserView) -> Seq<UserView> {
    Seq::new(users.len(), |i: int| if users[i].id == u.id { u } else { users[i] })
}

fn user_index_by_id(users: &Vec<User>, id: Uuid) -> (r: usize)
    ensures
        r == position(rows(users@), user_with_id(id)),
        r <= users.len(),
{
    let ghost f = user_with_id(id);
    let mut i: usize = 0;
    while i < users.len()
        invariant
            i <= users.len(),
            f == user_with_id(id),
            forall|j: int| 0 <= j < i ==> !f(#[trigger] rows(users@)[j]),
        decreases users.len() - i,
    {
        if users[i].id == id {
            proof {
                lemma_position_is(rows(users@), f, i as int);
            }
            return i;
        }
        i += 1;
    }
    proof {
        lemma_position_is(rows(users@), f, i as int);
    }
    i
}

fn user_index_by_passcode(users: &Vec<User>, passcode: &[u8]) -> (r: usize)
    ensures
        r == position(rows(users@), user_with_passcode(passcode@)),
        r <= users.len(),
{
    let ghost f = user_with_passcode(passcode@);
    let mut i: usize = 0;
    while i < users.len()
        invariant
            i <= users.len(),
            f == user_with_passcode(passcode@),
            forall|j: int| 0 <= j < i ==> !f(#[trigger] rows(users@)[j]),
        decreases users.len() - i,
    {
        if bytes_eq(users[i].passcode.as_slice(), passcode) {
            proof {
                lemma_position_is(rows(users@), f, i as int);
            }
            return i;
        }
        i += 1;
    }
    proof {
        lemma_position_is(rows(users@), f, i as int);
    }
    i
}

impl User {
    /// Finds a user by its identifier.
    pub fn find(id: &Uuid, db: &Tables) -> (r: Option<User>)
        ensures
            match r {
                Some(u) => first(db@.users, user_with_id(*id)) == Some(u@),
                None => first(db@.users, user_with_id(*id)).is_none(),
            },
    {
        let i = user_index_by_id(&db.users, *id);
        if i < db.users.len() {
            Some(db.users[i].clone())
        } else {
            None
        }
    }

    /// Finds a user by its passcode.
    pub fn find_by_passcode(passcode: &[u8], db: &Tables) -> (r: Option<User>)
        ensures
            match r {
                Some(u) => first(db@.users, user_with_passcode(passcode@)) == Some(u@),
                None => first(db@.users, user_with_passcode(passcode@)).is_none(),
            },
    {
        let i = user_index_by_passcode(&db.users, passcode);
        if i < db.users.len() {
            Some(db.users[i].clone())
        } else {
            None
        }
    }

    /// Saves the user: see [`saved_user`]. The result is the number of rows
    /// written.
    pub fn save(&self, db: &mut Tables) -> (r: usize)
        ensures
            final(db)@ == (TablesView { users: saved_user(old(db)@.users, self@), ..old(db)@ }),
            r == count(old(db)@.users, user_with_id(self.id)),
    {
        write_user(&mut db.users, self)
    }
}

fn write_user(users: &mut Vec<User>, u: &User) -> (r: usize)
    ensures
        rows(final(users)@) == saved_user(rows(old(users)@), u@),
        r == count(rows(old(users)@), user_with_id(u.id)),
{
    let ghost f = user_with_id(u.id);
    let ghost before = rows(users@);
    let mut n: usize = 0;
    let mut i: usize = 0;
    proof {
        assert(before.take(0) =~= Seq::empty());
    }
    while i < users.len()
        invariant
            i <= users.len(),
            f == user_with_id(u.id),
            before == rows(old(users)@),
            users.len() == before.len(),
            n == count(before.take(i as int), f),
            n <= i,
            forall|j: int| 0 <= j < i ==> #[trigger] rows(users@)[j] == saved_user(before, u@)[j],
            forall|j: int| i <= j < before.len() ==> #[trigger] rows(users@)[j] == before[j],
        decreases users.len() - i,
    {
        proof {
            assert(before.take(i + 1).drop_last() =~= before.take(i as int));
            assert(before.take(i + 1).last() == before[i as int]);
            assert(rows(users@)[i as int] == before[i as int]);
        }
        if users[i].id == u.id {
            let ghost cur = rows(users@);
            users[i] = u.clone();
            assert(rows(users@) =~= cur.update(i as int, u@));
            n += 1;
        }
        i += 1;
    }
    proof {
        assert(before.take(before.len() as int) =~= before);
        assert(rows(users@) =~= saved_user(before, u@));
    }
    n
}

/// The name of the user with the identifier.
pub open spec fn name_of(users: Seq<UserView>, id: Uuid) -> Option<Seq<char>> {
    match first(users, user_with_id(id)) {
        Some(u) => Some(u.name),
        None => None,
    }
}

/// Looks up the name of a user.
pub fn username(id: &Uuid, db: &Tables) -> (r: Option<String>)
    ensures
        match r {
            Some(name) => name_of(db@.users, *id) == Some(name@),
            None => name_of(db@.users, *id).is_none(),
        },
{
    match User::find(id, db) {
        Some(u) => Some(u.name),
        None => None,
    }
}

/// Something that a user owns.
pub trait HasUser {
    /// The owner.
    spec fn owner(&self) -> Uuid;

    /// The owner.
    fn user_id(&self) -> (r: &Uuid)
        ensures
            *r == self.owner(),
    ;

    /// The name of the owner; empty where the owner is not known.
    fn user_name(&self, db: &Tables) -> (r: String)
        ensures
            match name_of(db@.users, self.owner()) {
                Some(name) => r@ == name,
                None => r@.len() == 0,
            },
    {
        match username(self.user_id(), db) {
            Some(name) => name,
            None => String::new(),
        }
    }
}

/// Something that a user may own.
pub trait MaybeHasUser {
    /// The owner, if there is one.
    spec fn owner(&self) -> Option<Uuid>;

    /// The owner, if there is one.
    fn user_id(&self) -> (r: &Option<Uuid>)
        ensures
            *r == self.owner(),
    ;

    /// The name of the owner, if there is one and it is known.
    fn user_name(&self, db: &Tables) -> (r: Option<String>)
        ensures
            match r {
                Some(name) => self.owner().is_some() && name_of(
                    db@.users,
                    self.owner().unwrap(),
                ) == Some(name@),
                None => self.owner().is_none() || name_of(
                    db@.users,
                    self.owner().unwrap(),
                ).is_none(),
            },
    {
        match self.user_id() {
            Some(user_id) => username(user_id, db),
            None => None,
        }
    }
}

impl HasUser for crate::models::peer::Peer {
    open spec fn owner(&self) -> Uuid {
        self.user_id
    }

    fn user_id(&self) -> (r: &Uuid) {
        &self.user_id
    }
}

impl MaybeHasUser for crate::models::torrent::Torrent {
    open spec fn owner(&self) -> Option<Uuid> {
        self.user_id
    }

    fn user_id(&self) -> (r: &Option<Uuid>) {
        &self.user_id
    }
}

/// What a user moves on a torrent, as its profile shows it.
#[derive(Debug)]
pub struct UserTransfer {
    pub id: Uuid,
    pub torrent_id: Uuid,
    pub user_id: Uuid,
    pub name: String,
    pub is_seeder: bool,
    pub size: i64,
    pub seeder: i64,
    pub leecher: i64,
    pub bytes_uploaded: i64,
    pub bytes_downloaded: i64,
    pub total_uploaded: i64,
    pub total_downloaded: i64,
}

impl UserTransfer {
    /// Whether the user seeds the torrent.
    pub fn is_seeder(&self) -> (r: bool)
        ensures
            r == self.is_seeder,
    {
        self.is_seeder
    }
}

/// A torrent that a user has finished, as its profile shows it.
#[derive(Debug)]
pub struct CompletedTorrent {
    pub id: Uuid,
    pub user_id: Uuid,
    pub torrent_id: Uuid,
    pub bytes_uploaded: i64,
    pub bytes_downloaded: i64,
    pub time_seeded: i32,
    pub completed_at: Timestamp,
    pub name: String,
    pub size: i64,
    pub is_seeder: bool,
    pub seeder: i64,
    pub leecher: i64,
}

/// A torrent that a user has uploaded, as its profile shows it.
#[derive(Debug)]
pub struct UserUpload {
    pub id: Uuid,
    pub user_id: Option<Uuid>,
    pub name: String,
    pub size: i64,
    pub seeder: i64,
    pub leecher: i64,
    pub created_at: Timestamp,
}

/// What a user tells about itself.
#[derive(Debug)]
pub struct UserProfile {
    pub id: Uuid,
    pub avatar: Option<String>,
    pub flair: Option<String>,
    pub about: Option<String>,
}

/// Holds of the user with the name.
pub open spec fn user_named(name: Seq<char>) -> spec_fn(UserView) -> bool {
    |u: UserView| u.name == name
}

/// Holds of the user with the address for mail.
pub open spec fn user_with_email(email: Seq<char>) -> spec_fn(UserView) -> bool {
    |u: UserView| u.email == email
}

/// The condition to have a name.
pub struct Named<'a>(pub &'a str);

impl<'a> crate::db::Criterion<User> for Named<'a> {
    open spec fn holds(&self, v: UserView) -> bool {
        v.name == self.0@
    }

    fn test(&self, row: &User) -> (b: bool) {
        crate::util::same_text(row.name.as_str(), self.0)
    }
}

/// The condition to have an address for mail.
pub struct WithEmail<'a>(pub &'a str);

impl<'a> crate::db::Criterion<User> for WithEmail<'a> {
    open spec fn holds(&self, v: UserView) -> bool {
        v.email == self.0@
    }

    fn test(&self, row: &User) -> (b: bool) {
        crate::util::same_text(row.email.as_str(), self.0)
    }
}

impl crate::db::Row for User {
    fn duplicate(&self) -> (r: Self) {
        self.clone()
    }
}

impl crate::db::Keyed for User {
    open spec fn key(v: UserView) -> Uuid {
        v.id
    }

    fn id(&self) -> (r: Uuid) {
        self.id
    }
}

/// The number of bytes of a salt.
pub const SALTBYTES: usize = 32;

impl User {
    /// Finds a user by its name.
    pub fn find_by_name(name: &str, db: &Tables) -> (r: Option<User>)
        ensures
            match r {
                Some(u) => first(db@.users, user_named(name@)) == Some(u@),
                None => first(db@.users, user_named(name@)).is_none(),
            },
    {
        proof {
            crate::db::lemma_position_same(
                db@.users,
                crate::db::meeting::<User, Named>(Named(name)),
                user_named(name@),
            );
        }
        crate::db::find_where(&db.users, &Named(name))
    }

    /// Finds a user by its address for mail.
    pub fn find_by_email(email: &str, db: &Tables) -> (r: Option<User>)
        ensures
            match r {
                Some(u) => first(db@.users, user_with_email(email@)) == Some(u@),
                None => first(db@.users, user_with_email(email@)).is_none(),
            },
    {
        proof {
            crate::db::lemma_position_same(
                db@.users,
                crate::db::meeting::<User, WithEmail>(WithEmail(email)),
                user_with_email(email@),
            );
        }
        crate::db::find_where(&db.users, &WithEmail(email))
    }

    /// A user with nothing set, new at `now`.
    pub fn default(now: Timestamp) -> (r: Self)
        ensures
            r@ == (UserView {
                id: 0,
                name: Seq::empty(),
                email: Seq::empty(),
                password: Seq::empty(),
                salt: Seq::empty(),
                status: STATUS_NEW,
                created_at: now,
                updated_at: now,
                passcode: Seq::empty(),
                uploaded: 0,
                downloaded: 0,
                group_id: 0,
                ip_address: None,
                last_active: None,
            }),
    {
        User {
            id: 0,
            name: String::new(),
            email: String::new(),
            password: Vec::new(),
            salt: Vec::new(),
            status: STATUS_NEW,
            created_at: now,
            updated_at: now,
            passcode: Vec::new(),
            uploaded: 0,
            downloaded: 0,
            group_id: 0,
            ip_address: None,
            last_active: None,
        }
    }

    /// Gives the user a password: a salt is made, and the hash of the
    /// password with that salt is kept beside it.
    pub fn set_password(&mut self, plain_password: &str)
        requires
            vstd::utf8::encode_utf8(plain_password@).len() <= u32::MAX,
        ensures
            final(self).salt@.len() == SALTBYTES,
            final(self).password@ == crate::util::password::argon2i(
                vstd::utf8::encode_utf8(plain_password@),
                final(self).salt@,
            ),
            final(self)@ == (UserView {
                password: final(self).password@,
                salt: final(self).salt@,
                ..old(self)@
            }),
    {
        let salt = crate::util::rand::gen_random_bytes(SALTBYTES);
        self.password = crate::util::password::generate_passhash(
            plain_password.as_bytes(),
            salt.as_slice(),
        );
        self.salt = salt;
    }

    /// Whether the password is that of the user.
    pub fn verify_password(&self, password: &str) -> (r: bool)
        ensures
            r == (crate::util::password::hashable(vstd::utf8::encode_utf8(password@), self.salt@)
                && self.password@ == crate::util::password::argon2i(
                vstd::utf8::encode_utf8(password@),
                self.salt@,
            )),
    {
        crate::util::password::try_verify(
            self.password.as_slice(),
            password.as_bytes(),
            self.salt.as_slice(),
        )
    }

    /// Puts the user into its table, unless a user has its identifier, and
    /// returns the row.
    pub fn insert(&self, db: &mut Tables) -> (r: Result<User, crate::error::Error>)
        ensures
            match r {
                Ok(u) => u@ == self@ && final(db)@ == (TablesView {
                    users: old(db)@.users.push(self@),
                    ..old(db)@
                }),
                Err(e) => e == crate::error::Error::DuplicateKey && final(db)@ == old(db)@,
            },
            r.is_ok() == (position(old(db)@.users, crate::db::with_id::<User>(self.id)) >= old(db)@.users.len()),
    {
        match crate::db::insert_row(&mut db.users, self) {
            Ok(_) => Ok(self.clone()),
            Err(e) => Err(e),
        }
    }

    /// Makes a user of a group, new at `now`, with an identifier, a salt
    /// and a passcode made for it, and puts it into its table.
    pub fn create(
        db: &mut Tables,
        name: String,
        email: String,
        password: &str,
        group: &crate::models::group::Group,
        passcode_len: usize,
        now: Timestamp,
    ) -> (r: Result<User, crate::error::Error>)
        requires
            vstd::utf8::encode_utf8(password@).len() <= u32::MAX,
            passcode_len > 0,
        ensures
            match r {
                Ok(u) => {
                    &&& u.name@ == name@
                    &&& u.email@ == email@
                    &&& u.group_id == group.id
                    &&& u.status == STATUS_NEW
                    &&& u.created_at == now
                    &&& u.updated_at == now
                    &&& u.uploaded == 0
                    &&& u.downloaded == 0
                    &&& u.last_active.is_none()
                    &&& u.ip_address.is_none()
                    &&& position(old(db)@.users, crate::db::with_id::<User>(u.id)) >= old(db)@.users.len()
                    &&& u.passcode@.len() == passcode_len
                    &&& u.salt@.len() == SALTBYTES
                    &&& u.password@ == crate::util::password::argon2i(
                        vstd::utf8::encode_utf8(password@),
                        u.salt@,
                    )
                    &&& final(db)@ == (TablesView { users: old(db)@.users.push(u@), ..old(db)@ })
                },
                Err(e) => e == crate::error::Error::DuplicateKey && final(db)@ == old(db)@,
            },
    {
        let mut user = User::default(now);
        user.id = crate::util::rand::fresh_id();
        user.name = name;
        user.email = email;
        user.set_password(password);
        user.passcode = crate::util::rand::gen_random_bytes(passcode_len);
        user.group_id = group.id;
        user.insert(db)
    }

    /// Marks the user as active at `now`, here and in its table. The
    /// result is the number of rows written.
    pub fn update_last_active(&mut self, db: &mut Tables, now: Timestamp) -> (r: usize)
        ensures
            final(self)@ == (UserView { last_active: Some(now), ..old(self)@ }),
            final(db)@.users.len() == old(db)@.users.len(),
            forall|i: int|
                0 <= i < old(db)@.users.len() ==> #[trigger] final(db)@.users[i] == if old(db)@.users[i].id == old(self).id {
                    UserView { last_active: Some(now), ..old(db)@.users[i] }
                } else {
                    old(db)@.users[i]
                },
            final(db)@ == (TablesView { users: final(db)@.users, ..old(db)@ }),
            r == count(old(db)@.users, user_with_id(old(self).id)),
    {
        self.last_active = Some(now);
        mark_active(&mut db.users, self.id, now)
    }
}

fn mark_active(users: &mut Vec<User>, id: Uuid, now: Timestamp) -> (r: usize)
    ensures
        rows(final(users)@).len() == rows(old(users)@).len(),
        forall|i: int|
            0 <= i < rows(old(users)@).len() ==> #[trigger] rows(final(users)@)[i] == if rows(
                old(users)@,
            )[i].id == id {
                UserView { last_active: Some(now), ..rows(old(users)@)[i] }
            } else {
                rows(old(users)@)[i]
            },
        r == count(rows(old(users)@), user_with_id(id)),
{
    let ghost f = user_with_id(id);
    let ghost before = rows(users@);
    let mut n: usize = 0;
    let mut i: usize = 0;
    proof {
        assert(before.take(0) =~= Seq::empty());
    }
    while i < users.len()
        invariant
            i <= users.len(),
            n <= i,
            f == user_with_id(id),
            n == count(before.take(i as int), f),
            before == rows(old(users)@),
            users.len() == before.len(),
            forall|j: int|
                0 <= j < i ==> #[trigger] rows(users@)[j] == if before[j].id == id {
                    UserView { last_active: Some(now), ..before[j] }
                } else {
                    before[j]
                },
            forall|j: int| i <= j < before.len() ==> #[trigger] rows(users@)[j] == before[j],
        decreases users.len() - i,
    {
        proof {
            assert(before.take(i + 1).drop_last() =~= before.take(i as int));
            assert(before.take(i + 1).last() == before[i as int]);
            assert(rows(users@)[i as int] == before[i as int]);
        }
        if users[i].id == id {
            let ghost cur = rows(users@);
            let mut u = users[i].clone();
            u.last_active = Some(now);
            users[i] = u;
            assert(rows(users@) =~= cur.update(i as int, u@));
            n += 1;
        }
        i += 1;
    }
    proof {
        assert(before.take(before.len() as int) =~= before);
    }
    n
}

impl crate::db::Row for UserProfile {
    fn duplicate(&self) -> (r: Self) {
        UserProfile {
            id: self.id,
            avatar: match &self.avatar {
                Some(a) => Some(a.clone()),
                None => None,
            },
            flair: match &self.flair {
                Some(a) => Some(a.clone()),
                None => None,
            },
            about: match &self.about {
                Some(a) => Some(a.clone()),
                None => None,
            },
        }
    }
}

impl View for UserProfile {
    type V = UserProfile;

    open spec fn view(&self) -> UserProfile {
        *self
    }
}

impl crate::db::Keyed for UserProfile {
    open spec fn key(v: UserProfile) -> Uuid {
        v.id
    }

    fn id(&self) -> (r: Uuid) {
        self.id
    }
}

/// The profile of a user who has told nothing about itself.
pub open spec fn blank_profile(id: Uuid) -> UserProfile {
    UserProfile { id, avatar: None, flair: None, about: None }
}

/// The number of rows that saving a profile writes: one for each profile
/// of its user, or one where the user has none.
pub open spec fn profiles_written(profiles: Seq<UserProfile>, id: Uuid) -> nat {
    if position(profiles, crate::db::with_id::<UserProfile>(id)) < profiles.len() {
        count(profiles, crate::db::with_id::<UserProfile>(id))
    } else {
        1
    }
}

/// The profiles table after a profile is saved: it takes the place of the
/// profiles of its user, or becomes the last row where the user has none.
pub open spec fn saved_profile(profiles: Seq<UserProfile>, p: UserProfile) -> Seq<UserProfile> {
    if position(profiles, crate::db::with_id::<UserProfile>(p.id)) < profiles.len() {
        crate::db::replaced(profiles, crate::db::with_id::<UserProfile>(p.id), p)
    } else {
        profiles.push(p)
    }
}

impl UserProfile {
    /// Saves the profile: see [`saved_profile`]. The result is the number
    /// of rows written.
    pub fn save(&self, db: &mut crate::db::Site) -> (r: usize)
        ensures
            final(db)@ == (crate::db::SiteView {
                profiles: saved_profile(old(db)@.profiles, *self),
                ..old(db)@
            }),
            r == profiles_written(old(db)@.profiles, self.id),
    {
        if crate::db::index_where(&db.profiles, &crate::db::ById(self.id)) < db.profiles.len() {
            crate::db::replace_where(&mut db.profiles, &crate::db::ById(self.id), self)
        } else {
            let ghost before = db.profiles@;
            db.profiles.push(crate::db::Row::duplicate(self));
            assert(rows(db.profiles@) =~= rows(before).push(*self));
            1
        }
    }
}

/// The folders that every user has.
pub open spec fn folder_names() -> Seq<Seq<char>> {
    seq!["inbox"@, "sent"@, "system"@]
}

impl User {
    /// Makes the folders that every user has: `inbox`, `sent` and
    /// `system`, in this order, each with an identifier made for it. Where
    /// an identifier is taken, the folders made before it stay.
    pub fn create_message_folders(&self, db: &mut crate::db::Site) -> (r: Result<
        (),
        crate::error::Error,
    >)
        ensures
            final(db)@ == (crate::db::SiteView { folders: final(db)@.folders, ..old(db)@ }),
            final(db)@.folders.len() >= old(db)@.folders.len(),
            final(db)@.folders.take(old(db)@.folders.len() as int) == old(db)@.folders,
            forall|i: int|
                old(db)@.folders.len() <= i < final(db)@.folders.len() ==> (
                #[trigger] final(db)@.folders[i]).user_id == self.id && final(db)@.folders[i].purge
                    == 0 && final(db)@.folders[i].name@ == folder_names()[i - old(db)@.folders.len()],
            match r {
                Ok(_) => final(db)@.folders.len() == old(db)@.folders.len() + 3,
                Err(e) => e == crate::error::Error::DuplicateKey && final(db)@.folders.len() < old(db)@.folders.len() + 3,
            },
    {
        let names: [&str; 3] = ["inbox", "sent", "system"];
        let ghost start = db@.folders;
        let mut i: usize = 0;
        assert(db@.folders.take(start.len() as int) =~= start);
        while i < 3
            invariant
                i <= 3,
                names@ == seq!["inbox", "sent", "system"],
                db@ == (crate::db::SiteView { folders: db@.folders, ..old(db)@ }),
                start == old(db)@.folders,
                db@.folders.len() == start.len() + i,
                db@.folders.take(start.len() as int) == start,
                forall|j: int|
                    start.len() <= j < db@.folders.len() ==> (#[trigger] db@.folders[j]).user_id
                        == self.id && db@.folders[j].purge == 0 && db@.folders[j].name@
                        == folder_names()[j - start.len()],
            decreases 3 - i,
        {
            let ghost before = db@.folders;
            let folder = crate::models::message::NewMessageFolder::new(&self.id, names[i], 0);
            match folder.save(db) {
                Ok(_) => {},
                Err(e) => {
                    return Err(e);
                },
            }
            assert(db@.folders.take(start.len() as int) =~= start) by {
                assert(db@.folders.drop_last() == before);
            }
            assert forall|j: int| start.len() <= j < db@.folders.len() implies (
            #[trigger] db@.folders[j]).user_id == self.id && db@.folders[j].purge == 0
                && db@.folders[j].name@ == folder_names()[j - start.len()] by {
                if j < before.len() {
                    assert(db@.folders.drop_last()[j] == before[j]);
                }
            }
            i += 1;
        }
        Ok(())
    }

    /// Gives the user a profile that tells nothing, in place of any it
    /// has. The result is the number of rows written.
    pub fn create_profile(&self, db: &mut crate::db::Site) -> (r: usize)
        ensures
            final(db)@ == (crate::db::SiteView {
                profiles: saved_profile(old(db)@.profiles, blank_profile(self.id)),
                ..old(db)@
            }),
            r == profiles_written(old(db)@.profiles, self.id),
    {
        let profile = UserProfile { id: self.id, avatar: None, flair: None, about: None };
        profile.save(db)
    }

    /// The profile of the user: the one in the table, or one that tells
    /// nothing where the table has none.
    pub fn profile(&self, db: &crate::db::Site) -> (r: UserProfile)
        ensures
            r == match first(db@.profiles, crate::db::with_id::<UserProfile>(self.id)) {
                Some(p) => p,
                None => blank_profile(self.id),
            },
    {
        match crate::db::find_where(&db.profiles, &crate::db::ById(self.id)) {
            Some(p) => p,
            None => UserProfile { id: self.id, avatar: None, flair: None, about: None },
        }
    }
}

/// The users with the one that has the identifier marked as active at
/// `now`.
pub open spec fn marked_active(users: Seq<UserView>, id: Uuid, now: Timestamp) -> Seq<UserView> {
    Seq::new(
        users.len(),
        |i: int|
            if users[i].id == id {
                UserView { last_active: Some(now), ..users[i] }
            } else {
                users[i]
            },
    )
}

/// The condition to be a peer of a user that seeds, or one that does not.
pub struct PeerOf {
    pub user_id: Uuid,
    pub seeder: bool,
}

impl crate::db::Criterion<crate::models::peer::Peer> for PeerOf {
    open spec fn holds(&self, v: crate::models::peer::PeerView) -> bool {
        v.user_id == self.user_id && v.seeder == self.seeder
    }

    fn test(&self, row: &crate::models::peer::Peer) -> (b: bool) {
        row.user_id == self.user_id && row.seeder == self.seeder
    }
}

/// The condition to be a transfer of a user that seeds, or one that does
/// not.
pub struct TransferOf {
    pub user_id: Uuid,
    pub seeder: bool,
}

impl crate::db::Criterion<UserTransfer> for TransferOf {
    open spec fn holds(&self, v: UserTransfer) -> bool {
        v.user_id == self.user_id && v.is_seeder == self.seeder
    }

    fn test(&self, row: &UserTransfer) -> (b: bool) {
        row.user_id == self.user_id && row.is_seeder == self.seeder
    }
}

impl UserTransfer {
    /// The transfers of a user on which it seeds, or those on which it
    /// does not, in the order of the torrents' names: every such row, as
    /// often as it stands in the table, and no other.
    pub fn fetch_active(user_id: &Uuid, seeder: bool, db: &crate::db::Site) -> (r: Vec<
        UserTransfer,
    >)
        ensures
            crate::db::sorted::<UserTransfer>(r@),
            r@.to_multiset() == crate::db::those(
                db@.user_transfer,
                crate::db::meeting::<UserTransfer, TransferOf>(
                    TransferOf { user_id: *user_id, seeder },
                ),
            ).to_multiset(),
    {
        let found = crate::db::select_where(
            &db.user_transfer,
            &TransferOf { user_id: *user_id, seeder },
        );
        let out = crate::db::sort_rows(found);
        assert(rows(out@) =~= out@);
        assert(rows(found@) =~= found@);
        out
    }
}

/// What a property of a user holds.
#[derive(Debug)]
pub enum PropertyValue {
    /// Nothing.
    Null,
    Bool(bool),
    Number(i64),
    Text(String),
}

impl PropertyValue {
    /// The number that the value is, if it is one.
    pub fn as_i64(&self) -> (r: Option<i64>)
        ensures
            r == match *self {
                PropertyValue::Number(n) => Some(n),
                _ => None::<i64>,
            },
    {
        match self {
            PropertyValue::Number(n) => Some(*n),
            _ => None,
        }
    }

    /// Whether two values hold the same.
    pub open spec fn alike(self, other: PropertyValue) -> bool {
        match (self, other) {
            (PropertyValue::Null, PropertyValue::Null) => true,
            (PropertyValue::Bool(a), PropertyValue::Bool(b)) => a == b,
            (PropertyValue::Number(a), PropertyValue::Number(b)) => a == b,
            (PropertyValue::Text(a), PropertyValue::Text(b)) => a@ == b@,
            _ => false,
        }
    }

    /// Tests whether two values hold the same.
    pub fn same(&self, other: &PropertyValue) -> (r: bool)
        ensures
            r == self.alike(*other),
    {
        match (self, other) {
            (PropertyValue::Null, PropertyValue::Null) => true,
            (PropertyValue::Bool(a), PropertyValue::Bool(b)) => *a == *b,
            (PropertyValue::Number(a), PropertyValue::Number(b)) => *a == *b,
            (PropertyValue::Text(a), PropertyValue::Text(b)) => crate::util::same_text(
                a.as_str(),
                b.as_str(),
            ),
            _ => false,
        }
    }

    /// A copy of the value.
    pub fn duplicate(&self) -> (r: Self)
        ensures
            r == *self,
    {
        match self {
            PropertyValue::Null => PropertyValue::Null,
            PropertyValue::Bool(b) => PropertyValue::Bool(*b),
            PropertyValue::Number(n) => PropertyValue::Number(*n),
            PropertyValue::Text(t) => PropertyValue::Text(t.clone()),
        }
    }
}

/// A setting of a user, or something else that is kept for it under a
/// name.
#[derive(Debug)]
pub struct Property {
    pub id: Uuid,
    pub user_id: Uuid,
    pub name: String,
    pub value: PropertyValue,
    pub created_at: Timestamp,
    pub updated_at: Timestamp,
}

impl View for Property {
    type V = Property;

    open spec fn view(&self) -> Property {
        *self
    }
}

impl crate::db::Row for Property {
    fn duplicate(&self) -> (r: Self) {
        Property {
            id: self.id,
            user_id: self.user_id,
            name: self.name.clone(),
            value: self.value.duplicate(),
            created_at: self.created_at,
            updated_at: self.updated_at,
        }
    }
}

impl crate::db::Keyed for Property {
    open spec fn key(v: Property) -> Uuid {
        v.id
    }

    fn id(&self) -> (r: Uuid) {
        self.id
    }
}

impl crate::db::Ordered for Property {
    /// Properties are ordered by their names.
    open spec fn le(a: Property, b: Property) -> bool {
        crate::util::text_le(a.name@, b.name@)
    }

    proof fn lemma_total(a: Property, b: Property) {
        crate::util::bytes::lemma_lex_total(
            vstd::utf8::encode_utf8(a.name@),
            vstd::utf8::encode_utf8(b.name@),
        );
    }

    proof fn lemma_transitive(a: Property, b: Property, c: Property) {
        crate::util::bytes::lemma_lex_transitive(
            vstd::utf8::encode_utf8(a.name@),
            vstd::utf8::encode_utf8(b.name@),
            vstd::utf8::encode_utf8(c.name@),
        );
    }

    fn not_after(&self, other: &Self) -> (r: bool) {
        crate::util::text_not_after(self.name.as_str(), other.name.as_str())
    }
}

/// The condition to be the property of a user under a name.
pub struct PropertyOf<'a> {
    pub user_id: Uuid,
    pub name: &'a str,
}

impl<'a> crate::db::Criterion<Property> for PropertyOf<'a> {
    open spec fn holds(&self, v: Property) -> bool {
        v.user_id == self.user_id && v.name@ == self.name@
    }

    fn test(&self, row: &Property) -> (b: bool) {
        row.user_id == self.user_id && crate::util::same_text(row.name.as_str(), self.name)
    }
}

/// The condition to be a property with a name and a value.
pub struct PropertyWith<'a> {
    pub name: &'a str,
    pub value: &'a PropertyValue,
}

impl<'a> crate::db::Criterion<Property> for PropertyWith<'a> {
    open spec fn holds(&self, v: Property) -> bool {
        v.name@ == self.name@ && v.value.alike(*self.value)
    }

    fn test(&self, row: &Property) -> (b: bool) {
        crate::util::same_text(row.name.as_str(), self.name) && row.value.same(self.value)
    }
}

/// The condition to belong to a user.
pub struct OfUser(pub Uuid);

impl crate::db::Criterion<Property> for OfUser {
    open spec fn holds(&self, v: Property) -> bool {
        v.user_id == self.0
    }

    fn test(&self, row: &Property) -> (b: bool) {
        row.user_id == self.0
    }
}

/// The property of a user under a name: the first such.
pub open spec fn property_of(properties: Seq<Property>, user_id: Uuid, name: Seq<char>) -> Option<
    Property,
> {
    first(properties, |p: Property| p.user_id == user_id && p.name@ == name)
}

/// The properties table after a property is saved: the property of its
/// user under its name takes its value and keeps all else; where there is
/// none the property becomes the last row, unless a row has its identifier.
pub open spec fn saved_property(properties: Seq<Property>, p: Property) -> Result<
    Seq<Property>,
    crate::error::Error,
> {
    let i = position(properties, |q: Property| q.user_id == p.user_id && q.name@ == p.name@);
    if i < properties.len() {
        Ok(properties.update(i, Property { value: p.value, ..properties[i] }))
    } else if position(properties, crate::db::with_id::<Property>(p.id)) < properties.len() {
        Err(crate::error::Error::DuplicateKey)
    } else {
        Ok(properties.push(p))
    }
}

impl Property {
    /// A property of a user, made at `now`, with an identifier made for
    /// it.
    pub fn new(name: String, value: PropertyValue, user_id: &Uuid, now: Timestamp) -> (r: Self)
        ensures
            r == (Property {
                id: r.id,
                user_id: *user_id,
                name,
                value,
                created_at: now,
                updated_at: now,
            }),
    {
        Property {
            id: crate::util::rand::fresh_id(),
            name,
            value,
            user_id: *user_id,
            created_at: now,
            updated_at: now,
        }
    }

    /// Saves the property: see [`saved_property`]. The result is the
    /// number of rows written.
    pub fn save(&self, db: &mut crate::db::Site) -> (r: Result<usize, crate::error::Error>)
        ensures
            match saved_property(old(db)@.user_properties, *self) {
                Ok(rows) => r == Ok::<usize, crate::error::Error>(1) && final(db)@ == (
                crate::db::SiteView { user_properties: rows, ..old(db)@ }),
                Err(e) => r == Err::<usize, crate::error::Error>(e) && final(db)@ == old(db)@,
            },
    {
        let name = self.name.as_str();
        proof {
            crate::db::lemma_position_same(
                db@.user_properties,
                crate::db::meeting::<Property, PropertyOf>(
                    PropertyOf { user_id: self.user_id, name },
                ),
                |q: Property| q.user_id == self.user_id && q.name@ == self.name@,
            );
        }
        let i = crate::db::index_where(
            &db.user_properties,
            &PropertyOf { user_id: self.user_id, name },
        );
        if i < db.user_properties.len() {
            let mut row = crate::db::Row::duplicate(&db.user_properties[i]);
            row.value = self.value.duplicate();
            let ghost before = db.user_properties@;
            db.user_properties[i] = row;
            assert(rows(db.user_properties@) =~= rows(before).update(i as int, row));
            Ok(1)
        } else {
            crate::db::insert_row(&mut db.user_properties, self)
        }
    }

    /// Finds the property of a user under a name.
    pub fn find(user_id: &Uuid, name: &str, db: &crate::db::Site) -> (r: Option<Property>)
        ensures
            r == property_of(db@.user_properties, *user_id, name@),
    {
        proof {
            crate::db::lemma_position_same(
                db@.user_properties,
                crate::db::meeting::<Property, PropertyOf>(PropertyOf { user_id: *user_id, name }),
                |p: Property| p.user_id == *user_id && p.name@ == name@,
            );
        }
        crate::db::find_where(&db.user_properties, &PropertyOf { user_id: *user_id, name })
    }

    /// Finds the first property with a name and a value.
    pub fn find_by_name_value(name: &str, value: &PropertyValue, db: &crate::db::Site) -> (r:
        Option<Property>)
        ensures
            r == first(
                db@.user_properties,
                crate::db::meeting::<Property, PropertyWith>(PropertyWith { name, value }),
            ),
    {
        crate::db::find_where(&db.user_properties, &PropertyWith { name, value })
    }

    /// Deletes the property. The result is the number of rows deleted.
    pub fn delete(&self, db: &mut crate::db::Site) -> (r: usize)
        ensures
            final(db)@ == (crate::db::SiteView {
                user_properties: crate::db::without(
                    old(db)@.user_properties,
                    crate::db::with_id::<Property>(self.id),
                ),
                ..old(db)@
            }),
            r == old(db)@.user_properties.len() - final(db)@.user_properties.len(),
    {
        crate::db::delete_where(&mut db.user_properties, &crate::db::ById(self.id))
    }

    /// The properties of a user, in the order of their names: every
    /// property of the user, as often as it stands in the table, and no
    /// other.
    pub fn fetch_for_user(id: &Uuid, db: &crate::db::Site) -> (r: Vec<Property>)
        ensures
            crate::db::sorted::<Property>(r@),
            r@.to_multiset() == crate::db::those(
                db@.user_properties,
                crate::db::meeting::<Property, OfUser>(OfUser(*id)),
            ).to_multiset(),
    {
        let found = crate::db::select_where(&db.user_properties, &OfUser(*id));
        let out = crate::db::sort_rows(found);
        assert(rows(out@) =~= out@);
        assert(rows(found@) =~= found@);
        out
    }

    /// The user of the property.
    pub fn user_id(&self) -> (r: &Uuid)
        ensures
            *r == self.user_id,
    {
        &self.user_id
    }

    /// The name of the property.
    pub fn name(&self) -> (r: &str)
        ensures
            r@ == self.name@,
    {
        self.name.as_str()
    }

    /// The value of the property.
    pub fn value(&self) -> (r: &PropertyValue)
        ensures
            *r == self.value,
    {
        &self.value
    }

    /// Gives the property a value.
    pub fn set_value(&mut self, value: PropertyValue)
        ensures
            *final(self) == (Property { value, ..*old(self) }),
    {
        self.value = value;
    }
}

impl View for UserTransfer {
    type V = UserTransfer;

    open spec fn view(&self) -> UserTransfer {
        *self
    }
}

impl crate::db::Row for UserTransfer {
    fn duplicate(&self) -> (r: Self) {
        UserTransfer {
            id: self.id,
            torrent_id: self.torrent_id,
            user_id: self.user_id,
            name: self.name.clone(),
            is_seeder: self.is_seeder,
            size: self.size,
            seeder: self.seeder,
            leecher: self.leecher,
            bytes_uploaded: self.bytes_uploaded,
            bytes_downloaded: self.bytes_downloaded,
            total_uploaded: self.total_uploaded,
            total_downloaded: self.total_downloaded,
        }
    }
}

impl crate::db::Ordered for UserTransfer {
    /// The rows are ordered by the names of their torrents.
    open spec fn le(a: UserTransfer, b: UserTransfer) -> bool {
        crate::util::text_le(a.name@, b.name@)
    }

    proof fn lemma_total(a: UserTransfer, b: UserTransfer) {
        crate::util::bytes::lemma_lex_total(
            vstd::utf8::encode_utf8(a.name@),
            vstd::utf8::encode_utf8(b.name@),
        );
    }

    proof fn lemma_transitive(a: UserTransfer, b: UserTransfer, c: UserTransfer) {
        crate::util::bytes::lemma_lex_transitive(
            vstd::utf8::encode_utf8(a.name@),
            vstd::utf8::encode_utf8(b.name@),
            vstd::utf8::encode_utf8(c.name@),
        );
    }

    fn not_after(&self, other: &Self) -> (r: bool) {
        crate::util::text_not_after(self.name.as_str(), other.name.as_str())
    }
}

impl crate::db::Criterion<UserTransfer> for OfUser {
    open spec fn holds(&self, v: UserTransfer) -> bool {
        v.user_id == self.0
    }

    fn test(&self, row: &UserTransfer) -> (b: bool) {
        row.user_id == self.0
    }
}

impl UserTransfer {
    /// The transfers of a user, in the order of the torrents' names: every row
    /// of the user, as often as it stands in the table, and no other.
    pub fn fetch_for_user(user_id: &Uuid, db: &crate::db::Site) -> (r: Vec<UserTransfer>)
        ensures
            crate::db::sorted::<UserTransfer>(r@),
            r@.to_multiset() == crate::db::those(
                db@.user_transfer,
                crate::db::meeting::<UserTransfer, OfUser>(OfUser(*user_id)),
            ).to_multiset(),
    {
        let found = crate::db::select_where(&db.user_transfer, &OfUser(*user_id));
        let out = crate::db::sort_rows(found);
        assert(rows(out@) =~= out@);
        assert(rows(found@) =~= found@);
        out
    }
}

impl View for CompletedTorrent {
    type V = CompletedTorrent;

    open spec fn view(&self) -> CompletedTorrent {
        *self
    }
}

impl crate::db::Row for CompletedTorrent {
    fn duplicate(&self) -> (r: Self) {
        CompletedTorrent {
            id: self.id,
            user_id: self.user_id,
            torrent_id: self.torrent_id,
            bytes_uploaded: self.bytes_uploaded,
            bytes_downloaded: self.bytes_downloaded,
            time_seeded: self.time_seeded,
            completed_at: self.completed_at,
            name: self.name.clone(),
            size: self.size,
            is_seeder: self.is_seeder,
            seeder: self.seeder,
            leecher: self.leecher,
        }
    }
}

impl crate::db::Ordered for CompletedTorrent {
    /// The rows are ordered by the names of their torrents.
    open spec fn le(a: CompletedTorrent, b: CompletedTorrent) -> bool {
        crate::util::text_le(a.name@, b.name@)
    }

    proof fn lemma_total(a: CompletedTorrent, b: CompletedTorrent) {
        crate::util::bytes::lemma_lex_total(
            vstd::utf8::encode_utf8(a.name@),
            vstd::utf8::encode_utf8(b.name@),
        );
    }

    proof fn lemma_transitive(a: CompletedTorrent, b: CompletedTorrent, c: CompletedTorrent) {
        crate::util::bytes::lemma_lex_transitive(
            vstd::utf8::encode_utf8(a.name@),
            vstd::utf8::encode_utf8(b.name@),
            vstd::utf8::encode_utf8(c.name@),
        );
    }

    fn not_after(&self, other: &Self) -> (r: bool) {
        crate::util::text_not_after(self.name.as_str(), other.name.as_str())
    }
}

impl crate::db::Criterion<CompletedTorrent> for OfUser {
    open spec fn holds(&self, v: CompletedTorrent) -> bool {
        v.user_id == self.0
    }

    fn test(&self, row: &CompletedTorrent) -> (b: bool) {
        row.user_id == self.0
    }
}

impl CompletedTorrent {
    /// The finished downloads of a user, in the order of the torrents' names: every row
    /// of the user, as often as it stands in the table, and no other.
    pub fn fetch_for_user(user_id: &Uuid, db: &crate::db::Site) -> (r: Vec<CompletedTorrent>)
        ensures
            crate::db::sorted::<CompletedTorrent>(r@),
            r@.to_multiset() == crate::db::those(
                db@.completed_torrents,
                crate::db::meeting::<CompletedTorrent, OfUser>(OfUser(*user_id)),
            ).to_multiset(),
    {
        let found = crate::db::select_where(&db.completed_torrents, &OfUser(*user_id));
        let out = crate::db::sort_rows(found);
        assert(rows(out@) =~= out@);
        assert(rows(found@) =~= found@);
        out
    }
}

/// A connection of a user to the tracker, as its profile shows it.
#[derive(Debug)]
pub struct UserConnection {
    pub id: Uuid,
    pub user_agent: String,
    pub ip_address: crate::net::IpAddress,
    pub port: i32,
}

/// A connection as a mathematical value.
pub ghost struct UserConnectionView {
    pub id: Uuid,
    pub user_agent: Seq<char>,
    pub ip_address: crate::net::IpAddress,
    pub port: i32,
}

impl View for UserConnection {
    type V = UserConnectionView;

    open spec fn view(&self) -> UserConnectionView {
        UserConnectionView {
            id: self.id,
            user_agent: self.user_agent@,
            ip_address: self.ip_address,
            port: self.port,
        }
    }
}

impl crate::db::Ordered for UserConnection {
    /// Connections are ordered by their addresses.
    open spec fn le(a: UserConnectionView, b: UserConnectionView) -> bool {
        a.ip_address.rank() <= b.ip_address.rank()
    }

    proof fn lemma_total(a: UserConnectionView, b: UserConnectionView) {
    }

    proof fn lemma_transitive(a: UserConnectionView, b: UserConnectionView, c: UserConnectionView) {
    }

    fn not_after(&self, other: &Self) -> (r: bool) {
        self.ip_address.not_after(&other.ip_address)
    }
}

/// The connection that a peer is.
pub open spec fn connection_of(p: crate::models::peer::PeerView) -> UserConnectionView {
    UserConnectionView {
        id: p.id,
        user_agent: p.user_agent,
        ip_address: p.ip_address,
        port: p.port,
    }
}

impl crate::db::Criterion<crate::models::peer::Peer> for OfUser {
    open spec fn holds(&self, v: crate::models::peer::PeerView) -> bool {
        v.user_id == self.0
    }

    fn test(&self, row: &crate::models::peer::Peer) -> (b: bool) {
        row.user_id == self.0
    }
}

impl UserConnection {
    /// The connections of a user, in the order of their addresses: one
    /// for each peer of the user, and no other.
    pub fn fetch_for_user(id: &Uuid, db: &Tables) -> (r: Vec<UserConnection>)
        ensures
            crate::db::sorted::<UserConnection>(rows(r@)),
            rows(r@).to_multiset() == crate::db::those(
                db@.peers,
                crate::db::meeting::<crate::models::peer::Peer, OfUser>(OfUser(*id)),
            ).map_values(|p: crate::models::peer::PeerView| connection_of(p)).to_multiset(),
    {
        let found = crate::db::select_where(&db.peers, &OfUser(*id));
        let mut list: Vec<UserConnection> = Vec::new();
        let mut i: usize = 0;
        let ghost f = |p: crate::models::peer::PeerView| connection_of(p);
        while i < found.len()
            invariant
                i <= found.len(),
                f == |p: crate::models::peer::PeerView| connection_of(p),
                rows(list@) == rows(found@).take(i as int).map_values(f),
            decreases found.len() - i,
        {
            let p = &found[i];
            let ghost before = rows(list@);
            list.push(
                UserConnection {
                    id: p.id,
                    user_agent: p.user_agent.clone(),
                    ip_address: p.ip_address,
                    port: p.port,
                },
            );
            proof {
                let next = rows(found@).take(i + 1);
                assert(next =~= rows(found@).take(i as int).push(found@[i as int]@));
                assert(f(found@[i as int]@) == connection_of(found@[i as int]@));
                assert(rows(list@) =~= before.push(connection_of(found@[i as int]@)));
                assert(next.map_values(f) =~= before.push(f(found@[i as int]@)));
            }
            i += 1;
        }
        proof {
            assert(rows(found@).take(found.len() as int) =~= rows(found@));
        }
        crate::db::sort_rows(list)
    }
}

/// An upload as a mathematical value.
pub ghost struct UserUploadView {
    pub id: Uuid,
    pub user_id: Option<Uuid>,
    pub name: Seq<char>,
    pub size: i64,
    pub seeder: i64,
    pub leecher: i64,
    pub created_at: Timestamp,
}

impl View for UserUpload {
    type V = UserUploadView;

    open spec fn view(&self) -> UserUploadView {
        UserUploadView {
            id: self.id,
            user_id: self.user_id,
            name: self.name@,
            size: self.size,
            seeder: self.seeder,
            leecher: self.leecher,
            created_at: self.created_at,
        }
    }
}

impl crate::db::Dated for UserUpload {
    open spec fn stamp(v: UserUploadView) -> Timestamp {
        v.created_at
    }

    fn time(&self) -> (r: Timestamp) {
        self.created_at
    }
}

/// The upload that a listed torrent is.
pub open spec fn upload_of(t: crate::models::torrent::TorrentListView) -> UserUploadView {
    UserUploadView {
        id: t.id,
        user_id: t.user_id,
        name: t.name,
        size: t.size,
        seeder: t.seeder,
        leecher: t.leecher,
        created_at: t.created_at,
    }
}

/// A sequence without what occurred in it before: of equal values the
/// first stays.
pub open spec fn once<T>(s: Seq<T>) -> Seq<T>
    decreases s.len(),
{
    if s.len() == 0 {
        Seq::empty()
    } else if once(s.drop_last()).contains(s.last()) {
        once(s.drop_last())
    } else {
        once(s.drop_last()).push(s.last())
    }
}

impl crate::db::Criterion<crate::models::torrent::TorrentList> for OfUser {
    open spec fn holds(&self, v: crate::models::torrent::TorrentListView) -> bool {
        v.user_id == Some(self.0)
    }

    fn test(&self, row: &crate::models::torrent::TorrentList) -> (b: bool) {
        match row.user_id {
            Some(u) => u == self.0,
            None => false,
        }
    }
}

/// The uploads of a user: what the listed torrents of the user show as
/// uploads, each once.
pub open spec fn uploads_of(list: Seq<crate::models::torrent::TorrentListView>, user_id: Uuid) -> Seq<
    UserUploadView,
> {
    once(
        crate::db::those(
            list,
            crate::db::meeting::<crate::models::torrent::TorrentList, OfUser>(OfUser(user_id)),
        ).map_values(|t: crate::models::torrent::TorrentListView| upload_of(t)),
    )
}

impl UserUpload {
    /// Whether two uploads are equal in every field.
    pub fn same(&self, other: &UserUpload) -> (r: bool)
        ensures
            r == (self@ == other@),
    {
        let user = match (self.user_id, other.user_id) {
            (Some(a), Some(b)) => a == b,
            (None, None) => true,
            _ => false,
        };
        self.id == other.id && user && crate::util::same_text(
            self.name.as_str(),
            other.name.as_str(),
        ) && self.size == other.size && self.seeder == other.seeder && self.leecher
            == other.leecher && self.created_at == other.created_at
    }

    /// The uploads of a user, the newest first: see [`uploads_of`].
    pub fn fetch_for_user(user_id: &Uuid, db: &Tables, site: &crate::db::Site) -> (r: Vec<
        UserUpload,
    >)
        ensures
            rows(r@) == crate::db::in_order::<UserUpload>(
                uploads_of(crate::models::torrent::listed(db@, site@), *user_id),
                true,
                uploads_of(crate::models::torrent::listed(db@, site@), *user_id).len(),
            ),
    {
        let whole = crate::models::torrent::TorrentList::all(db, site);
        let found = crate::db::select_where(&whole, &OfUser(*user_id));
        let ghost f = |t: crate::models::torrent::TorrentListView| upload_of(t);
        let ghost all = rows(found@).map_values(f);
        let mut list: Vec<UserUpload> = Vec::new();
        let mut i: usize = 0;
        while i < found.len()
            invariant
                i <= found.len(),
                f == |t: crate::models::torrent::TorrentListView| upload_of(t),
                all == rows(found@).map_values(f),
                rows(list@) == once(all.take(i as int)),
            decreases found.len() - i,
        {
            let t = &found[i];
            let u = UserUpload {
                id: t.id,
                user_id: t.user_id,
                name: t.name.clone(),
                size: t.size,
                seeder: t.seeder,
                leecher: t.leecher,
                created_at: t.created_at,
            };
            assert(u@ == all[i as int]);
            let mut j: usize = 0;
            let mut seen = false;
            while j < list.len() && !seen
                invariant
                    j <= list.len(),
                    seen ==> rows(list@).contains(u@),
                    !seen ==> forall|k: int| 0 <= k < j ==> rows(list@)[k] != u@,
                decreases list.len() - j + (if seen { 0int } else { 1int }),
            {
                if list[j].same(&u) {
                    seen = true;
                    proof {
                        assert(rows(list@)[j as int] == u@);
                    }
                } else {
                    j += 1;
                }
            }
            proof {
                assert(all.take(i + 1).drop_last() =~= all.take(i as int));
                assert(all.take(i + 1).last() == u@);
            }
            if !seen {
                list.push(u);
                proof {
                    assert(rows(list@) =~= once(all.take(i as int)).push(u@));
                }
            }
            i += 1;
        }
        proof {
            assert(all.take(found.len() as int) =~= all);
        }
        let n = list.len();
        crate::db::order_rows(list, true, n)
    }
}

/// Whether a property is the one under which a user waits to be
/// confirmed with a digest: it has the identifier, belongs to the user, is
/// named `confirm_id`, holds the digest as hexadecimal text, and was made
/// at `now`.
pub open spec fn confirms(p: Property, id: Uuid, user_id: Uuid, digest: Seq<u8>, now: Timestamp) -> bool {
    &&& p.id == id
    &&& p.user_id == user_id
    &&& p.name@ == "confirm_id"@
    &&& p.value matches PropertyValue::Text(t) && t@ == crate::util::hex_text(digest)
    &&& p.created_at == now
    &&& p.updated_at == now
}

impl User {
    /// Lets the user wait to be confirmed, with the SHA-256 digest of a
    /// seed: the property that says so is saved under the identifier, and
    /// the digest is returned.
    pub fn confirm_id_from(&self, seed: &[u8], id: Uuid, db: &mut crate::db::Site, now: Timestamp) -> (r:
        Result<Bytes, crate::error::Error>)
        ensures
            exists|p: Property| #[trigger]
                confirms(p, id, self.id, crate::util::sha256(seed@), now) && match saved_property(
                    old(db)@.user_properties,
                    p,
                ) {
                    Ok(rows) => r.is_ok() && r.unwrap()@ == crate::util::sha256(seed@)
                        && r.unwrap()@.len() == 32 && final(db)@ == (crate::db::SiteView {
                        user_properties: rows,
                        ..old(db)@
                    }),
                    Err(e) => r == Err::<Bytes, crate::error::Error>(e) && final(db)@ == old(db)@,
                },
    {
        let digest = crate::util::sha256_digest(seed);
        let property = Property {
            id,
            user_id: self.id,
            name: "confirm_id".to_owned(),
            value: PropertyValue::Text(crate::util::to_hex(digest.as_slice())),
            created_at: now,
            updated_at: now,
        };
        assert(confirms(property, id, self.id, crate::util::sha256(seed@), now));
        match property.save(db) {
            Ok(_) => Ok(digest),
            Err(e) => Err(e),
        }
    }

    /// Lets the user wait to be confirmed, with the digest of sixteen
    /// bytes made for it: there are a seed and an identifier with which
    /// [`Self::confirm_id_from`] comes to the same.
    pub fn create_confirm_id(&self, db: &mut crate::db::Site, now: Timestamp) -> (r: Result<
        Bytes,
        crate::error::Error,
    >)
        ensures
            exists|seed: Seq<u8>, p: Property|
                seed.len() == 16 && #[trigger] confirms(
                    p,
                    p.id,
                    self.id,
                    crate::util::sha256(seed),
                    now,
                ) && match saved_property(old(db)@.user_properties, p) {
                    Ok(rows) => r.is_ok() && r.unwrap()@ == crate::util::sha256(seed)
                        && r.unwrap()@.len() == 32 && final(db)@ == (crate::db::SiteView {
                        user_properties: rows,
                        ..old(db)@
                    }),
                    Err(e) => r == Err::<Bytes, crate::error::Error>(e) && final(db)@ == old(db)@,
                },
    {
        let seed = crate::util::rand::gen_random_bytes(16);
        let id = crate::util::rand::fresh_id();
        self.confirm_id_from(seed.as_slice(), id, db, now)
    }
}

} // verus!
