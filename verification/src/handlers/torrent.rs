//! Requests to the torrents of the site.

use vstd::prelude::*;
use vstd::string::StringExecFns;
use crate::db::{
    capped, count, Criterion, first, lemma_those_same, meeting, Row, rows, select_where, Site,
    SiteView, Tables, TablesView, those, with_id, without,
};
use crate::models::torrent::{listed, TorrentComment, TorrentListView, TorrentMsg};
use crate::util::pattern::{fits, holding, like, pattern_holding};
use crate::util::user::{number_set, user_number, user_timezone};
use crate::error::Error;
use crate::handlers::UserSubjectMsg;
use crate::models::acl::Subject;
use crate::models::category::Category;
use crate::models::torrent::{OfTorrent, Torrent, TorrentList, TorrentMetaFile, TorrentNFO};
use crate::models::user::User;
use crate::models::Uuid;
use crate::util::torrent::{files, files_of, files_view, info_hash, info_hash_of};

verus! {

/// Asks for the categories.
#[derive(Debug)]
pub struct LoadCategoriesMsg {}

/// A file of a torrent that is about to be made.
#[derive(Debug)]
pub struct NewFile {
    pub file_name: String,
    pub size: i64,
}

/// Asks for a torrent, for a user.
#[derive(Debug)]
pub struct LoadTorrentMsg {
    pub id: Uuid,
    pub user_id: Uuid,
}

impl LoadTorrentMsg {
    /// A request for a torrent.
    pub fn new(id: &Uuid, user_id: &Uuid) -> (r: LoadTorrentMsg)
        ensures
            r.id == *id,
            r.user_id == *user_id,
    {
        LoadTorrentMsg { id: *id, user_id: *user_id }
    }

    /// What the page of the torrent shows to a reader, with the time zone
    /// of the user who asks. It fails where the torrent or its category is
    /// not there.
    pub fn handle<S: Subject<TorrentComment>>(
        &self,
        db: &Tables,
        site: &Site,
        subj: &S,
        default_timezone: i32,
    ) -> (r: Result<TorrentMsg, Error>)
        ensures
            match first(db@.torrents, crate::models::torrent::torrent_with_id(self.id)) {
                None => r == Err::<TorrentMsg, Error>(Error::NoTorrent),
                Some(t) => match first(site@.categories, with_id::<Category>(t.category_id)) {
                    None => r == Err::<TorrentMsg, Error>(Error::NoCategory),
                    Some(c) => r.is_ok() && r.unwrap().shows(t, c, db@, site@, *subj)
                        && r.unwrap().timezone == (match number_set(
                        site@,
                        self.user_id,
                        "timezone"@,
                    ) {
                        Some(n) => n as i32,
                        None => default_timezone,
                    }),
                },
            },
    {
        match TorrentMsg::find(&self.id, db, site, subj, default_timezone) {
            Ok(mut t) => {
                t.timezone = user_timezone(&self.user_id, site, default_timezone);
                Ok(t)
            },
            Err(e) => Err(e),
        }
    }
}

/// Asks for the metainfo file of a torrent, for a user.
#[derive(Debug)]
pub struct LoadTorrentMetaMsg {
    pub id: Uuid,
    pub uid: Uuid,
}

/// Asks for the description file of a torrent.
#[derive(Debug)]
pub struct LoadTorrentNfoMsg {
    pub id: Uuid,
}

/// Which torrents a list shows: those that clients have announced for,
/// those that none has, or all.
#[derive(Debug, Clone, Copy, PartialEq, Eq, Structural)]
pub enum Visible {
    Visible,
    Invisible,
    All,
}

impl Visible {
    /// The word for the choice.
    pub open spec fn word(self) -> Seq<char> {
        match self {
            Visible::Visible => "visible"@,
            Visible::Invisible => "dead"@,
            Visible::All => "all"@,
        }
    }

    /// The word for the choice.
    pub fn to_string(&self) -> (r: String)
        ensures
            r@ == self.word(),
    {
        match self {
            Visible::Visible => "visible".to_owned(),
            Visible::Invisible => "dead".to_owned(),
            Visible::All => "all".to_owned(),
        }
    }
}

impl Default for Visible {
    fn default() -> (r: Self)
        ensures
            r == Visible::Visible,
    {
        Visible::Visible
    }
}

/// Asks for a page of the list of torrents.
#[derive(Debug)]
pub struct LoadTorrentListMsg {
    pub name: Option<String>,
    pub category: Option<Uuid>,
    pub user_id: Option<Uuid>,
    pub visible: Visible,
    pub page: i64,
    pub per_page: i64,
    pub current_user_id: Uuid,
}

impl LoadTorrentListMsg {
    /// A request for the first page of the visible torrents, twenty-five
    /// to the page.
    pub fn new(user_id: &Uuid) -> (r: Self)
        ensures
            r == (LoadTorrentListMsg {
                name: None,
                category: None,
                user_id: None,
                visible: Visible::Visible,
                page: 1,
                per_page: 25,
                current_user_id: *user_id,
            }),
    {
        LoadTorrentListMsg {
            name: None,
            category: None,
            user_id: None,
            visible: Visible::Visible,
            page: 1,
            per_page: 25,
            current_user_id: *user_id,
        }
    }

    /// Asks for torrents with the text in their name.
    pub fn name(&mut self, name: String) -> (r: &Self)
        ensures
            *final(self) == (LoadTorrentListMsg { name: Some(name), ..*old(self) }),
            *r == *final(self),
    {
        self.name = Some(name);
        self
    }

    /// Asks for torrents of the category.
    pub fn category(&mut self, category_id: Uuid) -> (r: &Self)
        ensures
            *final(self) == (LoadTorrentListMsg { category: Some(category_id), ..*old(self) }),
            *r == *final(self),
    {
        self.category = Some(category_id);
        self
    }

    /// Asks for torrents of the user.
    pub fn user(&mut self, user_id: Uuid) -> (r: &Self)
        ensures
            *final(self) == (LoadTorrentListMsg { user_id: Some(user_id), ..*old(self) }),
            *r == *final(self),
    {
        self.user_id = Some(user_id);
        self
    }

    /// Asks for the visible torrents, the others, or all.
    pub fn visible(&mut self, visible: Visible) -> (r: &Self)
        ensures
            *final(self) == (LoadTorrentListMsg { visible, ..*old(self) }),
            *r == *final(self),
    {
        self.visible = visible;
        self
    }

    /// Asks for a page of a size.
    pub fn page(&mut self, page: i64, per_page: i64) -> (r: &Self)
        ensures
            *final(self) == (LoadTorrentListMsg { page, per_page, ..*old(self) }),
            *r == *final(self),
    {
        self.page = page;
        self.per_page = per_page;
        self
    }
}

/// Holds of the listed torrents that a request asks for: those with the
/// text in their name, of the category, of the user and of the visibility
/// that it names.
pub open spec fn asked_for(
    name: Option<Seq<char>>,
    category: Option<Uuid>,
    user_id: Option<Uuid>,
    visible: Visible,
) -> spec_fn(TorrentListView) -> bool {
    |t: TorrentListView|
        (match name {
            Some(n) => like(holding(n), t.name),
            None => true,
        }) && (match category {
            Some(c) => t.category_id == c,
            None => true,
        }) && (match user_id {
            Some(u) => t.user_id == Some(u),
            None => true,
        }) && (match visible {
            Visible::Visible => t.visible,
            Visible::Invisible => !t.visible,
            Visible::All => true,
        })
}

/// The condition to be asked for, with the pattern for the name.
pub struct Listed<'a> {
    pub pattern: Option<&'a Vec<char>>,
    pub category: Option<Uuid>,
    pub user_id: Option<Uuid>,
    pub visible: Visible,
}

impl<'a> Criterion<TorrentList> for Listed<'a> {
    open spec fn holds(&self, v: TorrentListView) -> bool {
        (match self.pattern {
            Some(p) => like(p@, v.name),
            None => true,
        }) && (match self.category {
            Some(c) => v.category_id == c,
            None => true,
        }) && (match self.user_id {
            Some(u) => v.user_id == Some(u),
            None => true,
        }) && (match self.visible {
            Visible::Visible => v.visible,
            Visible::Invisible => !v.visible,
            Visible::All => true,
        })
    }

    fn test(&self, row: &TorrentList) -> (b: bool) {
        let named = match self.pattern {
            Some(p) => fits(p, row.name.as_str()),
            None => true,
        };
        let filed = match self.category {
            Some(c) => row.category_id == c,
            None => true,
        };
        let owned = match (self.user_id, row.user_id) {
            (Some(u), Some(v)) => u == v,
            (Some(_), None) => false,
            (None, _) => true,
        };
        let shown = match self.visible {
            Visible::Visible => row.visible,
            Visible::Invisible => !row.visible,
            Visible::All => true,
        };
        named && filed && owned && shown
    }
}

/// A page of a list: the rows from place `(page - 1) * per_page` on, at
/// most `per_page` of them. Where the size of a page or that place is
/// below zero, or the place is no sixty-four-bit number, the page is
/// empty.
pub open spec fn page_of<T>(list: Seq<T>, page: i64, per_page: i64) -> Seq<T> {
    let from = (page - 1) * per_page;
    if per_page < 0 || from < 0 || from > i64::MAX || from >= list.len() {
        Seq::empty()
    } else if from + per_page >= list.len() {
        list.skip(from)
    } else {
        list.subrange(from, from + per_page)
    }
}

/// The size of the pages for a user: the number that it has set as
/// `torrents_per_page`, else the given one.
pub open spec fn per_page_for(db: SiteView, user_id: Uuid, given: i64) -> i64 {
    match number_set(db, user_id, "torrents_per_page"@) {
        Some(n) => n,
        None => given,
    }
}

impl LoadTorrentListMsg {
    /// The name that is asked for, as a mathematical value.
    pub open spec fn name_view(self) -> Option<Seq<char>> {
        match self.name {
            Some(n) => Some(n@),
            None => None,
        }
    }

    /// What the request asks for: see [`asked_for`].
    pub open spec fn wanted(self) -> spec_fn(TorrentListView) -> bool {
        asked_for(self.name_view(), self.category, self.user_id, self.visible)
    }

    /// The size of the pages for the user who asks: see [`per_page_for`].
    pub fn user_per_page(&self, db: &Site) -> (r: i64)
        ensures
            r == per_page_for(db@, self.current_user_id, self.per_page),
    {
        match user_number(&self.current_user_id, "torrents_per_page", db) {
            Some(number) => number,
            None => self.per_page,
        }
    }

    /// Answers the request: the page of the listed torrents that are asked
    /// for, in the order of the list, and the number of all that are asked
    /// for. The request takes the size of the pages that the user has set.
    pub fn query(&mut self, db: &Tables, site: &Site) -> (r: (Vec<TorrentList>, i64))
        ensures
            *final(self) == (LoadTorrentListMsg {
                per_page: per_page_for(site@, old(self).current_user_id, old(self).per_page),
                ..*old(self)
            }),
            rows(r.0@) == page_of(
                those(listed(db@, site@), old(self).wanted()),
                old(self).page,
                final(self).per_page,
            ),
            r.1 == capped(count(listed(db@, site@), old(self).wanted())),
    {
        let pattern = match &self.name {
            Some(n) => Some(pattern_holding(n.as_str())),
            None => None,
        };
        let c = Listed {
            pattern: pattern.as_ref(),
            category: self.category,
            user_id: self.user_id,
            visible: self.visible,
        };
        proof {
            assert forall|v: TorrentListView| #[trigger]
                meeting::<TorrentList, Listed>(c)(v) == self.wanted()(v) by {}
            lemma_those_same(
                listed(db@, site@),
                meeting::<TorrentList, Listed>(c),
                self.wanted(),
            );
        }
        let whole = TorrentList::all(db, site);
        let found = select_where(&whole, &c);
        let per_page = self.user_per_page(site);
        self.per_page = per_page;
        let n = found.len();
        let total: i64 = if n as u64 > 0x7fff_ffff_ffff_ffffu64 {
            0x7fff_ffff_ffff_ffffi64
        } else {
            n as i64
        };
        let mut list: Vec<TorrentList> = Vec::new();
        let ghost all = those(listed(db@, site@), old(self).wanted());
        let before = match self.page.checked_sub(1) {
            Some(b) => b,
            None => {
                proof {
                    let far = self.page - 1;
                    assert(far * per_page < 0 || per_page <= 0) by (nonlinear_arith)
                        requires
                            far < 0,
                    ;
                    assert(page_of(all, self.page, per_page) =~= Seq::empty());
                }
                return (list, total);
            },
        };
        let from = match before.checked_mul(per_page) {
            Some(f) => f,
            None => {
                return (list, total);
            },
        };
        if per_page < 0 || from < 0 || from as u64 >= n as u64 {
            return (list, total);
        }
        assert(all == rows(found@));
        let start: usize = from as usize;
        let end: usize = if per_page as u64 >= (n - start) as u64 {
            n
        } else {
            start + per_page as usize
        };
        let mut i: usize = start;
        while i < end
            invariant
                start <= i <= end <= found.len(),
                rows(list@) == rows(found@).subrange(start as int, i as int),
            decreases end - i,
        {
            let ghost so_far = rows(list@);
            list.push(found[i].duplicate());
            proof {
                assert(rows(list@) =~= so_far.push(found@[i as int]@));
                assert(rows(list@) =~= rows(found@).subrange(start as int, i + 1));
            }
            i += 1;
        }
        proof {
            assert(rows(found@).skip(start as int) =~= rows(found@).subrange(
                start as int,
                n as int,
            ));
        }
        (list, total)
    }

    /// Answers the request with the page, the number of all torrents that
    /// are asked for, the request and the time zone of the user who asks.
    pub fn handle(self, db: &Tables, site: &Site, default_timezone: i32) -> (r: TorrentListMsg)
        ensures
            r.request == (LoadTorrentListMsg {
                per_page: per_page_for(site@, self.current_user_id, self.per_page),
                ..self
            }),
            rows(r.torrents@) == page_of(
                those(listed(db@, site@), self.wanted()),
                self.page,
                r.request.per_page,
            ),
            r.count == capped(count(listed(db@, site@), self.wanted())),
            r.timezone == match number_set(site@, self.current_user_id, "timezone"@) {
                Some(n) => n as i32,
                None => default_timezone,
            },
    {
        let mut msg = self;
        let (list, count) = msg.query(db, site);
        let timezone = user_timezone(&msg.current_user_id, site, default_timezone);
        TorrentListMsg { torrents: list, count, request: msg, timezone }
    }
}

/// A page of the list of torrents, with the request that it answers.
#[derive(Debug)]
pub struct TorrentListMsg {
    pub torrents: Vec<TorrentList>,
    pub count: i64,
    pub request: LoadTorrentListMsg,
    pub timezone: i32,
}

/// Deletes a torrent, with a reason.
#[derive(Debug)]
pub struct DeleteTorrentMsg {
    pub id: Uuid,
    pub reason: String,
    pub user: UserSubjectMsg,
}

/// A torrent that is about to be uploaded, with what was read from its
/// metainfo file.
#[derive(Debug)]
pub struct NewTorrentMsg {
    pub name: String,
    pub description: String,
    pub meta_file: Vec<u8>,
    pub nfo_file: Vec<u8>,
    /// The pictures: for each its name and the place where it lies.
    pub image_files: Vec<(String, String)>,
    pub category: Uuid,
    pub user: Uuid,
    pub info_hash: Vec<u8>,
    pub size: i64,
    pub files: Vec<NewFile>,
}

/// Collects what a user uploads for a torrent.
#[derive(Debug)]
pub struct NewTorrentBuilder {
    pub name: String,
    pub description: String,
    pub meta_file: Vec<u8>,
    pub nfo_file: Vec<u8>,
    pub image_files: Vec<(String, String)>,
    pub category: Uuid,
    pub user: Uuid,
}

/// The sizes of files added up.
pub open spec fn total_size(files: Seq<(Seq<char>, int)>) -> int
    decreases files.len(),
{
    if files.len() == 0 {
        0
    } else {
        total_size(files.drop_last()) + files.last().1
    }
}

/// The sum of the sizes of the first files stays within what is stored
/// for as many of them as are counted.
pub open spec fn sums_fit(files: Seq<(Seq<char>, int)>) -> bool {
    forall|n: int| 0 <= n <= files.len() ==> i64::MIN <= #[trigger] total_size(files.take(n)) <= i64::MAX
}

/// Names and sizes of new files as mathematical values.
pub open spec fn new_files_view(files: Seq<NewFile>) -> Seq<(Seq<char>, int)> {
    Seq::new(files.len(), |i: int| (files[i].file_name@, files[i].size as int))
}

/// `String::from_utf8_lossy`, as an owned text. Bytes that are well-formed
/// UTF-8 give the text they encode; of other bytes nothing is said here.
#[verifier::external_body]
fn lossy_text(bytes: &[u8]) -> (r: String)
    ensures
        vstd::utf8::valid_utf8(bytes@) ==> r@ == vstd::utf8::decode_utf8(bytes@),
{
    String::from_utf8_lossy(bytes).into_owned()
}

impl NewTorrentBuilder {
    /// A builder that holds nothing yet.
    pub fn new() -> (r: Self)
        ensures
            r.name@.len() == 0,
            r.description@.len() == 0,
            r.meta_file@.len() == 0,
            r.nfo_file@.len() == 0,
            r.image_files@.len() == 0,
            r.category == 0,
            r.user == 0,
    {
        NewTorrentBuilder {
            name: String::new(),
            description: String::new(),
            meta_file: Vec::new(),
            nfo_file: Vec::new(),
            image_files: Vec::new(),
            category: 0,
            user: 0,
        }
    }

    /// Names the torrent.
    pub fn name(&mut self, name: &str) -> (r: &Self)
        ensures
            final(self).name@ == name@,
            *final(self) == (NewTorrentBuilder { name: final(self).name, ..*old(self) }),
            *r == *final(self),
    {
        self.name = name.to_owned();
        self
    }

    /// Describes the torrent.
    pub fn description(&mut self, desc: &str) -> (r: &Self)
        ensures
            final(self).description@ == desc@,
            *final(self) == (NewTorrentBuilder {
                description: final(self).description,
                ..*old(self)
            }),
            *r == *final(self),
    {
        self.description = desc.to_owned();
        self
    }

    /// Files the torrent under a category.
    pub fn category(&mut self, category: Uuid) -> (r: &Self)
        ensures
            *final(self) == (NewTorrentBuilder { category, ..*old(self) }),
            *r == *final(self),
    {
        self.category = category;
        self
    }

    /// Names the user who uploads the torrent.
    pub fn user(&mut self, user: Uuid) -> (r: &Self)
        ensures
            *final(self) == (NewTorrentBuilder { user, ..*old(self) }),
            *r == *final(self),
    {
        self.user = user;
        self
    }

    /// Takes the metainfo file, which must not be empty.
    pub fn raw_meta(&mut self, meta_file: Vec<u8>) -> (r: &Self)
        requires
            meta_file@.len() > 0,
        ensures
            *final(self) == (NewTorrentBuilder { meta_file, ..*old(self) }),
            *r == *final(self),
    {
        self.meta_file = meta_file;
        self
    }

    /// Takes the description file, which must not be empty.
    pub fn nfo(&mut self, nfo_file: Vec<u8>) -> (r: &Self)
        requires
            nfo_file@.len() > 0,
        ensures
            *final(self) == (NewTorrentBuilder { nfo_file, ..*old(self) }),
            *r == *final(self),
    {
        self.nfo_file = nfo_file;
        self
    }

    /// Adds a picture: its name and the place where it lies.
    pub fn add_image(&mut self, name: &str, path: String) -> (r: &Self)
        ensures
            final(self).image_files@.len() == old(self).image_files@.len() + 1,
            final(self).image_files@.drop_last() == old(self).image_files@,
            final(self).image_files@.last().0@ == name@,
            final(self).image_files@.last().1 == path,
            *final(self) == (NewTorrentBuilder {
                image_files: final(self).image_files,
                ..*old(self)
            }),
            *r == *final(self),
    {
        self.image_files.push((name.to_owned(), path));
        assert(self.image_files@.drop_last() =~= old(self).image_files@);
        self
    }

    /// Takes the text of the description file as the description, where
    /// the file is well-formed UTF-8.
    pub fn nfo_as_description(&mut self) -> (r: &Self)
        ensures
            vstd::utf8::valid_utf8(old(self).nfo_file@) ==> final(self).description@
                == vstd::utf8::decode_utf8(old(self).nfo_file@),
            *final(self) == (NewTorrentBuilder {
                description: final(self).description,
                ..*old(self)
            }),
            *r == *final(self),
    {
        self.description = lossy_text(self.nfo_file.as_slice());
        self
    }

    /// Reads the metainfo file and makes the upload of what was collected:
    /// with the info hash of the file, its files, and the sum of their
    /// sizes. It fails as reading the info hash or the files fails, and
    /// where the sizes add up to more than is stored.
    pub fn finish(self) -> (r: Result<NewTorrentMsg, Error>)
        ensures
            match r {
                Ok(msg) => {
                    &&& info_hash_of(self.meta_file@) == Ok::<Seq<u8>, Error>(msg.info_hash@)
                    &&& files_of(self.meta_file@) == Ok::<Seq<(Seq<char>, int)>, Error>(
                        new_files_view(msg.files@),
                    )
                    &&& msg.size == total_size(new_files_view(msg.files@))
                    &&& msg.name == self.name
                    &&& msg.description == self.description
                    &&& msg.category == self.category
                    &&& msg.user == self.user
                    &&& msg.meta_file == self.meta_file
                    &&& msg.nfo_file == self.nfo_file
                    &&& msg.image_files == self.image_files
                },
                Err(e) => match info_hash_of(self.meta_file@) {
                    Err(f) => e == f,
                    Ok(_) => match files_of(self.meta_file@) {
                        Err(f) => e == f,
                        Ok(files) => e == Error::CounterRange && !sums_fit(files),
                    },
                },
            },
    {
        let info_hash = match info_hash(self.meta_file.as_slice()) {
            Ok(h) => h,
            Err(e) => return Err(e),
        };
        let listed = match files(self.meta_file.as_slice()) {
            Ok(f) => f,
            Err(e) => return Err(e),
        };
        let ghost all = files_view(listed@);
        let mut out: Vec<NewFile> = Vec::new();
        let mut size: i64 = 0;
        let mut listed = listed;
        let mut i: usize = 0;
        let n = listed.len();
        assert(new_files_view(out@) =~= all.take(0));
        while i < n
            invariant
                i <= n,
                n == all.len(),
                listed@.len() == n,
                info_hash_of(self.meta_file@).is_ok(),
                files_of(self.meta_file@) == Ok::<Seq<(Seq<char>, int)>, Error>(all),
                forall|j: int|
                    i <= j < n ==> (#[trigger] listed@[j]).0@ == all[j].0 && listed@[j].1 == all[j].1,
                new_files_view(out@) == all.take(i as int),
                size == total_size(all.take(i as int)),
            decreases n - i,
        {
            let ghost before = new_files_view(out@);
            assert(all.take(i + 1).drop_last() =~= all.take(i as int));
            assert(all.take(i + 1).last() == all[i as int]);
            let mut name = String::new();
            std::mem::swap(&mut name, &mut listed[i].0);
            let file_size = listed[i].1;
            let sum = size as i128 + file_size as i128;
            if sum < i64::MIN as i128 || sum > i64::MAX as i128 {
                assert(!(i64::MIN <= total_size(all.take(i + 1)) <= i64::MAX));
                assert(!sums_fit(all));
                return Err(Error::CounterRange);
            }
            size = sum as i64;
            out.push(NewFile { file_name: name, size: file_size });
            assert(new_files_view(out@) =~= before.push(all[i as int]));
            assert(all.take(i + 1) =~= all.take(i as int).push(all[i as int]));
            i += 1;
        }
        assert(all.take(n as int) =~= all);
        Ok(
            NewTorrentMsg {
                name: self.name,
                description: self.description,
                category: self.category,
                user: self.user,
                meta_file: self.meta_file,
                nfo_file: self.nfo_file,
                image_files: self.image_files,
                size,
                info_hash,
                files: out,
            },
        )
    }
}

impl LoadCategoriesMsg {
    /// Loads the categories, in the order of their names.
    pub fn handle(&self, site: &Site) -> (r: Vec<Category>)
        ensures
            crate::db::sorted::<Category>(r@),
            r@.to_multiset() == site@.categories.to_multiset(),
    {
        Category::all(site)
    }
}

impl LoadTorrentMetaMsg {
    /// Loads what a download needs: the name of the file, which is that
    /// of the torrent with `.torrent` behind it, the metainfo file, and the
    /// passcode of the user. The first of the three that is not there
    /// decides the failure.
    pub fn handle(&self, site: &Site, db: &Tables) -> (r: Result<(String, Vec<u8>, Vec<u8>), Error>)
        ensures
            match (
                first(db@.torrents, with_id::<Torrent>(self.id)),
                first(site@.torrent_meta_files, with_id::<TorrentMetaFile>(self.id)),
                first(db@.users, crate::models::user::user_with_id(self.uid)),
            ) {
                (Some(t), Some(m), Some(u)) => r.is_ok() && r.unwrap().0@ == t.name
                    + ".torrent"@ && r.unwrap().1@ == m.data && r.unwrap().2@ == u.passcode,
                (None, _, _) => r == Err::<(String, Vec<u8>, Vec<u8>), Error>(Error::NoTorrent),
                (Some(_), None, _) => r == Err::<(String, Vec<u8>, Vec<u8>), Error>(
                    Error::NoMetaFile,
                ),
                (Some(_), Some(_), None) => r == Err::<(String, Vec<u8>, Vec<u8>), Error>(
                    Error::NoUser,
                ),
            },
    {
        let torrent = match crate::db::find_where(&db.torrents, &crate::db::ById(self.id)) {
            Some(t) => t,
            None => return Err(Error::NoTorrent),
        };
        let meta_file = match TorrentMetaFile::find(&self.id, site) {
            Some(m) => m,
            None => return Err(Error::NoMetaFile),
        };
        let user = match User::find(&self.uid, db) {
            Some(u) => u,
            None => return Err(Error::NoUser),
        };
        let mut name = torrent.name;
        name.append(".torrent");
        Ok((name, meta_file.data, user.passcode))
    }
}

impl LoadTorrentNfoMsg {
    /// Loads the description file of a torrent and the name to give it:
    /// that of the torrent with `.nfo` behind it.
    pub fn handle(&self, site: &Site, db: &Tables) -> (r: Result<(String, Vec<u8>), Error>)
        ensures
            match (
                first(db@.torrents, with_id::<Torrent>(self.id)),
                first(site@.torrent_nfos, meeting::<TorrentNFO, OfTorrent>(OfTorrent(self.id))),
            ) {
                (Some(t), Some(n)) => r.is_ok() && r.unwrap().0@ == t.name + ".nfo"@
                    && r.unwrap().1@ == n.data,
                (None, _) => r == Err::<(String, Vec<u8>), Error>(Error::NoTorrent),
                (Some(_), None) => r == Err::<(String, Vec<u8>), Error>(Error::NoNfoFile),
            },
    {
        let torrent = match crate::db::find_where(&db.torrents, &crate::db::ById(self.id)) {
            Some(t) => t,
            None => return Err(Error::NoTorrent),
        };
        let nfo_file = match TorrentNFO::find_for_torrent(&self.id, site) {
            Some(n) => n,
            None => return Err(Error::NoNfoFile),
        };
        let mut name = torrent.name;
        name.append(".nfo");
        Ok((name, nfo_file.data))
    }
}

impl DeleteTorrentMsg {
    /// Deletes the torrent for a user who may do so: its uploader, or one
    /// whom the rules permit to delete torrents. The result is the number of
    /// rows deleted.
    pub fn handle(&self, db: &mut Tables) -> (r: Result<usize, Error>)
        ensures
            match first(old(db)@.torrents, with_id::<Torrent>(self.id)) {
                None => r == Err::<usize, Error>(Error::NoTorrent) && final(db)@ == old(db)@,
                Some(t) => if t.user_id == Some(self.user.uid) || crate::models::acl::user_may(
                    self.user.acl.acl()@,
                    self.user.uid,
                    self.user.gid,
                    "torrent"@,
                    crate::models::acl::Permission::Delete,
                    self.user.acl.acl().depth(),
                ) {
                    r.is_ok() && r.unwrap() == old(db)@.torrents.len()
                        - final(db)@.torrents.len() && final(db)@ == (TablesView {
                        torrents: without(old(db)@.torrents, with_id::<Torrent>(t.id)),
                        ..old(db)@
                    })
                } else {
                    r == Err::<usize, Error>(Error::NotAllowed) && final(db)@ == old(db)@
                },
            },
    {
        let torrent = match crate::db::find_where(&db.torrents, &crate::db::ById(self.id)) {
            Some(t) => t,
            None => return Err(Error::NoTorrent),
        };
        let subj = self.user.subject();
        if !subj.may_delete(&torrent) {
            return Err(Error::NotAllowed);
        }
        Ok(torrent.delete(db))
    }
}

} // verus!
