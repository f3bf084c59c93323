//! The change of a torrent: what it writes into the tables.

use vstd::prelude::*;
use crate::db::{
    count, delete_where, first, insert_row, meeting, position, Site, SiteView, Tables, TablesView,
    with_id, without,
};
use crate::error::Error;
use crate::handlers::upload::images_put;
use crate::handlers::UserSubjectMsg;
use crate::models::acl::{Permission, Subject, user_may};
use crate::models::category::Category;
use crate::models::torrent::{
    Blob, OfTorrent, Torrent, torrent_with_id, TorrentImage, TorrentNFO, TorrentView,
    UpdateTorrent,
};
use crate::models::{Timestamp, Uuid};
use crate::util::rand::fresh_id;

verus! {

/// Changes a torrent: its name, description and category, its
/// description file where a new one is given, and its pictures, to which
/// the given ones are added or which they replace.
#[derive(Debug)]
pub struct UpdateTorrentMsg {
    pub id: Uuid,
    pub name: String,
    pub description: String,
    pub nfo_file: Option<Vec<u8>>,
    pub category: Uuid,
    pub user: UserSubjectMsg,
    /// The pictures: for each its name and the place where it lies.
    pub image_files: Vec<(String, String)>,
    pub replace_images: bool,
}

/// The identifiers for the rows that a change writes: one for the
/// description file, and one for each picture.
#[derive(Debug)]
pub struct UpdateIds {
    pub nfo: Uuid,
    pub images: Vec<Uuid>,
}

/// The greatest place that a picture of a torrent has, if it has pictures.
pub open spec fn top_index(rows: Seq<TorrentImage>, torrent_id: Uuid) -> Option<i16>
    decreases rows.len(),
{
    if rows.len() == 0 {
        None
    } else {
        let rest = top_index(rows.drop_last(), torrent_id);
        if rows.last().torrent_id != torrent_id {
            rest
        } else {
            match rest {
                Some(m) if m >= rows.last().index => Some(m),
                _ => Some(rows.last().index),
            }
        }
    }
}

/// The pictures table after the first `n` pictures of a change are added
/// to it one by one, at the places from `start` on, and what ended it, if
/// anything did: a place beyond the greatest that there is, or a picture
/// whose identifier is taken.
pub open spec fn images_added(
    rows: Seq<TorrentImage>,
    torrent_id: Uuid,
    images: Seq<(String, String)>,
    ids: Seq<Uuid>,
    now: Timestamp,
    start: int,
    n: nat,
) -> (Seq<TorrentImage>, Option<Error>)
    decreases n,
{
    if n == 0 {
        (rows, None)
    } else {
        let before = images_added(rows, torrent_id, images, ids, now, start, (n - 1) as nat);
        if before.1.is_some() {
            before
        } else if start + n - 1 > i16::MAX {
            (before.0, Some(Error::CounterRange))
        } else if position(before.0, with_id::<TorrentImage>(ids[n - 1])) < before.0.len() {
            (before.0, Some(Error::DuplicateKey))
        } else {
            (
                before.0.push(
                    TorrentImage {
                        id: ids[n - 1],
                        torrent_id,
                        file_name: images[n - 1].0,
                        index: (start + n - 1) as i16,
                        created_at: now,
                    },
                ),
                None,
            )
        }
    }
}

/// The torrents table after the torrents with the identifier get a name,
/// a category and a description.
pub open spec fn torrents_changed(
    torrents: Seq<TorrentView>,
    id: Uuid,
    name: Seq<char>,
    category: Uuid,
    description: Seq<char>,
) -> Seq<TorrentView> {
    Seq::new(
        torrents.len(),
        |i: int|
            if torrents[i].id == id {
                TorrentView { name, category_id: category, description, ..torrents[i] }
            } else {
                torrents[i]
            },
    )
}

/// What a change comes to: its result, and the tables after it.
pub ghost struct Updated {
    pub result: Result<usize, Error>,
    pub db: TablesView,
    pub site: SiteView,
}

/// The description files after a change: those of the torrent give way to
/// the new one, where one is given; and whether the new one went in.
pub open spec fn nfo_replaced(
    rows: Seq<Blob>,
    torrent_id: Uuid,
    id: Uuid,
    data: Option<Seq<u8>>,
) -> (Seq<Blob>, bool) {
    match data {
        None => (rows, true),
        Some(d) => {
            let left = without(rows, meeting::<TorrentNFO, OfTorrent>(OfTorrent(torrent_id)));
            if position(left, with_id::<TorrentNFO>(id)) < left.len() {
                (left, false)
            } else {
                (left.push(Blob { id, torrent_id, data: d }), true)
            }
        },
    }
}

/// The pictures after a change, and what ended it, if anything did.
/// Without new pictures nothing changes. Else the pictures of the torrent
/// give way to the new ones, or the new ones take the places after the
/// greatest that a picture of the torrent has.
pub open spec fn images_changed(
    rows: Seq<TorrentImage>,
    torrent_id: Uuid,
    images: Seq<(String, String)>,
    ids: Seq<Uuid>,
    replace: bool,
    now: Timestamp,
) -> (Seq<TorrentImage>, Option<Error>) {
    if images.len() == 0 {
        (rows, None)
    } else if replace {
        let put = images_put(
            without(rows, meeting::<TorrentImage, OfTorrent>(OfTorrent(torrent_id))),
            torrent_id,
            images,
            ids,
            now,
            images.len(),
        );
        (
            put.0,
            if put.1 {
                None
            } else {
                Some(Error::DuplicateKey)
            },
        )
    } else {
        images_added(
            rows,
            torrent_id,
            images,
            ids,
            now,
            match top_index(rows, torrent_id) {
                Some(m) => m + 1,
                None => 0,
            },
            images.len(),
        )
    }
}

impl UpdateTorrentMsg {
    /// The new description file, as a mathematical value.
    pub open spec fn nfo_view(self) -> Option<Seq<u8>> {
        match self.nfo_file {
            Some(d) => Some(d@),
            None => None,
        }
    }

    /// Whether the sender may change a torrent: it may where the torrent
    /// is its own, or where the rules permit it to write torrents.
    pub open spec fn permitted(self, t: TorrentView) -> bool {
        t.user_id == Some(self.user.uid) || user_may(
            self.user.acl.acl()@,
            self.user.uid,
            self.user.gid,
            "torrent"@,
            Permission::Write,
            self.user.acl.acl().depth(),
        )
    }

    /// What the change with given identifiers comes to. Without the
    /// torrent, the permission or the category nothing is written. Then
    /// the description file is changed, then the pictures, then the
    /// torrent; what ends the change leaves what was written before it.
    /// The result is the number of torrents written.
    pub open spec fn updated(
        self,
        ids: UpdateIds,
        db: TablesView,
        site: SiteView,
        now: Timestamp,
    ) -> Updated {
        match first(db.torrents, with_id::<Torrent>(self.id)) {
            None => Updated { result: Err(Error::NoTorrent), db, site },
            Some(t) => if !self.permitted(t) {
                Updated { result: Err(Error::NotAllowed), db, site }
            } else if position(site.categories, with_id::<Category>(self.category))
                >= site.categories.len() {
                Updated { result: Err(Error::NoCategory), db, site }
            } else {
                let nfos = nfo_replaced(site.torrent_nfos, self.id, ids.nfo, self.nfo_view());
                let with_nfo = SiteView { torrent_nfos: nfos.0, ..site };
                if !nfos.1 {
                    Updated { result: Err(Error::DuplicateKey), db, site: with_nfo }
                } else {
                    let images = images_changed(
                        site.torrent_images,
                        self.id,
                        self.image_files@,
                        ids.images@,
                        self.replace_images,
                        now,
                    );
                    let with_images = SiteView { torrent_images: images.0, ..with_nfo };
                    match images.1 {
                        Some(e) => Updated { result: Err(e), db, site: with_images },
                        None => Updated {
                            result: Ok(count(db.torrents, torrent_with_id(self.id)) as usize),
                            db: TablesView {
                                torrents: torrents_changed(
                                    db.torrents,
                                    self.id,
                                    self.name@,
                                    self.category,
                                    self.description@,
                                ),
                                ..db
                            },
                            site: with_images,
                        },
                    }
                }
            },
        }
    }
}

/// The greatest place that a picture of a torrent has: see
/// [`top_index`].
fn greatest_index(images: &Vec<TorrentImage>, torrent_id: Uuid) -> (r: Option<i16>)
    ensures
        r == top_index(images@, torrent_id),
{
    let mut top: Option<i16> = None;
    let mut i: usize = 0;
    proof {
        assert(images@.take(0) =~= Seq::empty());
    }
    while i < images.len()
        invariant
            i <= images.len(),
            top == top_index(images@.take(i as int), torrent_id),
        decreases images.len() - i,
    {
        proof {
            assert(images@.take(i + 1).drop_last() =~= images@.take(i as int));
            assert(images@.take(i + 1).last() == images@[i as int]);
        }
        if images[i].torrent_id == torrent_id {
            let here = images[i].index;
            top = match top {
                Some(m) => if m >= here {
                    Some(m)
                } else {
                    Some(here)
                },
                None => Some(here),
            };
        }
        i += 1;
    }
    proof {
        assert(images@.take(images.len() as int) =~= images@);
    }
    top
}

/// Once something ends the adding of pictures, it stays so.
proof fn lemma_images_added_ends(
    rows: Seq<TorrentImage>,
    torrent_id: Uuid,
    images: Seq<(String, String)>,
    ids: Seq<Uuid>,
    now: Timestamp,
    start: int,
    n: nat,
    m: nat,
)
    requires
        n <= m,
        images_added(rows, torrent_id, images, ids, now, start, n).1.is_some(),
    ensures
        images_added(rows, torrent_id, images, ids, now, start, m) == images_added(
            rows,
            torrent_id,
            images,
            ids,
            now,
            start,
            n,
        ),
    decreases m,
{
    if n < m {
        lemma_images_added_ends(rows, torrent_id, images, ids, now, start, n, (m - 1) as nat);
    }
}

/// Adds pictures to their table, at the places from `start` on: see
/// [`images_added`].
fn add_images(
    images: &Vec<(String, String)>,
    id: Uuid,
    ids: &Vec<Uuid>,
    site: &mut Site,
    now: Timestamp,
    start: i32,
) -> (r: Option<Error>)
    requires
        ids@.len() == images@.len(),
        i16::MIN < start <= i16::MAX + 1,
    ensures
        (final(site)@.torrent_images, r) == images_added(
            old(site)@.torrent_images,
            id,
            images@,
            ids@,
            now,
            start as int,
            images@.len(),
        ),
        final(site)@ == (SiteView { torrent_images: final(site)@.torrent_images, ..old(site)@ }),
{
    let mut i: usize = 0;
    while i < images.len()
        invariant
            i <= images.len(),
            ids@.len() == images@.len(),
            i16::MIN < start <= i16::MAX + 1,
            (site@.torrent_images, None::<Error>) == images_added(
                old(site)@.torrent_images,
                id,
                images@,
                ids@,
                now,
                start as int,
                i as nat,
            ),
            site@ == (SiteView { torrent_images: site@.torrent_images, ..old(site)@ }),
        decreases images.len() - i,
    {
        if i > 0xffff || start + i as i32 > 0x7fff {
            proof {
                lemma_images_added_ends(
                    old(site)@.torrent_images,
                    id,
                    images@,
                    ids@,
                    now,
                    start as int,
                    (i + 1) as nat,
                    images@.len(),
                );
            }
            return Some(Error::CounterRange);
        }
        let row = TorrentImage {
            id: ids[i],
            torrent_id: id,
            file_name: images[i].0.clone(),
            index: (start + i as i32) as i16,
            created_at: now,
        };
        if insert_row(&mut site.torrent_images, &row).is_err() {
            proof {
                lemma_images_added_ends(
                    old(site)@.torrent_images,
                    id,
                    images@,
                    ids@,
                    now,
                    start as int,
                    (i + 1) as nat,
                    images@.len(),
                );
            }
            return Some(Error::DuplicateKey);
        }
        i += 1;
    }
    None
}

/// What a call has come to.
pub open spec fn outcome(r: Result<usize, Error>, db: TablesView, site: SiteView) -> Updated {
    Updated { result: r, db, site }
}

impl UpdateTorrentMsg {
    /// A change of a torrent by a user, which so far changes nothing but
    /// gives the torrent an empty name and description and the category
    /// zero.
    pub fn new(id: Uuid, user: UserSubjectMsg) -> (r: Self)
        ensures
            r.id == id,
            r.user == user,
            r.name@.len() == 0,
            r.description@.len() == 0,
            r.nfo_file.is_none(),
            r.category == 0,
            r.image_files@.len() == 0,
            !r.replace_images,
    {
        UpdateTorrentMsg {
            id,
            name: String::new(),
            description: String::new(),
            nfo_file: None,
            category: 0,
            user,
            image_files: Vec::new(),
            replace_images: false,
        }
    }

    /// Changes the description file: see [`nfo_replaced`].
    fn replace_nfo(&self, id: Uuid, site: &mut Site) -> (r: bool)
        ensures
            (final(site)@.torrent_nfos, r) == nfo_replaced(
                old(site)@.torrent_nfos,
                self.id,
                id,
                self.nfo_view(),
            ),
            final(site)@ == (SiteView { torrent_nfos: final(site)@.torrent_nfos, ..old(site)@ }),
    {
        match &self.nfo_file {
            None => true,
            Some(data) => {
                let _ = delete_where(&mut site.torrent_nfos, &OfTorrent(self.id));
                let nfo = TorrentNFO {
                    id,
                    torrent_id: self.id,
                    data: crate::util::copy_bytes(data.as_slice()),
                };
                insert_row(&mut site.torrent_nfos, &nfo).is_ok()
            },
        }
    }

    /// Changes the pictures: see [`images_changed`].
    fn change_images(&self, ids: &Vec<Uuid>, site: &mut Site, now: Timestamp) -> (r: Option<Error>)
        requires
            ids@.len() == self.image_files@.len(),
        ensures
            (final(site)@.torrent_images, r) == images_changed(
                old(site)@.torrent_images,
                self.id,
                self.image_files@,
                ids@,
                self.replace_images,
                now,
            ),
            final(site)@ == (SiteView {
                torrent_images: final(site)@.torrent_images,
                ..old(site)@
            }),
    {
        if self.image_files.len() == 0 {
            None
        } else if self.replace_images {
            let _ = delete_where(&mut site.torrent_images, &OfTorrent(self.id));
            if crate::handlers::upload::put_images(&self.image_files, self.id, ids, site, now) {
                None
            } else {
                Some(Error::DuplicateKey)
            }
        } else {
            proof {
                assert(crate::db::rows(site.torrent_images@) =~= site.torrent_images@);
            }
            let start: i32 = match greatest_index(&site.torrent_images, self.id) {
                Some(m) => m as i32 + 1,
                None => 0,
            };
            add_images(&self.image_files, self.id, ids, site, now, start)
        }
    }

    /// Makes the change with given identifiers, one for each picture: see
    /// [`Self::updated`]. The pictures themselves are not touched.
    pub fn handle_with(&self, ids: &UpdateIds, db: &mut Tables, site: &mut Site, now: Timestamp) -> (r:
        Result<usize, Error>)
        requires
            ids.images@.len() == self.image_files@.len(),
        ensures
            outcome(r, final(db)@, final(site)@) == self.updated(*ids, old(db)@, old(site)@, now),
    {
        let torrent = match crate::db::find_where(&db.torrents, &crate::db::ById(self.id)) {
            Some(t) => t,
            None => return Err(Error::NoTorrent),
        };
        let subj = self.user.subject();
        if !subj.may_write(&torrent) {
            return Err(Error::NotAllowed);
        }
        if Category::find(&self.category, site).is_none() {
            return Err(Error::NoCategory);
        }
        if !self.replace_nfo(ids.nfo, site) {
            return Err(Error::DuplicateKey);
        }
        match self.change_images(&ids.images, site, now) {
            Some(e) => return Err(e),
            None => {},
        }
        let change = UpdateTorrent::new(
            self.name.as_str(),
            &self.category,
            self.description.as_str(),
        );
        let n = change.update(&self.id, db);
        proof {
            assert(db@.torrents =~= torrents_changed(
                old(db)@.torrents,
                self.id,
                self.name@,
                self.category,
                self.description@,
            ));
            crate::db::lemma_those(old(db)@.torrents, torrent_with_id(self.id));
        }
        Ok(n)
    }

    /// Makes the change, with identifiers made for its rows: there are
    /// identifiers with which it comes to what [`Self::updated`] says.
    pub fn handle(&self, db: &mut Tables, site: &mut Site, now: Timestamp) -> (r: Result<
        usize,
        Error,
    >)
        ensures
            exists|ids: UpdateIds|
                ids.images@.len() == self.image_files@.len() && outcome(
                    r,
                    final(db)@,
                    final(site)@,
                ) == #[trigger] self.updated(ids, old(db)@, old(site)@, now),
    {
        let ids = UpdateIds {
            nfo: fresh_id(),
            images: crate::handlers::upload::fresh_ids(self.image_files.len()),
        };
        self.handle_with(&ids, db, site, now)
    }
}

} // verus!
