//! The upload of a torrent: what it writes into the tables.

use vstd::prelude::*;
use crate::db::{insert_row, position, Site, SiteView, Tables, TablesView, with_id, without};
use crate::error::Error;
use crate::handlers::torrent::{NewFile, NewTorrentMsg};
use crate::models::category::Category;
use crate::models::torrent::{
    Blob, Torrent, TorrentFile, TorrentImage, TorrentMetaFile, TorrentNFO, TorrentView,
};
use crate::models::{Timestamp, Uuid};
use crate::util::rand::fresh_id;

verus! {

/// The identifiers for the rows that an upload writes: one for the
/// torrent, which is that of its metainfo file too, one for the
/// description file, and one for each file and each picture.
#[derive(Debug)]
pub struct UploadIds {
    pub torrent: Uuid,
    pub nfo: Uuid,
    pub files: Vec<Uuid>,
    pub images: Vec<Uuid>,
}

/// The files table after the first `n` files of an upload are put into it
/// one by one, and whether all of them went in: the first file whose
/// identifier is taken ends it.
pub open spec fn files_put(
    rows: Seq<TorrentFile>,
    torrent_id: Uuid,
    files: Seq<NewFile>,
    ids: Seq<Uuid>,
    n: nat,
) -> (Seq<TorrentFile>, bool)
    decreases n,
{
    if n == 0 {
        (rows, true)
    } else {
        let before = files_put(rows, torrent_id, files, ids, (n - 1) as nat);
        if !before.1 || position(before.0, with_id::<TorrentFile>(ids[n - 1])) < before.0.len() {
            (before.0, false)
        } else {
            (
                before.0.push(
                    TorrentFile {
                        id: ids[n - 1],
                        torrent_id,
                        file_name: files[n - 1].file_name,
                        size: files[n - 1].size,
                    },
                ),
                true,
            )
        }
    }
}

/// The pictures table after the first `n` pictures of an upload are put
/// into it one by one, each at the place that it has among them, and
/// whether all of them went in: the first picture whose identifier is
/// taken ends it.
pub open spec fn images_put(
    rows: Seq<TorrentImage>,
    torrent_id: Uuid,
    images: Seq<(String, String)>,
    ids: Seq<Uuid>,
    now: Timestamp,
    n: nat,
) -> (Seq<TorrentImage>, bool)
    decreases n,
{
    if n == 0 {
        (rows, true)
    } else {
        let before = images_put(rows, torrent_id, images, ids, now, (n - 1) as nat);
        if !before.1 || position(before.0, with_id::<TorrentImage>(ids[n - 1])) < before.0.len() {
            (before.0, false)
        } else {
            (
                before.0.push(
                    TorrentImage {
                        id: ids[n - 1],
                        torrent_id,
                        file_name: images[n - 1].0,
                        index: ((n - 1) as usize) as i16,
                        created_at: now,
                    },
                ),
                true,
            )
        }
    }
}

/// What an upload comes to: its result, and the tables after it.
pub ghost struct Uploaded {
    pub result: Result<TorrentView, Error>,
    pub db: TablesView,
    pub site: SiteView,
}

/// The torrent that an upload makes.
pub open spec fn torrent_of(msg: NewTorrentMsg, id: Uuid, now: Timestamp) -> TorrentView {
    TorrentView {
        id,
        name: msg.name@,
        info_hash: msg.info_hash@,
        category_id: msg.category,
        user_id: Some(msg.user),
        description: msg.description@,
        size: msg.size,
        visible: false,
        completed: 0,
        last_action: None,
        last_seeder: None,
        created_at: now,
        updated_at: now,
    }
}

/// What an upload with given identifiers comes to. Without its category
/// nothing is written. Then the torrent is written, its metainfo file, its
/// files, its description file and its pictures, in this order and each
/// unless a row has its identifier: the first that does ends the upload
/// with what was written before it, and from the files on the torrent
/// itself is deleted again.
pub open spec fn uploaded(
    msg: NewTorrentMsg,
    ids: UploadIds,
    db: TablesView,
    site: SiteView,
    now: Timestamp,
) -> Uploaded {
    let t = torrent_of(msg, ids.torrent, now);
    let made = TablesView { torrents: db.torrents.push(t), ..db };
    let undone = TablesView {
        torrents: without(made.torrents, with_id::<Torrent>(ids.torrent)),
        ..db
    };
    let failed = Err::<TorrentView, Error>(Error::DuplicateKey);
    if position(site.categories, with_id::<Category>(msg.category)) >= site.categories.len() {
        Uploaded { result: Err(Error::NoCategory), db, site }
    } else if position(db.torrents, with_id::<Torrent>(ids.torrent)) < db.torrents.len() {
        Uploaded { result: failed, db, site }
    } else if position(site.torrent_meta_files, with_id::<TorrentMetaFile>(ids.torrent))
        < site.torrent_meta_files.len() {
        Uploaded { result: failed, db: made, site }
    } else {
        let files = files_put(
            site.torrent_files,
            ids.torrent,
            msg.files@,
            ids.files@,
            msg.files@.len(),
        );
        let with_files = SiteView {
            torrent_meta_files: site.torrent_meta_files.push(
                Blob { id: ids.torrent, torrent_id: ids.torrent, data: msg.meta_file@ },
            ),
            torrent_files: files.0,
            ..site
        };
        if !files.1 || position(site.torrent_nfos, with_id::<TorrentNFO>(ids.nfo))
            < site.torrent_nfos.len() {
            Uploaded { result: failed, db: undone, site: with_files }
        } else {
            let images = images_put(
                site.torrent_images,
                ids.torrent,
                msg.image_files@,
                ids.images@,
                now,
                msg.image_files@.len(),
            );
            let with_all = SiteView {
                torrent_nfos: site.torrent_nfos.push(
                    Blob { id: ids.nfo, torrent_id: ids.torrent, data: msg.nfo_file@ },
                ),
                torrent_images: images.0,
                ..with_files
            };
            if images.1 {
                Uploaded { result: Ok(t), db: made, site: with_all }
            } else {
                Uploaded { result: failed, db: undone, site: with_all }
            }
        }
    }
}

/// What a call has come to.
pub open spec fn outcome(r: Result<Torrent, Error>, db: TablesView, site: SiteView) -> Uploaded {
    Uploaded {
        result: match r {
            Ok(t) => Ok(t@),
            Err(e) => Err(e),
        },
        db,
        site,
    }
}

impl NewTorrentMsg {
    /// Puts the files of the upload into their table: see [`files_put`].
    fn insert_files(&self, id: Uuid, ids: &Vec<Uuid>, site: &mut Site) -> (r: bool)
        requires
            ids@.len() == self.files@.len(),
        ensures
            (final(site)@.torrent_files, r) == files_put(
                old(site)@.torrent_files,
                id,
                self.files@,
                ids@,
                self.files@.len(),
            ),
            final(site)@ == (SiteView { torrent_files: final(site)@.torrent_files, ..old(site)@ }),
    {
        let mut i: usize = 0;
        while i < self.files.len()
            invariant
                i <= self.files.len(),
                ids@.len() == self.files@.len(),
                (site@.torrent_files, true) == files_put(
                    old(site)@.torrent_files,
                    id,
                    self.files@,
                    ids@,
                    i as nat,
                ),
                site@ == (SiteView { torrent_files: site@.torrent_files, ..old(site)@ }),
            decreases self.files.len() - i,
        {
            let row = TorrentFile {
                id: ids[i],
                torrent_id: id,
                file_name: self.files[i].file_name.clone(),
                size: self.files[i].size,
            };
            if insert_row(&mut site.torrent_files, &row).is_err() {
                proof {
                    lemma_files_put_ends(
                        old(site)@.torrent_files,
                        id,
                        self.files@,
                        ids@,
                        (i + 1) as nat,
                        self.files@.len(),
                    );
                }
                return false;
            }
            i += 1;
        }
        true
    }

    /// Writes the upload with given identifiers, one for each file and
    /// each picture: see [`uploaded`]. The pictures themselves are not
    /// touched.
    pub fn handle_with(&self, ids: &UploadIds, db: &mut Tables, site: &mut Site, now: Timestamp) -> (r:
        Result<Torrent, Error>)
        requires
            ids.files@.len() == self.files@.len(),
            ids.images@.len() == self.image_files@.len(),
        ensures
            outcome(r, final(db)@, final(site)@) == uploaded(
                *self,
                *ids,
                old(db)@,
                old(site)@,
                now,
            ),
    {
        if Category::find(&self.category, site).is_none() {
            return Err(Error::NoCategory);
        }
        let torrent = Torrent {
            id: ids.torrent,
            name: self.name.clone(),
            info_hash: crate::util::copy_bytes(self.info_hash.as_slice()),
            category_id: self.category,
            user_id: Some(self.user),
            description: self.description.clone(),
            size: self.size,
            visible: false,
            completed: 0,
            last_action: None,
            last_seeder: None,
            created_at: now,
            updated_at: now,
        };
        if insert_row(&mut db.torrents, &torrent).is_err() {
            return Err(Error::DuplicateKey);
        }
        let meta = TorrentMetaFile {
            id: ids.torrent,
            data: crate::util::copy_bytes(self.meta_file.as_slice()),
        };
        if insert_row(&mut site.torrent_meta_files, &meta).is_err() {
            return Err(Error::DuplicateKey);
        }
        if !self.insert_files(ids.torrent, &ids.files, site) {
            let _ = torrent.delete(db);
            return Err(Error::DuplicateKey);
        }
        let nfo = TorrentNFO {
            id: ids.nfo,
            torrent_id: ids.torrent,
            data: crate::util::copy_bytes(self.nfo_file.as_slice()),
        };
        if insert_row(&mut site.torrent_nfos, &nfo).is_err() {
            let _ = torrent.delete(db);
            return Err(Error::DuplicateKey);
        }
        if !put_images(&self.image_files, ids.torrent, &ids.images, site, now) {
            let _ = torrent.delete(db);
            return Err(Error::DuplicateKey);
        }
        Ok(torrent)
    }

    /// Writes the upload, with identifiers made for its rows: there are
    /// identifiers with which it comes to what [`uploaded`] says.
    pub fn handle(&self, db: &mut Tables, site: &mut Site, now: Timestamp) -> (r: Result<
        Torrent,
        Error,
    >)
        ensures
            exists|ids: UploadIds|
                ids.files@.len() == self.files@.len() && ids.images@.len()
                    == self.image_files@.len() && outcome(r, final(db)@, final(site)@)
                    == #[trigger] uploaded(*self, ids, old(db)@, old(site)@, now),
    {
        let ids = UploadIds {
            torrent: fresh_id(),
            nfo: fresh_id(),
            files: fresh_ids(self.files.len()),
            images: fresh_ids(self.image_files.len()),
        };
        self.handle_with(&ids, db, site, now)
    }
}

/// Puts pictures into their table: see [`images_put`].
pub(crate) fn put_images(
    images: &Vec<(String, String)>,
    id: Uuid,
    ids: &Vec<Uuid>,
    site: &mut Site,
    now: Timestamp,
) -> (r: bool)
    requires
        ids@.len() == images@.len(),
    ensures
        (final(site)@.torrent_images, r) == images_put(
            old(site)@.torrent_images,
            id,
            images@,
            ids@,
            now,
            images@.len(),
        ),
        final(site)@ == (SiteView { torrent_images: final(site)@.torrent_images, ..old(site)@ }),
{
    let mut i: usize = 0;
    while i < images.len()
        invariant
            i <= images.len(),
            ids@.len() == images@.len(),
            (site@.torrent_images, true) == images_put(
                old(site)@.torrent_images,
                id,
                images@,
                ids@,
                now,
                i as nat,
            ),
            site@ == (SiteView { torrent_images: site@.torrent_images, ..old(site)@ }),
        decreases images.len() - i,
    {
        #[verifier::truncate]
        let index = i as i16;
        let row = TorrentImage {
            id: ids[i],
            torrent_id: id,
            file_name: images[i].0.clone(),
            index,
            created_at: now,
        };
        if insert_row(&mut site.torrent_images, &row).is_err() {
            proof {
                lemma_images_put_ends(
                    old(site)@.torrent_images,
                    id,
                    images@,
                    ids@,
                    now,
                    (i + 1) as nat,
                    images@.len(),
                );
            }
            return false;
        }
        i += 1;
    }
    true
}

/// Makes `n` identifiers.
pub(crate) fn fresh_ids(n: usize) -> (r: Vec<Uuid>)
    ensures
        r@.len() == n,
{
    let mut out: Vec<Uuid> = Vec::new();
    let mut i: usize = 0;
    while i < n
        invariant
            i <= n,
            out@.len() == i,
        decreases n - i,
    {
        out.push(fresh_id());
        i += 1;
    }
    out
}

/// Once a file does not go in, none after it does.
proof fn lemma_files_put_ends(
    rows: Seq<TorrentFile>,
    torrent_id: Uuid,
    files: Seq<NewFile>,
    ids: Seq<Uuid>,
    n: nat,
    m: nat,
)
    requires
        n <= m,
        !files_put(rows, torrent_id, files, ids, n).1,
    ensures
        files_put(rows, torrent_id, files, ids, m) == files_put(rows, torrent_id, files, ids, n),
    decreases m,
{
    if n < m {
        lemma_files_put_ends(rows, torrent_id, files, ids, n, (m - 1) as nat);
    }
}

/// Once a picture does not go in, none after it does.
proof fn lemma_images_put_ends(
    rows: Seq<TorrentImage>,
    torrent_id: Uuid,
    images: Seq<(String, String)>,
    ids: Seq<Uuid>,
    now: Timestamp,
    n: nat,
    m: nat,
)
    requires
        n <= m,
        !images_put(rows, torrent_id, images, ids, now, n).1,
    ensures
        images_put(rows, torrent_id, images, ids, now, m) == images_put(
            rows,
            torrent_id,
            images,
            ids,
            now,
            n,
        ),
    decreases m,
{
    if n < m {
        lemma_images_put_ends(rows, torrent_id, images, ids, now, n, (m - 1) as nat);
    }
}

} // verus!
