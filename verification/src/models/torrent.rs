//! Torrents and what belongs to them: transfers, files, comments.

use vstd::prelude::*;
use crate::db::{sort_rows, sorted, Ordered};
use crate::util::bytes::{lemma_lex_total, lemma_lex_transitive};
use crate::util::{text_le, text_not_after};
use crate::db::{
    ById, capped, count, Criterion, Dated, find_where, first, in_order, insert_row, Keyed,
    lemma_position_is, meeting, order_rows, position, Row, rows, select_where, Site, SiteView,
    Tables, TablesView, those, with_id, without,
};
use crate::error::Error;
use crate::models::{Bytes, Timestamp, Uuid};
use crate::models::peer::{Peer, peer_in, PeerView};
use crate::models::user::HasUser;
use crate::util::{bytes_eq, copy_bytes};
use crate::util::rand::fresh_id;

verus! {

/// A torrent. It stays hidden from listings until a client has announced
/// for it; `completed` counts the downloads that were finished.
#[derive(Debug)]
pub struct Torrent {
    pub id: Uuid,
    pub name: String,
    pub info_hash: Bytes,
    pub category_id: Uuid,
    pub user_id: Option<Uuid>,
    pub description: String,
    pub size: i64,
    pub visible: bool,
    pub completed: i32,
    pub last_action: Option<Timestamp>,
    pub last_seeder: Option<Timestamp>,
    pub created_at: Timestamp,
    pub updated_at: Timestamp,
}

/// A torrent as a mathematical value.
pub ghost struct TorrentView {
    pub id: Uuid,
    pub name: Seq<char>,
    pub info_hash: Seq<u8>,
    pub category_id: Uuid,
    pub user_id: Option<Uuid>,
    pub description: Seq<char>,
    pub size: i64,
    pub visible: bool,
    pub completed: i32,
    pub last_action: Option<Timestamp>,
    pub last_seeder: Option<Timestamp>,
    pub created_at: Timestamp,
    pub updated_at: Timestamp,
}

impl View for Torrent {
    type V = TorrentView;

    open spec fn view(&self) -> TorrentView {
        TorrentView {
            id: self.id,
            name: self.name@,
            info_hash: self.info_hash@,
            category_id: self.category_id,
            user_id: self.user_id,
            description: self.description@,
            size: self.size,
            visible: self.visible,
            completed: self.completed,
            last_action: self.last_action,
            last_seeder: self.last_seeder,
            created_at: self.created_at,
            updated_at: self.updated_at,
        }
    }
}

impl Clone for Torrent {
    fn clone(&self) -> (r: Self)
        ensures
            r@ == self@,
    {
        Torrent {
            id: self.id,
            name: self.name.clone(),
            info_hash: copy_bytes(self.info_hash.as_slice()),
            category_id: self.category_id,
            user_id: self.user_id,
            description: self.description.clone(),
            size: self.size,
            visible: self.visible,
            completed: self.completed,
            last_action: self.last_action,
            last_seeder: self.last_seeder,
            created_at: self.created_at,
            updated_at: self.updated_at,
        }
    }
}

/// The lifetime account of one user on one torrent, whichever client
/// reported the traffic.
#[derive(Debug, Clone, Copy, PartialEq, Eq, Structural)]
pub struct Transfer {
    pub id: Uuid,
    pub user_id: Uuid,
    pub torrent_id: Uuid,
    pub bytes_uploaded: i64,
    pub bytes_downloaded: i64,
    pub time_seeded: i32,
    pub created_at: Timestamp,
    pub updated_at: Timestamp,
    pub completed_at: Option<Timestamp>,
}

/// Holds of the torrent with the identifier.
pub open spec fn torrent_with_id(id: Uuid) -> spec_fn(TorrentView) -> bool {
    |t: TorrentView| t.id == id
}

/// Holds of the torrent with the info hash.
pub open spec fn torrent_with_hash(info_hash: Seq<u8>) -> spec_fn(TorrentView) -> bool {
    |t: TorrentView| t.info_hash == info_hash
}

/// Holds of the transfer with the identifier.
pub open spec fn transfer_with_id(id: Uuid) -> spec_fn(Transfer) -> bool {
    |t: Transfer| t.id == id
}

/// Holds of the transfer of a user on a torrent.
pub open spec fn transfer_of(user_id: Uuid, torrent_id: Uuid) -> spec_fn(Transfer) -> bool {
    |t: Transfer| t.user_id == user_id && t.torrent_id == torrent_id
}

/// The torrents table after a torrent is saved: every row with its
/// identifier takes its values.
pub open spec fn saved_torrent(torrents: Seq<TorrentView>, t: TorrentView) -> Seq<TorrentView> {
    Seq::new(torrents.len(), |i: int| if torrents[i].id == t.id { t } else { torrents[i] })
}

/// The transfers table after a transfer is saved: the row of its user on
/// its torrent takes its values and keeps its identifier; where there is no
/// such row the transfer becomes the last row, unless a row has its
/// identifier already.
pub open spec fn saved_transfer(transfers: Seq<Transfer>, t: Transfer) -> Result<
    Seq<Transfer>,
    Error,
> {
    let i = position(transfers, transfer_of(t.user_id, t.torrent_id));
    if i < transfers.len() {
        Ok(transfers.update(i, Transfer { id: transfers[i].id, ..t }))
    } else if position(transfers, transfer_with_id(t.id)) < transfers.len() {
        Err(Error::DuplicateKey)
    } else {
        Ok(transfers.push(t))
    }
}

/// Seeders and leechers of a torrent, or zeros where there is no such
/// torrent.
pub open spec fn peer_counts(db: TablesView, torrent_id: Uuid) -> (i64, i64) {
    if position(db.torrents, torrent_with_id(torrent_id)) < db.torrents.len() {
        (
            capped(count(db.peers, peer_in(torrent_id, true))),
            capped(count(db.peers, peer_in(torrent_id, false))),
        )
    } else {
        (0, 0)
    }
}

/// Seeders, leechers and finished downloads of the torrent with the info
/// hash, or zeros where there is no such torrent.
pub open spec fn scrape_counts(db: TablesView, info_hash: Seq<u8>) -> (i64, i64, i32) {
    match first(db.torrents, torrent_with_hash(info_hash)) {
        Some(t) => (
            capped(count(db.peers, peer_in(t.id, true))),
            capped(count(db.peers, peer_in(t.id, false))),
            t.completed,
        ),
        None => (0, 0, 0),
    }
}

fn torrent_index_by_id(torrents: &Vec<Torrent>, id: Uuid) -> (r: usize)
    ensures
        r == position(rows(torrents@), torrent_with_id(id)),
        r <= torrents.len(),
{
    let ghost f = torrent_with_id(id);
    let mut i: usize = 0;
    while i < torrents.len()
        invariant
            i <= torrents.len(),
            f == torrent_with_id(id),
            forall|j: int| 0 <= j < i ==> !f(#[trigger] rows(torrents@)[j]),
        decreases torrents.len() - i,
    {
        if torrents[i].id == id {
            proof {
                lemma_position_is(rows(torrents@), f, i as int);
            }
            return i;
        }
        i += 1;
    }
    proof {
        lemma_position_is(rows(torrents@), f, i as int);
    }
    i
}

fn torrent_index_by_hash(torrents: &Vec<Torrent>, info_hash: &[u8]) -> (r: usize)
    ensures
        r == position(rows(torrents@), torrent_with_hash(info_hash@)),
        r <= torrents.len(),
{
    let ghost f = torrent_with_hash(info_hash@);
    let mut i: usize = 0;
    while i < torrents.len()
        invariant
            i <= torrents.len(),
            f == torrent_with_hash(info_hash@),
            forall|j: int| 0 <= j < i ==> !f(#[trigger] rows(torrents@)[j]),
        decreases torrents.len() - i,
    {
        if bytes_eq(torrents[i].info_hash.as_slice(), info_hash) {
            proof {
                lemma_position_is(rows(torrents@), f, i as int);
            }
            return i;
        }
        i += 1;
    }
    proof {
        lemma_position_is(rows(torrents@), f, i as int);
    }
    i
}

/// Counts the seeders of a torrent, or its leechers.
fn count_peers(peers: &Vec<Peer>, torrent_id: Uuid, seeder: bool) -> (r: i64)
    ensures
        r == capped(count(rows(peers@), peer_in(torrent_id, seeder))),
{
    let ghost f = peer_in(torrent_id, seeder);
    let ghost all = rows(peers@);
    let mut n: i64 = 0;
    let mut i: usize = 0;
    proof {
        assert(all.take(0) =~= Seq::empty());
    }
    while i < peers.len()
        invariant
            i <= peers.len(),
            f == peer_in(torrent_id, seeder),
            all == rows(peers@),
            n == capped(count(all.take(i as int), f)),
        decreases peers.len() - i,
    {
        proof {
            assert(all.take(i + 1).drop_last() =~= all.take(i as int));
            assert(all.take(i + 1).last() == peers@[i as int]@);
        }
        if peers[i].torrent_id == torrent_id && peers[i].seeder == seeder {
            if n < i64::MAX {
                n += 1;
            }
        }
        i += 1;
    }
    proof {
        assert(all.take(peers.len() as int) =~= all);
    }
    n
}

impl Torrent {
    /// Finds a torrent by its identifier.
    pub fn find(id: &Uuid, db: &Tables) -> (r: Option<Torrent>)
        ensures
            match r {
                Some(t) => first(db@.torrents, torrent_with_id(*id)) == Some(t@),
                None => first(db@.torrents, torrent_with_id(*id)).is_none(),
            },
    {
        let i = torrent_index_by_id(&db.torrents, *id);
        if i < db.torrents.len() {
            Some(db.torrents[i].clone())
        } else {
            None
        }
    }

    /// Finds a torrent by its info hash.
    pub fn find_by_info_hash(info_hash: &[u8], db: &Tables) -> (r: Option<Torrent>)
        ensures
            match r {
                Some(t) => first(db@.torrents, torrent_with_hash(info_hash@)) == Some(t@),
                None => first(db@.torrents, torrent_with_hash(info_hash@)).is_none(),
            },
    {
        let i = torrent_index_by_hash(&db.torrents, info_hash);
        if i < db.torrents.len() {
            Some(db.torrents[i].clone())
        } else {
            None
        }
    }

    /// Saves the torrent: see [`saved_torrent`]. The result is the number
    /// of rows written.
    pub fn save(&self, db: &mut Tables) -> (r: usize)
        ensures
            final(db)@ == (TablesView {
                torrents: saved_torrent(old(db)@.torrents, self@),
                ..old(db)@
            }),
            r == count(old(db)@.torrents, torrent_with_id(self.id)),
    {
        write_torrent(&mut db.torrents, self)
    }
}

fn write_torrent(torrents: &mut Vec<Torrent>, t: &Torrent) -> (r: usize)
    ensures
        rows(final(torrents)@) == saved_torrent(rows(old(torrents)@), t@),
        r == count(rows(old(torrents)@), torrent_with_id(t.id)),
{
    let ghost f = torrent_with_id(t.id);
    let ghost before = rows(torrents@);
    let mut n: usize = 0;
    let mut i: usize = 0;
    proof {
        assert(before.take(0) =~= Seq::empty());
    }
    while i < torrents.len()
        invariant
            i <= torrents.len(),
            f == torrent_with_id(t.id),
            before == rows(old(torrents)@),
            torrents.len() == before.len(),
            n == count(before.take(i as int), f),
            n <= i,
            forall|j: int|
                0 <= j < i ==> #[trigger] rows(torrents@)[j] == saved_torrent(before, t@)[j],
            forall|j: int| i <= j < before.len() ==> #[trigger] rows(torrents@)[j] == before[j],
        decreases torrents.len() - i,
    {
        proof {
            assert(before.take(i + 1).drop_last() =~= before.take(i as int));
            assert(before.take(i + 1).last() == before[i as int]);
            assert(rows(torrents@)[i as int] == before[i as int]);
        }
        if torrents[i].id == t.id {
            let ghost cur = rows(torrents@);
            torrents[i] = t.clone();
            assert(rows(torrents@) =~= cur.update(i as int, t@));
            n += 1;
        }
        i += 1;
    }
    proof {
        assert(before.take(before.len() as int) =~= before);
        assert(rows(torrents@) =~= saved_torrent(before, t@));
    }
    n
}

impl Transfer {
    /// Finds the transfer of a user on a torrent.
    pub fn find_for_announce(torrent_id: &Uuid, user_id: &Uuid, db: &Tables) -> (r: Option<
        Transfer,
    >)
        ensures
            r == first(db@.transfers, transfer_of(*user_id, *torrent_id)),
    {
        let i = transfer_index(&db.transfers, *user_id, *torrent_id);
        if i < db.transfers.len() {
            Some(db.transfers[i])
        } else {
            None
        }
    }

    /// Saves the transfer: see [`saved_transfer`]. The result is the number
    /// of rows written.
    pub fn save(&self, db: &mut Tables) -> (r: Result<usize, Error>)
        ensures
            match saved_transfer(old(db)@.transfers, *self) {
                Ok(transfers) => r == Ok::<usize, Error>(1) && final(db)@ == (TablesView {
                    transfers,
                    ..old(db)@
                }),
                Err(e) => r == Err::<usize, Error>(e) && final(db)@ == old(db)@,
            },
    {
        let i = transfer_index(&db.transfers, self.user_id, self.torrent_id);
        if i < db.transfers.len() {
            let mut row = *self;
            row.id = db.transfers[i].id;
            db.transfers[i] = row;
            Ok(1)
        } else if transfer_index_by_id(&db.transfers, self.id) < db.transfers.len() {
            Err(Error::DuplicateKey)
        } else {
            db.transfers.push(*self);
            Ok(1)
        }
    }

    /// The account that a user's first announce on a torrent opens: the
    /// peer's counters, no time seeded, finished at `now` if the peer seeds.
    pub open spec fn opened(peer: PeerView, id: Uuid, now: Timestamp) -> Transfer {
        Transfer {
            id,
            user_id: peer.user_id,
            torrent_id: peer.torrent_id,
            bytes_uploaded: peer.bytes_uploaded,
            bytes_downloaded: peer.bytes_downloaded,
            time_seeded: 0,
            created_at: now,
            updated_at: now,
            completed_at: if peer.seeder {
                Some(now)
            } else {
                None
            },
        }
    }

    /// Opens the account of a peer's user on its torrent.
    pub fn from(peer: &Peer, id: Uuid, now: Timestamp) -> (r: Transfer)
        ensures
            r == Self::opened(peer@, id, now),
    {
        Transfer {
            id,
            user_id: peer.user_id,
            torrent_id: peer.torrent_id,
            bytes_uploaded: peer.bytes_uploaded,
            bytes_downloaded: peer.bytes_downloaded,
            time_seeded: 0,
            created_at: now,
            updated_at: now,
            completed_at: if peer.seeder {
                Some(now)
            } else {
                None
            },
        }
    }
}

fn transfer_index(transfers: &Vec<Transfer>, user_id: Uuid, torrent_id: Uuid) -> (r: usize)
    ensures
        r == position(transfers@, transfer_of(user_id, torrent_id)),
        r <= transfers.len(),
{
    let ghost f = transfer_of(user_id, torrent_id);
    let mut i: usize = 0;
    while i < transfers.len()
        invariant
            i <= transfers.len(),
            f == transfer_of(user_id, torrent_id),
            forall|j: int| 0 <= j < i ==> !f(#[trigger] transfers@[j]),
        decreases transfers.len() - i,
    {
        if transfers[i].user_id == user_id && transfers[i].torrent_id == torrent_id {
            proof {
                lemma_position_is(transfers@, f, i as int);
            }
            return i;
        }
        i += 1;
    }
    proof {
        lemma_position_is(transfers@, f, i as int);
    }
    i
}

pub(crate) fn transfer_index_by_id(transfers: &Vec<Transfer>, id: Uuid) -> (r: usize)
    ensures
        r == position(transfers@, transfer_with_id(id)),
        r <= transfers.len(),
{
    let ghost f = transfer_with_id(id);
    let mut i: usize = 0;
    while i < transfers.len()
        invariant
            i <= transfers.len(),
            f == transfer_with_id(id),
            forall|j: int| 0 <= j < i ==> !f(#[trigger] transfers@[j]),
        decreases transfers.len() - i,
    {
        if transfers[i].id == id {
            proof {
                lemma_position_is(transfers@, f, i as int);
            }
            return i;
        }
        i += 1;
    }
    proof {
        lemma_position_is(transfers@, f, i as int);
    }
    i
}

/// A torrent as the list of torrents shows it: with the names of its
/// category and its user, and with the counts of its files, its swarm and
/// its comments.
#[derive(Debug)]
pub struct TorrentList {
    pub id: Uuid,
    pub info_hash: Bytes,
    pub name: String,
    pub category_id: Uuid,
    pub category_name: String,
    pub user_id: Option<Uuid>,
    pub user_name: Option<String>,
    pub size: i64,
    pub files: i64,
    pub visible: bool,
    pub completed: i32,
    pub seeder: i64,
    pub leecher: i64,
    pub last_action: Option<Timestamp>,
    pub last_seeder: Option<Timestamp>,
    pub created_at: Timestamp,
    pub comments: i64,
}

/// A row of the list of torrents as a mathematical value.
pub ghost struct TorrentListView {
    pub id: Uuid,
    pub info_hash: Seq<u8>,
    pub name: Seq<char>,
    pub category_id: Uuid,
    pub category_name: Seq<char>,
    pub user_id: Option<Uuid>,
    pub user_name: Option<Seq<char>>,
    pub size: i64,
    pub files: i64,
    pub visible: bool,
    pub completed: i32,
    pub seeder: i64,
    pub leecher: i64,
    pub last_action: Option<Timestamp>,
    pub last_seeder: Option<Timestamp>,
    pub created_at: Timestamp,
    pub comments: i64,
}

impl View for TorrentList {
    type V = TorrentListView;

    open spec fn view(&self) -> TorrentListView {
        TorrentListView {
            id: self.id,
            info_hash: self.info_hash@,
            name: self.name@,
            category_id: self.category_id,
            category_name: self.category_name@,
            user_id: self.user_id,
            user_name: match self.user_name {
                Some(t) => Some(t@),
                None => None,
            },
            size: self.size,
            files: self.files,
            visible: self.visible,
            completed: self.completed,
            seeder: self.seeder,
            leecher: self.leecher,
            last_action: self.last_action,
            last_seeder: self.last_seeder,
            created_at: self.created_at,
            comments: self.comments,
        }
    }
}

impl Row for TorrentList {
    fn duplicate(&self) -> (r: Self) {
        TorrentList {
            id: self.id,
            info_hash: copy_bytes(self.info_hash.as_slice()),
            name: self.name.clone(),
            category_id: self.category_id,
            category_name: self.category_name.clone(),
            user_id: self.user_id,
            user_name: match &self.user_name {
                Some(t) => Some(t.clone()),
                None => None,
            },
            size: self.size,
            files: self.files,
            visible: self.visible,
            completed: self.completed,
            seeder: self.seeder,
            leecher: self.leecher,
            last_action: self.last_action,
            last_seeder: self.last_seeder,
            created_at: self.created_at,
            comments: self.comments,
        }
    }
}

/// How the list shows a torrent: with the name of its category, empty
/// where the category is not there; with the name of its user, where it
/// has one that is known; and with the numbers of its files, its seeders,
/// its leechers and its comments.
pub open spec fn list_row(t: TorrentView, db: TablesView, site: SiteView) -> TorrentListView {
    TorrentListView {
        id: t.id,
        info_hash: t.info_hash,
        name: t.name,
        category_id: t.category_id,
        category_name: match first(
            site.categories,
            with_id::<crate::models::category::Category>(t.category_id),
        ) {
            Some(c) => c.name@,
            None => Seq::empty(),
        },
        user_id: t.user_id,
        user_name: match t.user_id {
            Some(u) => crate::models::user::name_of(db.users, u),
            None => None,
        },
        size: t.size,
        files: capped(count(site.torrent_files, meeting::<TorrentFile, OfTorrent>(OfTorrent(t.id)))),
        visible: t.visible,
        completed: t.completed,
        seeder: capped(count(db.peers, peer_in(t.id, true))),
        leecher: capped(count(db.peers, peer_in(t.id, false))),
        last_action: t.last_action,
        last_seeder: t.last_seeder,
        created_at: t.created_at,
        comments: capped(
            count(site.torrent_comments, meeting::<TorrentComment, OfTorrent>(OfTorrent(t.id))),
        ),
    }
}

/// The list of torrents: every torrent, in the order of the table, as
/// [`list_row`] shows it.
pub open spec fn listed(db: TablesView, site: SiteView) -> Seq<TorrentListView> {
    db.torrents.map_values(|t: TorrentView| list_row(t, db, site))
}

impl TorrentList {
    /// How the list shows a torrent: see [`list_row`].
    pub fn of(t: &Torrent, db: &Tables, site: &Site) -> (r: Self)
        ensures
            r@ == list_row(t@, db@, site@),
    {
        let category_name = match crate::models::category::Category::find(&t.category_id, site) {
            Some(c) => c.name,
            None => String::new(),
        };
        TorrentList {
            id: t.id,
            info_hash: copy_bytes(t.info_hash.as_slice()),
            name: t.name.clone(),
            category_id: t.category_id,
            category_name,
            user_id: t.user_id,
            user_name: crate::models::user::MaybeHasUser::user_name(t, db),
            size: t.size,
            files: crate::db::count_where(&site.torrent_files, &OfTorrent(t.id)),
            visible: t.visible,
            completed: t.completed,
            seeder: count_peers(&db.peers, t.id, true),
            leecher: count_peers(&db.peers, t.id, false),
            last_action: t.last_action,
            last_seeder: t.last_seeder,
            created_at: t.created_at,
            comments: crate::db::count_where(&site.torrent_comments, &OfTorrent(t.id)),
        }
    }

    /// The list of torrents: see [`listed`].
    pub fn all(db: &Tables, site: &Site) -> (r: Vec<Self>)
        ensures
            rows(r@) == listed(db@, site@),
    {
        let ghost f = |t: TorrentView| list_row(t, db@, site@);
        let mut out: Vec<TorrentList> = Vec::new();
        let mut i: usize = 0;
        while i < db.torrents.len()
            invariant
                i <= db.torrents.len(),
                f == |t: TorrentView| list_row(t, db@, site@),
                rows(out@) == db@.torrents.take(i as int).map_values(f),
            decreases db.torrents.len() - i,
        {
            let ghost before = rows(out@);
            out.push(TorrentList::of(&db.torrents[i], db, site));
            proof {
                let next = db@.torrents.take(i + 1);
                assert(next =~= db@.torrents.take(i as int).push(db.torrents@[i as int]@));
                assert(f(db.torrents@[i as int]@) == list_row(db.torrents@[i as int]@, db@, site@));
                assert(rows(out@) =~= before.push(f(db.torrents@[i as int]@)));
                assert(next.map_values(f) =~= before.push(f(db.torrents@[i as int]@)));
            }
            i += 1;
        }
        proof {
            assert(db@.torrents.take(db.torrents.len() as int) =~= db@.torrents);
        }
        out
    }

    /// Counts the seeders and the leechers of a torrent.
    pub fn peer_count(torrent_id: &Uuid, db: &Tables) -> (r: (i64, i64))
        ensures
            r == peer_counts(db@, *torrent_id),
    {
        if torrent_index_by_id(&db.torrents, *torrent_id) < db.torrents.len() {
            (
                count_peers(&db.peers, *torrent_id, true),
                count_peers(&db.peers, *torrent_id, false),
            )
        } else {
            (0, 0)
        }
    }

    /// Counts the seeders, the leechers and the finished downloads of the
    /// torrent with the info hash.
    pub fn peer_count_scrape(info_hash: &[u8], db: &Tables) -> (r: (i64, i64, i32))
        ensures
            r == scrape_counts(db@, info_hash@),
    {
        let i = torrent_index_by_hash(&db.torrents, info_hash);
        if i < db.torrents.len() {
            let id = db.torrents[i].id;
            (count_peers(&db.peers, id, true), count_peers(&db.peers, id, false), db.torrents[i].completed)
        } else {
            (0, 0, 0)
        }
    }
}

impl Row for Torrent {
    fn duplicate(&self) -> (r: Self) {
        self.clone()
    }
}

impl Keyed for Torrent {
    open spec fn key(v: TorrentView) -> Uuid {
        v.id
    }

    fn id(&self) -> (r: Uuid) {
        self.id
    }
}

/// A torrent that is about to be made.
#[derive(Debug)]
pub struct NewTorrent<'a> {
    pub id: Uuid,
    pub name: &'a str,
    pub info_hash: &'a [u8],
    pub category_id: &'a Uuid,
    pub user_id: &'a Uuid,
    pub description: &'a str,
    pub size: i64,
}

impl<'a> NewTorrent<'a> {
    /// A torrent, with an identifier made for it.
    pub fn new(
        name: &'a str,
        info_hash: &'a [u8],
        category_id: &'a Uuid,
        user_id: &'a Uuid,
        description: &'a str,
        size: i64,
    ) -> (r: Self)
        ensures
            r.name == name,
            r.info_hash == info_hash,
            r.category_id == category_id,
            r.user_id == user_id,
            r.description == description,
            r.size == size,
    {
        let id = fresh_id();
        NewTorrent { id, name, info_hash, category_id, user_id, description, size }
    }

    /// The row that the torrent becomes when it is made at `now`: hidden,
    /// never finished, never seen.
    pub open spec fn row(self, now: Timestamp) -> TorrentView {
        TorrentView {
            id: self.id,
            name: self.name@,
            info_hash: self.info_hash@,
            category_id: *self.category_id,
            user_id: Some(*self.user_id),
            description: self.description@,
            size: self.size,
            visible: false,
            completed: 0,
            last_action: None,
            last_seeder: None,
            created_at: now,
            updated_at: now,
        }
    }

    /// Puts the torrent into its table, unless a torrent has its
    /// identifier, and returns the row.
    pub fn insert(&self, db: &mut Tables, now: Timestamp) -> (r: Result<Torrent, Error>)
        ensures
            match r {
                Ok(t) => t@ == self.row(now) && final(db)@ == (TablesView {
                    torrents: old(db)@.torrents.push(t@),
                    ..old(db)@
                }) && position(old(db)@.torrents, with_id::<Torrent>(self.id)) >= old(db)@.torrents.len(),
                Err(e) => e == Error::DuplicateKey && final(db)@ == old(db)@ && position(
                    old(db)@.torrents,
                    with_id::<Torrent>(self.id),
                ) < old(db)@.torrents.len(),
            },
    {
        let row = Torrent {
            id: self.id,
            name: self.name.to_owned(),
            info_hash: crate::util::copy_bytes(self.info_hash),
            category_id: *self.category_id,
            user_id: Some(*self.user_id),
            description: self.description.to_owned(),
            size: self.size,
            visible: false,
            completed: 0,
            last_action: None,
            last_seeder: None,
            created_at: now,
            updated_at: now,
        };
        match insert_row(&mut db.torrents, &row) {
            Ok(_) => Ok(row),
            Err(e) => Err(e),
        }
    }
}

impl Torrent {
    /// Makes a torrent, with an identifier made for it, and puts it into
    /// its table.
    pub fn create(
        name: &str,
        description: &str,
        info_hash: &[u8],
        category_id: &Uuid,
        user_id: &Uuid,
        size: i64,
        db: &mut Tables,
        now: Timestamp,
    ) -> (r: Result<Self, Error>)
        ensures
            match r {
                Ok(t) => t@ == (TorrentView {
                    id: t.id,
                    name: name@,
                    info_hash: info_hash@,
                    category_id: *category_id,
                    user_id: Some(*user_id),
                    description: description@,
                    size,
                    visible: false,
                    completed: 0,
                    last_action: None,
                    last_seeder: None,
                    created_at: now,
                    updated_at: now,
                }) && position(old(db)@.torrents, with_id::<Torrent>(t.id)) >= old(db)@.torrents.len() && final(db)@ == (TablesView {
                    torrents: old(db)@.torrents.push(t@),
                    ..old(db)@
                }),
                Err(e) => e == Error::DuplicateKey && final(db)@ == old(db)@,
            },
    {
        let torrent = NewTorrent::new(name, info_hash, category_id, user_id, description, size);
        torrent.insert(db, now)
    }

    /// Deletes the torrent. The result is the number of rows deleted.
    pub fn delete(&self, db: &mut Tables) -> (r: usize)
        ensures
            final(db)@ == (TablesView {
                torrents: without(old(db)@.torrents, with_id::<Torrent>(self.id)),
                ..old(db)@
            }),
            r == old(db)@.torrents.len() - final(db)@.torrents.len(),
    {
        crate::db::delete_where(&mut db.torrents, &ById(self.id))
    }

    /// The comments on the torrent, the oldest first.
    pub fn comments(&self, db: &Site) -> (r: Vec<TorrentComment>)
        ensures
            r@ == comments_on(db@.torrent_comments, self.id),
    {
        TorrentComment::find_for_torrent(&self.id, db)
    }
}

/// What can be changed of a torrent.
#[derive(Debug)]
pub struct UpdateTorrent<'a> {
    pub name: &'a str,
    pub category_id: &'a Uuid,
    pub description: &'a str,
}

impl<'a> UpdateTorrent<'a> {
    /// A change of a torrent.
    pub fn new(name: &'a str, category_id: &'a Uuid, description: &'a str) -> (r: Self)
        ensures
            r.name == name,
            r.category_id == category_id,
            r.description == description,
    {
        UpdateTorrent { name, category_id, description }
    }

    /// The torrents table after the change is made to the torrents with
    /// the identifier.
    pub open spec fn applied(self, torrents: Seq<TorrentView>, id: Uuid) -> Seq<TorrentView> {
        Seq::new(
            torrents.len(),
            |i: int|
                if torrents[i].id == id {
                    TorrentView {
                        name: self.name@,
                        category_id: *self.category_id,
                        description: self.description@,
                        ..torrents[i]
                    }
                } else {
                    torrents[i]
                },
        )
    }

    /// Makes the change to the torrents with the identifier. The result
    /// is the number of rows written.
    pub fn update(&self, id: &Uuid, db: &mut Tables) -> (r: usize)
        ensures
            final(db)@ == (TablesView {
                torrents: self.applied(old(db)@.torrents, *id),
                ..old(db)@
            }),
            r == count(old(db)@.torrents, torrent_with_id(*id)),
    {
        apply_update(&mut db.torrents, self, *id)
    }
}

fn apply_update(torrents: &mut Vec<Torrent>, change: &UpdateTorrent, id: Uuid) -> (r: usize)
    ensures
        rows(final(torrents)@) == change.applied(rows(old(torrents)@), id),
        r == count(rows(old(torrents)@), torrent_with_id(id)),
{
    let ghost f = torrent_with_id(id);
    let ghost before = rows(torrents@);
    let mut n: usize = 0;
    let mut i: usize = 0;
    proof {
        assert(before.take(0) =~= Seq::empty());
    }
    while i < torrents.len()
        invariant
            i <= torrents.len(),
            n <= i,
            f == torrent_with_id(id),
            n == count(before.take(i as int), f),
            before == rows(old(torrents)@),
            torrents.len() == before.len(),
            forall|j: int|
                0 <= j < i ==> #[trigger] rows(torrents@)[j] == change.applied(before, id)[j],
            forall|j: int| i <= j < before.len() ==> #[trigger] rows(torrents@)[j] == before[j],
        decreases torrents.len() - i,
    {
        proof {
            assert(before.take(i + 1).drop_last() =~= before.take(i as int));
            assert(before.take(i + 1).last() == before[i as int]);
            assert(rows(torrents@)[i as int] == before[i as int]);
        }
        if torrents[i].id == id {
            let ghost cur = rows(torrents@);
            let mut t = torrents[i].clone();
            t.name = change.name.to_owned();
            t.category_id = *change.category_id;
            t.description = change.description.to_owned();
            torrents[i] = t;
            assert(rows(torrents@) =~= cur.update(i as int, t@));
            n += 1;
        }
        i += 1;
    }
    proof {
        assert(before.take(before.len() as int) =~= before);
        assert(rows(torrents@) =~= change.applied(before, id));
    }
    n
}

/// The metainfo file of a torrent, under the identifier of the torrent.
#[derive(Debug)]
pub struct TorrentMetaFile {
    pub id: Uuid,
    pub data: Bytes,
}

/// A file with the text of a torrent's description.
#[derive(Debug)]
pub struct TorrentNFO {
    pub id: Uuid,
    pub torrent_id: Uuid,
    pub data: Bytes,
}

/// A stored file as a mathematical value: its identifier, the torrent it
/// belongs to, and its bytes.
pub ghost struct Blob {
    pub id: Uuid,
    pub torrent_id: Uuid,
    pub data: Seq<u8>,
}

impl View for TorrentMetaFile {
    type V = Blob;

    open spec fn view(&self) -> Blob {
        Blob { id: self.id, torrent_id: self.id, data: self.data@ }
    }
}

impl View for TorrentNFO {
    type V = Blob;

    open spec fn view(&self) -> Blob {
        Blob { id: self.id, torrent_id: self.torrent_id, data: self.data@ }
    }
}

impl Row for TorrentMetaFile {
    fn duplicate(&self) -> (r: Self) {
        TorrentMetaFile { id: self.id, data: crate::util::copy_bytes(self.data.as_slice()) }
    }
}

impl Row for TorrentNFO {
    fn duplicate(&self) -> (r: Self) {
        TorrentNFO {
            id: self.id,
            torrent_id: self.torrent_id,
            data: crate::util::copy_bytes(self.data.as_slice()),
        }
    }
}

impl Keyed for TorrentMetaFile {
    open spec fn key(v: Blob) -> Uuid {
        v.id
    }

    fn id(&self) -> (r: Uuid) {
        self.id
    }
}

impl Keyed for TorrentNFO {
    open spec fn key(v: Blob) -> Uuid {
        v.id
    }

    fn id(&self) -> (r: Uuid) {
        self.id
    }
}

/// The condition to belong to a torrent.
pub struct OfTorrent(pub Uuid);

impl Criterion<TorrentNFO> for OfTorrent {
    open spec fn holds(&self, v: Blob) -> bool {
        v.torrent_id == self.0
    }

    fn test(&self, row: &TorrentNFO) -> (b: bool) {
        row.torrent_id == self.0
    }
}

impl TorrentMetaFile {
    /// Finds the metainfo file of a torrent.
    pub fn find(id: &Uuid, db: &Site) -> (r: Option<Self>)
        ensures
            match r {
                Some(f) => first(db@.torrent_meta_files, with_id::<TorrentMetaFile>(*id)) == Some(
                    f@,
                ),
                None => first(db@.torrent_meta_files, with_id::<TorrentMetaFile>(*id)).is_none(),
            },
    {
        find_where(&db.torrent_meta_files, &ById(*id))
    }
}

/// A metainfo file that is about to be stored.
#[derive(Debug)]
pub struct NewTorrentMetaFile<'a> {
    pub id: &'a Uuid,
    pub data: &'a [u8],
}

impl<'a> NewTorrentMetaFile<'a> {
    /// The metainfo file of a torrent.
    pub fn new(id: &'a Uuid, data: &'a [u8]) -> (r: Self)
        ensures
            r.id == id,
            r.data == data,
    {
        NewTorrentMetaFile { id, data }
    }

    /// Stores the file, unless the torrent has one already. The result is
    /// the number of rows written.
    pub fn create(&self, db: &mut Site) -> (r: Result<usize, Error>)
        ensures
            match r {
                Ok(n) => n == 1 && final(db)@ == (SiteView {
                    torrent_meta_files: old(db)@.torrent_meta_files.push(
                        Blob { id: *self.id, torrent_id: *self.id, data: self.data@ },
                    ),
                    ..old(db)@
                }),
                Err(e) => e == Error::DuplicateKey && final(db)@ == old(db)@,
            },
            r.is_ok() == (position(old(db)@.torrent_meta_files, with_id::<TorrentMetaFile>(*self.id)) >= old(db)@.torrent_meta_files.len()),
    {
        let row = TorrentMetaFile { id: *self.id, data: crate::util::copy_bytes(self.data) };
        insert_row(&mut db.torrent_meta_files, &row)
    }
}

impl TorrentNFO {
    /// Finds a description file by its identifier.
    pub fn find(id: &Uuid, db: &Site) -> (r: Option<Self>)
        ensures
            match r {
                Some(f) => first(db@.torrent_nfos, with_id::<TorrentNFO>(*id)) == Some(f@),
                None => first(db@.torrent_nfos, with_id::<TorrentNFO>(*id)).is_none(),
            },
    {
        find_where(&db.torrent_nfos, &ById(*id))
    }

    /// Finds the description file of a torrent.
    pub fn find_for_torrent(torrent_id: &Uuid, db: &Site) -> (r: Option<Self>)
        ensures
            match r {
                Some(f) => first(
                    db@.torrent_nfos,
                    meeting::<TorrentNFO, OfTorrent>(OfTorrent(*torrent_id)),
                ) == Some(f@),
                None => first(
                    db@.torrent_nfos,
                    meeting::<TorrentNFO, OfTorrent>(OfTorrent(*torrent_id)),
                ).is_none(),
            },
    {
        find_where(&db.torrent_nfos, &OfTorrent(*torrent_id))
    }
}

/// A description file that is about to be stored.
#[derive(Debug)]
pub struct NewTorrentNFO<'a> {
    pub id: Uuid,
    pub torrent_id: &'a Uuid,
    pub data: &'a [u8],
}

impl<'a> NewTorrentNFO<'a> {
    /// The description file of a torrent, with an identifier made for it.
    pub fn new(torrent_id: &'a Uuid, data: &'a [u8]) -> (r: Self)
        ensures
            r.torrent_id == torrent_id,
            r.data == data,
    {
        let id = fresh_id();
        NewTorrentNFO { id, torrent_id, data }
    }

    /// Stores the file, unless a file has its identifier. The result is
    /// the number of rows written.
    pub fn create(&self, db: &mut Site) -> (r: Result<usize, Error>)
        ensures
            match r {
                Ok(n) => n == 1 && final(db)@ == (SiteView {
                    torrent_nfos: old(db)@.torrent_nfos.push(
                        Blob { id: self.id, torrent_id: *self.torrent_id, data: self.data@ },
                    ),
                    ..old(db)@
                }),
                Err(e) => e == Error::DuplicateKey && final(db)@ == old(db)@,
            },
            r.is_ok() == (position(old(db)@.torrent_nfos, with_id::<TorrentNFO>(self.id)) >= old(db)@.torrent_nfos.len()),
    {
        let row = TorrentNFO {
            id: self.id,
            torrent_id: *self.torrent_id,
            data: crate::util::copy_bytes(self.data),
        };
        insert_row(&mut db.torrent_nfos, &row)
    }
}

/// One of the files that a torrent holds.
#[derive(Debug)]
pub struct TorrentFile {
    pub id: Uuid,
    pub torrent_id: Uuid,
    pub file_name: String,
    pub size: i64,
}

impl View for TorrentFile {
    type V = TorrentFile;

    open spec fn view(&self) -> TorrentFile {
        *self
    }
}

impl Row for TorrentFile {
    fn duplicate(&self) -> (r: Self) {
        TorrentFile {
            id: self.id,
            torrent_id: self.torrent_id,
            file_name: self.file_name.clone(),
            size: self.size,
        }
    }
}

impl Keyed for TorrentFile {
    open spec fn key(v: TorrentFile) -> Uuid {
        v.id
    }

    fn id(&self) -> (r: Uuid) {
        self.id
    }
}

impl Ordered for TorrentFile {
    /// Files are ordered by their names.
    open spec fn le(a: TorrentFile, b: TorrentFile) -> bool {
        text_le(a.file_name@, b.file_name@)
    }

    proof fn lemma_total(a: TorrentFile, b: TorrentFile) {
        lemma_lex_total(
            vstd::utf8::encode_utf8(a.file_name@),
            vstd::utf8::encode_utf8(b.file_name@),
        );
    }

    proof fn lemma_transitive(a: TorrentFile, b: TorrentFile, c: TorrentFile) {
        lemma_lex_transitive(
            vstd::utf8::encode_utf8(a.file_name@),
            vstd::utf8::encode_utf8(b.file_name@),
            vstd::utf8::encode_utf8(c.file_name@),
        );
    }

    fn not_after(&self, other: &Self) -> (r: bool) {
        text_not_after(self.file_name.as_str(), other.file_name.as_str())
    }
}

impl Criterion<TorrentFile> for OfTorrent {
    open spec fn holds(&self, v: TorrentFile) -> bool {
        v.torrent_id == self.0
    }

    fn test(&self, row: &TorrentFile) -> (b: bool) {
        row.torrent_id == self.0
    }
}

impl TorrentFile {
    /// Finds a file by its identifier.
    pub fn find(id: &Uuid, db: &Site) -> (r: Option<Self>)
        ensures
            r == first(db@.torrent_files, with_id::<TorrentFile>(*id)),
    {
        find_where(&db.torrent_files, &ById(*id))
    }

    /// The files of a torrent, in the order of their names: every file of
    /// the torrent, as often as it stands in the table, and no other.
    pub fn find_for_torrent(torrent_id: &Uuid, db: &Site) -> (r: Vec<Self>)
        ensures
            sorted::<TorrentFile>(r@),
            r@.to_multiset() == those(
                db@.torrent_files,
                meeting::<TorrentFile, OfTorrent>(OfTorrent(*torrent_id)),
            ).to_multiset(),
    {
        let found = select_where(&db.torrent_files, &OfTorrent(*torrent_id));
        let out = sort_rows(found);
        assert(rows(out@) =~= out@);
        assert(rows(found@) =~= found@);
        out
    }
}

/// A file of a torrent that is about to be stored.
#[derive(Debug)]
pub struct NewTorrentFile<'a> {
    pub id: Uuid,
    pub torrent_id: &'a Uuid,
    pub file_name: &'a str,
    pub size: &'a i64,
}

impl<'a> NewTorrentFile<'a> {
    /// A file of a torrent, with an identifier made for it.
    pub fn new(torrent_id: &'a Uuid, file_name: &'a str, size: &'a i64) -> (r: Self)
        ensures
            r.torrent_id == torrent_id,
            r.file_name == file_name,
            r.size == size,
    {
        let id = fresh_id();
        NewTorrentFile { id, torrent_id, file_name, size }
    }

    /// Whether a row holds what this file holds.
    pub open spec fn is_row(self, f: TorrentFile) -> bool {
        f.id == self.id && f.torrent_id == *self.torrent_id && f.file_name@ == self.file_name@
            && f.size == *self.size
    }

    /// Stores the file, unless a file has its identifier. The result is
    /// the number of rows written.
    pub fn create(&self, db: &mut Site) -> (r: Result<usize, Error>)
        ensures
            match r {
                Ok(n) => n == 1 && final(db)@.torrent_files.len() == old(db)@.torrent_files.len()
                    + 1 && final(db)@.torrent_files.drop_last() == old(db)@.torrent_files
                    && self.is_row(final(db)@.torrent_files.last()) && final(db)@ == (SiteView {
                    torrent_files: final(db)@.torrent_files,
                    ..old(db)@
                }),
                Err(e) => e == Error::DuplicateKey && final(db)@ == old(db)@,
            },
            r.is_ok() == (position(old(db)@.torrent_files, with_id::<TorrentFile>(self.id)) >= old(db)@.torrent_files.len()),
    {
        let row = TorrentFile {
            id: self.id,
            torrent_id: *self.torrent_id,
            file_name: self.file_name.to_owned(),
            size: *self.size,
        };
        let r = insert_row(&mut db.torrent_files, &row);
        proof {
            if r.is_ok() {
                assert(db@.torrent_files.drop_last() =~= old(db)@.torrent_files);
            }
        }
        r
    }
}

/// A picture of a torrent; `index` is its place among the pictures.
#[derive(Debug)]
pub struct TorrentImage {
    pub id: Uuid,
    pub torrent_id: Uuid,
    pub file_name: String,
    pub index: i16,
    pub created_at: Timestamp,
}

impl View for TorrentImage {
    type V = TorrentImage;

    open spec fn view(&self) -> TorrentImage {
        *self
    }
}

impl Row for TorrentImage {
    fn duplicate(&self) -> (r: Self) {
        TorrentImage {
            id: self.id,
            torrent_id: self.torrent_id,
            file_name: self.file_name.clone(),
            index: self.index,
            created_at: self.created_at,
        }
    }
}

impl Keyed for TorrentImage {
    open spec fn key(v: TorrentImage) -> Uuid {
        v.id
    }

    fn id(&self) -> (r: Uuid) {
        self.id
    }
}

impl Ordered for TorrentImage {
    /// Pictures are ordered by their places.
    open spec fn le(a: TorrentImage, b: TorrentImage) -> bool {
        a.index <= b.index
    }

    proof fn lemma_total(a: TorrentImage, b: TorrentImage) {
    }

    proof fn lemma_transitive(a: TorrentImage, b: TorrentImage, c: TorrentImage) {
    }

    fn not_after(&self, other: &Self) -> (r: bool) {
        self.index <= other.index
    }
}

impl Criterion<TorrentImage> for OfTorrent {
    open spec fn holds(&self, v: TorrentImage) -> bool {
        v.torrent_id == self.0
    }

    fn test(&self, row: &TorrentImage) -> (b: bool) {
        row.torrent_id == self.0
    }
}

impl TorrentImage {
    /// The pictures of a torrent, in the order of their places: every
    /// picture of the torrent, as often as it stands in the table, and no
    /// other.
    pub fn find_for_torrent(torrent_id: &Uuid, db: &Site) -> (r: Vec<Self>)
        ensures
            sorted::<TorrentImage>(r@),
            r@.to_multiset() == those(
                db@.torrent_images,
                meeting::<TorrentImage, OfTorrent>(OfTorrent(*torrent_id)),
            ).to_multiset(),
    {
        let found = select_where(&db.torrent_images, &OfTorrent(*torrent_id));
        let out = sort_rows(found);
        assert(rows(out@) =~= out@);
        assert(rows(found@) =~= found@);
        out
    }
}

/// A picture of a torrent that is about to be stored.
#[derive(Debug)]
pub struct NewTorrentImage<'a> {
    pub id: Uuid,
    pub torrent_id: &'a Uuid,
    pub file_name: &'a str,
    pub index: &'a i16,
}

impl<'a> NewTorrentImage<'a> {
    /// A picture of a torrent, with an identifier made for it.
    pub fn new(torrent_id: &'a Uuid, file_name: &'a str, index: &'a i16) -> (r: Self)
        ensures
            r.torrent_id == torrent_id,
            r.file_name == file_name,
            r.index == index,
    {
        let id = fresh_id();
        NewTorrentImage { id, torrent_id, file_name, index }
    }

    /// Whether a row holds what this picture holds, made at `now`.
    pub open spec fn is_row(self, f: TorrentImage, now: Timestamp) -> bool {
        f.id == self.id && f.torrent_id == *self.torrent_id && f.file_name@ == self.file_name@
            && f.index == *self.index && f.created_at == now
    }

    /// Stores the picture, unless a picture has its identifier. The result
    /// is the number of rows written.
    pub fn create(&self, db: &mut Site, now: Timestamp) -> (r: Result<usize, Error>)
        ensures
            match r {
                Ok(n) => {
                    &&& n == 1
                    &&& final(db)@.torrent_images.len() == old(db)@.torrent_images.len() + 1
                    &&& final(db)@.torrent_images.drop_last() == old(db)@.torrent_images
                    &&& self.is_row(final(db)@.torrent_images.last(), now)
                    &&& final(db)@ == (SiteView {
                        torrent_images: final(db)@.torrent_images,
                        ..old(db)@
                    })
                },
                Err(e) => e == Error::DuplicateKey && final(db)@ == old(db)@,
            },
            r.is_ok() == (position(old(db)@.torrent_images, with_id::<TorrentImage>(self.id)) >= old(db)@.torrent_images.len()),
    {
        let row = TorrentImage {
            id: self.id,
            torrent_id: *self.torrent_id,
            file_name: self.file_name.to_owned(),
            index: *self.index,
            created_at: now,
        };
        let r = insert_row(&mut db.torrent_images, &row);
        proof {
            if r.is_ok() {
                assert(db@.torrent_images.drop_last() =~= old(db)@.torrent_images);
            }
        }
        r
    }
}

/// A comment of a user on a torrent.
#[derive(Debug)]
pub struct TorrentComment {
    pub id: Uuid,
    pub user_id: Uuid,
    pub torrent_id: Uuid,
    pub content: String,
    pub created_at: Timestamp,
    pub updated_at: Timestamp,
}

impl View for TorrentComment {
    type V = TorrentComment;

    open spec fn view(&self) -> TorrentComment {
        *self
    }
}

impl Row for TorrentComment {
    fn duplicate(&self) -> (r: Self) {
        TorrentComment {
            id: self.id,
            user_id: self.user_id,
            torrent_id: self.torrent_id,
            content: self.content.clone(),
            created_at: self.created_at,
            updated_at: self.updated_at,
        }
    }
}

impl Keyed for TorrentComment {
    open spec fn key(v: TorrentComment) -> Uuid {
        v.id
    }

    fn id(&self) -> (r: Uuid) {
        self.id
    }
}

impl Dated for TorrentComment {
    open spec fn stamp(v: TorrentComment) -> Timestamp {
        v.created_at
    }

    fn time(&self) -> (r: Timestamp) {
        self.created_at
    }
}

impl Criterion<TorrentComment> for OfTorrent {
    open spec fn holds(&self, v: TorrentComment) -> bool {
        v.torrent_id == self.0
    }

    fn test(&self, row: &TorrentComment) -> (b: bool) {
        row.torrent_id == self.0
    }
}

impl HasUser for TorrentComment {
    open spec fn owner(&self) -> Uuid {
        self.user_id
    }

    fn user_id(&self) -> (r: &Uuid) {
        &self.user_id
    }
}

/// The comments on a torrent, the oldest first.
pub open spec fn comments_on(comments: Seq<TorrentComment>, torrent_id: Uuid) -> Seq<
    TorrentComment,
> {
    let found = those(comments, meeting::<TorrentComment, OfTorrent>(OfTorrent(torrent_id)));
    in_order::<TorrentComment>(found, false, found.len())
}

/// What is written when a comment is changed.
#[derive(Debug)]
pub struct UpdateTorrentComment<'a> {
    pub content: &'a str,
    pub updated_at: &'a Timestamp,
}

impl TorrentComment {
    /// Finds a comment by its identifier.
    pub fn find(id: &Uuid, db: &Site) -> (r: Option<Self>)
        ensures
            r == first(db@.torrent_comments, with_id::<TorrentComment>(*id)),
    {
        find_where(&db.torrent_comments, &ById(*id))
    }

    /// The comments on a torrent, the oldest first.
    pub fn find_for_torrent(torrent_id: &Uuid, db: &Site) -> (r: Vec<Self>)
        ensures
            r@ == comments_on(db@.torrent_comments, *torrent_id),
    {
        let found = select_where(&db.torrent_comments, &OfTorrent(*torrent_id));
        let n = found.len();
        let out = order_rows(found, false, n);
        assert(rows(out@) =~= out@);
        out
    }

    /// Gives the comment a new text and returns the old one.
    pub fn set_content(&mut self, content: String) -> (r: String)
        ensures
            r == old(self).content,
            *final(self) == (TorrentComment { content, ..*old(self) }),
    {
        let mut content = content;
        std::mem::swap(&mut self.content, &mut content);
        content
    }

    /// What is written when the comment is saved.
    pub fn update_set<'a>(&'a self) -> (r: UpdateTorrentComment<'a>)
        ensures
            r.content@ == self.content@,
            *r.updated_at == self.updated_at,
    {
        UpdateTorrentComment { content: self.content.as_str(), updated_at: &self.updated_at }
    }

    /// Marks the comment as changed at `now` and writes its text and that
    /// time to the comments with its identifier. The result is the number
    /// of rows written.
    pub fn save(&mut self, db: &mut Site, now: Timestamp) -> (r: usize)
        ensures
            *final(self) == (TorrentComment { updated_at: now, ..*old(self) }),
            final(db)@ == (SiteView {
                torrent_comments: final(db)@.torrent_comments,
                ..old(db)@
            }),
            final(db)@.torrent_comments.len() == old(db)@.torrent_comments.len(),
            forall|i: int|
                0 <= i < old(db)@.torrent_comments.len() ==> #[trigger] final(db)@.torrent_comments[i] == if old(db)@.torrent_comments[i].id == old(self).id {
                    TorrentComment {
                        content: old(self).content,
                        updated_at: now,
                        ..old(db)@.torrent_comments[i]
                    }
                } else {
                    old(db)@.torrent_comments[i]
                },
            r == count(old(db)@.torrent_comments, with_id::<TorrentComment>(old(self).id)),
    {
        self.updated_at = now;
        let n = write_comment(&mut db.torrent_comments, self);
        proof {
            assert(old(db).torrent_comments@ =~= old(db)@.torrent_comments);
        }
        n
    }

    /// Deletes the comment. The result is the number of rows deleted.
    pub fn delete(&self, db: &mut Site) -> (r: usize)
        ensures
            final(db)@ == (SiteView {
                torrent_comments: without(
                    old(db)@.torrent_comments,
                    with_id::<TorrentComment>(self.id),
                ),
                ..old(db)@
            }),
            r == old(db)@.torrent_comments.len() - final(db)@.torrent_comments.len(),
    {
        crate::db::delete_where(&mut db.torrent_comments, &ById(self.id))
    }
}

fn write_comment(comments: &mut Vec<TorrentComment>, c: &TorrentComment) -> (r: usize)
    ensures
        final(comments)@.len() == old(comments)@.len(),
        forall|i: int|
            0 <= i < old(comments)@.len() ==> #[trigger] final(comments)@[i] == if old(comments)@[i].id == c.id {
                TorrentComment { content: c.content, updated_at: c.updated_at, ..old(comments)@[i] }
            } else {
                old(comments)@[i]
            },
        r == count(old(comments)@, with_id::<TorrentComment>(c.id)),
{
    let ghost f = with_id::<TorrentComment>(c.id);
    let ghost before = old(comments)@;
    let mut n: usize = 0;
    let mut i: usize = 0;
    proof {
        assert(before.take(0) =~= Seq::empty());
    }
    while i < comments.len()
        invariant
            i <= comments.len(),
            n <= i,
            f == with_id::<TorrentComment>(c.id),
            before == old(comments)@,
            n == count(before.take(i as int), f),
            comments.len() == old(comments).len(),
            forall|j: int|
                0 <= j < i ==> #[trigger] comments@[j] == if old(comments)@[j].id == c.id {
                    TorrentComment {
                        content: c.content,
                        updated_at: c.updated_at,
                        ..old(comments)@[j]
                    }
                } else {
                    old(comments)@[j]
                },
            forall|j: int| i <= j < comments.len() ==> #[trigger] comments@[j] == old(comments)@[j],
        decreases comments.len() - i,
    {
        proof {
            assert(before.take(i + 1).drop_last() =~= before.take(i as int));
            assert(before.take(i + 1).last() == before[i as int]);
        }
        if comments[i].id == c.id {
            let mut row = comments[i].duplicate();
            row.content = c.content.clone();
            row.updated_at = c.updated_at;
            comments[i] = row;
            n += 1;
        }
        i += 1;
    }
    proof {
        assert(before.take(before.len() as int) =~= before);
    }
    n
}

/// A comment as it is shown: with the name of its writer, and what the
/// reader may do to it.
#[derive(Debug)]
pub struct TorrentCommentResponse {
    pub comment: TorrentComment,
    pub user_name: String,
    pub may_edit: bool,
    pub may_delete: bool,
}

impl TorrentCommentResponse {
    /// A comment as it is shown to a reader: the reader may edit it where
    /// it may write it, and delete it where it may delete it.
    pub fn new<S: crate::models::acl::Subject<TorrentComment>>(
        comment: TorrentComment,
        db: &Tables,
        subj: &S,
    ) -> (r: Self)
        ensures
            r.comment == comment,
            match crate::models::user::name_of(db@.users, comment.user_id) {
                Some(name) => r.user_name@ == name,
                None => r.user_name@.len() == 0,
            },
            r.may_edit == subj.permitted(&comment, crate::models::acl::Permission::Write),
            r.may_delete == subj.permitted(&comment, crate::models::acl::Permission::Delete),
    {
        let user_name = comment.user_name(db);
        let may_edit = subj.may_write(&comment);
        let may_delete = subj.may_delete(&comment);
        Self { comment, user_name, may_edit, may_delete }
    }

    /// A comment as it is shown to a reader who may change nothing.
    pub fn new2(comment: TorrentComment, db: &Tables) -> (r: Self)
        ensures
            r.comment == comment,
            match crate::models::user::name_of(db@.users, comment.user_id) {
                Some(name) => r.user_name@ == name,
                None => r.user_name@.len() == 0,
            },
            !r.may_edit,
            !r.may_delete,
    {
        let user_name = comment.user_name(db);
        Self { comment, user_name, may_edit: false, may_delete: false }
    }

    /// The comment that is shown.
    pub fn comment(&self) -> (r: &TorrentComment)
        ensures
            *r == self.comment,
    {
        &self.comment
    }
}

/// A comment that is about to be written.
#[derive(Debug)]
pub struct NewTorrentComment<'a> {
    pub id: Uuid,
    pub user_id: &'a Uuid,
    pub torrent_id: &'a Uuid,
    pub content: &'a str,
}

impl<'a> NewTorrentComment<'a> {
    /// A comment, with an identifier made for it.
    pub fn new(user_id: &'a Uuid, torrent_id: &'a Uuid, content: &'a str) -> (r: Self)
        ensures
            r.user_id == user_id,
            r.torrent_id == torrent_id,
            r.content == content,
    {
        let id = fresh_id();
        Self { id, user_id, torrent_id, content }
    }

    /// Whether a row holds what this comment holds, written at `now`.
    pub open spec fn is_row(self, c: TorrentComment, now: Timestamp) -> bool {
        c.id == self.id && c.user_id == *self.user_id && c.torrent_id == *self.torrent_id
            && c.content@ == self.content@ && c.created_at == now && c.updated_at == now
    }

    /// Writes the comment, unless a comment has its identifier, and
    /// returns the row.
    pub fn create(&self, db: &mut Site, now: Timestamp) -> (r: Result<TorrentComment, Error>)
        ensures
            match r {
                Ok(c) => {
                    &&& self.is_row(c, now)
                    &&& position(old(db)@.torrent_comments, with_id::<TorrentComment>(self.id))
                        >= old(db)@.torrent_comments.len()
                    &&& final(db)@ == (SiteView {
                        torrent_comments: old(db)@.torrent_comments.push(c),
                        ..old(db)@
                    })
                },
                Err(e) => {
                    &&& e == Error::DuplicateKey
                    &&& position(old(db)@.torrent_comments, with_id::<TorrentComment>(self.id))
                        < old(db)@.torrent_comments.len()
                    &&& final(db)@ == old(db)@
                },
            },
    {
        let row = TorrentComment {
            id: self.id,
            user_id: *self.user_id,
            torrent_id: *self.torrent_id,
            content: self.content.to_owned(),
            created_at: now,
            updated_at: now,
        };
        match insert_row(&mut db.torrent_comments, &row) {
            Ok(_) => Ok(row),
            Err(e) => Err(e),
        }
    }
}

/// A torrent as its page shows it.
#[derive(Debug)]
pub struct TorrentMsg {
    pub torrent: Torrent,
    pub torrent_user_name: Option<String>,
    pub category: crate::models::category::Category,
    pub nfo: Option<TorrentNFO>,
    pub images: Vec<TorrentImage>,
    pub files: Vec<TorrentFile>,
    pub peers: Vec<(Peer, String)>,
    pub comments: Vec<TorrentCommentResponse>,
    pub timezone: i32,
}

/// Whether a comment is shown to a reader as it should be: with the name
/// of its writer, empty where the writer is not known, and with what the
/// reader may do to it.
pub open spec fn shown_to<S: crate::models::acl::Subject<TorrentComment>>(
    shown: TorrentCommentResponse,
    comment: TorrentComment,
    users: Seq<crate::models::user::UserView>,
    subj: S,
) -> bool {
    &&& shown.comment == comment
    &&& match crate::models::user::name_of(users, comment.user_id) {
        Some(name) => shown.user_name@ == name,
        None => shown.user_name@.len() == 0,
    }
    &&& shown.may_edit == subj.permitted(&comment, crate::models::acl::Permission::Write)
    &&& shown.may_delete == subj.permitted(&comment, crate::models::acl::Permission::Delete)
}

impl TorrentMsg {
    /// Whether this is what the page of the torrent `t` of the category
    /// `c` shows to a reader: the torrent, the name of its user where it
    /// is known, the category, the description file, the pictures by place
    /// and the files by name, the peers with the names of their users, the
    /// one updated last first, and the comments as the reader may treat
    /// them, the oldest first.
    pub open spec fn shows<S: crate::models::acl::Subject<TorrentComment>>(
        self,
        t: TorrentView,
        c: crate::models::category::Category,
        db: TablesView,
        site: SiteView,
        subj: S,
    ) -> bool {
        let id = t.id;
        &&& self.torrent@ == t
        &&& self.category == c
        &&& match self.torrent_user_name {
            Some(name) => t.user_id.is_some() && crate::models::user::name_of(
                db.users,
                t.user_id.unwrap(),
            ) == Some(name@),
            None => t.user_id.is_none() || crate::models::user::name_of(
                db.users,
                t.user_id.unwrap(),
            ).is_none(),
        }
        &&& match self.nfo {
            Some(f) => first(
                site.torrent_nfos,
                meeting::<TorrentNFO, OfTorrent>(OfTorrent(id)),
            ) == Some(f@),
            None => first(
                site.torrent_nfos,
                meeting::<TorrentNFO, OfTorrent>(OfTorrent(id)),
            ).is_none(),
        }
        &&& sorted::<TorrentImage>(self.images@)
        &&& self.images@.to_multiset() == those(
            site.torrent_images,
            meeting::<TorrentImage, OfTorrent>(OfTorrent(id)),
        ).to_multiset()
        &&& sorted::<TorrentFile>(self.files@)
        &&& self.files@.to_multiset() == those(
            site.torrent_files,
            meeting::<TorrentFile, OfTorrent>(OfTorrent(id)),
        ).to_multiset()
        &&& self.peers@.len() == crate::models::peer::swarm_of(
            db.peers,
            id,
        ).len()
        &&& forall|i: int|
            0 <= i < self.peers@.len() ==> (#[trigger] self.peers@[i]).0@
                == crate::models::peer::swarm_of(db.peers, id)[i]
                && self.peers@[i].1@ == crate::models::peer::shown_user(
                db.users,
                crate::models::peer::swarm_of(db.peers, id)[i],
            )
        &&& self.comments@.len() == comments_on(
            site.torrent_comments,
            id,
        ).len()
        &&& forall|i: int|
            0 <= i < self.comments@.len() ==> shown_to(
                #[trigger] self.comments@[i],
                comments_on(site.torrent_comments, id)[i],
                db.users,
                subj,
            )
    }

    /// What the page of a torrent shows to a reader: the torrent, the name
    /// of its user, its category, its description file, its pictures by
    /// place and its files by name, its peers with the names of their
    /// users, its comments as the reader may treat them, and the given
    /// time zone. It fails where the torrent or its category is not there.
    pub fn find<S: crate::models::acl::Subject<TorrentComment>>(
        id: &Uuid,
        db: &Tables,
        site: &Site,
        subj: &S,
        default_timezone: i32,
    ) -> (r: Result<Self, Error>)
        ensures
            match first(db@.torrents, crate::models::torrent::torrent_with_id(*id)) {
                None => r == Err::<Self, Error>(Error::NoTorrent),
                Some(t) => match first(
                    site@.categories,
                    with_id::<crate::models::category::Category>(t.category_id),
                ) {
                    None => r == Err::<Self, Error>(Error::NoCategory),
                    Some(c) => r.is_ok() && r.unwrap().shows(t, c, db@, site@, *subj)
                        && r.unwrap().timezone == default_timezone,
                },
            },
    {
        let torrent = match Torrent::find(id, db) {
            Some(t) => t,
            None => return Err(Error::NoTorrent),
        };
        proof {
            crate::db::lemma_position(db@.torrents, crate::models::torrent::torrent_with_id(*id));
        }
        let nfo = TorrentNFO::find_for_torrent(id, site);
        let images = TorrentImage::find_for_torrent(id, site);
        let files = TorrentFile::find_for_torrent(id, site);
        let peers = Peer::find_for_torrent(id, db);
        let torrent_user_name = crate::models::user::MaybeHasUser::user_name(&torrent, db);
        let category = match crate::models::category::Category::find(&torrent.category_id, site) {
            Some(c) => c,
            None => return Err(Error::NoCategory),
        };
        let list = torrent.comments(site);
        let mut comments: Vec<TorrentCommentResponse> = Vec::new();
        let mut i: usize = 0;
        while i < list.len()
            invariant
                i <= list.len(),
                comments@.len() == i,
                forall|j: int|
                    0 <= j < i ==> shown_to(#[trigger] comments@[j], list@[j], db@.users, *subj),
            decreases list.len() - i,
        {
            let shown = TorrentCommentResponse::new(list[i].duplicate(), db, subj);
            comments.push(shown);
            i += 1;
        }
        Ok(
            TorrentMsg {
                torrent,
                torrent_user_name,
                category,
                nfo,
                images,
                files,
                peers,
                comments,
                timezone: default_timezone,
            },
        )
    }
}

} // verus!
