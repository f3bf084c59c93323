//! Peers: one client's presence in the swarm of one torrent.

use vstd::prelude::*;
use crate::db::{
    first, lemma_position_is, lemma_those_all, lemma_those_remove, position, rows, Tables,
    TablesView, those, without,
};
use crate::error::Error;
use crate::models::{Bytes, Timestamp, Uuid};
use crate::net::IpAddress;
use crate::util::{bytes_eq, copy_bytes};

verus! {

/// One client's live presence in one torrent's swarm.
#[derive(Debug)]
pub struct Peer {
    pub id: Uuid,
    pub torrent_id: Uuid,
    pub user_id: Uuid,
    pub ip_address: IpAddress,
    pub port: i32,
    pub bytes_uploaded: i64,
    pub bytes_downloaded: i64,
    pub bytes_left: i64,
    pub seeder: bool,
    pub peer_id: Bytes,
    pub user_agent: String,
    pub crypto_enabled: bool,
    pub crypto_port: Option<i32>,
    pub offset_uploaded: i64,
    pub offset_downloaded: i64,
    pub created_at: Timestamp,
    pub finished_at: Option<Timestamp>,
    pub updated_at: Timestamp,
}

/// A peer as a mathematical value.
pub ghost struct PeerView {
    pub id: Uuid,
    pub torrent_id: Uuid,
    pub user_id: Uuid,
    pub ip_address: IpAddress,
    pub port: i32,
    pub bytes_uploaded: i64,
    pub bytes_downloaded: i64,
    pub bytes_left: i64,
    pub seeder: bool,
    pub peer_id: Seq<u8>,
    pub user_agent: Seq<char>,
    pub crypto_enabled: bool,
    pub crypto_port: Option<i32>,
    pub offset_uploaded: i64,
    pub offset_downloaded: i64,
    pub created_at: Timestamp,
    pub finished_at: Option<Timestamp>,
    pub updated_at: Timestamp,
}

impl View for Peer {
    type V = PeerView;

    open spec fn view(&self) -> PeerView {
        PeerView {
            id: self.id,
            torrent_id: self.torrent_id,
            user_id: self.user_id,
            ip_address: self.ip_address,
            port: self.port,
            bytes_uploaded: self.bytes_uploaded,
            bytes_downloaded: self.bytes_downloaded,
            bytes_left: self.bytes_left,
            seeder: self.seeder,
            peer_id: self.peer_id@,
            user_agent: self.user_agent@,
            crypto_enabled: self.crypto_enabled,
            crypto_port: self.crypto_port,
            offset_uploaded: self.offset_uploaded,
            offset_downloaded: self.offset_downloaded,
            created_at: self.created_at,
            finished_at: self.finished_at,
            updated_at: self.updated_at,
        }
    }
}

impl Clone for Peer {
    fn clone(&self) -> (r: Self)
        ensures
            r@ == self@,
    {
        Peer {
            id: self.id,
            torrent_id: self.torrent_id,
            user_id: self.user_id,
            ip_address: self.ip_address,
            port: self.port,
            bytes_uploaded: self.bytes_uploaded,
            bytes_downloaded: self.bytes_downloaded,
            bytes_left: self.bytes_left,
            seeder: self.seeder,
            peer_id: copy_bytes(self.peer_id.as_slice()),
            user_agent: self.user_agent.clone(),
            crypto_enabled: self.crypto_enabled,
            crypto_port: self.crypto_port,
            offset_uploaded: self.offset_uploaded,
            offset_downloaded: self.offset_downloaded,
            created_at: self.created_at,
            finished_at: self.finished_at,
            updated_at: self.updated_at,
        }
    }
}

/// Holds of the peer with the identifier.
pub open spec fn peer_with_id(id: Uuid) -> spec_fn(PeerView) -> bool {
    |p: PeerView| p.id == id
}

/// Holds of the peer that a user has in a torrent under a peer id.
pub open spec fn peer_with_key(torrent_id: Uuid, user_id: Uuid, peer_id: Seq<u8>) -> spec_fn(
    PeerView,
) -> bool {
    |p: PeerView| p.torrent_id == torrent_id && p.user_id == user_id && p.peer_id == peer_id
}

/// Holds of the seeders of a torrent, or of its leechers.
pub open spec fn peer_in(torrent_id: Uuid, seeder: bool) -> spec_fn(PeerView) -> bool {
    |p: PeerView| p.torrent_id == torrent_id && p.seeder == seeder
}

/// The position of the first of the rows updated last.
pub open spec fn newest(peers: Seq<PeerView>) -> int
    decreases peers.len(),
{
    if peers.len() <= 1 {
        0
    } else {
        let j = newest(peers.drop_last());
        if peers.last().updated_at > peers[j].updated_at {
            peers.len() - 1
        } else {
            j
        }
    }
}

/// Up to `limit` rows, the one updated last first; of two rows updated at
/// the same time the one that stands first in the table comes first.
pub open spec fn by_recency(peers: Seq<PeerView>, limit: nat) -> Seq<PeerView>
    decreases limit,
{
    if limit == 0 || peers.len() == 0 {
        Seq::empty()
    } else {
        let j = newest(peers);
        seq![peers[j]] + by_recency(peers.remove(j), (limit - 1) as nat)
    }
}

/// `newest` is a position of the table, and no row is newer than its row.
pub proof fn lemma_newest(peers: Seq<PeerView>)
    requires
        peers.len() > 0,
    ensures
        0 <= newest(peers) < peers.len(),
        forall|i: int|
            0 <= i < peers.len() ==> (#[trigger] peers[i]).updated_at <= peers[newest(
                peers,
            )].updated_at,
    decreases peers.len(),
{
    if peers.len() > 1 {
        lemma_newest(peers.drop_last());
        let j = newest(peers.drop_last());
        assert forall|i: int| 0 <= i < peers.len() implies (#[trigger] peers[i]).updated_at
            <= peers[newest(peers)].updated_at by {
            if i < peers.len() - 1 {
                assert(peers.drop_last()[i] == peers[i]);
            }
        }
    }
}

/// `by_recency` gives as many rows as there are, up to the limit, each no
/// newer than the one before it.
pub proof fn lemma_by_recency(peers: Seq<PeerView>, limit: nat)
    ensures
        by_recency(peers, limit).len() == if limit <= peers.len() {
            limit
        } else {
            peers.len()
        },
        forall|i: int|
            0 <= i < by_recency(peers, limit).len() ==> peers.contains(
                #[trigger] by_recency(peers, limit)[i],
            ),
        forall|i: int, j: int|
            0 <= i <= j < by_recency(peers, limit).len() ==> by_recency(
                peers,
                limit,
            )[i].updated_at >= by_recency(peers, limit)[j].updated_at,
    decreases limit,
{
    if limit > 0 && peers.len() > 0 {
        let k = newest(peers);
        lemma_newest(peers);
        let rest = peers.remove(k);
        lemma_by_recency(rest, (limit - 1) as nat);
        let out = by_recency(peers, limit);
        let tail = by_recency(rest, (limit - 1) as nat);
        assert forall|i: int| 0 <= i < out.len() implies peers.contains(#[trigger] out[i]) by {
            if i > 0 {
                assert(out[i] == tail[i - 1]);
                assert(rest.contains(tail[i - 1]));
                let m = choose|m: int| 0 <= m < rest.len() && rest[m] == tail[i - 1];
                if m < k {
                    assert(peers[m] == rest[m]);
                } else {
                    assert(peers[m + 1] == rest[m]);
                }
            } else {
                assert(peers[k] == out[0]);
            }
        }
        assert forall|i: int, j: int| 0 <= i <= j < out.len() implies out[i].updated_at
            >= out[j].updated_at by {
            if i == 0 && j > 0 {
                assert(out[j] == tail[j - 1]);
                assert(peers.contains(out[j]));
                let m = choose|m: int| 0 <= m < peers.len() && peers[m] == out[j];
                assert(peers[m].updated_at <= peers[k].updated_at);
            } else if i > 0 {
                assert(out[i] == tail[i - 1]);
                assert(out[j] == tail[j - 1]);
            }
        }
    }
}

/// The peers table after a peer is saved: the row that a user has in a
/// torrent under a peer id takes its values and keeps its identifier; where
/// there is no such row the peer becomes the last row, unless a row has its
/// identifier already.
pub open spec fn saved_peer(peers: Seq<PeerView>, p: PeerView) -> Result<Seq<PeerView>, Error> {
    let i = position(peers, peer_with_key(p.torrent_id, p.user_id, p.peer_id));
    if i < peers.len() {
        Ok(peers.update(i, PeerView { id: peers[i].id, ..p }))
    } else if position(peers, peer_with_id(p.id)) < peers.len() {
        Err(Error::DuplicateKey)
    } else {
        Ok(peers.push(p))
    }
}

/// The peers of a torrent that seed, or those that leech, up to `limit` of
/// them, the one updated last first.
pub open spec fn swarm(peers: Seq<PeerView>, torrent_id: Uuid, seeder: bool, limit: int) -> Seq<
    PeerView,
> {
    if limit <= 0 {
        Seq::empty()
    } else {
        by_recency(those(peers, peer_in(torrent_id, seeder)), limit as nat)
    }
}

fn index_by_id(peers: &Vec<Peer>, id: Uuid) -> (r: usize)
    ensures
        r == position(rows(peers@), peer_with_id(id)),
        r <= peers.len(),
{
    let mut i: usize = 0;
    while i < peers.len()
        invariant
            i <= peers.len(),
            forall|j: int| 0 <= j < i ==> !peer_with_id(id)(#[trigger] rows(peers@)[j]),
        decreases peers.len() - i,
    {
        if peers[i].id == id {
            proof {
                lemma_position_is(rows(peers@), peer_with_id(id), i as int);
            }
            return i;
        }
        i += 1;
    }
    proof {
        lemma_position_is(rows(peers@), peer_with_id(id), i as int);
    }
    i
}

fn index_by_key(peers: &Vec<Peer>, torrent_id: Uuid, user_id: Uuid, peer_id: &[u8]) -> (r: usize)
    ensures
        r == position(rows(peers@), peer_with_key(torrent_id, user_id, peer_id@)),
        r <= peers.len(),
{
    let ghost f = peer_with_key(torrent_id, user_id, peer_id@);
    let mut i: usize = 0;
    while i < peers.len()
        invariant
            i <= peers.len(),
            f == peer_with_key(torrent_id, user_id, peer_id@),
            forall|j: int| 0 <= j < i ==> !f(#[trigger] rows(peers@)[j]),
        decreases peers.len() - i,
    {
        if peers[i].torrent_id == torrent_id && peers[i].user_id == user_id && bytes_eq(
            peers[i].peer_id.as_slice(),
            peer_id,
        ) {
            proof {
                lemma_position_is(rows(peers@), f, i as int);
            }
            return i;
        }
        i += 1;
    }
    proof {
        lemma_position_is(rows(peers@), f, i as int);
    }
    i
}

/// The position of the first of the rows updated last.
fn index_of_newest(peers: &Vec<Peer>) -> (r: usize)
    requires
        peers.len() > 0,
    ensures
        r == newest(rows(peers@)),
        r < peers.len(),
{
    let mut best: usize = 0;
    let mut i: usize = 1;
    proof {
        assert(rows(peers@).take(1).len() == 1);
    }
    while i < peers.len()
        invariant
            1 <= i <= peers.len(),
            best < i,
            best == newest(rows(peers@).take(i as int)),
        decreases peers.len() - i,
    {
        proof {
            let all = rows(peers@);
            assert(all.take(i + 1).drop_last() =~= all.take(i as int));
            assert(all.take(i + 1).last() == all[i as int]);
            assert(all.take(i + 1)[best as int] == all[best as int]);
        }
        if peers[i].updated_at > peers[best].updated_at {
            best = i;
        }
        i += 1;
    }
    proof {
        assert(rows(peers@).take(peers.len() as int) =~= rows(peers@));
    }
    best
}

impl Peer {
    /// Finds a peer by its identifier.
    pub fn find(id: &Uuid, db: &Tables) -> (r: Option<Peer>)
        ensures
            match r {
                Some(p) => first(db@.peers, peer_with_id(*id)) == Some(p@),
                None => first(db@.peers, peer_with_id(*id)).is_none(),
            },
    {
        let i = index_by_id(&db.peers, *id);
        if i < db.peers.len() {
            Some(db.peers[i].clone())
        } else {
            None
        }
    }

    /// Finds the peer that a user has in a torrent under a peer id.
    pub fn find_for_announce(torrent_id: &Uuid, user_id: &Uuid, peer_id: &[u8], db: &Tables) -> (r:
        Option<Peer>)
        ensures
            match r {
                Some(p) => first(db@.peers, peer_with_key(*torrent_id, *user_id, peer_id@)) == Some(
                    p@,
                ),
                None => first(db@.peers, peer_with_key(*torrent_id, *user_id, peer_id@)).is_none(),
            },
    {
        let i = index_by_key(&db.peers, *torrent_id, *user_id, peer_id);
        if i < db.peers.len() {
            Some(db.peers[i].clone())
        } else {
            None
        }
    }

    /// The seeders of a torrent, or its leechers, up to `limit` of them, the
    /// one updated last first.
    pub fn peers_for_torrent(torrent_id: &Uuid, seeder: bool, limit: i64, db: &Tables) -> (r: Vec<
        Peer,
    >)
        ensures
            rows(r@) == swarm(db@.peers, *torrent_id, seeder, limit as int),
    {
        let mut out: Vec<Peer> = Vec::new();
        if limit <= 0 {
            assert(rows(out@) =~= Seq::empty());
            return out;
        }
        let ghost f = peer_in(*torrent_id, seeder);
        let mut pool: Vec<Peer> = Vec::new();
        let mut i: usize = 0;
        proof {
            assert(db@.peers.take(0) =~= Seq::empty());
            assert(rows(pool@) =~= Seq::empty());
        }
        while i < db.peers.len()
            invariant
                i <= db.peers.len(),
                f == peer_in(*torrent_id, seeder),
                rows(pool@) == those(db@.peers.take(i as int), f),
            decreases db.peers.len() - i,
        {
            proof {
                assert(db@.peers.take(i + 1).drop_last() =~= db@.peers.take(i as int));
                assert(db@.peers.take(i + 1).last() == db.peers@[i as int]@);
            }
            if db.peers[i].torrent_id == *torrent_id && db.peers[i].seeder == seeder {
                let ghost before = rows(pool@);
                pool.push(db.peers[i].clone());
                assert(rows(pool@) =~= before.push(db.peers@[i as int]@));
            }
            i += 1;
        }
        proof {
            assert(db@.peers.take(db.peers.len() as int) =~= db@.peers);
            assert(rows(out@) =~= Seq::empty());
        }
        let ghost all = rows(pool@);
        let mut n: i64 = 0;
        while n < limit && pool.len() > 0
            invariant
                0 <= n <= limit,
                by_recency(all, limit as nat) == rows(out@) + by_recency(
                    rows(pool@),
                    (limit - n) as nat,
                ),
            decreases limit - n,
        {
            let k = index_of_newest(&pool);
            let ghost before = rows(out@);
            let ghost left = rows(pool@);
            let p = pool.remove(k);
            assert(rows(pool@) =~= left.remove(k as int));
            assert(p@ == left[k as int]);
            out.push(p);
            assert(rows(out@) =~= before + seq![left[k as int]]);
            n += 1;
            assert(by_recency(all, limit as nat) =~= rows(out@) + by_recency(
                rows(pool@),
                (limit - n) as nat,
            ));
        }
        assert(by_recency(rows(pool@), (limit - n) as nat) =~= Seq::empty());
        assert(rows(out@) =~= by_recency(all, limit as nat));
        out
    }

    /// The seeders of a torrent, up to `limit`, the one updated last first.
    pub fn seeder_for_torrent(torrent_id: &Uuid, limit: i64, db: &Tables) -> (r: Vec<Peer>)
        ensures
            rows(r@) == swarm(db@.peers, *torrent_id, true, limit as int),
    {
        Self::peers_for_torrent(torrent_id, true, limit, db)
    }

    /// The leechers of a torrent, up to `limit`, the one updated last first.
    pub fn leecher_for_torrent(torrent_id: &Uuid, limit: i64, db: &Tables) -> (r: Vec<Peer>)
        ensures
            rows(r@) == swarm(db@.peers, *torrent_id, false, limit as int),
    {
        Self::peers_for_torrent(torrent_id, false, limit, db)
    }

    /// Saves the peer: see [`saved_peer`]. The result is the number of rows
    /// written.
    pub fn save(&self, db: &mut Tables) -> (r: Result<usize, Error>)
        ensures
            match saved_peer(old(db)@.peers, self@) {
                Ok(peers) => r == Ok::<usize, Error>(1) && final(db)@ == (TablesView {
                    peers,
                    ..old(db)@
                }),
                Err(e) => r == Err::<usize, Error>(e) && final(db)@ == old(db)@,
            },
    {
        let i = index_by_key(&db.peers, self.torrent_id, self.user_id, self.peer_id.as_slice());
        if i < db.peers.len() {
            let mut row = self.clone();
            row.id = db.peers[i].id;
            let ghost before = rows(db.peers@);
            db.peers[i] = row;
            assert(rows(db.peers@) =~= before.update(i as int, row@));
            Ok(1)
        } else if index_by_id(&db.peers, self.id) < db.peers.len() {
            Err(Error::DuplicateKey)
        } else {
            let ghost before = rows(db.peers@);
            db.peers.push(self.clone());
            assert(rows(db.peers@) =~= before.push(self@));
            Ok(1)
        }
    }

    /// Deletes the rows that have the identifier of this peer. The result
    /// is the number of rows deleted.
    pub fn delete(&self, db: &mut Tables) -> (r: usize)
        ensures
            final(db)@ == (TablesView {
                peers: without(old(db)@.peers, peer_with_id(self.id)),
                ..old(db)@
            }),
            r == old(db)@.peers.len() - final(db)@.peers.len(),
    {
        remove_peers(&mut db.peers, self.id)
    }
}

fn remove_peers(peers: &mut Vec<Peer>, id: Uuid) -> (r: usize)
    ensures
        rows(final(peers)@) == without(rows(old(peers)@), peer_with_id(id)),
        r == old(peers)@.len() - final(peers)@.len(),
{
    let ghost keep = |p: PeerView| !peer_with_id(id)(p);
    let mut i: usize = 0;
    let mut n: usize = 0;
    while i < peers.len()
        invariant
            i <= peers.len(),
            keep == (|p: PeerView| !peer_with_id(id)(p)),
            those(rows(peers@), keep) == those(rows(old(peers)@), keep),
            forall|j: int| 0 <= j < i ==> keep(#[trigger] rows(peers@)[j]),
            n + peers.len() == old(peers).len(),
        decreases peers.len() - i,
    {
        if peers[i].id == id {
            let ghost before = rows(peers@);
            proof {
                lemma_those_remove(before, keep, i as int);
            }
            let _ = peers.remove(i);
            assert(rows(peers@) =~= before.remove(i as int));
            n += 1;
        } else {
            i += 1;
        }
    }
    proof {
        lemma_those_all(rows(peers@), keep);
    }
    n
}

impl crate::db::Row for Peer {
    fn duplicate(&self) -> (r: Self) {
        self.clone()
    }
}

impl crate::db::Dated for Peer {
    open spec fn stamp(v: PeerView) -> crate::models::Timestamp {
        v.updated_at
    }

    fn time(&self) -> (r: crate::models::Timestamp) {
        self.updated_at
    }
}

/// The condition to be in the swarm of a torrent.
pub struct InSwarm(pub Uuid);

impl crate::db::Criterion<Peer> for InSwarm {
    open spec fn holds(&self, v: PeerView) -> bool {
        v.torrent_id == self.0
    }

    fn test(&self, row: &Peer) -> (b: bool) {
        row.torrent_id == self.0
    }
}

/// The peers of a torrent, the one updated last first.
pub open spec fn swarm_of(peers: Seq<PeerView>, torrent_id: Uuid) -> Seq<PeerView> {
    let found = those(peers, crate::db::meeting::<Peer, InSwarm>(InSwarm(torrent_id)));
    crate::db::in_order::<Peer>(found, true, found.len())
}

/// The name shown for the user of a peer: empty where the user is not
/// known.
pub open spec fn shown_user(users: Seq<crate::models::user::UserView>, p: PeerView) -> Seq<char> {
    match crate::models::user::name_of(users, p.user_id) {
        Some(name) => name,
        None => Seq::empty(),
    }
}

impl Peer {
    /// The peers of a torrent, the one updated last first, each with the
    /// name of its user.
    pub fn find_for_torrent(torrent_id: &Uuid, db: &Tables) -> (r: Vec<(Self, String)>)
        ensures
            r@.len() == swarm_of(db@.peers, *torrent_id).len(),
            forall|i: int|
                0 <= i < r@.len() ==> (#[trigger] r@[i]).0@ == swarm_of(db@.peers, *torrent_id)[i]
                    && r@[i].1@ == shown_user(db@.users, swarm_of(db@.peers, *torrent_id)[i]),
    {
        let found = crate::db::select_where(&db.peers, &InSwarm(*torrent_id));
        let n = found.len();
        let mut ordered = crate::db::order_rows(found, true, n);
        let ghost all = rows(ordered@);
        let mut out: Vec<(Peer, String)> = Vec::new();
        let mut i: usize = 0;
        let total = ordered.len();
        while i < total
            invariant
                i <= total,
                total == ordered.len(),
                rows(ordered@) == all,
                out@.len() == i,
                forall|j: int|
                    0 <= j < i ==> (#[trigger] out@[j]).0@ == all[j] && out@[j].1@ == shown_user(
                        db@.users,
                        all[j],
                    ),
            decreases total - i,
        {
            let peer = ordered[i].clone();
            assert(peer@ == all[i as int]);
            let user_name = crate::models::user::HasUser::user_name(&peer, db);
            out.push((peer, user_name));
            i += 1;
        }
        out
    }
}

} // verus!
