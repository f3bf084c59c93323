//! What holds of every announce: laws that follow from the definitions in
//! [`crate::tracker::announce`], each stated over the tables before and
//! after.

use vstd::prelude::*;
use crate::db::{
    count, distinct, first, lemma_position, lemma_position_is, lemma_those, lemma_those_distinct,
    position, same_account, same_peer, same_peer_id, same_transfer_id, TablesView, those,
};
use crate::models::peer::{
    lemma_by_recency, peer_in, peer_with_id, peer_with_key, PeerView, saved_peer, swarm,
};
use crate::models::{Timestamp, Uuid};
use crate::models::torrent::{
    peer_counts, saved_torrent, saved_transfer, torrent_with_hash, torrent_with_id, TorrentView,
    Transfer, transfer_of, transfer_with_id,
};
use crate::models::user::{saved_user, user_with_passcode, UserView};
use crate::error::Error;
use crate::tracker::announce::{
    AnnounceResponseView, handled, outcome, accounted, announced, AnnounceRequestView, credited, Event, peers_after, planned, reconciled,
    selection, touched,
};

verus! {

/// Where `f` holds of no row, `those` selects nothing.
pub proof fn lemma_those_none<T>(table: Seq<T>, f: spec_fn(T) -> bool)
    requires
        position(table, f) == table.len(),
    ensures
        those(table, f).len() == 0,
{
    lemma_position(table, f);
    lemma_those(table, f);
    if those(table, f).len() > 0 {
        let x = those(table, f)[0];
        assert(table.contains(x));
        let j = choose|j: int| 0 <= j < table.len() && table[j] == x;
        assert(!f(table[j]));
    }
}

/// Saving a torrent changes no identifier of the torrents table.
pub proof fn lemma_saved_torrent_ids(torrents: Seq<TorrentView>, t: TorrentView, id: Uuid)
    ensures
        position(saved_torrent(torrents, t), torrent_with_id(id)) == position(
            torrents,
            torrent_with_id(id),
        ),
        saved_torrent(torrents, t).len() == torrents.len(),
{
    let f = torrent_with_id(id);
    let after = saved_torrent(torrents, t);
    lemma_position(torrents, f);
    let p = position(torrents, f);
    assert forall|i: int| 0 <= i < p implies !f(#[trigger] after[i]) by {
        assert(!f(torrents[i]));
    }
    lemma_position_is(after, f, p);
}

/// The user and the torrent that an announce is for, where there are such.
pub open spec fn subject(db: TablesView, msg: AnnounceRequestView) -> (UserView, TorrentView)
    recommends
        first(db.users, user_with_passcode(msg.passcode)).is_some(),
        first(db.torrents, torrent_with_hash(msg.info_hash)).is_some(),
{
    (
        first(db.users, user_with_passcode(msg.passcode)).unwrap(),
        first(db.torrents, torrent_with_hash(msg.info_hash)).unwrap(),
    )
}

/// An announce with `stopped` for a peer that the torrent has never seen
/// creates and deletes no peer, and is answered with the counts of the
/// swarm as it was. This holds whatever identifiers are made for new rows.
/// The announce fails, and then changes nothing, in two cases only: where
/// what is left does not fit the counter that holds it, and where the user
/// has no account on the torrent yet and the identifier made for one is
/// taken.
pub proof fn lemma_stopped_unseen(
    db: TablesView,
    msg: AnnounceRequestView,
    now: Timestamp,
    new_peer: Uuid,
    new_transfer: Uuid,
)
    requires
        msg.event == Event::Stopped,
        first(db.users, user_with_passcode(msg.passcode)).is_some(),
        first(db.torrents, torrent_with_hash(msg.info_hash)).is_some(),
        first(
            db.peers,
            peer_with_key(subject(db, msg).1.id, subject(db, msg).0.id, msg.peer_id),
        ).is_none(),
    ensures
        match announced(db, msg, now, new_peer, new_transfer) {
            Ok((after, resp)) => {
                &&& after.peers == db.peers
                &&& resp.complete as int == peer_counts(db, subject(db, msg).1.id).0
                    % 0x1_0000_0000
                &&& resp.incomplete as int == peer_counts(db, subject(db, msg).1.id).1
                    % 0x1_0000_0000
            },
            Err(e) => if msg.left > i64::MAX {
                e == Error::CounterRange
            } else {
                &&& e == Error::DuplicateKey
                &&& first(
                    db.transfers,
                    transfer_of(subject(db, msg).0.id, subject(db, msg).1.id),
                ).is_none()
                &&& position(db.transfers, transfer_with_id(new_transfer)) < db.transfers.len()
            },
        },
{
    let (user, torrent) = subject(db, msg);
    lemma_position(db.transfers, transfer_of(user.id, torrent.id));
    lemma_position(db.transfers, transfer_with_id(new_transfer));
    lemma_position(db.torrents, torrent_with_hash(msg.info_hash));
    lemma_position(db.torrents, torrent_with_id(torrent.id));
    if msg.left <= i64::MAX {
        let (peer, d) = reconciled(None, msg, torrent.id, user.id, now, new_peer).unwrap();
        let torrent2 = touched(torrent, peer.seeder, msg.event, now).unwrap();
        lemma_saved_torrent_ids(db.torrents, torrent2, torrent.id);
    }
}

/// What a first announce of a seeder leaves: exactly one more peer, the
/// last row, which is the peer of the announce, with its port and its user
/// agent, seeds, has nothing left and is finished at `now`; the totals of
/// the user as they were; the torrent visible; and the account of the user
/// on the torrent,
/// which is new, with empty counters and finished at `now`, where there was
/// none, and keeps its counters where there was one.
pub open spec fn seeded(
    db: TablesView,
    msg: AnnounceRequestView,
    now: Timestamp,
    after: TablesView,
) -> bool {
    let (user, torrent) = subject(db, msg);
    let key = peer_with_key(torrent.id, user.id, msg.peer_id);
    let account = transfer_of(user.id, torrent.id);
    &&& after.peers.len() == db.peers.len() + 1
    &&& after.peers.drop_last() == db.peers
    &&& key(after.peers.last())
    &&& after.peers.last().seeder
    &&& after.peers.last().finished_at == Some(now)
    &&& after.peers.last().bytes_left == 0
    &&& after.peers.last().port == msg.port
    &&& after.peers.last().user_agent == msg.user_agent
    &&& count(after.peers, key) == 1
    &&& first(after.users, user_with_passcode(msg.passcode)).is_some()
    &&& subject(after, msg).0.id == user.id
    &&& subject(after, msg).0.uploaded == user.uploaded
    &&& subject(after, msg).0.downloaded == user.downloaded
    &&& forall|i: int|
        0 <= i < after.torrents.len() && (#[trigger] after.torrents[i]).id == torrent.id
            ==> after.torrents[i].visible
    &&& first(after.torrents, torrent_with_hash(msg.info_hash)).is_some()
    &&& first(after.torrents, torrent_with_hash(msg.info_hash)).unwrap().visible
    &&& first(db.transfers, account).is_none() ==> {
        &&& after.transfers.drop_last() == db.transfers
        &&& account(after.transfers.last())
        &&& after.transfers.last().bytes_uploaded == 0
        &&& after.transfers.last().bytes_downloaded == 0
        &&& after.transfers.last().time_seeded == 0
        &&& after.transfers.last().completed_at == Some(now)
        &&& count(after.transfers, account) == 1
    }
    &&& first(db.transfers, account).is_some() ==> {
        let i = position(db.transfers, account);
        &&& after.transfers == db.transfers.update(i, after.transfers[i])
        &&& after.transfers[i].bytes_uploaded == db.transfers[i].bytes_uploaded
        &&& after.transfers[i].bytes_downloaded == db.transfers[i].bytes_downloaded
        &&& after.transfers[i].time_seeded == db.transfers[i].time_seeded
        &&& after.transfers[i].completed_at == db.transfers[i].completed_at
    }
}

/// An announce with `started` and nothing left to download, for a peer
/// that the torrent has never seen, makes exactly one peer, which seeds and
/// is finished at the time of the announce, and makes the torrent visible.
/// Where the user had no account on the torrent it opens one, with empty
/// counters and finished at the time of the announce; an account that was
/// there keeps its counters. This holds whatever identifiers are made for
/// new rows. The announce fails, and then changes nothing, only where an
/// identifier made for a new row is taken.
pub proof fn lemma_started_seeding(
    db: TablesView,
    msg: AnnounceRequestView,
    now: Timestamp,
    new_peer: Uuid,
    new_transfer: Uuid,
)
    requires
        msg.event == Event::Started,
        msg.left == 0,
        first(db.users, user_with_passcode(msg.passcode)).is_some(),
        first(db.torrents, torrent_with_hash(msg.info_hash)).is_some(),
        first(
            db.peers,
            peer_with_key(subject(db, msg).1.id, subject(db, msg).0.id, msg.peer_id),
        ).is_none(),
    ensures
        announced(db, msg, now, new_peer, new_transfer).is_err() ==> {
            &&& announced(db, msg, now, new_peer, new_transfer) == Err::<
                (TablesView, AnnounceResponseView),
                Error,
            >(Error::DuplicateKey)
            &&& position(db.peers, peer_with_id(new_peer)) < db.peers.len() || (first(
                db.transfers,
                transfer_of(subject(db, msg).0.id, subject(db, msg).1.id),
            ).is_none() && position(db.transfers, transfer_with_id(new_transfer))
                < db.transfers.len())
        },
        announced(db, msg, now, new_peer, new_transfer).is_ok() ==> seeded(
            db,
            msg,
            now,
            announced(db, msg, now, new_peer, new_transfer).unwrap().0,
        ),
{
    let (user, torrent) = subject(db, msg);
    let key = peer_with_key(torrent.id, user.id, msg.peer_id);
    let account = transfer_of(user.id, torrent.id);
    let (peer, d) = reconciled(None, msg, torrent.id, user.id, now, new_peer).unwrap();
    lemma_position(db.peers, key);
    lemma_position(db.peers, peer_with_id(new_peer));
    lemma_position(db.transfers, account);
    lemma_position(db.transfers, transfer_with_id(new_transfer));
    lemma_position(db.torrents, torrent_with_hash(msg.info_hash));
    if announced(db, msg, now, new_peer, new_transfer).is_ok() {
        lemma_announce_leaves(db, msg, now, new_peer, new_transfer);
        let torrent2 = touched(torrent, peer.seeder, msg.event, now).unwrap();
        let after = announced(db, msg, now, new_peer, new_transfer).unwrap().0;
        assert(after.peers == db.peers.push(peer));
        assert(after.peers.drop_last() =~= db.peers);
        lemma_those_none(db.peers, key);
        assert(those(after.peers, key) == those(db.peers, key).push(peer));
        // the torrents table
        let by_hash = torrent_with_hash(msg.info_hash);
        let p = position(db.torrents, by_hash);
        assert forall|i: int| 0 <= i < p implies !by_hash(#[trigger] after.torrents[i]) || (
        after.torrents[i] == torrent2) by {
            assert(!by_hash(db.torrents[i]));
        }
        lemma_position(after.torrents, by_hash);
        assert(by_hash(after.torrents[p]));
        let q = position(after.torrents, by_hash);
        if q < p {
            assert(after.torrents[q] == torrent2);
        }
        if first(db.transfers, account).is_none() {
            let t = after.transfers.last();
            assert(after.transfers.drop_last() =~= db.transfers);
            lemma_those_none(db.transfers, account);
            assert(those(after.transfers, account) == those(db.transfers, account).push(t));
        }
    }
}

/// After a user is saved, the first user with its passcode is the user
/// as saved, provided it was the first with that passcode before.
pub proof fn lemma_saved_user_found(users: Seq<UserView>, u: UserView, passcode: Seq<u8>)
    requires
        first(users, user_with_passcode(passcode)).is_some(),
        first(users, user_with_passcode(passcode)).unwrap().id == u.id,
        u.passcode == passcode,
    ensures
        first(saved_user(users, u), user_with_passcode(passcode)) == Some(u),
{
    let f = user_with_passcode(passcode);
    let after = saved_user(users, u);
    lemma_position(users, f);
    lemma_position(after, f);
    let p = position(users, f);
    let q = position(after, f);
    assert(after[p] == u);
    if q < p {
        assert(!f(users[q]));
    }
    if q > p {
        assert(!f(after[p]));
    }
}

/// After a torrent is saved, the first torrent with its info hash is the
/// torrent as saved, provided it was the first with that info hash before.
pub proof fn lemma_saved_torrent_found(torrents: Seq<TorrentView>, t: TorrentView, hash: Seq<u8>)
    requires
        first(torrents, torrent_with_hash(hash)).is_some(),
        first(torrents, torrent_with_hash(hash)).unwrap().id == t.id,
        t.info_hash == hash,
    ensures
        first(saved_torrent(torrents, t), torrent_with_hash(hash)) == Some(t),
{
    let f = torrent_with_hash(hash);
    let after = saved_torrent(torrents, t);
    lemma_position(torrents, f);
    lemma_position(after, f);
    let p = position(torrents, f);
    let q = position(after, f);
    assert(after[p] == t);
    if q < p {
        assert(!f(torrents[q]));
    }
    if q > p {
        assert(!f(after[p]));
    }
}

/// After a peer is saved, the peer that its user has in its torrent under
/// its peer id is the peer as saved, with the identifier of its row.
pub proof fn lemma_saved_peer_found(peers: Seq<PeerView>, p: PeerView)
    requires
        saved_peer(peers, p).is_ok(),
    ensures
        first(
            saved_peer(peers, p).unwrap(),
            peer_with_key(p.torrent_id, p.user_id, p.peer_id),
        ).is_some(),
        first(saved_peer(peers, p).unwrap(), peer_with_key(p.torrent_id, p.user_id, p.peer_id))
            == Some(
            PeerView {
                id: first(
                    saved_peer(peers, p).unwrap(),
                    peer_with_key(p.torrent_id, p.user_id, p.peer_id),
                ).unwrap().id,
                ..p
            },
        ),
{
    let f = peer_with_key(p.torrent_id, p.user_id, p.peer_id);
    let after = saved_peer(peers, p).unwrap();
    lemma_position(peers, f);
    let i = position(peers, f);
    assert forall|j: int| 0 <= j < i implies !f(#[trigger] after[j]) by {
        assert(!f(peers[j]));
    }
    assert(f(after[i]));
    lemma_position_is(after, f, i);
}

/// After a transfer is saved, the account of its user on its torrent is
/// the transfer as saved, with the identifier of its row.
pub proof fn lemma_saved_transfer_found(transfers: Seq<Transfer>, t: Transfer)
    requires
        saved_transfer(transfers, t).is_ok(),
    ensures
        first(saved_transfer(transfers, t).unwrap(), transfer_of(t.user_id, t.torrent_id)).is_some(),
        first(saved_transfer(transfers, t).unwrap(), transfer_of(t.user_id, t.torrent_id)) == Some(
            Transfer {
                id: first(
                    saved_transfer(transfers, t).unwrap(),
                    transfer_of(t.user_id, t.torrent_id),
                ).unwrap().id,
                ..t
            },
        ),
{
    let f = transfer_of(t.user_id, t.torrent_id);
    let after = saved_transfer(transfers, t).unwrap();
    lemma_position(transfers, f);
    let i = position(transfers, f);
    assert forall|j: int| 0 <= j < i implies !f(#[trigger] after[j]) by {
        assert(!f(transfers[j]));
    }
    assert(f(after[i]));
    lemma_position_is(after, f, i);
}

/// What an announce that succeeds leaves behind: the user, the torrent and
/// the account that the next announce of the same client will find, and,
/// unless the client stopped, its peer with the counters of the announce
/// (or with empty counters, where the announce made the peer).
pub proof fn lemma_announce_leaves(
    db: TablesView,
    msg: AnnounceRequestView,
    now: Timestamp,
    new_peer: Uuid,
    new_transfer: Uuid,
)
    requires
        announced(db, msg, now, new_peer, new_transfer).is_ok(),
    ensures
        ({
            let after = announced(db, msg, now, new_peer, new_transfer).unwrap().0;
            let (user, torrent) = subject(db, msg);
            let (user2, torrent2) = subject(after, msg);
            let key = peer_with_key(torrent.id, user.id, msg.peer_id);
            let account = transfer_of(user.id, torrent.id);
            let d = reconciled(first(db.peers, key), msg, torrent.id, user.id, now, new_peer).unwrap().1;
            &&& first(db.users, user_with_passcode(msg.passcode)).is_some()
            &&& first(db.torrents, torrent_with_hash(msg.info_hash)).is_some()
            &&& first(after.users, user_with_passcode(msg.passcode)).is_some()
            &&& first(after.torrents, torrent_with_hash(msg.info_hash)).is_some()
            &&& user2.id == user.id
            &&& torrent2.id == torrent.id
            &&& user2.uploaded == user.uploaded + d.upload
            &&& user2.downloaded == user.downloaded + d.download
            &&& first(after.transfers, account).is_some()
            &&& first(db.transfers, account).is_some() ==> {
                &&& first(after.transfers, account).unwrap().bytes_uploaded == first(
                    db.transfers,
                    account,
                ).unwrap().bytes_uploaded + d.upload
                &&& first(after.transfers, account).unwrap().bytes_downloaded == first(
                    db.transfers,
                    account,
                ).unwrap().bytes_downloaded + d.download
            }
            &&& first(db.peers, key).is_some() ==> {
                &&& d.upload == msg.uploaded - first(db.peers, key).unwrap().bytes_uploaded
                &&& d.download == msg.downloaded - first(db.peers, key).unwrap().bytes_downloaded
            }
            &&& first(db.peers, key).is_none() ==> d.upload == 0 && d.download == 0
            &&& msg.event != Event::Stopped ==> {
                &&& first(after.peers, key).is_some()
                &&& first(db.peers, key).is_some() ==> {
                    &&& first(after.peers, key).unwrap().bytes_uploaded == msg.uploaded
                    &&& first(after.peers, key).unwrap().bytes_downloaded == msg.downloaded
                }
                &&& first(db.peers, key).is_none() ==> {
                    &&& first(after.peers, key).unwrap().bytes_uploaded == 0
                    &&& first(after.peers, key).unwrap().bytes_downloaded == 0
                }
            }
        }),
{
    let after = announced(db, msg, now, new_peer, new_transfer).unwrap().0;
    assert(first(db.users, user_with_passcode(msg.passcode)).is_some());
    assert(first(db.torrents, torrent_with_hash(msg.info_hash)).is_some());
    let (user, torrent) = subject(db, msg);
    let key = peer_with_key(torrent.id, user.id, msg.peer_id);
    let account = transfer_of(user.id, torrent.id);
    let existing = first(db.peers, key);
    assert(reconciled(existing, msg, torrent.id, user.id, now, new_peer).is_ok());
    let (peer, d) = reconciled(existing, msg, torrent.id, user.id, now, new_peer).unwrap();
    assert(accounted(first(db.transfers, account), peer, d, msg.event, now, new_transfer).is_ok());
    assert(credited(user, d).is_ok());
    assert(touched(torrent, peer.seeder, msg.event, now).is_ok());
    let transfer = accounted(
        first(db.transfers, account),
        peer,
        d,
        msg.event,
        now,
        new_transfer,
    ).unwrap();
    let user2 = credited(user, d).unwrap();
    let torrent2 = touched(torrent, peer.seeder, msg.event, now).unwrap();
    lemma_position(db.users, user_with_passcode(msg.passcode));
    lemma_position(db.torrents, torrent_with_hash(msg.info_hash));
    lemma_position(db.peers, key);
    lemma_saved_user_found(db.users, user2, msg.passcode);
    lemma_saved_torrent_found(db.torrents, torrent2, msg.info_hash);
    assert(saved_transfer(db.transfers, transfer).is_ok());
    assert(peers_after(db.peers, existing.is_some(), peer, msg.event).is_ok());
    lemma_position(db.transfers, account);
    assert(peer.user_id == user.id && peer.torrent_id == torrent.id && peer.peer_id == msg.peer_id);
    assert(transfer.user_id == user.id && transfer.torrent_id == torrent.id);
    lemma_saved_transfer_found(db.transfers, transfer);
    if msg.event != Event::Stopped {
        lemma_saved_peer_found(db.peers, peer);
    }
    assert(after.users == saved_user(db.users, user2));
    assert(after.torrents == saved_torrent(db.torrents, torrent2));
    assert(after.transfers == saved_transfer(db.transfers, transfer).unwrap());
    assert(subject(after, msg).0 == user2);
    assert(subject(after, msg).1 == torrent2);
    assert(first(after.transfers, account).is_some());
}

/// Two announces of one client, one after the other: the second adds to
/// the lifetime totals of the user, and to the account of the user on the
/// torrent, exactly what the client reports to have moved since the first.
///
/// This is stated for a client whose peer was there before the first
/// announce, or whose first announce reports nothing moved: a peer that an
/// announce makes starts with empty counters, whatever the announce
/// reports.
pub proof fn lemma_consecutive_announces(
    db: TablesView,
    one: AnnounceRequestView,
    two: AnnounceRequestView,
    now1: Timestamp,
    now2: Timestamp,
    ids1: (Uuid, Uuid),
    ids2: (Uuid, Uuid),
)
    requires
        one.passcode == two.passcode,
        one.info_hash == two.info_hash,
        one.peer_id == two.peer_id,
        one.event != Event::Stopped,
        announced(db, one, now1, ids1.0, ids1.1).is_ok(),
        announced(
            announced(db, one, now1, ids1.0, ids1.1).unwrap().0,
            two,
            now2,
            ids2.0,
            ids2.1,
        ).is_ok(),
        first(
            db.peers,
            peer_with_key(subject(db, one).1.id, subject(db, one).0.id, one.peer_id),
        ).is_some() || (one.uploaded == 0 && one.downloaded == 0),
    ensures
        ({
            let mid = announced(db, one, now1, ids1.0, ids1.1).unwrap().0;
            let end = announced(mid, two, now2, ids2.0, ids2.1).unwrap().0;
            let account = transfer_of(subject(db, one).0.id, subject(db, one).1.id);
            &&& subject(end, two).0.uploaded == subject(mid, two).0.uploaded + (two.uploaded
                - one.uploaded)
            &&& subject(end, two).0.downloaded == subject(mid, two).0.downloaded + (two.downloaded
                - one.downloaded)
            &&& first(mid.transfers, account).is_some()
            &&& first(end.transfers, account).is_some()
            &&& first(end.transfers, account).unwrap().bytes_uploaded == first(
                mid.transfers,
                account,
            ).unwrap().bytes_uploaded + (two.uploaded - one.uploaded)
            &&& first(end.transfers, account).unwrap().bytes_downloaded == first(
                mid.transfers,
                account,
            ).unwrap().bytes_downloaded + (two.downloaded - one.downloaded)
        }),
{
    let mid = announced(db, one, now1, ids1.0, ids1.1).unwrap().0;
    lemma_announce_leaves(db, one, now1, ids1.0, ids1.1);
    lemma_announce_leaves(mid, two, now2, ids2.0, ids2.1);
}

/// Saving a peer keeps the peers of a swarm distinct.
pub proof fn lemma_saved_peer_distinct(peers: Seq<PeerView>, p: PeerView)
    requires
        distinct(peers, same_peer()),
        distinct(peers, same_peer_id()),
        saved_peer(peers, p).is_ok(),
    ensures
        distinct(saved_peer(peers, p).unwrap(), same_peer()),
        distinct(saved_peer(peers, p).unwrap(), same_peer_id()),
{
    let key = peer_with_key(p.torrent_id, p.user_id, p.peer_id);
    let after = saved_peer(peers, p).unwrap();
    lemma_position(peers, key);
    lemma_position(peers, peer_with_id(p.id));
    let at = position(peers, key);
    assert forall|i: int, j: int| 0 <= i < j < after.len() implies !same_peer()(
        #[trigger] after[i],
        #[trigger] after[j],
    ) by {
        if at < peers.len() {
            assert(!same_peer()(peers[i], peers[j]));
            assert(key(peers[at]));
        } else if j < peers.len() {
            assert(!same_peer()(peers[i], peers[j]));
        } else {
            assert(!key(peers[i]));
        }
    }
    assert forall|i: int, j: int| 0 <= i < j < after.len() implies !same_peer_id()(
        #[trigger] after[i],
        #[trigger] after[j],
    ) by {
        if at < peers.len() {
            assert(!same_peer_id()(peers[i], peers[j]));
        } else if j < peers.len() {
            assert(!same_peer_id()(peers[i], peers[j]));
        } else {
            assert(!peer_with_id(p.id)(peers[i]));
        }
    }
}

/// Saving a transfer keeps the accounts distinct.
pub proof fn lemma_saved_transfer_distinct(transfers: Seq<Transfer>, t: Transfer)
    requires
        distinct(transfers, same_account()),
        distinct(transfers, same_transfer_id()),
        saved_transfer(transfers, t).is_ok(),
    ensures
        distinct(saved_transfer(transfers, t).unwrap(), same_account()),
        distinct(saved_transfer(transfers, t).unwrap(), same_transfer_id()),
{
    let key = transfer_of(t.user_id, t.torrent_id);
    let after = saved_transfer(transfers, t).unwrap();
    lemma_position(transfers, key);
    lemma_position(transfers, transfer_with_id(t.id));
    let at = position(transfers, key);
    assert forall|i: int, j: int| 0 <= i < j < after.len() implies !same_account()(
        #[trigger] after[i],
        #[trigger] after[j],
    ) by {
        if at < transfers.len() {
            assert(!same_account()(transfers[i], transfers[j]));
            assert(key(transfers[at]));
        } else if j < transfers.len() {
            assert(!same_account()(transfers[i], transfers[j]));
        } else {
            assert(!key(transfers[i]));
        }
    }
    assert forall|i: int, j: int| 0 <= i < j < after.len() implies !same_transfer_id()(
        #[trigger] after[i],
        #[trigger] after[j],
    ) by {
        if at < transfers.len() {
            assert(!same_transfer_id()(transfers[i], transfers[j]));
        } else if j < transfers.len() {
            assert(!same_transfer_id()(transfers[i], transfers[j]));
        } else {
            assert(!transfer_with_id(t.id)(transfers[i]));
        }
    }
}

/// What holds of the swarm at all times holds after every announce: no
/// announce gives a user a second peer in a torrent under one peer id, or
/// a second account on a torrent.
pub proof fn lemma_announce_keeps_swarm(
    db: TablesView,
    msg: AnnounceRequestView,
    now: Timestamp,
    new_peer: Uuid,
    new_transfer: Uuid,
)
    requires
        db.wf(),
    ensures
        match announced(db, msg, now, new_peer, new_transfer) {
            Ok((after, _)) => after.wf(),
            Err(_) => true,
        },
{
    if announced(db, msg, now, new_peer, new_transfer).is_ok() {
        let plan = planned(db, msg, now, new_peer, new_transfer).unwrap();
        if msg.event == Event::Stopped {
            if plan.existed {
                let gone = |p: PeerView| !peer_with_id(plan.peer.id)(p);
                lemma_those_distinct(db.peers, gone, same_peer());
                lemma_those_distinct(db.peers, gone, same_peer_id());
            }
        } else {
            lemma_saved_peer_distinct(db.peers, plan.peer);
        }
        lemma_saved_transfer_distinct(db.transfers, plan.transfer);
    }
}

/// The peers handed to a client are at most as many as it asked for, and
/// all of them are in the swarm of the torrent. Those of the role that it
/// wants come first, and peers of its own role follow only where the others
/// are fewer than it asked for; within each role no peer comes before one
/// that was updated later.
pub proof fn lemma_selection(peers: Seq<PeerView>, torrent_id: Uuid, want: bool, numwant: int)
    requires
        numwant >= 0,
    ensures
        selection(peers, torrent_id, want, numwant).len() <= numwant,
        forall|i: int|
            0 <= i < selection(peers, torrent_id, want, numwant).len() ==> peers.contains(
                #[trigger] selection(peers, torrent_id, want, numwant)[i],
            ) && selection(peers, torrent_id, want, numwant)[i].torrent_id == torrent_id,
        ({
            let first = swarm(peers, torrent_id, want, numwant);
            let chosen = selection(peers, torrent_id, want, numwant);
            &&& first.len() <= chosen.len()
            &&& chosen.len() > first.len() ==> first.len() == count(
                peers,
                peer_in(torrent_id, want),
            )
            &&& forall|i: int| 0 <= i < first.len() ==> (#[trigger] chosen[i]).seeder == want
            &&& forall|i: int|
                first.len() <= i < chosen.len() ==> (#[trigger] chosen[i]).seeder == !want
            &&& forall|i: int, j: int|
                0 <= i <= j < chosen.len() && (j < first.len() || first.len() <= i)
                    ==> chosen[i].updated_at >= chosen[j].updated_at
        }),
{
    let first = swarm(peers, torrent_id, want, numwant);
    let chosen = selection(peers, torrent_id, want, numwant);
    let wanted = those(peers, peer_in(torrent_id, want));
    let others = those(peers, peer_in(torrent_id, !want));
    lemma_those(peers, peer_in(torrent_id, want));
    lemma_those(peers, peer_in(torrent_id, !want));
    if numwant > 0 {
        lemma_by_recency(wanted, numwant as nat);
    }
    let rest = numwant - first.len();
    let second = swarm(peers, torrent_id, !want, rest);
    if rest > 0 {
        lemma_by_recency(others, rest as nat);
    }
    assert forall|i: int| 0 <= i < first.len() implies peers.contains(#[trigger] first[i])
        && first[i].torrent_id == torrent_id && first[i].seeder == want by {
        assert(wanted.contains(first[i]));
        let k = choose|k: int| 0 <= k < wanted.len() && wanted[k] == first[i];
        assert(peer_in(torrent_id, want)(wanted[k]));
        assert(peers.contains(wanted[k]));
    }
    assert forall|i: int| 0 <= i < second.len() implies peers.contains(#[trigger] second[i])
        && second[i].torrent_id == torrent_id && second[i].seeder == !want by {
        assert(others.contains(second[i]));
        let k = choose|k: int| 0 <= k < others.len() && others[k] == second[i];
        assert(peer_in(torrent_id, !want)(others[k]));
        assert(peers.contains(others[k]));
    }
    if first.len() < numwant {
        assert(chosen == first + second);
        assert forall|i: int| 0 <= i < chosen.len() implies peers.contains(#[trigger] chosen[i])
            && chosen[i].torrent_id == torrent_id by {
            if i < first.len() {
                assert(chosen[i] == first[i]);
            } else {
                assert(chosen[i] == second[i - first.len()]);
            }
        }
        assert forall|i: int| first.len() <= i < chosen.len() implies (
        #[trigger] chosen[i]).seeder == !want by {
            assert(chosen[i] == second[i - first.len()]);
        }
        assert forall|i: int, j: int|
            0 <= i <= j < chosen.len() && (j < first.len() || first.len()
                <= i) implies chosen[i].updated_at >= chosen[j].updated_at by {
            if j < first.len() {
                assert(chosen[i] == first[i] && chosen[j] == first[j]);
            } else {
                assert(chosen[i] == second[i - first.len()]);
                assert(chosen[j] == second[j - first.len()]);
            }
        }
    }
}

/// What `handle` leaves where an announce with `stopped` comes for a peer
/// that the torrent has never seen: where it answers, the peers are as they
/// were and the answer holds the counts of the swarm as it was; where it
/// fails, the tables are as they were, and it fails only because what is
/// left does not fit the counter that holds it, or because the user has no
/// account on the torrent yet and the identifier made for one is taken.
pub proof fn lemma_handled_stopped_unseen(
    before: TablesView,
    msg: AnnounceRequestView,
    r: Result<AnnounceResponseView, Error>,
    after: TablesView,
)
    requires
        handled(before, msg, r, after),
        msg.event == Event::Stopped,
        first(before.users, user_with_passcode(msg.passcode)).is_some(),
        first(before.torrents, torrent_with_hash(msg.info_hash)).is_some(),
        first(
            before.peers,
            peer_with_key(subject(before, msg).1.id, subject(before, msg).0.id, msg.peer_id),
        ).is_none(),
    ensures
        match r {
            Ok(resp) => {
                &&& after.peers == before.peers
                &&& resp.complete as int == peer_counts(before, subject(before, msg).1.id).0
                    % 0x1_0000_0000
                &&& resp.incomplete as int == peer_counts(before, subject(before, msg).1.id).1
                    % 0x1_0000_0000
            },
            Err(e) => {
                &&& after == before
                &&& if msg.left > i64::MAX {
                    e == Error::CounterRange
                } else {
                    e == Error::DuplicateKey && first(
                        before.transfers,
                        transfer_of(subject(before, msg).0.id, subject(before, msg).1.id),
                    ).is_none()
                }
            },
        },
{
    let (now, new_peer, new_transfer) = choose|now: Timestamp, new_peer: Uuid, new_transfer: Uuid|
        #[trigger] announced(before, msg, now, new_peer, new_transfer) == outcome(r, after);
    lemma_stopped_unseen(before, msg, now, new_peer, new_transfer);
}

/// What `handle` leaves where an announce with `started` and nothing left
/// to download comes for a peer that the torrent has never seen: where it
/// answers, what [`seeded`] says, at some time; where it fails, the tables
/// are as they were, and it fails only because an identifier made for a
/// new row is taken.
pub proof fn lemma_handled_started_seeding(
    before: TablesView,
    msg: AnnounceRequestView,
    r: Result<AnnounceResponseView, Error>,
    after: TablesView,
)
    requires
        handled(before, msg, r, after),
        msg.event == Event::Started,
        msg.left == 0,
        first(before.users, user_with_passcode(msg.passcode)).is_some(),
        first(before.torrents, torrent_with_hash(msg.info_hash)).is_some(),
        first(
            before.peers,
            peer_with_key(subject(before, msg).1.id, subject(before, msg).0.id, msg.peer_id),
        ).is_none(),
    ensures
        match r {
            Ok(_) => exists|now: Timestamp| #[trigger] seeded(before, msg, now, after),
            Err(e) => after == before && e == Error::DuplicateKey,
        },
{
    let (now, new_peer, new_transfer) = choose|now: Timestamp, new_peer: Uuid, new_transfer: Uuid|
        #[trigger] announced(before, msg, now, new_peer, new_transfer) == outcome(r, after);
    lemma_started_seeding(before, msg, now, new_peer, new_transfer);
    if r.is_ok() {
        assert(seeded(before, msg, now, after));
    }
}

} // verus!
