use ripalt::db::Tables;
use ripalt::error::{Error, ErrorKind};
use ripalt::models::peer::Peer;
use ripalt::models::torrent::{Torrent, Transfer, TorrentList};
use ripalt::models::user::User;
use ripalt::net::IpAddress;
use ripalt::settings::Tracker;
use ripalt::tracker::announce::{
    account, credit, handle, handle_at, reconcile, select, touch, AnnounceRequest, Deltas, Event,
    HttpRequest,
};
use ripalt::tracker::{announce, announce_at, AnnounceData};

const HASH: [u8; 20] = [0xaa; 20];
const PASSCODE: [u8; 4] = [0xde, 0xad, 0xbe, 0xef];

fn user(id: u128, passcode: &[u8]) -> User {
    User {
        id,
        name: format!("user{}", id),
        email: format!("user{}@example.org", id),
        password: vec![],
        salt: vec![],
        status: 2,
        created_at: 0,
        updated_at: 0,
        passcode: passcode.to_vec(),
        uploaded: 1000,
        downloaded: 2000,
        group_id: 1,
        ip_address: None,
        last_active: None,
    }
}

fn torrent(id: u128, info_hash: &[u8]) -> Torrent {
    Torrent {
        id,
        name: format!("torrent{}", id),
        info_hash: info_hash.to_vec(),
        category_id: 1,
        user_id: None,
        description: String::new(),
        size: 100,
        visible: false,
        completed: 0,
        last_action: None,
        last_seeder: None,
        created_at: 0,
        updated_at: 0,
    }
}

fn peer(id: u128, torrent_id: u128, user_id: u128, peer_id: &[u8], seeder: bool, updated_at: i64) -> Peer {
    Peer {
        id,
        torrent_id,
        user_id,
        ip_address: IpAddress::V4([10, 0, 0, id as u8]),
        port: 6881,
        bytes_uploaded: 0,
        bytes_downloaded: 0,
        bytes_left: if seeder { 0 } else { 50 },
        seeder,
        peer_id: peer_id.to_vec(),
        user_agent: "test".into(),
        crypto_enabled: true,
        crypto_port: Some(7000),
        offset_uploaded: 0,
        offset_downloaded: 0,
        created_at: 0,
        finished_at: None,
        updated_at,
    }
}

fn tables() -> Tables {
    let mut db = Tables::new();
    db.users.push(user(1, &PASSCODE));
    db.users.push(user(2, &[1, 2, 3, 4]));
    db.torrents.push(torrent(10, &HASH));
    db.torrents.push(torrent(11, &[0xbb; 20]));
    db
}

fn request(peer_id: &[u8], event: Event, uploaded: u64, downloaded: u64, left: u64) -> AnnounceRequest {
    AnnounceRequest {
        info_hash: HASH.to_vec(),
        peer_id: peer_id.to_vec(),
        port: 6881,
        uploaded,
        downloaded,
        left,
        compact: false,
        no_peer_id: false,
        event,
        numwant: 50,
        key: None,
        tracker_id: None,
        ip_address: IpAddress::V4([192, 0, 2, 1]),
        passcode: PASSCODE.to_vec(),
        user_agent: "client/1.0".into(),
        support_crypto: false,
        require_crypto: false,
        crypto_port: None,
    }
}

#[test]
fn started_with_nothing_left_makes_a_seeder() {
    let mut db = tables();
    let msg = request(b"-XX0001-000000000001", Event::Started, 0, 0, 0);
    let mut resp = handle_at(&mut db, &msg, 1000, 500, 600).unwrap();

    assert_eq!(db.peers.len(), 1);
    let p = &db.peers[0];
    assert_eq!(p.id, 500);
    assert_eq!(p.torrent_id, 10);
    assert_eq!(p.user_id, 1);
    assert!(p.seeder);
    assert_eq!(p.finished_at, Some(1000));
    assert_eq!(p.created_at, 1000);
    assert_eq!(p.updated_at, 1000);
    assert_eq!(p.bytes_left, 0);
    assert_eq!(p.peer_id, b"-XX0001-000000000001".to_vec());
    assert_eq!(p.user_agent, "client/1.0");
    assert_eq!(p.port, 6881);

    assert_eq!(db.transfers.len(), 1);
    let t = db.transfers[0];
    assert_eq!(
        t,
        Transfer {
            id: 600,
            user_id: 1,
            torrent_id: 10,
            bytes_uploaded: 0,
            bytes_downloaded: 0,
            time_seeded: 0,
            created_at: 1000,
            updated_at: 1000,
            completed_at: Some(1000),
        }
    );

    assert!(db.torrents[0].visible);
    assert_eq!(db.torrents[0].last_action, Some(1000));
    assert_eq!(db.torrents[0].last_seeder, Some(1000));
    assert_eq!(db.torrents[0].completed, 0);
    assert!(!db.torrents[1].visible);
    assert_eq!(db.users[0].uploaded, 1000);
    assert_eq!(db.users[0].downloaded, 2000);

    assert_eq!(resp.complete(), 1);
    assert_eq!(resp.incomplete(), 0);
    // a seeder wants leechers; with none there it is handed peers of its own role: itself
    let peers = resp.peers();
    assert_eq!(peers.len(), 1);
    assert_eq!(peers[0].id, 500);
}

#[test]
fn stopped_for_an_unseen_peer_touches_no_peer() {
    let mut db = tables();
    db.peers.push(peer(1, 10, 2, b"other", true, 5));
    db.peers.push(peer(2, 10, 2, b"another", false, 6));
    let msg = request(b"unseen", Event::Stopped, 0, 0, 10);
    let mut resp = handle_at(&mut db, &msg, 1000, 500, 600).unwrap();

    assert_eq!(db.peers.len(), 2);
    assert_eq!(db.peers[0].id, 1);
    assert_eq!(db.peers[1].id, 2);
    assert_eq!(resp.complete(), 1);
    assert_eq!(resp.incomplete(), 1);
    // a leecher is handed the seeders first, then the leechers
    let peers = resp.peers();
    assert_eq!(peers.iter().map(|p| p.id).collect::<Vec<_>>(), vec![1, 2]);
    // the account is opened all the same, and the torrent was seen
    assert_eq!(db.transfers.len(), 1);
    assert_eq!(db.transfers[0].completed_at, None);
    assert_eq!(db.torrents[0].last_action, Some(1000));
    assert_eq!(db.torrents[0].last_seeder, None);
    assert!(db.torrents[0].visible);
}

#[test]
fn stopped_deletes_the_peer_that_is_there() {
    let mut db = tables();
    db.peers.push(peer(1, 10, 1, b"mine", true, 5));
    db.peers.push(peer(2, 10, 2, b"other", false, 6));
    let msg = request(b"mine", Event::Stopped, 0, 0, 0);
    let resp = handle_at(&mut db, &msg, 1000, 500, 600).unwrap();
    assert_eq!(db.peers.len(), 1);
    assert_eq!(db.peers[0].id, 2);
    assert_eq!(db.torrents[0].last_seeder, Some(1000));
    assert_eq!(resp.complete(), 0);
    assert_eq!(resp.incomplete(), 1);
}

#[test]
fn consecutive_announces_add_what_was_moved() {
    let mut db = tables();
    let one = request(b"client", Event::Started, 0, 0, 100);
    handle_at(&mut db, &one, 1000, 500, 600).unwrap();
    assert_eq!(db.users[0].uploaded, 1000);
    assert_eq!(db.transfers[0].bytes_uploaded, 0);
    assert!(!db.peers[0].seeder);
    assert_eq!(db.peers[0].finished_at, None);

    let two = request(b"client", Event::NoEvent, 300, 40, 60);
    handle_at(&mut db, &two, 1100, 501, 601).unwrap();
    assert_eq!(db.peers.len(), 1);
    assert_eq!(db.peers[0].id, 500);
    assert_eq!(db.peers[0].bytes_uploaded, 300);
    assert_eq!(db.peers[0].bytes_downloaded, 40);
    assert_eq!(db.peers[0].bytes_left, 60);
    assert_eq!(db.peers[0].updated_at, 1100);
    assert_eq!(db.users[0].uploaded, 1300);
    assert_eq!(db.users[0].downloaded, 2040);
    assert_eq!(db.transfers.len(), 1);
    assert_eq!(db.transfers[0].id, 600);
    assert_eq!(db.transfers[0].bytes_uploaded, 300);
    assert_eq!(db.transfers[0].bytes_downloaded, 40);
    assert_eq!(db.transfers[0].time_seeded, 0);
    assert_eq!(db.transfers[0].updated_at, 1100);

    let three = request(b"client", Event::NoEvent, 450, 100, 0);
    handle_at(&mut db, &three, 1200, 502, 602).unwrap();
    assert_eq!(db.users[0].uploaded, 1450);
    assert_eq!(db.users[0].downloaded, 2100);
    assert_eq!(db.transfers[0].bytes_uploaded, 450);
    assert_eq!(db.transfers[0].bytes_downloaded, 100);
    // nothing left does not make a seeder of a peer that is there: `completed` does
    assert!(!db.peers[0].seeder);
}

#[test]
fn a_new_peer_starts_with_empty_counters() {
    let mut db = tables();
    let one = request(b"client", Event::Started, 500, 700, 100);
    handle_at(&mut db, &one, 1000, 500, 600).unwrap();
    assert_eq!(db.peers[0].bytes_uploaded, 0);
    assert_eq!(db.peers[0].bytes_downloaded, 0);
    assert_eq!(db.users[0].uploaded, 1000);
    let two = request(b"client", Event::NoEvent, 600, 700, 100);
    handle_at(&mut db, &two, 1001, 501, 601).unwrap();
    assert_eq!(db.users[0].uploaded, 1600);
    assert_eq!(db.users[0].downloaded, 2700);
}

#[test]
fn smaller_counters_give_negative_deltas() {
    let mut db = tables();
    let mut p = peer(1, 10, 1, b"client", false, 900);
    p.bytes_uploaded = 500;
    p.bytes_downloaded = 800;
    db.peers.push(p);
    let msg = request(b"client", Event::NoEvent, 100, 300, 10);
    handle_at(&mut db, &msg, 1000, 500, 600).unwrap();
    assert_eq!(db.users[0].uploaded, 600);
    assert_eq!(db.users[0].downloaded, 1500);
    // the account is opened from the peer as brought up to date
    assert_eq!(db.transfers[0].bytes_uploaded, 100);
    assert_eq!(db.transfers[0].bytes_downloaded, 300);
}

#[test]
fn completed_counts_and_marks() {
    let mut db = tables();
    let mut p = peer(1, 10, 1, b"client", false, 900);
    p.bytes_downloaded = 50;
    db.peers.push(p);
    db.transfers.push(Transfer {
        id: 70,
        user_id: 1,
        torrent_id: 10,
        bytes_uploaded: 5,
        bytes_downloaded: 50,
        time_seeded: 9,
        created_at: 1,
        updated_at: 2,
        completed_at: None,
    });
    let msg = request(b"client", Event::Completed, 10, 100, 0);
    let resp = handle_at(&mut db, &msg, 1000, 500, 600).unwrap();
    assert!(db.peers[0].seeder);
    assert_eq!(db.torrents[0].completed, 1);
    assert_eq!(db.torrents[0].last_seeder, Some(1000));
    assert_eq!(
        db.transfers[0],
        Transfer {
            id: 70,
            user_id: 1,
            torrent_id: 10,
            bytes_uploaded: 15,
            bytes_downloaded: 100,
            time_seeded: 9,
            created_at: 1,
            updated_at: 1000,
            completed_at: Some(1000),
        }
    );
    assert_eq!(resp.complete(), 1);
    assert_eq!(resp.incomplete(), 0);
}

#[test]
fn seeding_time_accrues_for_a_seeder() {
    let mut db = tables();
    db.peers.push(peer(1, 10, 1, b"client", true, 900));
    db.transfers.push(Transfer {
        id: 70,
        user_id: 1,
        torrent_id: 10,
        bytes_uploaded: 0,
        bytes_downloaded: 0,
        time_seeded: 5,
        created_at: 1,
        updated_at: 2,
        completed_at: None,
    });
    let msg = request(b"client", Event::NoEvent, 0, 0, 0);
    handle_at(&mut db, &msg, 1000, 500, 600).unwrap();
    assert_eq!(db.transfers[0].time_seeded, 105);
    assert_eq!(db.transfers[0].completed_at, None);
}

#[test]
fn unknown_passcode_and_info_hash() {
    let mut db = tables();
    let mut msg = request(b"client", Event::Started, 0, 0, 0);
    msg.passcode = vec![9, 9];
    assert_eq!(handle_at(&mut db, &msg, 1, 2, 3).err(), Some(Error::InvalidPasscode));
    assert_eq!(Error::InvalidPasscode.kind(), ErrorKind::InvalidPasscode);
    let mut msg = request(b"client", Event::Started, 0, 0, 0);
    msg.info_hash = vec![9; 20];
    assert_eq!(handle_at(&mut db, &msg, 1, 2, 3).err(), Some(Error::InvalidInfoHash));
    assert_eq!(Error::InvalidInfoHash.kind(), ErrorKind::InvalidInfoHash);
    // the passcode is looked at first
    msg.passcode = vec![9, 9];
    assert_eq!(handle_at(&mut db, &msg, 1, 2, 3).err(), Some(Error::InvalidPasscode));
    assert!(db.peers.is_empty() && db.transfers.is_empty());
    assert!(!db.torrents[0].visible);
}

#[test]
fn counters_out_of_range_change_nothing() {
    let mut db = tables();
    db.peers.push(peer(1, 10, 1, b"client", false, 900));
    let msg = request(b"client", Event::NoEvent, u64::MAX, 0, 0);
    assert_eq!(handle_at(&mut db, &msg, 1000, 500, 600).err(), Some(Error::CounterRange));
    assert_eq!(Error::CounterRange.kind(), ErrorKind::StorageFailure);
    assert_eq!(db.peers[0].updated_at, 900);
    assert!(db.transfers.is_empty());
    assert!(!db.torrents[0].visible);

    db.users[0].uploaded = i64::MAX;
    let msg = request(b"client", Event::NoEvent, 1, 0, 0);
    assert_eq!(handle_at(&mut db, &msg, 1000, 500, 600).err(), Some(Error::CounterRange));
    assert_eq!(db.users[0].uploaded, i64::MAX);

    let mut db = tables();
    db.torrents[0].completed = i32::MAX;
    let msg = request(b"client", Event::Completed, 0, 0, 0);
    assert_eq!(handle_at(&mut db, &msg, 1000, 500, 600).err(), Some(Error::CounterRange));
    assert!(db.peers.is_empty());
}

#[test]
fn taken_identifiers_change_nothing() {
    let mut db = tables();
    db.peers.push(peer(500, 11, 2, b"other", false, 900));
    let msg = request(b"client", Event::Started, 0, 0, 5);
    assert_eq!(handle_at(&mut db, &msg, 1000, 500, 600).err(), Some(Error::DuplicateKey));
    assert_eq!(Error::DuplicateKey.kind(), ErrorKind::StorageFailure);
    assert_eq!(db.peers.len(), 1);
    assert!(db.transfers.is_empty());
    assert!(!db.torrents[0].visible);
    // on `stopped` no peer is written, so its identifier does not matter
    let msg = request(b"client", Event::Stopped, 0, 0, 5);
    assert!(handle_at(&mut db, &msg, 1000, 500, 600).is_ok());
    assert_eq!(db.transfers.len(), 1);
    let msg = request(b"client2", Event::Started, 0, 0, 5);
    let mut db2 = tables();
    db2.transfers.push(Transfer {
        id: 600,
        user_id: 2,
        torrent_id: 11,
        bytes_uploaded: 0,
        bytes_downloaded: 0,
        time_seeded: 0,
        created_at: 0,
        updated_at: 0,
        completed_at: None,
    });
    assert_eq!(handle_at(&mut db2, &msg, 1000, 501, 600).err(), Some(Error::DuplicateKey));
    assert!(db2.peers.is_empty());
}

#[test]
fn selection_prefers_the_other_role_and_the_newest() {
    let mut db = tables();
    db.peers.push(peer(1, 10, 2, b"s1", true, 100));
    db.peers.push(peer(2, 10, 2, b"s2", true, 300));
    db.peers.push(peer(3, 10, 2, b"s3", true, 200));
    db.peers.push(peer(4, 10, 2, b"l1", false, 50));
    db.peers.push(peer(5, 10, 2, b"l2", false, 500));
    db.peers.push(peer(6, 11, 2, b"x", true, 900));
    // a leecher wants seeders
    let ids = |v: Vec<Peer>| v.iter().map(|p| p.id).collect::<Vec<_>>();
    assert_eq!(ids(select(&db, 10, true, 2)), vec![2, 3]);
    assert_eq!(ids(select(&db, 10, true, 3)), vec![2, 3, 1]);
    assert_eq!(ids(select(&db, 10, true, 4)), vec![2, 3, 1, 5]);
    assert_eq!(ids(select(&db, 10, true, 50)), vec![2, 3, 1, 5, 4]);
    assert_eq!(ids(select(&db, 10, false, 1)), vec![5]);
    assert_eq!(ids(select(&db, 10, false, 3)), vec![5, 4, 2]);
    assert_eq!(ids(select(&db, 10, true, 0)), Vec::<u128>::new());
    assert_eq!(ids(select(&db, 12, true, 5)), Vec::<u128>::new());
    // rows updated at the same time come in table order
    db.peers[2].updated_at = 300;
    assert_eq!(ids(select(&db, 10, true, 3)), vec![2, 3, 1]);
    assert_eq!(ids(Peer::peers_for_torrent(&10, true, -1, &db)), Vec::<u128>::new());
    assert_eq!(ids(Peer::seeder_for_torrent(&10, 1, &db)), vec![2]);
    assert_eq!(ids(Peer::leecher_for_torrent(&10, 1, &db)), vec![5]);
}

#[test]
fn crypto_marks_are_hidden_from_clients_that_do_not_know_them() {
    let mut db = tables();
    db.peers.push(peer(1, 10, 2, b"s1", true, 100));
    let msg = request(b"client", Event::Started, 0, 0, 5);
    let mut resp = handle_at(&mut db, &msg, 1000, 500, 600).unwrap();
    assert!(!resp.crypto_flags());
    assert!(resp.peers().iter().all(|p| !p.crypto_enabled));
    assert!(db.peers[0].crypto_enabled);

    let mut msg = request(b"client", Event::NoEvent, 0, 0, 5);
    msg.support_crypto = true;
    let mut resp = handle_at(&mut db, &msg, 1001, 501, 601).unwrap();
    assert!(resp.crypto_flags());
    let peers = resp.peers();
    assert_eq!(peers[0].id, 1);
    assert!(peers[0].crypto_enabled);
    assert!(db.peers[1].crypto_enabled);
    let mut msg = request(b"client", Event::NoEvent, 0, 0, 5);
    msg.require_crypto = true;
    let resp = handle_at(&mut db, &msg, 1002, 502, 602).unwrap();
    assert!(resp.crypto_flags());
}

#[test]
fn answer_passes_the_flags_of_the_request_on() {
    let mut db = tables();
    let mut msg = request(b"client", Event::Started, 0, 0, 5);
    msg.compact = true;
    msg.no_peer_id = true;
    msg.tracker_id = Some(b"tid".to_vec());
    msg.numwant = 0;
    let mut resp = handle_at(&mut db, &msg, 1000, 500, 600).unwrap();
    assert!(resp.compact());
    assert!(resp.no_peer_id());
    assert_eq!(resp.tracker_id(), Some(b"tid".to_vec()));
    assert_eq!(resp.tracker_id(), None);
    assert!(resp.peers().is_empty());
    assert!(resp.peers().is_empty());
    assert_eq!(resp.incomplete(), 1);
}

#[test]
fn handle_makes_its_own_time_and_identifiers() {
    let mut db = tables();
    let msg = request(b"client", Event::Started, 0, 0, 0);
    handle(&mut db, &msg).unwrap();
    assert_eq!(db.peers.len(), 1);
    assert_eq!(db.transfers.len(), 1);
    assert!(db.peers[0].created_at > 1_500_000_000);
    assert_ne!(db.peers[0].id, db.transfers[0].id);
    let msg2 = request(b"client2", Event::Started, 0, 0, 0);
    handle(&mut db, &msg2).unwrap();
    assert_ne!(db.peers[0].id, db.peers[1].id);
    // a second announce of the first client finds its peer and its account again
    let msg = request(b"client", Event::NoEvent, 0, 0, 0);
    handle(&mut db, &msg).unwrap();
    assert_eq!(db.peers.len(), 2);
    assert_eq!(db.transfers.len(), 1);
}

#[test]
fn steps_one_by_one() {
    let msg = request(b"client", Event::Completed, 30, 20, 0);
    let existing = peer(1, 10, 1, b"client", false, 900);
    let (p, d) = reconcile(Some(existing), &msg, 10, 1, 1000, 77).unwrap();
    assert_eq!(d, Deltas { upload: 30, download: 20, seed_time: 0 });
    assert!(p.seeder);
    assert_eq!(p.id, 1);
    assert_eq!(p.updated_at, 1000);
    assert!(!p.crypto_enabled);

    let (p, d) = reconcile(None, &msg, 10, 1, 1000, 77).unwrap();
    assert_eq!(d, Deltas { upload: 0, download: 0, seed_time: 0 });
    assert_eq!(p.id, 77);
    assert_eq!(p.finished_at, Some(1000));

    let mut far = request(b"client", Event::NoEvent, 0, 0, u64::MAX);
    assert_eq!(reconcile(None, &far, 10, 1, 1000, 77).err(), Some(Error::CounterRange));
    far.left = i64::MAX as u64;
    assert!(reconcile(None, &far, 10, 1, 1000, 77).is_ok());
    // the time of seeding must fit the account
    let old_seeder = peer(1, 10, 1, b"client", true, 0);
    assert_eq!(
        reconcile(Some(old_seeder), &msg, 10, 1, i64::MAX, 77).err(),
        Some(Error::CounterRange)
    );

    let t = account(None, &p, d, Event::Started, 1000, 88).unwrap();
    assert_eq!(t, Transfer::from(&p, 88, 1000));
    assert_eq!(t.completed_at, Some(1000));
    let full = Transfer { bytes_uploaded: i64::MAX, ..t };
    assert_eq!(
        account(Some(full), &p, Deltas { upload: 1, download: 0, seed_time: 0 }, Event::NoEvent, 1, 2),
        Err(Error::CounterRange)
    );
    let long = Transfer { time_seeded: i32::MAX, ..t };
    assert_eq!(
        account(Some(long), &p, Deltas { upload: 0, download: 0, seed_time: 1 }, Event::NoEvent, 1, 2),
        Err(Error::CounterRange)
    );

    let u = credit(user(1, &PASSCODE), Deltas { upload: -1000, download: 5, seed_time: 0 }).unwrap();
    assert_eq!((u.uploaded, u.downloaded), (0, 2005));
    let mut poor = user(1, &PASSCODE);
    poor.downloaded = i64::MIN;
    assert!(credit(poor, Deltas { upload: 0, download: -1, seed_time: 0 }).is_err());

    let t = touch(torrent(10, &HASH), false, Event::Started, 5).unwrap();
    assert_eq!((t.visible, t.last_action, t.last_seeder, t.completed), (true, Some(5), None, 0));
    let t = touch(torrent(10, &HASH), true, Event::Stopped, 5).unwrap();
    assert_eq!(t.last_seeder, Some(5));
    let t = touch(torrent(10, &HASH), false, Event::Completed, 5).unwrap();
    assert_eq!((t.last_seeder, t.completed), (Some(5), 1));
}

#[test]
fn counts_of_a_torrent() {
    let mut db = tables();
    db.peers.push(peer(1, 10, 2, b"s1", true, 100));
    db.peers.push(peer(2, 10, 2, b"l1", false, 100));
    db.peers.push(peer(3, 10, 2, b"l2", false, 100));
    db.peers.push(peer(4, 11, 2, b"l3", false, 100));
    db.torrents[0].completed = 7;
    assert_eq!(TorrentList::peer_count(&10, &db), (1, 2));
    assert_eq!(TorrentList::peer_count(&11, &db), (0, 1));
    assert_eq!(TorrentList::peer_count(&12, &db), (0, 0));
    assert_eq!(TorrentList::peer_count_scrape(&HASH, &db), (1, 2, 7));
    assert_eq!(TorrentList::peer_count_scrape(&[1, 2, 3], &db), (0, 0, 0));
}

fn settings() -> Tracker {
    Tracker {
        announce_url: "http://localhost/tracker/announce".into(),
        comment: "hello".into(),
        default_numwant: 30,
        interval: 900,
    }
}

fn http(query: &str) -> HttpRequest {
    HttpRequest {
        query: Some(query.as_bytes().to_vec()),
        peer_addr: Some(IpAddress::V4([192, 0, 2, 7])),
        passcode: Some("deadbeef".into()),
        user_agent: Some("client/2.0".into()),
    }
}

fn text(data: &AnnounceData) -> String {
    String::from_utf8_lossy(&data.serialize()).into_owned()
}

#[test]
fn announce_from_query_to_bytes() {
    let mut db = tables();
    db.peers.push(peer(1, 10, 2, b"seeder-0000000000001", true, 100));
    let q = "info_hash=%aa%aa%aa%aa%aa%aa%aa%aa%aa%aa%aa%aa%aa%aa%aa%aa%aa%aa%aa%aa&peer_id=-XX0001-000000000001&port=6881&uploaded=0&downloaded=0&left=100&event=started";
    let resp = announce_at(&http(q), &settings(), &mut db, 1000, 500, 600);
    assert_eq!(
        text(&resp.data),
        "d8:completei1e10:incompletei1e8:intervali900e5:peersld2:ip8:10.0.0.17:peer id20:seeder-00000000000014:porti6881eed2:ip9:192.0.2.77:peer id20:-XX0001-0000000000014:porti6881eeee"
    );
    assert_eq!(db.peers.len(), 2);
    assert_eq!(db.peers[1].ip_address, IpAddress::V4([192, 0, 2, 7]));
    assert_eq!(db.peers[1].user_agent, "client/2.0");

    let q2 = format!("{}&compact=1&supportcrypto=1&numwant=1", q.replace("event=started", "event="));
    let resp = announce_at(&http(&q2), &settings(), &mut db, 1001, 501, 601);
    assert_eq!(text(&resp.data), "d14:failure reason13:invalid evente");

    let q3 = format!("{}&compact=1&supportcrypto=1&numwant=1&no_peer_id=1&trackerid=abc", q.replace("&event=started", ""));
    let resp = announce_at(&http(&q3), &settings(), &mut db, 1001, 501, 601);
    let mut expected = b"d8:completei1e12:crypto_flags1:110:incompletei1e8:intervali900e5:peers6:".to_vec();
    expected.extend_from_slice(&[10, 0, 0, 1, 0x1b, 0x58]);
    expected.extend_from_slice(b"10:tracker id3:abce");
    assert_eq!(resp.respond_to(), expected);
}

#[test]
fn one_ipv6_peer_turns_the_compact_form_off() {
    let mut db = tables();
    db.peers.push(peer(1, 10, 2, b"seeder-0000000000001", true, 100));
    let mut six = peer(2, 10, 2, b"seeder-0000000000002", true, 200);
    six.ip_address = IpAddress::V6([0x2001, 0xdb8, 0, 0, 0, 0, 0, 2]);
    db.peers.push(six);
    let q = "info_hash=%AA%AA%AA%AA%AA%AA%AA%AA%AA%AA%AA%AA%AA%AA%AA%AA%AA%AA%AA%AA&peer_id=-XX0001-000000000001&port=6881&uploaded=0&downloaded=0&left=100&compact=1&numwant=2&requirecrypto=1";
    let resp = announce_at(&http(q), &settings(), &mut db, 1000, 500, 600);
    assert!(!resp.data.compact);
    assert_eq!(resp.data.peers.len(), 2);
    assert_eq!(
        text(&resp.data),
        "d8:completei2e12:crypto_flags2:1110:incompletei1e8:intervali900e5:peersld2:ip11:2001:db8::27:peer id20:seeder-00000000000024:porti7000eed2:ip8:10.0.0.17:peer id20:seeder-00000000000014:porti7000eeee"
    );
    // with one peer asked for, and that one on IPv4, the compact form stays
    let q = q.replace("numwant=2", "numwant=1");
    db.peers[1].updated_at = 50;
    let resp = announce_at(&http(&q), &settings(), &mut db, 1001, 501, 601);
    assert!(resp.data.compact);
    assert_eq!(resp.data.peers.len(), 1);
}

#[test]
fn announce_failures_are_responses() {
    let mut db = tables();
    let resp = announce(&http("port=1"), &settings(), &mut db);
    assert_eq!(text(&resp.data), "d14:failure reason22:info_hash not in querye");
    let q = "info_hash=%aa&peer_id=x&port=6881&uploaded=0&downloaded=0&left=100";
    let resp = announce(&http(q), &settings(), &mut db);
    assert_eq!(text(&resp.data), "d14:failure reason17:invalid info hashe");
    let mut req = http(q);
    req.passcode = Some("00".into());
    let resp = announce(&req, &settings(), &mut db);
    assert_eq!(text(&resp.data), "d14:failure reason16:invalid passcodee");
    assert!(db.peers.is_empty());
}

#[test]
fn announce_makes_a_peer() {
    let mut db = tables();
    let q = "info_hash=%aa%aa%aa%aa%aa%aa%aa%aa%aa%aa%aa%aa%aa%aa%aa%aa%aa%aa%aa%aa&peer_id=x&port=6881&uploaded=0&downloaded=0&left=0&numwant=0";
    let resp = announce(&http(q), &settings(), &mut db);
    assert_eq!(text(&resp.data), "d8:completei1e10:incompletei0e8:intervali900e5:peerslee");
    assert_eq!(db.peers.len(), 1);
}
