use ripalt::db::Tables;
use ripalt::models::peer::Peer;
use ripalt::models::torrent::Torrent;
use ripalt::net::IpAddress;
use ripalt::settings::Tracker;
use ripalt::tracker::announce::HttpRequest;
use ripalt::tracker::scrape::{handle, ScrapeRequest};
use ripalt::tracker::scrape;

fn torrent(id: u128, info_hash: &[u8], completed: i32) -> Torrent {
    Torrent {
        id,
        name: String::new(),
        info_hash: info_hash.to_vec(),
        category_id: 1,
        user_id: None,
        description: String::new(),
        size: 100,
        visible: true,
        completed,
        last_action: None,
        last_seeder: None,
        created_at: 0,
        updated_at: 0,
    }
}

fn peer(id: u128, torrent_id: u128, seeder: bool) -> Peer {
    Peer {
        id,
        torrent_id,
        user_id: 1,
        ip_address: IpAddress::V4([10, 0, 0, 1]),
        port: 1,
        bytes_uploaded: 0,
        bytes_downloaded: 0,
        bytes_left: 0,
        seeder,
        peer_id: vec![id as u8],
        user_agent: String::new(),
        crypto_enabled: false,
        crypto_port: None,
        offset_uploaded: 0,
        offset_downloaded: 0,
        created_at: 0,
        finished_at: None,
        updated_at: 0,
    }
}

fn tables() -> Tables {
    let mut db = Tables::new();
    db.torrents.push(torrent(1, b"aaaa", 3));
    db.torrents.push(torrent(2, b"bbbb", 0));
    db.peers.push(peer(1, 1, true));
    db.peers.push(peer(2, 1, true));
    db.peers.push(peer(3, 1, false));
    db.peers.push(peer(4, 2, false));
    db
}

#[test]
fn every_info_hash_gets_an_entry() {
    let db = tables();
    let req = ScrapeRequest { info_hashes: vec![b"bbbb".to_vec(), b"none".to_vec(), b"aaaa".to_vec()] };
    let resp = handle(&db, &req);
    assert_eq!(resp.files.len(), 3);
    let got: Vec<(Vec<u8>, i64, i64, i32)> = resp
        .files
        .iter()
        .map(|f| (f.info_hash.clone(), f.complete, f.incomplete, f.downloaded))
        .collect();
    assert_eq!(
        got,
        vec![
            (b"bbbb".to_vec(), 0, 1, 0),
            (b"none".to_vec(), 0, 0, 0),
            (b"aaaa".to_vec(), 2, 1, 3),
        ]
    );
}

fn settings() -> Tracker {
    Tracker { announce_url: String::new(), comment: String::new(), default_numwant: 30, interval: 1800 }
}

fn http(query: &str) -> HttpRequest {
    HttpRequest { query: Some(query.as_bytes().to_vec()), peer_addr: None, passcode: None, user_agent: None }
}

#[test]
fn scrape_from_query_to_bytes() {
    let db = tables();
    let resp = scrape(&http("info_hash=none&info_hash=aaaa"), &settings(), &db);
    assert_eq!(
        String::from_utf8(resp.respond_to()).unwrap(),
        "d5:filesd4:aaaad8:completei2e10:downloadedi3e10:incompletei1ee4:noned8:completei0e10:downloadedi0e10:incompletei0eee5:flagsd12:min intervali1800eee"
    );
    let resp = scrape(&http("info_hash=%ff%00"), &settings(), &db);
    let mut expected = b"d5:filesd2:".to_vec();
    expected.extend_from_slice(&[0xff, 0]);
    expected.extend_from_slice(b"d8:completei0e10:downloadedi0e10:incompletei0eee5:flagsd12:min intervali1800eee");
    assert_eq!(resp.respond_to(), expected);
}

#[test]
fn scrape_without_info_hash_fails() {
    let db = tables();
    let resp = scrape(&http("foo=bar"), &settings(), &db);
    assert_eq!(
        String::from_utf8(resp.respond_to()).unwrap(),
        "d14:failure reason23:no info hashes providede"
    );
    let resp = scrape(
        &HttpRequest { query: None, peer_addr: None, passcode: None, user_agent: None },
        &settings(),
        &db,
    );
    assert_eq!(String::from_utf8(resp.respond_to()).unwrap(), "d14:failure reason8:no querye");
}

#[test]
fn an_info_hash_named_twice_has_one_entry() {
    let db = tables();
    let resp = scrape(&http("info_hash=aaaa&info_hash=aaaa"), &settings(), &db);
    assert_eq!(resp.data.files.0.len(), 2);
    assert_eq!(
        String::from_utf8(resp.respond_to()).unwrap(),
        "d5:filesd4:aaaad8:completei2e10:downloadedi3e10:incompletei1eee5:flagsd12:min intervali1800eee"
    );
}
