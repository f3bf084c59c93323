use ripalt::error::Error;
use ripalt::net::IpAddress;
use ripalt::tracker::announce::{AnnounceRequest, Event, HttpRequest};
use ripalt::tracker::query::{param, raw_param, raw_params};
use ripalt::util::bytes::parse_number;
use ripalt::tracker::scrape::ScrapeRequest;

fn http(query: &str) -> HttpRequest {
    HttpRequest {
        query: Some(query.as_bytes().to_vec()),
        peer_addr: Some(IpAddress::V6([0, 0, 0, 0, 0, 0, 0, 1])),
        passcode: Some("00ff".into()),
        user_agent: Some("ua".into()),
    }
}

const FULL: &str = "info_hash=%01%02abc%zz%4&peer_id=-AB%2d1&port=51413&uploaded=18446744073709551615&downloaded=7&left=0&compact=1&no_peer_id=1&event=completed&numwant=200&key=k%20ey&trackerid=t&supportcrypto=1&requirecrypto=1&cryptoport=65535";

#[test]
fn every_field_is_read() {
    let a = AnnounceRequest::try_from(&http(FULL), 50).unwrap();
    assert_eq!(a.info_hash, b"\x01\x02abc%zz%4".to_vec());
    assert_eq!(a.peer_id, b"-AB-1".to_vec());
    assert_eq!(a.port, 51413);
    assert_eq!(a.uploaded, u64::MAX);
    assert_eq!(a.downloaded, 7);
    assert_eq!(a.left, 0);
    assert!(a.compact);
    assert!(a.no_peer_id);
    assert_eq!(a.event, Event::Completed);
    assert_eq!(a.numwant, 200);
    assert_eq!(a.key, Some(b"k ey".to_vec()));
    assert_eq!(a.tracker_id, Some(b"t".to_vec()));
    assert_eq!(a.ip_address, IpAddress::V6([0, 0, 0, 0, 0, 0, 0, 1]));
    assert_eq!(a.passcode, vec![0, 255]);
    assert_eq!(a.user_agent, "ua");
    assert!(a.support_crypto);
    assert!(a.require_crypto);
    assert_eq!(a.crypto_port, Some(65535));
}

#[test]
fn what_is_left_out_takes_its_default() {
    let a = AnnounceRequest::try_from(
        &http("info_hash=x&peer_id=y&port=1&uploaded=2&downloaded=3&left=4"),
        50,
    )
    .unwrap();
    assert!(!a.compact);
    assert!(!a.no_peer_id);
    assert_eq!(a.event, Event::NoEvent);
    assert_eq!(a.numwant, 50);
    assert_eq!(a.key, None);
    assert_eq!(a.tracker_id, None);
    assert!(!a.support_crypto);
    assert!(!a.require_crypto);
    assert_eq!(a.crypto_port, None);
}

#[test]
fn flags_are_set_by_one_only() {
    let a = AnnounceRequest::try_from(
        &http("info_hash=x&peer_id=y&port=1&uploaded=2&downloaded=3&left=4&compact=0&no_peer_id=true&supportcrypto=11&requirecrypto=&cryptoport=x"),
        50,
    )
    .unwrap();
    assert!(!a.compact && !a.no_peer_id && !a.support_crypto && !a.require_crypto);
    assert_eq!(a.crypto_port, Some(0));
    let a = AnnounceRequest::try_from(
        &http("info_hash=x&peer_id=y&port=1&uploaded=2&downloaded=3&left=4&compact=%31&cryptoport=70000"),
        50,
    )
    .unwrap();
    assert!(a.compact);
    assert_eq!(a.crypto_port, Some(0));
}

fn failure(req: &HttpRequest) -> Error {
    AnnounceRequest::try_from(req, 50).err().unwrap()
}

#[test]
fn each_failure_of_reading_an_announce() {
    let ok = "info_hash=x&peer_id=y&port=1&uploaded=2&downloaded=3&left=4";
    let mut req = http(ok);
    req.query = None;
    assert_eq!(failure(&req), Error::NoQuery);
    assert_eq!(failure(&http("peer_id=y&port=1&uploaded=2&downloaded=3&left=4")), Error::NoInfoHash);
    assert_eq!(failure(&http("info_hash=x&port=1&uploaded=2&downloaded=3&left=4")), Error::NoPeerId);
    assert_eq!(failure(&http("info_hash=x&peer_id=y&uploaded=2&downloaded=3&left=4")), Error::NoPort);
    assert_eq!(failure(&http("info_hash=x&peer_id=y&port=1&downloaded=3&left=4")), Error::NoUploaded);
    assert_eq!(failure(&http("info_hash=x&peer_id=y&port=1&uploaded=2&left=4")), Error::NoDownloaded);
    assert_eq!(failure(&http("info_hash=x&peer_id=y&port=1&uploaded=2&downloaded=3")), Error::NoLeft);
    assert_eq!(failure(&http("info_hash=x&peer_id=y&port=65536&uploaded=2&downloaded=3&left=4")), Error::BadNumber);
    assert_eq!(failure(&http("info_hash=x&peer_id=y&port=1&uploaded=-2&downloaded=3&left=4")), Error::BadNumber);
    assert_eq!(failure(&http("info_hash=x&peer_id=y&port=1&uploaded=2&downloaded=18446744073709551616&left=4")), Error::BadNumber);
    assert_eq!(failure(&http("info_hash=x&peer_id=y&port=1&uploaded=2&downloaded=3&left=")), Error::BadNumber);
    assert_eq!(failure(&http(&format!("{}&event=paused", ok))), Error::BadEvent);
    assert_eq!(failure(&http(&format!("{}&event=", ok))), Error::BadEvent);
    assert_eq!(failure(&http(&format!("{}&numwant=many", ok))), Error::BadNumber);
    let mut req = http(ok);
    req.peer_addr = None;
    assert_eq!(failure(&req), Error::NoAddress);
    let mut req = http(ok);
    req.passcode = None;
    assert_eq!(failure(&req), Error::NoPasscode);
    req.passcode = Some("0g".into());
    assert_eq!(failure(&req), Error::BadPasscode);
    req.passcode = Some("abc".into());
    assert_eq!(failure(&req), Error::BadPasscode);
    req.passcode = Some("AB".into());
    assert_eq!(failure(&req), Error::BadPasscode);
    let mut req = http(ok);
    req.user_agent = None;
    assert_eq!(failure(&req), Error::NoUserAgent);
    // the first check that fails decides
    let mut req = http("peer_id=y");
    req.user_agent = None;
    assert_eq!(failure(&req), Error::NoInfoHash);
    assert_eq!(Error::NoInfoHash.message(), "info_hash not in query");
}

#[test]
fn events_by_name() {
    assert_eq!(Event::from_str("started"), Ok(Event::Started));
    assert_eq!(Event::from_str("stopped"), Ok(Event::Stopped));
    assert_eq!(Event::from_str("completed"), Ok(Event::Completed));
    assert_eq!(Event::from_str("Started"), Err(Error::BadEvent));
    assert_eq!(Event::from_str(""), Err(Error::BadEvent));
    assert_eq!(Event::from_bytes(b"stopped\0"), Err(Error::BadEvent));
}

#[test]
fn query_parts() {
    let q = b"a=1&b=&c&=9&a=2&d=x=y&&e=%41%4a%4A%4g%";
    assert_eq!(raw_param(q, b"a"), Some(b"2".to_vec()));
    assert_eq!(raw_param(q, b"b"), Some(vec![]));
    assert_eq!(raw_param(q, b"c"), None);
    assert_eq!(raw_param(q, b""), Some(b"9".to_vec()));
    assert_eq!(raw_param(q, b"d"), Some(b"x=y".to_vec()));
    assert_eq!(raw_param(q, b"e"), Some(b"%41%4a%4A%4g%".to_vec()));
    assert_eq!(param(q, b"e"), Some(b"AJJ%4g%".to_vec()));
    assert_eq!(raw_param(q, b"f"), None);
    assert_eq!(raw_params(q, b"a"), vec![b"1".to_vec(), b"2".to_vec()]);
    assert_eq!(raw_params(q, b"z"), Vec::<Vec<u8>>::new());
    assert_eq!(raw_param(b"", b"a"), None);
    assert_eq!(raw_param(b"a=", b"a"), Some(vec![]));
    assert_eq!(raw_param(b"&&a=1&", b"a"), Some(b"1".to_vec()));
    assert_eq!(param(b"k=%00%ff%7F+", b"k"), Some(vec![0, 255, 127, b'+']));
}

#[test]
fn numbers() {
    assert_eq!(parse_number(b"0", 10), Some(0));
    assert_eq!(parse_number(b"10", 10), Some(10));
    assert_eq!(parse_number(b"11", 10), None);
    assert_eq!(parse_number(b"+7", 10), Some(7));
    assert_eq!(parse_number(b"++7", 10), None);
    assert_eq!(parse_number(b"+", 10), None);
    assert_eq!(parse_number(b"", 10), None);
    assert_eq!(parse_number(b"-1", 10), None);
    assert_eq!(parse_number(b"0007", 10), Some(7));
    assert_eq!(parse_number(b"7 ", 10), None);
    assert_eq!(parse_number(b"1e1", 100), None);
    assert_eq!(parse_number(b"18446744073709551615", u64::MAX), Some(u64::MAX));
    assert_eq!(parse_number(b"18446744073709551616", u64::MAX), None);
    assert_eq!(parse_number(b"99999999999999999999999", u64::MAX), None);
    assert_eq!(parse_number(b"65535", 65535), Some(65535));
    assert_eq!(parse_number(b"65536", 65535), None);
    // as the standard library reads them
    for s in ["0", "+0", "-0", "00", "+", "", "12", "+12", "65535", "65536", "1_0", " 1", "٣"] {
        assert_eq!(parse_number(s.as_bytes(), 65535), s.parse::<u16>().ok().map(u64::from), "{:?}", s);
    }
}

#[test]
fn scrape_reads_every_info_hash() {
    let req = http("info_hash=%01%02&x=1&info_hash=plain&info_hash=&info_hash");
    let s = ScrapeRequest::try_from(&req).unwrap();
    assert_eq!(s.info_hashes, vec![vec![1, 2], b"plain".to_vec(), vec![]]);
    assert_eq!(ScrapeRequest::try_from(&http("x=1")).err(), Some(Error::NoInfoHashes));
    assert_eq!(ScrapeRequest::try_from(&http("")).err(), Some(Error::NoInfoHashes));
    let mut req = http("info_hash=a");
    req.query = None;
    assert_eq!(ScrapeRequest::try_from(&req).err(), Some(Error::NoQuery));
    // a scrape needs neither address nor passcode nor user agent
    let req = HttpRequest { query: Some(b"info_hash=a".to_vec()), peer_addr: None, passcode: None, user_agent: None };
    assert_eq!(ScrapeRequest::try_from(&req).unwrap().info_hashes, vec![b"a".to_vec()]);
}
