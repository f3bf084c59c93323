use ripalt::error::{Error, ErrorKind};
use ripalt::util::{bytes_eq, from_hex, to_hex};

#[test]
fn test_to_hex() {
    assert_eq!(to_hex("foobar".as_bytes()), "666f6f626172");
}

#[test]
fn to_hex_of_nothing_and_of_every_half() {
    assert_eq!(to_hex(&[]), "");
    assert_eq!(to_hex(&[0x00, 0x0f, 0xf0, 0xff, 0x9a]), "000ff0ff9a");
}

#[test]
fn from_hex_reads_lowercase_pairs() {
    assert_eq!(from_hex("666f6f626172"), Some(b"foobar".to_vec()));
    assert_eq!(from_hex(""), Some(vec![]));
    assert_eq!(from_hex("00ff"), Some(vec![0, 255]));
}

#[test]
fn from_hex_refuses_other_text() {
    assert_eq!(from_hex("abc"), None);
    assert_eq!(from_hex("AB"), None);
    assert_eq!(from_hex("zz"), None);
    assert_eq!(from_hex("0 "), None);
}

#[test]
fn from_hex_undoes_to_hex() {
    let bytes: Vec<u8> = (0u8..=255).collect();
    assert_eq!(from_hex(&to_hex(&bytes)), Some(bytes));
}

#[test]
fn bytes_eq_compares_contents() {
    assert!(bytes_eq(b"abc", b"abc"));
    assert!(!bytes_eq(b"abc", b"abd"));
    assert!(!bytes_eq(b"abc", b"ab"));
    assert!(bytes_eq(b"", b""));
}

#[test]
fn failures_by_kind_and_text() {
    assert_eq!(Error::NoQuery.kind(), ErrorKind::MalformedRequest);
    assert_eq!(Error::NoUserAgent.kind(), ErrorKind::MalformedRequest);
    assert_eq!(Error::NoInfoHashes.kind(), ErrorKind::MalformedRequest);
    assert_eq!(Error::InvalidPasscode.kind(), ErrorKind::InvalidPasscode);
    assert_eq!(Error::InvalidInfoHash.kind(), ErrorKind::InvalidInfoHash);
    assert_eq!(Error::CounterRange.kind(), ErrorKind::StorageFailure);
    assert_eq!(Error::DuplicateKey.kind(), ErrorKind::StorageFailure);
    assert_eq!(Error::Bencode.kind(), ErrorKind::Metainfo);
    assert_eq!(Error::Utf8.kind(), ErrorKind::Metainfo);
    assert_eq!(Error::NotAllowed.kind(), ErrorKind::Site);
    assert_eq!(Error::NoUser.kind(), ErrorKind::Site);
    assert_eq!(Error::InvalidPasscode.message(), "invalid passcode");
    assert_eq!(Error::InvalidInfoHash.message(), "invalid info hash");
    assert_eq!(Error::NoDict.message(), "meta file is no dict");
    assert_eq!(Error::NoInfoHashes.message(), "no info hashes provided");
    assert_eq!(Error::NoUserAgent.message(), "user agent header not found");
}
