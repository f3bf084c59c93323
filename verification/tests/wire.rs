use ripalt::net::IpAddress;
use ripalt::tracker::scrape::ScrapeFile;
use ripalt::tracker::{AnnounceData, BencodeResponse, CompactPeerList, Peer, ResponseData, ScrapeData, ScrapeFiles};

fn text(bytes: Vec<u8>) -> String {
    String::from_utf8(bytes).unwrap()
}

fn v4_peer() -> Peer {
    Peer {
        peer_id: Some("v4_peer_padded_to_20".as_bytes().to_vec()),
        ip: IpAddress::V4([127, 0, 0, 1]),
        port: 1337u16,
        crypto: false,
        crypto_port: None,
    }
}

fn v6_peer() -> Peer {
    Peer {
        peer_id: Some("v6_peer_padded_to_20".as_bytes().to_vec()),
        ip: IpAddress::V6([0, 0, 0, 0, 0, 0, 0, 1]),
        port: 1337u16,
        crypto: true,
        crypto_port: None,
    }
}

#[test]
fn serialize_v4peer() {
    let mut peer = v4_peer();
    let encoded = text(peer.serialize());
    let expected = "d2:ip9:127.0.0.17:peer id20:v4_peer_padded_to_204:porti1337ee";
    assert_eq!(expected, encoded);

    peer.crypto = true;
    peer.crypto_port = Some(31337);
    let encoded = text(peer.serialize());
    let expected = "d2:ip9:127.0.0.17:peer id20:v4_peer_padded_to_204:porti31337ee";
    assert_eq!(expected, encoded);
}

#[test]
fn serialize_v6peer() {
    let peer = v6_peer();
    let encoded = text(peer.serialize());
    let expected = "d2:ip3:::17:peer id20:v6_peer_padded_to_204:porti1337ee";
    assert_eq!(expected, encoded);
}

#[test]
fn peer_as_bytes() {
    let expected = vec![127u8, 0, 0, 1, 5, 57];
    assert_eq!(expected, v4_peer().as_bytes());
    let expected: Vec<u8> = Vec::new();
    assert_eq!(expected, v6_peer().as_bytes());
}

#[test]
fn serialize_compact_peerlist() {
    let p1 = v4_peer();
    let mut p2 = v4_peer();
    p2.ip = IpAddress::V4([10, 10, 0, 1]);
    p2.port = 31337;
    let p3 = v6_peer();
    let mut list = CompactPeerList::new();
    list.push(&p1);
    list.push(&p2);
    list.push(&p3);

    let expected: Vec<u8> = vec![
        '1' as u8, '2' as u8, ':' as u8, 127, 0, 0, 1, 5, 57, 10, 10, 0, 1, 122, 105,
    ];
    assert_eq!(expected, list.serialize());
}

#[test]
fn serialize_announce_data() {
    let data = AnnounceData {
        failure_reason: Some("i am the reason".to_owned()),
        ..Default::default()
    };
    let actual = text(data.serialize());
    assert_eq!("d14:failure reason15:i am the reasone", actual);

    let p1 = v4_peer();
    let mut p2 = v4_peer();
    p2.ip = IpAddress::V4([10, 10, 0, 1]);
    p2.port = 31337;
    p2.crypto = false;
    p2.crypto_port = Some(31338);
    let p3 = v6_peer();
    let peers = vec![p1, p2, p3];
    let mut crypto_peers = peers.clone();
    crypto_peers.get_mut(1).unwrap().crypto = true;

    let mut data = AnnounceData {
        failure_reason: None,
        warning_message: Some("sample warning".to_owned()),
        interval: 1337,
        min_interval: Some(666),
        tracker_id: Some("sample tracker id".as_bytes().to_owned()),
        complete: 23,
        incomplete: 42,
        peers,
        compact: false,
        crypto_flags: false,
    };

    let actual = text(data.serialize());
    let expected = "d8:completei23e10:incompletei42e8:intervali1337e12:min intervali666e5:peersld2:ip9:127.0.0.17:peer id20:v4_peer_padded_to_204:porti1337eed2:ip9:10.10.0.17:peer id20:v4_peer_padded_to_204:porti31337eed2:ip3:::17:peer id20:v6_peer_padded_to_204:porti1337eee10:tracker id17:sample tracker id15:warning message14:sample warninge";
    assert_eq!(expected, actual);

    data.warning_message = None;
    data.min_interval = None;
    data.tracker_id = None;
    data.compact = true;

    let actual = data.serialize();
    let mut expected = "d8:completei23e10:incompletei42e8:intervali1337e5:peers"
        .as_bytes()
        .to_vec();
    let mut peers: Vec<u8> = vec![
        '1' as u8, '2' as u8, ':' as u8, 127, 0, 0, 1, 5, 57, 10, 10, 0, 1, 122, 105,
    ];
    expected.append(&mut peers);
    expected.push('e' as u8);
    assert_eq!(expected, actual);

    data.compact = false;
    data.crypto_flags = true;
    data.peers = crypto_peers;

    let actual = text(data.serialize());
    let expected = "d8:completei23e12:crypto_flags3:01110:incompletei42e8:intervali1337e5:peersld2:ip9:127.0.0.17:peer id20:v4_peer_padded_to_204:porti1337eed2:ip9:10.10.0.17:peer id20:v4_peer_padded_to_204:porti31338eed2:ip3:::17:peer id20:v6_peer_padded_to_204:porti1337eeee";
    assert_eq!(expected, actual);

    data.compact = true;

    let actual = data.serialize();
    let mut expected =
        "d8:completei23e12:crypto_flags2:0110:incompletei42e8:intervali1337e5:peers"
            .as_bytes()
            .to_vec();
    let mut peers: Vec<u8> = vec![
        '1' as u8, '2' as u8, ':' as u8, 127, 0, 0, 1, 5, 57, 10, 10, 0, 1, 122, 106,
    ];
    expected.append(&mut peers);
    expected.push('e' as u8);
    assert_eq!(expected, actual);
}

#[test]
fn serialize_scrape_data() {
    let data = ScrapeData {
        failure_reason: Some("i am the reason".to_owned()),
        ..Default::default()
    };
    let actual = text(data.serialize());
    assert_eq!("d14:failure reason15:i am the reasone", actual);

    let files: Vec<ScrapeFile> = vec![
        ScrapeFile {
            info_hash: [65u8; 20].to_vec(),
            complete: 111,
            incomplete: 222,
            downloaded: 333,
        },
        ScrapeFile {
            info_hash: [78u8; 20].to_vec(),
            complete: 10,
            incomplete: 20,
            downloaded: 30,
        },
    ];
    let files = ScrapeFiles(files);

    let data = ScrapeData {
        failure_reason: None,
        min_interval: Some(900),
        files,
    };

    let actual = text(data.serialize());
    let expected = "d5:filesd20:AAAAAAAAAAAAAAAAAAAAd8:completei111e10:downloadedi333e10:incompletei222ee20:NNNNNNNNNNNNNNNNNNNNd8:completei10e10:downloadedi30e10:incompletei20eee5:flagsd12:min intervali900eee";
    assert_eq!(expected, actual);
}

#[test]
fn serialize_scrape_file() {
    let file = ScrapeFile {
        info_hash: [0u8; 20].to_vec(),
        complete: 111,
        incomplete: 222,
        downloaded: 333,
    };

    let expected = "d8:completei111e10:downloadedi333e10:incompletei222ee";
    let actual = text(file.serialize());
    assert_eq!(expected, actual);
}

#[test]
fn scrape_files_are_written_in_key_order() {
    let files = ScrapeFiles(vec![
        ScrapeFile { info_hash: b"zz".to_vec(), complete: 1, incomplete: 2, downloaded: 3 },
        ScrapeFile { info_hash: b"aa".to_vec(), complete: 4, incomplete: 5, downloaded: 6 },
    ]);
    assert_eq!(
        text(files.serialize()),
        "d2:aad8:completei4e10:downloadedi6e10:incompletei5ee2:zzd8:completei1e10:downloadedi3e10:incompletei2eee"
    );
}

#[test]
fn scrape_without_interval_has_no_flags() {
    let data = ScrapeData { failure_reason: None, files: ScrapeFiles(vec![]), min_interval: None };
    assert_eq!(text(data.serialize()), "d5:filesdee");
}

#[test]
fn peer_without_peer_id() {
    let mut peer = v4_peer();
    peer.peer_id = None;
    assert_eq!(text(peer.serialize()), "d2:ip9:127.0.0.14:porti1337ee");
}

#[test]
fn crypto_port_needs_the_crypto_mark() {
    let mut peer = v4_peer();
    peer.crypto_port = Some(4000);
    assert_eq!(peer.wire_port(), 1337);
    peer.crypto = true;
    assert_eq!(peer.wire_port(), 4000);
    assert_eq!(peer.as_bytes(), vec![127, 0, 0, 1, 15, 160]);
}

#[test]
fn failure_response_has_only_the_reason() {
    let resp = BencodeResponse::<AnnounceData>::failure("invalid passcode");
    assert_eq!(text(resp.respond_to()), "d14:failure reason16:invalid passcodee");
    let resp = BencodeResponse::<ScrapeData>::failure("no info hashes provided");
    assert_eq!(text(resp.respond_to()), "d14:failure reason23:no info hashes providede");
}

#[test]
fn set_failure_reason_turns_a_response_into_a_failure() {
    let mut data = AnnounceData::new();
    data.interval = 900;
    data.set_failure_reason("broken".to_owned());
    assert_eq!(text(data.serialize()), "d14:failure reason6:brokene");
    let mut data = ScrapeData::new();
    data.set_failure_reason("broken".to_owned());
    assert_eq!(text(data.serialize()), "d14:failure reason6:brokene");
}

#[test]
fn address_text() {
    assert_eq!(text(IpAddress::V4([0, 9, 10, 255]).to_text()), "0.9.10.255");
    assert_eq!(text(IpAddress::V6([0; 8]).to_text()), "::");
    assert_eq!(text(IpAddress::V6([0, 0, 0, 0, 0, 0, 0, 1]).to_text()), "::1");
    assert_eq!(text(IpAddress::V6([0x2001, 0xdb8, 0, 0, 0, 0, 0, 1]).to_text()), "2001:db8::1");
    assert_eq!(text(IpAddress::V6([1, 0, 0, 2, 0, 0, 0, 3]).to_text()), "1:0:0:2::3");
    assert_eq!(text(IpAddress::V6([1, 0, 0, 2, 0, 0, 3, 4]).to_text()), "1::2:0:0:3:4");
    assert_eq!(text(IpAddress::V6([1, 0, 2, 3, 4, 5, 6, 7]).to_text()), "1:0:2:3:4:5:6:7");
    assert_eq!(text(IpAddress::V6([0xfe80, 0, 0, 0, 0xabcd, 0x10, 0xf, 0]).to_text()), "fe80::abcd:10:f:0");
    assert_eq!(text(IpAddress::V6([0, 0, 0, 0, 0, 0xffff, 0xc000, 0x0280]).to_text()), "::ffff:192.0.2.128");
    assert_eq!(text(IpAddress::V6([1, 2, 3, 4, 5, 6, 0, 0]).to_text()), "1:2:3:4:5:6::");
}

#[test]
fn address_text_of_more_addresses() {
    let samples: [([u16; 8], &str); 6] = [
        ([0, 0, 0, 0, 0, 0xffff, 0x7f00, 1], "::ffff:127.0.0.1"),
        ([0, 0, 0, 0, 0, 0, 0x7f00, 1], "::7f00:1"),
        ([0x2001, 0, 0, 1, 0, 0, 0, 1], "2001:0:0:1::1"),
        ([0xffff; 8], "ffff:ffff:ffff:ffff:ffff:ffff:ffff:ffff"),
        ([0, 1, 0, 0, 1, 0, 0, 0], "0:1:0:0:1::"),
        ([0x10, 0x100, 0x1000, 0xa, 0xab, 0xabc, 0xabcd, 0], "10:100:1000:a:ab:abc:abcd:0"),
    ];
    for (s, expected) in samples {
        assert_eq!(text(IpAddress::V6(s).to_text()), expected);
    }
    assert_eq!(text(IpAddress::V4([1, 20, 100, 200]).to_text()), "1.20.100.200");
    assert_eq!(text(IpAddress::V4([255, 255, 255, 255]).to_text()), "255.255.255.255");
}
