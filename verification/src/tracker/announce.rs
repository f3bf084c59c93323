//! Announce requests: how one is read from a query, and what it does to
//! the swarm.

use vstd::prelude::*;
use vstd::string::StringSliceAdditionalSpecFns;
use crate::db::{first, lemma_position, rows, Tables, TablesView, without};
use crate::error::Error;
use crate::models::peer::{Peer, peer_with_id, peer_with_key, PeerView, saved_peer, swarm};
use crate::models::{Timestamp, Uuid};
use crate::models::torrent::{
    peer_counts, saved_torrent, saved_transfer, Torrent, torrent_with_hash, TorrentList,
    TorrentView, Transfer, transfer_of, transfer_with_id,
};
use crate::models::user::{saved_user, User, user_with_passcode, UserView};
use crate::net::IpAddress;
use crate::tracker::query::{param, value_of};
use crate::util::{ascii, ascii_bytes, bytes_eq, clock, copy_bytes, from_hex, hex_bytes, is_hex};
use crate::util::bytes::{number, parse_number};
use crate::util::rand::fresh_id;

verus! {

/// What a client reports with an announce.
#[derive(Debug, Clone, Copy, PartialEq, Eq, Structural)]
pub enum Event {
    /// A regular announce, which names no event.
    NoEvent,
    Started,
    Stopped,
    Completed,
}

impl Event {
    /// The event that a word of the query stands for.
    pub open spec fn named(word: Seq<u8>) -> Result<Event, Error> {
        if word == ascii("started"@) {
            Ok(Event::Started)
        } else if word == ascii("stopped"@) {
            Ok(Event::Stopped)
        } else if word == ascii("completed"@) {
            Ok(Event::Completed)
        } else {
            Err(Error::BadEvent)
        }
    }

    /// Reads an event from the bytes of its name.
    pub fn from_bytes(word: &[u8]) -> (r: Result<Event, Error>)
        ensures
            r == Self::named(word@),
    {
        proof {
            reveal_strlit("started");
            reveal_strlit("stopped");
            reveal_strlit("completed");
        }
        if bytes_eq(word, ascii_bytes("started")) {
            Ok(Event::Started)
        } else if bytes_eq(word, ascii_bytes("stopped")) {
            Ok(Event::Stopped)
        } else if bytes_eq(word, ascii_bytes("completed")) {
            Ok(Event::Completed)
        } else {
            Err(Error::BadEvent)
        }
    }

    /// Reads an event from its name.
    pub fn from_str(s: &str) -> (r: Result<Event, Error>)
        ensures
            r == Self::named(s.spec_bytes()),
    {
        Self::from_bytes(s.as_bytes())
    }
}

/// What the transport knows of a request before the tracker reads it.
#[derive(Debug)]
pub struct HttpRequest {
    /// The query string, without the `?`.
    pub query: Option<Vec<u8>>,
    /// The address that the request came from.
    pub peer_addr: Option<IpAddress>,
    /// The passcode segment of the path.
    pub passcode: Option<String>,
    /// The `User-Agent` header.
    pub user_agent: Option<String>,
}

/// An announce, read and typed.
#[derive(Debug)]
pub struct AnnounceRequest {
    pub info_hash: Vec<u8>,
    pub peer_id: Vec<u8>,
    pub port: u16,
    pub uploaded: u64,
    pub downloaded: u64,
    pub left: u64,
    pub compact: bool,
    pub no_peer_id: bool,
    pub event: Event,
    pub numwant: u16,
    pub key: Option<Vec<u8>>,
    pub tracker_id: Option<Vec<u8>>,
    pub ip_address: IpAddress,
    pub passcode: Vec<u8>,
    pub user_agent: String,
    pub support_crypto: bool,
    pub require_crypto: bool,
    pub crypto_port: Option<u16>,
}

/// An announce as a mathematical value.
pub ghost struct AnnounceRequestView {
    pub info_hash: Seq<u8>,
    pub peer_id: Seq<u8>,
    pub port: u16,
    pub uploaded: u64,
    pub downloaded: u64,
    pub left: u64,
    pub compact: bool,
    pub no_peer_id: bool,
    pub event: Event,
    pub numwant: u16,
    pub key: Option<Seq<u8>>,
    pub tracker_id: Option<Seq<u8>>,
    pub ip_address: IpAddress,
    pub passcode: Seq<u8>,
    pub user_agent: Seq<char>,
    pub support_crypto: bool,
    pub require_crypto: bool,
    pub crypto_port: Option<u16>,
}

/// The bytes of a byte string that may be absent.
pub open spec fn opt_view(v: Option<Vec<u8>>) -> Option<Seq<u8>> {
    match v {
        Some(b) => Some(b@),
        None => None,
    }
}

impl View for AnnounceRequest {
    type V = AnnounceRequestView;

    open spec fn view(&self) -> AnnounceRequestView {
        AnnounceRequestView {
            info_hash: self.info_hash@,
            peer_id: self.peer_id@,
            port: self.port,
            uploaded: self.uploaded,
            downloaded: self.downloaded,
            left: self.left,
            compact: self.compact,
            no_peer_id: self.no_peer_id,
            event: self.event,
            numwant: self.numwant,
            key: opt_view(self.key),
            tracker_id: opt_view(self.tracker_id),
            ip_address: self.ip_address,
            passcode: self.passcode@,
            user_agent: self.user_agent@,
            support_crypto: self.support_crypto,
            require_crypto: self.require_crypto,
            crypto_port: self.crypto_port,
        }
    }
}

/// A number that the query must have under `key`.
pub open spec fn required_number(query: Seq<u8>, key: Seq<u8>, max: int, missing: Error) -> Result<
    int,
    Error,
> {
    match value_of(query, key) {
        None => Err(missing),
        Some(v) => match number(v, max) {
            Some(n) => Ok(n),
            None => Err(Error::BadNumber),
        },
    }
}

/// Whether the query has `1` under `key`.
pub open spec fn flag(query: Seq<u8>, key: Seq<u8>) -> bool {
    value_of(query, key) == Some(seq![49u8])
}

/// The event of a query: none where it names none.
pub open spec fn event_of(query: Seq<u8>) -> Result<Event, Error> {
    match value_of(query, ascii("event"@)) {
        None => Ok(Event::NoEvent),
        Some(v) => Event::named(v),
    }
}

/// The number of peers that a query asks for.
pub open spec fn numwant_of(query: Seq<u8>, default_numwant: u16) -> Result<int, Error> {
    match value_of(query, ascii("numwant"@)) {
        None => Ok(default_numwant as int),
        Some(v) => match number(v, 65535) {
            Some(n) => Ok(n),
            None => Err(Error::BadNumber),
        },
    }
}

/// The port for encrypted connections: absent where the query names none,
/// zero where it names one that cannot be read.
pub open spec fn crypto_port_of(query: Seq<u8>) -> Option<u16> {
    match value_of(query, ascii("cryptoport"@)) {
        None => None,
        Some(v) => match number(v, 65535) {
            Some(n) => Some(n as u16),
            None => Some(0u16),
        },
    }
}

/// The failure that reading an announce ends in, if it ends in one: the
/// first of the checks, in this order, that does not pass.
pub open spec fn announce_failure(
    query: Option<Seq<u8>>,
    peer_addr: Option<IpAddress>,
    passcode: Option<Seq<u8>>,
    user_agent: Option<Seq<char>>,
    default_numwant: u16,
) -> Option<Error> {
    if query.is_none() {
        Some(Error::NoQuery)
    } else {
        let q = query.unwrap();
        if value_of(q, ascii("info_hash"@)).is_none() {
            Some(Error::NoInfoHash)
        } else if value_of(q, ascii("peer_id"@)).is_none() {
            Some(Error::NoPeerId)
        } else if required_number(q, ascii("port"@), 65535, Error::NoPort) is Err {
            Some(required_number(q, ascii("port"@), 65535, Error::NoPort)->Err_0)
        } else if required_number(q, ascii("uploaded"@), u64::MAX as int, Error::NoUploaded) is Err {
            Some(required_number(q, ascii("uploaded"@), u64::MAX as int, Error::NoUploaded)->Err_0)
        } else if required_number(q, ascii("downloaded"@), u64::MAX as int, Error::NoDownloaded)
            is Err {
            Some(
                required_number(
                    q,
                    ascii("downloaded"@),
                    u64::MAX as int,
                    Error::NoDownloaded,
                )->Err_0,
            )
        } else if required_number(q, ascii("left"@), u64::MAX as int, Error::NoLeft) is Err {
            Some(required_number(q, ascii("left"@), u64::MAX as int, Error::NoLeft)->Err_0)
        } else if event_of(q) is Err {
            Some(event_of(q)->Err_0)
        } else if numwant_of(q, default_numwant) is Err {
            Some(numwant_of(q, default_numwant)->Err_0)
        } else if peer_addr.is_none() {
            Some(Error::NoAddress)
        } else if passcode.is_none() {
            Some(Error::NoPasscode)
        } else if !is_hex(passcode.unwrap()) {
            Some(Error::BadPasscode)
        } else if user_agent.is_none() {
            Some(Error::NoUserAgent)
        } else {
            None
        }
    }
}

/// The announce that a request holds, where reading it does not fail.
pub open spec fn announce_read(
    q: Seq<u8>,
    peer_addr: IpAddress,
    passcode: Seq<u8>,
    user_agent: Seq<char>,
    default_numwant: u16,
) -> AnnounceRequestView {
    AnnounceRequestView {
        info_hash: value_of(q, ascii("info_hash"@)).unwrap(),
        peer_id: value_of(q, ascii("peer_id"@)).unwrap(),
        port: required_number(q, ascii("port"@), 65535, Error::NoPort).unwrap() as u16,
        uploaded: required_number(
            q,
            ascii("uploaded"@),
            u64::MAX as int,
            Error::NoUploaded,
        ).unwrap() as u64,
        downloaded: required_number(
            q,
            ascii("downloaded"@),
            u64::MAX as int,
            Error::NoDownloaded,
        ).unwrap() as u64,
        left: required_number(q, ascii("left"@), u64::MAX as int, Error::NoLeft).unwrap() as u64,
        compact: flag(q, ascii("compact"@)),
        no_peer_id: flag(q, ascii("no_peer_id"@)),
        event: event_of(q).unwrap(),
        numwant: numwant_of(q, default_numwant).unwrap() as u16,
        key: value_of(q, ascii("key"@)),
        tracker_id: value_of(q, ascii("trackerid"@)),
        ip_address: peer_addr,
        passcode: hex_bytes(passcode),
        user_agent,
        support_crypto: flag(q, ascii("supportcrypto"@)),
        require_crypto: flag(q, ascii("requirecrypto"@)),
        crypto_port: crypto_port_of(q),
    }
}

/// The bytes of a text that may be absent.
pub open spec fn opt_bytes(s: Option<String>) -> Option<Seq<u8>> {
    match s {
        Some(t) => Some(vstd::utf8::encode_utf8(t@)),
        None => None,
    }
}

/// The characters of a text that may be absent.
pub open spec fn opt_chars(s: Option<String>) -> Option<Seq<char>> {
    match s {
        Some(t) => Some(t@),
        None => None,
    }
}

fn read_number(query: &[u8], key: &[u8], max: u64, missing: Error) -> (r: Result<u64, Error>)
    ensures
        match r {
            Ok(n) => required_number(query@, key@, max as int, missing) == Ok::<int, Error>(
                n as int,
            ),
            Err(e) => required_number(query@, key@, max as int, missing) == Err::<int, Error>(e),
        },
{
    match param(query, key) {
        None => Err(missing),
        Some(v) => match parse_number(v.as_slice(), max) {
            Some(n) => Ok(n),
            None => Err(Error::BadNumber),
        },
    }
}

fn read_flag(query: &[u8], key: &[u8]) -> (r: bool)
    ensures
        r == flag(query@, key@),
{
    match param(query, key) {
        None => false,
        Some(v) => {
            let one = v.len() == 1 && v[0] == 49;
            assert(one == (v@ == seq![49u8])) by {
                if one {
                    assert(v@ =~= seq![49u8]);
                }
            }
            one
        },
    }
}

impl AnnounceRequest {
    /// Reads an announce from a request. The query is split at `&` and each
    /// part at its first `=`; values are percent-decoded bytes. `info_hash`,
    /// `peer_id`, `port`, `uploaded`, `downloaded` and `left` are required,
    /// as are the source address, the passcode in lowercase hexadecimal and
    /// the user agent.
    pub fn try_from(req: &HttpRequest, default_numwant: u16) -> (r: Result<AnnounceRequest, Error>)
        ensures
            match r {
                Ok(a) => {
                    &&& announce_failure(
                        opt_view(req.query),
                        req.peer_addr,
                        opt_bytes(req.passcode),
                        opt_chars(req.user_agent),
                        default_numwant,
                    ).is_none()
                    &&& a@ == announce_read(
                        req.query.unwrap()@,
                        req.peer_addr.unwrap(),
                        vstd::utf8::encode_utf8(req.passcode.unwrap()@),
                        req.user_agent.unwrap()@,
                        default_numwant,
                    )
                },
                Err(e) => announce_failure(
                    opt_view(req.query),
                    req.peer_addr,
                    opt_bytes(req.passcode),
                    opt_chars(req.user_agent),
                    default_numwant,
                ) == Some(e),
            },
    {
        proof {
            reveal_strlit("info_hash");
            reveal_strlit("peer_id");
            reveal_strlit("port");
            reveal_strlit("uploaded");
            reveal_strlit("downloaded");
            reveal_strlit("left");
            reveal_strlit("compact");
            reveal_strlit("no_peer_id");
            reveal_strlit("event");
            reveal_strlit("numwant");
            reveal_strlit("key");
            reveal_strlit("trackerid");
            reveal_strlit("supportcrypto");
            reveal_strlit("requirecrypto");
            reveal_strlit("cryptoport");
        }
        let q = match &req.query {
            Some(q) => q.as_slice(),
            None => return Err(Error::NoQuery),
        };
        let info_hash = match param(q, ascii_bytes("info_hash")) {
            Some(v) => v,
            None => return Err(Error::NoInfoHash),
        };
        let peer_id = match param(q, ascii_bytes("peer_id")) {
            Some(v) => v,
            None => return Err(Error::NoPeerId),
        };
        let port = match read_number(q, ascii_bytes("port"), 65535, Error::NoPort) {
            Ok(n) => n as u16,
            Err(e) => return Err(e),
        };
        let uploaded = match read_number(q, ascii_bytes("uploaded"), u64::MAX, Error::NoUploaded) {
            Ok(n) => n,
            Err(e) => return Err(e),
        };
        let downloaded = match read_number(
            q,
            ascii_bytes("downloaded"),
            u64::MAX,
            Error::NoDownloaded,
        ) {
            Ok(n) => n,
            Err(e) => return Err(e),
        };
        let left = match read_number(q, ascii_bytes("left"), u64::MAX, Error::NoLeft) {
            Ok(n) => n,
            Err(e) => return Err(e),
        };
        let compact = read_flag(q, ascii_bytes("compact"));
        let no_peer_id = read_flag(q, ascii_bytes("no_peer_id"));
        let event = match param(q, ascii_bytes("event")) {
            None => Event::NoEvent,
            Some(v) => match Event::from_bytes(v.as_slice()) {
                Ok(e) => e,
                Err(e) => return Err(e),
            },
        };
        let numwant = match param(q, ascii_bytes("numwant")) {
            None => default_numwant,
            Some(v) => match parse_number(v.as_slice(), 65535) {
                Some(n) => n as u16,
                None => return Err(Error::BadNumber),
            },
        };
        let key = param(q, ascii_bytes("key"));
        let tracker_id = param(q, ascii_bytes("trackerid"));
        let ip_address = match req.peer_addr {
            Some(a) => a,
            None => return Err(Error::NoAddress),
        };
        let passcode = match &req.passcode {
            None => return Err(Error::NoPasscode),
            Some(p) => match from_hex(p.as_str()) {
                Some(b) => b,
                None => return Err(Error::BadPasscode),
            },
        };
        let user_agent = match &req.user_agent {
            Some(u) => u.clone(),
            None => return Err(Error::NoUserAgent),
        };
        let support_crypto = read_flag(q, ascii_bytes("supportcrypto"));
        let require_crypto = read_flag(q, ascii_bytes("requirecrypto"));
        let crypto_port = match param(q, ascii_bytes("cryptoport")) {
            None => None,
            Some(v) => match parse_number(v.as_slice(), 65535) {
                Some(n) => Some(n as u16),
                None => Some(0u16),
            },
        };
        Ok(
            AnnounceRequest {
                info_hash,
                peer_id,
                port,
                uploaded,
                downloaded,
                left,
                compact,
                no_peer_id,
                event,
                numwant,
                key,
                tracker_id,
                ip_address,
                passcode,
                user_agent,
                support_crypto,
                require_crypto,
                crypto_port,
            },
        )
    }
}

/// What one announce adds to the accounts of its user.
#[derive(Debug, Clone, Copy, PartialEq, Eq, Structural)]
pub struct Deltas {
    pub upload: i64,
    pub download: i64,
    pub seed_time: i32,
}

/// Whether a number can be stored in sixty-four bits.
pub open spec fn fits_i64(x: int) -> bool {
    i64::MIN <= x <= i64::MAX
}

/// Whether a number can be stored in thirty-two bits.
pub open spec fn fits_i32(x: int) -> bool {
    i32::MIN <= x <= i32::MAX
}

/// The port for encrypted connections as a peer row holds it.
pub open spec fn stored_port(p: Option<u16>) -> Option<i32> {
    match p {
        Some(n) => Some(n as i32),
        None => None,
    }
}

/// The peer after an announce, and what the announce adds to the accounts.
///
/// A peer that is there takes the three counters of the announce; the
/// deltas are the differences to what it held, negative where the client
/// reports less than before, and the time since its last update if it was
/// seeding. It becomes a seeder on `completed` and never leaves that state
/// here. A peer that is not there is made new, with empty counters and no
/// deltas; it seeds if nothing is left to download.
pub open spec fn reconciled(
    existing: Option<PeerView>,
    msg: AnnounceRequestView,
    torrent_id: Uuid,
    user_id: Uuid,
    now: Timestamp,
    new_id: Uuid,
) -> Result<(PeerView, Deltas), Error> {
    match existing {
        Some(peer) => {
            let up = msg.uploaded - peer.bytes_uploaded;
            let down = msg.downloaded - peer.bytes_downloaded;
            let seed = if peer.seeder {
                now - peer.updated_at
            } else {
                0
            };
            if msg.uploaded > i64::MAX || msg.downloaded > i64::MAX || msg.left > i64::MAX
                || !fits_i64(up) || !fits_i64(down) || !fits_i32(seed) {
                Err(Error::CounterRange)
            } else {
                Ok(
                    (
                        PeerView {
                            bytes_uploaded: msg.uploaded as i64,
                            bytes_downloaded: msg.downloaded as i64,
                            bytes_left: msg.left as i64,
                            seeder: peer.seeder || msg.event == Event::Completed,
                            crypto_enabled: msg.support_crypto || msg.require_crypto,
                            updated_at: now,
                            ..peer
                        },
                        Deltas { upload: up as i64, download: down as i64, seed_time: seed as i32 },
                    ),
                )
            }
        },
        None => if msg.left > i64::MAX {
            Err(Error::CounterRange)
        } else {
            Ok(
                (
                    PeerView {
                        id: new_id,
                        torrent_id,
                        user_id,
                        ip_address: msg.ip_address,
                        port: msg.port as i32,
                        bytes_uploaded: 0,
                        bytes_downloaded: 0,
                        bytes_left: msg.left as i64,
                        seeder: msg.left == 0,
                        peer_id: msg.peer_id,
                        user_agent: msg.user_agent,
                        crypto_enabled: msg.support_crypto || msg.require_crypto,
                        crypto_port: stored_port(msg.crypto_port),
                        offset_uploaded: 0,
                        offset_downloaded: 0,
                        created_at: now,
                        finished_at: if msg.left == 0 {
                            Some(now)
                        } else {
                            None
                        },
                        updated_at: now,
                    },
                    Deltas { upload: 0, download: 0, seed_time: 0 },
                ),
            )
        },
    }
}

/// The account of the user on the torrent after an announce: the deltas
/// added to the one that is there, or one opened from the peer; finished
/// at `now` on `completed`.
pub open spec fn accounted(
    existing: Option<Transfer>,
    peer: PeerView,
    d: Deltas,
    event: Event,
    now: Timestamp,
    new_id: Uuid,
) -> Result<Transfer, Error> {
    let completed_at = |t: Transfer|
        if event == Event::Completed {
            Some(now)
        } else {
            t.completed_at
        };
    match existing {
        Some(t) => if !fits_i64(t.bytes_uploaded + d.upload) || !fits_i64(
            t.bytes_downloaded + d.download,
        ) || !fits_i32(t.time_seeded + d.seed_time) {
            Err(Error::CounterRange)
        } else {
            Ok(
                Transfer {
                    bytes_uploaded: (t.bytes_uploaded + d.upload) as i64,
                    bytes_downloaded: (t.bytes_downloaded + d.download) as i64,
                    time_seeded: (t.time_seeded + d.seed_time) as i32,
                    updated_at: now,
                    completed_at: completed_at(t),
                    ..t
                },
            )
        },
        None => {
            let t = Transfer::opened(peer, new_id, now);
            Ok(Transfer { completed_at: completed_at(t), ..t })
        },
    }
}

/// The user after the deltas are added to the lifetime totals.
pub open spec fn credited(user: UserView, d: Deltas) -> Result<UserView, Error> {
    if !fits_i64(user.uploaded + d.upload) || !fits_i64(user.downloaded + d.download) {
        Err(Error::CounterRange)
    } else {
        Ok(
            UserView {
                uploaded: (user.uploaded + d.upload) as i64,
                downloaded: (user.downloaded + d.download) as i64,
                ..user
            },
        )
    }
}

/// The torrent after an announce: seen at `now` and visible from now on;
/// one more finished download on `completed`; a seeder seen at `now` on
/// `completed` or where the peer seeds.
pub open spec fn touched(torrent: TorrentView, seeder: bool, event: Event, now: Timestamp) -> Result<
    TorrentView,
    Error,
> {
    if event == Event::Completed && torrent.completed == i32::MAX {
        Err(Error::CounterRange)
    } else {
        Ok(
            TorrentView {
                last_action: Some(now),
                visible: true,
                completed: if event == Event::Completed {
                    (torrent.completed + 1) as i32
                } else {
                    torrent.completed
                },
                last_seeder: if event == Event::Completed || seeder {
                    Some(now)
                } else {
                    torrent.last_seeder
                },
                ..torrent
            },
        )
    }
}

/// The peers table after an announce: on `stopped` the peer leaves if it
/// was there, and nothing happens if it was not; on every other event the
/// peer is saved.
pub open spec fn peers_after(peers: Seq<PeerView>, existed: bool, peer: PeerView, event: Event) -> Result<
    Seq<PeerView>,
    Error,
> {
    if event == Event::Stopped {
        if existed {
            Ok(without(peers, peer_with_id(peer.id)))
        } else {
            Ok(peers)
        }
    } else {
        saved_peer(peers, peer)
    }
}

/// The peers handed to a client: up to `numwant` of the role it wants, the
/// one updated last first; where these are fewer, peers of its own role
/// behind them, up to `numwant` in all.
pub open spec fn selection(peers: Seq<PeerView>, torrent_id: Uuid, want: bool, numwant: int) -> Seq<
    PeerView,
> {
    let primary = swarm(peers, torrent_id, want, numwant);
    if primary.len() < numwant {
        primary + swarm(peers, torrent_id, !want, numwant - primary.len())
    } else {
        primary
    }
}

/// The peers with the mark for encrypted connections taken off.
pub open spec fn without_crypto(peers: Seq<PeerView>) -> Seq<PeerView> {
    peers.map_values(|p: PeerView| PeerView { crypto_enabled: false, ..p })
}

/// The answer to an announce, before it is encoded.
#[derive(Debug)]
pub struct AnnounceResponse {
    peers: Option<Vec<Peer>>,
    tracker_id: Option<Vec<u8>>,
    complete: u32,
    incomplete: u32,
    compact: bool,
    no_peer_id: bool,
    crypto_flags: bool,
}

/// The answer to an announce as a mathematical value.
pub ghost struct AnnounceResponseView {
    pub peers: Seq<PeerView>,
    pub tracker_id: Option<Seq<u8>>,
    pub complete: u32,
    pub incomplete: u32,
    pub compact: bool,
    pub no_peer_id: bool,
    pub crypto_flags: bool,
}

impl View for AnnounceResponse {
    type V = AnnounceResponseView;

    closed spec fn view(&self) -> AnnounceResponseView {
        AnnounceResponseView {
            peers: match self.peers {
                Some(p) => rows(p@),
                None => Seq::empty(),
            },
            tracker_id: opt_view(self.tracker_id),
            complete: self.complete,
            incomplete: self.incomplete,
            compact: self.compact,
            no_peer_id: self.no_peer_id,
            crypto_flags: self.crypto_flags,
        }
    }
}

impl AnnounceResponse {
    /// Takes the peers out of the answer.
    pub fn peers(&mut self) -> (r: Vec<Peer>)
        ensures
            rows(r@) == old(self)@.peers,
            final(self)@ == (AnnounceResponseView { peers: Seq::empty(), ..old(self)@ }),
    {
        match self.peers.take() {
            Some(p) => p,
            None => {
                let v: Vec<Peer> = Vec::new();
                assert(rows(v@) =~= Seq::empty());
                v
            },
        }
    }

    /// Takes the tracker id out of the answer.
    pub fn tracker_id(&mut self) -> (r: Option<Vec<u8>>)
        ensures
            opt_view(r) == old(self)@.tracker_id,
            final(self)@ == (AnnounceResponseView { tracker_id: None, ..old(self)@ }),
    {
        self.tracker_id.take()
    }

    /// The number of seeders.
    pub fn complete(&self) -> (r: u32)
        ensures
            r == self@.complete,
    {
        self.complete
    }

    /// The number of leechers.
    pub fn incomplete(&self) -> (r: u32)
        ensures
            r == self@.incomplete,
    {
        self.incomplete
    }

    /// Whether the client asked for the compact peer list.
    pub fn compact(&self) -> (r: bool)
        ensures
            r == self@.compact,
    {
        self.compact
    }

    /// Whether the client asked to leave peer ids out.
    pub fn no_peer_id(&self) -> (r: bool)
        ensures
            r == self@.no_peer_id,
    {
        self.no_peer_id
    }

    /// Whether the client knows encrypted connections.
    pub fn crypto_flags(&self) -> (r: bool)
        ensures
            r == self@.crypto_flags,
    {
        self.crypto_flags
    }
}

/// What an announce is about to change: the peer, whether it was there,
/// the account, the user and the torrent, each as it is to be written.
pub ghost struct Plan {
    pub peer: PeerView,
    pub existed: bool,
    pub transfer: Transfer,
    pub user: UserView,
    pub torrent: TorrentView,
}

/// The changes that an announce plans. The user is found by passcode and
/// the torrent by info hash. The peer, the account, the user's totals and
/// the torrent are brought up to date as [`reconciled`], [`accounted`],
/// [`credited`] and [`touched`] say.
pub open spec fn planned(
    db: TablesView,
    msg: AnnounceRequestView,
    now: Timestamp,
    new_peer: Uuid,
    new_transfer: Uuid,
) -> Result<Plan, Error> {
    match first(db.users, user_with_passcode(msg.passcode)) {
        None => Err(Error::InvalidPasscode),
        Some(user) => match first(db.torrents, torrent_with_hash(msg.info_hash)) {
            None => Err(Error::InvalidInfoHash),
            Some(torrent) => {
                let existing = first(db.peers, peer_with_key(torrent.id, user.id, msg.peer_id));
                match reconciled(existing, msg, torrent.id, user.id, now, new_peer) {
                    Err(e) => Err(e),
                    Ok((peer, d)) => match (
                        accounted(
                            first(db.transfers, transfer_of(user.id, torrent.id)),
                            peer,
                            d,
                            msg.event,
                            now,
                            new_transfer,
                        ),
                        credited(user, d),
                        touched(torrent, peer.seeder, msg.event, now),
                    ) {
                        (Ok(transfer), Ok(user2), Ok(torrent2)) => Ok(
                            Plan {
                                peer,
                                existed: existing.is_some(),
                                transfer,
                                user: user2,
                                torrent: torrent2,
                            },
                        ),
                        _ => Err(Error::CounterRange),
                    },
                }
            },
        },
    }
}

/// The tables after the changes of an announce are written: the peers as
/// [`peers_after`] says, the rest as the `saved_` functions say. Where a
/// new row has an identifier that is taken, nothing is written.
pub open spec fn written(db: TablesView, plan: Plan, event: Event) -> Result<TablesView, Error> {
    match (
        peers_after(db.peers, plan.existed, plan.peer, event),
        saved_transfer(db.transfers, plan.transfer),
    ) {
        (Ok(peers), Ok(transfers)) => Ok(
            TablesView {
                users: saved_user(db.users, plan.user),
                torrents: saved_torrent(db.torrents, plan.torrent),
                peers,
                transfers,
            },
        ),
        _ => Err(Error::DuplicateKey),
    }
}

/// The answer to an announce: the [`selection`] from the tables as
/// written, without the marks for encrypted connections where the client
/// does not know them, and the counts of the torrent's seeders and leechers.
pub open spec fn answer(
    after: TablesView,
    msg: AnnounceRequestView,
    torrent_id: Uuid,
    seeder: bool,
) -> AnnounceResponseView {
    let crypto = msg.support_crypto || msg.require_crypto;
    let chosen = selection(after.peers, torrent_id, !seeder, msg.numwant as int);
    let counts = peer_counts(after, torrent_id);
    AnnounceResponseView {
        peers: if crypto {
            chosen
        } else {
            without_crypto(chosen)
        },
        tracker_id: msg.tracker_id,
        complete: (counts.0 % 0x1_0000_0000) as u32,
        incomplete: (counts.1 % 0x1_0000_0000) as u32,
        compact: msg.compact,
        no_peer_id: msg.no_peer_id,
        crypto_flags: crypto,
    }
}

/// What an announce does: the tables after it and the answer, or the
/// failure, which leaves the tables as they were. The changes are
/// [`planned`], then [`written`], and the [`answer`] is made from the
/// tables as written.
pub open spec fn announced(
    db: TablesView,
    msg: AnnounceRequestView,
    now: Timestamp,
    new_peer: Uuid,
    new_transfer: Uuid,
) -> Result<(TablesView, AnnounceResponseView), Error> {
    match planned(db, msg, now, new_peer, new_transfer) {
        Err(e) => Err(e),
        Ok(plan) => match written(db, plan, msg.event) {
            Err(e) => Err(e),
            Ok(after) => Ok((after, answer(after, msg, plan.torrent.id, plan.peer.seeder))),
        },
    }
}

/// Brings a peer up to date with an announce.
pub fn reconcile(
    existing: Option<Peer>,
    msg: &AnnounceRequest,
    torrent_id: Uuid,
    user_id: Uuid,
    now: Timestamp,
    new_id: Uuid,
) -> (r: Result<(Peer, Deltas), Error>)
    ensures
        match r {
            Ok((peer, d)) => reconciled(
                match existing {
                    Some(p) => Some(p@),
                    None => None,
                },
                msg@,
                torrent_id,
                user_id,
                now,
                new_id,
            ) == Ok::<(PeerView, Deltas), Error>((peer@, d)),
            Err(e) => reconciled(
                match existing {
                    Some(p) => Some(p@),
                    None => None,
                },
                msg@,
                torrent_id,
                user_id,
                now,
                new_id,
            ) == Err::<(PeerView, Deltas), Error>(e),
        },
{
    let crypto = msg.support_crypto || msg.require_crypto;
    match existing {
        Some(mut peer) => {
            if msg.uploaded > i64::MAX as u64 || msg.downloaded > i64::MAX as u64 || msg.left
                > i64::MAX as u64 {
                return Err(Error::CounterRange);
            }
            let up = msg.uploaded as i128 - peer.bytes_uploaded as i128;
            let down = msg.downloaded as i128 - peer.bytes_downloaded as i128;
            let seed = if peer.seeder {
                now as i128 - peer.updated_at as i128
            } else {
                0
            };
            if up < i64::MIN as i128 || up > i64::MAX as i128 || down < i64::MIN as i128 || down
                > i64::MAX as i128 || seed < i32::MIN as i128 || seed > i32::MAX as i128 {
                return Err(Error::CounterRange);
            }
            peer.bytes_uploaded = msg.uploaded as i64;
            peer.bytes_downloaded = msg.downloaded as i64;
            peer.bytes_left = msg.left as i64;
            if msg.event == Event::Completed {
                peer.seeder = true;
            }
            peer.crypto_enabled = crypto;
            peer.updated_at = now;
            Ok((peer, Deltas { upload: up as i64, download: down as i64, seed_time: seed as i32 }))
        },
        None => {
            if msg.left > i64::MAX as u64 {
                return Err(Error::CounterRange);
            }
            let peer = Peer {
                id: new_id,
                torrent_id,
                user_id,
                ip_address: msg.ip_address,
                port: msg.port as i32,
                bytes_uploaded: 0,
                bytes_downloaded: 0,
                bytes_left: msg.left as i64,
                seeder: msg.left == 0,
                peer_id: copy_bytes(msg.peer_id.as_slice()),
                user_agent: msg.user_agent.clone(),
                crypto_enabled: crypto,
                crypto_port: match msg.crypto_port {
                    Some(n) => Some(n as i32),
                    None => None,
                },
                offset_uploaded: 0,
                offset_downloaded: 0,
                created_at: now,
                finished_at: if msg.left == 0 {
                    Some(now)
                } else {
                    None
                },
                updated_at: now,
            };
            Ok((peer, Deltas { upload: 0, download: 0, seed_time: 0 }))
        },
    }
}

/// Brings the account of a user on a torrent up to date with an announce.
pub fn account(
    existing: Option<Transfer>,
    peer: &Peer,
    d: Deltas,
    event: Event,
    now: Timestamp,
    new_id: Uuid,
) -> (r: Result<Transfer, Error>)
    ensures
        r == accounted(existing, peer@, d, event, now, new_id),
{
    let mut t = match existing {
        Some(t) => {
            let up = t.bytes_uploaded as i128 + d.upload as i128;
            let down = t.bytes_downloaded as i128 + d.download as i128;
            let seed = t.time_seeded as i64 + d.seed_time as i64;
            if up < i64::MIN as i128 || up > i64::MAX as i128 || down < i64::MIN as i128 || down
                > i64::MAX as i128 || seed < i32::MIN as i64 || seed > i32::MAX as i64 {
                return Err(Error::CounterRange);
            }
            Transfer {
                bytes_uploaded: up as i64,
                bytes_downloaded: down as i64,
                time_seeded: seed as i32,
                updated_at: now,
                ..t
            }
        },
        None => Transfer::from(peer, new_id, now),
    };
    if event == Event::Completed {
        t.completed_at = Some(now);
    }
    Ok(t)
}

/// Adds the deltas of an announce to the lifetime totals of a user.
pub fn credit(user: User, d: Deltas) -> (r: Result<User, Error>)
    ensures
        match r {
            Ok(u) => credited(user@, d) == Ok::<UserView, Error>(u@),
            Err(e) => credited(user@, d) == Err::<UserView, Error>(e),
        },
{
    let up = user.uploaded as i128 + d.upload as i128;
    let down = user.downloaded as i128 + d.download as i128;
    if up < i64::MIN as i128 || up > i64::MAX as i128 || down < i64::MIN as i128 || down
        > i64::MAX as i128 {
        return Err(Error::CounterRange);
    }
    let mut user = user;
    user.uploaded = up as i64;
    user.downloaded = down as i64;
    Ok(user)
}

/// Marks a torrent as seen by an announce.
pub fn touch(torrent: Torrent, seeder: bool, event: Event, now: Timestamp) -> (r: Result<
    Torrent,
    Error,
>)
    ensures
        match r {
            Ok(t) => touched(torrent@, seeder, event, now) == Ok::<TorrentView, Error>(t@),
            Err(e) => touched(torrent@, seeder, event, now) == Err::<TorrentView, Error>(e),
        },
{
    let mut torrent = torrent;
    if event == Event::Completed {
        if torrent.completed == i32::MAX {
            return Err(Error::CounterRange);
        }
        torrent.completed = torrent.completed + 1;
    }
    torrent.last_action = Some(now);
    torrent.visible = true;
    if event == Event::Completed || seeder {
        torrent.last_seeder = Some(now);
    }
    Ok(torrent)
}

/// Selects the peers to hand to a client: see [`selection`].
pub fn select(db: &Tables, torrent_id: Uuid, want: bool, numwant: u16) -> (r: Vec<Peer>)
    ensures
        rows(r@) == selection(db@.peers, torrent_id, want, numwant as int),
{
    let mut peers = Peer::peers_for_torrent(&torrent_id, want, numwant as i64, db);
    proof {
        crate::models::peer::lemma_by_recency(
            crate::db::those(db@.peers, crate::models::peer::peer_in(torrent_id, want)),
            numwant as nat,
        );
    }
    if peers.len() < numwant as usize {
        let rest = numwant as usize - peers.len();
        let ghost primary = rows(peers@);
        let mut more = Peer::peers_for_torrent(&torrent_id, !want, rest as i64, db);
        let ghost secondary = rows(more@);
        peers.append(&mut more);
        assert(rows(peers@) =~= primary + secondary);
    }
    peers
}

/// Takes the mark for encrypted connections off every peer.
pub fn clear_crypto(peers: &mut Vec<Peer>)
    ensures
        rows(final(peers)@) == without_crypto(rows(old(peers)@)),
{
    let mut i: usize = 0;
    while i < peers.len()
        invariant
            i <= peers.len(),
            peers.len() == old(peers).len(),
            forall|j: int|
                0 <= j < i ==> #[trigger] rows(peers@)[j] == without_crypto(rows(old(peers)@))[j],
            forall|j: int| i <= j < peers.len() ==> #[trigger] rows(peers@)[j] == rows(old(peers)@)[j],
        decreases peers.len() - i,
    {
        let ghost before = rows(peers@);
        assert(before[i as int] == rows(old(peers)@)[i as int]);
        let mut p = peers[i].clone();
        p.crypto_enabled = false;
        peers[i] = p;
        assert(rows(peers@) =~= before.update(i as int, p@));
        assert forall|j: int| 0 <= j < i + 1 implies #[trigger] rows(peers@)[j] == without_crypto(
            rows(old(peers)@),
        )[j] by {
            if j < i {
                assert(before[j] == without_crypto(rows(old(peers)@))[j]);
            }
        }
        i += 1;
    }
    assert(rows(peers@) =~= without_crypto(rows(old(peers)@)));
}

/// The changes that an announce is about to write.
#[derive(Debug)]
pub struct Changes {
    pub peer: Peer,
    pub existed: bool,
    pub transfer: Transfer,
    pub user: User,
    pub torrent: Torrent,
}

impl View for Changes {
    type V = Plan;

    open spec fn view(&self) -> Plan {
        Plan {
            peer: self.peer@,
            existed: self.existed,
            transfer: self.transfer,
            user: self.user@,
            torrent: self.torrent@,
        }
    }
}

/// Plans the changes of an announce: see [`planned`].
pub fn plan(
    db: &Tables,
    msg: &AnnounceRequest,
    now: Timestamp,
    new_peer: Uuid,
    new_transfer: Uuid,
) -> (r: Result<Changes, Error>)
    ensures
        match r {
            Ok(c) => planned(db@, msg@, now, new_peer, new_transfer) == Ok::<Plan, Error>(c@),
            Err(e) => planned(db@, msg@, now, new_peer, new_transfer) == Err::<Plan, Error>(e),
        },
{
    let user = match User::find_by_passcode(msg.passcode.as_slice(), db) {
        Some(user) => user,
        None => return Err(Error::InvalidPasscode),
    };
    let torrent = match Torrent::find_by_info_hash(msg.info_hash.as_slice(), db) {
        Some(torrent) => torrent,
        None => return Err(Error::InvalidInfoHash),
    };
    let existing = Peer::find_for_announce(&torrent.id, &user.id, msg.peer_id.as_slice(), db);
    let existed = existing.is_some();
    let (peer, d) = match reconcile(existing, msg, torrent.id, user.id, now, new_peer) {
        Ok(x) => x,
        Err(e) => return Err(e),
    };
    let held = Transfer::find_for_announce(&torrent.id, &user.id, db);
    let transfer = account(held, &peer, d, msg.event, now, new_transfer);
    let user2 = credit(user, d);
    let torrent2 = touch(torrent, peer.seeder, msg.event, now);
    match (transfer, user2, torrent2) {
        (Ok(transfer), Ok(user), Ok(torrent)) => Ok(
            Changes { peer, existed, transfer, user, torrent },
        ),
        _ => Err(Error::CounterRange),
    }
}

/// Whether a peer can be saved: the row of its user in its torrent under
/// its peer id is there, or no row has its identifier.
fn peer_fits(peer: &Peer, db: &Tables) -> (r: bool)
    ensures
        r == saved_peer(db@.peers, peer@).is_ok(),
{
    proof {
        lemma_position(db@.peers, peer_with_key(peer.torrent_id, peer.user_id, peer.peer_id@));
        lemma_position(db@.peers, peer_with_id(peer.id));
    }
    Peer::find_for_announce(&peer.torrent_id, &peer.user_id, peer.peer_id.as_slice(), db).is_some()
        || Peer::find(&peer.id, db).is_none()
}

/// Whether a transfer can be saved: the row of its user on its torrent is
/// there, or no row has its identifier.
fn transfer_fits(transfer: &Transfer, db: &Tables) -> (r: bool)
    ensures
        r == saved_transfer(db@.transfers, *transfer).is_ok(),
{
    proof {
        lemma_position(db@.transfers, transfer_of(transfer.user_id, transfer.torrent_id));
        lemma_position(db@.transfers, transfer_with_id(transfer.id));
    }
    Transfer::find_for_announce(&transfer.torrent_id, &transfer.user_id, db).is_some()
        || crate::models::torrent::transfer_index_by_id(&db.transfers, transfer.id)
        >= db.transfers.len()
}

/// Writes the changes of an announce: see [`written`].
pub fn write(db: &mut Tables, changes: &Changes, event: Event) -> (r: Result<(), Error>)
    ensures
        match r {
            Ok(_) => written(old(db)@, changes@, event) == Ok::<TablesView, Error>(final(db)@),
            Err(e) => final(db)@ == old(db)@ && written(old(db)@, changes@, event) == Err::<
                TablesView,
                Error,
            >(e),
        },
{
    if event != Event::Stopped && !peer_fits(&changes.peer, db) {
        return Err(Error::DuplicateKey);
    }
    if !transfer_fits(&changes.transfer, db) {
        return Err(Error::DuplicateKey);
    }
    if event == Event::Stopped {
        if changes.existed {
            let _ = changes.peer.delete(db);
        }
    } else {
        let _ = changes.peer.save(db);
    }
    let _ = changes.torrent.save(db);
    let _ = changes.user.save(db);
    let _ = changes.transfer.save(db);
    Ok(())
}

/// Makes the answer to an announce from the tables as written: see
/// [`answer`].
pub fn respond(db: &Tables, msg: &AnnounceRequest, torrent_id: Uuid, seeder: bool) -> (r:
    AnnounceResponse)
    ensures
        r@ == answer(db@, msg@, torrent_id, seeder),
{
    let crypto = msg.support_crypto || msg.require_crypto;
    let mut peers = select(db, torrent_id, !seeder, msg.numwant);
    if !crypto {
        clear_crypto(&mut peers);
    }
    let (complete, incomplete) = TorrentList::peer_count(&torrent_id, db);
    AnnounceResponse {
        peers: Some(peers),
        complete: (complete % 0x1_0000_0000) as u32,
        incomplete: (incomplete % 0x1_0000_0000) as u32,
        crypto_flags: crypto,
        compact: msg.compact,
        no_peer_id: msg.no_peer_id,
        tracker_id: match &msg.tracker_id {
            Some(v) => Some(copy_bytes(v.as_slice())),
            None => None,
        },
    }
}

/// Handles an announce at a given time, with the identifiers that a new
/// peer and a new account are to get: see [`announced`].
pub fn handle_at(
    db: &mut Tables,
    msg: &AnnounceRequest,
    now: Timestamp,
    new_peer: Uuid,
    new_transfer: Uuid,
) -> (r: Result<AnnounceResponse, Error>)
    ensures
        match r {
            Ok(resp) => announced(old(db)@, msg@, now, new_peer, new_transfer) == Ok::<
                (TablesView, AnnounceResponseView),
                Error,
            >((final(db)@, resp@)),
            Err(e) => announced(old(db)@, msg@, now, new_peer, new_transfer) == Err::<
                (TablesView, AnnounceResponseView),
                Error,
            >(e) && final(db)@ == old(db)@,
        },
        old(db)@.wf() ==> final(db)@.wf(),
{
    proof {
        if db@.wf() {
            crate::tracker::laws::lemma_announce_keeps_swarm(
                db@,
                msg@,
                now,
                new_peer,
                new_transfer,
            );
        }
    }
    let changes = match plan(db, msg, now, new_peer, new_transfer) {
        Ok(c) => c,
        Err(e) => return Err(e),
    };
    match write(db, &changes, msg.event) {
        Ok(_) => {},
        Err(e) => return Err(e),
    }
    Ok(respond(db, msg, changes.torrent.id, changes.peer.seeder))
}

/// What an announce has come to, with the tables after it: the answer
/// and the tables, or the failure.
pub open spec fn outcome(r: Result<AnnounceResponseView, Error>, after: TablesView) -> Result<
    (TablesView, AnnounceResponseView),
    Error,
> {
    match r {
        Ok(resp) => Ok((after, resp)),
        Err(e) => Err(e),
    }
}

/// Whether an announce was handled at some time, with some identifiers
/// for a new peer and a new account: its outcome is what [`announced`]
/// says for them, and where it failed the tables are as they were.
pub open spec fn handled(
    before: TablesView,
    msg: AnnounceRequestView,
    r: Result<AnnounceResponseView, Error>,
    after: TablesView,
) -> bool {
    &&& exists|now: Timestamp, new_peer: Uuid, new_transfer: Uuid| #[trigger]
        announced(before, msg, now, new_peer, new_transfer) == outcome(r, after)
    &&& r.is_err() ==> after == before
}

/// The answer, or the failure, as a mathematical value.
pub open spec fn answered(r: Result<AnnounceResponse, Error>) -> Result<
    AnnounceResponseView,
    Error,
> {
    match r {
        Ok(resp) => Ok(resp@),
        Err(e) => Err(e),
    }
}

/// Handles an announce now. A new peer and a new account get identifiers
/// made for them; whatever the time and the identifiers are, the outcome is
/// that of [`handle_at`] with them: see [`handled`].
pub fn handle(db: &mut Tables, msg: &AnnounceRequest) -> (r: Result<AnnounceResponse, Error>)
    ensures
        handled(old(db)@, msg@, answered(r), final(db)@),
        old(db)@.wf() ==> final(db)@.wf(),
{
    let now = clock();
    let new_peer = fresh_id();
    let new_transfer = fresh_id();
    let r = handle_at(db, msg, now, new_peer, new_transfer);
    assert(announced(old(db)@, msg@, now, new_peer, new_transfer) == outcome(
        answered(r),
        db@,
    ));
    r
}

} // verus!
