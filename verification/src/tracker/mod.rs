//! The tracker: announce and scrape requests, the swarm bookkeeping they
//! cause, and the bencoded responses.

use vstd::prelude::*;
use vstd::string::StringSliceAdditionalSpecFns;
use crate::bencode::{
    Bencode, bencoded, dict_insert, dict_view, encode, entries_flat, flat, items_flat,
    lemma_flat_more, list_view, MAX_DEPTH, read, Tree, view_of,
};
use crate::db::{rows, Tables, TablesView, those};
use crate::models::peer::PeerView;
use crate::models::{Timestamp, Uuid};
use crate::net::IpAddress;
use crate::settings::Tracker;
use crate::tracker::announce::{
    announce_failure, announce_read, announced, AnnounceRequest, AnnounceResponse,
    AnnounceResponseView, HttpRequest, opt_bytes, opt_chars, opt_view,
};
use crate::tracker::scrape::{
    scrape_read, scraped, ScrapeFile, ScrapeFileView, ScrapeRequest, ScrapeResponse,
};
use crate::util::{ascii, ascii_bytes, copy_bytes};

pub mod announce;
pub mod laws;
pub mod query;
pub mod scrape;

verus! {

/// A peer as a response names it.
#[derive(Debug)]
pub struct Peer {
    pub peer_id: Option<Vec<u8>>,
    pub ip: IpAddress,
    pub port: u16,
    pub crypto: bool,
    pub crypto_port: Option<u16>,
}

/// A peer of a response as a mathematical value.
pub ghost struct WirePeer {
    pub peer_id: Option<Seq<u8>>,
    pub ip: IpAddress,
    pub port: u16,
    pub crypto: bool,
    pub crypto_port: Option<u16>,
}

impl View for Peer {
    type V = WirePeer;

    open spec fn view(&self) -> WirePeer {
        WirePeer {
            peer_id: opt_view(self.peer_id),
            ip: self.ip,
            port: self.port,
            crypto: self.crypto,
            crypto_port: self.crypto_port,
        }
    }
}

impl Clone for Peer {
    fn clone(&self) -> (r: Self)
        ensures
            r@ == self@,
    {
        Peer {
            peer_id: match &self.peer_id {
                Some(id) => Some(copy_bytes(id.as_slice())),
                None => None,
            },
            ip: self.ip,
            port: self.port,
            crypto: self.crypto,
            crypto_port: self.crypto_port,
        }
    }
}

/// The port that a response gives for a peer: the one for encrypted
/// connections where the peer is marked for them and has one, else its
/// plain port.
pub open spec fn effective_port(p: WirePeer) -> u16 {
    if p.crypto && p.crypto_port.is_some() {
        p.crypto_port.unwrap()
    } else {
        p.port
    }
}

/// A peer in the dictionary form: `ip`, `port`, and `peer id` where it is
/// not left out.
pub open spec fn peer_tree(p: WirePeer) -> Tree {
    let base = Map::<Seq<u8>, Tree>::empty().insert(ascii("ip"@), Tree::Bytes(p.ip.text())).insert(
        ascii("port"@),
        Tree::Int(effective_port(p) as int),
    );
    Tree::Dict(
        match p.peer_id {
            Some(id) => base.insert(ascii("peer id"@), Tree::Bytes(id)),
            None => base,
        },
    )
}

/// A peer in the compact form: the four octets of its address and its port,
/// both big-endian; nothing for a peer with an IPv6 address.
pub open spec fn compact_peer(p: WirePeer) -> Seq<u8> {
    match p.ip {
        IpAddress::V4(o) => o@ + seq![
            (effective_port(p) / 256) as u8,
            (effective_port(p) % 256) as u8,
        ],
        IpAddress::V6(_) => Seq::empty(),
    }
}

/// The compact peer list: the compact forms of the peers, in order.
pub open spec fn compact_peers(peers: Seq<WirePeer>) -> Seq<u8>
    decreases peers.len(),
{
    if peers.len() == 0 {
        Seq::empty()
    } else {
        compact_peers(peers.drop_last()) + compact_peer(peers.last())
    }
}

/// Holds of the peers that the peer list of a response names: all of them
/// in the dictionary form, those with an IPv4 address in the compact form.
pub open spec fn emitted(compact: bool) -> spec_fn(WirePeer) -> bool {
    |p: WirePeer| !compact || p.ip is V4
}

/// The mark of a peer in `crypto_flags`: `1` where it takes encrypted
/// connections, else `0`.
pub open spec fn flag_of(p: WirePeer) -> u8 {
    if p.crypto {
        49
    } else {
        48
    }
}

/// `crypto_flags`: the marks of the peers that the peer list names, in
/// the order of the list.
pub open spec fn crypto_flags_of(peers: Seq<WirePeer>, compact: bool) -> Seq<u8> {
    those(peers, emitted(compact)).map_values(|p: WirePeer| flag_of(p))
}

/// The peers in the dictionary form, in order.
pub open spec fn peer_trees(peers: Seq<WirePeer>) -> Seq<Tree> {
    peers.map_values(|p: WirePeer| peer_tree(p))
}

/// The bytes of a text.
pub open spec fn text_bytes(s: Seq<char>) -> Seq<u8> {
    vstd::utf8::encode_utf8(s)
}

/// A dictionary with one more entry, where there is a value for it.
pub open spec fn maybe(m: Map<Seq<u8>, Tree>, key: Seq<u8>, value: Option<Tree>) -> Map<
    Seq<u8>,
    Tree,
> {
    match value {
        Some(v) => m.insert(key, v),
        None => m,
    }
}

/// The dictionary of a failure: `failure reason` and nothing else.
pub open spec fn failure_tree(reason: Seq<char>) -> Tree {
    Tree::Dict(
        Map::<Seq<u8>, Tree>::empty().insert(
            ascii("failure reason"@),
            Tree::Bytes(text_bytes(reason)),
        ),
    )
}

impl Peer {
    /// Writes the peer in the compact form.
    pub fn as_bytes(&self) -> (r: Vec<u8>)
        ensures
            r@ == compact_peer(self@),
    {
        let mut bytes: Vec<u8> = Vec::with_capacity(6);
        match self.ip {
            IpAddress::V4(o) => {
                bytes.push(o[0]);
                bytes.push(o[1]);
                bytes.push(o[2]);
                bytes.push(o[3]);
                let port = self.wire_port();
                bytes.push((port / 256) as u8);
                bytes.push((port % 256) as u8);
                assert(bytes@ =~= compact_peer(self@));
            },
            IpAddress::V6(_) => {},
        }
        bytes
    }

    /// The port that a response gives for the peer.
    pub fn wire_port(&self) -> (r: u16)
        ensures
            r == effective_port(self@),
    {
        if self.crypto {
            match self.crypto_port {
                Some(port) => port,
                None => self.port,
            }
        } else {
            self.port
        }
    }

    /// The peer in the dictionary form.
    pub fn to_value(&self) -> (r: Bencode)
        ensures
            view_of(r) == peer_tree(self@),
            flat(r, 1),
    {
        proof {
            reveal_strlit("ip");
            reveal_strlit("port");
            reveal_strlit("peer id");
        }
        let mut entries: Vec<(Vec<u8>, Bencode)> = Vec::new();
        assert(dict_view(entries@) =~= Map::empty());
        assert(entries_flat(entries@, 0));
        dict_insert(&mut entries, copy_bytes(ascii_bytes("ip")), Bencode::Bytes(self.ip.to_text()));
        dict_insert(
            &mut entries,
            copy_bytes(ascii_bytes("port")),
            Bencode::Int(self.wire_port() as i64),
        );
        match &self.peer_id {
            Some(id) => {
                dict_insert(
                    &mut entries,
                    copy_bytes(ascii_bytes("peer id")),
                    Bencode::Bytes(copy_bytes(id.as_slice())),
                );
            },
            None => {},
        }
        assert(entries_flat(entries@, 0));
        Bencode::Dict(entries)
    }

    /// Encodes the peer in the dictionary form.
    pub fn serialize(&self) -> (r: Vec<u8>)
        ensures
            r@ == bencoded(peer_tree(self@)),
    {
        let v = self.to_value();
        proof {
            lemma_flat_more(v, 1, MAX_DEPTH as nat);
        }
        encode(&v)
    }

    /// The peer of a response for a peer of the swarm. Ports are cut to
    /// sixteen bits.
    pub open spec fn of(p: PeerView) -> WirePeer {
        WirePeer {
            peer_id: Some(p.peer_id),
            ip: p.ip_address,
            port: p.port as u16,
            crypto: p.crypto_enabled,
            crypto_port: match p.crypto_port {
                Some(n) => Some(n as u16),
                None => None,
            },
        }
    }

    /// Makes the peer of a response from a peer of the swarm.
    pub fn from(p: crate::models::peer::Peer) -> (r: Peer)
        ensures
            r@ == Self::of(p@),
    {
        Peer {
            peer_id: Some(p.peer_id),
            crypto: p.crypto_enabled,
            crypto_port: match p.crypto_port {
                Some(n) => Some(#[verifier::truncate] (n as u16)),
                None => None,
            },
            ip: p.ip_address,
            port: #[verifier::truncate] (p.port as u16),
        }
    }
}

/// The peers of a compact peer list.
pub struct CompactPeerList<'a>(pub Vec<&'a Peer>);

/// The peers that a list of references points to.
pub open spec fn pointed(list: Seq<&Peer>) -> Seq<WirePeer> {
    list.map_values(|p: &Peer| p@)
}

impl<'a> CompactPeerList<'a> {
    /// A list without a peer.
    pub fn new() -> (r: Self)
        ensures
            r.0@.len() == 0,
    {
        CompactPeerList(Vec::new())
    }

    /// Puts a peer at the end of the list.
    pub fn push(&mut self, p: &'a Peer)
        ensures
            final(self).0@ == old(self).0@.push(p),
    {
        self.0.push(p);
    }

    /// The byte string of the list.
    pub fn to_value(&self) -> (r: Bencode)
        ensures
            view_of(r) == Tree::Bytes(compact_peers(pointed(self.0@))),
            flat(r, 0),
    {
        let mut bytes: Vec<u8> = Vec::new();
        let mut i: usize = 0;
        let ghost all = pointed(self.0@);
        assert(all.take(0) =~= Seq::empty());
        while i < self.0.len()
            invariant
                i <= self.0.len(),
                all == pointed(self.0@),
                bytes@ == compact_peers(all.take(i as int)),
            decreases self.0.len() - i,
        {
            proof {
                assert(all.take(i + 1).drop_last() =~= all.take(i as int));
                assert(all.take(i + 1).last() == self.0@[i as int]@);
            }
            let mut pbytes = self.0[i].as_bytes();
            bytes.append(&mut pbytes);
            i += 1;
        }
        assert(all.take(self.0.len() as int) =~= all);
        Bencode::Bytes(bytes)
    }

    /// Encodes the list.
    pub fn serialize(&self) -> (r: Vec<u8>)
        ensures
            r@ == bencoded(Tree::Bytes(compact_peers(pointed(self.0@)))),
    {
        encode(&self.to_value())
    }
}

/// What announce and scrape responses share: either can become a failure.
pub trait ResponseData: Sized {
    /// The reason of the failure, if the response is one.
    spec fn failure(&self) -> Option<Seq<char>>;

    /// Turns the response into a failure with the reason.
    fn set_failure_reason(&mut self, reason: String)
        ensures
            final(self).failure() == Some(reason@),
    ;
}

/// The response to an announce.
#[derive(Debug)]
pub struct AnnounceData {
    pub failure_reason: Option<String>,
    pub warning_message: Option<String>,
    pub interval: u16,
    pub min_interval: Option<u16>,
    pub tracker_id: Option<Vec<u8>>,
    pub complete: u32,
    pub incomplete: u32,
    pub peers: Vec<Peer>,
    pub compact: bool,
    pub crypto_flags: bool,
}

/// The response to an announce as a mathematical value.
pub ghost struct AnnounceDataView {
    pub failure_reason: Option<Seq<char>>,
    pub warning_message: Option<Seq<char>>,
    pub interval: u16,
    pub min_interval: Option<u16>,
    pub tracker_id: Option<Seq<u8>>,
    pub complete: u32,
    pub incomplete: u32,
    pub peers: Seq<WirePeer>,
    pub compact: bool,
    pub crypto_flags: bool,
}

impl View for AnnounceData {
    type V = AnnounceDataView;

    open spec fn view(&self) -> AnnounceDataView {
        AnnounceDataView {
            failure_reason: opt_chars(self.failure_reason),
            warning_message: opt_chars(self.warning_message),
            interval: self.interval,
            min_interval: self.min_interval,
            tracker_id: opt_view(self.tracker_id),
            complete: self.complete,
            incomplete: self.incomplete,
            peers: rows(self.peers@),
            compact: self.compact,
            crypto_flags: self.crypto_flags,
        }
    }
}

/// The peer list of a response: one byte string in the compact form, else
/// a list of dictionaries.
pub open spec fn peers_tree(peers: Seq<WirePeer>, compact: bool) -> Tree {
    if compact {
        Tree::Bytes(compact_peers(peers))
    } else {
        Tree::List(peer_trees(peers))
    }
}

/// The dictionary of the response to an announce. A failure has
/// `failure reason` and nothing else. Any other response has `interval`,
/// `complete`, `incomplete` and `peers`; `warning message`, `min interval`
/// and `tracker id` where they are set; and `crypto_flags` where the client
/// knows encrypted connections.
pub open spec fn announce_tree(d: AnnounceDataView) -> Tree {
    match d.failure_reason {
        Some(reason) => failure_tree(reason),
        None => {
            let m0 = maybe(
                Map::<Seq<u8>, Tree>::empty(),
                ascii("warning message"@),
                match d.warning_message {
                    Some(w) => Some(Tree::Bytes(text_bytes(w))),
                    None => None,
                },
            ).insert(ascii("interval"@), Tree::Int(d.interval as int));
            let m1 = maybe(
                maybe(
                    m0,
                    ascii("min interval"@),
                    match d.min_interval {
                        Some(n) => Some(Tree::Int(n as int)),
                        None => None,
                    },
                ),
                ascii("tracker id"@),
                match d.tracker_id {
                    Some(t) => Some(Tree::Bytes(t)),
                    None => None,
                },
            );
            let m2 = m1.insert(ascii("complete"@), Tree::Int(d.complete as int)).insert(
                ascii("incomplete"@),
                Tree::Int(d.incomplete as int),
            ).insert(ascii("peers"@), peers_tree(d.peers, d.compact));
            Tree::Dict(
                maybe(
                    m2,
                    ascii("crypto_flags"@),
                    if d.crypto_flags {
                        Some(Tree::Bytes(crypto_flags_of(d.peers, d.compact)))
                    } else {
                        None
                    },
                ),
            )
        },
    }
}

fn failure_value(reason: &str) -> (r: Bencode)
    ensures
        view_of(r) == failure_tree(reason@),
        flat(r, 3),
{
    proof {
        reveal_strlit("failure reason");
    }
    let mut entries: Vec<(Vec<u8>, Bencode)> = Vec::new();
    assert(dict_view(entries@) =~= Map::empty());
    assert(entries_flat(entries@, 2));
    dict_insert(
        &mut entries,
        copy_bytes(ascii_bytes("failure reason")),
        Bencode::Bytes(copy_bytes(reason.as_bytes())),
    );
    assert(entries_flat(entries@, 2));
    Bencode::Dict(entries)
}

/// The marks of the peers that the peer list names.
fn flags(peers: &Vec<Peer>, compact: bool) -> (r: Vec<u8>)
    ensures
        r@ == crypto_flags_of(rows(peers@), compact),
{
    let mut out: Vec<u8> = Vec::new();
    let mut i: usize = 0;
    let ghost all = rows(peers@);
    let ghost f = emitted(compact);
    let ghost g = |p: WirePeer| flag_of(p);
    assert(all.take(0) =~= Seq::empty());
    assert(out@ =~= those(all.take(0), f).map_values(g));
    while i < peers.len()
        invariant
            i <= peers.len(),
            all == rows(peers@),
            f == emitted(compact),
            g == (|p: WirePeer| flag_of(p)),
            out@ == those(all.take(i as int), f).map_values(g),
        decreases peers.len() - i,
    {
        proof {
            assert(all.take(i + 1).drop_last() =~= all.take(i as int));
            assert(all.take(i + 1).last() == peers@[i as int]@);
        }
        if !compact || peers[i].ip.is_ipv4() {
            let ghost before = those(all.take(i as int), f);
            out.push(if peers[i].crypto { 49 } else { 48 });
            assert(out@ =~= before.push(peers@[i as int]@).map_values(g));
        }
        i += 1;
    }
    assert(all.take(peers.len() as int) =~= all);
    out
}

/// The peers in the dictionary form.
fn peer_values(peers: &Vec<Peer>) -> (r: Bencode)
    ensures
        view_of(r) == Tree::List(peer_trees(rows(peers@))),
        flat(r, 2),
{
    let mut out: Vec<Bencode> = Vec::new();
    let mut i: usize = 0;
    let ghost want = peer_trees(rows(peers@));
    assert(list_view(out@) =~= want.take(0));
    while i < peers.len()
        invariant
            i <= peers.len(),
            want == peer_trees(rows(peers@)),
            items_flat(out@, 1),
            list_view(out@) == want.take(i as int),
        decreases peers.len() - i,
    {
        let ghost before = list_view(out@);
        let ghost held = out@;
        let v = peers[i].to_value();
        let ghost item = view_of(v);
        out.push(v);
        assert(list_view(out@) =~= before.push(item));
        assert forall|j: int| 0 <= j < out@.len() implies flat(#[trigger] out@[j], 1) by {
            if j < held.len() {
                assert(out@[j] == held[j]);
            }
        }
        assert(want.take(i + 1) =~= want.take(i as int).push(want[i as int]));
        i += 1;
    }
    assert(want.take(peers.len() as int) =~= want);
    Bencode::List(out)
}

/// The peers in the compact form.
fn compact_value(peers: &Vec<Peer>) -> (r: Bencode)
    ensures
        view_of(r) == Tree::Bytes(compact_peers(rows(peers@))),
        flat(r, 2),
{
    let mut list = CompactPeerList::new();
    let mut i: usize = 0;
    assert(pointed(list.0@) =~= rows(peers@).take(0));
    while i < peers.len()
        invariant
            i <= peers.len(),
            pointed(list.0@) == rows(peers@).take(i as int),
        decreases peers.len() - i,
    {
        let ghost before = pointed(list.0@);
        list.push(&peers[i]);
        assert(pointed(list.0@) =~= before.push(peers@[i as int]@));
        assert(rows(peers@).take(i + 1) =~= rows(peers@).take(i as int).push(peers@[i as int]@));
        i += 1;
    }
    assert(rows(peers@).take(peers.len() as int) =~= rows(peers@));
    list.to_value()
}

impl AnnounceData {
    /// A response with nothing set.
    pub fn new() -> (r: Self)
        ensures
            r@ == (AnnounceDataView {
                failure_reason: None,
                warning_message: None,
                interval: 0,
                min_interval: None,
                tracker_id: None,
                complete: 0,
                incomplete: 0,
                peers: Seq::empty(),
                compact: false,
                crypto_flags: false,
            }),
    {
        let peers: Vec<Peer> = Vec::new();
        assert(rows(peers@) =~= Seq::empty());
        AnnounceData {
            failure_reason: None,
            warning_message: None,
            interval: 0,
            min_interval: None,
            tracker_id: None,
            complete: 0,
            incomplete: 0,
            peers,
            compact: false,
            crypto_flags: false,
        }
    }

    /// The dictionary of the response.
    pub fn to_value(&self) -> (r: Bencode)
        ensures
            view_of(r) == announce_tree(self@),
            flat(r, 3),
    {
        match &self.failure_reason {
            Some(reason) => {
                return failure_value(reason.as_str());
            },
            None => {},
        }
        proof {
            reveal_strlit("warning message");
            reveal_strlit("interval");
            reveal_strlit("min interval");
            reveal_strlit("tracker id");
            reveal_strlit("complete");
            reveal_strlit("incomplete");
            reveal_strlit("peers");
            reveal_strlit("crypto_flags");
        }
        let mut root: Vec<(Vec<u8>, Bencode)> = Vec::new();
        assert(dict_view(root@) =~= Map::empty());
        assert(entries_flat(root@, 2));
        match &self.warning_message {
            Some(w) => {
                dict_insert(
                    &mut root,
                    copy_bytes(ascii_bytes("warning message")),
                    Bencode::Bytes(copy_bytes(w.as_str().as_bytes())),
                );
            },
            None => {},
        }
        dict_insert(
            &mut root,
            copy_bytes(ascii_bytes("interval")),
            Bencode::Int(self.interval as i64),
        );
        match self.min_interval {
            Some(n) => {
                dict_insert(
                    &mut root,
                    copy_bytes(ascii_bytes("min interval")),
                    Bencode::Int(n as i64),
                );
            },
            None => {},
        }
        match &self.tracker_id {
            Some(t) => {
                dict_insert(
                    &mut root,
                    copy_bytes(ascii_bytes("tracker id")),
                    Bencode::Bytes(copy_bytes(t.as_slice())),
                );
            },
            None => {},
        }
        dict_insert(
            &mut root,
            copy_bytes(ascii_bytes("complete")),
            Bencode::Int(self.complete as i64),
        );
        dict_insert(
            &mut root,
            copy_bytes(ascii_bytes("incomplete")),
            Bencode::Int(self.incomplete as i64),
        );
        let peers = if self.compact {
            compact_value(&self.peers)
        } else {
            peer_values(&self.peers)
        };
        dict_insert(&mut root, copy_bytes(ascii_bytes("peers")), peers);
        assert(entries_flat(root@, 2));
        if self.crypto_flags {
            dict_insert(
                &mut root,
                copy_bytes(ascii_bytes("crypto_flags")),
                Bencode::Bytes(flags(&self.peers, self.compact)),
            );
        }
        Bencode::Dict(root)
    }

    /// Encodes the response.
    pub fn serialize(&self) -> (r: Vec<u8>)
        ensures
            r@ == bencoded(announce_tree(self@)),
            read(r@) == Some(announce_tree(self@)),
    {
        let v = self.to_value();
        proof {
            lemma_flat_more(v, 3, MAX_DEPTH as nat);
        }
        encode(&v)
    }
}

impl ResponseData for AnnounceData {
    open spec fn failure(&self) -> Option<Seq<char>> {
        self@.failure_reason
    }

    fn set_failure_reason(&mut self, reason: String) {
        self.failure_reason = Some(reason);
    }
}

/// The compact peer list has six bytes for each peer with an IPv4 address.
pub proof fn lemma_compact_length(peers: Seq<WirePeer>)
    ensures
        compact_peers(peers).len() == 6 * those(peers, emitted(true)).len(),
    decreases peers.len(),
{
    if peers.len() > 0 {
        lemma_compact_length(peers.drop_last());
    }
}

/// `crypto_flags` has one mark for each peer that the peer list names, in
/// the order of the list: as many as the list of dictionaries has entries,
/// and as many as the compact list has groups of six bytes.
pub proof fn lemma_crypto_flags(peers: Seq<WirePeer>, compact: bool)
    ensures
        crypto_flags_of(peers, compact).len() == those(peers, emitted(compact)).len(),
        forall|i: int|
            0 <= i < crypto_flags_of(peers, compact).len() ==> #[trigger] crypto_flags_of(
                peers,
                compact,
            )[i] == flag_of(those(peers, emitted(compact))[i]),
        !compact ==> those(peers, emitted(compact)) == peers && crypto_flags_of(
            peers,
            compact,
        ).len() == peer_trees(peers).len(),
        compact ==> compact_peers(peers).len() == 6 * crypto_flags_of(peers, compact).len(),
{
    if compact {
        lemma_compact_length(peers);
    } else {
        crate::db::lemma_those_all(peers, emitted(compact));
    }
}

/// The counts of the torrents of a scrape.
#[derive(Debug)]
pub struct ScrapeFiles(pub Vec<ScrapeFile>);

/// The response to a scrape.
#[derive(Debug)]
pub struct ScrapeData {
    pub failure_reason: Option<String>,
    pub files: ScrapeFiles,
    pub min_interval: Option<u16>,
}

/// The response to a scrape as a mathematical value.
pub ghost struct ScrapeDataView {
    pub failure_reason: Option<Seq<char>>,
    pub files: Seq<ScrapeFileView>,
    pub min_interval: Option<u16>,
}

impl View for ScrapeData {
    type V = ScrapeDataView;

    open spec fn view(&self) -> ScrapeDataView {
        ScrapeDataView {
            failure_reason: opt_chars(self.failure_reason),
            files: rows(self.files.0@),
            min_interval: self.min_interval,
        }
    }
}

/// The dictionary of the counts of one torrent.
pub open spec fn file_tree(f: ScrapeFileView) -> Tree {
    Tree::Dict(
        Map::<Seq<u8>, Tree>::empty().insert(ascii("complete"@), Tree::Int(f.complete as int)).insert(
            ascii("downloaded"@),
            Tree::Int(f.downloaded as int),
        ).insert(ascii("incomplete"@), Tree::Int(f.incomplete as int)),
    )
}

/// The dictionary of the counts of the torrents, keyed by info hash. Of
/// two entries with one info hash the later one counts.
pub open spec fn files_map(files: Seq<ScrapeFileView>) -> Map<Seq<u8>, Tree>
    decreases files.len(),
{
    if files.len() == 0 {
        Map::empty()
    } else {
        files_map(files.drop_last()).insert(files.last().info_hash, file_tree(files.last()))
    }
}

/// The dictionary of `flags`.
pub open spec fn flags_tree(min_interval: u16) -> Tree {
    Tree::Dict(
        Map::<Seq<u8>, Tree>::empty().insert(
            ascii("min interval"@),
            Tree::Int(min_interval as int),
        ),
    )
}

/// The dictionary of the response to a scrape: `failure reason` alone for
/// a failure; else `files`, and `flags` where the interval is known.
pub open spec fn scrape_tree(d: ScrapeDataView) -> Tree {
    match d.failure_reason {
        Some(reason) => failure_tree(reason),
        None => Tree::Dict(
            maybe(
                Map::<Seq<u8>, Tree>::empty(),
                ascii("flags"@),
                match d.min_interval {
                    Some(n) => Some(flags_tree(n)),
                    None => None,
                },
            ).insert(ascii("files"@), Tree::Dict(files_map(d.files))),
        ),
    }
}

/// The `files` of a scrape response are keyed by exactly the info hashes
/// of its entries, and the entry of a key is that of the last such info
/// hash.
pub proof fn lemma_files_keys(files: Seq<ScrapeFileView>)
    ensures
        forall|k: Seq<u8>|
            files_map(files).contains_key(k) <==> exists|i: int|
                0 <= i < files.len() && (#[trigger] files[i]).info_hash == k,
        forall|i: int|
            0 <= i < files.len() && (forall|j: int|
                i < j < files.len() ==> (#[trigger] files[j]).info_hash != files[i].info_hash)
                ==> files_map(files)[(#[trigger] files[i]).info_hash] == file_tree(files[i]),
    decreases files.len(),
{
    if files.len() > 0 {
        let init = files.drop_last();
        lemma_files_keys(init);
        assert forall|k: Seq<u8>| files_map(files).contains_key(k) implies exists|i: int|
            0 <= i < files.len() && (#[trigger] files[i]).info_hash == k by {
            if k == files.last().info_hash {
                assert(files[files.len() - 1].info_hash == k);
            } else {
                let i = choose|i: int| 0 <= i < init.len() && (#[trigger] init[i]).info_hash == k;
                assert(files[i].info_hash == k);
            }
        }
        assert forall|k: Seq<u8>|
            (exists|i: int|
                0 <= i < files.len() && (#[trigger] files[i]).info_hash
                    == k) implies files_map(files).contains_key(k) by {
            let i = choose|i: int| 0 <= i < files.len() && (#[trigger] files[i]).info_hash == k;
            if i < init.len() {
                assert(init[i].info_hash == k);
            }
        }
        assert forall|i: int|
            0 <= i < files.len() && (forall|j: int|
                i < j < files.len() ==> (#[trigger] files[j]).info_hash
                    != files[i].info_hash) implies files_map(files)[(#[trigger] files[i]).info_hash]
            == file_tree(files[i]) by {
            if i < init.len() {
                assert(init[i] == files[i]);
                assert(files[files.len() - 1].info_hash != files[i].info_hash);
                assert forall|j: int| i < j < init.len() implies (#[trigger] init[j]).info_hash
                    != init[i].info_hash by {
                    assert(files[j].info_hash != files[i].info_hash);
                }
            }
        }
    }
}

impl ScrapeFile {
    /// The dictionary of the counts.
    pub fn to_value(&self) -> (r: Bencode)
        ensures
            view_of(r) == file_tree(self@),
            flat(r, 1),
    {
        proof {
            reveal_strlit("complete");
            reveal_strlit("downloaded");
            reveal_strlit("incomplete");
        }
        let mut root: Vec<(Vec<u8>, Bencode)> = Vec::new();
        assert(dict_view(root@) =~= Map::empty());
        assert(entries_flat(root@, 0));
        dict_insert(&mut root, copy_bytes(ascii_bytes("complete")), Bencode::Int(self.complete));
        dict_insert(
            &mut root,
            copy_bytes(ascii_bytes("downloaded")),
            Bencode::Int(self.downloaded as i64),
        );
        dict_insert(&mut root, copy_bytes(ascii_bytes("incomplete")), Bencode::Int(self.incomplete));
        assert(entries_flat(root@, 0));
        Bencode::Dict(root)
    }

    /// Encodes the counts.
    pub fn serialize(&self) -> (r: Vec<u8>)
        ensures
            r@ == bencoded(file_tree(self@)),
    {
        let v = self.to_value();
        proof {
            lemma_flat_more(v, 1, MAX_DEPTH as nat);
        }
        encode(&v)
    }
}

impl ScrapeFiles {
    /// The dictionary of the counts, keyed by info hash.
    pub fn to_value(&self) -> (r: Bencode)
        ensures
            view_of(r) == Tree::Dict(files_map(rows(self.0@))),
            flat(r, 2),
    {
        let mut root: Vec<(Vec<u8>, Bencode)> = Vec::new();
        let mut i: usize = 0;
        let ghost all = rows(self.0@);
        assert(all.take(0) =~= Seq::empty());
        assert(dict_view(root@) =~= Map::empty());
        while i < self.0.len()
            invariant
                i <= self.0.len(),
                all == rows(self.0@),
                entries_flat(root@, 1),
                dict_view(root@) == files_map(all.take(i as int)),
            decreases self.0.len() - i,
        {
            proof {
                assert(all.take(i + 1).drop_last() =~= all.take(i as int));
                assert(all.take(i + 1).last() == self.0@[i as int]@);
            }
            let file = self.0[i].to_value();
            dict_insert(&mut root, copy_bytes(self.0[i].info_hash.as_slice()), file);
            i += 1;
        }
        assert(all.take(self.0.len() as int) =~= all);
        Bencode::Dict(root)
    }

    /// Encodes the counts.
    pub fn serialize(&self) -> (r: Vec<u8>)
        ensures
            r@ == bencoded(Tree::Dict(files_map(rows(self.0@)))),
    {
        let v = self.to_value();
        proof {
            lemma_flat_more(v, 2, MAX_DEPTH as nat);
        }
        encode(&v)
    }
}

impl ScrapeData {
    /// A response with nothing set.
    pub fn new() -> (r: Self)
        ensures
            r@ == (ScrapeDataView { failure_reason: None, files: Seq::empty(), min_interval: None }),
    {
        let files: Vec<ScrapeFile> = Vec::new();
        assert(rows(files@) =~= Seq::empty());
        ScrapeData { failure_reason: None, files: ScrapeFiles(files), min_interval: None }
    }

    /// The dictionary of the response.
    pub fn to_value(&self) -> (r: Bencode)
        ensures
            view_of(r) == scrape_tree(self@),
            flat(r, 3),
    {
        match &self.failure_reason {
            Some(reason) => {
                return failure_value(reason.as_str());
            },
            None => {},
        }
        proof {
            reveal_strlit("flags");
            reveal_strlit("files");
            reveal_strlit("min interval");
        }
        let mut root: Vec<(Vec<u8>, Bencode)> = Vec::new();
        assert(dict_view(root@) =~= Map::empty());
        assert(entries_flat(root@, 2));
        match self.min_interval {
            Some(n) => {
                let mut flags: Vec<(Vec<u8>, Bencode)> = Vec::new();
                assert(dict_view(flags@) =~= Map::empty());
                assert(entries_flat(flags@, 1));
                dict_insert(
                    &mut flags,
                    copy_bytes(ascii_bytes("min interval")),
                    Bencode::Int(n as i64),
                );
                assert(entries_flat(flags@, 1));
                let flags = Bencode::Dict(flags);
                assert(flat(flags, 2));
                dict_insert(&mut root, copy_bytes(ascii_bytes("flags")), flags);
            },
            None => {},
        }
        let files = self.files.to_value();
        dict_insert(&mut root, copy_bytes(ascii_bytes("files")), files);
        assert(entries_flat(root@, 2));
        Bencode::Dict(root)
    }

    /// Encodes the response.
    pub fn serialize(&self) -> (r: Vec<u8>)
        ensures
            r@ == bencoded(scrape_tree(self@)),
            read(r@) == Some(scrape_tree(self@)),
    {
        let v = self.to_value();
        proof {
            lemma_flat_more(v, 3, MAX_DEPTH as nat);
        }
        encode(&v)
    }
}

impl ResponseData for ScrapeData {
    open spec fn failure(&self) -> Option<Seq<char>> {
        self@.failure_reason
    }

    fn set_failure_reason(&mut self, reason: String) {
        self.failure_reason = Some(reason);
    }
}

/// Whether every peer has an IPv4 address.
pub open spec fn all_v4(peers: Seq<PeerView>) -> bool {
    forall|i: int| 0 <= i < peers.len() ==> (#[trigger] peers[i]).ip_address is V4
}

/// The peers of a response for the peers of the swarm, without their peer
/// ids where the client asked so.
pub open spec fn wire_peers(peers: Seq<PeerView>, no_peer_id: bool) -> Seq<WirePeer> {
    peers.map_values(
        |p: PeerView|
            if no_peer_id {
                WirePeer { peer_id: None, ..Peer::of(p) }
            } else {
                Peer::of(p)
            },
    )
}

/// The response to an announce that was handled. The compact form is kept
/// only where every peer has an IPv4 address: one peer with an IPv6 address
/// turns it off for the whole list.
pub open spec fn response_data(resp: AnnounceResponseView, interval: u16) -> AnnounceDataView {
    AnnounceDataView {
        failure_reason: None,
        warning_message: None,
        interval,
        min_interval: None,
        tracker_id: resp.tracker_id,
        complete: resp.complete,
        incomplete: resp.incomplete,
        peers: wire_peers(resp.peers, resp.no_peer_id),
        compact: resp.compact && all_v4(resp.peers),
        crypto_flags: resp.crypto_flags,
    }
}

impl AnnounceData {
    /// Makes the response to an announce that was handled: see
    /// [`response_data`].
    pub fn from_response(resp: AnnounceResponse, interval: u16) -> (r: AnnounceData)
        ensures
            r@ == response_data(resp@, interval),
            r@.compact ==> those(r@.peers, emitted(true)) == r@.peers,
    {
        let mut resp = resp;
        let ghost view = resp@;
        let crypto_flags = resp.crypto_flags();
        let mut compact = resp.compact();
        let tracker_id = resp.tracker_id();
        let complete = resp.complete();
        let incomplete = resp.incomplete();
        let no_peer_id = resp.no_peer_id();
        let mut source = resp.peers();
        let ghost all = rows(source@);
        let ghost want = wire_peers(all, no_peer_id);
        let mut peers: Vec<Peer> = Vec::new();
        let mut i: usize = 0;
        assert(rows(peers@) =~= want.take(0));
        while i < source.len()
            invariant
                i <= source.len(),
                all.len() == source.len(),
                want == wire_peers(all, no_peer_id),
                forall|j: int| i <= j < source.len() ==> #[trigger] rows(source@)[j] == all[j],
                rows(peers@) == want.take(i as int),
                compact == (view.compact && all_v4(all.take(i as int))),
            decreases source.len() - i,
        {
            assert(rows(source@)[i as int] == all[i as int]);
            let ghost before = rows(peers@);
            let taken = source[i].clone();
            if compact && taken.ip_address.is_ipv6() {
                compact = false;
            }
            proof {
                if all_v4(all.take(i + 1)) {
                    assert(all.take(i + 1)[i as int].ip_address is V4);
                    assert forall|j: int| 0 <= j < i implies (#[trigger] all.take(
                        i as int,
                    )[j]).ip_address is V4 by {
                        assert(all.take(i + 1)[j].ip_address is V4);
                    }
                }
                if all_v4(all.take(i as int)) && all[i as int].ip_address is V4 {
                    assert forall|j: int| 0 <= j < i + 1 implies (#[trigger] all.take(
                        i + 1,
                    )[j]).ip_address is V4 by {
                        if j < i {
                            assert(all.take(i as int)[j].ip_address is V4);
                        }
                    }
                }
            }
            let mut p = Peer::from(taken);
            if no_peer_id {
                p.peer_id = None;
            }
            let ghost item = p@;
            peers.push(p);
            assert(rows(peers@) =~= before.push(item));
            assert(want.take(i + 1) =~= want.take(i as int).push(want[i as int]));
            i += 1;
        }
        proof {
            assert(all.take(source.len() as int) =~= all);
            assert(want.take(source.len() as int) =~= want);
            if compact {
                assert forall|j: int| 0 <= j < want.len() implies emitted(true)(
                    #[trigger] want[j],
                ) by {
                    assert(all[j].ip_address is V4);
                }
                crate::db::lemma_those_all(want, emitted(true));
            }
        }
        AnnounceData {
            failure_reason: None,
            warning_message: None,
            interval,
            min_interval: None,
            tracker_id,
            complete,
            incomplete,
            peers,
            compact,
            crypto_flags,
        }
    }
}

impl ScrapeData {
    /// Makes the response to a scrape that was handled.
    pub fn from_response(resp: ScrapeResponse, interval: Option<u16>) -> (r: ScrapeData)
        ensures
            r@ == (ScrapeDataView {
                failure_reason: None,
                files: rows(resp.files@),
                min_interval: interval,
            }),
    {
        ScrapeData { failure_reason: None, files: ScrapeFiles(resp.files), min_interval: interval }
    }
}

impl Default for AnnounceData {
    fn default() -> (r: Self)
        ensures
            r@ == (AnnounceDataView {
                failure_reason: None,
                warning_message: None,
                interval: 0,
                min_interval: None,
                tracker_id: None,
                complete: 0,
                incomplete: 0,
                peers: Seq::empty(),
                compact: false,
                crypto_flags: false,
            }),
    {
        AnnounceData::new()
    }
}

impl Default for ScrapeData {
    fn default() -> (r: Self)
        ensures
            r@ == (ScrapeDataView { failure_reason: None, files: Seq::empty(), min_interval: None }),
    {
        ScrapeData::new()
    }
}

/// A response on its way to the client.
#[derive(Debug)]
pub struct BencodeResponse<T: ResponseData> {
    pub data: T,
}

/// The response to an announce that failed.
pub open spec fn announce_failed(reason: Seq<char>) -> AnnounceDataView {
    AnnounceDataView {
        failure_reason: Some(reason),
        warning_message: None,
        interval: 0,
        min_interval: None,
        tracker_id: None,
        complete: 0,
        incomplete: 0,
        peers: Seq::empty(),
        compact: false,
        crypto_flags: false,
    }
}

/// The response to a scrape that failed.
pub open spec fn scrape_failed(reason: Seq<char>) -> ScrapeDataView {
    ScrapeDataView { failure_reason: Some(reason), files: Seq::empty(), min_interval: None }
}

impl BencodeResponse<AnnounceData> {
    /// The response to an announce that failed, with the reason.
    pub fn failure(reason: &str) -> (r: Self)
        ensures
            r.data@ == announce_failed(reason@),
    {
        let mut data = AnnounceData::new();
        data.failure_reason = Some(reason.to_owned());
        BencodeResponse { data }
    }

    /// The body of the response.
    pub fn respond_to(&self) -> (r: Vec<u8>)
        ensures
            r@ == bencoded(announce_tree(self.data@)),
            read(r@) == Some(announce_tree(self.data@)),
    {
        self.data.serialize()
    }
}

impl BencodeResponse<ScrapeData> {
    /// The response to a scrape that failed, with the reason.
    pub fn failure(reason: &str) -> (r: Self)
        ensures
            r.data@ == scrape_failed(reason@),
    {
        let mut data = ScrapeData::new();
        data.failure_reason = Some(reason.to_owned());
        BencodeResponse { data }
    }

    /// The body of the response.
    pub fn respond_to(&self) -> (r: Vec<u8>)
        ensures
            r@ == bencoded(scrape_tree(self.data@)),
            read(r@) == Some(scrape_tree(self.data@)),
    {
        self.data.serialize()
    }
}

/// What an announce request does to the tables, and the response to it.
/// A request that cannot be read, or that fails, leaves the tables as they
/// were and is answered with the text of the failure.
pub open spec fn announce_outcome(
    query: Option<Seq<u8>>,
    peer_addr: Option<IpAddress>,
    passcode: Option<Seq<u8>>,
    user_agent: Option<Seq<char>>,
    default_numwant: u16,
    interval: u16,
    db: TablesView,
    now: Timestamp,
    new_peer: Uuid,
    new_transfer: Uuid,
) -> (TablesView, AnnounceDataView) {
    match announce_failure(query, peer_addr, passcode, user_agent, default_numwant) {
        Some(e) => (db, announce_failed(e.spec_message())),
        None => match announced(
            db,
            announce_read(
                query.unwrap(),
                peer_addr.unwrap(),
                passcode.unwrap(),
                user_agent.unwrap(),
                default_numwant,
            ),
            now,
            new_peer,
            new_transfer,
        ) {
            Ok((after, resp)) => (after, response_data(resp, interval)),
            Err(e) => (db, announce_failed(e.spec_message())),
        },
    }
}

/// Answers an announce request at a given time, with the identifiers that
/// a new peer and a new account are to get.
pub fn announce_at(
    req: &HttpRequest,
    settings: &Tracker,
    db: &mut Tables,
    now: Timestamp,
    new_peer: Uuid,
    new_transfer: Uuid,
) -> (r: BencodeResponse<AnnounceData>)
    ensures
        (final(db)@, r.data@) == announce_outcome(
            opt_view(req.query),
            req.peer_addr,
            opt_bytes(req.passcode),
            opt_chars(req.user_agent),
            settings.default_numwant,
            settings.interval,
            old(db)@,
            now,
            new_peer,
            new_transfer,
        ),
        old(db)@.wf() ==> final(db)@.wf(),
{
    let msg = match AnnounceRequest::try_from(req, settings.default_numwant) {
        Ok(msg) => msg,
        Err(e) => return BencodeResponse::<AnnounceData>::failure(e.message()),
    };
    match crate::tracker::announce::handle_at(db, &msg, now, new_peer, new_transfer) {
        Ok(resp) => BencodeResponse { data: AnnounceData::from_response(resp, settings.interval) },
        Err(e) => BencodeResponse::<AnnounceData>::failure(e.message()),
    }
}

/// Answers an announce request now: whatever the time and the identifiers
/// made for new rows are, the outcome is that of [`announce_at`] with them.
pub fn announce(req: &HttpRequest, settings: &Tracker, db: &mut Tables) -> (r: BencodeResponse<
    AnnounceData,
>)
    ensures
        exists|now: Timestamp, new_peer: Uuid, new_transfer: Uuid|
            (final(db)@, r.data@) == #[trigger] announce_outcome(
                opt_view(req.query),
                req.peer_addr,
                opt_bytes(req.passcode),
                opt_chars(req.user_agent),
                settings.default_numwant,
                settings.interval,
                old(db)@,
                now,
                new_peer,
                new_transfer,
            ),
        old(db)@.wf() ==> final(db)@.wf(),
{
    let now = crate::util::clock();
    let new_peer = crate::util::rand::fresh_id();
    let new_transfer = crate::util::rand::fresh_id();
    announce_at(req, settings, db, now, new_peer, new_transfer)
}

/// The response to a scrape request: the counts of every info hash that
/// the query names, or the text of the failure to read it.
pub open spec fn scrape_outcome(query: Option<Seq<u8>>, interval: u16, db: TablesView) -> ScrapeDataView {
    match scrape_read(query) {
        Err(e) => scrape_failed(e.spec_message()),
        Ok(info_hashes) => ScrapeDataView {
            failure_reason: None,
            files: scraped(db, info_hashes),
            min_interval: Some(interval),
        },
    }
}

/// Answers a scrape request.
pub fn scrape(req: &HttpRequest, settings: &Tracker, db: &Tables) -> (r: BencodeResponse<ScrapeData>)
    ensures
        r.data@ == scrape_outcome(opt_view(req.query), settings.interval, db@),
{
    let msg = match ScrapeRequest::try_from(req) {
        Ok(msg) => msg,
        Err(e) => return BencodeResponse::<ScrapeData>::failure(e.message()),
    };
    let resp = crate::tracker::scrape::handle(db, &msg);
    BencodeResponse { data: ScrapeData::from_response(resp, Some(settings.interval)) }
}

} // verus!
