//! Scrape requests: the counts of one or more torrents, by info hash.

use vstd::prelude::*;
use crate::db::{Tables, TablesView};
use crate::error::Error;
use crate::models::torrent::{scrape_counts, TorrentList};
use crate::tracker::announce::{HttpRequest, opt_view};
use crate::tracker::query::{percent_decode, percent_decoded, raw_params, values_of, views};
use crate::util::{ascii, ascii_bytes, copy_bytes};

verus! {

/// A scrape, read and typed: the info hashes asked for, in the order of
/// the query.
#[derive(Debug)]
pub struct ScrapeRequest {
    pub info_hashes: Vec<Vec<u8>>,
}

/// The counts of one torrent.
#[derive(Debug)]
pub struct ScrapeFile {
    pub info_hash: Vec<u8>,
    pub complete: i64,
    pub incomplete: i64,
    pub downloaded: i32,
}

/// The counts of one torrent as a mathematical value.
pub ghost struct ScrapeFileView {
    pub info_hash: Seq<u8>,
    pub complete: i64,
    pub incomplete: i64,
    pub downloaded: i32,
}

impl View for ScrapeFile {
    type V = ScrapeFileView;

    open spec fn view(&self) -> ScrapeFileView {
        ScrapeFileView {
            info_hash: self.info_hash@,
            complete: self.complete,
            incomplete: self.incomplete,
            downloaded: self.downloaded,
        }
    }
}

/// The answer to a scrape, before it is encoded.
#[derive(Debug)]
pub struct ScrapeResponse {
    pub files: Vec<ScrapeFile>,
}

/// The info hashes that a scrape asks for, or the failure to read it.
pub open spec fn scrape_read(query: Option<Seq<u8>>) -> Result<Seq<Seq<u8>>, Error> {
    match query {
        None => Err(Error::NoQuery),
        Some(q) => if values_of(q, ascii("info_hash"@)).len() == 0 {
            Err(Error::NoInfoHashes)
        } else {
            Ok(values_of(q, ascii("info_hash"@)))
        },
    }
}

/// The counts that a scrape of the given info hashes reports: one entry
/// for each, in order, with zeros for an info hash that no torrent has.
pub open spec fn scraped(db: TablesView, info_hashes: Seq<Seq<u8>>) -> Seq<ScrapeFileView> {
    Seq::new(
        info_hashes.len(),
        |i: int|
            ScrapeFileView {
                info_hash: info_hashes[i],
                complete: scrape_counts(db, info_hashes[i]).0,
                incomplete: scrape_counts(db, info_hashes[i]).1,
                downloaded: scrape_counts(db, info_hashes[i]).2,
            },
    )
}

impl ScrapeRequest {
    /// Reads a scrape from a request: every `info_hash` of the query,
    /// percent-decoded. A query without one is refused.
    pub fn try_from(req: &HttpRequest) -> (r: Result<ScrapeRequest, Error>)
        ensures
            match r {
                Ok(s) => scrape_read(opt_view(req.query)) == Ok::<Seq<Seq<u8>>, Error>(
                    views(s.info_hashes@),
                ),
                Err(e) => scrape_read(opt_view(req.query)) == Err::<Seq<Seq<u8>>, Error>(e),
            },
    {
        proof {
            reveal_strlit("info_hash");
        }
        let q = match &req.query {
            Some(q) => q.as_slice(),
            None => return Err(Error::NoQuery),
        };
        let raw = raw_params(q, ascii_bytes("info_hash"));
        let mut info_hashes: Vec<Vec<u8>> = Vec::new();
        let mut i: usize = 0;
        let ghost want = values_of(q@, ascii("info_hash"@));
        assert(views(info_hashes@) =~= want.take(0));
        while i < raw.len()
            invariant
                i <= raw.len(),
                want == views(raw@).map_values(|v: Seq<u8>| percent_decoded(v)),
                views(info_hashes@) == want.take(i as int),
            decreases raw.len() - i,
        {
            let ghost before = views(info_hashes@);
            let v = percent_decode(raw[i].as_slice());
            let ghost item = v@;
            info_hashes.push(v);
            assert(views(info_hashes@) =~= before.push(item));
            assert(want.take(i + 1) =~= want.take(i as int).push(want[i as int]));
            i += 1;
        }
        assert(want.take(raw.len() as int) =~= want);
        if info_hashes.len() == 0 {
            return Err(Error::NoInfoHashes);
        }
        Ok(ScrapeRequest { info_hashes })
    }
}

/// Handles a scrape: see [`scraped`]. The answer has one entry for each
/// info hash of the request, whether or not a torrent has it.
pub fn handle(db: &Tables, msg: &ScrapeRequest) -> (r: ScrapeResponse)
    ensures
        crate::db::rows(r.files@) == scraped(db@, views(msg.info_hashes@)),
        r.files@.len() == msg.info_hashes@.len(),
        forall|i: int|
            0 <= i < r.files@.len() ==> (#[trigger] r.files@[i]).info_hash@ == msg.info_hashes@[i]@,
{
    let mut files: Vec<ScrapeFile> = Vec::new();
    let mut i: usize = 0;
    let ghost want = scraped(db@, views(msg.info_hashes@));
    assert(crate::db::rows(files@) =~= want.take(0));
    while i < msg.info_hashes.len()
        invariant
            i <= msg.info_hashes.len(),
            want == scraped(db@, views(msg.info_hashes@)),
            crate::db::rows(files@) == want.take(i as int),
        decreases msg.info_hashes.len() - i,
    {
        let info_hash = &msg.info_hashes[i];
        let (complete, incomplete, downloaded) = TorrentList::peer_count_scrape(
            info_hash.as_slice(),
            db,
        );
        let ghost before = crate::db::rows(files@);
        let file = ScrapeFile {
            info_hash: copy_bytes(info_hash.as_slice()),
            complete,
            incomplete,
            downloaded,
        };
        let ghost item = file@;
        files.push(file);
        assert(views(msg.info_hashes@)[i as int] == info_hash@);
        assert(crate::db::rows(files@) =~= before.push(item));
        assert(want.take(i + 1) =~= want.take(i as int).push(want[i as int]));
        i += 1;
    }
    assert(want.take(msg.info_hashes.len() as int) =~= want);
    assert forall|i: int| 0 <= i < files@.len() implies (#[trigger] files@[i]).info_hash@
        == msg.info_hashes@[i]@ by {
        assert(crate::db::rows(files@)[i] == want[i]);
        assert(views(msg.info_hashes@)[i] == msg.info_hashes@[i]@);
    }
    ScrapeResponse { files }
}

} // verus!
