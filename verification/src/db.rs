//! The tables of the site, held in memory, and the vocabulary that the
//! queries on them are stated in.

use vstd::prelude::*;
use crate::models::acl::{GroupRule, UserRule};
use crate::models::category::Category;
use crate::models::chat::ChatMessage;
use crate::models::group::Group;
use crate::models::message::{Message, MessageFolder};
use crate::models::peer::{Peer, PeerView};
use crate::models::static_content::Content;
use crate::models::torrent::{
    Blob, Torrent, TorrentComment, TorrentFile, TorrentImage, TorrentMetaFile, TorrentNFO,
    TorrentView, Transfer,
};
use crate::models::user::{User, UserView};

verus! {

/// The tables of the site that the tracker does not touch.
#[derive(Debug)]
pub struct Site {
    pub categories: Vec<Category>,
    pub groups: Vec<Group>,
    pub folders: Vec<MessageFolder>,
    pub messages: Vec<Message>,
    pub group_rules: Vec<GroupRule>,
    pub user_rules: Vec<UserRule>,
    pub contents: Vec<Content>,
    pub chat_messages: Vec<ChatMessage>,
    pub torrent_meta_files: Vec<TorrentMetaFile>,
    pub torrent_nfos: Vec<TorrentNFO>,
    pub torrent_files: Vec<TorrentFile>,
    pub torrent_images: Vec<TorrentImage>,
    pub torrent_comments: Vec<TorrentComment>,
    pub profiles: Vec<crate::models::user::UserProfile>,
    pub user_properties: Vec<crate::models::user::Property>,
    /// The transfers as the site shows them for a user.
    pub user_transfer: Vec<crate::models::user::UserTransfer>,
    /// The finished downloads as the site shows them for a user.
    pub completed_torrents: Vec<crate::models::user::CompletedTorrent>,
}

/// The tables of the site as mathematical values.
pub ghost struct SiteView {
    pub categories: Seq<Category>,
    pub groups: Seq<Group>,
    pub folders: Seq<MessageFolder>,
    pub messages: Seq<Message>,
    pub group_rules: Seq<GroupRule>,
    pub user_rules: Seq<UserRule>,
    pub contents: Seq<Content>,
    pub chat_messages: Seq<ChatMessage>,
    pub torrent_meta_files: Seq<Blob>,
    pub torrent_nfos: Seq<Blob>,
    pub torrent_files: Seq<TorrentFile>,
    pub torrent_images: Seq<TorrentImage>,
    pub torrent_comments: Seq<TorrentComment>,
    pub profiles: Seq<crate::models::user::UserProfile>,
    pub user_properties: Seq<crate::models::user::Property>,
    pub user_transfer: Seq<crate::models::user::UserTransfer>,
    pub completed_torrents: Seq<crate::models::user::CompletedTorrent>,
}

impl View for Site {
    type V = SiteView;

    open spec fn view(&self) -> SiteView {
        SiteView {
            categories: rows(self.categories@),
            groups: rows(self.groups@),
            folders: rows(self.folders@),
            messages: rows(self.messages@),
            group_rules: rows(self.group_rules@),
            user_rules: rows(self.user_rules@),
            contents: rows(self.contents@),
            chat_messages: rows(self.chat_messages@),
            torrent_meta_files: rows(self.torrent_meta_files@),
            torrent_nfos: rows(self.torrent_nfos@),
            torrent_files: rows(self.torrent_files@),
            torrent_images: rows(self.torrent_images@),
            torrent_comments: rows(self.torrent_comments@),
            profiles: rows(self.profiles@),
            user_properties: rows(self.user_properties@),
            user_transfer: rows(self.user_transfer@),
            completed_torrents: rows(self.completed_torrents@),
        }
    }
}

impl Site {
    /// Tables without a row.
    pub fn new() -> (r: Self)
        ensures
            r@.categories.len() == 0,
            r@.groups.len() == 0,
            r@.folders.len() == 0,
            r@.messages.len() == 0,
            r@.group_rules.len() == 0,
            r@.user_rules.len() == 0,
            r@.contents.len() == 0,
            r@.chat_messages.len() == 0,
            r@.torrent_meta_files.len() == 0,
            r@.torrent_nfos.len() == 0,
            r@.torrent_files.len() == 0,
            r@.torrent_images.len() == 0,
            r@.torrent_comments.len() == 0,
            r@.profiles.len() == 0,
            r@.user_properties.len() == 0,
            r@.user_transfer.len() == 0,
            r@.completed_torrents.len() == 0,
    {
        Site {
            categories: Vec::new(),
            groups: Vec::new(),
            folders: Vec::new(),
            messages: Vec::new(),
            group_rules: Vec::new(),
            user_rules: Vec::new(),
            contents: Vec::new(),
            chat_messages: Vec::new(),
            torrent_meta_files: Vec::new(),
            torrent_nfos: Vec::new(),
            torrent_files: Vec::new(),
            torrent_images: Vec::new(),
            torrent_comments: Vec::new(),
            profiles: Vec::new(),
            user_properties: Vec::new(),
            user_transfer: Vec::new(),
            completed_torrents: Vec::new(),
        }
    }
}

/// Every table that the tracker reads and writes.
#[derive(Debug)]
pub struct Tables {
    pub users: Vec<User>,
    pub torrents: Vec<Torrent>,
    pub peers: Vec<Peer>,
    pub transfers: Vec<Transfer>,
}

/// The tables as mathematical values.
pub ghost struct TablesView {
    pub users: Seq<UserView>,
    pub torrents: Seq<TorrentView>,
    pub peers: Seq<PeerView>,
    pub transfers: Seq<Transfer>,
}

/// The rows of a table as mathematical values, in table order.
pub open spec fn rows<T: View>(table: Seq<T>) -> Seq<T::V> {
    table.map_values(|r: T| r@)
}

impl View for Tables {
    type V = TablesView;

    open spec fn view(&self) -> TablesView {
        TablesView {
            users: rows(self.users@),
            torrents: rows(self.torrents@),
            peers: rows(self.peers@),
            transfers: self.transfers@,
        }
    }
}

/// The position of the first row that `f` holds of, or the number of rows.
pub open spec fn position<T>(table: Seq<T>, f: spec_fn(T) -> bool) -> int
    decreases table.len(),
{
    if table.len() == 0 {
        0
    } else if f(table[0]) {
        0
    } else {
        1 + position(table.skip(1), f)
    }
}

/// `position` is the least position whose row `f` holds of.
pub proof fn lemma_position<T>(table: Seq<T>, f: spec_fn(T) -> bool)
    ensures
        0 <= position(table, f) <= table.len(),
        position(table, f) < table.len() ==> f(table[position(table, f)]),
        forall|i: int| 0 <= i < position(table, f) ==> !f(#[trigger] table[i]),
    decreases table.len(),
{
    if table.len() > 0 && !f(table[0]) {
        lemma_position(table.skip(1), f);
        assert forall|i: int| 0 <= i < position(table, f) implies !f(#[trigger] table[i]) by {
            if i > 0 {
                assert(table.skip(1)[i - 1] == table[i]);
            }
        }
    }
}

/// A position whose row `f` holds of, with none before it, is `position`.
pub proof fn lemma_position_is<T>(table: Seq<T>, f: spec_fn(T) -> bool, n: int)
    requires
        0 <= n <= table.len(),
        n < table.len() ==> f(table[n]),
        forall|i: int| 0 <= i < n ==> !f(#[trigger] table[i]),
    ensures
        position(table, f) == n,
{
    lemma_position(table, f);
    let p = position(table, f);
    if p < n {
        assert(!f(table[p]));
    }
    if n < p {
        assert(!f(table[n]));
    }
}

/// Two conditions that hold of the same rows find the same first row.
pub proof fn lemma_position_same<T>(table: Seq<T>, f: spec_fn(T) -> bool, g: spec_fn(T) -> bool)
    requires
        forall|v: T| #[trigger] f(v) == g(v),
    ensures
        position(table, f) == position(table, g),
    decreases table.len(),
{
    if table.len() > 0 && !f(table[0]) {
        lemma_position_same(table.skip(1), f, g);
    }
}

/// The first row that `f` holds of.
pub open spec fn first<T>(table: Seq<T>, f: spec_fn(T) -> bool) -> Option<T> {
    if position(table, f) < table.len() {
        Some(table[position(table, f)])
    } else {
        None
    }
}

/// The rows that `f` holds of, in table order.
pub open spec fn those<T>(table: Seq<T>, f: spec_fn(T) -> bool) -> Seq<T>
    decreases table.len(),
{
    if table.len() == 0 {
        Seq::empty()
    } else if f(table.last()) {
        those(table.drop_last(), f).push(table.last())
    } else {
        those(table.drop_last(), f)
    }
}

/// Conditions that hold of the same rows select the same rows.
pub proof fn lemma_those_same<T>(table: Seq<T>, f: spec_fn(T) -> bool, g: spec_fn(T) -> bool)
    requires
        forall|v: T| #[trigger] f(v) == g(v),
    ensures
        those(table, f) == those(table, g),
    decreases table.len(),
{
    if table.len() > 0 {
        lemma_those_same(table.drop_last(), f, g);
    }
}

/// The number of rows that `f` holds of.
pub open spec fn count<T>(table: Seq<T>, f: spec_fn(T) -> bool) -> nat {
    those(table, f).len()
}

/// What `those` selects: rows of the table that `f` holds of, no more of
/// them than the table has.
pub proof fn lemma_those<T>(table: Seq<T>, f: spec_fn(T) -> bool)
    ensures
        those(table, f).len() <= table.len(),
        forall|i: int| 0 <= i < those(table, f).len() ==> f(#[trigger] those(table, f)[i]),
        forall|i: int|
            0 <= i < those(table, f).len() ==> table.contains(#[trigger] those(table, f)[i]),
        forall|i: int|
            0 <= i < table.len() && f(table[i]) ==> those(table, f).contains(#[trigger] table[i]),
    decreases table.len(),
{
    if table.len() > 0 {
        let init = table.drop_last();
        lemma_those(init, f);
        let sel = those(table, f);
        assert forall|i: int| 0 <= i < sel.len() implies table.contains(#[trigger] sel[i]) by {
            if i < those(init, f).len() {
                let x = those(init, f)[i];
                assert(init.contains(x));
                let j = choose|j: int| 0 <= j < init.len() && init[j] == x;
                assert(table[j] == x);
            } else {
                assert(table[table.len() - 1] == sel[i]);
            }
        }
        assert forall|i: int| 0 <= i < table.len() && f(table[i]) implies sel.contains(
            #[trigger] table[i],
        ) by {
            if i < init.len() {
                assert(init[i] == table[i]);
                assert(those(init, f).contains(init[i]));
                let j = choose|j: int| 0 <= j < those(init, f).len() && those(init, f)[j] == init[i];
                assert(sel[j] == table[i]);
            } else {
                assert(sel[sel.len() - 1] == table[i]);
            }
        }
    }
}

/// Taking out a row that `f` does not hold of changes nothing in `those`.
pub proof fn lemma_those_remove<T>(table: Seq<T>, f: spec_fn(T) -> bool, i: int)
    requires
        0 <= i < table.len(),
        !f(table[i]),
    ensures
        those(table.remove(i), f) == those(table, f),
    decreases table.len(),
{
    let n = table.len() - 1;
    if i == n {
        assert(table.remove(i) =~= table.drop_last());
    } else {
        let cut = table.remove(i);
        assert(cut.drop_last() =~= table.drop_last().remove(i));
        assert(cut.last() == table.last());
        lemma_those_remove(table.drop_last(), f, i);
    }
}

/// Where `f` holds of every row, `those` is the whole table.
pub proof fn lemma_those_all<T>(table: Seq<T>, f: spec_fn(T) -> bool)
    requires
        forall|i: int| 0 <= i < table.len() ==> f(#[trigger] table[i]),
    ensures
        those(table, f) == table,
    decreases table.len(),
{
    if table.len() > 0 {
        let init = table.drop_last();
        assert forall|i: int| 0 <= i < init.len() implies f(#[trigger] init[i]) by {
            assert(init[i] == table[i]);
        }
        lemma_those_all(init, f);
        assert(f(table[table.len() - 1]));
        assert(init.push(table.last()) =~= table);
    } else {
        assert(those(table, f) =~= table);
    }
}

/// A count that is stored in sixty-four bits, at most the greatest of them.
pub open spec fn capped(n: nat) -> i64 {
    if n > i64::MAX {
        i64::MAX
    } else {
        n as i64
    }
}

/// The table without the rows that `f` holds of.
pub open spec fn without<T>(table: Seq<T>, f: spec_fn(T) -> bool) -> Seq<T> {
    those(table, |r: T| !f(r))
}

impl Tables {
    /// Tables without a row.
    pub fn new() -> (r: Self)
        ensures
            r@.users.len() == 0,
            r@.torrents.len() == 0,
            r@.peers.len() == 0,
            r@.transfers.len() == 0,
            r@.wf(),
    {
        Tables { users: Vec::new(), torrents: Vec::new(), peers: Vec::new(), transfers: Vec::new() }
    }
}

/// A row that can be copied.
pub trait Row: View + Sized {
    /// A copy of the row.
    fn duplicate(&self) -> (r: Self)
        ensures
            r@ == self@,
    ;
}

/// A row with an identifier.
pub trait Keyed: View {
    /// The identifier of a row.
    spec fn key(v: Self::V) -> crate::models::Uuid;

    /// The identifier of the row.
    fn id(&self) -> (r: crate::models::Uuid)
        ensures
            r == Self::key(self@),
    ;
}

/// A condition on the rows of a table.
pub trait Criterion<R: View> {
    /// Whether the condition holds of a row.
    spec fn holds(&self, v: R::V) -> bool;

    /// Tests the condition on a row.
    fn test(&self, row: &R) -> (b: bool)
        ensures
            b == self.holds(row@),
    ;
}

/// Holds of the rows that meet a condition.
pub open spec fn meeting<R: View, C: Criterion<R>>(c: C) -> spec_fn(R::V) -> bool {
    |v: R::V| c.holds(v)
}

/// The condition to have a given identifier.
pub struct ById(pub crate::models::Uuid);

impl<R: Keyed> Criterion<R> for ById {
    open spec fn holds(&self, v: R::V) -> bool {
        R::key(v) == self.0
    }

    fn test(&self, row: &R) -> (b: bool) {
        row.id() == self.0
    }
}

/// Holds of the rows with the identifier.
pub open spec fn with_id<R: Keyed>(id: crate::models::Uuid) -> spec_fn(R::V) -> bool {
    meeting::<R, ById>(ById(id))
}

/// The position of the first row that meets a condition, or the number of
/// rows.
pub fn index_where<R: View, C: Criterion<R>>(table: &Vec<R>, c: &C) -> (r: usize)
    ensures
        r == position(rows(table@), meeting::<R, C>(*c)),
        r <= table.len(),
{
    let ghost f = meeting::<R, C>(*c);
    let mut i: usize = 0;
    while i < table.len()
        invariant
            i <= table.len(),
            f == meeting::<R, C>(*c),
            forall|j: int| 0 <= j < i ==> !f(#[trigger] rows(table@)[j]),
        decreases table.len() - i,
    {
        if c.test(&table[i]) {
            proof {
                lemma_position_is(rows(table@), f, i as int);
            }
            return i;
        }
        i += 1;
    }
    proof {
        lemma_position_is(rows(table@), f, i as int);
    }
    i
}

/// The first row that meets a condition.
pub fn find_where<R: Row, C: Criterion<R>>(table: &Vec<R>, c: &C) -> (r: Option<R>)
    ensures
        match r {
            Some(row) => first(rows(table@), meeting::<R, C>(*c)) == Some(row@),
            None => first(rows(table@), meeting::<R, C>(*c)).is_none(),
        },
{
    let i = index_where(table, c);
    if i < table.len() {
        Some(table[i].duplicate())
    } else {
        None
    }
}

/// The rows that meet a condition, in table order.
pub fn select_where<R: Row, C: Criterion<R>>(table: &Vec<R>, c: &C) -> (r: Vec<R>)
    ensures
        rows(r@) == those(rows(table@), meeting::<R, C>(*c)),
{
    let ghost f = meeting::<R, C>(*c);
    let ghost all = rows(table@);
    let mut out: Vec<R> = Vec::new();
    let mut i: usize = 0;
    proof {
        assert(all.take(0) =~= Seq::empty());
        assert(rows(out@) =~= Seq::empty());
    }
    while i < table.len()
        invariant
            i <= table.len(),
            f == meeting::<R, C>(*c),
            all == rows(table@),
            rows(out@) == those(all.take(i as int), f),
        decreases table.len() - i,
    {
        proof {
            assert(all.take(i + 1).drop_last() =~= all.take(i as int));
            assert(all.take(i + 1).last() == table@[i as int]@);
        }
        if c.test(&table[i]) {
            let ghost before = rows(out@);
            out.push(table[i].duplicate());
            assert(rows(out@) =~= before.push(table@[i as int]@));
        }
        i += 1;
    }
    proof {
        assert(all.take(table.len() as int) =~= all);
    }
    out
}

/// The number of the rows that meet a condition, as far as sixty-four bits
/// hold it.
pub fn count_where<R: View, C: Criterion<R>>(table: &Vec<R>, c: &C) -> (r: i64)
    ensures
        r == capped(count(rows(table@), meeting::<R, C>(*c))),
{
    let ghost f = meeting::<R, C>(*c);
    let ghost all = rows(table@);
    let mut n: i64 = 0;
    let mut i: usize = 0;
    proof {
        assert(all.take(0) =~= Seq::empty());
    }
    while i < table.len()
        invariant
            i <= table.len(),
            f == meeting::<R, C>(*c),
            all == rows(table@),
            n == capped(count(all.take(i as int), f)),
        decreases table.len() - i,
    {
        proof {
            assert(all.take(i + 1).drop_last() =~= all.take(i as int));
            assert(all.take(i + 1).last() == table@[i as int]@);
        }
        if c.test(&table[i]) {
            if n < i64::MAX {
                n += 1;
            }
        }
        i += 1;
    }
    proof {
        assert(all.take(table.len() as int) =~= all);
    }
    n
}

/// Deletes the rows that meet a condition. The result is the number of
/// rows deleted.
pub fn delete_where<R: View, C: Criterion<R>>(table: &mut Vec<R>, c: &C) -> (r: usize)
    ensures
        rows(final(table)@) == without(rows(old(table)@), meeting::<R, C>(*c)),
        r == old(table)@.len() - final(table)@.len(),
{
    let ghost keep = |v: R::V| !meeting::<R, C>(*c)(v);
    let mut i: usize = 0;
    let mut n: usize = 0;
    while i < table.len()
        invariant
            i <= table.len(),
            keep == (|v: R::V| !meeting::<R, C>(*c)(v)),
            those(rows(table@), keep) == those(rows(old(table)@), keep),
            forall|j: int| 0 <= j < i ==> keep(#[trigger] rows(table@)[j]),
            n + table.len() == old(table).len(),
        decreases table.len() - i,
    {
        if c.test(&table[i]) {
            let ghost before = rows(table@);
            proof {
                lemma_those_remove(before, keep, i as int);
            }
            let _ = table.remove(i);
            assert(rows(table@) =~= before.remove(i as int));
            n += 1;
        } else {
            i += 1;
        }
    }
    proof {
        lemma_those_all(rows(table@), keep);
    }
    n
}

/// A table in which every row that meets a condition is replaced.
pub open spec fn replaced<V>(table: Seq<V>, f: spec_fn(V) -> bool, v: V) -> Seq<V> {
    Seq::new(table.len(), |i: int| if f(table[i]) { v } else { table[i] })
}

/// Replaces every row that meets a condition by a copy of `row`. The
/// result is the number of rows replaced.
pub fn replace_where<R: Row, C: Criterion<R>>(table: &mut Vec<R>, c: &C, row: &R) -> (r: usize)
    ensures
        rows(final(table)@) == replaced(rows(old(table)@), meeting::<R, C>(*c), row@),
        r == count(rows(old(table)@), meeting::<R, C>(*c)),
{
    let ghost f = meeting::<R, C>(*c);
    let ghost before = rows(table@);
    let mut n: usize = 0;
    let mut i: usize = 0;
    proof {
        assert(before.take(0) =~= Seq::empty());
    }
    while i < table.len()
        invariant
            i <= table.len(),
            f == meeting::<R, C>(*c),
            before == rows(old(table)@),
            table.len() == before.len(),
            n == count(before.take(i as int), f),
            n <= i,
            forall|j: int|
                0 <= j < i ==> #[trigger] rows(table@)[j] == replaced(before, f, row@)[j],
            forall|j: int| i <= j < before.len() ==> #[trigger] rows(table@)[j] == before[j],
        decreases table.len() - i,
    {
        proof {
            assert(before.take(i + 1).drop_last() =~= before.take(i as int));
            assert(before.take(i + 1).last() == before[i as int]);
            assert(rows(table@)[i as int] == before[i as int]);
        }
        if c.test(&table[i]) {
            let ghost cur = rows(table@);
            table[i] = row.duplicate();
            assert(rows(table@) =~= cur.update(i as int, row@));
            n += 1;
        }
        i += 1;
    }
    proof {
        assert(before.take(before.len() as int) =~= before);
        assert(rows(table@) =~= replaced(before, f, row@));
    }
    n
}

/// Puts a row at the end of a table, unless a row has its identifier.
pub fn insert_row<R: Row + Keyed>(table: &mut Vec<R>, row: &R) -> (r: Result<
    usize,
    crate::error::Error,
>)
    ensures
        position(rows(old(table)@), with_id::<R>(R::key(row@))) < old(table)@.len() ==> r == Err::<
            usize,
            crate::error::Error,
        >(crate::error::Error::DuplicateKey) && final(table)@ == old(table)@,
        position(rows(old(table)@), with_id::<R>(R::key(row@))) >= old(table)@.len() ==> r == Ok::<
            usize,
            crate::error::Error,
        >(1) && rows(final(table)@) == rows(old(table)@).push(row@),
{
    let id = row.id();
    if index_where(table, &ById(id)) < table.len() {
        Err(crate::error::Error::DuplicateKey)
    } else {
        let ghost before = rows(table@);
        table.push(row.duplicate());
        assert(rows(table@) =~= before.push(row@));
        Ok(1)
    }
}

/// A row with a time by which rows are ordered.
pub trait Dated: View {
    /// The time of a row.
    spec fn stamp(v: Self::V) -> crate::models::Timestamp;

    /// The time of the row.
    fn time(&self) -> (r: crate::models::Timestamp)
        ensures
            r == Self::stamp(self@),
    ;
}

/// Whether a row with time `a` goes before one with time `b`: the later
/// one first where the newest lead, else the earlier one.
pub open spec fn ahead(a: crate::models::Timestamp, b: crate::models::Timestamp, newest: bool) -> bool {
    if newest {
        a > b
    } else {
        a < b
    }
}

/// The position of the row that leads: the first of those that no row goes
/// before.
pub open spec fn leader<R: Dated>(table: Seq<R::V>, newest: bool) -> int
    decreases table.len(),
{
    if table.len() <= 1 {
        0
    } else {
        let j = leader::<R>(table.drop_last(), newest);
        if ahead(R::stamp(table.last()), R::stamp(table[j]), newest) {
            table.len() - 1
        } else {
            j
        }
    }
}

/// Up to `limit` rows in the order of their times; of two rows with one
/// time the one that stands first in the table comes first.
pub open spec fn in_order<R: Dated>(table: Seq<R::V>, newest: bool, limit: nat) -> Seq<R::V>
    decreases limit,
{
    if limit == 0 || table.len() == 0 {
        Seq::empty()
    } else {
        let j = leader::<R>(table, newest);
        seq![table[j]] + in_order::<R>(table.remove(j), newest, (limit - 1) as nat)
    }
}

/// `leader` is a position of the table.
pub proof fn lemma_leader<R: Dated>(table: Seq<R::V>, newest: bool)
    requires
        table.len() > 0,
    ensures
        0 <= leader::<R>(table, newest) < table.len(),
    decreases table.len(),
{
    if table.len() > 1 {
        lemma_leader::<R>(table.drop_last(), newest);
    }
}

/// `in_order` gives rows of the table, as many as there are up to the
/// limit.
pub proof fn lemma_in_order<R: Dated>(table: Seq<R::V>, newest: bool, limit: nat)
    ensures
        in_order::<R>(table, newest, limit).len() == if limit <= table.len() {
            limit
        } else {
            table.len()
        },
        forall|i: int|
            0 <= i < in_order::<R>(table, newest, limit).len() ==> table.contains(
                #[trigger] in_order::<R>(table, newest, limit)[i],
            ),
    decreases limit,
{
    if limit > 0 && table.len() > 0 {
        let k = leader::<R>(table, newest);
        lemma_leader::<R>(table, newest);
        let rest = table.remove(k);
        lemma_in_order::<R>(rest, newest, (limit - 1) as nat);
        let out = in_order::<R>(table, newest, limit);
        let tail = in_order::<R>(rest, newest, (limit - 1) as nat);
        assert forall|i: int| 0 <= i < out.len() implies table.contains(#[trigger] out[i]) by {
            if i > 0 {
                assert(out[i] == tail[i - 1]);
                assert(rest.contains(tail[i - 1]));
                let m = choose|m: int| 0 <= m < rest.len() && rest[m] == tail[i - 1];
                if m < k {
                    assert(table[m] == rest[m]);
                } else {
                    assert(table[m + 1] == rest[m]);
                }
            } else {
                assert(table[k] == out[0]);
            }
        }
    }
}

fn index_of_leader<R: Dated>(table: &Vec<R>, newest: bool) -> (r: usize)
    requires
        table.len() > 0,
    ensures
        r == leader::<R>(rows(table@), newest),
        r < table.len(),
{
    let mut best: usize = 0;
    let mut i: usize = 1;
    while i < table.len()
        invariant
            1 <= i <= table.len(),
            best < i,
            best == leader::<R>(rows(table@).take(i as int), newest),
        decreases table.len() - i,
    {
        proof {
            let all = rows(table@);
            assert(all.take(i + 1).drop_last() =~= all.take(i as int));
            assert(all.take(i + 1).last() == all[i as int]);
            assert(all.take(i + 1)[best as int] == all[best as int]);
        }
        let a = table[i].time();
        let b = table[best].time();
        if (newest && a > b) || (!newest && a < b) {
            best = i;
        }
        i += 1;
    }
    proof {
        assert(rows(table@).take(table.len() as int) =~= rows(table@));
    }
    best
}

/// Puts up to `limit` rows in the order of their times: see [`in_order`].
pub fn order_rows<R: Dated>(table: Vec<R>, newest: bool, limit: usize) -> (r: Vec<R>)
    ensures
        rows(r@) == in_order::<R>(rows(table@), newest, limit as nat),
{
    let mut pool = table;
    let mut out: Vec<R> = Vec::new();
    let ghost all = rows(pool@);
    let mut n: usize = 0;
    assert(rows(out@) =~= Seq::empty());
    while n < limit && pool.len() > 0
        invariant
            n <= limit,
            in_order::<R>(all, newest, limit as nat) == rows(out@) + in_order::<R>(
                rows(pool@),
                newest,
                (limit - n) as nat,
            ),
        decreases limit - n,
    {
        let k = index_of_leader(&pool, newest);
        let ghost before = rows(out@);
        let ghost left = rows(pool@);
        let p = pool.remove(k);
        assert(rows(pool@) =~= left.remove(k as int));
        assert(p@ == left[k as int]);
        out.push(p);
        assert(rows(out@) =~= before + seq![left[k as int]]);
        n += 1;
        assert(in_order::<R>(all, newest, limit as nat) =~= rows(out@) + in_order::<R>(
            rows(pool@),
            newest,
            (limit - n) as nat,
        ));
    }
    assert(in_order::<R>(rows(pool@), newest, (limit - n) as nat) =~= Seq::empty());
    assert(rows(out@) =~= in_order::<R>(all, newest, limit as nat));
    out
}

/// The rows that `those` selects stand in the table in the order in which
/// they are selected.
pub proof fn lemma_those_in_order<T>(table: Seq<T>, f: spec_fn(T) -> bool, i: int, j: int)
    requires
        0 <= i < j < those(table, f).len(),
    ensures
        exists|a: int, b: int|
            0 <= a < b < table.len() && #[trigger] table[a] == those(table, f)[i]
                && #[trigger] table[b] == those(table, f)[j],
    decreases table.len(),
{
    let init = table.drop_last();
    let n = table.len() - 1;
    lemma_those(init, f);
    if f(table.last()) && j == those(table, f).len() - 1 {
        assert(those(init, f).contains(those(init, f)[i]));
        assert(init.contains(those(init, f)[i]));
        let a = choose|a: int| 0 <= a < init.len() && init[a] == those(init, f)[i];
        assert(table[a] == those(table, f)[i] && table[n] == those(table, f)[j]);
    } else {
        lemma_those_in_order(init, f, i, j);
        let (a, b) = choose|a: int, b: int|
            0 <= a < b < init.len() && #[trigger] init[a] == those(init, f)[i]
                && #[trigger] init[b] == those(init, f)[j];
        assert(table[a] == those(table, f)[i] && table[b] == those(table, f)[j]);
    }
}

/// Whether no two rows of a table are alike in the sense of `same`.
pub open spec fn distinct<T>(table: Seq<T>, same: spec_fn(T, T) -> bool) -> bool {
    forall|i: int, j: int| 0 <= i < j < table.len() ==> !same(#[trigger] table[i], #[trigger] table[j])
}

/// What `those` selects from a table of distinct rows is distinct.
pub proof fn lemma_those_distinct<T>(table: Seq<T>, f: spec_fn(T) -> bool, same: spec_fn(T, T) -> bool)
    requires
        distinct(table, same),
    ensures
        distinct(those(table, f), same),
{
    let sel = those(table, f);
    assert forall|i: int, j: int| 0 <= i < j < sel.len() implies !same(
        #[trigger] sel[i],
        #[trigger] sel[j],
    ) by {
        lemma_those_in_order(table, f, i, j);
        let (a, b) = choose|a: int, b: int|
            0 <= a < b < table.len() && #[trigger] table[a] == sel[i] && #[trigger] table[b]
                == sel[j];
        assert(!same(table[a], table[b]));
    }
}

/// Whether two peers are the peer of one user in one torrent under one
/// peer id.
pub open spec fn same_peer() -> spec_fn(PeerView, PeerView) -> bool {
    |a: PeerView, b: PeerView|
        a.torrent_id == b.torrent_id && a.user_id == b.user_id && a.peer_id == b.peer_id
}

/// Whether two peers have one identifier.
pub open spec fn same_peer_id() -> spec_fn(PeerView, PeerView) -> bool {
    |a: PeerView, b: PeerView| a.id == b.id
}

/// Whether two transfers are the account of one user on one torrent.
pub open spec fn same_account() -> spec_fn(Transfer, Transfer) -> bool {
    |a: Transfer, b: Transfer| a.user_id == b.user_id && a.torrent_id == b.torrent_id
}

/// Whether two transfers have one identifier.
pub open spec fn same_transfer_id() -> spec_fn(Transfer, Transfer) -> bool {
    |a: Transfer, b: Transfer| a.id == b.id
}

impl TablesView {
    /// What holds of the swarm at all times: a user has at most one peer in
    /// a torrent under a peer id, and at most one account on a torrent; and
    /// no two peers, and no two accounts, have one identifier.
    pub open spec fn wf(self) -> bool {
        &&& distinct(self.peers, same_peer())
        &&& distinct(self.peers, same_peer_id())
        &&& distinct(self.transfers, same_account())
        &&& distinct(self.transfers, same_transfer_id())
    }
}

/// A row with a place in an order of rows.
pub trait Ordered: View {
    /// Whether a row does not come after another.
    spec fn le(a: Self::V, b: Self::V) -> bool;

    /// Of two rows one does not come after the other.
    proof fn lemma_total(a: Self::V, b: Self::V)
        ensures
            Self::le(a, b) || Self::le(b, a),
    ;

    /// The order is transitive.
    proof fn lemma_transitive(a: Self::V, b: Self::V, c: Self::V)
        requires
            Self::le(a, b),
            Self::le(b, c),
        ensures
            Self::le(a, c),
    ;

    /// Tests whether the row does not come after another.
    fn not_after(&self, other: &Self) -> (r: bool)
        ensures
            r == Self::le(self@, other@),
    ;
}

/// Whether no row comes before one that comes before it in the order.
pub open spec fn sorted<R: Ordered>(table: Seq<R::V>) -> bool {
    forall|i: int, j: int| 0 <= i <= j < table.len() ==> R::le(#[trigger] table[i], #[trigger] table[j])
}

/// Puts rows in order: the result holds the same rows, each as often as
/// the table, and none of them before one that comes before it.
pub fn sort_rows<R: Ordered>(table: Vec<R>) -> (r: Vec<R>)
    ensures
        sorted::<R>(rows(r@)),
        rows(r@).to_multiset() == rows(table@).to_multiset(),
{
    broadcast use vstd::multiset::group_multiset_axioms;

    let mut pool = table;
    let mut out: Vec<R> = Vec::new();
    assert(rows(out@) =~= Seq::empty());
    assert(rows(out@).to_multiset().add(rows(pool@).to_multiset()) =~= rows(table@).to_multiset())
        by {
        rows(out@).to_multiset_ensures();
    }
    while pool.len() > 0
        invariant
            sorted::<R>(rows(out@)),
            rows(out@).to_multiset().add(rows(pool@).to_multiset()) == rows(table@).to_multiset(),
        decreases pool.len(),
    {
        let ghost left = rows(pool@);
        let ghost done = rows(out@);
        let x = pool.pop().unwrap();
        assert(left =~= rows(pool@).push(x@));
        let mut p: usize = 0;
        while p < out.len() && out[p].not_after(&x)
            invariant
                p <= out.len(),
                done == rows(out@),
                forall|k: int| 0 <= k < p ==> R::le(#[trigger] done[k], x@),
            decreases out.len() - p,
        {
            p += 1;
        }
        proof {
            assert forall|i: int, j: int| 0 <= i <= j < done.len() + 1 implies R::le(
                #[trigger] done.insert(p as int, x@)[i],
                #[trigger] done.insert(p as int, x@)[j],
            ) by {
                let after = done.insert(p as int, x@);
                if j < p {
                    assert(after[i] == done[i] && after[j] == done[j]);
                } else if j == p {
                    if i < p {
                        assert(after[i] == done[i]);
                    } else {
                        R::lemma_total(x@, x@);
                    }
                } else {
                    assert(after[j] == done[j - 1]);
                    if i < p {
                        assert(after[i] == done[i]);
                    } else if i == p {
                        assert(!R::le(done[p as int], x@));
                        R::lemma_total(done[p as int], x@);
                        R::lemma_transitive(x@, done[p as int], done[j - 1]);
                    } else {
                        assert(after[i] == done[i - 1]);
                    }
                }
            }
        }
        out.insert(p, x);
        assert(rows(out@) =~= done.insert(p as int, x@));
        proof {
            vstd::seq_lib::to_multiset_insert(done, p as int, x@);
            vstd::seq_lib::to_multiset_build(rows(pool@), x@);
        }
        assert(rows(out@).to_multiset() == done.to_multiset().insert(x@));
        assert(left.to_multiset() =~= rows(pool@).to_multiset().insert(x@));
        assert(rows(out@).to_multiset().add(rows(pool@).to_multiset()) =~= done.to_multiset().add(
            left.to_multiset(),
        ));
    }
    assert(rows(pool@) =~= Seq::empty());
    assert(rows(out@).to_multiset().add(rows(pool@).to_multiset()) =~= rows(out@).to_multiset())
        by {
        rows(pool@).to_multiset_ensures();
    }
    out
}

} // verus!
