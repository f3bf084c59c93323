use ripalt::db::{Site, Tables};
use ripalt::error::Error;
use ripalt::api::identity::{
    ApiIdentity, ApiIdentityPolicy, Claimed, Claims, Identity, IdentityService,
};
use ripalt::handlers::torrent::{
    LoadTorrentListMsg, LoadTorrentMsg, NewFile, NewTorrentMsg, Visible,
};
use ripalt::handlers::update::{UpdateIds, UpdateTorrentMsg};
use ripalt::handlers::settings::{UpdateProfileMsg, UpdateUserSettingsMsg};
use ripalt::handlers::upload::UploadIds;
use ripalt::handlers::UserSubjectMsg;
use ripalt::models::torrent::{TorrentImage, TorrentMetaFile, TorrentMsg, TorrentNFO};
use ripalt::handlers::user::{
    ConfirmMsg, LoadSettingsMsg, LoadUserProfileMsg, LoadUserStatsMsg, LoginForm,
    RequireUserMsg, SignupForm,
};
use ripalt::models::group::Group;
use ripalt::models::acl::{Acl, UserRule};
use ripalt::models::category::Category;
use ripalt::models::user::UserProfile;
use ripalt::state::AclContainer;
use ripalt::models::acl::{Permission, Subject};
use ripalt::models::peer::Peer;
use ripalt::models::torrent::{
    Torrent, TorrentComment, TorrentCommentResponse, TorrentFile, TorrentList,
};
use ripalt::models::user::{
    CompletedTorrent, Property, PropertyValue, User, UserConnection, UserTransfer, UserUpload,
};
use ripalt::net::IpAddress;
use ripalt::util::pattern::{chars_of, fits, fold, pattern_holding};
use ripalt::util::user::{user_number, user_timezone};

fn listed(id: u128, name: &str, category: u128, user: Option<u128>, visible: bool, at: i64) -> Torrent {
    Torrent {
        id,
        name: name.into(),
        info_hash: vec![id as u8; 20],
        category_id: category,
        user_id: user,
        description: String::new(),
        size: 100,
        visible,
        completed: 0,
        last_action: None,
        last_seeder: None,
        created_at: at,
        updated_at: at,
    }
}

fn named_user(id: u128) -> User {
    let mut u = User::default(0);
    u.id = id;
    u.name = format!("user{}", id);
    u
}

fn listing() -> (Tables, Site) {
    let mut db = Tables::new();
    db.users.push(named_user(1));
    db.users.push(named_user(2));
    db.torrents.push(listed(1, "Big Buck Bunny", 1, Some(1), true, 10));
    db.torrents.push(listed(2, "Sintel", 1, Some(2), true, 20));
    db.torrents.push(listed(3, "big fish", 2, Some(1), false, 30));
    db.torrents.push(listed(4, "Tears of Steel", 2, None, true, 40));
    db.torrents.push(listed(5, "100% bugs", 2, Some(1), true, 50));
    for (id, torrent, seeder) in [(1, 5, true), (2, 5, false), (3, 5, false), (4, 1, true)] {
        let mut p = peer(id, 2, IpAddress::V4([10, 0, 0, id as u8]), 1);
        p.torrent_id = torrent;
        p.seeder = seeder;
        db.peers.push(p);
    }
    let mut site = Site::new();
    site.categories.push(Category { id: 2, name: "cat2".into(), created_at: 0, updated_at: 0 });
    site.torrent_files.push(TorrentFile { id: 1, torrent_id: 5, file_name: "a".into(), size: 1 });
    site.torrent_files.push(TorrentFile { id: 2, torrent_id: 4, file_name: "b".into(), size: 1 });
    site.torrent_files.push(TorrentFile { id: 3, torrent_id: 5, file_name: "c".into(), size: 1 });
    site.torrent_comments.push(TorrentComment {
        id: 1,
        user_id: 2,
        torrent_id: 5,
        content: "c".into(),
        created_at: 0,
        updated_at: 0,
    });
    (db, site)
}

fn ids(list: &[TorrentList]) -> Vec<u128> {
    list.iter().map(|t| t.id).collect()
}

fn number(id: u128, user: u128, name: &str, n: i64) -> Property {
    Property { id, user_id: user, name: name.into(), value: PropertyValue::Number(n), created_at: 0, updated_at: 0 }
}

#[test]
fn names_fit_patterns() {
    let p = |s: &str| chars_of(s);
    assert_eq!(chars_of("añb"), vec!['a', 'ñ', 'b']);
    assert_eq!(pattern_holding("ab"), vec!['%', 'a', 'b', '%']);
    assert_eq!(fold('A'), 'a' as u32);
    assert_eq!(fold('Z'), 'z' as u32);
    assert_eq!(fold('a'), 'a' as u32);
    assert_eq!(fold('['), '[' as u32);
    assert_eq!(fold('@'), '@' as u32);
    assert_eq!(fold('Ä'), 'Ä' as u32);
    assert!(fits(&p(""), ""));
    assert!(!fits(&p(""), "a"));
    assert!(fits(&p("abc"), "ABC"));
    assert!(!fits(&p("abc"), "abcd"));
    assert!(!fits(&p("abc"), "ab"));
    assert!(fits(&p("%"), ""));
    assert!(fits(&p("%"), "anything"));
    assert!(fits(&p("a%c"), "abbbc"));
    assert!(fits(&p("a%c"), "ac"));
    assert!(!fits(&p("a%c"), "abcd"));
    assert!(fits(&p("a_c"), "abc"));
    assert!(!fits(&p("a_c"), "ac"));
    assert!(fits(&p("_"), "ñ"));
    assert!(!fits(&p("_"), ""));
    assert!(fits(&p("100\\%"), "100%"));
    assert!(!fits(&p("100\\%"), "100x"));
    assert!(fits(&p("a\\_b"), "a_b"));
    assert!(!fits(&p("a\\_b"), "axb"));
    assert!(fits(&p("\\\\"), "\\"));
    assert!(!fits(&p("\\"), "\\"));
    assert!(!fits(&p("\\"), ""));
    assert!(fits(&p("%b%b%"), "abcb"));
    assert!(!fits(&p("%b%b%"), "abc"));
    assert!(fits(&pattern_holding("buck"), "Big Buck Bunny"));
    assert!(!fits(&pattern_holding("duck"), "Big Buck Bunny"));
    assert!(fits(&pattern_holding(""), ""));
}

#[test]
fn torrents_listed_by_what_is_asked() {
    let (db, site) = listing();
    let mut all = LoadTorrentListMsg::new(&9);
    all.visible(Visible::All);
    let (list, count) = all.query(&db, &site);
    assert_eq!(ids(&list), vec![1, 2, 3, 4, 5]);
    assert_eq!(count, 5);
    assert_eq!(all.per_page, 25);

    let mut visible = LoadTorrentListMsg::new(&9);
    let (list, count) = visible.query(&db, &site);
    assert_eq!(ids(&list), vec![1, 2, 4, 5]);
    assert_eq!(count, 4);

    let mut dead = LoadTorrentListMsg::new(&9);
    dead.visible(Visible::Invisible);
    let (list, count) = dead.query(&db, &site);
    assert_eq!(ids(&list), vec![3]);
    assert_eq!(count, 1);

    let mut named = LoadTorrentListMsg::new(&9);
    named.visible(Visible::All);
    named.name("BIG".into());
    let (list, count) = named.query(&db, &site);
    assert_eq!(ids(&list), vec![1, 3]);
    assert_eq!(count, 2);

    let mut wild = LoadTorrentListMsg::new(&9);
    wild.visible(Visible::All);
    wild.name("b_g".into());
    assert_eq!(ids(&wild.query(&db, &site).0), vec![1, 3, 5]);

    let mut percent = LoadTorrentListMsg::new(&9);
    percent.visible(Visible::All);
    percent.name("0\\%".into());
    assert_eq!(ids(&percent.query(&db, &site).0), vec![5]);

    let mut filed = LoadTorrentListMsg::new(&9);
    filed.visible(Visible::All);
    filed.category(2);
    assert_eq!(ids(&filed.query(&db, &site).0), vec![3, 4, 5]);

    let mut owned = LoadTorrentListMsg::new(&9);
    owned.visible(Visible::All);
    owned.user(1);
    assert_eq!(ids(&owned.query(&db, &site).0), vec![1, 3, 5]);

    let mut both = LoadTorrentListMsg::new(&9);
    both.user(1);
    both.category(2);
    both.name("bug".into());
    let (list, count) = both.query(&db, &site);
    assert_eq!(ids(&list), vec![5]);
    assert_eq!(count, 1);
    let row = &list[0];
    assert_eq!(row.name, "100% bugs");
    assert_eq!(row.info_hash, vec![5u8; 20]);
    assert_eq!((row.category_id, row.category_name.as_str()), (2, "cat2"));
    assert_eq!((row.user_id, row.user_name.as_deref()), (Some(1), Some("user1")));
    assert_eq!((row.size, row.files, row.comments), (100, 2, 1));
    assert_eq!((row.seeder, row.leecher), (1, 2));
    assert_eq!((row.visible, row.completed, row.created_at), (true, 0, 50));

    // a torrent without a user, and one whose category is not there
    let whole = TorrentList::all(&db, &site);
    assert_eq!(ids(&whole), vec![1, 2, 3, 4, 5]);
    assert_eq!((whole[3].user_id, whole[3].user_name.as_deref()), (None, None));
    assert_eq!((whole[3].files, whole[3].comments, whole[3].seeder, whole[3].leecher), (1, 0, 0, 0));
    assert_eq!(whole[0].category_name, "");
    assert_eq!((whole[0].seeder, whole[0].leecher, whole[0].files), (1, 0, 0));
    let row = TorrentList::of(&db.torrents[1], &db, &site);
    assert_eq!((row.id, row.user_name.as_deref()), (2, Some("user2")));
}

#[test]
fn torrents_listed_page_by_page() {
    let (db, site) = listing();
    let page = |page: i64, per_page: i64| {
        let mut msg = LoadTorrentListMsg::new(&9);
        msg.visible(Visible::All);
        msg.page(page, per_page);
        let (list, count) = msg.query(&db, &site);
        assert_eq!(count, 5);
        ids(&list)
    };
    assert_eq!(page(1, 2), vec![1, 2]);
    assert_eq!(page(2, 2), vec![3, 4]);
    assert_eq!(page(3, 2), vec![5]);
    assert_eq!(page(4, 2), Vec::<u128>::new());
    assert_eq!(page(1, 5), vec![1, 2, 3, 4, 5]);
    assert_eq!(page(1, 0), Vec::<u128>::new());
    assert_eq!(page(0, 2), Vec::<u128>::new());
    assert_eq!(page(1, -1), Vec::<u128>::new());
    assert_eq!(page(-1, -1), Vec::<u128>::new());
    assert_eq!(page(i64::MIN, 1), Vec::<u128>::new());
    assert_eq!(page(i64::MIN, 0), Vec::<u128>::new());
    assert_eq!(page(i64::MAX, i64::MAX), Vec::<u128>::new());
    assert_eq!(page(1, i64::MAX), vec![1, 2, 3, 4, 5]);
    assert_eq!(page(2, 4), vec![5]);
}

#[test]
fn page_size_that_a_user_has_set() {
    let (db, mut site) = listing();
    site.user_properties.push(number(1, 9, "torrents_per_page", 3));
    site.user_properties.push(number(2, 8, "torrents_per_page", 1));
    site.user_properties.push(Property {
        id: 3,
        user_id: 7,
        name: "torrents_per_page".into(),
        value: PropertyValue::Text("3".into()),
        created_at: 0,
        updated_at: 0,
    });
    site.user_properties.push(number(4, 9, "timezone", 7200));
    let mut msg = LoadTorrentListMsg::new(&9);
    msg.visible(Visible::All);
    msg.page(2, 2);
    assert_eq!(msg.user_per_page(&site), 3);
    let (list, count) = msg.query(&db, &site);
    assert_eq!(ids(&list), vec![4, 5]);
    assert_eq!(count, 5);
    assert_eq!(msg.per_page, 3);
    assert_eq!(msg.page, 2);

    let mut other = LoadTorrentListMsg::new(&7);
    other.page(1, 2);
    assert_eq!(other.user_per_page(&site), 2);
    assert_eq!(ids(&other.query(&db, &site).0), vec![1, 2]);

    let mut asked = LoadTorrentListMsg::new(&9);
    asked.visible(Visible::Invisible);
    let answer = asked.handle(&db, &site, 3600);
    assert_eq!(ids(&answer.torrents), vec![3]);
    assert_eq!(answer.count, 1);
    assert_eq!(answer.timezone, 7200);
    assert_eq!(answer.request.per_page, 3);
    assert_eq!(answer.request.visible, Visible::Invisible);
    let answer = LoadTorrentListMsg::new(&8).handle(&db, &site, 3600);
    assert_eq!(ids(&answer.torrents), vec![1]);
    assert_eq!(answer.count, 4);
    assert_eq!(answer.timezone, 3600);
}

#[test]
fn settings_of_a_user() {
    let mut db = Site::new();
    assert_eq!(user_timezone(&1, &db, 3600), 3600);
    assert_eq!(user_number(&1, "timezone", &db), None);
    assert_eq!(number(1, 1, "timezone", -7200).save(&mut db), Ok(1));
    assert_eq!(user_timezone(&1, &db, 3600), -7200);
    assert_eq!(user_timezone(&2, &db, 3600), 3600);
    assert_eq!(user_number(&1, "timezone", &db), Some(-7200));
    // saved again under the name, the property takes the value and keeps the rest
    let mut again = number(2, 1, "timezone", 60);
    again.created_at = 99;
    assert_eq!(again.save(&mut db), Ok(1));
    assert_eq!(db.user_properties.len(), 1);
    assert_eq!(db.user_properties[0].id, 1);
    assert_eq!(db.user_properties[0].created_at, 0);
    assert_eq!(user_timezone(&1, &db, 3600), 60);
    // another name, a taken identifier
    assert_eq!(number(1, 1, "other", 60).save(&mut db), Err(Error::DuplicateKey));
    assert_eq!(db.user_properties.len(), 1);
    assert_eq!(number(3, 1, "alpha", 1).save(&mut db), Ok(1));
    assert_eq!(number(4, 2, "timezone", 1).save(&mut db), Ok(1));
    let mut text = Property::new("theme".into(), PropertyValue::Text("dark".into()), &1, 5);
    assert_eq!(*text.user_id(), 1);
    assert_eq!(text.name(), "theme");
    assert_eq!(text.created_at, 5);
    assert_eq!(text.updated_at, 5);
    assert!(text.value().same(&PropertyValue::Text("dark".into())));
    assert!(!text.value().same(&PropertyValue::Text("light".into())));
    assert!(!text.value().same(&PropertyValue::Null));
    assert_eq!(text.value().as_i64(), None);
    assert_eq!(PropertyValue::Number(4).as_i64(), Some(4));
    assert_eq!(PropertyValue::Bool(true).as_i64(), None);
    assert!(PropertyValue::Bool(true).same(&PropertyValue::Bool(true)));
    assert!(!PropertyValue::Bool(true).same(&PropertyValue::Bool(false)));
    assert!(!PropertyValue::Number(1).same(&PropertyValue::Number(2)));
    assert!(PropertyValue::Null.same(&PropertyValue::Null));
    assert_eq!(text.save(&mut db), Ok(1));
    text.set_value(PropertyValue::Bool(true));
    assert!(text.value().same(&PropertyValue::Bool(true)));
    assert_eq!(user_number(&1, "theme", &db), None);
    assert_eq!(user_timezone(&1, &db, 0), 60);

    let names: Vec<String> = Property::fetch_for_user(&1, &db).into_iter().map(|p| p.name).collect();
    assert_eq!(names, vec!["alpha", "theme", "timezone"]);
    assert!(Property::fetch_for_user(&3, &db).is_empty());
    assert_eq!(Property::find(&2, "timezone", &db).unwrap().id, 4);
    assert!(Property::find(&2, "alpha", &db).is_none());
    let found = Property::find_by_name_value("timezone", &PropertyValue::Number(1), &db).unwrap();
    assert_eq!(found.user_id, 2);
    assert!(Property::find_by_name_value("timezone", &PropertyValue::Number(2), &db).is_none());
    assert!(Property::find_by_name_value("alpha", &PropertyValue::Number(60), &db).is_none());
    assert_eq!(found.delete(&mut db), 1);
    assert_eq!(found.delete(&mut db), 0);
    assert!(Property::find(&2, "timezone", &db).is_none());
    assert_eq!(db.user_properties.len(), 3);
    // a number beyond thirty-two bits is cut
    assert_eq!(number(9, 5, "timezone", (1i64 << 32) + 5).save(&mut db), Ok(1));
    assert_eq!(user_timezone(&5, &db, 0), 5);
}

fn transfer(id: u128, user: u128, name: &str, seeding: bool) -> UserTransfer {
    UserTransfer {
        id,
        torrent_id: id + 100,
        user_id: user,
        name: name.into(),
        is_seeder: seeding,
        size: 1,
        seeder: 2,
        leecher: 3,
        bytes_uploaded: 4,
        bytes_downloaded: 5,
        total_uploaded: 6,
        total_downloaded: 7,
    }
}

fn completed(id: u128, user: u128, name: &str) -> CompletedTorrent {
    CompletedTorrent {
        id,
        user_id: user,
        torrent_id: id + 100,
        bytes_uploaded: 1,
        bytes_downloaded: 2,
        time_seeded: 3,
        completed_at: 4,
        name: name.into(),
        size: 5,
        is_seeder: true,
        seeder: 6,
        leecher: 7,
    }
}

#[test]
fn what_a_profile_lists() {
    let mut db = Site::new();
    db.user_transfer.push(transfer(1, 1, "pear", true));
    db.user_transfer.push(transfer(2, 2, "fig", true));
    db.user_transfer.push(transfer(3, 1, "apple", false));
    db.user_transfer.push(transfer(4, 1, "Zebra", true));
    let list = UserTransfer::fetch_for_user(&1, &db);
    let seen: Vec<(u128, bool)> = list.iter().map(|t| (t.id, t.is_seeder())).collect();
    assert_eq!(seen, vec![(4, true), (3, false), (1, true)]);
    assert_eq!(list[1].name, "apple");
    assert_eq!(list[1].torrent_id, 103);
    assert_eq!(list[1].total_downloaded, 7);
    assert!(UserTransfer::fetch_for_user(&3, &db).is_empty());

    db.completed_torrents.push(completed(1, 1, "b"));
    db.completed_torrents.push(completed(2, 1, "a"));
    db.completed_torrents.push(completed(3, 2, "0"));
    db.completed_torrents.push(completed(4, 1, "ab"));
    let list = CompletedTorrent::fetch_for_user(&1, &db);
    let seen: Vec<u128> = list.iter().map(|t| t.id).collect();
    assert_eq!(seen, vec![2, 4, 1]);
    assert_eq!(list[0].time_seeded, 3);

    // a torrent that stands twice in its table is shown once
    let (mut swarm, _) = listing();
    swarm.torrents.push(listed(3, "big fish", 2, Some(1), false, 30));
    swarm.torrents.push(listed(6, "late", 2, Some(1), false, 50));
    let list = UserUpload::fetch_for_user(&1, &swarm, &db);
    let seen: Vec<(u128, i64)> = list.iter().map(|t| (t.id, t.created_at)).collect();
    assert_eq!(seen, vec![(5, 50), (6, 50), (3, 30), (1, 10)]);
    assert_eq!(list[0].name, "100% bugs");
    assert_eq!(list[0].user_id, Some(1));
    assert_eq!((list[0].size, list[0].seeder, list[0].leecher), (100, 1, 2));
    assert!(list[0].same(&list[0]));
    assert!(!list[0].same(&list[1]));
    assert!(UserUpload::fetch_for_user(&4, &swarm, &db).is_empty());
}

fn peer(id: u128, user: u128, ip: IpAddress, port: i32) -> Peer {
    Peer {
        id,
        torrent_id: 1,
        user_id: user,
        ip_address: ip,
        port,
        bytes_uploaded: 0,
        bytes_downloaded: 0,
        bytes_left: 0,
        seeder: true,
        peer_id: vec![id as u8],
        user_agent: format!("agent{}", id),
        crypto_enabled: false,
        crypto_port: None,
        offset_uploaded: 0,
        offset_downloaded: 0,
        created_at: 0,
        finished_at: None,
        updated_at: 0,
    }
}

#[test]
fn connections_by_address() {
    let mut db = Tables::new();
    db.peers.push(peer(1, 1, IpAddress::V6([0, 0, 0, 0, 0, 0, 0, 1]), 1));
    db.peers.push(peer(2, 1, IpAddress::V4([10, 0, 0, 2]), 2));
    db.peers.push(peer(3, 2, IpAddress::V4([1, 1, 1, 1]), 3));
    db.peers.push(peer(4, 1, IpAddress::V4([9, 255, 255, 255]), 4));
    db.peers.push(peer(5, 1, IpAddress::V4([255, 255, 255, 255]), 5));
    db.peers.push(peer(6, 1, IpAddress::V6([0, 0, 0, 0, 0, 0, 0, 0]), 6));
    db.peers.push(peer(7, 1, IpAddress::V6([0xffff, 0xffff, 0xffff, 0xffff, 0xffff, 0xffff, 0xffff, 0xffff]), 7));
    db.peers.push(peer(8, 1, IpAddress::V6([0, 1, 0, 0, 0, 0, 0, 0]), 8));
    db.peers.push(peer(9, 1, IpAddress::V4([10, 0, 0, 1]), 9));
    let list = UserConnection::fetch_for_user(&1, &db);
    let seen: Vec<u128> = list.iter().map(|c| c.id).collect();
    assert_eq!(seen, vec![4, 9, 2, 5, 6, 1, 8, 7]);
    assert_eq!(list[0].user_agent, "agent4");
    assert_eq!(list[0].port, 4);
    assert_eq!(list[0].ip_address, IpAddress::V4([9, 255, 255, 255]));
    assert!(UserConnection::fetch_for_user(&3, &db).is_empty());
    assert!(IpAddress::V4([1, 2, 3, 4]).not_after(&IpAddress::V4([1, 2, 3, 4])));
    assert!(IpAddress::V4([1, 2, 3, 4]).not_after(&IpAddress::V4([1, 2, 4, 0])));
    assert!(!IpAddress::V4([1, 2, 4, 0]).not_after(&IpAddress::V4([1, 2, 3, 4])));
    assert!(!IpAddress::V6([0; 8]).not_after(&IpAddress::V4([255; 4])));
}

struct Author(u128);

impl Subject<TorrentComment> for Author {
    fn permitted(&self, obj: &TorrentComment, perm: Permission) -> bool {
        obj.user_id == self.0 && !matches!(perm, Permission::Delete)
    }

    fn may(&self, obj: &TorrentComment, perm: &Permission) -> bool {
        obj.user_id == self.0 && !matches!(perm, Permission::Delete)
    }
}

#[test]
fn comment_as_its_author_sees_it() {
    let mut db = Tables::new();
    let mut bob = User::default(5);
    bob.id = 2;
    bob.name = "bob".into();
    db.users.push(bob);
    let comment = |user: u128| TorrentComment {
        id: 1,
        user_id: user,
        torrent_id: 3,
        content: "c".into(),
        created_at: 0,
        updated_at: 0,
    };
    let shown = TorrentCommentResponse::new(comment(2), &db, &Author(2));
    assert_eq!(shown.user_name, "bob");
    assert_eq!(shown.comment.id, 1);
    assert!(shown.may_edit);
    assert!(!shown.may_delete);
    let shown = TorrentCommentResponse::new(comment(2), &db, &Author(1));
    assert!(!shown.may_edit);
    assert!(!shown.may_delete);
    let shown = TorrentCommentResponse::new(comment(7), &db, &Author(7));
    assert_eq!(shown.user_name, "");
    assert!(shown.may_edit);
}

fn member(id: u128, name: &str, group: u128) -> User {
    let mut u = User::default(5);
    u.id = id;
    u.name = name.into();
    u.group_id = group;
    u.uploaded = 300;
    u.downloaded = 100;
    u
}

#[test]
fn identity_of_a_request() {
    let id = 0x0123_4567_89ab_cdef_0011_2233_4455_66ffu128;
    let mut who = ApiIdentity::new(Some((id, 7)));
    assert_eq!(who.identity(), Some("01234567-89ab-cdef-0011-2233445566ff"));
    assert_eq!(who.credentials(), Some((&id, &7)));
    assert_eq!(who.user_id(), Some(&id));
    assert_eq!(who.group_id(), Some(&7));
    who.forget();
    assert_eq!(who.credentials(), None);
    assert_eq!(who.user_id(), None);
    assert_eq!(who.group_id(), None);
    assert_eq!(who.identity(), Some("01234567-89ab-cdef-0011-2233445566ff"));
    let nobody = ApiIdentity::new(None);
    assert_eq!(nobody.identity(), None);
    assert_eq!(nobody.credentials(), None);
    assert_eq!(
        ApiIdentity::new(Some((0, 0))).identity(),
        Some("00000000-0000-0000-0000-000000000000")
    );
    assert_eq!(
        ApiIdentity::new(Some((u128::MAX, 0))).identity(),
        Some("ffffffff-ffff-ffff-ffff-ffffffffffff")
    );
    assert_eq!(ApiIdentity::new(Some((1, 0))).identity(), Some("00000000-0000-0000-0000-000000000001"));

    assert!(ApiIdentityPolicy::try_new(&[0; 31]).is_none());
    let policy = ApiIdentityPolicy::try_new(&[7; 32]).unwrap();
    assert_eq!(policy.key, vec![7; 32]);
    assert_eq!(ApiIdentityPolicy::new(&[1; 40]).key.len(), 40);
    let service = IdentityService::new(policy);
    let policy = &service.backend;
    assert!(matches!(policy.load(Some((1, 2)), None), Claimed::Known(1, 2)));
    assert!(matches!(policy.load(Some((1, 2)), Some(b"Bearer abc")), Claimed::Known(1, 2)));
    assert!(matches!(policy.load(None, None), Claimed::Nobody));
    match policy.load(None, Some(b"Bearer abc.def")) {
        Claimed::Token(t) => assert_eq!(t, b"abc.def"),
        _ => panic!("a token is named"),
    }
    match policy.load(None, Some(b"bEARER:x")) {
        Claimed::Token(t) => assert_eq!(t, b"x"),
        _ => panic!("a token is named"),
    }
    match policy.load(None, Some(b"bearer ")) {
        Claimed::Token(t) => assert!(t.is_empty()),
        _ => panic!("a token is named"),
    }
    assert!(matches!(policy.load(None, Some(b"bearer")), Claimed::Nobody));
    assert!(matches!(policy.load(None, Some(b"Basic abcdef")), Claimed::Nobody));
    assert!(matches!(policy.load(None, Some(b"bearex abc")), Claimed::Nobody));
    assert!(matches!(policy.load(None, Some(b"")), Claimed::Nobody));
    let claims = Claims { iat: 5, user_id: 0xabc, group_id: 9 };
    let who = ApiIdentityPolicy::claimed(&claims);
    assert_eq!(who.credentials(), Some((&0xabc, &9)));
    assert_eq!(who.identity(), Some("00000000-0000-0000-0000-000000000abc"));
}

#[test]
fn confirming_a_user() {
    let mut db = Tables::new();
    db.users.push(member(1, "alice", 5));
    db.users.push(member(2, "bob", 5));
    let mut site = Site::new();
    let waits = |id: u128, user: u128, name: &str, code: &str| Property {
        id,
        user_id: user,
        name: name.into(),
        value: PropertyValue::Text(code.into()),
        created_at: 0,
        updated_at: 0,
    };
    site.user_properties.push(waits(1, 1, "other", "abc"));
    site.user_properties.push(number(2, 1, "confirm_id", 7));
    site.user_properties.push(waits(3, 2, "confirm_id", "abc"));
    site.user_properties.push(waits(4, 9, "confirm_id", "gone"));
    let from = IpAddress::V4([10, 1, 2, 3]);

    let wrong = ConfirmMsg { id: "abd".into(), ip_address: from };
    assert_eq!(wrong.handle(&mut db, &mut site).unwrap_err(), Error::NoConfirmation);
    let lost = ConfirmMsg { id: "gone".into(), ip_address: from };
    assert_eq!(lost.handle(&mut db, &mut site).unwrap_err(), Error::NoUser);
    assert_eq!(site.user_properties.len(), 4);
    assert_eq!(db.users[1].status, 0);

    let right = ConfirmMsg { id: "abc".into(), ip_address: from };
    let user = right.handle(&mut db, &mut site).unwrap();
    assert_eq!(user.id, 2);
    assert_eq!(user.status, 2);
    assert_eq!(user.ip_address, Some(from));
    assert_eq!(db.users[1].status, 2);
    assert_eq!(db.users[1].ip_address, Some(from));
    assert_eq!(db.users[0].status, 0);
    assert_eq!(db.users[0].ip_address, None);
    let left: Vec<u128> = site.user_properties.iter().map(|p| p.id).collect();
    assert_eq!(left, vec![1, 2, 4]);
    assert_eq!(right.handle(&mut db, &mut site).unwrap_err(), Error::NoConfirmation);
}

#[test]
fn marking_a_user_as_active() {
    let mut db = Tables::new();
    db.users.push(member(1, "alice", 5));
    db.users.push(member(2, "bob", 5));
    let user = RequireUserMsg(2, true).handle(&mut db, 77).unwrap();
    assert_eq!(user.last_active, Some(77));
    assert_eq!(db.users[1].last_active, Some(77));
    assert_eq!(db.users[0].last_active, None);
    let user = RequireUserMsg(1, false).handle(&mut db, 78).unwrap();
    assert_eq!(user.last_active, None);
    assert_eq!(db.users[0].last_active, None);
    assert_eq!(RequireUserMsg(3, true).handle(&mut db, 79).unwrap_err(), Error::NotFound);
}

#[test]
fn statistics_of_a_user() {
    let mut db = Tables::new();
    db.users.push(member(1, "alice", 5));
    let mut leech = peer(1, 1, IpAddress::V4([1, 1, 1, 1]), 1);
    leech.seeder = false;
    db.peers.push(leech);
    db.peers.push(peer(2, 1, IpAddress::V4([1, 1, 1, 2]), 1));
    db.peers.push(peer(3, 2, IpAddress::V4([1, 1, 1, 3]), 1));
    db.peers.push(peer(4, 1, IpAddress::V4([1, 1, 1, 4]), 1));
    let stats = LoadUserStatsMsg(1).handle(&db).unwrap();
    assert_eq!(stats.id, 1);
    assert_eq!(stats.name, "alice");
    assert_eq!((stats.uploaded, stats.downloaded), (300, 100));
    assert_eq!((stats.uploads, stats.downloads), (2, 1));
    assert_eq!(LoadUserStatsMsg(2).handle(&db).unwrap_err(), Error::NoUser);
}

fn rules(user: u128, ns: &str, permission: Permission) -> AclContainer {
    let mut site = Site::new();
    site.user_rules.push(UserRule { id: 1, namespace: ns.into(), user_id: user, permission });
    let mut acl = Acl::new();
    acl.load(&site);
    AclContainer::new(acl)
}

#[test]
fn profile_of_a_user() {
    let (mut db, mut site) = listing();
    db.users.clear();
    db.peers.clear();
    db.users.push(member(1, "alice", 5));
    db.users.push(member(2, "bob", 5));
    db.peers.push(peer(1, 1, IpAddress::V4([9, 9, 9, 9]), 1));
    db.peers.push(peer(2, 1, IpAddress::V4([1, 1, 1, 1]), 2));
    site.user_transfer.push(transfer(1, 1, "pear", true));
    site.user_transfer.push(transfer(2, 1, "fig", false));
    site.user_transfer.push(transfer(3, 1, "apple", true));
    site.user_transfer.push(transfer(4, 2, "plum", true));
    site.completed_torrents.push(completed(1, 1, "b"));
    site.completed_torrents.push(completed(2, 1, "a"));
    site.user_properties.push(number(1, 2, "timezone", 60));
    site.profiles.push(UserProfile { id: 1, avatar: None, flair: Some("hi".into()), about: None });

    let own = LoadUserProfileMsg(1, 1, AclContainer::new_empty()).handle(&db, &site, 3600).unwrap();
    assert_eq!(own.user.id, 1);
    assert_eq!(own.active_uploads.iter().map(|t| t.id).collect::<Vec<_>>(), vec![3, 1]);
    assert_eq!(own.active_downloads.iter().map(|t| t.id).collect::<Vec<_>>(), vec![2]);
    assert_eq!(own.completed.iter().map(|t| t.id).collect::<Vec<_>>(), vec![2, 1]);
    assert_eq!(own.connections.iter().map(|c| c.id).collect::<Vec<_>>(), vec![2, 1]);
    assert_eq!(own.uploads.iter().map(|t| t.id).collect::<Vec<_>>(), vec![5, 3, 1]);
    assert_eq!(own.timezone, 3600);
    assert!(own.may_view_passcode);
    assert_eq!(own.profile.flair.as_deref(), Some("hi"));

    let other = LoadUserProfileMsg(1, 2, AclContainer::new_empty()).handle(&db, &site, 3600).unwrap();
    assert_eq!(other.user.id, 1);
    assert!(other.connections.is_empty());
    assert!(!other.may_view_passcode);
    assert_eq!(other.timezone, 60);
    assert_eq!(other.active_uploads.len(), 2);

    let staff = LoadUserProfileMsg(1, 2, rules(2, "user#connections", Permission::Read))
        .handle(&db, &site, 3600)
        .unwrap();
    assert_eq!(staff.connections.len(), 2);
    assert!(!staff.may_view_passcode);
    let staff = LoadUserProfileMsg(1, 2, rules(2, "user#passcode", Permission::Read))
        .handle(&db, &site, 3600)
        .unwrap();
    assert!(staff.connections.is_empty());
    assert!(staff.may_view_passcode);

    assert_eq!(
        LoadUserProfileMsg(3, 1, AclContainer::new_empty()).handle(&db, &site, 0).unwrap_err(),
        Error::NoUser
    );
    assert_eq!(
        LoadUserProfileMsg(1, 3, AclContainer::new_empty()).handle(&db, &site, 0).unwrap_err(),
        Error::NoUser
    );
}

#[test]
fn settings_as_loaded() {
    let mut db = Tables::new();
    db.users.push(member(1, "alice", 5));
    let mut site = Site::new();
    site.user_properties.push(number(1, 1, "timezone", 60));
    site.user_properties.push(number(2, 2, "timezone", 61));
    site.user_properties.push(number(3, 1, "a", 62));
    site.categories.push(Category { id: 1, name: "tv".into(), created_at: 0, updated_at: 0 });
    site.categories.push(Category { id: 2, name: "books".into(), created_at: 0, updated_at: 0 });
    let settings = LoadSettingsMsg(1).handle(&db, &site).unwrap();
    assert_eq!(settings.user.name, "alice");
    assert_eq!(settings.profile.id, 1);
    assert!(settings.profile.about.is_none());
    assert_eq!(settings.properties.iter().map(|p| p.id).collect::<Vec<_>>(), vec![3, 1]);
    assert_eq!(settings.categories.iter().map(|c| c.id).collect::<Vec<_>>(), vec![2, 1]);
    assert_eq!(LoadSettingsMsg(2).handle(&db, &site).unwrap_err(), Error::NoUser);
}

fn upload() -> NewTorrentMsg {
    NewTorrentMsg {
        name: "film".into(),
        description: "a film".into(),
        meta_file: vec![1, 2, 3],
        nfo_file: vec![4, 5],
        image_files: vec![("a.png".into(), "/tmp/a".into()), ("b.png".into(), "/tmp/b".into())],
        category: 7,
        user: 1,
        info_hash: vec![9; 20],
        size: 30,
        files: vec![
            NewFile { file_name: "x/one".into(), size: 10 },
            NewFile { file_name: "x/two".into(), size: 20 },
        ],
    }
}

fn shelf() -> Site {
    let mut site = Site::new();
    site.categories.push(Category { id: 7, name: "films".into(), created_at: 0, updated_at: 0 });
    site
}

fn upload_ids() -> UploadIds {
    UploadIds { torrent: 100, nfo: 101, files: vec![102, 103], images: vec![104, 105] }
}

#[test]
fn upload_writes_its_rows() {
    let mut db = Tables::new();
    let mut site = shelf();
    let t = upload().handle_with(&upload_ids(), &mut db, &mut site, 50).unwrap();
    assert_eq!(t.id, 100);
    assert_eq!(t.name, "film");
    assert_eq!(t.description, "a film");
    assert_eq!(t.info_hash, vec![9; 20]);
    assert_eq!((t.category_id, t.user_id, t.size), (7, Some(1), 30));
    assert!(!t.visible);
    assert_eq!((t.completed, t.created_at, t.updated_at), (0, 50, 50));
    assert_eq!(db.torrents.len(), 1);
    assert_eq!(db.torrents[0].id, 100);
    assert_eq!(site.torrent_meta_files.len(), 1);
    assert_eq!((site.torrent_meta_files[0].id, &site.torrent_meta_files[0].data), (100, &vec![1, 2, 3]));
    assert_eq!(site.torrent_nfos.len(), 1);
    assert_eq!(site.torrent_nfos[0].id, 101);
    assert_eq!(site.torrent_nfos[0].torrent_id, 100);
    assert_eq!(site.torrent_nfos[0].data, vec![4, 5]);
    let files: Vec<(u128, u128, &str, i64)> =
        site.torrent_files.iter().map(|f| (f.id, f.torrent_id, f.file_name.as_str(), f.size)).collect();
    assert_eq!(files, vec![(102, 100, "x/one", 10), (103, 100, "x/two", 20)]);
    let images: Vec<(u128, u128, &str, i16, i64)> = site
        .torrent_images
        .iter()
        .map(|f| (f.id, f.torrent_id, f.file_name.as_str(), f.index, f.created_at))
        .collect();
    assert_eq!(images, vec![(104, 100, "a.png", 0, 50), (105, 100, "b.png", 1, 50)]);
}

#[test]
fn upload_that_fails() {
    // no category: nothing is written
    let mut db = Tables::new();
    let mut site = Site::new();
    assert_eq!(upload().handle_with(&upload_ids(), &mut db, &mut site, 50).unwrap_err(), Error::NoCategory);
    assert!(db.torrents.is_empty() && site.torrent_meta_files.is_empty());

    // the torrent's identifier is taken: nothing is written
    let mut site = shelf();
    upload().handle_with(&upload_ids(), &mut db, &mut site, 50).unwrap();
    let mut again = upload_ids();
    again.nfo = 201;
    assert_eq!(upload().handle_with(&again, &mut db, &mut site, 51).unwrap_err(), Error::DuplicateKey);
    assert_eq!(db.torrents.len(), 1);
    assert_eq!(site.torrent_files.len(), 2);

    // the metainfo file is there already: the torrent stays
    let mut db = Tables::new();
    let mut site = shelf();
    site.torrent_meta_files.push(TorrentMetaFile { id: 100, data: vec![] });
    assert_eq!(upload().handle_with(&upload_ids(), &mut db, &mut site, 50).unwrap_err(), Error::DuplicateKey);
    assert_eq!(db.torrents.len(), 1);
    assert_eq!(site.torrent_meta_files.len(), 1);
    assert!(site.torrent_files.is_empty());

    // the second file does not go in: the torrent is deleted, the first file stays
    let mut db = Tables::new();
    let mut site = shelf();
    let mut twice = upload_ids();
    twice.files = vec![102, 102];
    assert_eq!(upload().handle_with(&twice, &mut db, &mut site, 50).unwrap_err(), Error::DuplicateKey);
    assert!(db.torrents.is_empty());
    assert_eq!(site.torrent_meta_files.len(), 1);
    assert_eq!(site.torrent_files.len(), 1);
    assert_eq!(site.torrent_files[0].file_name, "x/one");
    assert!(site.torrent_nfos.is_empty());

    // the description file does not go in
    let mut db = Tables::new();
    let mut site = shelf();
    site.torrent_nfos.push(TorrentNFO { id: 101, torrent_id: 5, data: vec![] });
    assert_eq!(upload().handle_with(&upload_ids(), &mut db, &mut site, 50).unwrap_err(), Error::DuplicateKey);
    assert!(db.torrents.is_empty());
    assert_eq!(site.torrent_files.len(), 2);
    assert_eq!(site.torrent_nfos.len(), 1);
    assert!(site.torrent_images.is_empty());

    // the second picture does not go in
    let mut db = Tables::new();
    let mut site = shelf();
    site.torrent_images.push(TorrentImage { id: 105, torrent_id: 5, file_name: "z".into(), index: 0, created_at: 0 });
    assert_eq!(upload().handle_with(&upload_ids(), &mut db, &mut site, 50).unwrap_err(), Error::DuplicateKey);
    assert!(db.torrents.is_empty());
    assert_eq!(site.torrent_nfos.len(), 1);
    assert_eq!(site.torrent_images.len(), 2);
    assert_eq!(site.torrent_images[1].id, 104);
}

#[test]
fn upload_with_identifiers_of_its_own() {
    let mut db = Tables::new();
    let mut site = shelf();
    let t = upload().handle(&mut db, &mut site, 50).unwrap();
    assert_eq!(db.torrents.len(), 1);
    assert_eq!(db.torrents[0].id, t.id);
    assert_eq!(site.torrent_meta_files[0].id, t.id);
    assert_eq!(site.torrent_nfos[0].torrent_id, t.id);
    assert_eq!(site.torrent_files.len(), 2);
    assert!(site.torrent_files.iter().all(|f| f.torrent_id == t.id));
    assert_ne!(site.torrent_files[0].id, site.torrent_files[1].id);
    assert_eq!(site.torrent_images.iter().map(|i| i.index).collect::<Vec<_>>(), vec![0, 1]);
    let other = upload().handle(&mut db, &mut site, 51).unwrap();
    assert_ne!(other.id, t.id);
    assert_eq!(db.torrents.len(), 2);
}

#[test]
fn page_of_a_torrent() {
    let mut db = Tables::new();
    db.users.push(member(1, "alice", 5));
    db.users.push(member(2, "bob", 5));
    let mut site = shelf();
    let t = upload().handle_with(&upload_ids(), &mut db, &mut site, 50).unwrap();
    db.peers.push(peer(1, 2, IpAddress::V4([1, 1, 1, 1]), 1));
    db.peers[0].torrent_id = t.id;
    site.torrent_comments.push(TorrentComment {
        id: 1,
        user_id: 2,
        torrent_id: t.id,
        content: "first".into(),
        created_at: 60,
        updated_at: 60,
    });
    site.torrent_comments.push(TorrentComment {
        id: 2,
        user_id: 1,
        torrent_id: t.id,
        content: "second".into(),
        created_at: 70,
        updated_at: 70,
    });
    site.user_properties.push(number(1, 2, "timezone", 60));

    let page = TorrentMsg::find(&t.id, &db, &site, &Author(2), 3600).unwrap();
    assert_eq!(page.torrent.id, t.id);
    assert_eq!(page.torrent_user_name.as_deref(), Some("alice"));
    assert_eq!(page.category.name, "films");
    assert_eq!(page.nfo.as_ref().unwrap().data, vec![4, 5]);
    assert_eq!(page.images.iter().map(|i| i.index).collect::<Vec<_>>(), vec![0, 1]);
    assert_eq!(page.files.iter().map(|f| f.file_name.as_str()).collect::<Vec<_>>(), vec!["x/one", "x/two"]);
    assert_eq!(page.peers.len(), 1);
    assert_eq!(page.peers[0].1, "bob");
    let comments: Vec<(u128, &str, bool, bool)> = page
        .comments
        .iter()
        .map(|c| (c.comment.id, c.user_name.as_str(), c.may_edit, c.may_delete))
        .collect();
    assert_eq!(comments, vec![(1, "bob", true, false), (2, "alice", false, false)]);
    assert_eq!(page.timezone, 3600);

    let page = LoadTorrentMsg::new(&t.id, &2).handle(&db, &site, &Author(1), 3600).unwrap();
    assert_eq!(page.timezone, 60);
    assert_eq!(page.comments.iter().map(|c| c.may_edit).collect::<Vec<_>>(), vec![false, true]);
    let page = LoadTorrentMsg::new(&t.id, &1).handle(&db, &site, &Author(1), 3600).unwrap();
    assert_eq!(page.timezone, 3600);

    assert_eq!(TorrentMsg::find(&5, &db, &site, &Author(2), 0).unwrap_err(), Error::NoTorrent);
    site.categories.clear();
    assert_eq!(TorrentMsg::find(&t.id, &db, &site, &Author(2), 0).unwrap_err(), Error::NoCategory);
    assert_eq!(
        LoadTorrentMsg::new(&t.id, &1).handle(&db, &site, &Author(1), 0).unwrap_err(),
        Error::NoCategory
    );
}

fn uploaded_film() -> (Tables, Site) {
    let mut db = Tables::new();
    db.users.push(member(1, "alice", 5));
    db.users.push(member(2, "bob", 5));
    let mut site = shelf();
    site.categories.push(Category { id: 8, name: "tv".into(), created_at: 0, updated_at: 0 });
    upload().handle_with(&upload_ids(), &mut db, &mut site, 50).unwrap();
    (db, site)
}

fn change(user: u128) -> UpdateTorrentMsg {
    let mut msg = UpdateTorrentMsg::new(100, UserSubjectMsg::new(user, 5, AclContainer::new_empty()));
    msg.name = "movie".into();
    msg.description = "a movie".into();
    msg.category = 8;
    msg
}

#[test]
fn change_of_a_torrent() {
    let blank = UpdateTorrentMsg::new(3, UserSubjectMsg::new(1, 5, AclContainer::new_empty()));
    assert_eq!((blank.id, blank.category, blank.replace_images), (3, 0, false));
    assert!(blank.name.is_empty() && blank.description.is_empty());
    assert!(blank.nfo_file.is_none() && blank.image_files.is_empty());

    let (mut db, mut site) = uploaded_film();
    let ids = UpdateIds { nfo: 300, images: vec![] };
    assert_eq!(change(1).handle_with(&ids, &mut db, &mut site, 60), Ok(1));
    assert_eq!(db.torrents[0].name, "movie");
    assert_eq!(db.torrents[0].description, "a movie");
    assert_eq!(db.torrents[0].category_id, 8);
    assert_eq!(db.torrents[0].size, 30);
    assert_eq!(site.torrent_nfos[0].id, 101);
    assert_eq!(site.torrent_images.len(), 2);

    // who may not, and what is not there
    assert_eq!(change(2).handle_with(&ids, &mut db, &mut site, 60), Err(Error::NotAllowed));
    let staff = rules(2, "torrent", Permission::Write);
    let mut by_staff = change(2);
    by_staff.user = UserSubjectMsg::new(2, 5, staff);
    by_staff.name = "by staff".into();
    assert_eq!(by_staff.handle_with(&ids, &mut db, &mut site, 60), Ok(1));
    assert_eq!(db.torrents[0].name, "by staff");
    let mut lost = change(1);
    lost.id = 5;
    assert_eq!(lost.handle_with(&ids, &mut db, &mut site, 60), Err(Error::NoTorrent));
    let mut unfiled = change(1);
    unfiled.category = 9;
    assert_eq!(unfiled.handle_with(&ids, &mut db, &mut site, 60), Err(Error::NoCategory));
    assert_eq!(db.torrents[0].category_id, 8);
}

#[test]
fn change_of_the_description_file() {
    let (mut db, mut site) = uploaded_film();
    site.torrent_nfos.push(TorrentNFO { id: 400, torrent_id: 5, data: vec![0] });
    let mut msg = change(1);
    msg.nfo_file = Some(vec![7, 7]);
    assert_eq!(msg.handle_with(&UpdateIds { nfo: 300, images: vec![] }, &mut db, &mut site, 60), Ok(1));
    let nfos: Vec<(u128, u128, Vec<u8>)> =
        site.torrent_nfos.iter().map(|n| (n.id, n.torrent_id, n.data.clone())).collect();
    assert_eq!(nfos, vec![(400, 5, vec![0]), (300, 100, vec![7, 7])]);
    // the identifier of the old file is free again
    msg.nfo_file = Some(vec![8]);
    assert_eq!(msg.handle_with(&UpdateIds { nfo: 300, images: vec![] }, &mut db, &mut site, 60), Ok(1));
    assert_eq!(site.torrent_nfos[1].data, vec![8]);
    // a taken identifier: the old file is gone, the torrent is as it was
    db.torrents[0].name = "before".into();
    assert_eq!(
        msg.handle_with(&UpdateIds { nfo: 400, images: vec![] }, &mut db, &mut site, 60),
        Err(Error::DuplicateKey)
    );
    assert_eq!(site.torrent_nfos.len(), 1);
    assert_eq!(site.torrent_nfos[0].id, 400);
    assert_eq!(db.torrents[0].name, "before");
}

fn picture_rows(site: &Site) -> Vec<(u128, u128, String, i16)> {
    site.torrent_images.iter().map(|i| (i.id, i.torrent_id, i.file_name.clone(), i.index)).collect()
}

#[test]
fn change_of_the_pictures() {
    let (mut db, mut site) = uploaded_film();
    site.torrent_images.push(TorrentImage { id: 500, torrent_id: 5, file_name: "z".into(), index: 9, created_at: 0 });
    let mut msg = change(1);
    msg.image_files = vec![("c.png".into(), "/tmp/c".into()), ("d.png".into(), "/tmp/d".into())];
    // added after the greatest place
    assert_eq!(msg.handle_with(&UpdateIds { nfo: 300, images: vec![600, 601] }, &mut db, &mut site, 60), Ok(1));
    assert_eq!(
        picture_rows(&site),
        vec![
            (104, 100, "a.png".into(), 0),
            (105, 100, "b.png".into(), 1),
            (500, 5, "z".into(), 9),
            (600, 100, "c.png".into(), 2),
            (601, 100, "d.png".into(), 3),
        ]
    );
    assert_eq!(site.torrent_images[3].created_at, 60);
    // a taken identifier ends it; the first picture stays, the torrent is not written
    db.torrents[0].name = "before".into();
    assert_eq!(
        msg.handle_with(&UpdateIds { nfo: 300, images: vec![700, 500] }, &mut db, &mut site, 61),
        Err(Error::DuplicateKey)
    );
    assert_eq!(site.torrent_images.len(), 6);
    assert_eq!(picture_rows(&site)[5], (700, 100, "c.png".into(), 4));
    assert_eq!(db.torrents[0].name, "before");
    // replaced
    msg.replace_images = true;
    assert_eq!(msg.handle_with(&UpdateIds { nfo: 300, images: vec![104, 800] }, &mut db, &mut site, 62), Ok(1));
    assert_eq!(
        picture_rows(&site),
        vec![(500, 5, "z".into(), 9), (104, 100, "c.png".into(), 0), (800, 100, "d.png".into(), 1)]
    );
    assert_eq!(
        msg.handle_with(&UpdateIds { nfo: 300, images: vec![900, 500] }, &mut db, &mut site, 62),
        Err(Error::DuplicateKey)
    );
    assert_eq!(picture_rows(&site), vec![(500, 5, "z".into(), 9), (900, 100, "c.png".into(), 0)]);
    // no place is left after the greatest
    msg.replace_images = false;
    site.torrent_images[1].index = i16::MAX - 1;
    assert_eq!(
        msg.handle_with(&UpdateIds { nfo: 300, images: vec![901, 902] }, &mut db, &mut site, 63),
        Err(Error::CounterRange)
    );
    assert_eq!(picture_rows(&site).len(), 3);
    assert_eq!(picture_rows(&site)[2], (901, 100, "c.png".into(), i16::MAX));
    // places below zero count too
    site.torrent_images.truncate(1);
    site.torrent_images.push(TorrentImage { id: 1, torrent_id: 100, file_name: "n".into(), index: -5, created_at: 0 });
    assert_eq!(msg.handle_with(&UpdateIds { nfo: 300, images: vec![2, 3] }, &mut db, &mut site, 64), Ok(1));
    assert_eq!(picture_rows(&site)[2].3, -4);
    assert_eq!(picture_rows(&site)[3].3, -3);
}

#[test]
fn change_with_identifiers_of_its_own() {
    let (mut db, mut site) = uploaded_film();
    let mut msg = change(1);
    msg.nfo_file = Some(vec![1]);
    msg.image_files = vec![("c.png".into(), "/tmp/c".into())];
    assert_eq!(msg.handle(&mut db, &mut site, 60), Ok(1));
    assert_eq!(site.torrent_nfos.len(), 1);
    assert_eq!(site.torrent_nfos[0].data, vec![1]);
    assert_eq!(site.torrent_images.len(), 3);
    assert_eq!(site.torrent_images[2].index, 2);
    assert_eq!(db.torrents[0].name, "movie");
}

#[test]
fn waiting_to_be_confirmed() {
    let mut db = Tables::new();
    db.users.push(member(1, "alice", 5));
    let mut site = Site::new();
    let user = User::find(&1, &db).unwrap();
    let digest = user.confirm_id_from(b"abc", 40, &mut site, 9).unwrap();
    let hex = "ba7816bf8f01cfea414140de5dae2223b00361a396177a9cb410ff61f20015ad";
    assert_eq!(ripalt::util::to_hex(&digest), hex);
    assert_eq!(site.user_properties.len(), 1);
    let p = &site.user_properties[0];
    assert_eq!((p.id, p.user_id, p.name.as_str(), p.created_at, p.updated_at), (40, 1, "confirm_id", 9, 9));
    assert!(p.value.same(&PropertyValue::Text(hex.into())));
    // once more: the property takes the new digest
    let empty = user.confirm_id_from(b"", 41, &mut site, 10).unwrap();
    assert_eq!(
        ripalt::util::to_hex(&empty),
        "e3b0c44298fc1c149afbf4c8996fb92427ae41e4649b934ca495991b7852b855"
    );
    assert_eq!(site.user_properties.len(), 1);
    assert_eq!(site.user_properties[0].id, 40);
    // another user, a taken identifier
    let mut other = User::default(0);
    other.id = 2;
    assert_eq!(other.confirm_id_from(b"abc", 40, &mut site, 11).unwrap_err(), Error::DuplicateKey);
    assert_eq!(site.user_properties.len(), 1);

    let made = other.create_confirm_id(&mut site, 12).unwrap();
    assert_eq!(made.len(), 32);
    assert_ne!(made, other.create_confirm_id(&mut site, 13).unwrap());
    assert_eq!(site.user_properties.len(), 2);
    db.users.push(other);
    let id = match &site.user_properties[1].value {
        PropertyValue::Text(t) => t.clone(),
        _ => panic!("the digest is kept as text"),
    };
    let confirmed = ConfirmMsg { id, ip_address: IpAddress::V6([0, 0, 0, 0, 0, 0, 0, 1]) }
        .handle(&mut db, &mut site)
        .unwrap();
    assert_eq!(confirmed.id, 2);
    assert_eq!(confirmed.status, 2);
    assert_eq!(site.user_properties.len(), 1);
}

fn text(id: u128, user: u128, name: &str, value: &str) -> Property {
    Property {
        id,
        user_id: user,
        name: name.into(),
        value: PropertyValue::Text(value.into()),
        created_at: 0,
        updated_at: 0,
    }
}

fn texts(list: &[Property]) -> Vec<(u128, String, String)> {
    list.iter()
        .map(|p| {
            let v = match &p.value {
                PropertyValue::Text(t) => t.clone(),
                PropertyValue::Number(n) => n.to_string(),
                _ => String::new(),
            };
            (p.id, p.name.clone(), v)
        })
        .collect()
}

#[test]
fn change_of_a_profile() {
    let mut msg = UpdateProfileMsg::new(4);
    assert_eq!(msg.id, 4);
    assert!(msg.avatar.is_none() && msg.flair.is_none() && msg.about.is_none());
    assert_eq!(msg.set_flair(Some("a".into())), None);
    assert_eq!(msg.set_flair(Some("b".into())), Some("a".into()));
    assert_eq!(msg.set_flair(None), Some("b".into()));
    assert_eq!(msg.flair, None);
    assert_eq!(msg.set_about(Some("me".into())), None);
    assert_eq!(msg.set_about(Some("you".into())), Some("me".into()));
    assert_eq!(msg.about.as_deref(), Some("you"));
    assert_eq!(msg.set_avatar(Some(("a.png".into(), "/tmp/1".into()))), None);
    assert_eq!(msg.set_avatar2("b.png".into(), "/tmp/2".into()), Some(("a.png".into(), "/tmp/1".into())));
    assert_eq!(msg.set_avatar(None), Some(("b.png".into(), "/tmp/2".into())));
    assert_eq!(msg.avatar, None);
    assert_eq!(msg.id, 4);
}

#[test]
fn change_of_the_settings() {
    let mut db = Tables::new();
    db.users.push(member(1, "alice", 5));
    let mut site = Site::new();
    site.categories.push(Category { id: 1, name: "tv".into(), created_at: 0, updated_at: 0 });
    site.user_properties.push(text(1, 1, "theme", "dark"));
    site.user_properties.push(text(2, 2, "theme", "light"));
    site.user_properties.push(text(3, 1, "layout", "wide"));
    site.profiles.push(UserProfile {
        id: 1,
        avatar: Some("old.png".into()),
        flair: Some("f".into()),
        about: Some("a".into()),
    });

    let mut msg = UpdateUserSettingsMsg::new(1);
    assert_eq!(msg.id, 1);
    assert!(msg.properties().is_empty());
    assert_eq!(msg.profile().id, 1);
    msg.push_property(text(10, 1, "theme", "blue"));
    msg.properties_mut().push(text(11, 1, "lang", "en"));
    msg.push_create_property("torrents_per_page".into(), PropertyValue::Number(50), 77);
    assert_eq!(msg.properties().len(), 3);
    assert_eq!(msg.properties()[2].user_id, 1);
    assert_eq!(msg.properties()[2].name, "torrents_per_page");
    assert_eq!((msg.properties()[2].created_at, msg.properties()[2].updated_at), (77, 77));
    msg.profile_mut().set_about(Some("about me".into()));

    let settings = msg.handle(&db, &mut site).unwrap();
    assert_eq!(settings.user.id, 1);
    // the table: the old row takes the value, the new names are added
    let made = msg.properties()[2].id;
    assert_eq!(
        texts(&site.user_properties),
        vec![
            (1, "theme".into(), "blue".into()),
            (2, "theme".into(), "light".into()),
            (3, "layout".into(), "wide".into()),
            (11, "lang".into(), "en".into()),
            (made, "torrents_per_page".into(), "50".into()),
        ]
    );
    // what is shown: the old ones by name, with the new value, then the new ones
    assert_eq!(
        texts(&settings.properties),
        vec![
            (3, "layout".into(), "wide".into()),
            (1, "theme".into(), "blue".into()),
            (10, "theme".into(), "blue".into()),
            (11, "lang".into(), "en".into()),
            (made, "torrents_per_page".into(), "50".into()),
        ]
    );
    assert_eq!(settings.property("theme").unwrap().id, 10);
    assert_eq!(settings.property("layout").unwrap().id, 3);
    assert!(settings.property("Theme").is_none());
    // the profile: text and flair are those of the change, the avatar stays
    assert_eq!(settings.profile.about.as_deref(), Some("about me"));
    assert_eq!(settings.profile.flair, None);
    assert_eq!(settings.profile.avatar.as_deref(), Some("old.png"));
    assert_eq!(site.profiles.len(), 1);
    assert_eq!(site.profiles[0].about.as_deref(), Some("about me"));
    assert_eq!(site.profiles[0].flair, None);
    assert_eq!(settings.categories.len(), 1);

    // a new avatar gives its name; a user without a profile gets one
    db.users.push(member(2, "bob", 5));
    let mut msg = UpdateUserSettingsMsg::new(2);
    msg.profile.set_avatar2("new.png".into(), "/tmp/x".into());
    let settings = msg.handle(&db, &mut site).unwrap();
    assert_eq!(settings.profile.avatar.as_deref(), Some("new.png"));
    assert_eq!(texts(&settings.properties), vec![(2, "theme".into(), "light".into())]);
    assert_eq!(site.profiles.len(), 2);
    assert_eq!(site.profiles[1].id, 2);

    // a property whose identifier is taken ends it: the profile is not written
    let mut msg = UpdateUserSettingsMsg::new(2);
    msg.push_property(text(20, 2, "a", "1"));
    msg.push_property(text(1, 2, "b", "2"));
    msg.push_property(text(21, 2, "c", "3"));
    msg.profile.set_about(Some("never".into()));
    assert_eq!(msg.handle(&db, &mut site).unwrap_err(), Error::DuplicateKey);
    assert_eq!(site.user_properties.len(), 6);
    assert_eq!(site.user_properties[5].id, 20);
    assert_eq!(site.profiles[1].about, None);

    assert_eq!(UpdateUserSettingsMsg::new(9).handle(&db, &mut site).unwrap_err(), Error::NoUser);
}

fn signup(name: &str, email: &str, password: &str) -> SignupForm {
    SignupForm {
        username: name.into(),
        email: email.into(),
        password: password.into(),
        password_confirmation: password.into(),
        terms: "on".into(),
    }
}

#[test]
fn signing_up() {
    let mut db = Tables::new();
    let mut site = Site::new();
    let settings = ripalt::settings::User { default_group: 5, passcode_length: 16 };
    let form = signup("carol", "carol@example.org", "correct horse");

    // a form that is not in order, or no group: nothing is written
    assert_eq!(
        signup("c", "carol@example.org", "correct horse")
            .handle(&mut db, &mut site, &settings, 10)
            .unwrap_err(),
        Error::BadUsername
    );
    assert_eq!(form.handle(&mut db, &mut site, &settings, 10).unwrap_err(), Error::NoGroup);
    assert!(db.users.is_empty() && site.folders.is_empty() && site.user_properties.is_empty());

    site.groups.push(Group { id: 5, name: "users".into(), parent_id: None, created_at: 0, updated_at: 0 });
    let text = form.handle(&mut db, &mut site, &settings, 10).unwrap();
    assert_eq!(text.len(), 64);
    assert!(text.bytes().all(|b| b.is_ascii_digit() || (b'a'..=b'f').contains(&b)));
    assert_eq!(db.users.len(), 1);
    let user = &db.users[0];
    assert_eq!((user.name.as_str(), user.email.as_str()), ("carol", "carol@example.org"));
    assert_eq!((user.group_id, user.status, user.created_at), (5, 0, 10));
    assert_eq!(user.passcode.len(), 16);
    assert!(user.verify_password("correct horse"));
    assert!(!user.verify_password("correct horsf"));
    let folders: Vec<(u128, &str)> = site.folders.iter().map(|f| (f.user_id, f.name.as_str())).collect();
    assert_eq!(folders, vec![(user.id, "inbox"), (user.id, "sent"), (user.id, "system")]);
    assert_eq!(site.user_properties.len(), 1);
    let p = &site.user_properties[0];
    assert_eq!((p.user_id, p.name.as_str(), p.created_at), (user.id, "confirm_id", 10));
    assert!(p.value.same(&PropertyValue::Text(text.clone())));

    // not active yet; confirmed, the user may log in
    let login = LoginForm { username: "carol".into(), password: "correct horse".into() };
    assert_eq!(login.handle(&db).unwrap_err(), Error::NotActive);
    let id = user.id;
    let confirmed = ConfirmMsg { id: text, ip_address: IpAddress::V4([127, 0, 0, 1]) }
        .handle(&mut db, &mut site)
        .unwrap();
    assert_eq!(confirmed.id, id);
    assert_eq!(login.handle(&db).unwrap().id, id);

    // the name and the address are taken now
    assert_eq!(form.handle(&mut db, &mut site, &settings, 11).unwrap_err(), Error::UsernameTaken);
    assert_eq!(
        signup("carol2", "carol@example.org", "correct horse")
            .handle(&mut db, &mut site, &settings, 11)
            .unwrap_err(),
        Error::EmailTaken
    );
    assert_eq!(db.users.len(), 1);
}
