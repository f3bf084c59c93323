use ripalt::pages::torrent::{announce_url, download, ListForm};
use ripalt::pages::{timezones, Timezone};
use ripalt::chat::codec::{ChatCodec, ClientChatCodec};
use ripalt::cleanup::cleanup;
use ripalt::db::{Site, Tables};
use ripalt::error::Error;
use ripalt::handlers::message::{
    DeleteMessagesMsg, LoadMessageMsg, LoadMessagesMsg, MarkMessagesMsg, MessageResponse,
    NewMessageMsg,
};
use ripalt::handlers::UserSubjectMsg;
use ripalt::models::acl::{Acl, GroupRule, Permission, Subject};
use ripalt::models::chat::ChatMessage;
use ripalt::state::AclContainer;
use ripalt::handlers::static_content::{LoadStaticContentMsg, UpdateStaticContentMsg};
use ripalt::handlers::torrent::{
    DeleteTorrentMsg, LoadCategoriesMsg, LoadTorrentListMsg, LoadTorrentMetaMsg,
    LoadTorrentNfoMsg, NewTorrentBuilder, Visible,
};
use ripalt::handlers::user::{LoginForm, RequireUserMsg, SignupForm};
use ripalt::models::category::Category;
use ripalt::models::chat::{ChatMessageWithUser, ChatRoom, NewChatMessage};
use ripalt::models::group::Group;
use ripalt::models::message::{Message, MessageFolder, NewMessage, NewMessageFolder};
use ripalt::models::peer::Peer;
use ripalt::models::static_content::Content;
use ripalt::models::torrent::{
    NewTorrentComment, NewTorrentFile, NewTorrentImage, NewTorrentMetaFile, NewTorrentNFO,
    Torrent, TorrentComment, TorrentCommentResponse, TorrentFile, TorrentImage, TorrentMetaFile,
    TorrentNFO, UpdateTorrent,
};
use ripalt::models::user::{username, HasUser, MaybeHasUser, User, UserProfile};
use ripalt::template::helper::{format_date, format_time, markdown, quote};
use ripalt::template::Template;
use ripalt::net::IpAddress;
use ripalt::settings::Tracker;
use ripalt::util::password::{generate_passhash, try_verify, verify, LENGTH};
use ripalt::util::rand::gen_random_bytes;
use ripalt::util::torrent::{files, info_hash};
use ripalt::util::from_hex;

fn user(id: u128, name: &str) -> User {
    let mut u = User::default(5);
    u.id = id;
    u.name = name.into();
    u.email = format!("{}@example.org", name);
    u.status = 2;
    u
}

fn tables() -> Tables {
    let mut db = Tables::new();
    db.users.push(user(1, "alice"));
    db.users.push(user(2, "bob"));
    db
}

fn message(id: u128, folder: u128, sender: Option<u128>, receiver: u128, at: i64, read: bool) -> Message {
    Message {
        id,
        folder_id: folder,
        sender_id: sender,
        receiver_id: receiver,
        subject: format!("s{}", id),
        body: format!("b{}", id),
        is_read: read,
        created_at: at,
    }
}

fn site() -> Site {
    let mut s = Site::new();
    s.folders.push(MessageFolder { id: 10, user_id: 1, name: "inbox".into(), purge: 0 });
    s.folders.push(MessageFolder { id: 11, user_id: 1, name: "sent".into(), purge: 0 });
    s.folders.push(MessageFolder { id: 12, user_id: 2, name: "inbox".into(), purge: 0 });
    s.messages.push(message(100, 10, Some(2), 1, 50, false));
    s.messages.push(message(101, 10, None, 1, 70, true));
    s.messages.push(message(102, 10, Some(9), 1, 60, false));
    s.messages.push(message(103, 12, Some(1), 2, 80, false));
    s
}

#[test]
fn test_passhash() {
    let password = "correct horse battery staple";
    let salt = gen_random_bytes(32);
    let hash = generate_passhash(password.as_bytes(), &salt);

    assert_eq!(hash.len(), LENGTH);
    assert!(verify(&hash, password.as_bytes(), &salt));
}

#[test]
fn test_random_bytes() {
    let bytes = gen_random_bytes(16);
    assert_eq!(bytes.len(), 16);
    assert_ne!(bytes, gen_random_bytes(16));
}

#[test]
fn passhash_depends_on_password_and_salt() {
    let salt = [7u8; 16];
    let a = generate_passhash(b"secret", &salt);
    assert_eq!(a, generate_passhash(b"secret", &salt));
    assert_ne!(a, generate_passhash(b"Secret", &salt));
    assert_ne!(a, generate_passhash(b"secret", &[8u8; 16]));
    assert!(!verify(&a, b"other", &salt));
    assert!(try_verify(&a, b"secret", &salt));
    assert!(!try_verify(&a, b"secret", &[1, 2, 3]));
    // the hash of given bytes is the same on every run
    assert_eq!(
        generate_passhash(b"password", b"somesalt"),
        from_hex("be939dd266dcdc0cd71073207136f50ab66de57ba8450bb3d6442d181bfb7a39").unwrap()
    );
}

#[test]
fn users_by_name_mail_and_identifier() {
    let db = tables();
    assert_eq!(User::find_by_name("bob", &db).unwrap().id, 2);
    assert!(User::find_by_name("Bob", &db).is_none());
    assert_eq!(User::find_by_email("alice@example.org", &db).unwrap().id, 1);
    assert!(User::find_by_email("nobody@example.org", &db).is_none());
    assert_eq!(username(&1, &db), Some("alice".to_string()));
    assert_eq!(username(&7, &db), None);
}

#[test]
fn password_of_a_user() {
    let mut u = user(1, "alice");
    assert!(!u.verify_password("secret"));
    u.set_password("secret");
    assert_eq!(u.salt.len(), 32);
    assert_eq!(u.password.len(), 32);
    assert!(u.verify_password("secret"));
    assert!(!u.verify_password("secret "));
}

#[test]
fn creating_a_user() {
    let mut db = tables();
    let group = Group { id: 77, name: "users".into(), parent_id: None, created_at: 0, updated_at: 0 };
    let u = User::create(&mut db, "carol".into(), "carol@example.org".into(), "password1", &group, 16, 99).unwrap();
    assert_eq!(db.users.len(), 3);
    assert_eq!(db.users[2].id, u.id);
    assert_eq!((u.group_id, u.status, u.created_at, u.passcode.len()), (77, 0, 99, 16));
    assert!(u.verify_password("password1"));
    let mut u = User::find(&u.id, &db).unwrap();
    assert_eq!(u.update_last_active(&mut db, 123), 1);
    assert_eq!(db.users[2].last_active, Some(123));
    assert_eq!(db.users[0].last_active, None);
}

fn form(name: &str, email: &str, password: &str, confirmation: &str) -> SignupForm {
    SignupForm {
        username: name.into(),
        email: email.into(),
        password: password.into(),
        password_confirmation: confirmation.into(),
        terms: "on".into(),
    }
}

#[test]
fn signup_rules() {
    let db = tables();
    assert_eq!(form("carol", "carol@example.org", "12345678", "12345678").is_valid(&db), Ok(true));
    assert_eq!(form("c-_9", "carol@example.org", "12345678", "12345678").is_valid(&db), Ok(true));
    for bad in ["car", "", "1carol", "_carol", "carol!", "car ol", "carol\n", "carolé", "-abc"] {
        assert_eq!(
            form(bad, "carol@example.org", "12345678", "12345678").is_valid(&db),
            Err(Error::BadUsername),
            "{:?}",
            bad
        );
    }
    for bad in ["carol", "carol@", "@example.org", "carol@example", "ca rol@example.org", "a@b@c.de"] {
        assert_eq!(form("carol", bad, "12345678", "12345678").is_valid(&db), Err(Error::BadEmail));
    }
    assert_eq!(form("carol", "carol@example.org", "12345678", "12345679").is_valid(&db), Err(Error::PasswordMismatch));
    assert_eq!(form("carol", "carol@example.org", "1234567", "1234567").is_valid(&db), Err(Error::BadPassword));
    assert_eq!(form("alice", "carol@example.org", "12345678", "12345678").is_valid(&db), Err(Error::UsernameTaken));
    assert_eq!(form("carol", "bob@example.org", "12345678", "12345678").is_valid(&db), Err(Error::EmailTaken));
    // the first check that fails decides
    assert_eq!(form("al", "bob@example.org", "1", "2").is_valid(&db), Err(Error::BadUsername));
    let f = form("carol", "carol@example.org", "12345678", "12345678");
    assert!(f.username_valid() && f.email_valid() && f.passwords_match() && f.password_valid());
    assert!(f.username_unique(&db) && f.email_unique(&db));
}

#[test]
fn logging_in() {
    let mut db = tables();
    db.users[0].set_password("opensesame");
    db.users[1].set_password("hunter2hunter2");
    db.users[1].status = 3;
    let login = |name: &str, password: &str| {
        LoginForm { username: name.into(), password: password.into() }.handle(&db).map(|u| u.id)
    };
    assert_eq!(login("alice", "opensesame"), Ok(1));
    assert_eq!(login("alice", "wrong"), Err(Error::WrongPassword));
    assert_eq!(login("nobody", "opensesame"), Err(Error::NotFound));
    assert_eq!(login("bob", "hunter2hunter2"), Err(Error::NotActive));
    assert_eq!(Error::WrongPassword.message(), "Wrong password");
}

#[test]
fn requiring_a_user() {
    let mut db = tables();
    let u = RequireUserMsg(1, false).handle(&mut db, 50).unwrap();
    assert_eq!(u.last_active, None);
    let u = RequireUserMsg(1, true).handle(&mut db, 50).unwrap();
    assert_eq!(u.last_active, Some(50));
    assert_eq!(db.users[0].last_active, Some(50));
    assert_eq!(RequireUserMsg(9, true).handle(&mut db, 50).err(), Some(Error::NotFound));
}

#[test]
fn folders_and_messages() {
    let mut s = site();
    assert_eq!(MessageFolder::find(&11, &s).unwrap().name, "sent");
    assert!(MessageFolder::find(&13, &s).is_none());
    assert_eq!(MessageFolder::find_by_name("inbox", &2, &s).unwrap().id, 12);
    assert!(MessageFolder::find_by_name("sent", &2, &s).is_none());
    let ids = |v: Vec<Message>| v.iter().map(|m| m.id).collect::<Vec<_>>();
    assert_eq!(ids(Message::fetch_by_folder(&10, &s)), vec![101, 102, 100]);
    assert_eq!(ids(Message::fetch_unread(&10, &s)), vec![102, 100]);
    assert_eq!(ids(Message::fetch_by_folder(&11, &s)), Vec::<u128>::new());

    let mut m = Message::find(&100, &s).unwrap();
    assert_eq!(m.mark_as_read(&mut s), 1);
    assert!(m.is_read && s.messages[0].is_read);
    assert_eq!(m.mark_as_read(&mut s), 0);
    assert_eq!(m.mark_as_unread(&mut s), 1);
    assert!(!m.is_read && !s.messages[0].is_read);
    assert_eq!(m.mark_as_unread(&mut s), 0);

    let inbox = MessageFolder::find(&10, &s).unwrap();
    let sent = MessageFolder::find(&11, &s).unwrap();
    assert_eq!(m.owner(&inbox), 1);
    assert_eq!(m.owner(&sent), 2);

    let copy = m.copy_to_folder(&11, &mut s).unwrap();
    assert_eq!(s.messages.len(), 5);
    assert_eq!((copy.folder_id, copy.subject.as_str(), copy.created_at), (11, "s100", 50));
    assert_ne!(copy.id, m.id);
    assert_eq!(copy.delete(&mut s), 1);
    assert_eq!(copy.delete(&mut s), 0);
    assert_eq!(s.messages.len(), 4);

    let (folder, from, to) = (12u128, 1u128, 2u128);
    let new = NewMessage::new(&folder, &from, &to, "hello", "world");
    let saved = new.save(&mut s, 500).unwrap();
    assert_eq!(s.messages.len(), 5);
    assert_eq!((saved.sender_id, saved.receiver_id, saved.is_read, saved.created_at), (Some(1), 2, false, 500));
    assert_eq!(new.save(&mut s, 501).err(), Some(Error::DuplicateKey));

    let owner = 2u128;
    let f = NewMessageFolder::new(&owner, "system", 30);
    assert_eq!(f.save(&mut s), Ok(1));
    assert_eq!(f.save(&mut s), Err(Error::DuplicateKey));
    assert_eq!(MessageFolder::find_by_name("system", &2, &s).unwrap().purge, 30);
}

#[test]
fn loading_messages() {
    let mut s = site();
    let db = tables();
    let shown = LoadMessagesMsg::new("inbox".into(), false, 1).handle(&s, &db).unwrap();
    let got: Vec<(u128, &str, &str, &str)> = shown
        .iter()
        .map(|m| (m.id, m.sender_name.as_str(), m.receiver_name.as_str(), m.folder_name.as_str()))
        .collect();
    assert_eq!(
        got,
        vec![(101, "System", "alice", "inbox"), (102, "System", "alice", "inbox"), (100, "bob", "alice", "inbox")]
    );
    let unread = LoadMessagesMsg::new("inbox".into(), true, 1).handle(&s, &db).unwrap();
    assert_eq!(unread.iter().map(|m| m.id).collect::<Vec<_>>(), vec![102, 100]);
    assert_eq!(LoadMessagesMsg::new("trash".into(), false, 1).handle(&s, &db).err(), Some(Error::NotFound));
    // a message to somebody who is no user cannot be shown
    let mut lost = site();
    lost.messages.push(message(150, 10, Some(2), 77, 55, false));
    assert_eq!(LoadMessagesMsg::new("inbox".into(), false, 1).handle(&lost, &db).err(), Some(Error::NoUser));
    let mut ask = LoadMessageMsg::new(150, 1);
    ask.mark_as_read(true);
    assert_eq!(ask.handle(&mut lost, &db).err(), Some(Error::NoUser));
    assert!(!lost.messages[4].is_read);
    // and one that lies elsewhere is in nobody's way
    lost.messages[4].folder_id = 12;
    assert_eq!(LoadMessagesMsg::new("inbox".into(), false, 1).handle(&lost, &db).unwrap().len(), 3);

    let mut load = LoadMessageMsg::new(100, 1);
    let m = load.handle(&mut s, &db).unwrap();
    assert!(!m.is_read && !s.messages[0].is_read);
    load.mark_as_read(true);
    let m = load.handle(&mut s, &db).unwrap();
    assert!(m.is_read && s.messages[0].is_read);
    assert_eq!(m.sender_name, "bob");
    assert_eq!(LoadMessageMsg::new(100, 2).handle(&mut s, &db).err(), Some(Error::NotAllowed));
    assert_eq!(LoadMessageMsg::new(555, 1).handle(&mut s, &db).err(), Some(Error::NotFound));

    let mut r = MessageResponse::from(message(1, 10, Some(2), 1, 5, false));
    assert_eq!(r.sender_name, "");
    r.set_user_names(&db);
    assert_eq!((r.sender_name.as_str(), r.receiver_name.as_str()), ("bob", "alice"));
    let api = ripalt::api::message::NewMessage { receiver: "bob".into(), subject: "s".into(), body: "b".into(), reply_to: Some(3) };
    let msg = NewMessageMsg::new(api, 1);
    assert_eq!((msg.receiver.as_str(), msg.reply_to, msg.user_id), ("bob", Some(3), 1));
}

#[test]
fn chat_rooms_and_messages() {
    assert_eq!(ChatRoom::try_from(1), Ok(ChatRoom::Public));
    assert_eq!(ChatRoom::try_from(2), Ok(ChatRoom::Team));
    assert_eq!(ChatRoom::try_from(0), Err(Error::NoChatroom));
    assert_eq!(ChatRoom::Team.into(), 2);
    assert!(ChatRoom::Public.eq(&1) && !ChatRoom::Public.eq(&2) && !ChatRoom::Team.eq(&3));
    assert_eq!(ChatRoom::Public.to_string(), "public");
    assert_eq!(ChatRoom::Team.to_string(), "team");
    let mut s = Site::new();
    let (uid, room) = (1u128, 2i16);
    let new = NewChatMessage::new(&uid, &room, "hi");
    let m = new.save(&mut s, 9).unwrap();
    assert_eq!((m.user_id, m.chat, m.message.as_str(), m.created_at), (1, 2, "hi", 9));
    assert_eq!(s.chat_messages.len(), 1);
    let shown = ChatMessageWithUser::from(m);
    assert_eq!((shown.user_name.as_str(), shown.user_group), ("", 0));
}

#[test]
fn chat_frames() {
    let mut buf = Vec::new();
    let mut codec = ChatCodec;
    assert_eq!(codec.encode(b"{\"cmd\":\"Ping\"}", &mut buf), Ok(()));
    assert_eq!(buf, b"\x00\x0e{\"cmd\":\"Ping\"}".to_vec());
    buf.extend_from_slice(&[1, 0]);
    let mut client = ClientChatCodec;
    assert_eq!(client.decode(&mut buf), Some(b"{\"cmd\":\"Ping\"}".to_vec()));
    assert_eq!(buf, vec![1, 0]);
    assert_eq!(client.decode(&mut buf), None);
    buf.extend(vec![b'x'; 255]);
    assert_eq!(client.decode(&mut buf), None);
    buf.push(b'y');
    let frame = client.decode(&mut buf).unwrap();
    assert_eq!(frame.len(), 256);
    assert!(buf.is_empty());
    assert_eq!(codec.decode(&mut vec![0]), None);
    assert_eq!(codec.decode(&mut vec![0, 0, 7]), Some(vec![]));
    let mut out = vec![9];
    assert_eq!(client.encode(&vec![0u8; 65536], &mut out), Err(Error::FrameTooLong));
    assert_eq!(out, vec![9]);
    assert_eq!(client.encode(&vec![1u8; 65535], &mut out), Ok(()));
    assert_eq!(&out[..3], &[9, 255, 255]);
    assert_eq!(out.len(), 65538);
}

#[test]
fn pages_of_the_site() {
    let mut s = Site::new();
    s.contents.push(Content::new("faq".into(), "FAQ".into(), "text".into(), "text/markdown".into(), 1, 2));
    s.contents.push(Content::new("rules".into(), "Rules".into(), "be nice".into(), "text/html".into(), 1, 2));
    assert_eq!(Content::find("rules", &s).unwrap().title, "Rules");
    assert!(Content::find("imprint", &s).is_none());
    let mut c = LoadStaticContentMsg::new("faq".into()).handle(&s).unwrap();
    assert_eq!(LoadStaticContentMsg::new("x".into()).handle(&s).err(), Some(Error::NotFound));
    c.content = "new text".into();
    assert_eq!(c.save(&mut s), 1);
    assert_eq!(s.contents[0].content, "new text");
    assert_eq!(s.contents[1].content, "be nice");
    let msg = UpdateStaticContentMsg::new("faq".into(), "t".into(), "c".into(), "ct".into());
    assert!(msg.subj.is_none());
    let form = ripalt::pages::static_content::ContentForm { id: "a".into(), title: "b".into(), content: "c".into(), content_type: "d".into() };
    let msg = form.into();
    assert_eq!((msg.id.as_str(), msg.content_type.as_str()), ("a", "d"));
}

#[test]
fn categories_and_groups() {
    let mut s = Site::new();
    s.categories.push(Category { id: 1, name: "films".into(), created_at: 0, updated_at: 0 });
    s.categories.push(Category { id: 2, name: "books".into(), created_at: 0, updated_at: 0 });
    s.groups.push(Group { id: 5, name: "users".into(), parent_id: None, created_at: 0, updated_at: 0 });
    assert_eq!(Category::find(&2, &s).unwrap().name, "books");
    assert!(Category::find(&3, &s).is_none());
    s.categories.push(Category { id: 3, name: "Films".into(), created_at: 0, updated_at: 0 });
    s.categories.push(Category { id: 4, name: "book".into(), created_at: 0, updated_at: 0 });
    // in the order of their names, whatever the order of the table
    assert_eq!(
        Category::all(&s).iter().map(|c| c.name.as_str()).collect::<Vec<_>>(),
        vec!["Films", "book", "books", "films"]
    );
    assert_eq!(
        LoadCategoriesMsg {}.handle(&s).iter().map(|c| c.id).collect::<Vec<_>>(),
        vec![3, 4, 2, 1]
    );
    assert_eq!(s.categories.iter().map(|c| c.id).collect::<Vec<_>>(), vec![1, 2, 3, 4]);
    assert_eq!(Group::find(&5, &s).unwrap().name, "users");
    assert!(Group::find(&6, &s).is_none());
}

#[test]
fn what_belongs_to_a_torrent() {
    let mut s = Site::new();
    let mut db = tables();
    let (cat, uid) = (3u128, 1u128);
    let t = Torrent::create("name", "desc", &[1, 2, 3], &cat, &uid, 42, &mut db, 100).unwrap();
    assert_eq!(db.torrents.len(), 1);
    assert_eq!((t.size, t.visible, t.completed, t.created_at, t.user_id), (42, false, 0, 100, Some(1)));
    assert_eq!(t.user_name(&db), Some("alice".to_string()));
    assert_eq!(Torrent::find_by_info_hash(&[1, 2, 3], &db).unwrap().id, t.id);
    let change = UpdateTorrent::new("other", &cat, "text");
    assert_eq!(change.update(&t.id, &mut db), 1);
    assert_eq!(db.torrents[0].name, "other");
    assert_eq!(db.torrents[0].size, 42);
    assert_eq!(change.update(&12345, &mut db), 0);

    assert_eq!(NewTorrentMetaFile::new(&t.id, b"d4:infodee").create(&mut s), Ok(1));
    assert_eq!(NewTorrentMetaFile::new(&t.id, b"x").create(&mut s), Err(Error::DuplicateKey));
    assert_eq!(TorrentMetaFile::find(&t.id, &s).unwrap().data, b"d4:infodee".to_vec());
    assert_eq!(NewTorrentNFO::new(&t.id, b"nfo").create(&mut s), Ok(1));
    let nfo = TorrentNFO::find_for_torrent(&t.id, &s).unwrap();
    assert_eq!(TorrentNFO::find(&nfo.id, &s).unwrap().data, b"nfo".to_vec());
    assert!(TorrentNFO::find_for_torrent(&1, &s).is_none());
    let (size_a, size_b) = (1i64, 2i64);
    assert_eq!(NewTorrentFile::new(&t.id, "b.txt", &size_b).create(&mut s), Ok(1));
    assert_eq!(NewTorrentFile::new(&t.id, "a.txt", &size_a).create(&mut s), Ok(1));
    let listed = TorrentFile::find_for_torrent(&t.id, &s);
    assert_eq!(listed.iter().map(|f| f.file_name.as_str()).collect::<Vec<_>>(), vec!["a.txt", "b.txt"]);
    assert_eq!(TorrentFile::find(&listed[0].id, &s).unwrap().size, 1);
    let elsewhere = 4242u128;
    assert_eq!(NewTorrentFile::new(&elsewhere, "0.txt", &size_a).create(&mut s), Ok(1));
    assert_eq!(NewTorrentFile::new(&t.id, "a.txt", &size_b).create(&mut s), Ok(1));
    assert_eq!(NewTorrentFile::new(&t.id, "Z", &size_b).create(&mut s), Ok(1));
    assert_eq!(
        TorrentFile::find_for_torrent(&t.id, &s).iter().map(|f| f.file_name.as_str()).collect::<Vec<_>>(),
        vec!["Z", "a.txt", "a.txt", "b.txt"]
    );
    let index = 0i16;
    assert_eq!(NewTorrentImage::new(&t.id, "cover.png", &index).create(&mut s, 7), Ok(1));
    assert_eq!(TorrentImage::find_for_torrent(&t.id, &s)[0].created_at, 7);
    let (second, before) = (2i16, -1i16);
    assert_eq!(NewTorrentImage::new(&t.id, "back.png", &second).create(&mut s, 8), Ok(1));
    assert_eq!(NewTorrentImage::new(&t.id, "first.png", &before).create(&mut s, 9), Ok(1));
    assert_eq!(NewTorrentImage::new(&elsewhere, "x.png", &before).create(&mut s, 9), Ok(1));
    assert_eq!(
        TorrentImage::find_for_torrent(&t.id, &s).iter().map(|i| i.index).collect::<Vec<_>>(),
        vec![-1, 0, 2]
    );

    let late = NewTorrentComment::new(&uid, &t.id, "second").create(&mut s, 20).unwrap();
    let early = NewTorrentComment::new(&uid, &t.id, "first").create(&mut s, 10).unwrap();
    let other = 999u128;
    NewTorrentComment::new(&uid, &other, "elsewhere").create(&mut s, 5).unwrap();
    assert_eq!(t.comments(&s).iter().map(|c| c.content.as_str()).collect::<Vec<_>>(), vec!["first", "second"]);
    let mut c = TorrentComment::find(&late.id, &s).unwrap();
    assert_eq!(c.set_content("changed".into()), "second");
    assert_eq!(c.update_set().content, "changed");
    assert_eq!(c.save(&mut s, 30), 1);
    assert_eq!((s.torrent_comments[0].content.as_str(), s.torrent_comments[0].updated_at), ("changed", 30));
    assert_eq!(s.torrent_comments[1].updated_at, 10);
    assert_eq!(*c.user_id(), 1);
    let shown = TorrentCommentResponse::new2(c, &db);
    assert_eq!((shown.user_name.as_str(), shown.may_edit, shown.may_delete), ("alice", false, false));
    assert_eq!(shown.comment().content, "changed");
    assert_eq!(early.delete(&mut s), 1);
    assert_eq!(s.torrent_comments.len(), 2);
    assert_eq!(t.delete(&mut db), 1);
    assert!(db.torrents.is_empty());
}

#[test]
fn time_zones() {
    let zones = timezones();
    assert_eq!(zones.len(), 38);
    let names: Vec<&str> = zones.iter().map(|z| z.name.as_str()).collect();
    assert_eq!(&names[..5], &["UTC-12:00", "UTC-11:00", "UTC-10:00", "UTC-9:30", "UTC-9:00"]);
    assert_eq!(names[14], "UTC");
    assert_eq!(&names[15..], &[
        "UTC+1:00", "UTC+2:00", "UTC+3:00", "UTC+3:30", "UTC+4:00", "UTC+4:30", "UTC+5:00",
        "UTC+5:30", "UTC+5:45", "UTC+6:00", "UTC+6:30", "UTC+7:00", "UTC+8:00", "UTC+9:00",
        "UTC+9:30", "UTC+10:00", "UTC+10:30", "UTC+11:00", "UTC+12:00", "UTC+12:45", "UTC+13:00",
        "UTC+13:45", "UTC+14:00",
    ]);
    assert!(zones.windows(2).all(|w| w[0].value < w[1].value));
    assert_eq!(zones.iter().filter(|z| z.value == 0).count(), 1);
    let z = Timezone::new("X".into(), 5);
    assert_eq!((z.name.as_str(), z.value), ("X", 5));
}

#[test]
fn list_of_torrents_as_asked_for() {
    let form = |v: &str| ListForm { category: String::new(), visible: v.into(), name: String::new(), page: 1 };
    assert_eq!(form("all").visible(), Visible::All);
    assert_eq!(form("visible").visible(), Visible::Visible);
    assert_eq!(form("dead").visible(), Visible::Invisible);
    assert_eq!(form("").visible(), Visible::Visible);
    assert_eq!(form("ALL").visible(), Visible::Visible);
    assert_eq!(Visible::Invisible.to_string(), "dead");
    assert_eq!(Visible::default(), Visible::Visible);
    let mut msg = LoadTorrentListMsg::new(&7);
    assert_eq!((msg.page, msg.per_page, msg.current_user_id, msg.visible), (1, 25, 7, Visible::Visible));
    msg.name("abc".into());
    msg.category(3);
    msg.user(4);
    msg.visible(Visible::All);
    msg.page(2, 50);
    assert_eq!(
        (msg.name.as_deref(), msg.category, msg.user_id, msg.visible, msg.page, msg.per_page),
        (Some("abc"), Some(3), Some(4), Visible::All, 2, 50)
    );
}

const TORRENT: &[u8] = b"d4:infod5:filesld6:lengthi283115520e4:pathl34:install-amd64-minimal-20170907.isoeed6:lengthi522190848e4:pathl29:archlinux-2013.02.01-dual.isoeee4:name4:test12:piece lengthi16777216e6:pieces0:ee";

#[test]
fn upload_is_read_from_the_metainfo_file() {
    let mut b = NewTorrentBuilder::new();
    b.name("n");
    b.description("d");
    b.category(3);
    b.user(4);
    b.raw_meta(TORRENT.to_vec());
    b.nfo(b"plain text".to_vec());
    b.add_image("cover", "/tmp/cover.png".into());
    b.nfo_as_description();
    let msg = b.finish().unwrap();
    assert_eq!(msg.description, "plain text");
    assert_eq!(msg.size, 283115520 + 522190848);
    assert_eq!(msg.info_hash, info_hash(TORRENT).unwrap());
    assert_eq!(
        msg.files.iter().map(|f| (f.file_name.clone(), f.size)).collect::<Vec<_>>(),
        files(TORRENT).unwrap()
    );
    assert_eq!((msg.category, msg.user, msg.image_files.len()), (3, 4, 1));

    let mut b = NewTorrentBuilder::new();
    b.raw_meta(b"i1e".to_vec());
    assert_eq!(b.finish().err(), Some(Error::NoDict));
    let mut b = NewTorrentBuilder::new();
    b.raw_meta(b"d4:infod5:filesld6:lengthi9223372036854775807e4:pathl1:aeed6:lengthi1e4:pathl1:beeeee".to_vec());
    assert_eq!(b.finish().err(), Some(Error::CounterRange));
    let mut b = NewTorrentBuilder::new();
    b.raw_meta(b"d4:infod5:filesld6:lengthi9223372036854775807e4:pathl1:aeed6:lengthi-1e4:pathl1:beeeee".to_vec());
    assert_eq!(b.finish().unwrap().size, i64::MAX - 1);
}

#[test]
fn download_carries_the_passcode() {
    let settings = Tracker {
        announce_url: "http://localhost:8081/tracker/announce".into(),
        comment: "made here".into(),
        default_numwant: 50,
        interval: 900,
    };
    assert_eq!(announce_url(&settings, &[0xde, 0xad]), "http://localhost:8081/tracker/announce/dead");
    let out = download(TORRENT, &settings, &[0x01, 0xff]).unwrap();
    assert!(out.starts_with(b"d8:announce43:http://localhost:8081/tracker/announce/01ff7:comment9:made here4:infod"));
    assert_eq!(info_hash(&out), info_hash(TORRENT));
    assert_eq!(files(&out), files(TORRENT));
    assert_eq!(download(b"le", &settings, &[1]), Err(Error::NoDict));
}

fn peer(id: u128, updated_at: i64) -> Peer {
    Peer {
        id,
        torrent_id: 1,
        user_id: 1,
        ip_address: IpAddress::V4([1, 2, 3, 4]),
        port: 1,
        bytes_uploaded: 0,
        bytes_downloaded: 0,
        bytes_left: 0,
        seeder: true,
        peer_id: vec![id as u8],
        user_agent: String::new(),
        crypto_enabled: false,
        crypto_port: None,
        offset_uploaded: 0,
        offset_downloaded: 0,
        created_at: 0,
        finished_at: None,
        updated_at,
    }
}

#[test]
fn stale_peers_are_forgotten() {
    let mut db = Tables::new();
    db.peers.push(peer(1, 10_000));
    db.peers.push(peer(2, 6_399));
    db.peers.push(peer(3, 6_400));
    db.peers.push(peer(4, 0));
    assert_eq!(cleanup(&mut db, 10_000), 2);
    assert_eq!(db.peers.iter().map(|p| p.id).collect::<Vec<_>>(), vec![1, 3]);
    assert_eq!(cleanup(&mut db, 10_000), 0);
    assert_eq!(*db.peers[0].user_id(), 1);
    assert_eq!(Peer::find(&3, &db).unwrap().updated_at, 6_400);
    assert_eq!(db.peers[0].clone().delete(&mut db), 1);
    assert!(Peer::find(&1, &db).is_none());
}

#[test]
fn deleting_and_marking_messages() {
    let mut s = site();
    // message 103 lies in the inbox of user 2; 999 is not there
    let marked = MarkMessagesMsg::new(vec![100, 103, 999, 101], 1, true).handle(&mut s);
    assert_eq!(marked, vec![100, 101]);
    assert!(s.messages[0].is_read && s.messages[1].is_read && !s.messages[2].is_read);
    assert!(!s.messages[3].is_read);
    let marked = MarkMessagesMsg::new(vec![100], 1, false).handle(&mut s);
    assert_eq!(marked, vec![100]);
    assert!(!s.messages[0].is_read);
    let deleted = DeleteMessagesMsg::new(vec![103, 100, 100, 102], 1).handle(&mut s);
    assert_eq!(deleted, vec![100, 102]);
    assert_eq!(s.messages.iter().map(|m| m.id).collect::<Vec<_>>(), vec![101, 103]);
    // a message in a folder that is not there, or of another kind, belongs to nobody
    s.folders.push(MessageFolder { id: 20, user_id: 1, name: "drafts".into(), purge: 0 });
    s.messages.push(message(200, 20, Some(1), 1, 5, false));
    s.messages.push(message(201, 77, Some(1), 1, 5, false));
    s.messages.push(message(202, 11, None, 2, 5, false));
    s.messages.push(message(203, 11, Some(1), 2, 5, false));
    assert_eq!(DeleteMessagesMsg::new(vec![200, 201, 202, 203], 1).handle(&mut s), vec![203]);
    assert_eq!(s.messages.len(), 5);
}

#[test]
fn peers_of_a_torrent_with_their_users() {
    let mut db = tables();
    let mut a = peer(1, 10);
    a.user_id = 2;
    let mut b = peer(2, 30);
    b.user_id = 9;
    let mut c = peer(3, 20);
    c.torrent_id = 5;
    db.peers = vec![a, b, c, peer(4, 25)];
    let found = Peer::find_for_torrent(&1, &db);
    assert_eq!(
        found.iter().map(|(p, n)| (p.id, n.as_str())).collect::<Vec<_>>(),
        vec![(2, ""), (4, "alice"), (1, "bob")]
    );
    assert!(Peer::find_for_torrent(&6, &db).is_empty());
}

fn chat(id: u128, user: u128, room: i16, at: i64) -> ChatMessage {
    ChatMessage { id, user_id: user, chat: room, message: format!("m{}", id), created_at: at }
}

#[test]
fn messages_of_a_room() {
    let mut db = tables();
    db.users[1].group_id = 7;
    let mut s = Site::new();
    s.chat_messages = vec![chat(1, 1, 1, 10), chat(2, 2, 1, 30), chat(3, 1, 2, 40), chat(4, 9, 1, 50), chat(5, 1, 1, 20)];
    let got = |since, limit| {
        ChatMessageWithUser::messages_for_chat(1, since, limit, &s, &db)
            .iter()
            .map(|m| (m.id, m.user_name.clone(), m.user_group))
            .collect::<Vec<_>>()
    };
    assert_eq!(got(None, 50), vec![(2, "bob".to_string(), 7), (5, "alice".to_string(), 0), (1, "alice".to_string(), 0)]);
    assert_eq!(got(None, 2), vec![(2, "bob".to_string(), 7), (5, "alice".to_string(), 0)]);
    assert_eq!(got(Some(10), 50).len(), 2);
    assert_eq!(got(Some(30), 50), vec![]);
    assert_eq!(got(None, 0), vec![]);
    assert_eq!(got(None, -3), vec![]);
    assert_eq!(got(None, i64::MAX).len(), 3);
    assert_eq!(ChatMessageWithUser::messages_for_chat(2, None, 5, &s, &db).len(), 1);
}

fn sender(uid: u128, gid: u128, may_delete: bool) -> UserSubjectMsg {
    let mut rules = Site::new();
    if may_delete {
        rules.group_rules.push(GroupRule { id: 1, namespace: "torrent".into(), group_id: gid, permission: Permission::Delete });
    }
    let mut acl = Acl::new();
    acl.load(&rules);
    UserSubjectMsg::new(uid, gid, AclContainer::new(acl))
}

#[test]
fn loading_and_deleting_torrents() {
    let mut db = tables();
    db.users[0].passcode = vec![0xab, 0xcd];
    let mut s = Site::new();
    let (cat, uid) = (3u128, 1u128);
    let t = Torrent::create("film", "", &[1], &cat, &uid, 1, &mut db, 0).unwrap();
    let meta = LoadTorrentMetaMsg { id: t.id, uid: 1 };
    assert_eq!(meta.handle(&s, &db).err(), Some(Error::NoMetaFile));
    NewTorrentMetaFile::new(&t.id, TORRENT).create(&mut s).unwrap();
    assert_eq!(meta.handle(&s, &db), Ok(("film.torrent".to_string(), TORRENT.to_vec(), vec![0xab, 0xcd])));
    assert_eq!(LoadTorrentMetaMsg { id: t.id, uid: 9 }.handle(&s, &db).err(), Some(Error::NoUser));
    assert_eq!(LoadTorrentMetaMsg { id: 0, uid: 1 }.handle(&s, &db).err(), Some(Error::NoTorrent));
    let nfo = LoadTorrentNfoMsg { id: t.id };
    assert_eq!(nfo.handle(&s, &db).err(), Some(Error::NoNfoFile));
    NewTorrentNFO::new(&t.id, b"text").create(&mut s).unwrap();
    assert_eq!(nfo.handle(&s, &db), Ok(("film.nfo".to_string(), b"text".to_vec())));
    assert_eq!(LoadTorrentNfoMsg { id: 0 }.handle(&s, &db).err(), Some(Error::NoTorrent));
    s.categories.push(Category { id: 1, name: "films".into(), created_at: 0, updated_at: 0 });
    assert_eq!(LoadCategoriesMsg {}.handle(&s).len(), 1);

    let delete = |user: UserSubjectMsg, db: &mut Tables| {
        DeleteTorrentMsg { id: t.id, reason: "gone".into(), user }.handle(db)
    };
    assert_eq!(delete(sender(2, 5, false), &mut db), Err(Error::NotAllowed));
    assert_eq!(db.torrents.len(), 1);
    assert_eq!(delete(sender(2, 5, true), &mut db), Ok(1));
    assert_eq!(delete(sender(2, 5, true), &mut db), Err(Error::NoTorrent));
    let t = Torrent::create("film", "", &[1], &cat, &uid, 1, &mut db, 0).unwrap();
    let own = DeleteTorrentMsg { id: t.id, reason: String::new(), user: sender(1, 5, false) };
    assert_eq!(own.handle(&mut db), Ok(1));
}

#[test]
fn lists_of_rules_grow_at_the_end() {
    let rule = |id: u128, p: Permission| GroupRule { id, namespace: "n".into(), group_id: 1, permission: p };
    let mut list = vec![rule(1, Permission::Read)];
    Acl::load_list(vec![rule(2, Permission::Write), rule(3, Permission::Create)], &mut list);
    assert_eq!(list.iter().map(|r| r.id).collect::<Vec<_>>(), vec![1, 2, 3]);
}

#[test]
fn folders_and_profile_of_a_new_user() {
    let mut s = site();
    let u = user(5, "eve");
    assert_eq!(u.create_message_folders(&mut s), Ok(()));
    let mine: Vec<(&str, i16)> =
        s.folders.iter().filter(|f| f.user_id == 5).map(|f| (f.name.as_str(), f.purge)).collect();
    assert_eq!(mine, vec![("inbox", 0), ("sent", 0), ("system", 0)]);
    assert_eq!(s.folders.len(), 6);

    assert_eq!(u.profile(&s).about, None);
    assert_eq!(u.create_profile(&mut s), 1);
    assert_eq!(s.profiles.len(), 1);
    let told = UserProfile { id: 5, avatar: None, flair: Some("hi".into()), about: Some("me".into()) };
    assert_eq!(told.save(&mut s), 1);
    assert_eq!(s.profiles.len(), 1);
    assert_eq!(u.profile(&s).flair.as_deref(), Some("hi"));
    assert_eq!(u.create_profile(&mut s), 1);
    assert_eq!(u.profile(&s).flair, None);
    assert_eq!(user(6, "finn").profile(&s).id, 6);
}

#[test]
fn rendered_pages() {
    let t = Template::new("<p>".into(), "text/plain".into());
    assert_eq!((t.body.as_str(), t.content_type.as_str()), ("<p>", "text/plain"));
    let t = Template::default();
    assert_eq!((t.body.as_str(), t.content_type.as_str()), ("", "text/html;  charset=utf-8"));
}

#[test]
fn quotations() {
    assert_eq!(quote(""), "");
    assert_eq!(quote("one"), "\n> one");
    assert_eq!(quote("one\ntwo"), "\n> one\n> two");
    assert_eq!(quote("one\r\ntwo\n"), "\n> one\n> two");
    assert_eq!(quote("\n\nx\r"), "\n> \n> \n> x\r");
    assert_eq!(quote("a\rb\n\r\n"), "\n> a\rb\n> ");
    assert_eq!(quote("grüße\n日本"), "\n> grüße\n> 日本");
    for text in ["", "\n", "\r\n", "a\n\nb", "x\r\r\ny\r", "end\n\r"] {
        let expected =
            text.lines().map(|l| format!("> {}", l)).fold(String::new(), |a, x| format!("{}\n{}", a, x));
        assert_eq!(quote(text), expected, "{:?}", text);
    }
}

#[test]
fn dates_as_shown() {
    assert_eq!(format_date(None, None), "---");
    assert_eq!(format_date(None, Some(3600)), "---");
    assert_eq!(format_date(Some("yesterday"), Some(3600)), "yesterday");
    assert_eq!(format_date(Some("2018-05-06T07:08:09Z"), None), "06.05.2018 07:08:09 UTC");
    assert_eq!(format_date(Some("2018-05-06T07:08:09.75+02:00"), None), "06.05.2018 05:08:09 UTC");
    assert_eq!(format_date(Some("2018-05-06T07:08:09Z"), Some(3600)), "06.05.2018 08:08:09");
    assert_eq!(format_date(Some("2018-05-06T07:08:09Z"), Some(-34200)), "05.05.2018 21:38:09");
    assert_eq!(format_date(Some("2018-05-06T07:08:09Z"), Some(0)), "06.05.2018 07:08:09");
    // there is no zone a day or more from UTC
    assert_eq!(format_date(Some("2018-05-06T07:08:09Z"), Some(86400)), "06.05.2018 07:08:09 UTC");
    assert_eq!(format_time(0, None), Some("01.01.1970 00:00:00 UTC".to_string()));
    assert_eq!(format_time(i64::MAX, Some(60)), None);
}

#[test]
fn markdown_pages() {
    assert_eq!(markdown("# Hi"), "<h1>Hi</h1>");
    let mut page = Content::new("faq".into(), "FAQ".into(), "*so*".into(), "text/markdown".into(), 1, 2);
    assert_eq!(page.render(), "<p><em>so</em></p>");
    page.content_type = "text/html".into();
    assert_eq!(page.render(), "*so*");
}

#[test]
fn reloading_rules_keeps_what_a_group_may() {
    let mut db = Site::new();
    db.groups = vec![
        Group { id: 1, name: "a".into(), parent_id: None, created_at: 0, updated_at: 0 },
        Group { id: 2, name: "b".into(), parent_id: Some(1), created_at: 0, updated_at: 0 },
        Group { id: 3, name: "c".into(), parent_id: Some(2), created_at: 0, updated_at: 0 },
    ];
    db.group_rules.push(GroupRule { id: 9, namespace: "torrent".into(), group_id: 1, permission: Permission::Write });
    let mut held = AclContainer::new_empty();
    assert!(!held.is_group_allowed(&3, "torrent", &Permission::Read));
    for _ in 0..50 {
        held.reload(&db);
        assert!(held.is_group_allowed(&3, "torrent", &Permission::Write));
        assert!(!held.is_group_allowed(&3, "torrent", &Permission::Create));
    }
    // a group that moves under another parent follows the rules of that one
    db.groups[2].parent_id = Some(7);
    held.reload(&db);
    assert!(!held.is_group_allowed(&3, "torrent", &Permission::Read));
    assert!(held.is_allowed(&5, &2, "torrent", &Permission::Read));
    db.group_rules.clear();
    held.reload(&db);
    assert!(!held.is_allowed(&5, &2, "torrent", &Permission::Read));
}

#[test]
fn comments_as_shown_to_a_reader() {
    let mut db = tables();
    let (cat, uid) = (3u128, 1u128);
    let t = Torrent::create("film", "", &[1], &cat, &uid, 1, &mut db, 0).unwrap();
    let own = TorrentComment { id: 1, user_id: 2, torrent_id: t.id, content: "c".into(), created_at: 0, updated_at: 0 };
    // judged as the torrent is judged that the reader asks about
    let reader = sender(1, 5, false);
    let shown = TorrentCommentResponse::new2(own, &db);
    assert_eq!(shown.user_name, "bob");
    assert!(reader.subject().may_delete(&t));
}
