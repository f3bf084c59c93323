use ripalt::bencode::{
    decode, dict_get, dict_insert, dict_remove, encode, is_flat, nesting, try_encode, Bencode,
    MAX_DEPTH,
};
use ripalt::error::Error;
use ripalt::util::to_hex;
use ripalt::util::torrent::{files, info_hash, rewrite};

fn single_file_torrent() -> (String, Vec<u8>) {
    let info_hash = "b81090f152528a339402d9f6a41eb0addd4f5ef0".to_string();
    let torrent = b"d4:infod6:lengthi283115520e4:name34:install-amd64-minimal-20170907.iso12:piece lengthi16777216e6:pieces0:ee".to_vec();

    (info_hash, torrent)
}

fn multiple_file_torrent() -> (String, Vec<u8>) {
    let info_hash = "f0b50dd6e052c2d04ca45239634bf6333367ba7f".to_string();
    let torrent = b"d4:infod5:filesld6:lengthi283115520e4:pathl34:install-amd64-minimal-20170907.isoeed6:lengthi522190848e4:pathl29:archlinux-2013.02.01-dual.isoeee4:name4:test12:piece lengthi16777216e6:pieces0:ee".to_vec();

    (info_hash, torrent)
}

fn multiple_dir_torrent() -> (String, Vec<u8>) {
    let info_hash = "484634d4a484d0f1741a6f95f7f45f34e9166e44".to_string();
    let torrent = b"d4:infod5:filesld6:lengthi522190848e4:pathl4:arch29:archlinux-2013.02.01-dual.isoeed6:lengthi283115520e4:pathl6:gentoo34:install-amd64-minimal-20170907.isoeee4:name4:test12:piece lengthi16777216e6:pieces0:ee".to_vec();

    (info_hash, torrent)
}

#[test]
fn test_info_hash() {
    let (ih, t) = single_file_torrent();
    let calculated = info_hash(&t).unwrap();
    assert_eq!(to_hex(&calculated), ih);

    let (ih, t) = multiple_file_torrent();
    let calculated = info_hash(&t).unwrap();
    assert_eq!(to_hex(&calculated), ih);

    let (ih, t) = multiple_dir_torrent();
    let calculated = info_hash(&t).unwrap();
    assert_eq!(to_hex(&calculated), ih);
}

#[test]
fn test_files_single() {
    let (_, t) = single_file_torrent();
    let mut f = files(&t).unwrap();
    let (file, size) = f.pop().unwrap();
    assert_eq!(String::from("install-amd64-minimal-20170907.iso"), file);
    assert_eq!(283115520, size);
}

#[test]
fn test_files_multiple() {
    let (_, t) = multiple_file_torrent();
    let mut f = files(&t).unwrap();

    let (file, size) = f.pop().unwrap();
    assert_eq!(String::from("archlinux-2013.02.01-dual.iso"), file);
    assert_eq!(522190848, size);

    let (file, size) = f.pop().unwrap();
    assert_eq!(String::from("install-amd64-minimal-20170907.iso"), file);
    assert_eq!(283115520, size);
}

#[test]
fn test_files_multiple_dir() {
    let (_, t) = multiple_dir_torrent();
    let mut f = files(&t).unwrap();

    let (file, size) = f.pop().unwrap();
    assert_eq!(String::from("gentoo/install-amd64-minimal-20170907.iso"), file);
    assert_eq!(283115520, size);

    let (file, size) = f.pop().unwrap();
    assert_eq!(String::from("arch/archlinux-2013.02.01-dual.iso"), file);
    assert_eq!(522190848, size);
}

#[test]
fn info_hash_is_twenty_bytes_and_repeatable() {
    let (_, t) = multiple_file_torrent();
    let a = info_hash(&t).unwrap();
    let b = info_hash(&t).unwrap();
    assert_eq!(a.len(), 20);
    assert_eq!(a, b);
}

#[test]
fn info_hash_failures() {
    assert_eq!(info_hash(b"i5e"), Err(Error::NoDict));
    assert_eq!(info_hash(b"d3:fooi1ee"), Err(Error::NoInfo));
    assert_eq!(info_hash(b"x"), Err(Error::Bencode));
    assert_eq!(info_hash(b""), Err(Error::Bencode));
}

#[test]
fn info_hash_of_any_info_value() {
    // the value under `info` need not be a dictionary for the hash
    let h = info_hash(b"d4:infoi7ee").unwrap();
    assert_eq!(h.len(), 20);
}

#[test]
fn files_failures() {
    assert_eq!(files(b"le"), Err(Error::NoDict));
    assert_eq!(files(b"d4:infoi7ee"), Err(Error::NoInfo));
    assert_eq!(files(b"d3:fooi7ee"), Err(Error::NoInfo));
    assert_eq!(files(b"d4:infod5:filesi1eee"), Err(Error::FilesNoList));
    assert_eq!(files(b"d4:infod5:filesli1eeee"), Err(Error::FileNoDict));
    assert_eq!(files(b"d4:infod5:filesld4:pathl1:aeeeee"), Err(Error::NoLength));
    assert_eq!(files(b"d4:infod5:filesld6:length1:x4:pathl1:aeeeee"), Err(Error::LengthNoInt));
    assert_eq!(files(b"d4:infod5:filesld6:lengthi1eeeee"), Err(Error::NoPath));
    assert_eq!(files(b"d4:infod5:filesld6:lengthi1e4:path1:aeeee"), Err(Error::PathNoList));
    assert_eq!(files(b"d4:infod5:filesld6:lengthi1e4:pathleeeee"), Err(Error::EmptyPath));
    assert_eq!(files(b"d4:infod5:filesld6:lengthi1e4:pathl1:\xffeeeee"), Err(Error::Utf8));
    assert_eq!(files(b"d4:infod4:name1:aee"), Err(Error::NoLength));
    assert_eq!(files(b"d4:infod6:length1:x4:name1:aee"), Err(Error::LengthNoInt));
    assert_eq!(files(b"d4:infod6:lengthi1eee"), Err(Error::NoName));
    assert_eq!(files(b"d4:infod6:lengthi1e4:namei2eee"), Err(Error::NameNoStr));
    assert_eq!(files(b"d4:infod6:lengthi1e4:name1:\xffee"), Err(Error::Utf8));
}

#[test]
fn files_with_no_entries() {
    assert_eq!(files(b"d4:infod5:filesleee"), Ok(vec![]));
}

#[test]
fn files_skips_path_parts_that_are_no_byte_strings() {
    let f = files(b"d4:infod5:filesld6:lengthi9e4:pathl1:ai5e1:beeeee").unwrap();
    assert_eq!(f, vec![(String::from("a/b"), 9)]);
}

#[test]
fn rewrite_sets_announce_and_comment() {
    let (_, t) = single_file_torrent();
    let out = rewrite(&t, "http://tracker/announce/abcd", "hello").unwrap();
    let expected = b"d8:announce28:http://tracker/announce/abcd7:comment5:hello4:infod6:lengthi283115520e4:name34:install-amd64-minimal-20170907.iso12:piece lengthi16777216e6:pieces0:ee".to_vec();
    assert_eq!(out, expected);
}

#[test]
fn rewrite_overwrites_and_drops_announce_list() {
    let t = b"d8:announce3:old13:announce-listll1:aee7:comment1:c4:infod6:lengthi1e4:name1:nee".to_vec();
    let out = rewrite(&t, "new", "d").unwrap();
    assert_eq!(out, b"d8:announce3:new7:comment1:d4:infod6:lengthi1e4:name1:nee".to_vec());
}

#[test]
fn rewrite_keeps_info_hash_and_files() {
    for (_, t) in [single_file_torrent(), multiple_file_torrent(), multiple_dir_torrent()] {
        let out = rewrite(&t, "http://example.org/announce/00ff", "a comment").unwrap();
        assert_eq!(info_hash(&out), info_hash(&t));
        assert_eq!(files(&out), files(&t));
        assert!(files(&out).is_ok());
    }
}

#[test]
fn rewrite_failures() {
    assert_eq!(rewrite(b"i1e", "a", "b"), Err(Error::NoDict));
    assert_eq!(rewrite(b"", "a", "b"), Err(Error::Bencode));
}

#[test]
fn deep_nesting_is_refused() {
    let mut deep = vec![b'l'; 100_000];
    deep.extend(vec![b'e'; 100_000]);
    assert_eq!(nesting(&deep), 100_000);
    assert!(decode(&deep).is_none());
    assert_eq!(info_hash(&deep), Err(Error::Bencode));
    assert_eq!(files(&deep), Err(Error::Bencode));
    assert_eq!(rewrite(&deep, "a", "b"), Err(Error::Bencode));

    let mut ok = vec![b'l'; MAX_DEPTH];
    ok.extend(vec![b'e'; MAX_DEPTH]);
    assert_eq!(nesting(&ok), MAX_DEPTH);
    let v = decode(&ok).unwrap();
    assert!(is_flat(&v, MAX_DEPTH));
    assert!(!is_flat(&v, MAX_DEPTH - 1));
    assert_eq!(encode(&v), ok);
    let deeper = Bencode::List(vec![v]);
    assert_eq!(try_encode(&deeper), None);
    let mut too = vec![b'l'; MAX_DEPTH + 1];
    too.extend(vec![b'e'; MAX_DEPTH + 1]);
    assert!(decode(&too).is_none());
}

#[test]
fn nesting_counts_open_lists_and_dictionaries() {
    assert_eq!(nesting(b""), 0);
    assert_eq!(nesting(b"i5e"), 0);
    assert_eq!(nesting(b"3:lll"), 0);
    assert_eq!(nesting(b"le"), 1);
    assert_eq!(nesting(b"l3:llle"), 1);
    assert_eq!(nesting(b"d1:ali1eee"), 2);
    assert_eq!(nesting(b"d1:ali1ee1:bllleee"), 4);
    // what lies behind the first value is not read
    assert_eq!(nesting(b"lelllll"), 1);
    assert_eq!(nesting(b"i1elllll"), 0);
    // reading ends where the bytes cannot be read on
    assert_eq!(nesting(b"llxlll"), 2);
    assert_eq!(nesting(b"ll9:abc"), 2);
    assert_eq!(nesting(b"lli"), 2);
    assert_eq!(nesting(b"l99999999999999999999999:l"), 1);
    // a byte string may hold what looks like lists
    assert_eq!(nesting(b"l6:llllll4:lllle"), 1);
    assert_eq!(nesting(b"lilllelle"), 3);
}

#[test]
fn decode_and_encode_round_trip() {
    let data = b"d1:ai-7e1:bl3:xyzi0ee1:cd1:k0:ee".to_vec();
    let v = decode(&data).unwrap();
    assert_eq!(encode(&v), data);
    assert_eq!(try_encode(&v), Some(data));
    match v {
        Bencode::Dict(mut entries) => {
            assert!(matches!(dict_get(&entries, b"a"), Some(Bencode::Int(-7))));
            assert!(dict_get(&entries, b"z").is_none());
            dict_insert(&mut entries, b"a".to_vec(), Bencode::Int(1));
            assert!(matches!(dict_get(&entries, b"a"), Some(Bencode::Int(1))));
            dict_remove(&mut entries, b"a");
            assert!(dict_get(&entries, b"a").is_none());
            dict_remove(&mut entries, b"nothing");
            assert_eq!(encode(&Bencode::Dict(entries)), b"d1:bl3:xyzi0ee1:cd1:k0:ee".to_vec());
        }
        _ => panic!("not a dictionary"),
    }
    // keys come out in order whatever the order of the entries
    let d = Bencode::Dict(vec![
        (b"b".to_vec(), Bencode::Int(2)),
        (b"a".to_vec(), Bencode::Int(1)),
        (b"b".to_vec(), Bencode::Int(3)),
    ]);
    assert_eq!(encode(&d), b"d1:ai1e1:bi3ee".to_vec());
    assert!(decode(b"").is_none());
    assert!(decode(b"i1").is_none());
    assert!(decode(b"x").is_none());
}
