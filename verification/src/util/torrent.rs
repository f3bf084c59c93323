//! Torrent metainfo files: the info hash, the file list, and the rewrite
//! that personalises a file for download.

use vstd::prelude::*;
use vstd::string::{StringExecFns, StringSliceAdditionalSpecFns};
use vstd::utf8::{decode_utf8, valid_utf8};
use crate::bencode::{
    Bencode, bencoded, dict_get, dict_insert, dict_remove, dict_view, entries_flat,
    lemma_flat_more, list_view, MAX_DEPTH, read, Tree, view_of,
};
use crate::error::Error;
use crate::util::{ascii, ascii_bytes, copy_bytes, sha1, sha1_digest, text_of};

verus! {

/// The value under `info` of a metainfo tree, of whatever type it is.
pub open spec fn info_of(root: Tree) -> Result<Tree, Error> {
    match root {
        Tree::Dict(m) => if m.contains_key(ascii("info"@)) {
            Ok(m[ascii("info"@)])
        } else {
            Err(Error::NoInfo)
        },
        _ => Err(Error::NoDict),
    }
}

/// The info hash of a metainfo file: the SHA-1 digest of the encoding of
/// the value under `info`.
pub open spec fn info_hash_of(data: Seq<u8>) -> Result<Seq<u8>, Error> {
    match read(data) {
        None => Err(Error::Bencode),
        Some(root) => match info_of(root) {
            Ok(info) => Ok(sha1(bencoded(info))),
            Err(e) => Err(e),
        },
    }
}

/// The path components that are byte strings, each after a `/`.
pub open spec fn joined(parts: Seq<Tree>) -> Result<Seq<char>, Error>
    decreases parts.len(),
{
    if parts.len() == 0 {
        Ok(Seq::empty())
    } else {
        match joined(parts.drop_last()) {
            Err(e) => Err(e),
            Ok(init) => match parts.last() {
                Tree::Bytes(b) => if valid_utf8(b) {
                    Ok(init + seq!['/'] + decode_utf8(b))
                } else {
                    Err(Error::Utf8)
                },
                _ => Ok(init),
            },
        }
    }
}

/// The name of a file from its path components, joined with `/`.
pub open spec fn path_text(parts: Seq<Tree>) -> Result<Seq<char>, Error> {
    match joined(parts) {
        Err(e) => Err(e),
        Ok(j) => if j.len() == 0 {
            Err(Error::EmptyPath)
        } else {
            Ok(j.skip(1))
        },
    }
}

/// The size under `length` of a file dictionary.
pub open spec fn length_of(m: Map<Seq<u8>, Tree>) -> Result<int, Error> {
    if !m.contains_key(ascii("length"@)) {
        Err(Error::NoLength)
    } else {
        match m[ascii("length"@)] {
            Tree::Int(n) => Ok(n),
            _ => Err(Error::LengthNoInt),
        }
    }
}

/// Name and size of one entry of `files`.
pub open spec fn entry_file(entry: Tree) -> Result<(Seq<char>, int), Error> {
    match entry {
        Tree::Dict(m) => match length_of(m) {
            Err(e) => Err(e),
            Ok(size) => if !m.contains_key(ascii("path"@)) {
                Err(Error::NoPath)
            } else {
                match m[ascii("path"@)] {
                    Tree::List(parts) => match path_text(parts) {
                        Ok(name) => Ok((name, size)),
                        Err(e) => Err(e),
                    },
                    _ => Err(Error::PathNoList),
                }
            },
        },
        _ => Err(Error::FileNoDict),
    }
}

/// Names and sizes of the entries of `files`, in order; the first entry
/// that cannot be read decides the failure.
pub open spec fn entry_files(entries: Seq<Tree>) -> Result<Seq<(Seq<char>, int)>, Error>
    decreases entries.len(),
{
    if entries.len() == 0 {
        Ok(Seq::empty())
    } else {
        match entry_files(entries.drop_last()) {
            Err(e) => Err(e),
            Ok(init) => match entry_file(entries.last()) {
                Ok(f) => Ok(init.push(f)),
                Err(e) => Err(e),
            },
        }
    }
}

/// Name and size of the one file of a single-file torrent.
pub open spec fn single_file(info: Map<Seq<u8>, Tree>) -> Result<(Seq<char>, int), Error> {
    match length_of(info) {
        Err(e) => Err(e),
        Ok(size) => if !info.contains_key(ascii("name"@)) {
            Err(Error::NoName)
        } else {
            match info[ascii("name"@)] {
                Tree::Bytes(b) => if valid_utf8(b) {
                    Ok((decode_utf8(b), size))
                } else {
                    Err(Error::Utf8)
                },
                _ => Err(Error::NameNoStr),
            }
        },
    }
}

/// The files of a metainfo tree.
pub open spec fn tree_files(root: Tree) -> Result<Seq<(Seq<char>, int)>, Error> {
    match root {
        Tree::Dict(m) => if m.contains_key(ascii("info"@)) && m[ascii("info"@)] is Dict {
            let info = m[ascii("info"@)]->Dict_0;
            if info.contains_key(ascii("files"@)) {
                match info[ascii("files"@)] {
                    Tree::List(entries) => entry_files(entries),
                    _ => Err(Error::FilesNoList),
                }
            } else {
                match single_file(info) {
                    Ok(f) => Ok(seq![f]),
                    Err(e) => Err(e),
                }
            }
        } else {
            Err(Error::NoInfo)
        },
        _ => Err(Error::NoDict),
    }
}

/// The files of a metainfo file: one for a single-file torrent, else one
/// for each entry of `info.files`.
pub open spec fn files_of(data: Seq<u8>) -> Result<Seq<(Seq<char>, int)>, Error> {
    match read(data) {
        None => Err(Error::Bencode),
        Some(root) => tree_files(root),
    }
}

/// Names and sizes as mathematical values.
pub open spec fn files_view(files: Seq<(String, i64)>) -> Seq<(Seq<char>, int)> {
    Seq::new(files.len(), |i: int| (files[i].0@, files[i].1 as int))
}

/// The tree of a metainfo file after the rewrite: `announce` and `comment`
/// set, `announce-list` gone, all else as it was.
pub open spec fn rewritten_tree(m: Map<Seq<u8>, Tree>, announce_url: Seq<u8>, comment: Seq<u8>) -> Tree {
    Tree::Dict(
        m.insert(ascii("announce"@), Tree::Bytes(announce_url)).insert(
            ascii("comment"@),
            Tree::Bytes(comment),
        ).remove(ascii("announce-list"@)),
    )
}

/// The rewritten metainfo file.
pub open spec fn rewrite_of(data: Seq<u8>, announce_url: Seq<u8>, comment: Seq<u8>) -> Result<
    Seq<u8>,
    Error,
> {
    match read(data) {
        None => Err(Error::Bencode),
        Some(Tree::Dict(m)) => Ok(bencoded(rewritten_tree(m, announce_url, comment))),
        Some(_) => Err(Error::NoDict),
    }
}

/// Computes the info hash of a metainfo file.
pub fn info_hash(data: &[u8]) -> (r: Result<Vec<u8>, Error>)
    ensures
        match r {
            Ok(h) => info_hash_of(data@) == Ok::<Seq<u8>, Error>(h@) && h@.len() == 20,
            Err(e) => info_hash_of(data@) == Err::<Seq<u8>, Error>(e),
        },
{
    let root = match crate::bencode::decode(data) {
        Some(root) => root,
        None => return Err(Error::Bencode),
    };
    proof {
        reveal_strlit("info");
    }
    match &root {
        Bencode::Dict(entries) => match dict_get(entries, ascii_bytes("info")) {
            Some(info) => {
                proof {
                    lemma_flat_more(*info, (MAX_DEPTH - 1) as nat, MAX_DEPTH as nat);
                }
                let bytes = crate::bencode::encode(info);
                Ok(sha1_digest(bytes.as_slice()))
            },
            None => Err(Error::NoInfo),
        },
        _ => Err(Error::NoDict),
    }
}

fn path_name(parts: &Vec<Bencode>) -> (r: Result<String, Error>)
    ensures
        match r {
            Ok(name) => path_text(list_view(parts@)) == Ok::<Seq<char>, Error>(name@),
            Err(e) => path_text(list_view(parts@)) == Err::<Seq<char>, Error>(e),
        },
{
    let mut name = String::new();
    let mut first = true;
    let mut i: usize = 0;
    proof {
        reveal_strlit("/");
        assert(list_view(parts@).take(0) =~= Seq::empty());
    }
    while i < parts.len()
        invariant
            i <= parts.len(),
            "/"@ == seq!['/'],
            first ==> name@.len() == 0 && joined(list_view(parts@).take(i as int)) == Ok::<
                Seq<char>,
                Error,
            >(Seq::empty()),
            !first ==> joined(list_view(parts@).take(i as int)) == Ok::<Seq<char>, Error>(
                seq!['/'] + name@,
            ),
        decreases parts.len() - i,
    {
        let ghost all = list_view(parts@);
        proof {
            assert(all.take(i + 1).drop_last() =~= all.take(i as int));
            assert(all.take(i + 1).last() == view_of(parts@[i as int]));
        }
        match &parts[i] {
            Bencode::Bytes(b) => {
                match text_of(b.as_slice()) {
                    Some(text) => {
                        if first {
                            name.append(text.as_str());
                            first = false;
                            assert(seq!['/'] + name@ =~= Seq::<char>::empty() + seq!['/']
                                + decode_utf8(b@));
                        } else {
                            let ghost before = name@;
                            name.append("/");
                            name.append(text.as_str());
                            assert(seq!['/'] + name@ =~= (seq!['/'] + before) + seq!['/']
                                + decode_utf8(b@));
                        }
                    },
                    None => {
                        proof {
                            lemma_joined_fails(all, i + 1);
                        }
                        return Err(Error::Utf8);
                    },
                }
            },
            _ => {},
        }
        i += 1;
    }
    proof {
        assert(list_view(parts@).take(parts.len() as int) =~= list_view(parts@));
    }
    if first {
        Err(Error::EmptyPath)
    } else {
        assert((seq!['/'] + name@).skip(1) =~= name@);
        Ok(name)
    }
}

/// Once a prefix of the components cannot be joined, no longer one can.
proof fn lemma_joined_fails(parts: Seq<Tree>, n: int)
    requires
        0 <= n <= parts.len(),
        joined(parts.take(n)) is Err,
    ensures
        joined(parts) == joined(parts.take(n)),
    decreases parts.len() - n,
{
    if n < parts.len() {
        assert(parts.take(n + 1).drop_last() =~= parts.take(n));
        lemma_joined_fails(parts, n + 1);
    } else {
        assert(parts.take(n) =~= parts);
    }
}

/// Once a prefix of the entries cannot be read, no longer one can.
proof fn lemma_entries_fail(entries: Seq<Tree>, n: int)
    requires
        0 <= n <= entries.len(),
        entry_files(entries.take(n)) is Err,
    ensures
        entry_files(entries) == entry_files(entries.take(n)),
    decreases entries.len() - n,
{
    if n < entries.len() {
        assert(entries.take(n + 1).drop_last() =~= entries.take(n));
        lemma_entries_fail(entries, n + 1);
    } else {
        assert(entries.take(n) =~= entries);
    }
}

fn length(entries: &Vec<(Vec<u8>, Bencode)>) -> (r: Result<i64, Error>)
    ensures
        match r {
            Ok(n) => length_of(dict_view(entries@)) == Ok::<int, Error>(n as int),
            Err(e) => length_of(dict_view(entries@)) == Err::<int, Error>(e),
        },
{
    proof {
        reveal_strlit("length");
    }
    match dict_get(entries, ascii_bytes("length")) {
        None => Err(Error::NoLength),
        Some(Bencode::Int(n)) => Ok(*n),
        Some(_) => Err(Error::LengthNoInt),
    }
}

fn file_entry(entry: &Bencode) -> (r: Result<(String, i64), Error>)
    ensures
        match r {
            Ok(f) => entry_file(view_of(*entry)) == Ok::<(Seq<char>, int), Error>(
                (f.0@, f.1 as int),
            ),
            Err(e) => entry_file(view_of(*entry)) == Err::<(Seq<char>, int), Error>(e),
        },
{
    proof {
        reveal_strlit("path");
    }
    match entry {
        Bencode::Dict(d) => {
            let size = match length(d) {
                Ok(size) => size,
                Err(e) => return Err(e),
            };
            match dict_get(d, ascii_bytes("path")) {
                None => Err(Error::NoPath),
                Some(Bencode::List(parts)) => match path_name(parts) {
                    Ok(name) => Ok((name, size)),
                    Err(e) => Err(e),
                },
                Some(_) => Err(Error::PathNoList),
            }
        },
        _ => Err(Error::FileNoDict),
    }
}

fn single(info: &Vec<(Vec<u8>, Bencode)>) -> (r: Result<(String, i64), Error>)
    ensures
        match r {
            Ok(f) => single_file(dict_view(info@)) == Ok::<(Seq<char>, int), Error>(
                (f.0@, f.1 as int),
            ),
            Err(e) => single_file(dict_view(info@)) == Err::<(Seq<char>, int), Error>(e),
        },
{
    proof {
        reveal_strlit("name");
    }
    let size = match length(info) {
        Ok(size) => size,
        Err(e) => return Err(e),
    };
    match dict_get(info, ascii_bytes("name")) {
        None => Err(Error::NoName),
        Some(Bencode::Bytes(b)) => match text_of(b.as_slice()) {
            Some(name) => Ok((name, size)),
            None => Err(Error::Utf8),
        },
        Some(_) => Err(Error::NameNoStr),
    }
}

/// Lists the files of a decoded metainfo file.
pub fn files_in(root: &Bencode) -> (r: Result<Vec<(String, i64)>, Error>)
    ensures
        match r {
            Ok(files) => tree_files(view_of(*root)) == Ok::<Seq<(Seq<char>, int)>, Error>(
                files_view(files@),
            ),
            Err(e) => tree_files(view_of(*root)) == Err::<Seq<(Seq<char>, int)>, Error>(e),
        },
{
    proof {
        reveal_strlit("info");
        reveal_strlit("files");
    }
    let top = match root {
        Bencode::Dict(top) => top,
        _ => return Err(Error::NoDict),
    };
    let info = match dict_get(top, ascii_bytes("info")) {
        Some(Bencode::Dict(info)) => info,
        _ => return Err(Error::NoInfo),
    };
    match dict_get(info, ascii_bytes("files")) {
        Some(Bencode::List(entries)) => {
            let mut files: Vec<(String, i64)> = Vec::new();
            let mut i: usize = 0;
            let ghost all = list_view(entries@);
            proof {
                assert(all.take(0) =~= Seq::empty());
                assert(files_view(files@) =~= Seq::empty());
            }
            while i < entries.len()
                invariant
                    i <= entries.len(),
                    all == list_view(entries@),
                    tree_files(view_of(*root)) == entry_files(all),
                    entry_files(all.take(i as int)) == Ok::<Seq<(Seq<char>, int)>, Error>(
                        files_view(files@),
                    ),
                decreases entries.len() - i,
            {
                proof {
                    assert(all.take(i + 1).drop_last() =~= all.take(i as int));
                    assert(all.take(i + 1).last() == view_of(entries@[i as int]));
                }
                match file_entry(&entries[i]) {
                    Ok(f) => {
                        let ghost before = files_view(files@);
                        let ghost item = (f.0@, f.1 as int);
                        files.push(f);
                        assert(files_view(files@) =~= before.push(item));
                    },
                    Err(e) => {
                        proof {
                            lemma_entries_fail(all, i + 1);
                        }
                        return Err(e);
                    },
                }
                i += 1;
            }
            proof {
                assert(all.take(entries.len() as int) =~= all);
            }
            Ok(files)
        },
        None => match single(info) {
            Ok(f) => {
                let ghost item = (f.0@, f.1 as int);
                let mut files: Vec<(String, i64)> = Vec::new();
                files.push(f);
                assert(files_view(files@) =~= seq![item]);
                Ok(files)
            },
            Err(e) => Err(e),
        },
        Some(_) => Err(Error::FilesNoList),
    }
}

/// Lists the files of a metainfo file, each with its size.
pub fn files(data: &[u8]) -> (r: Result<Vec<(String, i64)>, Error>)
    ensures
        match r {
            Ok(files) => files_of(data@) == Ok::<Seq<(Seq<char>, int)>, Error>(files_view(files@)),
            Err(e) => files_of(data@) == Err::<Seq<(Seq<char>, int)>, Error>(e),
        },
{
    match crate::bencode::decode(data) {
        Some(root) => files_in(&root),
        None => Err(Error::Bencode),
    }
}

/// Sets `announce` and `comment` of a metainfo file and drops its
/// `announce-list`. The info dictionary is untouched, so the rewritten file
/// has the info hash and the files of the one it was made from.
pub fn rewrite(data: &[u8], announce_url: &str, comment: &str) -> (r: Result<Vec<u8>, Error>)
    ensures
        match r {
            Ok(out) => {
                &&& rewrite_of(data@, announce_url.spec_bytes(), comment.spec_bytes()) == Ok::<
                    Seq<u8>,
                    Error,
                >(out@)
                &&& info_hash_of(out@) == info_hash_of(data@)
                &&& files_of(out@) == files_of(data@)
            },
            Err(e) => rewrite_of(data@, announce_url.spec_bytes(), comment.spec_bytes()) == Err::<
                Seq<u8>,
                Error,
            >(e),
        },
{
    let root = match crate::bencode::decode(data) {
        Some(root) => root,
        None => return Err(Error::Bencode),
    };
    proof {
        reveal_strlit("info");
        reveal_strlit("announce");
        reveal_strlit("comment");
        reveal_strlit("announce-list");
    }
    match root {
        Bencode::Dict(mut entries) => {
            let ghost before = dict_view(entries@);
            assert(entries_flat(entries@, (MAX_DEPTH - 1) as nat));
            dict_insert(
                &mut entries,
                copy_bytes(ascii_bytes("announce")),
                Bencode::Bytes(copy_bytes(announce_url.as_bytes())),
            );
            dict_insert(
                &mut entries,
                copy_bytes(ascii_bytes("comment")),
                Bencode::Bytes(copy_bytes(comment.as_bytes())),
            );
            dict_remove(&mut entries, ascii_bytes("announce-list"));
            assert(entries_flat(entries@, (MAX_DEPTH - 1) as nat));
            let tree = Bencode::Dict(entries);
            let out = crate::bencode::encode(&tree);
            proof {
                let after = dict_view(entries@);
                let info = ascii("info"@);
                assert(info.len() == 4);
                assert(ascii("announce"@).len() == 8);
                assert(ascii("comment"@).len() == 7);
                assert(ascii("announce-list"@).len() == 13);
                assert(after.contains_key(info) == before.contains_key(info));
                assert(before.contains_key(info) ==> after[info] == before[info]);
            }
            Ok(out)
        },
        _ => Err(Error::NoDict),
    }
}

} // verus!
