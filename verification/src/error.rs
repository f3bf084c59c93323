//! The failures that the library reports, and the text that a client sees
//! for each.

use vstd::prelude::*;

verus! {

/// The four kinds of failure that a tracker request can end in, and one
/// for metainfo files.
#[derive(Debug, Clone, Copy, PartialEq, Eq, Structural)]
pub enum ErrorKind {
    /// A required part of the request is missing or cannot be read.
    MalformedRequest,
    /// No user has the passcode of the announce.
    InvalidPasscode,
    /// No torrent has the info hash of the announce.
    InvalidInfoHash,
    /// The swarm state could not be brought up to date.
    StorageFailure,
    /// A metainfo file is not what it should be.
    Metainfo,
    /// A request to the site cannot be served.
    Site,
}

/// Every failure of the library.
#[derive(Debug, Clone, Copy, PartialEq, Eq, Structural)]
pub enum Error {
    /// The bytes are not bencode.
    Bencode,
    /// The metainfo file is not a dictionary.
    NoDict,
    /// The metainfo file has no `info` dictionary.
    NoInfo,
    /// An entry of `files` is not a dictionary.
    FileNoDict,
    /// A file has no `length`.
    NoLength,
    /// A file's `length` is not an integer.
    LengthNoInt,
    /// A file has no `path`.
    NoPath,
    /// A file's `path` is not a list.
    PathNoList,
    /// A file's `path` names nothing.
    EmptyPath,
    /// A single-file torrent has no `name`.
    NoName,
    /// A single-file torrent's `name` is not a byte string.
    NameNoStr,
    /// `files` is not a list.
    FilesNoList,
    /// A name is not well-formed UTF-8.
    Utf8,
    /// The request has no query string.
    NoQuery,
    /// The query lacks `info_hash`.
    NoInfoHash,
    /// The query lacks `peer_id`.
    NoPeerId,
    /// The query lacks `port`.
    NoPort,
    /// The query lacks `uploaded`.
    NoUploaded,
    /// The query lacks `downloaded`.
    NoDownloaded,
    /// The query lacks `left`.
    NoLeft,
    /// A number in the query cannot be read.
    BadNumber,
    /// `event` is none of `started`, `stopped`, `completed`.
    BadEvent,
    /// The transport gave no source address.
    NoAddress,
    /// The path has no passcode.
    NoPasscode,
    /// The passcode is not lowercase hexadecimal text.
    BadPasscode,
    /// The request has no `User-Agent` header.
    NoUserAgent,
    /// A scrape names no info hash.
    NoInfoHashes,
    /// No user has the passcode.
    InvalidPasscode,
    /// No torrent has the info hash.
    InvalidInfoHash,
    /// A counter would leave the range in which it is stored.
    CounterRange,
    /// A new row has the identifier of a row that is there already.
    DuplicateKey,
    /// No room of the chat has the number.
    NoChatroom,
    /// A row that is asked for is not there.
    NotFound,
    /// The user may not do what is asked.
    NotAllowed,
    /// A payload is longer than a frame can hold.
    FrameTooLong,
    /// A name for a user is not well-formed.
    BadUsername,
    /// An address for mail is not well-formed.
    BadEmail,
    /// A password and its confirmation differ.
    PasswordMismatch,
    /// A password is too short.
    BadPassword,
    /// The name is that of another user.
    UsernameTaken,
    /// The address for mail is that of another user.
    EmailTaken,
    /// The user is not in good standing.
    NotActive,
    /// The password is not that of the user.
    WrongPassword,
    /// The torrent is not there.
    NoTorrent,
    /// The torrent has no metainfo file.
    NoMetaFile,
    /// The torrent has no description file.
    NoNfoFile,
    /// The user is not there.
    NoUser,
    /// No user waits to be confirmed under the identifier.
    NoConfirmation,
    /// The category is not there.
    NoCategory,
    /// The group that new users get is not there.
    NoGroup,
}

impl Error {
    /// The kind that a failure belongs to.
    pub open spec fn spec_kind(self) -> ErrorKind {
        match self {
            Error::Bencode | Error::NoDict | Error::NoInfo | Error::FileNoDict | Error::NoLength
            | Error::LengthNoInt | Error::NoPath | Error::PathNoList | Error::EmptyPath
            | Error::NoName | Error::NameNoStr | Error::FilesNoList | Error::Utf8 => {
                ErrorKind::Metainfo
            },
            Error::NoQuery | Error::NoInfoHash | Error::NoPeerId | Error::NoPort
            | Error::NoUploaded | Error::NoDownloaded | Error::NoLeft | Error::BadNumber
            | Error::BadEvent | Error::NoAddress | Error::NoPasscode | Error::BadPasscode
            | Error::NoUserAgent | Error::NoInfoHashes => ErrorKind::MalformedRequest,
            Error::InvalidPasscode => ErrorKind::InvalidPasscode,
            Error::InvalidInfoHash => ErrorKind::InvalidInfoHash,
            Error::CounterRange | Error::DuplicateKey => ErrorKind::StorageFailure,
            Error::NoChatroom | Error::NotFound | Error::NotAllowed | Error::FrameTooLong
            | Error::BadUsername | Error::BadEmail | Error::PasswordMismatch | Error::BadPassword
            | Error::UsernameTaken | Error::EmailTaken | Error::NotActive
            | Error::WrongPassword | Error::NoTorrent | Error::NoMetaFile | Error::NoNfoFile
            | Error::NoUser | Error::NoConfirmation | Error::NoCategory | Error::NoGroup => ErrorKind::Site,
        }
    }

    /// The kind that a failure belongs to.
    pub fn kind(&self) -> (k: ErrorKind)
        ensures
            k == self.spec_kind(),
    {
        match self {
            Error::Bencode | Error::NoDict | Error::NoInfo | Error::FileNoDict | Error::NoLength
            | Error::LengthNoInt | Error::NoPath | Error::PathNoList | Error::EmptyPath
            | Error::NoName | Error::NameNoStr | Error::FilesNoList | Error::Utf8 => {
                ErrorKind::Metainfo
            },
            Error::NoQuery | Error::NoInfoHash | Error::NoPeerId | Error::NoPort
            | Error::NoUploaded | Error::NoDownloaded | Error::NoLeft | Error::BadNumber
            | Error::BadEvent | Error::NoAddress | Error::NoPasscode | Error::BadPasscode
            | Error::NoUserAgent | Error::NoInfoHashes => ErrorKind::MalformedRequest,
            Error::InvalidPasscode => ErrorKind::InvalidPasscode,
            Error::InvalidInfoHash => ErrorKind::InvalidInfoHash,
            Error::CounterRange | Error::DuplicateKey => ErrorKind::StorageFailure,
            Error::NoChatroom | Error::NotFound | Error::NotAllowed | Error::FrameTooLong
            | Error::BadUsername | Error::BadEmail | Error::PasswordMismatch | Error::BadPassword
            | Error::UsernameTaken | Error::EmailTaken | Error::NotActive
            | Error::WrongPassword | Error::NoTorrent | Error::NoMetaFile | Error::NoNfoFile
            | Error::NoUser | Error::NoConfirmation | Error::NoCategory | Error::NoGroup => ErrorKind::Site,
        }
    }

    /// The text of a failure, as a client reads it.
    pub open spec fn spec_message(self) -> Seq<char> {
        match self {
            Error::Bencode => "invalid bencode"@,
            Error::NoDict => "meta file is no dict"@,
            Error::NoInfo => "info dict not found"@,
            Error::FileNoDict => "file entry is not a dict"@,
            Error::NoLength => "length not found in file dict"@,
            Error::LengthNoInt => "length is not an int"@,
            Error::NoPath => "path not found in file dict"@,
            Error::PathNoList => "path is not a list"@,
            Error::EmptyPath => "path is empty"@,
            Error::NoName => "name not found in file dict"@,
            Error::NameNoStr => "name is not a str"@,
            Error::FilesNoList => "files is not a list"@,
            Error::Utf8 => "invalid utf-8"@,
            Error::NoQuery => "no query"@,
            Error::NoInfoHash => "info_hash not in query"@,
            Error::NoPeerId => "peer_id not in query"@,
            Error::NoPort => "port not in query"@,
            Error::NoUploaded => "uploaded not in query"@,
            Error::NoDownloaded => "downloaded not in query"@,
            Error::NoLeft => "left not in query"@,
            Error::BadNumber => "invalid digit found in string"@,
            Error::BadEvent => "invalid event"@,
            Error::NoAddress => "could not get ip addr"@,
            Error::NoPasscode => "passcode not in query"@,
            Error::BadPasscode => "decode from hex failed"@,
            Error::NoUserAgent => "user agent header not found"@,
            Error::NoInfoHashes => "no info hashes provided"@,
            Error::InvalidPasscode => "invalid passcode"@,
            Error::InvalidInfoHash => "invalid info hash"@,
            Error::CounterRange => "counter out of range"@,
            Error::DuplicateKey => "duplicate key"@,
            Error::NoChatroom => "no chatroom with this id"@,
            Error::NotFound => "not found"@,
            Error::NotAllowed => "not allowed"@,
            Error::FrameTooLong => "frame too long"@,
            Error::BadUsername => "username is invalid"@,
            Error::BadEmail => "email address is invalid"@,
            Error::PasswordMismatch => "passwords do not match"@,
            Error::BadPassword => "password is invalid"@,
            Error::UsernameTaken => "username is already taken"@,
            Error::EmailTaken => "email address is already taken"@,
            Error::NotActive => "User not active"@,
            Error::WrongPassword => "Wrong password"@,
            Error::NoTorrent => "torrent not found"@,
            Error::NoMetaFile => "meta file not found"@,
            Error::NoNfoFile => "nfo file not found"@,
            Error::NoUser => "user not found"@,
            Error::NoConfirmation => "Confirm Id not found"@,
            Error::NoCategory => "category not found"@,
            Error::NoGroup => "default group not found"@,
        }
    }

    /// The text of a failure, as a client reads it.
    pub fn message(&self) -> (s: &'static str)
        ensures
            s@ == self.spec_message(),
    {
        match self {
            Error::Bencode => "invalid bencode",
            Error::NoDict => "meta file is no dict",
            Error::NoInfo => "info dict not found",
            Error::FileNoDict => "file entry is not a dict",
            Error::NoLength => "length not found in file dict",
            Error::LengthNoInt => "length is not an int",
            Error::NoPath => "path not found in file dict",
            Error::PathNoList => "path is not a list",
            Error::EmptyPath => "path is empty",
            Error::NoName => "name not found in file dict",
            Error::NameNoStr => "name is not a str",
            Error::FilesNoList => "files is not a list",
            Error::Utf8 => "invalid utf-8",
            Error::NoQuery => "no query",
            Error::NoInfoHash => "info_hash not in query",
            Error::NoPeerId => "peer_id not in query",
            Error::NoPort => "port not in query",
            Error::NoUploaded => "uploaded not in query",
            Error::NoDownloaded => "downloaded not in query",
            Error::NoLeft => "left not in query",
            Error::BadNumber => "invalid digit found in string",
            Error::BadEvent => "invalid event",
            Error::NoAddress => "could not get ip addr",
            Error::NoPasscode => "passcode not in query",
            Error::BadPasscode => "decode from hex failed",
            Error::NoUserAgent => "user agent header not found",
            Error::NoInfoHashes => "no info hashes provided",
            Error::InvalidPasscode => "invalid passcode",
            Error::InvalidInfoHash => "invalid info hash",
            Error::CounterRange => "counter out of range",
            Error::DuplicateKey => "duplicate key",
            Error::NoChatroom => "no chatroom with this id",
            Error::NotFound => "not found",
            Error::NotAllowed => "not allowed",
            Error::FrameTooLong => "frame too long",
            Error::BadUsername => "username is invalid",
            Error::BadEmail => "email address is invalid",
            Error::PasswordMismatch => "passwords do not match",
            Error::BadPassword => "password is invalid",
            Error::UsernameTaken => "username is already taken",
            Error::EmailTaken => "email address is already taken",
            Error::NotActive => "User not active",
            Error::WrongPassword => "Wrong password",
            Error::NoTorrent => "torrent not found",
            Error::NoMetaFile => "meta file not found",
            Error::NoNfoFile => "nfo file not found",
            Error::NoUser => "user not found",
            Error::NoConfirmation => "Confirm Id not found",
            Error::NoCategory => "category not found",
            Error::NoGroup => "default group not found",
        }
    }
}

} // verus!
