//! The forms for torrents, and the metainfo file that a user downloads.

use vstd::prelude::*;
use vstd::string::{StringExecFns, StringSliceAdditionalSpecFns};
use crate::error::Error;
use crate::handlers::torrent::Visible;
use crate::settings::Tracker;
use crate::util::{hex_text, same_text, to_hex};
use crate::util::torrent::{files_of, info_hash_of, rewrite, rewrite_of};

verus! {

/// What the list of torrents is asked to show, as the form for it is
/// filled in.
#[derive(Debug)]
pub struct ListForm {
    pub category: String,
    pub visible: String,
    pub name: String,
    pub page: i64,
}

impl ListForm {
    /// The choice that a word of the form stands for: the visible torrents
    /// where the word is none of `all`, `visible` and `dead`.
    pub open spec fn choice(word: Seq<char>) -> Visible {
        if word == "all"@ {
            Visible::All
        } else if word == "dead"@ {
            Visible::Invisible
        } else {
            Visible::Visible
        }
    }

    /// Which torrents the form asks for.
    pub fn visible(&self) -> (r: Visible)
        ensures
            r == Self::choice(self.visible@),
    {
        if same_text(self.visible.as_str(), "all") {
            Visible::All
        } else if same_text(self.visible.as_str(), "dead") {
            Visible::Invisible
        } else {
            Visible::Visible
        }
    }
}

/// The announce address of a user: that of the tracker, a `/`, and the
/// passcode of the user in hexadecimal.
pub open spec fn announce_url_of(base: Seq<char>, passcode: Seq<u8>) -> Seq<char> {
    base + seq!['/'] + hex_text(passcode)
}

/// Writes the announce address of a user.
pub fn announce_url(settings: &Tracker, passcode: &[u8]) -> (r: String)
    ensures
        r@ == announce_url_of(settings.announce_url@, passcode@),
{
    proof {
        reveal_strlit("/");
    }
    let mut url = settings.announce_url.clone();
    url.append("/");
    let hex = to_hex(passcode);
    url.append(hex.as_str());
    url
}

/// Makes the metainfo file that a user downloads: the stored file with the
/// announce address of the user and the comment of the tracker written into
/// it. It has the info hash and the files of the stored file.
pub fn download(meta_file: &[u8], settings: &Tracker, passcode: &[u8]) -> (r: Result<
    Vec<u8>,
    Error,
>)
    ensures
        match r {
            Ok(out) => {
                &&& rewrite_of(
                    meta_file@,
                    vstd::utf8::encode_utf8(announce_url_of(settings.announce_url@, passcode@)),
                    vstd::utf8::encode_utf8(settings.comment@),
                ) == Ok::<Seq<u8>, Error>(out@)
                &&& info_hash_of(out@) == info_hash_of(meta_file@)
                &&& files_of(out@) == files_of(meta_file@)
            },
            Err(e) => rewrite_of(
                meta_file@,
                vstd::utf8::encode_utf8(announce_url_of(settings.announce_url@, passcode@)),
                vstd::utf8::encode_utf8(settings.comment@),
            ) == Err::<Seq<u8>, Error>(e),
        },
{
    let url = announce_url(settings, passcode);
    rewrite(meta_file, url.as_str(), settings.comment.as_str())
}

} // verus!
