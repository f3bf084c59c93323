//! What the pages show of quoted text and of times.

use vstd::prelude::*;
use vstd::string::{StrSliceExecFns, StringExecFns};

verus! {

/// The place of the first line feed in a text, or the length of the text.
pub open spec fn line_end(text: Seq<char>) -> int
    decreases text.len(),
{
    if text.len() == 0 {
        0
    } else if text[0] == '\n' {
        0
    } else {
        1 + line_end(text.skip(1))
    }
}

/// `line_end` is the least place that holds a line feed.
pub proof fn lemma_line_end(text: Seq<char>)
    ensures
        0 <= line_end(text) <= text.len(),
        line_end(text) < text.len() ==> text[line_end(text)] == '\n',
        forall|i: int| 0 <= i < line_end(text) ==> text[i] != '\n',
    decreases text.len(),
{
    if text.len() > 0 && text[0] != '\n' {
        lemma_line_end(text.skip(1));
        assert forall|i: int| 0 <= i < line_end(text) implies text[i] != '\n' by {
            if i > 0 {
                assert(text.skip(1)[i - 1] == text[i]);
            }
        }
    }
}

/// A text as a quotation: every line of it behind a line feed and `> `. A
/// line ends at a line feed, which is left out, as is a carriage return
/// just before it; what stands behind the last line feed is a line too,
/// unless it is empty.
pub open spec fn quoted(text: Seq<char>) -> Seq<char>
    decreases text.len(),
{
    if text.len() == 0 {
        Seq::empty()
    } else {
        let end = line_end(text);
        let line = text.take(end);
        if 0 <= end < text.len() {
            let shown = if line.len() > 0 && line.last() == '\r' {
                line.drop_last()
            } else {
                line
            };
            seq!['\n', '>', ' '] + shown + quoted(text.skip(end + 1))
        } else {
            seq!['\n', '>', ' '] + line
        }
    }
}

/// Writes a text as a quotation.
pub fn quote(text: &str) -> (r: String)
    ensures
        r@ == quoted(text@),
{
    let n = text.unicode_len();
    let mut out = String::new();
    let mut pos: usize = 0;
    proof {
        reveal_strlit("\n> ");
        assert(text@.skip(0) =~= text@);
    }
    while pos < n
        invariant
            pos <= n,
            n == text@.len(),
            "\n> "@ == seq!['\n', '>', ' '],
            quoted(text@) == out@ + quoted(text@.skip(pos as int)),
        decreases n - pos,
    {
        let ghost rest = text@.skip(pos as int);
        let mut end = pos;
        while end < n && text.get_char(end) != '\n'
            invariant
                pos <= end <= n,
                n == text@.len(),
                forall|j: int| pos <= j < end ==> text@[j] != '\n',
            decreases n - end,
        {
            end += 1;
        }
        proof {
            lemma_line_end(rest);
            let e = line_end(rest);
            if e < end - pos {
                assert(rest[e] == text@[pos + e]);
            }
            if end - pos < e {
                assert(rest[end - pos] == text@[end as int]);
            }
            assert(e == end - pos);
            assert(rest.take(e) =~= text@.subrange(pos as int, end as int));
        }
        let ghost before = out@;
        out.append("\n> ");
        if end < n {
            let cut = if end > pos && text.get_char(end - 1) == '\r' {
                end - 1
            } else {
                end
            };
            out.append(text.substring_char(pos, cut));
            proof {
                let line = rest.take(end - pos);
                if end > pos {
                    assert(line.last() == text@[end - 1]);
                    assert(line.drop_last() =~= text@.subrange(pos as int, end - 1));
                }
                assert(rest.skip(end - pos + 1) =~= text@.skip(end + 1));
                assert(out@ + quoted(text@.skip(end + 1)) =~= before + quoted(rest));
            }
            pos = end + 1;
        } else {
            out.append(text.substring_char(pos, end));
            proof {
                assert(text@.skip(n as int) =~= Seq::empty());
                assert(out@ + quoted(text@.skip(n as int)) =~= before + quoted(rest));
            }
            pos = n;
        }
    }
    proof {
        assert(text@.skip(n as int) =~= Seq::empty());
        assert(out@ + Seq::<char>::empty() =~= out@);
    }
    out
}

/// The seconds since the epoch of the time that a text in the form of
/// RFC 3339 names, or nothing where the text is not of that form.
pub uninterp spec fn rfc3339_seconds(text: Seq<char>) -> Option<i64>;

/// The text `day.month.year hour:minute:second` of a time in a zone that
/// lies so many seconds east of UTC, or nothing where there is no such zone
/// or the time is out of the range of the calendar.
pub uninterp spec fn local_text(seconds: i64, east: i32) -> Option<Seq<char>>;

/// The text `day.month.year hour:minute:second UTC` of a time, or nothing
/// where the time is out of the range of the calendar.
pub uninterp spec fn utc_text(seconds: i64) -> Option<Seq<char>>;

/// `chrono::DateTime::parse_from_rfc3339`, and of the time that it gives
/// the seconds since the epoch.
#[verifier::external_body]
fn parse_rfc3339(text: &str) -> (r: Option<i64>)
    ensures
        r == rfc3339_seconds(text@),
{
    chrono::DateTime::parse_from_rfc3339(text).ok().map(|date| date.timestamp())
}

/// `chrono::DateTime::format` with `%d.%m.%Y %H:%M:%S`, on the time in
/// the zone that `chrono::FixedOffset::east_opt` gives.
#[verifier::external_body]
fn format_local(seconds: i64, east: i32) -> (r: Option<String>)
    ensures
        match r {
            Some(s) => local_text(seconds, east) == Some(s@),
            None => local_text(seconds, east).is_none(),
        },
{
    let zone = chrono::FixedOffset::east_opt(east)?;
    let date = chrono::DateTime::from_timestamp(seconds, 0)?;
    Some(date.with_timezone(&zone).format("%d.%m.%Y %H:%M:%S").to_string())
}

/// `chrono::DateTime::format` with `%d.%m.%Y %H:%M:%S UTC`, on the time
/// in UTC.
#[verifier::external_body]
fn format_utc(seconds: i64) -> (r: Option<String>)
    ensures
        match r {
            Some(s) => utc_text(seconds) == Some(s@),
            None => utc_text(seconds).is_none(),
        },
{
    let date = chrono::DateTime::from_timestamp(seconds, 0)?;
    Some(date.format("%d.%m.%Y %H:%M:%S UTC").to_string())
}

/// What is shown for a time that was read from a text: the time in the
/// zone where one is given and there is such a zone, else in UTC and
/// marked so.
pub open spec fn shown_time(seconds: i64, timezone: Option<i32>) -> Option<Seq<char>> {
    match timezone {
        Some(east) => match local_text(seconds, east) {
            Some(t) => Some(t),
            None => utc_text(seconds),
        },
        None => utc_text(seconds),
    }
}

/// What is shown for a date: `---` for none; a text that names no time as
/// it is; else the time as [`shown_time`] says.
pub open spec fn date_text(value: Option<Seq<char>>, timezone: Option<i32>) -> Seq<char> {
    match value {
        None => "---"@,
        Some(text) => match rfc3339_seconds(text) {
            None => text,
            Some(seconds) => match shown_time(seconds, timezone) {
                Some(t) => t,
                None => text,
            },
        },
    }
}

/// Writes a time that was read from a text: see [`shown_time`].
pub fn format_time(seconds: i64, timezone: Option<i32>) -> (r: Option<String>)
    ensures
        match r {
            Some(s) => shown_time(seconds, timezone) == Some(s@),
            None => shown_time(seconds, timezone).is_none(),
        },
{
    match timezone {
        Some(east) => match format_local(seconds, east) {
            Some(t) => Some(t),
            None => format_utc(seconds),
        },
        None => format_utc(seconds),
    }
}

/// Writes a date as the pages show it: see [`date_text`].
pub fn format_date(value: Option<&str>, timezone: Option<i32>) -> (r: String)
    ensures
        r@ == date_text(
            match value {
                Some(v) => Some(v@),
                None => None,
            },
            timezone,
        ),
{
    let text = match value {
        Some(text) => text,
        None => return "---".to_owned(),
    };
    match parse_rfc3339(text) {
        None => text.to_owned(),
        Some(seconds) => match format_time(seconds, timezone) {
            Some(t) => t,
            None => text.to_owned(),
        },
    }
}

/// The HTML that a text in Markdown is turned into.
pub uninterp spec fn markdown_html(text: Seq<char>) -> Seq<char>;

/// `markdown::to_html`, which turns every text into HTML.
#[verifier::external_body]
fn markdown_to_html(text: &str) -> (r: String)
    ensures
        r@ == markdown_html(text@),
{
    markdown::to_html(text)
}

/// Turns a text in Markdown into HTML.
pub fn markdown(text: &str) -> (r: String)
    ensures
        r@ == markdown_html(text@),
{
    markdown_to_html(text)
}

} // verus!
