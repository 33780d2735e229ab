//! Reading the two playlists that describe a video, and the time of its
//! broadcast.

use crate::errors::{DownloadError, MalformedPlaylistError, PlaylistParseError};
use crate::text::{
    contains, find, find_in, from_chars, includes, lines, occurs_at, split_lines, starts_with,
    strip_prefix, subvec, to_chars, trim, trim_matches, trimmed, trimmed_by, views,
    without_prefix, Cut, matches_at,
};
use vstd::prelude::*;

verus! {

/// The seconds from the start of 1970 to the date and time that `text` gives
/// when `chrono` reads it by `format`; nothing where `chrono` refuses it.
pub uninterp spec fn naive_datetime_seconds(text: Seq<char>, format: Seq<char>) -> Option<int>;

/// `chrono::NaiveDateTime::parse_from_str`, the date taken as UTC and given as
/// seconds since the start of 1970. What it returns depends on the two texts
/// alone; nothing more is claimed of it.
#[verifier::external_body]
fn parse_naive_datetime(text: &str, format: &str) -> (parsed: Result<i64, chrono::ParseError>)
    ensures
        parsed is Ok <==> naive_datetime_seconds(text@, format@) is Some,
        parsed matches Ok(seconds) ==> naive_datetime_seconds(text@, format@) == Some(
            seconds as int,
        ),
{
    match chrono::NaiveDateTime::parse_from_str(text, format) {
        Ok(date) => Ok(date.and_utc().timestamp()),
        Err(error) => Err(error),
    }
}

/// `chrono::Utc::now`, as seconds since the start of 1970 and the nanoseconds
/// into the running second. Nothing is known of the result.
#[verifier::external_body]
fn utc_now() -> (now: (i64, u32)) {
    let now = chrono::Utc::now();
    (now.timestamp(), now.timestamp_subsec_nanos())
}

/// The form in which a playlist writes the time of the broadcast.
pub open spec fn date_format() -> Seq<char> {
    "%Y-%m-%dT%H:%M:%S"@
}

/// The date inside `text`: `text` without the white space around it, then
/// without the double quotes around that.
pub open spec fn date_text(text: Seq<char>) -> Seq<char> {
    trim_matches(trim(text), '"')
}

/// Reads a date such as `2023-10-07T23:33:29`, which white space and double
/// quotes may surround, as seconds since the start of 1970 (UTC).
pub fn convert_twitch_date(date: &str) -> (seconds: Result<i64, PlaylistParseError>)
    ensures
        match naive_datetime_seconds(date_text(date@), date_format()) {
            Some(at) => seconds matches Ok(s) && s == at,
            None => seconds matches Err(PlaylistParseError::InvalidTimeFormat(_)),
        },
{
    let chars = to_chars(date);
    let inner = from_chars(&trimmed_by(&trimmed(&chars), Cut::Char('"')));
    match parse_naive_datetime(inner.as_str(), "%Y-%m-%dT%H:%M:%S") {
        Ok(seconds) => Ok(seconds),
        Err(error) => Err(PlaylistParseError::InvalidTimeFormat(error)),
    }
}

/// The whole seconds from `then` to the moment `now_nanos` nanoseconds after
/// `now_seconds`, a part of a second being dropped.
pub open spec fn whole_seconds_between(now_seconds: int, now_nanos: int, then: int) -> int {
    let seconds = now_seconds - then;
    if seconds < 0 && now_nanos > 0 {
        seconds + 1
    } else {
        seconds
    }
}

/// The whole hours in `seconds`, a part of an hour being dropped.
pub open spec fn whole_hours(seconds: int) -> int {
    if seconds >= 0 {
        seconds / 3600
    } else {
        -((-seconds) / 3600)
    }
}

/// The age in whole hours, at the given moment, of what was broadcast at
/// `then`; negative where `then` lies ahead.
pub open spec fn age_hours(now_seconds: int, now_nanos: int, then: int) -> int {
    whole_hours(whole_seconds_between(now_seconds, now_nanos, then))
}

/// The age as the machine holds it: `age_hours` cut to a `usize`, so that a
/// negative age becomes a very large one.
pub open spec fn age_at(now_seconds: i64, now_nanos: u32, then: int) -> usize {
    #[verifier::truncate]
    (age_hours(now_seconds as int, now_nanos as int, then) as usize)
}

pub fn age_in_hours(now_seconds: i64, now_nanos: u32, then: i64) -> (age: usize)
    ensures
        age == age_at(now_seconds, now_nanos, then as int),
{
    let difference: i128 = now_seconds as i128 - then as i128;
    let seconds: i128 = if difference < 0 && now_nanos > 0 {
        difference + 1
    } else {
        difference
    };
    let hours: i128 = if seconds >= 0 {
        seconds / 3600
    } else {
        -((-seconds) / 3600)
    };
    hours as usize
}

/// A key with what stands for it: a segment's reference with the text of its
/// duration, or a quality's label with the address of its playlist.
pub type Pair = (Seq<char>, Seq<char>);

/// The texts of the pairs held in `entries`.
pub open spec fn pairs(entries: Seq<(String, String)>) -> Seq<Pair> {
    entries.map_values(|entry: (String, String)| (entry.0@, entry.1@))
}

/// The first index from `from` on whose pair has the key `key`.
pub open spec fn position(entries: Seq<Pair>, key: Seq<char>, from: int) -> Option<int>
    decreases entries.len() - from,
{
    if from < 0 || from >= entries.len() {
        None
    } else if entries[from].0 == key {
        Some(from)
    } else {
        position(entries, key, from + 1)
    }
}

/// `entries` with `value` standing for `key`: in the place of the pair that
/// had the key, or at the end where none had it.
pub open spec fn put(entries: Seq<Pair>, key: Seq<char>, value: Seq<char>) -> Seq<Pair> {
    match position(entries, key, 0) {
        Some(at) => entries.update(at, (key, value)),
        None => entries.push((key, value)),
    }
}

/// Whether no two pairs of `entries` have one key.
pub open spec fn distinct_keys(entries: Seq<Pair>) -> bool {
    forall|i: int, j: int|
        0 <= i < j < entries.len() ==> (#[trigger] entries[i]).0 != (#[trigger] entries[j]).0
}

pub proof fn lemma_position(entries: Seq<Pair>, key: Seq<char>, from: int)
    requires
        0 <= from,
    ensures
        match position(entries, key, from) {
            Some(at) => from <= at < entries.len() && entries[at].0 == key && forall|i: int|
                from <= i < at ==> (#[trigger] entries[i]).0 != key,
            None => forall|i: int| from <= i < entries.len() ==> (#[trigger] entries[i]).0 != key,
        },
    decreases entries.len() - from,
{
    if from < entries.len() && entries[from].0 != key {
        lemma_position(entries, key, from + 1);
    }
}

/// Putting a pair keeps the keys distinct.
pub proof fn lemma_put_keeps_distinct(entries: Seq<Pair>, key: Seq<char>, value: Seq<char>)
    requires
        distinct_keys(entries),
    ensures
        distinct_keys(put(entries, key, value)),
{
    lemma_position(entries, key, 0);
    let after = put(entries, key, value);
    assert forall|i: int, j: int| 0 <= i < j < after.len() implies (#[trigger] after[i]).0 != (
    #[trigger] after[j]).0 by {
        match position(entries, key, 0) {
            Some(at) => {
                assert(after[i].0 == entries[i].0);
                assert(after[j].0 == entries[j].0);
            },
            None => {
                if j < entries.len() {
                    assert(after[i] == entries[i] && after[j] == entries[j]);
                } else {
                    assert(after[i] == entries[i]);
                }
            },
        }
    }
}

pub fn position_in(entries: &Vec<(String, String)>, key: &String) -> (at: Option<usize>)
    ensures
        match at {
            Some(i) => position(pairs(entries@), key@, 0) == Some(i as int) && i < entries.len(),
            None => position(pairs(entries@), key@, 0) is None,
        },
{
    let mut i: usize = 0;
    while i < entries.len()
        invariant
            i <= entries.len(),
            position(pairs(entries@), key@, 0) == position(pairs(entries@), key@, i as int),
        decreases entries.len() - i,
    {
        assert(pairs(entries@)[i as int].0 == entries@[i as int].0@);
        if entries[i].0 == *key {
            return Some(i);
        }
        i += 1;
    }
    None
}

pub fn put_pair(entries: &mut Vec<(String, String)>, key: String, value: String)
    ensures
        pairs(final(entries)@) == put(pairs(old(entries)@), key@, value@),
{
    match position_in(entries, &key) {
        Some(at) => {
            assert(pairs(entries@.update(at as int, (key, value))) =~= pairs(entries@).update(
                at as int,
                (key@, value@),
            ));
            entries.set(at, (key, value));
        },
        None => {
            assert(pairs(entries@.push((key, value))) =~= pairs(entries@).push((key@, value@)));
            entries.push((key, value));
        },
    }
}

/// What a media playlist holds: when the video was broadcast, in seconds
/// since the start of 1970, where it says so; and its segments in the order in
/// which their references first come, each with the text of its duration.
pub struct PlaylistScan {
    pub date: Option<int>,
    pub segments: Seq<Pair>,
}

/// Why the text is no media playlist.
pub enum ScanFault {
    /// The text ends where a line was still owed.
    Eof,
    /// A line gives the time of the broadcast in a form that is not a date.
    InvalidTimeFormat,
}

impl PlaylistParseError {
    pub open spec fn fault(self) -> ScanFault {
        match self {
            PlaylistParseError::Eof => ScanFault::Eof,
            PlaylistParseError::InvalidTimeFormat(_) => ScanFault::InvalidTimeFormat,
        }
    }
}

pub open spec fn date_tag() -> Seq<char> {
    "#ID3-EQUIV-TDTG:"@
}

pub open spec fn duration_tag() -> Seq<char> {
    "#EXTINF:"@
}

pub open spec fn byte_range_tag() -> Seq<char> {
    "#EXT-X-BYTERANGE:"@
}

/// Reads the lines from index `from` on into `scan`. A line that starts with
/// the date tag sets the date. A line that starts with the duration tag is
/// followed by the segment's reference, before which one byte range line may
/// stand; the reference is put with the duration. Other lines are passed over.
pub open spec fn scan_lines(lines: Seq<Seq<char>>, from: int, scan: PlaylistScan) -> Result<
    PlaylistScan,
    ScanFault,
>
    decreases lines.len() - from,
{
    if from < 0 || from >= lines.len() {
        Ok(scan)
    } else if strip_prefix(lines[from], date_tag()) is Some {
        let written = strip_prefix(lines[from], date_tag())->0;
        match naive_datetime_seconds(date_text(trim(written)), date_format()) {
            Some(at) => scan_lines(
                lines,
                from + 1,
                PlaylistScan { date: Some(at), segments: scan.segments },
            ),
            None => Err(ScanFault::InvalidTimeFormat),
        }
    } else if strip_prefix(lines[from], duration_tag()) is Some {
        let duration = trim_matches(strip_prefix(lines[from], duration_tag())->0, ',');
        let next = if from + 1 < lines.len() && starts_with(lines[from + 1], byte_range_tag()) {
            from + 2
        } else {
            from + 1
        };
        if next >= lines.len() {
            Err(ScanFault::Eof)
        } else {
            scan_lines(
                lines,
                next + 1,
                PlaylistScan {
                    date: scan.date,
                    segments: put(scan.segments, trim(lines[next]), duration),
                },
            )
        }
    } else {
        scan_lines(lines, from + 1, scan)
    }
}

/// What the media playlist `text` holds.
pub open spec fn scan_text(text: Seq<char>) -> Result<PlaylistScan, ScanFault> {
    scan_lines(lines(text), 0, PlaylistScan { date: None, segments: Seq::empty() })
}

pub open spec fn seconds_of(date: Option<i64>) -> Option<int> {
    match date {
        Some(at) => Some(at as int),
        None => None,
    }
}

/// Scanning keeps the references distinct.
pub proof fn lemma_scan_lines_distinct(lines: Seq<Seq<char>>, from: int, scan: PlaylistScan)
    requires
        distinct_keys(scan.segments),
    ensures
        scan_lines(lines, from, scan) matches Ok(end) ==> distinct_keys(end.segments),
    decreases lines.len() - from,
{
    if from < 0 || from >= lines.len() {
    } else if strip_prefix(lines[from], date_tag()) is Some {
        let written = strip_prefix(lines[from], date_tag())->0;
        match naive_datetime_seconds(date_text(trim(written)), date_format()) {
            Some(at) => {
                lemma_scan_lines_distinct(
                    lines,
                    from + 1,
                    PlaylistScan { date: Some(at), segments: scan.segments },
                );
            },
            None => {},
        }
    } else if strip_prefix(lines[from], duration_tag()) is Some {
        let duration = trim_matches(strip_prefix(lines[from], duration_tag())->0, ',');
        let next = if from + 1 < lines.len() && starts_with(lines[from + 1], byte_range_tag()) {
            from + 2
        } else {
            from + 1
        };
        if next < lines.len() {
            lemma_put_keeps_distinct(scan.segments, trim(lines[next]), duration);
            lemma_scan_lines_distinct(
                lines,
                next + 1,
                PlaylistScan {
                    date: scan.date,
                    segments: put(scan.segments, trim(lines[next]), duration),
                },
            );
        }
    } else {
        lemma_scan_lines_distinct(lines, from + 1, scan);
    }
}

/// Reads a media playlist: the time of the broadcast, as seconds since the
/// start of 1970, where a line gives it, and the segments, each reference once
/// with the text of its duration as the playlist last gave it.
pub fn scan_playlist(playlist: &str) -> (found: Result<
    (Option<i64>, Vec<(String, String)>),
    MalformedPlaylistError,
>)
    ensures
        match scan_text(playlist@) {
            Ok(scan) => found matches Ok(held) && seconds_of(held.0) == scan.date && pairs(
                held.1@,
            ) == scan.segments && distinct_keys(pairs(held.1@)),
            Err(fault) => found matches Err(MalformedPlaylistError::Parse(error))
                && error.fault() == fault,
        },
{
    let text = to_chars(playlist);
    let all = split_lines(&text);
    let date_mark = to_chars("#ID3-EQUIV-TDTG:");
    let duration_mark = to_chars("#EXTINF:");
    let range_mark = to_chars("#EXT-X-BYTERANGE:");
    let mut date: Option<i64> = None;
    let mut parts: Vec<(String, String)> = Vec::new();
    let mut i: usize = 0;
    proof {
        assert(pairs(parts@) =~= Seq::<Pair>::empty());
        lemma_scan_lines_distinct(
            lines(playlist@),
            0,
            PlaylistScan { date: None, segments: Seq::empty() },
        );
    }
    while i < all.len()
        invariant
            i <= all.len(),
            views(all@) == lines(playlist@),
            date_mark@ == date_tag(),
            duration_mark@ == duration_tag(),
            range_mark@ == byte_range_tag(),
            scan_text(playlist@) == scan_lines(
                lines(playlist@),
                i as int,
                PlaylistScan { date: seconds_of(date), segments: pairs(parts@) },
            ),
            scan_text(playlist@) matches Ok(end) ==> distinct_keys(end.segments),
        decreases all.len() - i,
    {
        assert(views(all@)[i as int] == all@[i as int]@);
        let line = &all[i];
        match without_prefix(line, &date_mark) {
            Some(written) => {
                let inner = from_chars(&trimmed(&written));
                match convert_twitch_date(inner.as_str()) {
                    Ok(at) => {
                        date = Some(at);
                        i += 1;
                    },
                    Err(error) => {
                        return Err(MalformedPlaylistError::Parse(error));
                    },
                }
            },
            None => {
                match without_prefix(line, &duration_mark) {
                    Some(rest) => {
                        let duration = from_chars(&trimmed_by(&rest, Cut::Char(',')));
                        let mut next: usize = i + 1;
                        if next < all.len() {
                            assert(views(all@)[next as int] == all@[next as int]@);
                            if matches_at(&all[next], &range_mark, 0) {
                                next += 1;
                            }
                        }
                        if next >= all.len() {
                            return Err(MalformedPlaylistError::Parse(PlaylistParseError::Eof));
                        }
                        assert(views(all@)[next as int] == all@[next as int]@);
                        let reference = from_chars(&trimmed(&all[next]));
                        put_pair(&mut parts, reference, duration);
                        i = next + 1;
                    },
                    None => {
                        i += 1;
                    },
                }
            },
        }
    }
    Ok((date, parts))
}

/// What reading a media playlist gives: its segments, each reference once
/// with the text of its duration, and the age of the broadcast in whole hours
/// where the playlist tells when it was.
pub type Parsed = Result<(Option<usize>, Vec<(String, String)>), MalformedPlaylistError>;

/// Whether `parsed` is what the media playlist `text` holds, the age being
/// taken `now_nanos` nanoseconds after `now_seconds` seconds since the start
/// of 1970.
pub open spec fn read_at(text: Seq<char>, now_seconds: i64, now_nanos: u32, parsed: Parsed) -> bool {
    match scan_text(text) {
        Ok(scan) => parsed matches Ok(held) && pairs(held.1@) == scan.segments && held.0
            == match scan.date {
            Some(then) => Some(age_at(now_seconds, now_nanos, then)),
            None => None,
        },
        Err(fault) => parsed matches Err(MalformedPlaylistError::Parse(error)) && error.fault()
            == fault,
    }
}

/// Reads a media playlist, with the age of the broadcast taken at the given
/// moment.
pub fn parse_playlist_at(playlist: &str, now_seconds: i64, now_nanos: u32) -> (parsed: Parsed)
    ensures
        read_at(playlist@, now_seconds, now_nanos, parsed),
        parsed matches Ok(held) ==> distinct_keys(pairs(held.1@)),
{
    match scan_playlist(playlist) {
        Ok((date, parts)) => {
            let age = match date {
                Some(then) => Some(age_in_hours(now_seconds, now_nanos, then)),
                None => None,
            };
            Ok((age, parts))
        },
        Err(error) => Err(error),
    }
}

/// Reads a media playlist, with the age of the broadcast taken at the current
/// time. The clock is read only where the playlist gives a date, so the result
/// is that of `parse_playlist_at` at some moment.
pub fn parse_playlist(playlist: String) -> (parsed: Parsed)
    ensures
        exists|now_seconds: i64, now_nanos: u32|
            read_at(playlist@, now_seconds, now_nanos, parsed),
        parsed matches Ok(held) ==> distinct_keys(pairs(held.1@)),
{
    match scan_playlist(playlist.as_str()) {
        Ok((date, parts)) => match date {
            Some(then) => {
                let (now_seconds, now_nanos) = utc_now();
                let parsed = Ok((Some(age_in_hours(now_seconds, now_nanos, then)), parts));
                assert(read_at(playlist@, now_seconds, now_nanos, parsed));
                parsed
            },
            None => {
                let parsed = Ok((None, parts));
                assert(read_at(playlist@, 0, 0, parsed));
                parsed
            },
        },
        Err(error) => {
            let parsed = Err(error);
            assert(read_at(playlist@, 0, 0, parsed));
            parsed
        },
    }
}

pub open spec fn media_tag() -> Seq<char> {
    "#EXT-X-MEDIA"@
}

pub open spec fn name_tag() -> Seq<char> {
    "NAME=\""@
}

/// The index of the first `pat` in `text`, or the length of `text`.
pub open spec fn index_or_end(text: Seq<char>, pat: Seq<char>) -> int {
    match find(text, pat) {
        Some(at) => at,
        None => text.len() as int,
    }
}

/// The label of the quality that `line` declares: what follows the first name
/// tag of a line that holds the media tag, up to the next double quote or name
/// tag. A line without the two tags declares nothing.
pub open spec fn quality_label(line: Seq<char>) -> Option<Seq<char>> {
    if contains(line, media_tag()) && contains(line, name_tag()) {
        let rest = line.skip(find(line, name_tag())->0 + name_tag().len());
        let quote = index_or_end(rest, seq!['"']);
        let tag = index_or_end(rest, name_tag());
        Some(rest.take(if tag < quote { tag } else { quote }))
    } else {
        None
    }
}

/// The qualities that the lines from `from` on declare, added to `found`:
/// each label once, as first declared, with the line that stands two lines
/// below its declaration.
pub open spec fn collect_qualities(lines: Seq<Seq<char>>, from: int, found: Seq<Pair>) -> Result<
    Seq<Pair>,
    ScanFault,
>
    decreases lines.len() - from,
{
    if from < 0 || from >= lines.len() {
        Ok(found)
    } else {
        match quality_label(lines[from]) {
            Some(label) => if position(found, label, 0) is Some {
                collect_qualities(lines, from + 1, found)
            } else if from + 2 >= lines.len() {
                Err(ScanFault::Eof)
            } else {
                collect_qualities(lines, from + 1, found.push((label, lines[from + 2])))
            },
            None => collect_qualities(lines, from + 1, found),
        }
    }
}

/// The qualities that the master playlist `text` declares.
pub open spec fn qualities(text: Seq<char>) -> Result<Seq<Pair>, ScanFault> {
    collect_qualities(lines(text), 0, Seq::empty())
}

/// No label is collected twice.
pub proof fn lemma_collect_qualities_distinct(lines: Seq<Seq<char>>, from: int, found: Seq<Pair>)
    requires
        distinct_keys(found),
    ensures
        collect_qualities(lines, from, found) matches Ok(all) ==> distinct_keys(all),
    decreases lines.len() - from,
{
    if 0 <= from < lines.len() {
        match quality_label(lines[from]) {
            Some(label) => {
                if position(found, label, 0) is Some {
                    lemma_collect_qualities_distinct(lines, from + 1, found);
                } else if from + 2 < lines.len() {
                    let more = found.push((label, lines[from + 2]));
                    lemma_position(found, label, 0);
                    assert forall|i: int, j: int| 0 <= i < j < more.len() implies (
                    #[trigger] more[i]).0 != (#[trigger] more[j]).0 by {
                        if j < found.len() {
                            assert(more[i] == found[i] && more[j] == found[j]);
                        } else {
                            assert(more[i] == found[i]);
                        }
                    }
                    lemma_collect_qualities_distinct(lines, from + 1, more);
                }
            },
            None => {
                lemma_collect_qualities_distinct(lines, from + 1, found);
            },
        }
    }
}

/// The playlist chosen among `found` for the quality `wanted`: the one with
/// that label, or else the first, marked as a fallback.
pub open spec fn choice(found: Seq<Pair>, wanted: Seq<char>) -> Option<(Seq<char>, bool)> {
    match position(found, wanted, 0) {
        Some(at) => Some((found[at].1, false)),
        None => if found.len() > 0 {
            Some((found[0].1, true))
        } else {
            None
        },
    }
}

/// The address of a media playlist, and whether it stands in for a quality
/// that the master playlist does not offer.
#[derive(Debug, Clone, PartialEq, Eq)]
pub struct VariantChoice {
    pub url: String,
    pub fallback: bool,
}

pub fn label_of(line: &Vec<char>) -> (label: Option<Vec<char>>)
    ensures
        match label {
            Some(l) => quality_label(line@) == Some(l@),
            None => quality_label(line@) is None,
        },
{
    let media = to_chars("#EXT-X-MEDIA");
    let name = to_chars("NAME=\"");
    if !includes(line, &media) {
        return None;
    }
    match find_in(line, &name, 0) {
        None => None,
        Some(at) => {
            proof {
                crate::text::lemma_find_from(line@, name@, 0);
                assert(occurs_at(line@, name@, at as int));
            }
            let end = line.len();
            let rest = subvec(line, at + name.len(), end);
            let mut quote_mark: Vec<char> = Vec::new();
            quote_mark.push('"');
            assert(quote_mark@ =~= seq!['"']);
            let quote = match find_in(&rest, &quote_mark, 0) {
                Some(q) => q,
                None => rest.len(),
            };
            let tag = match find_in(&rest, &name, 0) {
                Some(t) => t,
                None => rest.len(),
            };
            proof {
                crate::text::lemma_find_from(rest@, quote_mark@, 0);
                crate::text::lemma_find_from(rest@, name@, 0);
            }
            let cut = if tag < quote {
                tag
            } else {
                quote
            };
            Some(subvec(&rest, 0, cut))
        },
    }
}

/// The qualities that a master playlist declares, each label once with the
/// address of its media playlist, in the order in which they are declared.
pub fn read_qualities(playlist: &str) -> (found: Result<
    Vec<(String, String)>,
    MalformedPlaylistError,
>)
    ensures
        match qualities(playlist@) {
            Ok(all) => found matches Ok(held) && pairs(held@) == all && distinct_keys(all),
            Err(fault) => found matches Err(MalformedPlaylistError::Parse(error))
                && error.fault() == fault,
        },
{
    let text = to_chars(playlist);
    let all = split_lines(&text);
    let mut found: Vec<(String, String)> = Vec::new();
    let mut i: usize = 0;
    assert(pairs(found@) =~= Seq::<Pair>::empty());
    proof {
        lemma_collect_qualities_distinct(lines(playlist@), 0, Seq::empty());
    }
    while i < all.len()
        invariant
            i <= all.len(),
            views(all@) == lines(playlist@),
            qualities(playlist@) == collect_qualities(lines(playlist@), i as int, pairs(found@)),
        decreases all.len() - i,
    {
        assert(views(all@)[i as int] == all@[i as int]@);
        match label_of(&all[i]) {
            Some(chars) => {
                let label = from_chars(&chars);
                if position_in(&found, &label).is_none() {
                    if all.len() < 3 || i >= all.len() - 2 {
                        return Err(MalformedPlaylistError::Parse(PlaylistParseError::Eof));
                    }
                    assert(views(all@)[i + 2] == all@[i + 2]@);
                    let url = from_chars(&all[i + 2]);
                    assert(pairs(found@.push((label, url))) =~= pairs(found@).push(
                        (label@, url@),
                    ));
                    found.push((label, url));
                }
            },
            None => {},
        }
        i += 1;
    }
    Ok(found)
}

/// Chooses, in a master playlist, the media playlist of the quality `quality`.
/// Where the master playlist does not offer that quality the first one that
/// it declares is chosen, and the choice is marked as a fallback. A master
/// playlist that declares no quality gives `NoQualities`; one that ends less
/// than two lines below a declaration gives `Eof`.
pub fn select_variant(playlist: &str, quality: &str) -> (chosen: Result<
    VariantChoice,
    MalformedPlaylistError,
>)
    ensures
        match qualities(playlist@) {
            Ok(all) => match choice(all, quality@) {
                Some(picked) => chosen matches Ok(variant) && variant.url@ == picked.0
                    && variant.fallback == picked.1,
                None => chosen == Err::<VariantChoice, MalformedPlaylistError>(
                    MalformedPlaylistError::NoQualities,
                ),
            },
            Err(fault) => chosen matches Err(MalformedPlaylistError::Parse(error))
                && error.fault() == fault,
        },
{
    let found = match read_qualities(playlist) {
        Ok(found) => found,
        Err(error) => {
            return Err(error);
        },
    };
    let wanted = quality.to_owned();
    match position_in(&found, &wanted) {
        Some(at) => {
            assert(pairs(found@)[at as int].1 == found@[at as int].1@);
            Ok(VariantChoice { url: found[at].1.clone(), fallback: false })
        },
        None => {
            if found.len() > 0 {
                assert(pairs(found@)[0].1 == found@[0].1@);
                Ok(VariantChoice { url: found[0].1.clone(), fallback: true })
            } else {
                Err(MalformedPlaylistError::NoQualities)
            }
        },
    }
}

/// The address of the media playlist that `select_variant` chooses.
pub fn get_playlist_from_quality_list(playlist: String, quality: &str) -> (url: Result<
    String,
    DownloadError,
>)
    ensures
        match qualities(playlist@) {
            Ok(all) => match choice(all, quality@) {
                Some(picked) => url matches Ok(address) && address@ == picked.0,
                None => url == Err::<String, DownloadError>(
                    DownloadError::MalformedPlaylist(MalformedPlaylistError::NoQualities),
                ),
            },
            Err(fault) => url matches Err(
                DownloadError::MalformedPlaylist(MalformedPlaylistError::Parse(error)),
            ) && error.fault() == fault,
        },
{
    match select_variant(playlist.as_str(), quality) {
        Ok(variant) => Ok(variant.url),
        Err(error) => Err(DownloadError::MalformedPlaylist(error)),
    }
}

} // verus!
