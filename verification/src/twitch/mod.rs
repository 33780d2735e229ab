//! Downloading one video: where its playlists lie, how its segments are
//! fetched, and what the fetches gave.

pub mod access_token;
pub mod parts_util;
pub mod steps;
pub mod twitch_utils;

use crate::errors::{DownloadError, DownloadFileError, MalformedPlaylistError};
use crate::text::{after_last, from_chars, index_after_last, subvec, to_chars};
use crate::twitch::parts_util::{part_download, part_plan, paths, PartDownload, PartPlan};
use crate::twitch::twitch_utils::{distinct_keys, pairs, parse_playlist, read_at, Pair};
use vstd::prelude::*;
use vstd::string::StringExecFns;

verus! {

/// `a` followed by `b`.
pub fn joined(a: &str, b: &str) -> (both: String)
    ensures
        both@ == a@ + b@,
{
    let mut both = a.to_owned();
    both.append(b);
    both
}

/// The address of the master playlist of the video `video_id`.
pub open spec fn master_playlist_address(
    video_id: Seq<char>,
    token: Seq<char>,
    signature: Seq<char>,
) -> Seq<char> {
    "https://usher.ttvnw.net/vod/"@ + video_id + "?nauth="@ + token + "&nauthsig="@ + signature
        + "&allow_source=true&player=twitchweb"@
}

pub fn master_playlist_url(video_id: &str, token: &str, signature: &str) -> (url: String)
    ensures
        url@ == master_playlist_address(video_id@, token@, signature@),
{
    let mut url = "https://usher.ttvnw.net/vod/".to_owned();
    url.append(video_id);
    url.append("?nauth=");
    url.append(token);
    url.append("&nauthsig=");
    url.append(signature);
    url.append("&allow_source=true&player=twitchweb");
    url
}

/// The part of an address up to its last `/`, the `/` included.
pub open spec fn base_of(url: Seq<char>) -> Option<Seq<char>> {
    let end = after_last(url, '/', url.len() as int);
    if end > 0 {
        Some(url.take(end))
    } else {
        None
    }
}

/// The address under which the segments of a media playlist lie. An address
/// without a `/` gives `InvalidUrl`.
pub fn base_url(playlist_url: &str) -> (base: Result<String, MalformedPlaylistError>)
    ensures
        match base_of(playlist_url@) {
            Some(b) => base matches Ok(held) && held@ == b,
            None => base == Err::<String, MalformedPlaylistError>(
                MalformedPlaylistError::InvalidUrl,
            ),
        },
{
    let chars = to_chars(playlist_url);
    let end = index_after_last(&chars, '/');
    if end == 0 {
        return Err(MalformedPlaylistError::InvalidUrl);
    }
    Ok(from_chars(&subvec(&chars, 0, end)))
}

/// What is needed to fetch the segments of a video: the age of the broadcast
/// in whole hours where it is known, the segments, each reference once with
/// the text of its duration, and the address under which they lie.
#[derive(Debug, Clone, PartialEq, Eq)]
pub struct DownloadInfo {
    pub vod_age: Option<usize>,
    pub parts: Vec<(String, String)>,
    pub base_url: String,
}

/// Whether `info` is what the media playlist `content` under the address
/// `base` gives, the age being taken at the given moment.
pub open spec fn info_read_at(
    content: Seq<char>,
    base: Seq<char>,
    now_seconds: i64,
    now_nanos: u32,
    info: Result<DownloadInfo, DownloadError>,
) -> bool {
    match info {
        Ok(held) => held.base_url@ == base && read_at(
            content,
            now_seconds,
            now_nanos,
            Ok((held.vod_age, held.parts)),
        ),
        Err(DownloadError::MalformedPlaylist(error)) => read_at(
            content,
            now_seconds,
            now_nanos,
            Err(error),
        ),
        Err(_) => false,
    }
}

/// The download information for the media playlist at `playlist_url` whose
/// text is `playlist_content`. The address is looked at first: without a `/`
/// it gives `InvalidUrl`, whatever the text holds. The age is taken at the
/// current time.
pub fn get_download_info(playlist_url: &str, playlist_content: String) -> (info: Result<
    DownloadInfo,
    DownloadError,
>)
    ensures
        match base_of(playlist_url@) {
            Some(base) => exists|now_seconds: i64, now_nanos: u32|
                info_read_at(playlist_content@, base, now_seconds, now_nanos, info),
            None => info == Err::<DownloadInfo, DownloadError>(
                DownloadError::MalformedPlaylist(MalformedPlaylistError::InvalidUrl),
            ),
        },
        info matches Ok(held) ==> distinct_keys(pairs(held.parts@)),
{
    let base = match base_url(playlist_url) {
        Ok(base) => base,
        Err(error) => {
            return Err(DownloadError::MalformedPlaylist(error));
        },
    };
    let ghost content = playlist_content@;
    let parsed = parse_playlist(playlist_content);
    let ghost (now_seconds, now_nanos) = choose|now_seconds: i64, now_nanos: u32|
        read_at(content, now_seconds, now_nanos, parsed);
    let info = match parsed {
        Ok((vod_age, parts)) => Ok(DownloadInfo { vod_age, parts, base_url: base }),
        Err(error) => Err(DownloadError::MalformedPlaylist(error)),
    };
    assert(info_read_at(content, base@, now_seconds, now_nanos, info));
    info
}

/// Whether a fetch first asks for the unmuted form of a muted segment: where
/// the broadcast is known to be less than 24 hours old.
pub open spec fn unmute_wanted(age: Option<usize>) -> bool {
    age matches Some(hours) && hours < 24
}

pub fn try_unmute(age: Option<usize>) -> (wanted: bool)
    ensures
        wanted == unmute_wanted(age),
{
    match age {
        Some(hours) => hours < 24,
        None => false,
    }
}

/// The number of fetches that may run at once: the configured number, but at
/// least 1, and no more than there are segments.
pub open spec fn concurrency_bound(configured: u64, amount_of_parts: u64) -> u64 {
    if configured < 1 {
        1
    } else if configured > amount_of_parts {
        amount_of_parts
    } else {
        configured
    }
}

pub fn thread_count(configured: u64, amount_of_parts: u64) -> (bound: u64)
    ensures
        bound == concurrency_bound(configured, amount_of_parts),
        amount_of_parts >= 1 ==> 1 <= bound <= amount_of_parts,
{
    if configured < 1 {
        1
    } else if configured > amount_of_parts {
        amount_of_parts
    } else {
        configured
    }
}

/// How the segments of a video are fetched.
#[derive(Debug, Clone, PartialEq, Eq)]
pub struct DownloadPlan {
    /// Whether the unmuted form of a muted segment is asked for first.
    pub try_unmute: bool,
    /// How many fetches may run at once.
    pub thread_count: u64,
    /// The fetches, one for each segment, in the order of the playlist.
    pub parts: Vec<PartDownload>,
}

/// The plans held in `parts`, in texts.
pub open spec fn part_plans(parts: Seq<PartDownload>) -> Seq<PartPlan> {
    parts.map_values(|part: PartDownload| part@)
}

/// The plans for the segments `parts` under `base_url`.
pub open spec fn planned_parts(parts: Seq<Pair>, base_url: Seq<char>, try_unmute: bool) -> Seq<
    PartPlan,
> {
    parts.map_values(|part: Pair| part_plan(part.0, base_url, try_unmute))
}

/// Plans the fetch of all segments of a video. A video without segments
/// gives `Empty`. Otherwise every segment gets its plan; unmuting is tried
/// where the broadcast is known to be less than 24 hours old; and the number
/// of fetches that run at once is the configured one, brought between 1 and
/// the number of segments.
pub fn plan_download(info: &DownloadInfo, configured_thread_count: u64) -> (plan: Result<
    DownloadPlan,
    DownloadError,
>)
    ensures
        info.parts.len() == 0 ==> plan == Err::<DownloadPlan, DownloadError>(
            DownloadError::MalformedPlaylist(MalformedPlaylistError::Empty),
        ),
        info.parts.len() > 0 ==> (plan matches Ok(held) && held.try_unmute == unmute_wanted(
            info.vod_age,
        ) && held.thread_count == concurrency_bound(
            configured_thread_count,
            info.parts.len() as u64,
        ) && 1 <= held.thread_count <= info.parts.len() && part_plans(held.parts@)
            == planned_parts(pairs(info.parts@), info.base_url@, held.try_unmute)),
{
    if info.parts.len() == 0 {
        return Err(DownloadError::MalformedPlaylist(MalformedPlaylistError::Empty));
    }
    let unmute = try_unmute(info.vod_age);
    let amount_of_parts = info.parts.len() as u64;
    let bound = thread_count(configured_thread_count, amount_of_parts);
    let mut parts: Vec<PartDownload> = Vec::new();
    let mut i: usize = 0;
    while i < info.parts.len()
        invariant
            i <= info.parts.len(),
            part_plans(parts@) == planned_parts(pairs(info.parts@), info.base_url@, unmute).take(
                i as int,
            ),
        decreases info.parts.len() - i,
    {
        let part = part_download(&info.parts[i], info.base_url.as_str(), unmute);
        proof {
            assert(pairs(info.parts@)[i as int].0 == info.parts@[i as int].0@);
            assert(part_plans(parts@.push(part)) =~= part_plans(parts@).push(part@));
            assert(planned_parts(pairs(info.parts@), info.base_url@, unmute).take(i + 1)
                =~= planned_parts(pairs(info.parts@), info.base_url@, unmute).take(
                i as int,
            ).push(part@));
        }
        parts.push(part);
        i += 1;
    }
    assert(part_plans(parts@) =~= planned_parts(pairs(info.parts@), info.base_url@, unmute));
    Ok(DownloadPlan { try_unmute: unmute, thread_count: bound, parts })
}

/// The first index from `from` on at which a fetch has failed.
pub open spec fn first_failure(results: Seq<Result<String, DownloadFileError>>, from: int) -> Option<
    int,
>
    decreases results.len() - from,
{
    if from < 0 || from >= results.len() {
        None
    } else if results[from] is Err {
        Some(from)
    } else {
        first_failure(results, from + 1)
    }
}

/// The paths that the fetches gave, an empty text standing for a failure.
pub open spec fn fetched_paths(results: Seq<Result<String, DownloadFileError>>) -> Seq<Seq<char>> {
    results.map_values(
        |result: Result<String, DownloadFileError>|
            match result {
                Ok(path) => path@,
                Err(_) => Seq::empty(),
            },
    )
}

/// Gathers what the fetches of the segments gave, in the order in which they
/// ended: the paths of the files where every fetch succeeded, and else the
/// failure that came first.
pub fn collect_parts(results: Vec<Result<String, DownloadFileError>>) -> (collected: Result<
    Vec<String>,
    DownloadFileError,
>)
    ensures
        match first_failure(results@, 0) {
            Some(at) => collected == Err::<Vec<String>, DownloadFileError>(results@[at]->Err_0),
            None => collected matches Ok(files) && paths(files@) == fetched_paths(results@),
        },
{
    let mut left = results;
    let ghost given = left@;
    let mut files: Vec<String> = Vec::new();
    let mut i: usize = 0;
    while i < left.len()
        invariant
            i <= left.len(),
            left@ == given,
            results@ == given,
            first_failure(given, 0) == first_failure(given, i as int),
            paths(files@) == fetched_paths(given).take(i as int),
        decreases left.len() - i,
    {
        let failed = match &left[i] {
            Ok(path) => {
                let file = path.clone();
                proof {
                    assert(paths(files@.push(file)) =~= paths(files@).push(file@));
                    assert(fetched_paths(given).take(i + 1) =~= fetched_paths(given).take(
                        i as int,
                    ).push(file@));
                }
                files.push(file);
                false
            },
            Err(_) => true,
        };
        assert(failed == (given[i as int] is Err));
        if failed {
            assert(first_failure(given, i as int) == Some(i as int));
            match left.swap_remove(i) {
                Err(error) => {
                    return Err(error);
                },
                Ok(_) => {},
            }
        }
        i += 1;
    }
    assert(paths(files@) =~= fetched_paths(given));
    Ok(files)
}

/// The name of the finished file of the video `video_id`.
pub fn final_file_name(video_id: &str) -> (name: String)
    ensures
        name@ == video_id@ + ".mp4"@,
{
    joined(video_id, ".mp4")
}

/// The name, in the video's folder, of the file that holds the joined segments.
pub fn stream_file_name() -> (name: String)
    ensures
        name@ == "video.ts"@,
{
    "video.ts".to_owned()
}

/// The name, in the video's folder, of the container file made of the stream.
pub fn container_file_name() -> (name: String)
    ensures
        name@ == "video.mp4"@,
{
    "video.mp4".to_owned()
}

/// The arguments with which `ffmpeg` copies the stream file into a container
/// file: `-i`, the stream file, `-c`, `copy`, the container file.
pub fn remux_arguments(ts_file: &str, mp4_file: &str) -> (arguments: Vec<String>)
    ensures
        arguments.len() == 5,
        arguments[0]@ == "-i"@,
        arguments[1]@ == ts_file@,
        arguments[2]@ == "-c"@,
        arguments[3]@ == "copy"@,
        arguments[4]@ == mp4_file@,
{
    let mut arguments: Vec<String> = Vec::new();
    arguments.push("-i".to_owned());
    arguments.push(ts_file.to_owned());
    arguments.push("-c".to_owned());
    arguments.push("copy".to_owned());
    arguments.push(mp4_file.to_owned());
    arguments
}

} // verus!
