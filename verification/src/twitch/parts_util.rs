//! The downloaded segment files: their sequence numbers and their order.

use crate::decimal::{parse_u32, read_u32};
use crate::errors::DownloadFileError;
use crate::order::{
    arranged, indices, lemma_ascending_order_is_unique, lemma_stable_order,
    lemma_stable_order_permutes, orders_first, sorted_order, stable_order, strictly_ascending,
};
use crate::text::{
    after_last, contains, count_char, count_of, from_chars, includes, index_after_last,
    remove_all, subvec, to_chars, without_all,
};
use vstd::prelude::*;
use vstd::string::StringExecFns;

verus! {

/// The last component of a path whose components `/` separates.
pub open spec fn file_name(path: Seq<char>) -> Seq<char> {
    path.skip(after_last(path, '/', path.len() as int))
}

/// The file name without its extension: the name up to its last `.`, the whole
/// name where it holds no `.` or only one at its start; nothing where the path
/// ends in `/` or in `..`.
pub open spec fn file_stem(path: Seq<char>) -> Option<Seq<char>> {
    let name = file_name(path);
    let dot = after_last(name, '.', name.len() as int);
    if name.len() == 0 || name == seq!['.', '.'] {
        None
    } else if dot <= 1 {
        Some(name)
    } else {
        Some(name.take(dot - 1))
    }
}

/// A text without the markers of a muted and of an unmuted segment.
pub open spec fn without_markers(stem: Seq<char>) -> Seq<char> {
    remove_all(remove_all(stem, "-muted"@), "-unmuted"@)
}

/// The number that a text without markers gives: the text read as a number,
/// or else, where it holds exactly one `-`, what follows the `-`.
pub open spec fn number_of_text(text: Seq<char>) -> Option<u32> {
    match parse_u32(text) {
        Some(n) => Some(n),
        None => if count_char(text, '-', text.len() as int) == 1 {
            parse_u32(text.skip(after_last(text, '-', text.len() as int)))
        } else {
            None
        },
    }
}

/// The sequence number of the segment file at `path`; 0 for a path without a
/// file name.
pub open spec fn sequence_number(path: Seq<char>) -> Option<u32> {
    match file_stem(path) {
        Some(stem) => number_of_text(without_markers(stem)),
        None => Some(0),
    }
}

pub fn part_number(path: &str) -> (number: Option<u32>)
    ensures
        number == sequence_number(path@),
{
    let chars = to_chars(path);
    let name_start = index_after_last(&chars, '/');
    let name = subvec(&chars, name_start, chars.len());
    assert(name@ =~= file_name(path@));
    if name.len() == 0 || (name.len() == 2 && name[0] == '.' && name[1] == '.') {
        assert(name.len() == 2 && name[0] == '.' && name[1] == '.' ==> name@ =~= seq!['.', '.']);
        return Some(0);
    }
    assert(name@ != seq!['.', '.']) by {
        if name@ == seq!['.', '.'] {
            assert(seq!['.', '.'].len() == 2);
            assert(seq!['.', '.'][0] == '.');
            assert(seq!['.', '.'][1] == '.');
        }
    }
    let dot = index_after_last(&name, '.');
    let stem = if dot <= 1 {
        name
    } else {
        subvec(&name, 0, dot - 1)
    };
    assert(file_stem(path@) == Some(stem@));
    let muted = to_chars("-muted");
    let unmuted = to_chars("-unmuted");
    let text = without_all(&without_all(&stem, &muted), &unmuted);
    match read_u32(&text) {
        Some(n) => Some(n),
        None => {
            if count_of(&text, '-') == 1 {
                let second = index_after_last(&text, '-');
                read_u32(&subvec(&text, second, text.len()))
            } else {
                None
            }
        },
    }
}

/// The texts of the paths held in `files`.
pub open spec fn paths(files: Seq<String>) -> Seq<Seq<char>> {
    files.map_values(|file: String| file@)
}

/// The key by which the file at `path` is sorted: its sequence number, or 0
/// where it has none.
pub open spec fn sequence_key(path: Seq<char>) -> i64 {
    match sequence_number(path) {
        Some(n) => n as i64,
        None => 0i64,
    }
}

/// The keys of `paths`.
pub open spec fn sequence_keys(paths: Seq<Seq<char>>) -> Seq<i64> {
    paths.map_values(|path: Seq<char>| sequence_key(path))
}

/// The first index whose path gives no sequence number.
pub open spec fn first_unnumbered(paths: Seq<Seq<char>>, from: int) -> Option<int>
    decreases paths.len() - from,
{
    if from < 0 || from >= paths.len() {
        None
    } else if sequence_number(paths[from]) is None {
        Some(from)
    } else {
        first_unnumbered(paths, from + 1)
    }
}

/// `paths` in the order that a stable sort by sequence number gives.
pub open spec fn sorted_paths(paths: Seq<Seq<char>>) -> Seq<Seq<char>> {
    arranged(paths, stable_order(sequence_keys(paths), paths.len() as int))
}

/// Sorting moves the paths and does no more: every path is there as often as
/// before, and the sequence numbers ascend.
pub proof fn lemma_sorted_paths(paths: Seq<Seq<char>>)
    ensures
        sorted_paths(paths).len() == paths.len(),
        sorted_paths(paths).to_multiset() == paths.to_multiset(),
        forall|i: int, j: int|
            0 <= i < j < paths.len() ==> sequence_key(#[trigger] sorted_paths(paths)[i])
                <= sequence_key(#[trigger] sorted_paths(paths)[j]),
{
    let keys = sequence_keys(paths);
    let n = paths.len() as int;
    lemma_stable_order(keys, n);
    lemma_stable_order_permutes(paths, keys, n);
    assert(paths.take(n) =~= paths);
    let order = stable_order(keys, n);
    assert forall|i: int, j: int| 0 <= i < j < paths.len() implies sequence_key(
        #[trigger] sorted_paths(paths)[i],
    ) <= sequence_key(#[trigger] sorted_paths(paths)[j]) by {
        assert(0 <= order[i] < n && 0 <= order[j] < n);
        assert(keys[order[i]] == sequence_key(paths[order[i]]));
        assert(keys[order[j]] == sequence_key(paths[order[j]]));
    }
}

/// Whether no two of `paths` have one sequence number.
pub open spec fn distinct_numbers(paths: Seq<Seq<char>>) -> bool {
    forall|i: int, j: int|
        0 <= i < j < paths.len() ==> sequence_key(#[trigger] paths[i]) != sequence_key(
            #[trigger] paths[j],
        )
}

/// The order in which the files are joined does not depend on the order in
/// which their fetches ended: the same files, each with a sequence number of
/// its own, are sorted into one order however they were given.
pub proof fn lemma_sorted_paths_independent(first: Seq<Seq<char>>, second: Seq<Seq<char>>)
    requires
        first.to_multiset() == second.to_multiset(),
        distinct_numbers(first),
    ensures
        sorted_paths(first) == sorted_paths(second),
{
    let key = |path: Seq<char>| sequence_key(path) as int;
    lemma_same_files_distinct(first, second);
    lemma_sorted_paths(first);
    lemma_sorted_paths(second);
    lemma_sorted_strictly(first);
    lemma_sorted_strictly(second);
    lemma_ascending_order_is_unique(sorted_paths(first), sorted_paths(second), key);
}

/// Files that each have a number of their own still have, in another order.
proof fn lemma_same_files_distinct(first: Seq<Seq<char>>, second: Seq<Seq<char>>)
    requires
        first.to_multiset() == second.to_multiset(),
        distinct_numbers(first),
    ensures
        distinct_numbers(second),
{
    broadcast use vstd::seq_lib::group_to_multiset_ensures;

    assert forall|i: int, j: int| 0 <= i < first.len() && 0 <= j < first.len() && i
        != j implies first[i] != first[j] by {
        if i < j {
            assert(sequence_key(first[i]) != sequence_key(first[j]));
        } else {
            assert(sequence_key(first[j]) != sequence_key(first[i]));
        }
    }
    first.lemma_multiset_has_no_duplicates();
    second.lemma_multiset_has_no_duplicates_conv();
    assert forall|i: int, j: int| 0 <= i < j < second.len() implies sequence_key(
        #[trigger] second[i],
    ) != sequence_key(#[trigger] second[j]) by {
        assert(second[i] != second[j]);
        assert(second.contains(second[i]));
        assert(second.contains(second[j]));
        assert(first.to_multiset().count(second[i]) > 0);
        assert(first.to_multiset().count(second[j]) > 0);
        assert(first.contains(second[i]));
        assert(first.contains(second[j]));
        let x = choose|x: int| 0 <= x < first.len() && first[x] == second[i];
        let y = choose|y: int| 0 <= y < first.len() && first[y] == second[j];
        if x < y {
            assert(sequence_key(first[x]) != sequence_key(first[y]));
        } else {
            assert(sequence_key(first[y]) != sequence_key(first[x]));
        }
    }
}

proof fn lemma_sorted_strictly(paths: Seq<Seq<char>>)
    requires
        distinct_numbers(paths),
    ensures
        strictly_ascending(sorted_paths(paths), |path: Seq<char>| sequence_key(path) as int),
{
    let keys = sequence_keys(paths);
    let n = paths.len() as int;
    lemma_stable_order(keys, n);
    let order = stable_order(keys, n);
    let key = |path: Seq<char>| sequence_key(path) as int;
    assert forall|i: int, j: int| 0 <= i < j < sorted_paths(paths).len() implies key(
        #[trigger] sorted_paths(paths)[i],
    ) < key(#[trigger] sorted_paths(paths)[j]) by {
        assert(0 <= order[i] < n && 0 <= order[j] < n);
        assert(keys[order[i]] == sequence_key(paths[order[i]]));
        assert(keys[order[j]] == sequence_key(paths[order[j]]));
        if keys[order[i]] == keys[order[j]] {
            assert(order[i] < order[j]);
            assert(sequence_key(paths[order[i]]) != sequence_key(paths[order[j]]));
        }
    }
}

/// Sorts the segment files by their sequence numbers, ascending; files of one
/// number stay as they stood. Where a name gives no number the files stay as
/// they are, and the error names the first such path.
pub fn sort_parts(files: &mut Vec<String>) -> (sorted: Result<(), DownloadFileError>)
    ensures
        match first_unnumbered(paths(old(files)@), 0) {
            Some(i) => *final(files) == *old(files) && sorted == Err::<(), DownloadFileError>(
                DownloadFileError::PartNumber(old(files)@[i]),
            ),
            None => sorted is Ok && paths(final(files)@) == sorted_paths(paths(old(files)@)),
        },
{
    let mut keys: Vec<i64> = Vec::new();
    let mut i: usize = 0;
    while i < files.len()
        invariant
            i <= files.len(),
            *files == *old(files),
            keys@ == sequence_keys(paths(files@)).take(i as int),
            first_unnumbered(paths(files@), 0) == first_unnumbered(paths(files@), i as int),
        decreases files.len() - i,
    {
        assert(paths(files@)[i as int] == files@[i as int]@);
        match part_number(files[i].as_str()) {
            Some(n) => {
                assert(sequence_keys(paths(files@)).take(i + 1) =~= sequence_keys(
                    paths(files@),
                ).take(i as int).push(n as i64));
                keys.push(n as i64);
            },
            None => {
                return Err(DownloadFileError::PartNumber(files[i].clone()));
            },
        }
        i += 1;
    }
    assert(keys@ =~= sequence_keys(paths(files@)));
    let order = sorted_order(&keys);
    let mut sorted: Vec<String> = Vec::new();
    let mut k: usize = 0;
    while k < order.len()
        invariant
            k <= order.len(),
            order.len() == files.len(),
            *files == *old(files),
            keys@ == sequence_keys(paths(files@)),
            keys.len() == files.len(),
            indices(order@) == stable_order(keys@, keys.len() as int),
            orders_first(keys@, indices(order@), keys.len() as int),
            paths(sorted@) == sorted_paths(paths(files@)).take(k as int),
        decreases order.len() - k,
    {
        assert(indices(order@)[k as int] == order@[k as int]);
        let file = files[order[k]].clone();
        proof {
            assert(paths(files@)[order@[k as int] as int] == file@);
            assert(paths(sorted@.push(file)) =~= paths(sorted@).push(file@));
            assert(sorted_paths(paths(files@)).take(k + 1) =~= sorted_paths(paths(files@)).take(
                k as int,
            ).push(file@));
        }
        sorted.push(file);
        k += 1;
    }
    assert(paths(sorted@) =~= sorted_paths(paths(files@)));
    *files = sorted;
    Ok(())
}

/// How one segment is fetched, in texts: the name of the file it is written
/// to, its address, and the address of its unmuted form where that is asked
/// for first.
pub struct PartPlan {
    pub file_name: Seq<char>,
    pub url: Seq<char>,
    pub unmuted_url: Option<Seq<char>>,
}

/// How one segment is fetched.
#[derive(Debug, Clone, PartialEq, Eq)]
pub struct PartDownload {
    /// The name of the file in the video's folder: the segment's reference.
    pub file_name: String,
    /// The segment's address as the playlist gives it.
    pub url: String,
    /// The address of the unmuted form of a muted segment, where it is to be
    /// tried first.
    pub unmuted_url: Option<String>,
}

impl View for PartDownload {
    type V = PartPlan;

    open spec fn view(&self) -> PartPlan {
        PartPlan {
            file_name: self.file_name@,
            url: self.url@,
            unmuted_url: match self.unmuted_url {
                Some(url) => Some(url@),
                None => None,
            },
        }
    }
}

/// Whether the unmuted form of the segment `part` is asked for first: where
/// unmuting is to be tried and the reference holds the mark of a muted segment.
pub open spec fn unmutes(part: Seq<char>, try_unmute: bool) -> bool {
    try_unmute && contains(part, "-muted"@)
}

/// How the segment `part` under `base_url` is fetched.
pub open spec fn part_plan(part: Seq<char>, base_url: Seq<char>, try_unmute: bool) -> PartPlan {
    PartPlan {
        file_name: part,
        url: base_url + part,
        unmuted_url: if unmutes(part, try_unmute) {
            Some(base_url + remove_all(part, "-muted"@))
        } else {
            None
        },
    }
}

/// Plans the fetch of one segment, given by its reference and the text of its
/// duration.
pub fn part_download(part: &(String, String), base_url: &str, try_unmute: bool) -> (plan:
    PartDownload)
    ensures
        plan@ == part_plan(part.0@, base_url@, try_unmute),
{
    let reference = to_chars(part.0.as_str());
    let muted = to_chars("-muted");
    let mut url = base_url.to_owned();
    url.append(part.0.as_str());
    let unmuted_url = if try_unmute && includes(&reference, &muted) {
        let mut unmuted = base_url.to_owned();
        unmuted.append(from_chars(&without_all(&reference, &muted)).as_str());
        Some(unmuted)
    } else {
        None
    };
    PartDownload { file_name: part.0.clone(), url, unmuted_url }
}

/// Which request for a segment has come back.
#[derive(Debug, Clone, Copy, PartialEq, Eq)]
pub enum Attempt {
    First,
    Fallback,
}

/// What follows a request for a segment: another request, or the end of the
/// fetch with the path of the file or the failure.
#[derive(Debug, PartialEq, Eq)]
pub enum NextStep {
    Fetch(String),
    Return(Result<String, DownloadFileError>),
}

impl PartDownload {
    /// The address that is asked for first: that of the unmuted form where
    /// there is one.
    pub open spec fn first_address(self) -> Seq<char> {
        match self.unmuted_url {
            Some(url) => url@,
            None => self.url@,
        }
    }

    pub fn first_url(&self) -> (url: String)
        ensures
            url@ == self.first_address(),
    {
        match &self.unmuted_url {
            Some(url) => url.clone(),
            None => self.url.clone(),
        }
    }

    /// What follows when the request `attempt` has come back with `result`. A
    /// success ends the fetch. A failure of the request for the unmuted form
    /// is dropped and the segment is asked for as the playlist names it; any
    /// other failure ends the fetch and is the one returned.
    pub fn next_step(&self, attempt: Attempt, result: Result<String, DownloadFileError>) -> (next:
        NextStep)
        ensures
            match result {
                Ok(path) => next == NextStep::Return(Ok(path)),
                Err(error) => if attempt is First && self.unmuted_url is Some {
                    next matches NextStep::Fetch(url) && url@ == self.url@
                } else {
                    next == NextStep::Return(Err(error))
                },
            },
    {
        match result {
            Ok(path) => NextStep::Return(Ok(path)),
            Err(error) => match (attempt, &self.unmuted_url) {
                (Attempt::First, Some(_)) => NextStep::Fetch(self.url.clone()),
                _ => NextStep::Return(Err(error)),
            },
        }
    }
}

} // verus!
