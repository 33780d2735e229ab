use std::path::Path;
use twba_downloader::errors::DownloadFileError;
use twba_downloader::order::sorted_order;
use twba_downloader::twitch::parts_util::{part_number, sort_parts};

fn strings(names: &[&str]) -> Vec<String> {
    names.iter().map(|name| name.to_string()).collect()
}

#[test]
fn sorts_by_number_not_by_text() {
    let mut files = strings(&["10.ts", "2.ts", "1-muted.ts", "3-unmuted.ts"]);
    assert_eq!(sort_parts(&mut files), Ok(()));
    assert_eq!(files, strings(&["1-muted.ts", "2.ts", "3-unmuted.ts", "10.ts"]));
}

#[test]
fn sorts_full_paths_by_their_file_names() {
    let mut files = strings(&["/v/9/11.ts", "/v/9/100.ts", "/v/9/9-muted.ts", "/v/9/0.ts"]);
    assert_eq!(sort_parts(&mut files), Ok(()));
    assert_eq!(files, strings(&["/v/9/0.ts", "/v/9/9-muted.ts", "/v/9/11.ts", "/v/9/100.ts"]));
}

#[test]
fn sorts_prefixed_names_by_what_follows_the_dash() {
    let mut files =
        strings(&["1094734-3-muted.ts", "1094734-1.ts", "1094734-4-unmuted.ts", "1094734-2.ts"]);
    assert_eq!(sort_parts(&mut files), Ok(()));
    assert_eq!(
        files,
        strings(&["1094734-1.ts", "1094734-2.ts", "1094734-3-muted.ts", "1094734-4-unmuted.ts"])
    );
}

#[test]
fn files_of_one_number_keep_their_order() {
    let mut files = strings(&["2.ts", "b/1.ts", "a/1.ts", "c/1-muted.ts", "0.ts"]);
    assert_eq!(sort_parts(&mut files), Ok(()));
    assert_eq!(files, strings(&["0.ts", "b/1.ts", "a/1.ts", "c/1-muted.ts", "2.ts"]));
}

#[test]
fn empty_and_single_lists_stay() {
    let mut none: Vec<String> = Vec::new();
    assert_eq!(sort_parts(&mut none), Ok(()));
    assert!(none.is_empty());
    let mut one = strings(&["5.ts"]);
    assert_eq!(sort_parts(&mut one), Ok(()));
    assert_eq!(one, strings(&["5.ts"]));
}

#[test]
fn a_name_without_number_is_an_error_and_nothing_moves() {
    let mut files = strings(&["3.ts", "intro.ts", "1.ts", "outro.ts"]);
    assert_eq!(sort_parts(&mut files), Err(DownloadFileError::PartNumber("intro.ts".to_string())));
    assert_eq!(files, strings(&["3.ts", "intro.ts", "1.ts", "outro.ts"]));
}

#[test]
fn more_than_one_dash_is_an_error() {
    let mut files = strings(&["1.ts", "7-8-9.ts"]);
    assert_eq!(sort_parts(&mut files), Err(DownloadFileError::PartNumber("7-8-9.ts".to_string())));
    let mut other = strings(&["x-1-muted-2.ts"]);
    assert_eq!(
        sort_parts(&mut other),
        Err(DownloadFileError::PartNumber("x-1-muted-2.ts".to_string()))
    );
}

#[test]
fn part_number_reads_names() {
    assert_eq!(part_number("1.ts"), Some(1));
    assert_eq!(part_number("3-muted.ts"), Some(3));
    assert_eq!(part_number("4-unmuted.ts"), Some(4));
    assert_eq!(part_number("1094734-2.ts"), Some(2));
    assert_eq!(part_number("/a/b.c/17.ts"), Some(17));
    assert_eq!(part_number("17"), Some(17));
    assert_eq!(part_number("+17.ts"), Some(17));
    assert_eq!(part_number("4294967295.ts"), Some(4294967295));
    assert_eq!(part_number("4294967296.ts"), None);
    assert_eq!(part_number("abc.ts"), None);
    assert_eq!(part_number("12-.ts"), None);
    assert_eq!(part_number("-12.ts"), Some(12));
    assert_eq!(part_number("1.2.ts"), None);
    assert_eq!(part_number(".5"), None);
    assert_eq!(part_number("5."), Some(5));
}

#[test]
fn a_path_without_file_name_counts_as_zero() {
    assert_eq!(part_number(""), Some(0));
    assert_eq!(part_number("a/.."), Some(0));
    assert_eq!(part_number(".."), Some(0));
    assert_eq!(part_number("a/"), Some(0));
}

#[test]
fn stems_are_those_of_std_paths() {
    for path in ["1.ts", "/x/y/22-muted.ts", "a.b/3", "7.tar.gz", "x/.9", "8."] {
        let stem = Path::new(path).file_stem().unwrap().to_str().unwrap();
        let number = stem.replace("-muted", "").replace("-unmuted", "").parse::<u32>().ok();
        assert_eq!(part_number(path), number, "{:?}", path);
    }
}

#[test]
fn sorted_order_is_stable() {
    assert_eq!(sorted_order(&vec![10, 2, 1, 3]), vec![2, 1, 3, 0]);
    assert_eq!(sorted_order(&vec![1, 1, 0, 1]), vec![2, 0, 1, 3]);
    assert_eq!(sorted_order(&vec![-5, i64::MAX, i64::MIN]), vec![2, 0, 1]);
    assert_eq!(sorted_order(&Vec::new()), Vec::<usize>::new());
}

#[test]
fn the_order_given_does_not_matter_for_files_with_numbers_of_their_own() {
    let mut first = strings(&["3.ts", "1-muted.ts", "20.ts", "4-unmuted.ts", "0.ts"]);
    let mut second = strings(&["20.ts", "0.ts", "4-unmuted.ts", "3.ts", "1-muted.ts"]);
    assert_eq!(sort_parts(&mut first), Ok(()));
    assert_eq!(sort_parts(&mut second), Ok(()));
    assert_eq!(first, second);
    assert_eq!(first, strings(&["0.ts", "1-muted.ts", "3.ts", "4-unmuted.ts", "20.ts"]));
}
