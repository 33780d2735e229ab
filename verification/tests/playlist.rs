use twba_downloader::errors::{MalformedPlaylistError, PlaylistParseError};
use twba_downloader::twitch::twitch_utils::{
    age_in_hours, convert_twitch_date, parse_playlist, parse_playlist_at, position_in, put_pair,
    scan_playlist,
};

const DATE: i64 = 1696721609;

fn pair(a: &str, b: &str) -> (String, String) {
    (a.to_string(), b.to_string())
}

fn duration(text: &str) -> f32 {
    text.parse().unwrap_or(0.0)
}

#[test]
fn reads_a_twitch_date() {
    assert_eq!(convert_twitch_date("2023-10-07T23:33:29"), Ok(DATE));
    assert_eq!(convert_twitch_date("1970-01-01T00:00:00"), Ok(0));
    assert_eq!(convert_twitch_date("1969-12-31T23:59:59"), Ok(-1));
    assert_eq!(convert_twitch_date("2024-02-29T12:00:00"), Ok(1709208000));
}

#[test]
fn reads_a_date_between_spaces_and_quotes() {
    assert_eq!(convert_twitch_date("  \"2023-10-07T23:33:29\" \n"), Ok(DATE));
    assert_eq!(convert_twitch_date("\"\"2023-10-07T23:33:29\""), Ok(DATE));
}

#[test]
fn refuses_what_is_no_date() {
    for text in ["", "yesterday", "2023-10-07", "2023-13-07T23:33:29", "2023-10-07T24:00:00",
        "2023-10-07 23:33:29", "2023-10-07T23:33:29Z"]
    {
        assert!(
            matches!(convert_twitch_date(text), Err(PlaylistParseError::InvalidTimeFormat(_))),
            "{:?}",
            text
        );
    }
}

#[test]
fn date_errors_hold_what_chrono_reported() {
    let first = convert_twitch_date("nonsense").unwrap_err();
    let second = chrono::NaiveDateTime::parse_from_str("nonsense", "%Y-%m-%dT%H:%M:%S").unwrap_err();
    assert_eq!(first, PlaylistParseError::InvalidTimeFormat(second));
    assert_ne!(first, PlaylistParseError::Eof);
}

#[test]
fn age_counts_whole_hours() {
    assert_eq!(age_in_hours(DATE, 0, DATE), 0);
    assert_eq!(age_in_hours(DATE + 3599, 999_999_999, DATE), 0);
    assert_eq!(age_in_hours(DATE + 3600, 0, DATE), 1);
    assert_eq!(age_in_hours(DATE + 5 * 3600 + 1800, 5, DATE), 5);
    assert_eq!(age_in_hours(DATE + 24 * 3600, 0, DATE), 24);
    assert_eq!(age_in_hours(i64::MAX, 0, i64::MIN), 5124095576030431);
}

#[test]
fn age_of_a_broadcast_ahead_wraps() {
    assert_eq!(age_in_hours(DATE - 1, 0, DATE), 0);
    assert_eq!(age_in_hours(DATE - 3600, 1, DATE), 0);
    assert_eq!(age_in_hours(DATE - 3600, 0, DATE), (-1i64) as usize);
    assert_eq!(age_in_hours(DATE - 2 * 3600, 0, DATE), (-2i64) as usize);
    assert_eq!(age_in_hours(DATE - 2 * 3600, 7, DATE), (-1i64) as usize);
}

#[test]
fn a_duration_and_a_reference_make_an_entry() {
    let (age, parts) = parse_playlist("#EXTINF:9.009,\n2.ts\n".to_string()).unwrap();
    assert_eq!(age, None);
    assert_eq!(parts, vec![pair("2.ts", "9.009")]);
    assert_eq!(duration(&parts[0].1), 9.009f32);
}

#[test]
fn a_duration_tag_on_the_last_line_is_eof() {
    assert_eq!(
        parse_playlist("#EXTM3U\n#EXTINF:9.009,".to_string()),
        Err(MalformedPlaylistError::Parse(PlaylistParseError::Eof))
    );
    assert_eq!(
        parse_playlist("#EXTINF:9.009,\n".to_string()),
        Err(MalformedPlaylistError::Parse(PlaylistParseError::Eof))
    );
    assert_eq!(
        parse_playlist("#EXTINF:1.0,\n1.ts\n#EXTINF:9.009,\n#EXT-X-BYTERANGE:5@0".to_string()),
        Err(MalformedPlaylistError::Parse(PlaylistParseError::Eof))
    );
}

#[test]
fn the_age_is_the_whole_hours_since_the_broadcast() {
    let then = chrono::Utc::now() - chrono::TimeDelta::try_seconds(5 * 3600 + 600).unwrap();
    let text = format!(
        "#EXTM3U\n#ID3-EQUIV-TDTG:{}\n#EXTINF:2.0,\n0.ts\n",
        then.format("%Y-%m-%dT%H:%M:%S")
    );
    let (age, parts) = parse_playlist(text).unwrap();
    assert_eq!(age, Some(5));
    assert_eq!(parts, vec![pair("0.ts", "2.0")]);
}

#[test]
fn the_age_at_a_given_moment() {
    let text = "#ID3-EQUIV-TDTG:2023-10-07T23:33:29\n#EXTINF:9.009,\n2.ts";
    let (age, parts) = parse_playlist_at(text, DATE + 5 * 3600 + 59, 0).unwrap();
    assert_eq!(age, Some(5));
    assert_eq!(parts, vec![pair("2.ts", "9.009")]);
    assert_eq!(parse_playlist_at(text, DATE + 23 * 3600 + 3599, 0).unwrap().0, Some(23));
    assert_eq!(parse_playlist_at(text, DATE + 24 * 3600, 0).unwrap().0, Some(24));
    assert_eq!(parse_playlist_at(text, DATE - 7200, 0).unwrap().0, Some((-2i64) as usize));
}

#[test]
fn the_last_date_counts() {
    let text = "#ID3-EQUIV-TDTG:2020-01-01T00:00:00\n#ID3-EQUIV-TDTG: \"2023-10-07T23:33:29\" \n";
    assert_eq!(scan_playlist(text), Ok((Some(DATE), Vec::new())));
}

#[test]
fn a_bad_date_is_an_error() {
    let parsed = parse_playlist("#EXTINF:1.0,\n1.ts\n#ID3-EQUIV-TDTG:soon\n".to_string());
    assert!(matches!(
        parsed,
        Err(MalformedPlaylistError::Parse(PlaylistParseError::InvalidTimeFormat(_)))
    ));
    let early = parse_playlist("#ID3-EQUIV-TDTG:soon\n#EXTINF:9.009,".to_string());
    assert!(matches!(
        early,
        Err(MalformedPlaylistError::Parse(PlaylistParseError::InvalidTimeFormat(_)))
    ));
}

#[test]
fn the_first_fault_is_reported() {
    let parsed = parse_playlist("#EXTINF:9.009,\n#ID3-EQUIV-TDTG:soon".to_string());
    assert_eq!(parsed, Ok((None, vec![pair("#ID3-EQUIV-TDTG:soon", "9.009")])));
}

#[test]
fn a_byte_range_line_is_passed_over() {
    let text = "#EXTINF:4.5,\n#EXT-X-BYTERANGE:100@0\n  7-muted.ts \r\n#EXTINF:1,\n8.ts\n";
    let (_, parts) = parse_playlist(text.to_string()).unwrap();
    assert_eq!(parts, vec![pair("7-muted.ts", "4.5"), pair("8.ts", "1")]);
}

#[test]
fn only_one_byte_range_line_is_passed_over() {
    let text = "#EXTINF:4.5,\n#EXT-X-BYTERANGE:1@0\n#EXT-X-BYTERANGE:2@0\n7.ts\n";
    let (_, parts) = parse_playlist(text.to_string()).unwrap();
    assert_eq!(parts, vec![pair("#EXT-X-BYTERANGE:2@0", "4.5")]);
}

#[test]
fn other_lines_are_passed_over() {
    let text = "#EXTM3U\n#EXT-X-VERSION:3\n\n #EXTINF:1.0,\nx.ts\n#EXT-X-ENDLIST\n";
    assert_eq!(parse_playlist(text.to_string()), Ok((None, Vec::new())));
    assert_eq!(parse_playlist(String::new()), Ok((None, Vec::new())));
}

#[test]
fn a_reference_that_comes_again_keeps_its_place_and_takes_the_new_duration() {
    let text = "#EXTINF:1.0,\na.ts\n#EXTINF:2.0,\nb.ts\n#EXTINF:3.0,\na.ts\n";
    let (_, parts) = parse_playlist(text.to_string()).unwrap();
    assert_eq!(parts, vec![pair("a.ts", "3.0"), pair("b.ts", "2.0")]);
}

#[test]
fn the_duration_is_the_text_between_the_commas() {
    let text = "#EXTINF:,,10.5,,\na.ts\n#EXTINF:abc\nb.ts\n#EXTINF:\nc.ts\n#EXTINF:1.5,live\nd.ts";
    let (_, parts) = parse_playlist(text.to_string()).unwrap();
    assert_eq!(
        parts,
        vec![pair("a.ts", "10.5"), pair("b.ts", "abc"), pair("c.ts", ""), pair("d.ts", "1.5,live")]
    );
    assert_eq!(duration(&parts[0].1), 10.5f32);
    assert_eq!(duration(&parts[1].1), 0.0f32);
    assert_eq!(duration(&parts[2].1), 0.0f32);
    assert_eq!(duration(&parts[3].1), 0.0f32);
}

#[test]
fn put_pair_updates_or_appends() {
    let mut entries = vec![pair("a", "1"), pair("b", "2")];
    assert_eq!(position_in(&entries, &"b".to_string()), Some(1));
    assert_eq!(position_in(&entries, &"c".to_string()), None);
    put_pair(&mut entries, "a".to_string(), "9".to_string());
    assert_eq!(entries, vec![pair("a", "9"), pair("b", "2")]);
    put_pair(&mut entries, "c".to_string(), "3".to_string());
    assert_eq!(entries, vec![pair("a", "9"), pair("b", "2"), pair("c", "3")]);
}
