use twba_downloader::errors::{DownloadError, MalformedPlaylistError, PlaylistParseError};
use twba_downloader::twitch::twitch_utils::{
    get_playlist_from_quality_list, label_of, read_qualities, select_variant, VariantChoice,
};

const MASTER: &str = "#EXTM3U\n\
#EXT-X-MEDIA:TYPE=VIDEO,GROUP-ID=\"chunked\",NAME=\"source\",AUTOSELECT=YES,DEFAULT=YES\n\
#EXT-X-STREAM-INF:BANDWIDTH=8000000,CODECS=\"avc1.64002A,mp4a.40.2\",VIDEO=\"chunked\"\n\
https://example.test/chunked/index-dvr.m3u8\n\
#EXT-X-MEDIA:TYPE=VIDEO,GROUP-ID=\"720p60\",NAME=\"720p\",AUTOSELECT=YES,DEFAULT=YES\n\
#EXT-X-STREAM-INF:BANDWIDTH=3000000,CODECS=\"avc1.4D401F,mp4a.40.2\",VIDEO=\"720p60\"\n\
https://example.test/720p60/index-dvr.m3u8\n";

const U1: &str = "https://example.test/720p60/index-dvr.m3u8";
const U2: &str = "https://example.test/chunked/index-dvr.m3u8";

fn chars(s: &str) -> Vec<char> {
    s.chars().collect()
}

#[test]
fn the_wanted_quality_is_chosen() {
    assert_eq!(
        select_variant(MASTER, "720p"),
        Ok(VariantChoice { url: U1.to_string(), fallback: false })
    );
    assert_eq!(
        select_variant(MASTER, "source"),
        Ok(VariantChoice { url: U2.to_string(), fallback: false })
    );
    assert_eq!(get_playlist_from_quality_list(MASTER.to_string(), "720p"), Ok(U1.to_string()));
}

#[test]
fn a_missing_quality_falls_back_to_the_first() {
    assert_eq!(
        select_variant(MASTER, "1080p"),
        Ok(VariantChoice { url: U2.to_string(), fallback: true })
    );
    assert_eq!(get_playlist_from_quality_list(MASTER.to_string(), "1080p"), Ok(U2.to_string()));
    assert_eq!(get_playlist_from_quality_list(MASTER.to_string(), "max"), Ok(U2.to_string()));
}

#[test]
fn no_declaration_gives_no_qualities() {
    for text in ["", "#EXTM3U\n", "#EXT-X-STREAM-INF:BANDWIDTH=1\nhttps://example.test/a\n"] {
        assert_eq!(select_variant(text, "720p"), Err(MalformedPlaylistError::NoQualities));
        assert_eq!(
            get_playlist_from_quality_list(text.to_string(), "720p"),
            Err(DownloadError::MalformedPlaylist(MalformedPlaylistError::NoQualities))
        );
    }
}

#[test]
fn a_label_counts_once_as_first_declared() {
    let text = "#EXT-X-MEDIA:NAME=\"a\"\nx\nfirst\n#EXT-X-MEDIA:NAME=\"a\"\nx\nsecond\n";
    assert_eq!(read_qualities(text), Ok(vec![("a".to_string(), "first".to_string())]));
    assert_eq!(get_playlist_from_quality_list(text.to_string(), "a"), Ok("first".to_string()));
}

#[test]
fn a_declaration_near_the_end_is_eof() {
    let text = "#EXT-X-MEDIA:NAME=\"a\"\nx\n";
    assert_eq!(
        select_variant(text, "a"),
        Err(MalformedPlaylistError::Parse(PlaylistParseError::Eof))
    );
    assert_eq!(
        get_playlist_from_quality_list("#EXT-X-MEDIA:NAME=\"a\"".to_string(), "a"),
        Err(DownloadError::MalformedPlaylist(MalformedPlaylistError::Parse(
            PlaylistParseError::Eof
        )))
    );
}

#[test]
fn a_repeated_label_near_the_end_is_no_fault() {
    let text = "#EXT-X-MEDIA:NAME=\"a\"\nx\nfirst\n#EXT-X-MEDIA:NAME=\"a\"\n";
    assert_eq!(get_playlist_from_quality_list(text.to_string(), "a"), Ok("first".to_string()));
}

#[test]
fn a_media_line_without_name_declares_nothing() {
    let text = "#EXT-X-MEDIA:TYPE=VIDEO\nx\ny\n#EXT-X-MEDIA:NAME=\"b\"\nx\nurl\n";
    assert_eq!(read_qualities(text), Ok(vec![("b".to_string(), "url".to_string())]));
}

#[test]
fn the_address_is_the_line_as_it_stands() {
    let text = "#EXT-X-MEDIA:NAME=\"b\"\r\nx\r\n  url with spaces \r\n";
    assert_eq!(
        select_variant(text, "b"),
        Ok(VariantChoice { url: "  url with spaces ".to_string(), fallback: false })
    );
}

#[test]
fn labels_end_at_the_quote_or_at_the_next_name() {
    assert_eq!(label_of(&chars("#EXT-X-MEDIA:NAME=\"720p\",X=1")), Some(chars("720p")));
    assert_eq!(label_of(&chars("#EXT-X-MEDIA:NAME=\"\"")), Some(chars("")));
    assert_eq!(label_of(&chars("#EXT-X-MEDIA:NAME=\"open")), Some(chars("open")));
    assert_eq!(label_of(&chars("NAME=\"early\" #EXT-X-MEDIA")), Some(chars("early")));
    assert_eq!(label_of(&chars("#EXT-X-MEDIA:NAME=\"abcNAME=\"x\"")), Some(chars("abc")));
    assert_eq!(label_of(&chars("#EXT-X-MEDIA:name=\"x\"")), None);
    assert_eq!(label_of(&chars("NAME=\"x\"")), None);
    for line in ["#EXT-X-MEDIA:NAME=\"720p\",X=1", "#EXT-X-MEDIA:NAME=\"abcNAME=\"x\"", "#EXT-X-MEDIA:NAME=\"open"] {
        let expected = line.split("NAME=\"").collect::<Vec<&str>>()[1].split('"').collect::<Vec<&str>>()[0];
        assert_eq!(label_of(&chars(line)), Some(chars(expected)));
    }
}
