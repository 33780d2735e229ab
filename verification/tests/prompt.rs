use twba_downloader::prompt::read_answer;

#[test]
fn an_empty_answer_goes_on() {
    assert_eq!(read_answer(""), Some(true));
    assert_eq!(read_answer("\n"), Some(true));
    assert_eq!(read_answer("  \r\n"), Some(true));
}

#[test]
fn q_stops() {
    assert_eq!(read_answer("q"), Some(false));
    assert_eq!(read_answer(" q\n"), Some(false));
}

#[test]
fn anything_else_is_no_answer() {
    assert_eq!(read_answer("Q\n"), None);
    assert_eq!(read_answer("qq"), None);
    assert_eq!(read_answer("yes"), None);
    assert_eq!(read_answer("q q"), None);
}
