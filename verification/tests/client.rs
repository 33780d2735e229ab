use twba_downloader::client::{
    count_in_flight, is_backlog_full, select_videos, Batch, BatchAction, Phase, Status, Video,
    BACKLOG_LIMIT,
};

fn video(id: i32, status: Status, created_at: i64) -> Video {
    Video { id, twitch_id: format!("v{}", id), status, created_at }
}

fn ids(videos: &Vec<Video>) -> Vec<i32> {
    videos.iter().map(|video| video.id).collect()
}

#[test]
fn statuses_from_downloading_to_uploading_are_in_flight() {
    assert!(!Status::NotStarted.is_in_flight());
    assert!(Status::Downloading.is_in_flight());
    assert!(Status::Downloaded.is_in_flight());
    assert!(Status::Uploading.is_in_flight());
    assert!(!Status::Uploaded.is_in_flight());
    assert!(!Status::Failed.is_in_flight());
}

#[test]
fn counts_the_videos_in_flight() {
    let videos = vec![
        video(1, Status::NotStarted, 0),
        video(2, Status::Downloading, 0),
        video(3, Status::Failed, 0),
        video(4, Status::Uploading, 0),
        video(5, Status::Uploaded, 0),
        video(6, Status::Downloaded, 0),
    ];
    assert_eq!(count_in_flight(&videos), 3);
    assert_eq!(count_in_flight(&Vec::new()), 0);
}

#[test]
fn the_backlog_is_full_at_three() {
    assert_eq!(BACKLOG_LIMIT, 3);
    assert!(!is_backlog_full(0));
    assert!(!is_backlog_full(2));
    assert!(is_backlog_full(3));
    assert!(is_backlog_full(u64::MAX));
}

#[test]
fn selects_the_oldest_videos_that_are_not_started() {
    let videos = vec![
        video(1, Status::NotStarted, 30),
        video(2, Status::Downloaded, 5),
        video(3, Status::NotStarted, 10),
        video(4, Status::NotStarted, 30),
        video(5, Status::Failed, 1),
        video(6, Status::NotStarted, 20),
        video(7, Status::NotStarted, 10),
    ];
    assert_eq!(ids(&select_videos(&videos, 10)), vec![3, 7, 6, 1, 4]);
    assert_eq!(ids(&select_videos(&videos, 5)), vec![3, 7, 6, 1, 4]);
    assert_eq!(ids(&select_videos(&videos, 3)), vec![3, 7, 6]);
    assert_eq!(ids(&select_videos(&videos, 0)), Vec::<i32>::new());
    assert_eq!(select_videos(&videos, 1), vec![video(3, Status::NotStarted, 10)]);
}

#[test]
fn a_full_backlog_downloads_nothing() {
    let videos = vec![video(1, Status::NotStarted, 1), video(2, Status::NotStarted, 2)];
    for in_flight in [3, 4, 100] {
        let mut batch = Batch::start(in_flight, &videos, 10);
        assert!(batch.videos.is_empty());
        for outcome in [true, false, true, true] {
            assert_eq!(batch.current(), BatchAction::Finish);
            batch.proceed(outcome);
        }
        assert_eq!(batch.current(), BatchAction::Finish);
    }
}

#[test]
fn a_run_marks_downloads_and_records_each_video() {
    let videos = vec![
        video(2, Status::NotStarted, 20),
        video(1, Status::NotStarted, 10),
        video(9, Status::Uploaded, 0),
    ];
    let mut batch = Batch::start(2, &videos, 10);
    assert_eq!(ids(&batch.videos), vec![1, 2]);
    assert_eq!(batch.current(), BatchAction::SetStatus { id: 1, status: Status::Downloading });
    batch.proceed(true);
    assert_eq!(batch.current(), BatchAction::Download { id: 1, twitch_id: "v1".to_string() });
    batch.proceed(true);
    assert_eq!(batch.current(), BatchAction::SetStatus { id: 1, status: Status::Downloaded });
    batch.proceed(true);
    assert_eq!(batch.current(), BatchAction::SetStatus { id: 2, status: Status::Downloading });
    batch.proceed(true);
    assert_eq!(batch.current(), BatchAction::Download { id: 2, twitch_id: "v2".to_string() });
    batch.proceed(true);
    assert_eq!(batch.current(), BatchAction::SetStatus { id: 2, status: Status::Downloaded });
    batch.proceed(true);
    assert_eq!(batch.current(), BatchAction::Finish);
    batch.proceed(true);
    assert_eq!(batch.current(), BatchAction::Finish);
    assert_eq!(batch.next, 2);
}

#[test]
fn a_failed_download_is_recorded_and_the_run_goes_on() {
    let videos = vec![video(1, Status::NotStarted, 10), video(2, Status::NotStarted, 20)];
    let mut batch = Batch::start(0, &videos, 10);
    batch.proceed(true);
    assert_eq!(batch.phase, Phase::Downloading);
    batch.proceed(false);
    assert_eq!(batch.current(), BatchAction::SetStatus { id: 1, status: Status::Failed });
    batch.proceed(false);
    assert_eq!(batch.current(), BatchAction::SetStatus { id: 2, status: Status::Downloading });
}

#[test]
fn a_video_that_cannot_be_marked_is_not_downloaded() {
    let videos = vec![video(1, Status::NotStarted, 10), video(2, Status::NotStarted, 20)];
    let mut batch = Batch::start(0, &videos, 10);
    batch.proceed(false);
    assert_eq!(batch.current(), BatchAction::SetStatus { id: 2, status: Status::Downloading });
    batch.proceed(false);
    assert_eq!(batch.current(), BatchAction::Finish);
}

#[test]
fn no_more_videos_than_allowed_are_downloaded() {
    let videos = vec![
        video(1, Status::NotStarted, 10),
        video(2, Status::NotStarted, 20),
        video(3, Status::NotStarted, 30),
    ];
    let batch = Batch::start(2, &videos, 2);
    assert_eq!(ids(&batch.videos), vec![1, 2]);
    assert_eq!(Batch::start(0, &videos, 0).current(), BatchAction::Finish);
}
