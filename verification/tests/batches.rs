use hls_fetch::batch::{
    download_ts_and_replace, segment_path, Batch, BatchStatus, SegmentJob, MAX_CONCURRENT,
};
use m3u8_rs::playlist::{MediaPlaylist, MediaSegment};

fn playlist_of(count: usize) -> MediaPlaylist {
    let mut playlist = MediaPlaylist::default();
    for i in 0..count {
        let mut segment = MediaSegment::empty();
        segment.uri = format!("https://host/dir/seg-{}.ts", i);
        segment.duration = 2.0;
        playlist.segments.push(segment);
    }
    playlist
}

fn uris_of(playlist: &MediaPlaylist) -> Vec<String> {
    playlist.segments.iter().map(|s| s.uri.clone()).collect()
}

fn start(batch: Batch) -> (Batch, SegmentJob) {
    match batch.start_next() {
        (batch, Some(job)) => (batch, job),
        (_, None) => panic!("no job was handed out"),
    }
}

fn start_all(mut batch: Batch) -> (Batch, Vec<SegmentJob>) {
    let mut jobs = Vec::new();
    loop {
        let (next, job) = batch.start_next();
        batch = next;
        match job {
            Some(job) => jobs.push(job),
            None => return (batch, jobs),
        }
    }
}

#[test]
fn concurrency_limit_is_ten() {
    assert_eq!(MAX_CONCURRENT, 10);
}

#[test]
fn segment_files_are_named_by_ordinal() {
    assert_eq!(segment_path("stream.m3u8.ts", 0), "stream.m3u8.ts/0.ts");
    assert_eq!(segment_path("stream.m3u8.ts", 1), "stream.m3u8.ts/1.ts");
    assert_eq!(segment_path("out", 10), "out/10.ts");
    assert_eq!(segment_path("out", 123456), "out/123456.ts");
}

#[test]
fn planned_batch_has_every_job_waiting() {
    let playlist = playlist_of(3);
    let batch = download_ts_and_replace("out", &playlist);
    assert_eq!(batch.len(), 3);
    assert_eq!(batch.running(), 0);
    assert_eq!(batch.status(), BatchStatus::InProgress);
    assert!(!batch.is_complete());
    assert!(!batch.is_aborted());
}

#[test]
fn batch_of_no_segments_is_complete() {
    let playlist = playlist_of(0);
    let batch = download_ts_and_replace("out", &playlist);
    assert_eq!(batch.status(), BatchStatus::Complete);
    let (batch, job) = batch.start_next();
    assert_eq!(job, None);
    let mut playlist = playlist;
    assert!(batch.rewrite(&mut playlist));
    assert!(playlist.segments.is_empty());
}

#[test]
fn jobs_are_handed_out_in_playlist_order() {
    let playlist = playlist_of(3);
    let batch = download_ts_and_replace("out", &playlist);
    let (batch, jobs) = start_all(batch);
    assert_eq!(
        jobs,
        vec![
            SegmentJob {
                ordinal: 0,
                url: "https://host/dir/seg-0.ts".to_string(),
                path: "out/0.ts".to_string()
            },
            SegmentJob {
                ordinal: 1,
                url: "https://host/dir/seg-1.ts".to_string(),
                path: "out/1.ts".to_string()
            },
            SegmentJob {
                ordinal: 2,
                url: "https://host/dir/seg-2.ts".to_string(),
                path: "out/2.ts".to_string()
            },
        ]
    );
    assert_eq!(batch.running(), 3);
}

#[test]
fn no_more_than_ten_jobs_run_at_a_time() {
    let playlist = playlist_of(25);
    let batch = download_ts_and_replace("out", &playlist);
    let (batch, jobs) = start_all(batch);
    assert_eq!(jobs.len(), 10);
    assert_eq!(batch.running(), 10);
    let (batch, job) = batch.start_next();
    assert_eq!(job, None);
    assert_eq!(batch.running(), 10);
}

#[test]
fn finished_job_makes_room_for_the_next() {
    let playlist = playlist_of(25);
    let (batch, _) = start_all(download_ts_and_replace("out", &playlist));
    let (batch, known) = batch.job_finished(4);
    assert!(known);
    assert_eq!(batch.running(), 9);
    let (batch, job) = start(batch);
    assert_eq!(job.ordinal, 10);
    assert_eq!(job.url, "https://host/dir/seg-10.ts");
    assert_eq!(job.path, "out/10.ts");
    assert_eq!(batch.running(), 10);
    let (_, job) = batch.start_next();
    assert_eq!(job, None);
}

#[test]
fn running_jobs_stay_within_the_limit_throughout() {
    for count in [0usize, 1, 9, 10, 11, 37] {
        let playlist = playlist_of(count);
        let mut batch = download_ts_and_replace("out", &playlist);
        let mut running: Vec<usize> = Vec::new();
        let mut finished = 0;
        let mut turn = 0usize;
        while finished < count {
            let (next, jobs) = start_all(batch);
            batch = next;
            running.extend(jobs.iter().map(|job| job.ordinal));
            assert!(batch.running() <= MAX_CONCURRENT);
            assert_eq!(batch.running(), running.len());
            assert_eq!(running.len(), MAX_CONCURRENT.min(count - finished));
            let ordinal = running.remove(turn * 7 % running.len());
            let (next, known) = batch.job_finished(ordinal);
            assert!(known);
            batch = next;
            finished += 1;
            turn += 1;
        }
        assert_eq!(batch.status(), BatchStatus::Complete);
        assert_eq!(batch.running(), 0);
    }
}

#[test]
fn report_for_a_job_that_is_not_running_changes_nothing() {
    let playlist = playlist_of(3);
    let batch = download_ts_and_replace("out", &playlist);
    let (batch, known) = batch.job_finished(0);
    assert!(!known);
    let (batch, known) = batch.job_failed(7);
    assert!(!known);
    assert_eq!(batch.status(), BatchStatus::InProgress);
    let (batch, job) = start(batch);
    assert_eq!(job.ordinal, 0);
    let (batch, known) = batch.job_finished(0);
    assert!(known);
    let (batch, known) = batch.job_finished(0);
    assert!(!known);
    let (batch, known) = batch.job_failed(0);
    assert!(!known);
    assert_eq!(batch.running(), 0);
    assert_eq!(batch.status(), BatchStatus::InProgress);
}

#[test]
fn failed_job_aborts_the_batch() {
    let playlist = playlist_of(25);
    let (batch, _) = start_all(download_ts_and_replace("out", &playlist));
    let (batch, known) = batch.job_failed(3);
    assert!(known);
    assert_eq!(batch.status(), BatchStatus::Aborted);
    assert!(batch.is_aborted());
    assert_eq!(batch.running(), 9);
    let (batch, job) = batch.start_next();
    assert_eq!(job, None);
    let (batch, known) = batch.job_finished(5);
    assert!(known);
    assert_eq!(batch.running(), 8);
    assert_eq!(batch.status(), BatchStatus::Aborted);
    let mut rewritten = playlist.clone();
    assert!(!batch.rewrite(&mut rewritten));
    assert_eq!(rewritten, playlist);
}

#[test]
fn playlist_is_rewritten_in_order_whatever_order_the_jobs_end_in() {
    let playlist = playlist_of(4);
    let (batch, jobs) = start_all(download_ts_and_replace("stream.m3u8.ts", &playlist));
    assert_eq!(jobs.len(), 4);
    let mut batch = batch;
    for ordinal in [2usize, 0, 3, 1] {
        let (next, known) = batch.job_finished(ordinal);
        assert!(known);
        batch = next;
    }
    assert_eq!(batch.status(), BatchStatus::Complete);
    let mut rewritten = playlist.clone();
    assert!(batch.rewrite(&mut rewritten));
    assert_eq!(
        uris_of(&rewritten),
        vec![
            "stream.m3u8.ts/0.ts",
            "stream.m3u8.ts/1.ts",
            "stream.m3u8.ts/2.ts",
            "stream.m3u8.ts/3.ts"
        ]
    );
    for job in jobs {
        assert_eq!(job.url, playlist.segments[job.ordinal].uri);
        assert_eq!(job.path, rewritten.segments[job.ordinal].uri);
    }
}

#[test]
fn rewriting_keeps_everything_but_the_uris() {
    let mut playlist = playlist_of(2);
    playlist.version = 4;
    playlist.end_list = true;
    playlist.segments[0].title = Some("intro".to_string());
    let (batch, _) = start_all(download_ts_and_replace("out", &playlist));
    let (batch, _) = batch.job_finished(1);
    let (batch, _) = batch.job_finished(0);
    let mut expected = playlist.clone();
    expected.segments[0].uri = "out/0.ts".to_string();
    expected.segments[1].uri = "out/1.ts".to_string();
    assert!(batch.rewrite(&mut playlist));
    assert_eq!(playlist, expected);
}

#[test]
fn playlist_is_not_rewritten_before_the_batch_is_complete() {
    let playlist = playlist_of(2);
    let (batch, _) = start_all(download_ts_and_replace("out", &playlist));
    let (batch, _) = batch.job_finished(0);
    let mut rewritten = playlist.clone();
    assert!(!batch.rewrite(&mut rewritten));
    assert_eq!(rewritten, playlist);
}

#[test]
fn another_playlist_is_not_rewritten() {
    let playlist = playlist_of(2);
    let (batch, _) = start_all(download_ts_and_replace("out", &playlist));
    let (batch, _) = batch.job_finished(0);
    let (batch, _) = batch.job_finished(1);
    let mut longer = playlist_of(3);
    assert!(!batch.rewrite(&mut longer));
    assert_eq!(longer, playlist_of(3));
    let mut other = playlist_of(2);
    other.segments[1].uri = "https://elsewhere/x.ts".to_string();
    let before = other.clone();
    assert!(!batch.rewrite(&mut other));
    assert_eq!(other, before);
}

#[test]
fn local_manifest_is_the_rewritten_playlist_written_out() {
    let mut playlist = playlist_of(2);
    playlist.version = 3;
    playlist.target_duration = 2.0;
    let (batch, _) = start_all(download_ts_and_replace("stream.m3u8.ts", &playlist));
    let (batch, _) = batch.job_finished(0);
    let (batch, _) = batch.job_finished(1);
    let text = batch.local_manifest(&mut playlist).unwrap();
    assert_eq!(uris_of(&playlist), vec!["stream.m3u8.ts/0.ts", "stream.m3u8.ts/1.ts"]);
    let mut expected = Vec::new();
    playlist.write_to(&mut expected).unwrap();
    assert_eq!(text, expected);
    let text = String::from_utf8(text).unwrap();
    assert!(text.starts_with("#EXTM3U\n#EXT-X-VERSION:3\n#EXT-X-TARGETDURATION:2\n"));
    assert!(text.contains("#EXTINF:2,\nstream.m3u8.ts/0.ts\n"));
    assert!(text.ends_with("#EXTINF:2,\nstream.m3u8.ts/1.ts\n"));
    assert!(!text.contains("https://host/dir/seg-0.ts"));
}

#[test]
fn local_manifest_reads_back_with_the_local_files() {
    let mut playlist = playlist_of(3);
    let (batch, _) = start_all(download_ts_and_replace("out", &playlist));
    let (batch, _) = batch.job_finished(2);
    let (batch, _) = batch.job_finished(0);
    let (batch, _) = batch.job_finished(1);
    let text = batch.local_manifest(&mut playlist).unwrap();
    match m3u8_rs::parse_playlist(&text) {
        Ok((_, m3u8_rs::playlist::Playlist::MediaPlaylist(read))) => {
            assert_eq!(uris_of(&read), vec!["out/0.ts", "out/1.ts", "out/2.ts"]);
        }
        _ => panic!("the local manifest is no media playlist"),
    }
}

#[test]
fn local_manifest_is_withheld_until_the_batch_is_complete() {
    let playlist = playlist_of(2);
    let (batch, _) = start_all(download_ts_and_replace("out", &playlist));
    let (batch, _) = batch.job_finished(1);
    let mut kept = playlist.clone();
    assert_eq!(batch.local_manifest(&mut kept), None);
    assert_eq!(kept, playlist);
    let (batch, _) = batch.job_failed(0);
    assert_eq!(batch.local_manifest(&mut kept), None);
    assert_eq!(kept, playlist);
}
