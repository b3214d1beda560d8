use music_bot::download::{
    audio_file_name, fetch_args, fetch_succeeded, fetcher_program, info_file_name, normalize_args,
    normalizer_program, probe_args, title_of, youtube_url, Begin, DownloadError, Downloader,
    MAX_DURATION, judge_fetch, FetchOutcome, step_after_fetch, DownloadStep,
};
use music_bot::file::FileCache;
use music_bot::file::KeepFile;
use music_bot::probe::{Probe, ProbeError};

fn probe(id: &str, duration: u32) -> Probe {
    Probe { id: id.to_string(), duration }
}

#[test]
fn file_names_and_url_of_a_video() {
    assert_eq!(audio_file_name("abc"), "abc.mp3");
    assert_eq!(info_file_name("abc"), "abc.info.json");
    assert_eq!(youtube_url("abc"), "https://youtu.be/abc");
}

#[test]
fn too_long_videos_are_refused() {
    let mut downloader: Downloader<KeepFile> = Downloader::new();
    assert_eq!(MAX_DURATION, 900);
    assert!(matches!(downloader.begin(&probe("abc", 901)), Begin::TooLong));
    assert!(matches!(downloader.begin(&probe("abc", 900)), Begin::Fetch));
    assert!(matches!(downloader.begin(&probe("abc", 0)), Begin::Fetch));
}

#[test]
fn fetched_video_is_recorded_with_its_link_and_title() {
    let mut downloader: Downloader<KeepFile> = Downloader::new();
    let track = downloader.complete("abc", "A Song");
    assert_eq!(track.info.url, "https://youtu.be/abc");
    assert_eq!(track.info.name, "A Song");
    assert_eq!(track.file.get_path(), "abc.mp3");
}

#[test]
fn video_on_disk_is_played_again_with_its_info() {
    let mut downloader: Downloader<KeepFile> = Downloader::new();
    let first = downloader.complete("abc", "A Song");
    match downloader.begin(&probe("abc", 100)) {
        Begin::Cached(again) => {
            assert_eq!(again.info, first.info);
            assert_eq!(again.file.get_path(), "abc.mp3");
        }
        other => panic!("expected a cached track, got {:?}", other),
    }
    assert!(matches!(downloader.begin(&probe("xyz", 100)), Begin::Fetch));
    assert!(matches!(downloader.begin(&probe("abc", 1000)), Begin::TooLong));
}

#[test]
fn video_whose_file_was_released_is_fetched_again() {
    let mut downloader: Downloader<KeepFile> = Downloader::new();
    let first = downloader.complete("abc", "A Song");
    drop(first);
    assert!(matches!(downloader.begin(&probe("abc", 100)), Begin::Fetch));
    let second = downloader.complete("abc", "Renamed");
    match downloader.begin(&probe("abc", 100)) {
        Begin::Cached(again) => assert_eq!(again.info.name, "Renamed"),
        other => panic!("expected a cached track, got {:?}", other),
    }
    drop(second);
}

#[test]
fn title_is_read_from_the_info_json() {
    assert_eq!(title_of(r#"{"id": "abc", "title": "A Song"}"#), Some("A Song".to_string()));
    assert_eq!(title_of(r#"{"id": "abc"}"#), None);
    assert_eq!(title_of(r#"{"title": 5}"#), None);
    assert_eq!(title_of("not json"), None);
    assert_eq!(title_of(r#"["title"]"#), None);
}

#[test]
fn fetch_succeeds_only_with_output_and_no_errors() {
    assert!(fetch_succeeded(b"done", b""));
    assert!(!fetch_succeeded(b"", b""));
    assert!(!fetch_succeeded(b"done", b"warning"));
    assert!(!fetch_succeeded(b"", b"error"));
}

#[test]
fn program_arguments() {
    assert_eq!(fetcher_program(), "yt-dlp");
    assert_eq!(normalizer_program(), "uvx");
    assert_eq!(
        probe_args("U"),
        vec!["--print", "%(id)s %(duration)i", "--no-playlist", "--no-warnings", "--", "U"]
    );
    assert_eq!(
        fetch_args("U"),
        vec![
            "-o", "%(id)s", "--extract-audio", "--audio-format", "mp3", "--no-playlist",
            "--no-warnings", "--write-info-json", "--", "U"
        ]
    );
    assert_eq!(
        normalize_args("f.mp3"),
        vec!["ffmpeg-normalize", "f.mp3", "-ofmt", "mp3", "-o", "f.mp3", "-f"]
    );
}

#[test]
fn download_error_is_a_plain_value() {
    assert_eq!(DownloadError, DownloadError);
}

#[test]
fn decide_follows_duration_liveness_and_kept_info() {
    let mut downloader: Downloader<KeepFile> = Downloader::new();
    let kept = downloader.complete("abc", "A Song");
    let mut other_cache: FileCache<KeepFile> = FileCache::new();
    let live = other_cache.create_file_handle("abc.mp3");
    assert!(matches!(downloader.decide(&probe("abc", 901), None), Begin::TooLong));
    assert!(matches!(downloader.decide(&probe("abc", 900), None), Begin::Fetch));
    match downloader.decide(&probe("abc", 900), Some(live)) {
        Begin::Cached(t) => {
            assert_eq!(t.info, kept.info);
            assert_eq!(t.file.get_path(), "abc.mp3");
        }
        other => panic!("expected a cached track, got {:?}", other),
    }
    let unknown = other_cache.create_file_handle("xyz.mp3");
    assert!(matches!(downloader.decide(&probe("xyz", 10), Some(unknown)), Begin::Fetch));
}

#[test]
fn fetch_is_judged_after_the_title() {
    let json = r#"{"title": "A Song"}"#;
    assert_eq!(judge_fetch(json, b"ok", b""), FetchOutcome::Fetched("A Song".to_string()));
    assert_eq!(judge_fetch(json, b"ok", b"err"), FetchOutcome::Failed("A Song".to_string()));
    assert_eq!(judge_fetch(json, b"", b""), FetchOutcome::Failed("A Song".to_string()));
    assert_eq!(judge_fetch("{}", b"ok", b""), FetchOutcome::NoTitle);
}

#[test]
fn cached_file_always_has_its_info() {
    let mut downloader: Downloader<KeepFile> = Downloader::new();
    let a = downloader.complete("a", "A");
    let b = downloader.complete("b", "B");
    for (id, name, held) in [("a", "A", &a), ("b", "B", &b)] {
        match downloader.begin(&probe(id, 1)) {
            Begin::Cached(t) => {
                assert_eq!(t.info.url, format!("https://youtu.be/{}", id));
                assert_eq!(t.info.name, name);
                assert_eq!(t.file.get_path(), held.file.get_path());
            }
            other => panic!("expected a cached track, got {:?}", other),
        }
    }
}

#[test]
fn each_step_after_the_probe() {
    let mut cache_owner: Downloader<KeepFile> = Downloader::new();
    assert!(matches!(
        cache_owner.step_after_probe(&Err(ProbeError::TooFewFields)),
        DownloadStep::Finish(Err(DownloadError))
    ));
    assert!(matches!(
        cache_owner.step_after_probe(&Ok(probe("abc", 901))),
        DownloadStep::Finish(Err(DownloadError))
    ));
    assert!(matches!(cache_owner.step_after_probe(&Ok(probe("abc", 900))), DownloadStep::Fetch));
    let first = cache_owner.complete("abc", "A title");
    match cache_owner.step_after_probe(&Ok(probe("abc", 12))) {
        DownloadStep::Finish(Ok(again)) => {
            assert_eq!(again.info, first.info);
            assert_eq!(again.info.url, "https://youtu.be/abc");
        }
        _ => panic!("a file still in use is played again"),
    }
    drop(first);
    assert!(matches!(cache_owner.step_after_probe(&Ok(probe("abc", 12))), DownloadStep::Fetch));
}

#[test]
fn each_step_after_the_fetch() {
    assert!(matches!(
        step_after_fetch::<KeepFile>(FetchOutcome::Failed("t".to_string())),
        DownloadStep::Finish(Err(DownloadError))
    ));
    match step_after_fetch::<KeepFile>(FetchOutcome::Fetched("t".to_string())) {
        DownloadStep::Normalize(title) => assert_eq!(title, "t"),
        _ => panic!("a fetched file goes to the normalizer"),
    }
}
