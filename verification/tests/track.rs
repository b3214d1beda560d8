use music_bot::file::{FileCache, KeepFile};
use music_bot::track::{Track, TrackInfo};

#[test]
fn track_info_new_copies_url_and_name() {
    let info = TrackInfo::new("https://youtu.be/abc", "Song");
    assert_eq!(info.url, "https://youtu.be/abc");
    assert_eq!(info.name, "Song");
    assert_eq!(info.clone(), info);
}

#[test]
fn track_new_keeps_info_and_file() {
    let mut cache: FileCache<KeepFile> = FileCache::new();
    let file = cache.create_file_handle("abc.mp3");
    let track = Track::new(TrackInfo::new("u", "n"), file);
    assert_eq!(track.info, TrackInfo::new("u", "n"));
    assert_eq!(track.file.get_path(), "abc.mp3");
}
