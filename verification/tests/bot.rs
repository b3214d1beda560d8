use music_bot::bot::{
    download_reply, DownloadReply,
    added_message, download_failed_message, downloading_message, list_message, plan_command,
    BotCommand, CommandPlan, PlayerOp,
};
use music_bot::download::DownloadError;
use music_bot::file::{FileCache, KeepFile};
use music_bot::track::{Track, TrackInfo};
use std::collections::VecDeque;

#[test]
fn commands_are_planned() {
    assert_eq!(
        plan_command(&BotCommand::Play("https://youtu.be/abc".to_string())),
        CommandPlan::Download("https://youtu.be/abc".to_string())
    );
    assert_eq!(plan_command(&BotCommand::Stop), CommandPlan::Control(PlayerOp::Stop, "Stopped.".to_string()));
    assert_eq!(plan_command(&BotCommand::Pause), CommandPlan::Control(PlayerOp::Pause, "Paused.".to_string()));
    assert_eq!(plan_command(&BotCommand::Resume), CommandPlan::Control(PlayerOp::Play, "Resumed.".to_string()));
    assert_eq!(plan_command(&BotCommand::Skip), CommandPlan::Control(PlayerOp::SkipOne, "Skipped.".to_string()));
    assert_eq!(plan_command(&BotCommand::List), CommandPlan::List);
}

#[test]
fn download_replies() {
    assert_eq!(downloading_message(), "Downloading...");
    assert_eq!(added_message("A Song"), "Added to the queue: A Song");
    assert_eq!(download_failed_message(), "Failed to download.");
}

#[test]
fn listing_when_nothing_plays() {
    let mut queue = VecDeque::new();
    assert_eq!(list_message(&None, &queue), "Nothing is playing.");
    queue.push_back(TrackInfo::new("u", "n"));
    assert_eq!(list_message(&None, &queue), "Nothing is playing.");
}

#[test]
fn listing_with_only_the_current_track() {
    let current = Some(TrackInfo::new("https://youtu.be/abc", "A Song"));
    assert_eq!(
        list_message(&current, &VecDeque::new()),
        "Currently playing: A Song (https://youtu.be/abc)"
    );
}

#[test]
fn listing_with_a_queue() {
    let current = Some(TrackInfo::new("https://youtu.be/abc", "A Song"));
    let mut queue = VecDeque::new();
    queue.push_back(TrackInfo::new("https://youtu.be/d", "D"));
    queue.push_back(TrackInfo::new("https://youtu.be/e", "E"));
    assert_eq!(
        list_message(&current, &queue),
        "Currently playing: A Song (https://youtu.be/abc)\nQueue:\nD (https://youtu.be/d)\nE (https://youtu.be/e)"
    );
}

#[test]
fn download_outcome_replies() {
    let mut cache: FileCache<KeepFile> = FileCache::new();
    let track = Track::new(TrackInfo::new("u", "A Song"), cache.create_file_handle("a.mp3"));
    match download_reply(Ok(track)) {
        DownloadReply::Enqueue(t, text) => {
            assert_eq!(t.info.name, "A Song");
            assert_eq!(text, "Added to the queue: A Song");
        }
        other => panic!("unexpected {:?}", other),
    }
    match download_reply::<KeepFile>(Err(DownloadError)) {
        DownloadReply::Failed(text) => assert_eq!(text, "Failed to download."),
        other => panic!("unexpected {:?}", other),
    }
}
