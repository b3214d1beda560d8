use music_bot::channel::{channel, RecvError, TryRecvError};
use music_bot::file::{FileCache, KeepFile};
use music_bot::player::{
    read_listing, MusicPlayer, PlayerError, PlayerState, Polled, SinkAction, WorkerRequest,
    WorkerResponse,
};
use std::collections::VecDeque;
use music_bot::track::{Track, TrackInfo};

fn track(cache: &mut FileCache<KeepFile>, id: &str) -> Track<KeepFile> {
    let file = cache.create_file_handle(&format!("{}.mp3", id));
    Track::new(TrackInfo::new(&format!("https://youtu.be/{}", id), id), file)
}

fn listing(state: &mut PlayerState<KeepFile>) -> (Option<String>, Vec<String>) {
    match state.match_request(WorkerRequest::ListTracks) {
        (WorkerResponse::TrackList(current, queue), SinkAction::Nothing) => (
            current.map(|t| t.name),
            queue.into_iter().map(|t| t.name).collect(),
        ),
        other => panic!("unexpected answer {:?}", other),
    }
}

#[test]
fn new_state_lists_nothing() {
    let mut state: PlayerState<KeepFile> = PlayerState::new();
    assert_eq!(listing(&mut state), (None, vec![]));
}

#[test]
fn enqueued_tracks_are_listed_in_order() {
    let mut cache = FileCache::new();
    let mut state = PlayerState::new();
    let (_, action) = state.match_request(WorkerRequest::AddTrack(track(&mut cache, "a")));
    assert_eq!(action, SinkAction::Nothing);
    state.match_request(WorkerRequest::AddTrack(track(&mut cache, "b")));
    assert_eq!(listing(&mut state), (None, vec!["a".to_string(), "b".to_string()]));
}

#[test]
fn control_requests_tell_the_sink() {
    let mut state: PlayerState<KeepFile> = PlayerState::new();
    assert!(matches!(state.match_request(WorkerRequest::Pause), (WorkerResponse::Done, SinkAction::Pause)));
    assert!(matches!(state.match_request(WorkerRequest::Play), (WorkerResponse::Done, SinkAction::Play)));
    assert!(matches!(state.match_request(WorkerRequest::Stop), (WorkerResponse::Done, SinkAction::Stop)));
    assert!(matches!(state.match_request(WorkerRequest::SkipOne), (WorkerResponse::Done, SinkAction::SkipOne)));
}

#[test]
fn tracks_start_in_queue_order_when_the_sink_runs_dry() {
    let mut cache = FileCache::new();
    let mut state = PlayerState::new();
    state.match_request(WorkerRequest::AddTrack(track(&mut cache, "a")));
    state.match_request(WorkerRequest::AddTrack(track(&mut cache, "b")));
    assert_eq!(state.advance(false), None);
    assert_eq!(listing(&mut state), (None, vec!["a".to_string(), "b".to_string()]));
    assert_eq!(state.advance(true), Some("a.mp3".to_string()));
    assert_eq!(listing(&mut state), (Some("a".to_string()), vec!["b".to_string()]));
    assert_eq!(state.advance(false), None);
    assert_eq!(listing(&mut state), (Some("a".to_string()), vec!["b".to_string()]));
    assert_eq!(state.advance(true), Some("b.mp3".to_string()));
    assert_eq!(listing(&mut state), (Some("b".to_string()), vec![]));
    assert_eq!(state.advance(true), None);
    assert_eq!(listing(&mut state), (None, vec![]));
}

#[test]
fn skip_ends_the_current_track_and_keeps_the_queue() {
    let mut cache = FileCache::new();
    let mut state = PlayerState::new();
    state.match_request(WorkerRequest::AddTrack(track(&mut cache, "a")));
    state.match_request(WorkerRequest::AddTrack(track(&mut cache, "b")));
    state.advance(true);
    state.match_request(WorkerRequest::SkipOne);
    assert_eq!(listing(&mut state), (None, vec!["b".to_string()]));
}

#[test]
fn stop_empties_everything() {
    let mut cache = FileCache::new();
    let mut state = PlayerState::new();
    state.match_request(WorkerRequest::AddTrack(track(&mut cache, "a")));
    state.match_request(WorkerRequest::AddTrack(track(&mut cache, "b")));
    state.advance(true);
    state.match_request(WorkerRequest::Stop);
    assert_eq!(listing(&mut state), (None, vec![]));
}

#[test]
fn played_and_dropped_tracks_release_their_files() {
    let mut cache = FileCache::new();
    let mut state = PlayerState::new();
    state.match_request(WorkerRequest::AddTrack(track(&mut cache, "a")));
    assert!(cache.contains_key("a.mp3"));
    state.advance(true);
    assert!(cache.contains_key("a.mp3"));
    state.advance(true);
    assert!(!cache.contains_key("a.mp3"));
}

#[test]
fn serve_pending_answers_requests_from_the_player() {
    let mut cache = FileCache::new();
    let (requester, responder) = channel();
    let mut player = MusicPlayer::new(requester);
    let mut state = PlayerState::new();
    assert!(matches!(state.serve_pending(&responder), Polled::Idle));
    player.enqueue(track(&mut cache, "a")).unwrap();
    player.pause().unwrap();
    player.play().unwrap();
    player.skip_one().unwrap();
    player.stop().unwrap();
    assert!(matches!(state.serve_pending(&responder), Polled::Served(SinkAction::Nothing, _, _)));
    assert_eq!(listing(&mut state), (None, vec!["a".to_string()]));
    assert!(matches!(state.serve_pending(&responder), Polled::Served(SinkAction::Pause, _, _)));
    assert!(matches!(state.serve_pending(&responder), Polled::Served(SinkAction::Play, _, _)));
    assert!(matches!(state.serve_pending(&responder), Polled::Served(SinkAction::SkipOne, _, _)));
    assert!(matches!(state.serve_pending(&responder), Polled::Served(SinkAction::Stop, _, _)));
    assert_eq!(listing(&mut state), (None, vec![]));
    drop(player);
    assert!(matches!(state.serve_pending(&responder), Polled::Disconnected));
}

#[test]
fn player_requests_fail_once_the_worker_is_gone() {
    let mut cache = FileCache::new();
    let (requester, responder) = channel();
    let mut player = MusicPlayer::<KeepFile>::new(requester);
    drop(responder);
    let err = player.enqueue(track(&mut cache, "a")).err().expect("worker is gone");
    assert!(matches!(err.0, WorkerRequest::AddTrack(ref t) if t.info.name == "a"));
    assert!(matches!(player.stop().err().map(|e| e.0), Some(WorkerRequest::Stop)));
    assert!(player.list_tracks().is_err());
}

#[test]
fn serve_request_handles_each_kind_of_look() {
    let mut cache = FileCache::new();
    let mut state: PlayerState<KeepFile> = PlayerState::new();
    assert!(matches!(state.serve_request(Err(TryRecvError::Empty)), Polled::Idle));
    assert!(matches!(state.serve_request(Err(TryRecvError::Disconnected)), Polled::Disconnected));
    let (requester, responder) = channel();
    let response = requester.send(WorkerRequest::AddTrack(track(&mut cache, "a"))).ok().unwrap();
    let request = responder.try_recv().ok().unwrap();
    match state.serve_request(Ok(request)) {
        Polled::Served(SinkAction::Nothing, mut back, reply) => {
            assert!(back.take_data().is_none());
            assert!(matches!(reply, WorkerResponse::Done));
            back.respond(reply).unwrap();
        }
        _ => panic!("the request was not served"),
    }
    assert!(matches!(response.recv(), Ok(WorkerResponse::Done)));
    let listed = requester.send(WorkerRequest::ListTracks).ok().unwrap();
    match state.serve_request(Ok(responder.try_recv().ok().unwrap())) {
        Polled::Served(SinkAction::Nothing, mut back, reply) => back.respond(reply).unwrap(),
        _ => panic!("the request was not served"),
    }
    match listed.recv() {
        Ok(WorkerResponse::TrackList(None, queue)) => {
            assert_eq!(queue.into_iter().map(|t| t.name).collect::<Vec<_>>(), vec!["a".to_string()])
        }
        other => panic!("unexpected reply {:?}", other),
    }
    assert_eq!(listing(&mut state), (None, vec!["a".to_string()]));
    let _pending = requester.send(WorkerRequest::Pause).ok().unwrap();
    let mut emptied = responder.try_recv().ok().unwrap();
    assert!(emptied.take_data().is_some());
    assert!(matches!(state.serve_request(Ok(emptied)), Polled::MissingData));
    assert_eq!(listing(&mut state), (None, vec!["a".to_string()]));
}

#[test]
fn listing_reply_is_read() {
    let mut queue = VecDeque::new();
    queue.push_back(TrackInfo::new("u", "n"));
    let current = Some(TrackInfo::new("v", "m"));
    assert_eq!(
        read_listing(Ok(WorkerResponse::TrackList(current.clone(), queue.clone()))),
        Ok((current, queue))
    );
    assert_eq!(read_listing(Ok(WorkerResponse::Done)), Err(PlayerError::UnexpectedResponse));
    assert_eq!(read_listing(Err(RecvError {})), Err(PlayerError::Disconnected));
}

#[test]
fn client_calls_hand_over_their_requests_in_order() {
    let mut cache = FileCache::new();
    let (requester, responder) = channel();
    let mut player = MusicPlayer::<KeepFile>::new(requester);
    player.enqueue(track(&mut cache, "first")).unwrap();
    player.skip_one().unwrap();
    player.pause().unwrap();
    player.play().unwrap();
    player.enqueue(track(&mut cache, "second")).unwrap();
    player.stop().unwrap();
    let mut seen = Vec::new();
    while let Ok(mut request) = responder.try_recv() {
        let label = match request.take_data() {
            Some(WorkerRequest::AddTrack(t)) => format!("add {}", t.info.name),
            Some(WorkerRequest::SkipOne) => "skip".to_string(),
            Some(WorkerRequest::Pause) => "pause".to_string(),
            Some(WorkerRequest::Play) => "play".to_string(),
            Some(WorkerRequest::Stop) => "stop".to_string(),
            Some(WorkerRequest::ListTracks) => "list".to_string(),
            None => "empty".to_string(),
        };
        seen.push(label);
    }
    assert_eq!(seen, vec!["add first", "skip", "pause", "play", "add second", "stop"]);
}
