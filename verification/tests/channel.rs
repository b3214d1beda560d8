use music_bot::channel::{channel, RecvError, TryRecvError};

#[test]
fn request_reaches_responder_and_reply_comes_back() {
    let (requester, responder) = channel::<u32, String>();
    let response = requester.send(7).ok().expect("responder is alive");
    let mut request = responder.try_recv().ok().expect("a request is waiting");
    assert_eq!(request.take_data(), Some(7));
    assert_eq!(request.take_data(), None);
    assert!(request.respond("seven".to_string()).is_ok());
    assert_eq!(response.recv(), Ok("seven".to_string()));
}

#[test]
fn requests_arrive_in_order() {
    let (requester, responder) = channel::<u32, ()>();
    let _a = requester.send(1).ok().unwrap();
    let _b = requester.send(2).ok().unwrap();
    let mut first = responder.recv().ok().unwrap();
    let mut second = responder.recv().ok().unwrap();
    assert_eq!(first.take_data(), Some(1));
    assert_eq!(second.take_data(), Some(2));
}

#[test]
fn try_recv_on_empty_channel_says_empty() {
    let (_requester, responder) = channel::<u32, ()>();
    assert_eq!(responder.try_recv().err(), Some(TryRecvError::Empty));
}

#[test]
fn try_recv_after_requester_dropped_says_disconnected() {
    let (requester, responder) = channel::<u32, ()>();
    drop(requester);
    assert_eq!(responder.try_recv().err(), Some(TryRecvError::Disconnected));
    assert_eq!(responder.recv().err(), Some(RecvError {}));
}

#[test]
fn send_to_dropped_responder_returns_the_data() {
    let (requester, responder) = channel::<String, ()>();
    drop(responder);
    let err = requester.send("lost".to_string()).err().expect("send must fail");
    assert_eq!(err.0, "lost".to_string());
}

#[test]
fn respond_after_requester_stopped_waiting_returns_the_reply() {
    let (requester, responder) = channel::<u32, u64>();
    let response = requester.send(1).ok().unwrap();
    let mut request = responder.try_recv().ok().unwrap();
    drop(response);
    let err = request.respond(99).err().expect("reply must fail");
    assert_eq!(err.0, 99);
}

#[test]
fn response_try_recv_before_and_after_reply() {
    let (requester, responder) = channel::<u32, u64>();
    let response = requester.send(1).ok().unwrap();
    assert_eq!(response.try_recv(), Err(TryRecvError::Empty));
    let mut request = responder.try_recv().ok().unwrap();
    request.respond(5).unwrap();
    assert_eq!(response.try_recv(), Ok(5));
    drop(request);
    assert_eq!(response.try_recv(), Err(TryRecvError::Disconnected));
    assert_eq!(response.recv(), Err(RecvError {}));
}
