//! A channel of requests, each of which carries its own channel for the reply.
use std::sync::mpsc::{Receiver, Sender};
use vstd::prelude::*;

verus! {

/// The sending end of a std channel, declared so that it can stand in fields;
/// nothing is seen inside it.
#[verifier::external_type_specification]
#[verifier::external_body]
#[verifier::reject_recursive_types(T)]
pub struct ExSender<T>(std::sync::mpsc::Sender<T>);

/// The receiving end of a std channel, declared so that it can stand in fields;
/// nothing is seen inside it.
#[verifier::external_type_specification]
#[verifier::external_body]
#[verifier::reject_recursive_types(T)]
pub struct ExReceiver<T>(std::sync::mpsc::Receiver<T>);

/// Calls `std::sync::mpsc::channel`. Nothing is claimed of the two ends.
#[verifier::external_body]
fn mpsc_channel<T>() -> (Sender<T>, Receiver<T>) {
    std::sync::mpsc::channel()
}

/// Calls `Sender::send`. Claimed, as std documents it: a send fails only where
/// the receiving end is gone, and the error then carries the value that was sent.
/// Whether it fails depends on the other end, so that is left open.
#[verifier::external_body]
fn mpsc_send<T>(tx: &Sender<T>, value: T) -> (r: Result<(), T>)
    ensures
        r matches Err(v) ==> v == value,
{
    match tx.send(value) {
        Ok(()) => Ok(()),
        Err(e) => Err(e.0),
    }
}

/// Calls `Receiver::try_recv`, telling the two error variants apart. What comes
/// back depends on the other end: nothing is claimed of it.
#[verifier::external_body]
fn mpsc_try_recv<T>(rx: &Receiver<T>) -> Result<T, TryRecvError> {
    match rx.try_recv() {
        Ok(v) => Ok(v),
        Err(std::sync::mpsc::TryRecvError::Empty) => Err(TryRecvError::Empty),
        Err(std::sync::mpsc::TryRecvError::Disconnected) => Err(TryRecvError::Disconnected),
    }
}

/// Calls `Receiver::recv`. What comes back depends on the other end: nothing is
/// claimed of it.
#[verifier::external_body]
fn mpsc_recv<T>(rx: &Receiver<T>) -> Result<T, RecvError> {
    match rx.recv() {
        Ok(v) => Ok(v),
        Err(_) => Err(RecvError {}),
    }
}

/// The end that sends requests and waits for replies.
#[verifier::reject_recursive_types(T)]
#[verifier::reject_recursive_types(R)]
pub struct Requester<T, R> {
    tx: Sender<Request<T, R>>,
}

/// The end that receives requests and answers them.
#[verifier::reject_recursive_types(T)]
#[verifier::reject_recursive_types(R)]
pub struct Responder<T, R> {
    rx: Receiver<Request<T, R>>,
}

/// A request: its data, and the channel on which its reply goes back.
#[verifier::reject_recursive_types(T)]
#[verifier::reject_recursive_types(R)]
pub struct Request<T, R> {
    pub data: Option<T>,
    tx: Sender<R>,
    /// The replies handed to the reply channel so far, in order.
    replied: Ghost<Seq<R>>,
}

/// The receiving end for the reply to one request.
#[verifier::reject_recursive_types(T)]
#[verifier::reject_recursive_types(R)]
pub struct Response<T, R> {
    rx: Receiver<R>,
    /// The data of the request that was handed to the channel.
    sent: Ghost<T>,
}

/// The other end of the channel is gone.
#[derive(Debug, Clone, Copy, PartialEq, Eq, Structural)]
pub struct RecvError {}

/// Why no value could be taken from a channel without waiting.
#[derive(Debug, Clone, Copy, PartialEq, Eq, Structural)]
pub enum TryRecvError {
    Empty,
    Disconnected,
}

/// A send failed because the other end is gone; the value that was to be sent.
#[derive(Debug, Clone, Copy)]
pub struct SendError<T>(pub T);

impl<T, R> Requester<T, R> {
    /// Sends `data` as a request with a fresh reply channel, and returns the end
    /// on which the reply will arrive. Where the responder is gone, the data
    /// comes back in the error.
    pub fn send(&self, data: T) -> (r: Result<Response<T, R>, SendError<T>>)
        ensures
            r matches Ok(resp) ==> resp.sent() == data,
            r matches Err(e) ==> e.0 == data,
    {
        let (response_tx, response_rx) = mpsc_channel::<R>();
        let request = Request::fresh(data, response_tx);
        let ghost handed = request;
        match mpsc_send(&self.tx, request) {
            Ok(()) => Ok(Response { rx: response_rx, sent: Ghost(handed.data_view()->Some_0) }),
            Err(req) => {
                let returned = req.data.unwrap();
                Err(SendError(returned))
            },
        }
    }
}

impl<T, R> Responder<T, R> {
    /// Takes the next request if one is waiting; says whether the channel is
    /// merely empty or the requesters are gone. Which of the three comes back,
    /// and which request, rests on the requesters' side and is left unsaid; a
    /// request taken here starts with no reply recorded.
    pub fn try_recv(&self) -> (r: Result<Request<T, R>, TryRecvError>)
        ensures
            r matches Ok(req) ==> req.replied() == Seq::<R>::empty(),
    {
        match mpsc_try_recv(&self.rx) {
            Ok(req) => Ok(req.taken()),
            Err(e) => Err(e),
        }
    }

    /// Waits for the next request; fails once every requester is gone. Which
    /// request arrives rests on the requesters' side and is left unsaid; a
    /// request taken here starts with no reply recorded.
    pub fn recv(&self) -> (r: Result<Request<T, R>, RecvError>)
        ensures
            r matches Ok(req) ==> req.replied() == Seq::<R>::empty(),
    {
        match mpsc_recv(&self.rx) {
            Ok(req) => Ok(req.taken()),
            Err(e) => Err(e),
        }
    }
}

/// Creates a connected requester and responder. That the two ends share one
/// channel is std's doing and is left unsaid.
pub fn channel<T, R>() -> (Requester<T, R>, Responder<T, R>) {
    let (requester_tx, responder_rx) = mpsc_channel::<Request<T, R>>();
    (Requester { tx: requester_tx }, Responder { rx: responder_rx })
}

impl<T, R> Request<T, R> {
    /// A request that carries `data` and has its reply go back on `tx`; nothing
    /// has been replied yet.
    fn fresh(data: T, tx: Sender<R>) -> (r: Self)
        ensures
            r.data_view() == Some(data),
            r.reply_channel() == tx,
            r.replied() == Seq::<R>::empty(),
    {
        Request { data: Some(data), tx, replied: Ghost(Seq::empty()) }
    }

    /// The request as the responder holds it: the same data and reply channel,
    /// with the replies recorded from this point on.
    fn taken(self) -> (r: Self)
        ensures
            r.data_view() == self.data_view(),
            r.reply_channel() == self.reply_channel(),
            r.replied() == Seq::<R>::empty(),
    {
        let mut req = self;
        proof {
            req.replied@ = Seq::empty();
        }
        req
    }

    /// The replies handed to the reply channel so far, in order.
    pub closed spec fn replied(&self) -> Seq<R> {
        self.replied@
    }

    /// The data of the request, if it is still there.
    pub closed spec fn data_view(&self) -> Option<T> {
        self.data
    }

    /// The channel on which the reply to the request goes back.
    pub closed spec fn reply_channel(&self) -> Sender<R> {
        self.tx
    }

    /// Takes the data out of the request, leaving `None` in its place.
    pub fn take_data(&mut self) -> (r: Option<T>)
        ensures
            r == old(self).data_view(),
            final(self).data_view() is None,
            final(self).reply_channel() == old(self).reply_channel(),
            final(self).replied() == old(self).replied(),
    {
        self.data.take()
    }

    /// Hands `data` to the reply channel; where the requester stopped waiting,
    /// the reply comes back in the error. A reply handed over is recorded.
    pub fn respond(&mut self, data: R) -> (r: Result<(), SendError<R>>)
        ensures
            final(self).reply_channel() == old(self).reply_channel(),
            final(self).data_view() == old(self).data_view(),
            r is Ok ==> final(self).replied() == old(self).replied().push(data),
            r matches Err(e) ==> e.0 == data && final(self).replied() == old(self).replied(),
    {
        let ghost handed = data;
        match mpsc_send(&self.tx, data) {
            Ok(()) => {
                proof {
                    self.replied@ = self.replied@.push(handed);
                }
                Ok(())
            },
            Err(returned) => Err(SendError(returned)),
        }
    }
}

impl<T, R> Response<T, R> {
    /// The data of the request whose reply this is.
    pub closed spec fn sent(&self) -> T {
        self.sent@
    }

    /// Waits for the reply; fails where the responder dropped the request.
    /// Which reply arrives rests on the responder's side and is left unsaid.
    pub fn recv(&self) -> Result<R, RecvError> {
        mpsc_recv(&self.rx)
    }

    /// Takes the reply if it has arrived. Whether it has, and what it is, rests
    /// on the responder's side and is left unsaid.
    pub fn try_recv(&self) -> Result<R, TryRecvError> {
        mpsc_try_recv(&self.rx)
    }
}

} // verus!
