//! The player: the play queue that the worker keeps, the decisions it takes
//! on each request and each tick of the audio sink, and the client side that
//! sends it requests.
use crate::channel::{
    RecvError, Request, Requester, Responder, Response, SendError, TryRecvError,
};
use crate::track::{Track, TrackInfo, TrackInfoView};
use std::collections::VecDeque;
use vstd::prelude::*;

verus! {

/// What the player can be asked to do.
#[derive(Debug)]
pub enum WorkerRequest<G> {
    AddTrack(Track<G>),
    Pause,
    Play,
    Stop,
    SkipOne,
    ListTracks,
}

/// The worker's answer: the track playing and the queue, or a bare acknowledgement.
#[derive(Debug)]
pub enum WorkerResponse {
    TrackList(Option<TrackInfo>, VecDeque<TrackInfo>),
    Done,
}

/// The mathematical value of a [`WorkerResponse`].
pub enum ResponseView {
    TrackList(Option<TrackInfoView>, Seq<TrackInfoView>),
    Done,
}

pub open spec fn info_view(o: Option<TrackInfo>) -> Option<TrackInfoView> {
    match o {
        Some(t) => Some(t@),
        None => None,
    }
}

impl View for WorkerResponse {
    type V = ResponseView;

    open spec fn view(&self) -> ResponseView {
        match self {
            WorkerResponse::TrackList(current, queue) => ResponseView::TrackList(
                info_view(*current),
                queue@.map_values(|t: TrackInfo| t@),
            ),
            WorkerResponse::Done => ResponseView::Done,
        }
    }
}

/// What the audio sink is to do after a request.
#[derive(Debug, Clone, Copy, PartialEq, Eq, Structural)]
pub enum SinkAction {
    Nothing,
    Pause,
    Play,
    Stop,
    SkipOne,
}

/// The state of the player: the track playing, if any, and the tracks waiting.
pub struct PlayerModel<G> {
    pub current: Option<Track<G>>,
    pub queue: Seq<Track<G>>,
}

/// The state after a request: a track joins the back of the queue; stopping
/// empties the queue and ends the track playing; skipping ends the track playing.
pub open spec fn apply_request<G>(s: PlayerModel<G>, req: WorkerRequest<G>) -> PlayerModel<G> {
    match req {
        WorkerRequest::AddTrack(t) => PlayerModel { current: s.current, queue: s.queue.push(t) },
        WorkerRequest::Stop => PlayerModel { current: None, queue: Seq::empty() },
        WorkerRequest::SkipOne => PlayerModel { current: None, queue: s.queue },
        _ => s,
    }
}

/// What the sink is told on a request.
pub open spec fn sink_action_of<G>(req: WorkerRequest<G>) -> SinkAction {
    match req {
        WorkerRequest::AddTrack(_) => SinkAction::Nothing,
        WorkerRequest::Pause => SinkAction::Pause,
        WorkerRequest::Play => SinkAction::Play,
        WorkerRequest::Stop => SinkAction::Stop,
        WorkerRequest::SkipOne => SinkAction::SkipOne,
        WorkerRequest::ListTracks => SinkAction::Nothing,
    }
}

/// The info of the track playing and of each track waiting, in queue order.
pub open spec fn listing<G>(s: PlayerModel<G>) -> (Option<TrackInfoView>, Seq<TrackInfoView>) {
    (
        match s.current {
            Some(t) => Some(t.info@),
            None => None,
        },
        s.queue.map_values(|t: Track<G>| t.info@),
    )
}

/// The answer to a request: the listing for `ListTracks`, else an acknowledgement.
pub open spec fn answer_to<G>(s: PlayerModel<G>, req: WorkerRequest<G>) -> ResponseView {
    match req {
        WorkerRequest::ListTracks => ResponseView::TrackList(listing(s).0, listing(s).1),
        _ => ResponseView::Done,
    }
}

/// The state after the sink was looked at: where it has run dry, the front of
/// the queue starts, or, with an empty queue, nothing is playing any more.
pub open spec fn after_tick<G>(s: PlayerModel<G>, sink_empty: bool) -> PlayerModel<G> {
    if sink_empty && s.queue.len() > 0 {
        PlayerModel { current: Some(s.queue[0]), queue: s.queue.drop_first() }
    } else if sink_empty {
        PlayerModel { current: None, queue: s.queue }
    } else {
        s
    }
}

/// The file that a tick hands to the sink, if it starts a track.
pub open spec fn started_by_tick<G>(s: PlayerModel<G>, sink_empty: bool) -> Option<Seq<char>> {
    if sink_empty && s.queue.len() > 0 {
        Some(s.queue[0].file@)
    } else {
        None
    }
}

/// The state after `n` looks at a sink that had run dry each time.
pub open spec fn ticks<G>(s: PlayerModel<G>, n: nat) -> PlayerModel<G>
    decreases n,
{
    if n == 0 {
        s
    } else {
        after_tick(ticks(s, (n - 1) as nat), true)
    }
}

/// A track that is queued is listed after the tracks queued before it, and
/// nothing else in the listing changes.
pub proof fn lemma_enqueue_then_list<G>(s: PlayerModel<G>, t: Track<G>)
    ensures
        listing(apply_request(s, WorkerRequest::AddTrack(t))).0 == listing(s).0,
        listing(apply_request(s, WorkerRequest::AddTrack(t))).1 == listing(s).1.push(t.info@),
{
    assert(s.queue.push(t).map_values(|x: Track<G>| x.info@) =~= s.queue.map_values(
        |x: Track<G>| x.info@,
    ).push(t.info@));
}

/// After a stop, nothing is playing and nothing is queued.
pub proof fn lemma_stop_then_list<G>(s: PlayerModel<G>)
    ensures
        listing(apply_request(s, WorkerRequest::Stop)).0 is None,
        listing(apply_request(s, WorkerRequest::Stop)).1 == Seq::<TrackInfoView>::empty(),
{
    assert(Seq::<Track<G>>::empty().map_values(|x: Track<G>| x.info@) =~= Seq::<
        TrackInfoView,
    >::empty());
}

/// Pausing, resuming and listing change nothing in the queue; skipping ends
/// the track playing and keeps the queue.
pub proof fn lemma_controls_keep_queue<G>(s: PlayerModel<G>)
    ensures
        apply_request(s, WorkerRequest::Pause) == s,
        apply_request(s, WorkerRequest::Play) == s,
        apply_request(s, WorkerRequest::ListTracks) == s,
        apply_request(s, WorkerRequest::SkipOne).queue == s.queue,
        apply_request(s, WorkerRequest::SkipOne).current is None,
{
}

/// While the sink is busy, a look at it changes nothing.
pub proof fn lemma_busy_sink_keeps_state<G>(s: PlayerModel<G>)
    ensures
        after_tick(s, false) == s,
        started_by_tick(s, false) is None,
{
}

/// Tracks are played in the order they were queued: after `n` looks at a sink
/// that ran dry each time, the `n`-th queued track is playing and the tracks
/// after it wait in order.
pub proof fn lemma_plays_in_queue_order<G>(s: PlayerModel<G>, n: nat)
    requires
        n <= s.queue.len(),
    ensures
        n > 0 ==> ticks(s, n).current == Some(s.queue[n - 1]),
        ticks(s, n).queue == s.queue.skip(n as int),
    decreases n,
{
    if n > 0 {
        lemma_plays_in_queue_order(s, (n - 1) as nat);
        let prev = ticks(s, (n - 1) as nat);
        assert(prev.queue[0] == s.queue[n - 1]);
        assert(prev.queue.drop_first() =~= s.queue.skip(n as int));
    } else {
        assert(s.queue.skip(0) =~= s.queue);
    }
}

/// Once every queued track has started and the sink runs dry again, nothing
/// is playing.
pub proof fn lemma_idle_once_queue_used_up<G>(s: PlayerModel<G>)
    ensures
        ticks(s, s.queue.len() + 1).current is None,
        ticks(s, s.queue.len() + 1).queue.len() == 0,
{
    lemma_plays_in_queue_order(s, s.queue.len());
    assert(s.queue.skip(s.queue.len() as int).len() == 0);
}

/// What the worker meets, one after the other: a request, or a look at the
/// sink (whether it had run dry).
pub enum WorkerEvent<G> {
    Request(WorkerRequest<G>),
    Tick(bool),
}

/// The state after the worker met `events`, one after the other, from `s`.
pub open spec fn run<G>(s: PlayerModel<G>, events: Seq<WorkerEvent<G>>) -> PlayerModel<G>
    decreases events.len(),
{
    if events.len() == 0 {
        s
    } else {
        let before = run(s, events.drop_last());
        match events.last() {
            WorkerEvent::Request(req) => apply_request(before, req),
            WorkerEvent::Tick(sink_empty) => after_tick(before, sink_empty),
        }
    }
}

/// The requests among `events`, in order.
pub open spec fn requests_of<G>(events: Seq<WorkerEvent<G>>) -> Seq<WorkerRequest<G>>
    decreases events.len(),
{
    if events.len() == 0 {
        Seq::empty()
    } else {
        match events.last() {
            WorkerEvent::Request(req) => requests_of(events.drop_last()).push(req),
            WorkerEvent::Tick(_) => requests_of(events.drop_last()),
        }
    }
}

/// The tracks that `reqs` ask to queue, in order.
pub open spec fn enqueued<G>(reqs: Seq<WorkerRequest<G>>) -> Seq<Track<G>>
    decreases reqs.len(),
{
    if reqs.len() == 0 {
        Seq::empty()
    } else {
        match reqs.last() {
            WorkerRequest::AddTrack(t) => enqueued(reqs.drop_last()).push(t),
            _ => enqueued(reqs.drop_last()),
        }
    }
}

/// A worker that has played nothing and queues nothing.
pub open spec fn idle_player<G>() -> PlayerModel<G> {
    PlayerModel { current: None, queue: Seq::empty() }
}

/// Where no request is a stop, the queue is always the tracks that were asked
/// to be queued and have not yet been handed to the sink, in the order they
/// were asked for: a suffix of the enqueued tracks. So the listing shows them
/// in that order.
pub proof fn lemma_listing_shows_unstarted_tracks<G>(events: Seq<WorkerEvent<G>>) -> (k: int)
    requires
        forall|i: int|
            0 <= i < events.len() ==> !(#[trigger] events[i] matches WorkerEvent::Request(
                WorkerRequest::Stop,
            )),
    ensures
        0 <= k <= enqueued(requests_of(events)).len(),
        run(idle_player(), events).queue == enqueued(requests_of(events)).skip(k),
        listing(run(idle_player(), events)).1 == enqueued(requests_of(events)).skip(k).map_values(
            |t: Track<G>| t.info@,
        ),
    decreases events.len(),
{
    if events.len() == 0 {
        assert(enqueued(requests_of(events)).skip(0) =~= Seq::<Track<G>>::empty());
        0
    } else {
        let prefix = events.drop_last();
        assert forall|i: int| 0 <= i < prefix.len() implies !(#[trigger] prefix[i] matches WorkerEvent::Request(
            WorkerRequest::Stop,
        )) by {
            assert(prefix[i] == events[i]);
        }
        let k0 = lemma_listing_shows_unstarted_tracks(prefix);
        let before = run(idle_player(), prefix);
        let enq0 = enqueued(requests_of(prefix));
        assert(!(events[events.len() - 1] matches WorkerEvent::Request(WorkerRequest::Stop)));
        match events.last() {
            WorkerEvent::Request(req) => {
                assert(requests_of(events) == requests_of(prefix).push(req));
                assert(requests_of(prefix).push(req).drop_last() =~= requests_of(prefix));
                match req {
                    WorkerRequest::AddTrack(t) => {
                        assert(enqueued(requests_of(events)) == enq0.push(t));
                        assert(enq0.push(t).skip(k0) =~= enq0.skip(k0).push(t));
                    },
                    _ => {
                        assert(enqueued(requests_of(events)) == enq0);
                    },
                }
                k0
            },
            WorkerEvent::Tick(sink_empty) => {
                assert(requests_of(events) == requests_of(prefix));
                if sink_empty && before.queue.len() > 0 {
                    assert(enq0.skip(k0).drop_first() =~= enq0.skip(k0 + 1));
                    k0 + 1
                } else {
                    k0
                }
            },
        }
    }
}

/// The play queue of the worker.
#[derive(Debug)]
pub struct PlayerState<G> {
    queue: VecDeque<Track<G>>,
    current: Option<Track<G>>,
}

impl<G> View for PlayerState<G> {
    type V = PlayerModel<G>;

    closed spec fn view(&self) -> PlayerModel<G> {
        PlayerModel { current: self.current, queue: self.queue@ }
    }
}

/// What one look at the request channel came to.
#[verifier::reject_recursive_types(G)]
pub enum Polled<G> {
    /// No request was waiting.
    Idle,
    /// A request was carried out: the sink is to do this, and this reply is to
    /// be sent back on the request's reply channel.
    Served(SinkAction, Request<WorkerRequest<G>, WorkerResponse>, WorkerResponse),
    /// Every requester is gone.
    Disconnected,
    /// A request arrived whose data had been taken out of it.
    MissingData,
}

impl<G> PlayerState<G> {
    /// Nothing playing, nothing waiting.
    pub fn new() -> (r: Self)
        ensures
            r@.current is None,
            r@.queue == Seq::<Track<G>>::empty(),
    {
        PlayerState { queue: VecDeque::new(), current: None }
    }

    /// The info of the track playing and of the tracks waiting.
    fn track_list(&self) -> (r: WorkerResponse)
        ensures
            r@ == ResponseView::TrackList(listing(self@).0, listing(self@).1),
    {
        let current = match &self.current {
            Some(t) => Some(t.info.clone()),
            None => None,
        };
        let mut queue: VecDeque<TrackInfo> = VecDeque::new();
        let mut i: usize = 0;
        while i < self.queue.len()
            invariant
                i <= self.queue@.len(),
                queue@.map_values(|t: TrackInfo| t@) =~= self.queue@.take(i as int).map_values(
                    |t: Track<G>| t.info@,
                ),
            decreases self.queue@.len() - i,
        {
            let info = self.queue[i].info.clone();
            let ghost before = queue@;
            queue.push_back(info);
            proof {
                assert(self.queue@.take(i + 1) =~= self.queue@.take(i as int).push(self.queue@[i as int]));
                assert(queue@ =~= before.push(info));
                assert(queue@.map_values(|t: TrackInfo| t@) =~= before.map_values(|t: TrackInfo| t@).push(info@));
                assert(self.queue@.take(i + 1).map_values(|t: Track<G>| t.info@) =~= self.queue@.take(
                    i as int,
                ).map_values(|t: Track<G>| t.info@).push(self.queue@[i as int].info@));
            }
            i = i + 1;
        }
        proof {
            assert(self.queue@.take(i as int) =~= self.queue@);
        }
        WorkerResponse::TrackList(current, queue)
    }

    /// Carries out a request on the queue; returns the answer and what the sink
    /// is to do.
    pub fn match_request(&mut self, req: WorkerRequest<G>) -> (r: (WorkerResponse, SinkAction))
        ensures
            final(self)@ == apply_request(old(self)@, req),
            r.0@ == answer_to(old(self)@, req),
            r.1 == sink_action_of(req),
    {
        match req {
            WorkerRequest::AddTrack(track) => {
                self.queue.push_back(track);
                (WorkerResponse::Done, SinkAction::Nothing)
            },
            WorkerRequest::Pause => (WorkerResponse::Done, SinkAction::Pause),
            WorkerRequest::Play => (WorkerResponse::Done, SinkAction::Play),
            WorkerRequest::Stop => {
                self.queue.clear();
                self.current = None;
                (WorkerResponse::Done, SinkAction::Stop)
            },
            WorkerRequest::SkipOne => {
                self.current = None;
                (WorkerResponse::Done, SinkAction::SkipOne)
            },
            WorkerRequest::ListTracks => (self.track_list(), SinkAction::Nothing),
        }
    }

    /// Looks at the sink: where it has run dry, starts the front of the queue
    /// and returns the path of its file, for the sink to play; with an empty
    /// queue, marks that nothing is playing.
    pub fn advance(&mut self, sink_empty: bool) -> (r: Option<String>)
        ensures
            final(self)@ == after_tick(old(self)@, sink_empty),
            r matches Some(p) ==> started_by_tick(old(self)@, sink_empty) == Some(p@),
            r is None ==> started_by_tick(old(self)@, sink_empty) is None,
    {
        if sink_empty && self.queue.len() > 0 {
            let next = self.queue.pop_front().unwrap();
            let path = next.file.get_path().to_owned();
            self.current = Some(next);
            proof {
                assert(self.queue@ =~= old(self)@.queue.drop_first());
            }
            Some(path)
        } else if sink_empty {
            self.current = None;
            None
        } else {
            None
        }
    }

    /// Takes the next request from the channel if one is waiting and carries it
    /// out; returns the request, with no reply recorded on it yet, and the reply
    /// that is to go back on it.
    pub fn serve_pending(&mut self, responder: &Responder<WorkerRequest<G>, WorkerResponse>) -> (r:
        Polled<G>)
        ensures
            r matches Polled::Served(action, _, reply) ==> exists|req: WorkerRequest<G>|
                #[trigger] apply_request(old(self)@, req) == final(self)@ && action
                    == sink_action_of(req) && reply@ == answer_to(old(self)@, req),
            r matches Polled::Served(_, back, _) ==> back.replied() == Seq::<WorkerResponse>::empty(),
            !(r is Served) ==> final(self)@ == old(self)@,
    {
        let polled = responder.try_recv();
        let ghost seen = polled;
        let r = self.serve_request(polled);
        proof {
            if r is Served {
                if let Ok(req) = seen {
                    if let Some(d) = req.data_view() {
                        assert(apply_request(old(self)@, d) == self@);
                    }
                }
            }
        }
        r
    }

    /// Carries out what one look at the request channel gave: a request with
    /// its data is applied to the queue; the sink is told what the request asks
    /// of it, and the request comes back, its data taken, with the answer that
    /// is to be sent on its reply channel. Anything else leaves the queue as it is.
    pub fn serve_request(
        &mut self,
        polled: Result<Request<WorkerRequest<G>, WorkerResponse>, TryRecvError>,
    ) -> (r: Polled<G>)
        ensures
            match polled {
                Err(TryRecvError::Empty) => r is Idle && final(self)@ == old(self)@,
                Err(TryRecvError::Disconnected) => r is Disconnected && final(self)@ == old(
                    self,
                )@,
                Ok(req) => match req.data_view() {
                    None => r is MissingData && final(self)@ == old(self)@,
                    Some(d) => (r matches Polled::Served(action, back, reply) && action
                        == sink_action_of(d) && reply@ == answer_to(old(self)@, d)
                        && back.reply_channel() == req.reply_channel()
                        && back.replied() == req.replied()
                        && back.data_view() is None) && final(self)@ == apply_request(
                        old(self)@,
                        d,
                    ),
                },
            },
    {
        match polled {
            Ok(mut request) => {
                match request.take_data() {
                    Some(data) => {
                        let (response, action) = self.match_request(data);
                        Polled::Served(action, request, response)
                    },
                    None => Polled::MissingData,
                }
            },
            Err(TryRecvError::Empty) => Polled::Idle,
            Err(TryRecvError::Disconnected) => Polled::Disconnected,
        }
    }
}

/// What the answer to a listing request comes to: the listing, where the
/// worker sent one; an unexpected answer; or a worker gone before answering.
pub open spec fn listing_of(reply: Result<WorkerResponse, RecvError>) -> Result<
    (Option<TrackInfo>, VecDeque<TrackInfo>),
    PlayerError,
> {
    match reply {
        Ok(WorkerResponse::TrackList(current, queue)) => Ok((current, queue)),
        Ok(WorkerResponse::Done) => Err(PlayerError::UnexpectedResponse),
        Err(_) => Err(PlayerError::Disconnected),
    }
}

/// Reads the answer to a listing request, as [`listing_of`] states it.
pub fn read_listing(reply: Result<WorkerResponse, RecvError>) -> (r: Result<
    (Option<TrackInfo>, VecDeque<TrackInfo>),
    PlayerError,
>)
    ensures
        r == listing_of(reply),
{
    match reply {
        Ok(WorkerResponse::TrackList(current, queue)) => Ok((current, queue)),
        Ok(WorkerResponse::Done) => Err(PlayerError::UnexpectedResponse),
        Err(_) => Err(PlayerError::Disconnected),
    }
}

/// A listing reply is read as it came: the track playing and the queue of a
/// `TrackList` reply are the result, the track playing included, untouched;
/// any other reply is an error.
pub proof fn lemma_listing_reads_reply_as_it_came(
    current: Option<TrackInfo>,
    queue: VecDeque<TrackInfo>,
    err: RecvError,
)
    ensures
        listing_of(Ok(WorkerResponse::TrackList(current, queue))) matches Ok((c, q)) && c
            == current && q == queue,
        listing_of(Ok(WorkerResponse::Done)) == Err::<
            (Option<TrackInfo>, VecDeque<TrackInfo>),
            PlayerError,
        >(PlayerError::UnexpectedResponse),
        listing_of(Err(err)) == Err::<(Option<TrackInfo>, VecDeque<TrackInfo>), PlayerError>(
            PlayerError::Disconnected,
        ),
{
}

/// The requests handed to the worker's channel: `before`, then `req` where
/// it was handed over.
pub open spec fn logged<G>(before: Seq<WorkerRequest<G>>, req: WorkerRequest<G>, handed: bool) -> Seq<
    WorkerRequest<G>,
> {
    if handed {
        before.push(req)
    } else {
        before
    }
}

/// Why the player could not answer.
#[derive(Debug, Clone, Copy, PartialEq, Eq, Structural)]
pub enum PlayerError {
    /// The worker is gone.
    Disconnected,
    /// The worker answered with something other than a listing.
    UnexpectedResponse,
}

/// The client side of the player: sends requests to the worker.
#[verifier::reject_recursive_types(G)]
pub struct MusicPlayer<G> {
    requester: Requester<WorkerRequest<G>, WorkerResponse>,
    /// The requests handed to the worker's channel so far, in order.
    sent: Ghost<Seq<WorkerRequest<G>>>,
    /// What came back on the reply channels of the listing requests, in order:
    /// each reply as received, or the error where none came.
    received: Ghost<Seq<Result<WorkerResponse, RecvError>>>,
}

impl<G> MusicPlayer<G> {
    /// The channel end through which the requests go.
    pub closed spec fn requester(&self) -> Requester<WorkerRequest<G>, WorkerResponse> {
        self.requester
    }

    /// The requests handed to the worker's channel so far, in order.
    pub closed spec fn sent(&self) -> Seq<WorkerRequest<G>> {
        self.sent@
    }

    /// What came back on the reply channels of the listing requests so far, in
    /// order, as received.
    pub closed spec fn received(&self) -> Seq<Result<WorkerResponse, RecvError>> {
        self.received@
    }

    /// A player that sends its requests through `requester`; it has sent none.
    pub fn new(requester: Requester<WorkerRequest<G>, WorkerResponse>) -> (r: Self)
        ensures
            r.requester() == requester,
            r.sent() == Seq::<WorkerRequest<G>>::empty(),
            r.received() == Seq::<Result<WorkerResponse, RecvError>>::empty(),
    {
        MusicPlayer { requester, sent: Ghost(Seq::empty()), received: Ghost(Seq::empty()) }
    }

    /// Hands `req` to the worker's channel and records it.
    fn request(&mut self, req: WorkerRequest<G>) -> (r: Result<
        Response<WorkerRequest<G>, WorkerResponse>,
        SendError<WorkerRequest<G>>,
    >)
        ensures
            final(self).requester() == old(self).requester(),
            final(self).sent() == logged(old(self).sent(), req, r is Ok),
            final(self).received() == old(self).received(),
            r matches Ok(resp) ==> resp.sent() == req,
            r matches Err(e) ==> e.0 == req,
    {
        match self.requester.send(req) {
            Ok(response) => {
                proof {
                    self.sent@ = self.sent@.push(response.sent());
                }
                Ok(response)
            },
            Err(e) => Err(e),
        }
    }

    /// Asks the worker to put `track` at the back of the queue.
    pub fn enqueue(&mut self, track: Track<G>) -> (r: Result<(), SendError<WorkerRequest<G>>>)
        ensures
            final(self).requester() == old(self).requester(),
            final(self).sent() == logged(old(self).sent(), WorkerRequest::AddTrack(track), r is Ok),
            final(self).received() == old(self).received(),
            r matches Err(e) ==> e.0 == WorkerRequest::AddTrack(track),
    {
        match self.request(WorkerRequest::AddTrack(track)) {
            Ok(_) => Ok(()),
            Err(e) => Err(e),
        }
    }

    /// Asks the worker to skip the track playing.
    pub fn skip_one(&mut self) -> (r: Result<(), SendError<WorkerRequest<G>>>)
        ensures
            final(self).requester() == old(self).requester(),
            final(self).sent() == logged(old(self).sent(), WorkerRequest::SkipOne, r is Ok),
            final(self).received() == old(self).received(),
            r matches Err(e) ==> e.0 == WorkerRequest::<G>::SkipOne,
    {
        match self.request(WorkerRequest::SkipOne) {
            Ok(_) => Ok(()),
            Err(e) => Err(e),
        }
    }

    /// Asks the worker to pause.
    pub fn pause(&mut self) -> (r: Result<(), SendError<WorkerRequest<G>>>)
        ensures
            final(self).requester() == old(self).requester(),
            final(self).sent() == logged(old(self).sent(), WorkerRequest::Pause, r is Ok),
            final(self).received() == old(self).received(),
            r matches Err(e) ==> e.0 == WorkerRequest::<G>::Pause,
    {
        match self.request(WorkerRequest::Pause) {
            Ok(_) => Ok(()),
            Err(e) => Err(e),
        }
    }

    /// Asks the worker to resume.
    pub fn play(&mut self) -> (r: Result<(), SendError<WorkerRequest<G>>>)
        ensures
            final(self).requester() == old(self).requester(),
            final(self).sent() == logged(old(self).sent(), WorkerRequest::Play, r is Ok),
            final(self).received() == old(self).received(),
            r matches Err(e) ==> e.0 == WorkerRequest::<G>::Play,
    {
        match self.request(WorkerRequest::Play) {
            Ok(_) => Ok(()),
            Err(e) => Err(e),
        }
    }

    /// Asks the worker to stop and empty the queue.
    pub fn stop(&mut self) -> (r: Result<(), SendError<WorkerRequest<G>>>)
        ensures
            final(self).requester() == old(self).requester(),
            final(self).sent() == logged(old(self).sent(), WorkerRequest::Stop, r is Ok),
            final(self).received() == old(self).received(),
            r matches Err(e) ==> e.0 == WorkerRequest::<G>::Stop,
    {
        match self.request(WorkerRequest::Stop) {
            Ok(_) => Ok(()),
            Err(e) => Err(e),
        }
    }

    /// Asks the worker for the track playing and the queue, and waits for the
    /// answer: a `ListTracks` request is handed over, and the result is the
    /// reading of whatever came back on its reply channel. Where the request
    /// could not be handed over, the worker is gone.
    pub fn list_tracks(&mut self) -> (r: Result<
        (Option<TrackInfo>, VecDeque<TrackInfo>),
        PlayerError,
    >)
        ensures
            final(self).requester() == old(self).requester(),
            final(self).sent() == old(self).sent().push(WorkerRequest::ListTracks) || (final(self).sent()
                == old(self).sent() && r == Err::<
                (Option<TrackInfo>, VecDeque<TrackInfo>),
                PlayerError,
            >(PlayerError::Disconnected)),
            final(self).sent() == old(self).sent().push(WorkerRequest::ListTracks) ==> exists|
                reply: Result<WorkerResponse, RecvError>,
            | r == #[trigger] listing_of(reply),
            final(self).sent() == old(self).sent().push(WorkerRequest::ListTracks) ==> {
                &&& final(self).received().len() == old(self).received().len() + 1
                &&& final(self).received().drop_last() == old(self).received()
                &&& r == listing_of(final(self).received().last())
            },
            final(self).sent() == old(self).sent() ==> final(self).received() == old(
                self,
            ).received(),
    {
        match self.request(WorkerRequest::ListTracks) {
            Ok(response) => {
                let reply = response.recv();
                proof {
                    self.received@ = self.received@.push(reply);
                }
                let r = read_listing(reply);
                proof {
                    assert(self.received@.drop_last() =~= old(self).received@);
                    assert(r == listing_of(self.received@.last()));
                }
                r
            },
            Err(_) => {
                proof {
                    assert(self.sent() != old(self).sent().push(WorkerRequest::ListTracks)) by {
                        assert(self.sent().len() != old(self).sent().push(
                            WorkerRequest::ListTracks,
                        ).len());
                    }
                }
                Err(PlayerError::Disconnected)
            },
        }
    }
}

/// Every request that the worker met among `events` is among the requests
/// of `events`.
proof fn lemma_met_requests_are_listed<G>(events: Seq<WorkerEvent<G>>, i: int)
    requires
        0 <= i < events.len(),
        events[i] is Request,
    ensures
        requests_of(events).contains(events[i]->Request_0),
    decreases events.len(),
{
    let prefix = events.drop_last();
    if i < events.len() - 1 {
        lemma_met_requests_are_listed(prefix, i);
        assert(prefix[i] == events[i]);
        let j = choose|j: int|
            0 <= j < requests_of(prefix).len() && requests_of(prefix)[j] == events[i]->Request_0;
        match events.last() {
            WorkerEvent::Request(req) => {
                assert(requests_of(events)[j] == requests_of(prefix)[j]);
            },
            WorkerEvent::Tick(_) => {},
        }
    } else {
        let req = events[i]->Request_0;
        assert(requests_of(events) == requests_of(prefix).push(req));
        assert(requests_of(events)[requests_of(prefix).len() as int] == req);
    }
}

/// A client whose requests reach the worker in the order it handed them over
/// (its `sent()` log), none of them a stop, sees in a listing exactly the
/// tracks it asked to queue that have not yet been handed to the sink, in the
/// order it asked for them, whatever looks at the sink came between.
pub proof fn lemma_client_listing_shows_its_unstarted_tracks<G>(
    p: &MusicPlayer<G>,
    events: Seq<WorkerEvent<G>>,
) -> (k: int)
    requires
        requests_of(events) == p.sent(),
        forall|i: int| 0 <= i < p.sent().len() ==> !(#[trigger] p.sent()[i] is Stop),
    ensures
        0 <= k <= enqueued(p.sent()).len(),
        listing(run(idle_player(), events)).1 == enqueued(p.sent()).skip(k).map_values(
            |t: Track<G>| t.info@,
        ),
{
    assert forall|i: int| 0 <= i < events.len() implies !(#[trigger] events[i] matches WorkerEvent::Request(
        WorkerRequest::Stop,
    )) by {
        if events[i] is Request {
            lemma_met_requests_are_listed(events, i);
            let reqs = requests_of(events);
            let j = choose|j: int| 0 <= j < reqs.len() && reqs[j] == events[i]->Request_0;
            assert(!(p.sent()[j] is Stop));
        }
    }
    lemma_listing_shows_unstarted_tracks(events)
}

} // verus!
