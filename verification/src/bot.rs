//! What the chat bot does on each command, and the text of its replies.
use crate::download::DownloadError;
use crate::player::info_view;
use crate::track::{Track, TrackInfo, TrackInfoView};
use std::collections::VecDeque;
use vstd::prelude::*;

verus! {

/// The commands that the bot understands.
#[derive(Debug, Clone, PartialEq, Eq)]
pub enum BotCommand {
    /// Download the video at this url and queue it.
    Play(String),
    Stop,
    Pause,
    Resume,
    Skip,
    List,
}

/// What the player is told on a command.
#[derive(Debug, Clone, Copy, PartialEq, Eq, Structural)]
pub enum PlayerOp {
    Stop,
    Pause,
    Play,
    SkipOne,
}

/// What the bot does on a command.
#[derive(Debug, PartialEq, Eq)]
pub enum CommandPlan {
    /// Download the video at this url, then queue it.
    Download(String),
    /// Tell the player, then reply with this text.
    Control(PlayerOp, String),
    /// Ask the player for its queue, then reply with the listing.
    List,
}

/// The reply to a command that only tells the player something.
pub open spec fn control_reply(op: PlayerOp) -> Seq<char> {
    match op {
        PlayerOp::Stop => "Stopped."@,
        PlayerOp::Pause => "Paused."@,
        PlayerOp::Play => "Resumed."@,
        PlayerOp::SkipOne => "Skipped."@,
    }
}

/// Decides what to do on a command: `Play` downloads; `Stop`, `Pause`,
/// `Resume` and `Skip` tell the player to stop, pause, play and skip one track,
/// each with its reply; `List` asks for the queue.
pub fn plan_command(cmd: &BotCommand) -> (r: CommandPlan)
    ensures
        match *cmd {
            BotCommand::Play(url) => r matches CommandPlan::Download(u) && u@ == url@,
            BotCommand::Stop => r matches CommandPlan::Control(op, text) && op == PlayerOp::Stop
                && text@ == control_reply(op),
            BotCommand::Pause => r matches CommandPlan::Control(op, text) && op == PlayerOp::Pause
                && text@ == control_reply(op),
            BotCommand::Resume => r matches CommandPlan::Control(op, text) && op == PlayerOp::Play
                && text@ == control_reply(op),
            BotCommand::Skip => r matches CommandPlan::Control(op, text) && op == PlayerOp::SkipOne
                && text@ == control_reply(op),
            BotCommand::List => r is List,
        },
{
    match cmd {
        BotCommand::Play(url) => CommandPlan::Download(url.clone()),
        BotCommand::Stop => CommandPlan::Control(PlayerOp::Stop, "Stopped.".to_owned()),
        BotCommand::Pause => CommandPlan::Control(PlayerOp::Pause, "Paused.".to_owned()),
        BotCommand::Resume => CommandPlan::Control(PlayerOp::Play, "Resumed.".to_owned()),
        BotCommand::Skip => CommandPlan::Control(PlayerOp::SkipOne, "Skipped.".to_owned()),
        BotCommand::List => CommandPlan::List,
    }
}

/// The first reply to `Play`, sent while the download runs.
pub fn downloading_message() -> (r: String)
    ensures
        r@ == "Downloading..."@,
{
    "Downloading...".to_owned()
}

/// The reply once the track `name` was queued.
pub fn added_message(name: &str) -> (r: String)
    ensures
        r@ == "Added to the queue: "@ + name@,
{
    let mut text = "Added to the queue: ".to_owned();
    text.append(name);
    text
}

/// The reply when the download failed.
pub fn download_failed_message() -> (r: String)
    ensures
        r@ == "Failed to download."@,
{
    "Failed to download.".to_owned()
}

/// What follows a download: queue the track and say so, or say it failed.
#[derive(Debug)]
pub enum DownloadReply<G> {
    Enqueue(Track<G>, String),
    Failed(String),
}

/// Decides what follows a download: a downloaded track is queued, with a reply
/// that names it; a failed download is reported.
pub fn download_reply<G>(result: Result<Track<G>, DownloadError>) -> (r: DownloadReply<G>)
    ensures
        match result {
            Ok(t) => r matches DownloadReply::Enqueue(queued, text) && queued == t && text@
                == "Added to the queue: "@ + t.info.name@,
            Err(_) => r matches DownloadReply::Failed(text) && text@ == "Failed to download."@,
        },
{
    match result {
        Ok(track) => {
            let text = added_message(track.info.name.as_str());
            DownloadReply::Enqueue(track, text)
        },
        Err(_) => DownloadReply::Failed(download_failed_message()),
    }
}

/// A track as the listing shows it: its name, then its url in brackets.
pub open spec fn track_line(t: TrackInfoView) -> Seq<char> {
    t.name + " ("@ + t.url + ")"@
}

/// The lines, with a newline between each two.
pub open spec fn join_lines(lines: Seq<Seq<char>>) -> Seq<char>
    decreases lines.len(),
{
    if lines.len() == 0 {
        Seq::<char>::empty()
    } else if lines.len() == 1 {
        lines[0]
    } else {
        join_lines(lines.drop_last()) + "\n"@ + lines.last()
    }
}

/// The reply to `List`: that nothing is playing; or the track playing, and
/// below it the queue, one track a line, where the queue is not empty.
pub open spec fn list_text(current: Option<TrackInfoView>, queue: Seq<TrackInfoView>) -> Seq<char> {
    match current {
        None => "Nothing is playing."@,
        Some(t) => if queue.len() == 0 {
            "Currently playing: "@ + track_line(t)
        } else {
            "Currently playing: "@ + track_line(t) + "\nQueue:\n"@ + join_lines(
                queue.map_values(|q: TrackInfoView| track_line(q)),
            )
        },
    }
}

/// The reply to `List` with nothing playing says so, whatever is queued; with
/// a track playing and nothing queued it is that track's line alone.
pub proof fn lemma_list_text_without_queue(t: TrackInfoView, queue: Seq<TrackInfoView>)
    ensures
        list_text(None, queue) == "Nothing is playing."@,
        list_text(Some(t), Seq::empty()) == "Currently playing: "@ + t.name + " ("@ + t.url
            + ")"@,
{
}

/// With a track playing, queueing one more track `x` behind `queue` adds to
/// the reply exactly one line, `x`'s name then its url in brackets: after a
/// `Queue:` heading where the queue was empty, after a newline otherwise. So
/// every queued track has a line of its own, in queue order, and a queue of one
/// is shown as well as a longer one.
pub proof fn lemma_list_text_queue_one_more(
    t: TrackInfoView,
    queue: Seq<TrackInfoView>,
    x: TrackInfoView,
)
    ensures
        list_text(Some(t), queue.push(x)) == list_text(Some(t), queue) + (if queue.len() == 0 {
            "\nQueue:\n"@
        } else {
            "\n"@
        }) + x.name + " ("@ + x.url + ")"@,
{
    let f = |q: TrackInfoView| track_line(q);
    let lines = queue.map_values(f);
    let more = queue.push(x).map_values(f);
    assert(more =~= lines.push(track_line(x)));
    assert(more.drop_last() =~= lines);
    let head = "Currently playing: "@ + track_line(t);
    if queue.len() == 0 {
        assert(more.len() == 1);
        assert(more[0] == track_line(x));
        assert(list_text(Some(t), queue.push(x)) =~= head + "\nQueue:\n"@ + track_line(x));
        assert(head + "\nQueue:\n"@ + track_line(x) =~= list_text(Some(t), queue) + "\nQueue:\n"@
            + x.name + " ("@ + x.url + ")"@);
    } else {
        assert(join_lines(more) == join_lines(lines) + "\n"@ + track_line(x));
        assert(list_text(Some(t), queue.push(x)) =~= list_text(Some(t), queue) + "\n"@ + x.name
            + " ("@ + x.url + ")"@);
    }
}

/// Appends the line of `t` to `text`.
fn push_track_line(text: &mut String, t: &TrackInfo)
    ensures
        final(text)@ == old(text)@ + track_line(t@),
{
    text.append(t.name.as_str());
    text.append(" (");
    text.append(t.url.as_str());
    text.append(")");
    proof {
        assert(final(text)@ =~= old(text)@ + track_line(t@));
    }
}

/// The reply to `List`, as [`list_text`] states it.
pub fn list_message(current: &Option<TrackInfo>, queue: &VecDeque<TrackInfo>) -> (r: String)
    ensures
        r@ == list_text(info_view(*current), queue@.map_values(|t: TrackInfo| t@)),
{
    match current {
        None => "Nothing is playing.".to_owned(),
        Some(track) => {
            let mut text = "Currently playing: ".to_owned();
            push_track_line(&mut text, track);
            if queue.len() == 0 {
                return text;
            }
            text.append("\nQueue:\n");
            let ghost head = text@;
            let ghost lines = queue@.map_values(|t: TrackInfo| t@).map_values(
                |q: TrackInfoView| track_line(q),
            );
            let mut i: usize = 0;
            while i < queue.len()
                invariant
                    i <= queue@.len(),
                    lines == queue@.map_values(|t: TrackInfo| t@).map_values(
                        |q: TrackInfoView| track_line(q),
                    ),
                    text@ == head + join_lines(lines.take(i as int)),
                decreases queue@.len() - i,
            {
                if i > 0 {
                    text.append("\n");
                }
                let ghost before = text@;
                push_track_line(&mut text, &queue[i]);
                proof {
                    let taken = lines.take(i + 1);
                    assert(taken.drop_last() =~= lines.take(i as int));
                    assert(taken.last() == track_line(queue@[i as int]@));
                    if i == 0 {
                        assert(lines.take(0) =~= Seq::<Seq<char>>::empty());
                        assert(text@ =~= head + join_lines(taken));
                    } else {
                        assert(text@ =~= head + join_lines(taken));
                    }
                }
                i = i + 1;
            }
            proof {
                assert(lines.take(i as int) =~= lines);
            }
            text
        },
    }
}

} // verus!
