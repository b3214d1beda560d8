//! The decisions of the downloader: which videos are refused, when a file
//! already on disk is used again, and what is recorded of a video once its
//! file has been fetched. Running the external programs is the caller's part.
use crate::file::{FileCache, FileGuard, FileHandle};
use crate::path::{lemma_same_components_same_text, path_components, slash_free};
use crate::json::{json_str_field, parse_str_field};
use crate::probe::{Probe, ProbeError};
use crate::track::{Track, TrackInfo, TrackInfoView, TrackView};
use vstd::prelude::*;

verus! {

/// The longest video, in seconds, that is downloaded.
pub const MAX_DURATION: u32 = 900;

/// The download failed or was refused.
#[derive(Debug, Clone, Copy, PartialEq, Eq, Structural)]
pub struct DownloadError;

/// The audio file of the video `id`.
pub open spec fn audio_file(id: Seq<char>) -> Seq<char> {
    id + ".mp3"@
}

/// The file in which the downloader leaves what it knows of the video `id`.
pub open spec fn info_file(id: Seq<char>) -> Seq<char> {
    id + ".info.json"@
}

/// The short link to the video `id`.
pub open spec fn video_url(id: Seq<char>) -> Seq<char> {
    "https://youtu.be/"@ + id
}

/// The name of the audio file of the video `id`.
pub fn audio_file_name(id: &str) -> (r: String)
    ensures
        r@ == audio_file(id@),
{
    let mut name = id.to_owned();
    name.append(".mp3");
    name
}

/// The name of the file that describes the video `id`.
pub fn info_file_name(id: &str) -> (r: String)
    ensures
        r@ == info_file(id@),
{
    let mut name = id.to_owned();
    name.append(".info.json");
    name
}

/// The short link to the video `id` is the 17 characters of
/// `https://youtu.be/`, then the whole id, each character in its place: no
/// character of the id is left out, changed or moved.
pub proof fn lemma_link_ends_with_whole_id(id: Seq<char>)
    ensures
        video_url(id).len() == id.len() + 17,
        video_url(id).take(17) == "https://youtu.be/"@,
        video_url(id).skip(17) == id,
        forall|i: int| 0 <= i < id.len() ==> #[trigger] video_url(id)[i + 17] == id[i],
{
    reveal_strlit("https://youtu.be/");
    assert(video_url(id).take(17) =~= "https://youtu.be/"@);
    assert(video_url(id).skip(17) =~= id);
}

/// The short link to the video `id`.
pub fn youtube_url(id: &str) -> (r: String)
    ensures
        r@ == video_url(id@),
        r@.len() == id@.len() + 17,
        r@.skip(17) == id@,
{
    proof {
        lemma_link_ends_with_whole_id(id@);
    }
    let mut url = "https://youtu.be/".to_owned();
    url.append(id);
    url
}

/// What is recorded of the video `id` with title `title` once it was fetched.
pub open spec fn fetched_info(id: Seq<char>, title: Seq<char>) -> TrackInfoView {
    TrackInfoView { url: video_url(id), name: title }
}

/// The components of the path of the audio file of the video `id`.
pub open spec fn audio_key(id: Seq<char>) -> Seq<Seq<char>> {
    path_components(audio_file(id))
}

/// What the downloader knows after the video `id` with title `title` was fetched.
pub open spec fn after_fetch(v: DownloaderView, id: Seq<char>, title: Seq<char>) -> DownloaderView {
    DownloaderView {
        files: v.files.insert(audio_key(id)),
        infos: v.infos.insert(id, fetched_info(id, title)),
    }
}

/// The track played from the file at `path`, found on disk: the info kept for
/// the video, and that file.
pub open spec fn cached_track(v: DownloaderView, id: Seq<char>, path: Seq<char>) -> TrackView {
    TrackView { info: v.infos[id], path: path }
}

/// A video that was fetched, and whose file is later found on disk, plays with
/// the info that the fetch recorded: same url, same title.
pub proof fn lemma_fetch_then_cached(
    v: DownloaderView,
    id: Seq<char>,
    title: Seq<char>,
    path: Seq<char>,
)
    ensures
        after_fetch(v, id, title).files.contains(audio_key(id)),
        after_fetch(v, id, title).infos.contains_key(id),
        cached_track(after_fetch(v, id, title), id, path).info == fetched_info(id, title),
        cached_track(after_fetch(v, id, title), id, path).path == path,
{
}

/// A file that the downloader handed out for a video always has that video's
/// info kept, and that info links to the video, where no other video whose
/// info is kept has the same audio file: looking the info up on a cache hit
/// never fails. (`a//b` and `a/b` name one file; an id without a slash shares
/// its file with no other, see `lemma_slash_free_id_owns_its_file`.)
pub proof fn lemma_cached_file_has_its_info<G>(d: &Downloader<G>, id: Seq<char>)
    requires
        d.wf(),
        forall|other: Seq<char>| #[trigger]
            d@.infos.contains_key(other) && audio_key(other) == audio_key(id) ==> other == id,
    ensures
        d@.files.contains(audio_key(id)) ==> d@.infos.contains_key(id) && d@.infos[id].url
            == video_url(id),
{
    if d@.files.contains(audio_key(id)) {
        let other = choose|other: Seq<char>|
            #[trigger] d.info_keys().contains(other) && audio_key(id) == audio_key(other);
        assert(d@.infos.contains_key(other));
        let keys = d.info_keys();
        let j = keys.index_of(id);
        assert(keys[j] == id);
        assert(d.track_infos@[j].0@ == id);
    }
}

/// The audio file of a video whose id has no slash is the audio file of no
/// other video.
pub proof fn lemma_slash_free_id_owns_its_file(id: Seq<char>, other: Seq<char>)
    requires
        slash_free(id),
        audio_key(other) == audio_key(id),
    ensures
        other == id,
{
    reveal_strlit(".mp3");
    let t = ".mp3"@;
    let c = audio_file(id);
    let x = audio_file(other);
    assert(slash_free(c)) by {
        assert forall|i: int| 0 <= i < c.len() implies c[i] != '/' by {
            if i >= id.len() {
                assert(c[i] == t[i - id.len()]);
            } else {
                assert(c[i] == id[i]);
            }
        }
    }
    assert(c.len() >= 4);
    assert(c != seq!['.']);
    assert(slash_free(t));
    assert(x.subrange(x.len() - t.len(), x.len() as int) =~= t);
    lemma_same_components_same_text(c, x, t);
    lemma_audio_file_injective(other, id);
}

proof fn lemma_audio_file_injective(a: Seq<char>, b: Seq<char>)
    requires
        audio_file(a) == audio_file(b),
    ensures
        a == b,
{
    assert(a =~= audio_file(a).subrange(0, a.len() as int));
    assert(b =~= audio_file(b).subrange(0, b.len() as int));
}

/// The program that fetches videos.
pub fn fetcher_program() -> (r: String)
    ensures
        r@ == "yt-dlp"@,
{
    "yt-dlp".to_owned()
}

/// The arguments that ask the fetcher for the id and the duration of the video
/// at `url`, separated by a space, and nothing else.
pub fn probe_args(url: &str) -> (r: Vec<String>)
    ensures
        r@.map_values(|a: String| a@) == seq![
            "--print"@,
            "%(id)s %(duration)i"@,
            "--no-playlist"@,
            "--no-warnings"@,
            "--"@,
            url@,
        ],
{
    let r = vec![
        "--print".to_owned(),
        "%(id)s %(duration)i".to_owned(),
        "--no-playlist".to_owned(),
        "--no-warnings".to_owned(),
        "--".to_owned(),
        url.to_owned(),
    ];
    proof {
        assert(r@.map_values(|a: String| a@) =~= seq![
            "--print"@,
            "%(id)s %(duration)i"@,
            "--no-playlist"@,
            "--no-warnings"@,
            "--"@,
            url@,
        ]);
    }
    r
}

/// The arguments that have the fetcher save the audio of the video at `url`
/// as an mp3 file named by the video id, beside a file that describes it.
pub fn fetch_args(url: &str) -> (r: Vec<String>)
    ensures
        r@.map_values(|a: String| a@) == seq![
            "-o"@,
            "%(id)s"@,
            "--extract-audio"@,
            "--audio-format"@,
            "mp3"@,
            "--no-playlist"@,
            "--no-warnings"@,
            "--write-info-json"@,
            "--"@,
            url@,
        ],
{
    let r = vec![
        "-o".to_owned(),
        "%(id)s".to_owned(),
        "--extract-audio".to_owned(),
        "--audio-format".to_owned(),
        "mp3".to_owned(),
        "--no-playlist".to_owned(),
        "--no-warnings".to_owned(),
        "--write-info-json".to_owned(),
        "--".to_owned(),
        url.to_owned(),
    ];
    proof {
        assert(r@.map_values(|a: String| a@) =~= seq![
            "-o"@,
            "%(id)s"@,
            "--extract-audio"@,
            "--audio-format"@,
            "mp3"@,
            "--no-playlist"@,
            "--no-warnings"@,
            "--write-info-json"@,
            "--"@,
            url@,
        ]);
    }
    r
}

/// The program that evens out the loudness of a file.
pub fn normalizer_program() -> (r: String)
    ensures
        r@ == "uvx"@,
{
    "uvx".to_owned()
}

/// The arguments that have the normalizer even out the loudness of the mp3
/// file `filename` in place.
pub fn normalize_args(filename: &str) -> (r: Vec<String>)
    ensures
        r@.map_values(|a: String| a@) == seq![
            "ffmpeg-normalize"@,
            filename@,
            "-ofmt"@,
            "mp3"@,
            "-o"@,
            filename@,
            "-f"@,
        ],
{
    let r = vec![
        "ffmpeg-normalize".to_owned(),
        filename.to_owned(),
        "-ofmt".to_owned(),
        "mp3".to_owned(),
        "-o".to_owned(),
        filename.to_owned(),
        "-f".to_owned(),
    ];
    proof {
        assert(r@.map_values(|a: String| a@) =~= seq![
            "ffmpeg-normalize"@,
            filename@,
            "-ofmt"@,
            "mp3"@,
            "-o"@,
            filename@,
            "-f"@,
        ]);
    }
    r
}

/// The title in what the downloader wrote of a video, where it wrote one.
pub fn title_of(info_json: &str) -> (r: Option<String>)
    ensures
        r matches Some(t) ==> json_str_field(info_json@, "title"@) == Some(t@),
        r is None ==> json_str_field(info_json@, "title"@) is None,
{
    parse_str_field(info_json, "title")
}

/// Whether fetching worked: the downloader printed something, and no error.
pub fn fetch_succeeded(stdout: &[u8], stderr: &[u8]) -> (r: bool)
    ensures
        r == (stdout@.len() > 0 && stderr@.len() == 0),
{
    !(stderr.len() != 0 || stdout.len() == 0)
}

/// What a fetch came to, once the file that describes the video was read.
#[derive(Debug, PartialEq, Eq)]
pub enum FetchOutcome {
    /// The description holds no title.
    NoTitle,
    /// The fetch failed; the video's title.
    Failed(String),
    /// The file was fetched; the video's title.
    Fetched(String),
}

/// Judges a fetch: first the title is read from the description, then the
/// fetch counts as done only where the fetcher printed something and no error.
pub fn judge_fetch(info_json: &str, stdout: &[u8], stderr: &[u8]) -> (r: FetchOutcome)
    ensures
        match json_str_field(info_json@, "title"@) {
            None => r is NoTitle,
            Some(t) => if stdout@.len() > 0 && stderr@.len() == 0 {
                r matches FetchOutcome::Fetched(x) && x@ == t
            } else {
                r matches FetchOutcome::Failed(x) && x@ == t
            },
        },
{
    match title_of(info_json) {
        None => FetchOutcome::NoTitle,
        Some(title) => if fetch_succeeded(stdout, stderr) {
            FetchOutcome::Fetched(title)
        } else {
            FetchOutcome::Failed(title)
        },
    }
}

/// What the download of a video does next.
#[derive(Debug)]
pub enum DownloadStep<G> {
    /// Run the fetch of the video's audio file and description.
    Fetch,
    /// The video was fetched, with this title: run the normalizer on its audio
    /// file, then record it with [`Downloader::complete`].
    Normalize(String),
    /// The download is over, with this result.
    Finish(Result<Track<G>, DownloadError>),
}

/// The step once the fetch was judged: a failed fetch ends the download with
/// an error; a fetched file goes on to the normalizer with its title. A
/// description without a title stops the program before this step.
pub fn step_after_fetch<G>(outcome: FetchOutcome) -> (r: DownloadStep<G>)
    requires
        !(outcome is NoTitle),
    ensures
        match outcome {
            FetchOutcome::Failed(_) => r matches DownloadStep::Finish(Err(_)),
            FetchOutcome::Fetched(title) => r matches DownloadStep::Normalize(t) && t@ == title@,
            FetchOutcome::NoTitle => false,
        },
{
    match outcome {
        FetchOutcome::Fetched(title) => DownloadStep::Normalize(title),
        _ => DownloadStep::Finish(Err(DownloadError)),
    }
}

/// What to do with a video, once its id and duration are known.
#[derive(Debug)]
pub enum Begin<G> {
    /// The video is too long: it is refused.
    TooLong,
    /// Its file is still on disk: this track can be played at once.
    Cached(Track<G>),
    /// Its file is to be fetched.
    Fetch,
}

/// What the downloader knows: the files it has handed out, and the info of each
/// video whose file it fetched, by video id.
#[verifier::ext_equal]
pub struct DownloaderView {
    pub files: Set<Seq<Seq<char>>>,
    pub infos: Map<Seq<char>, TrackInfoView>,
}

/// The files on disk and what is known of each video that was fetched.
#[verifier::reject_recursive_types(G)]
pub struct Downloader<G> {
    cache: FileCache<G>,
    track_infos: Vec<(String, TrackInfo)>,
}

impl<G> Downloader<G> {
    /// The ids of the videos whose info is kept, in the order they came.
    pub closed spec fn info_keys(&self) -> Seq<Seq<char>> {
        self.track_infos@.map_values(|e: (String, TrackInfo)| e.0@)
    }

    pub closed spec fn infos(&self) -> Map<Seq<char>, TrackInfoView> {
        Map::new(
            |k: Seq<char>| self.info_keys().contains(k),
            |k: Seq<char>| self.track_infos@[self.info_keys().index_of(k)].1@,
        )
    }

    /// No id twice, the info of each video links to it, and every file handed
    /// out belongs to a video whose info is kept: a file found on disk always
    /// has its info.
    pub closed spec fn wf(&self) -> bool {
        &&& self.cache.wf()
        &&& self.info_keys().no_duplicates()
        &&& forall|i: int|
            0 <= i < self.track_infos@.len() ==> #[trigger] self.track_infos@[i].1.url@ == video_url(
                self.track_infos@[i].0@,
            )
        &&& forall|f: Seq<Seq<char>>| #[trigger]
            self.cache@.contains(f) ==> exists|id: Seq<char>|
                #[trigger] self.info_keys().contains(id) && f == audio_key(id)
    }
}

impl<G> View for Downloader<G> {
    type V = DownloaderView;

    closed spec fn view(&self) -> DownloaderView {
        DownloaderView { files: self.cache@, infos: self.infos() }
    }
}

impl<G: FileGuard> Downloader<G> {
    /// Nothing on disk, nothing known.
    pub fn new() -> (r: Self)
        ensures
            r.wf(),
            r@.files == Set::<Seq<Seq<char>>>::empty(),
            r@.infos == Map::<Seq<char>, TrackInfoView>::empty(),
    {
        let r = Downloader { cache: FileCache::new(), track_infos: Vec::new() };
        proof {
            assert(r.info_keys() =~= Seq::<Seq<char>>::empty());
            assert(r.infos() =~= Map::<Seq<char>, TrackInfoView>::empty());
        }
        r
    }

    /// Where the info of `id` is kept.
    fn find_info(&self, id: &String) -> (r: Option<usize>)
        ensures
            r matches Some(i) ==> i < self.track_infos@.len() && self.info_keys()[i as int] == id@,
            r is None ==> !self.info_keys().contains(id@),
    {
        let mut i: usize = 0;
        while i < self.track_infos.len()
            invariant
                i <= self.track_infos@.len(),
                forall|j: int| 0 <= j < i ==> self.info_keys()[j] != id@,
            decreases self.track_infos@.len() - i,
        {
            if self.track_infos[i].0 == *id {
                return Some(i);
            }
            i = i + 1;
        }
        None
    }

    /// Decides what to do with a video once its id and duration are known,
    /// given the live handle to its audio file where one is left: a video longer
    /// than [`MAX_DURATION`] is refused; one whose file is still alive, and whose
    /// info is kept, is played from that file with that info; any other is to be
    /// fetched.
    pub fn decide(&self, probe: &Probe, live: Option<FileHandle<G>>) -> (r: Begin<G>)
        requires
            self.wf(),
            live matches Some(h) ==> path_components(h@) == audio_key(probe.id@),
        ensures
            probe.duration > MAX_DURATION ==> r is TooLong,
            live matches Some(h) ==> (probe.duration <= MAX_DURATION && self@.infos.contains_key(
                probe.id@,
            ) ==> (r matches Begin::Cached(t) && t@ == cached_track(self@, probe.id@, h@))),
            probe.duration <= MAX_DURATION && (live is None || !self@.infos.contains_key(
                probe.id@,
            )) ==> r is Fetch,
    {
        if probe.duration > MAX_DURATION {
            return Begin::TooLong;
        }
        match live {
            Some(file) => match self.find_info(&probe.id) {
                Some(i) => {
                    let info = self.track_infos[i].1.clone();
                    proof {
                        let keys = self.info_keys();
                        assert(keys[i as int] == probe.id@);
                        assert(keys.contains(probe.id@));
                        let j = keys.index_of(probe.id@);
                        assert(keys[j] == probe.id@);
                        assert(j == i);
                    }
                    Begin::Cached(Track::new(info, file))
                },
                None => Begin::Fetch,
            },
            None => Begin::Fetch,
        }
    }

    /// Decides what to do with a video once its id and duration are known, as
    /// [`Downloader::decide`] states it, with the live handle to its audio file
    /// where the cache still holds one. For a video id without slashes, a file
    /// found alive always has its info kept (`lemma_cached_file_has_its_info` with
    /// `lemma_slash_free_id_owns_its_file`),
    /// so such a video is not fetched again while its file is in use.
    pub fn begin(&mut self, probe: &Probe) -> (r: Begin<G>)
        requires
            old(self).wf(),
        ensures
            final(self).wf(),
            final(self)@ == old(self)@,
            (r is TooLong) == (probe.duration > MAX_DURATION),
            r matches Begin::Cached(t) ==> {
                &&& old(self)@.files.contains(audio_key(probe.id@))
                &&& old(self)@.infos.contains_key(probe.id@)
                &&& t@.info == old(self)@.infos[probe.id@]
                &&& path_components(t@.path) == audio_key(probe.id@)
            },
    {
        let live = if probe.duration > MAX_DURATION {
            None
        } else {
            let filename = audio_file_name(probe.id.as_str());
            self.cache.live_handle(filename.as_str())
        };
        self.decide(probe, live)
    }

    /// The step once the probe's output was read: output without an id and a
    /// duration ends the download with an error; otherwise the video goes as
    /// [`Downloader::begin`] decides: refused when too long, played from its
    /// file when that is still alive with its info kept, else fetched. A
    /// duration that is no number stops the program before this step.
    pub fn step_after_probe(&mut self, parsed: &Result<Probe, ProbeError>) -> (r: DownloadStep<G>)
        requires
            old(self).wf(),
            !(parsed matches Err(ProbeError::BadDuration)),
        ensures
            final(self).wf(),
            final(self)@ == old(self)@,
            !(r is Normalize),
            match parsed {
                Err(_) => r matches DownloadStep::Finish(Err(_)),
                Ok(probe) => {
                    &&& (r matches DownloadStep::Finish(Err(_))) == (probe.duration > MAX_DURATION)
                    &&& r matches DownloadStep::Finish(Ok(t)) ==> {
                        &&& old(self)@.files.contains(audio_key(probe.id@))
                        &&& old(self)@.infos.contains_key(probe.id@)
                        &&& t@.info == old(self)@.infos[probe.id@]
                        &&& path_components(t@.path) == audio_key(probe.id@)
                    }
                },
            },
    {
        match parsed {
            Err(_) => DownloadStep::Finish(Err(DownloadError)),
            Ok(probe) => match self.begin(probe) {
                Begin::TooLong => DownloadStep::Finish(Err(DownloadError)),
                Begin::Cached(track) => DownloadStep::Finish(Ok(track)),
                Begin::Fetch => DownloadStep::Fetch,
            },
        }
    }

    /// Records a video whose file was fetched: its info, with its short link
    /// and its title, replaces any kept for `id`, and its file enters the cache.
    pub fn complete(&mut self, id: &str, title: &str) -> (r: Track<G>)
        requires
            old(self).wf(),
        ensures
            final(self).wf(),
            final(self)@ == after_fetch(old(self)@, id@, title@),
            r@.info == fetched_info(id@, title@),
            path_components(r@.path) == audio_key(id@),
    {
        let url = youtube_url(id);
        let info = TrackInfo::new(url.as_str(), title);
        let key = id.to_owned();
        let ghost old_keys = self.info_keys();
        let ghost old_entries = self.track_infos@;
        let ghost new_info = fetched_info(id@, title@);
        match self.find_info(&key) {
            Some(i) => {
                self.track_infos.set(i, (key, info.clone()));
                proof {
                    assert(self.info_keys() =~= old_keys.update(i as int, id@));
                    assert(old_keys.update(i as int, id@) =~= old_keys);
                    assert forall|k: Seq<char>| #[trigger] self.info_keys().contains(k) implies
                        self.track_infos@[self.info_keys().index_of(k)].1@ == (if k == id@ {
                            new_info
                        } else {
                            old_entries[old_keys.index_of(k)].1@
                        }) by {
                        let j = self.info_keys().index_of(k);
                        assert(self.info_keys()[j] == k);
                        if k == id@ {
                            assert(j == i);
                        } else {
                            assert(j != i);
                        }
                    }
                    assert(self.infos() =~= old(self).infos().insert(id@, new_info));
                }
            },
            None => {
                self.track_infos.push((key, info.clone()));
                proof {
                    let new_keys = self.info_keys();
                    assert(new_keys =~= old_keys.push(id@));
                    assert(new_keys[old_keys.len() as int] == id@);
                    assert forall|k: Seq<char>| new_keys.contains(k) implies old_keys.contains(k)
                        || k == id@ by {
                        let j = choose|j: int| 0 <= j < new_keys.len() && new_keys[j] == k;
                        if j < old_keys.len() {
                            assert(old_keys[j] == k);
                        }
                    }
                    assert forall|k: Seq<char>| old_keys.contains(k) implies new_keys.contains(k) by {
                        let j = choose|j: int| 0 <= j < old_keys.len() && old_keys[j] == k;
                        assert(new_keys[j] == k);
                    }
                    assert forall|k: Seq<char>| #[trigger] new_keys.contains(k) implies
                        self.track_infos@[new_keys.index_of(k)].1@ == (if k == id@ {
                            new_info
                        } else {
                            old_entries[old_keys.index_of(k)].1@
                        }) by {
                        let j = new_keys.index_of(k);
                        assert(new_keys[j] == k);
                        if k == id@ {
                            assert(j == old_keys.len());
                        } else {
                            let j0 = old_keys.index_of(k);
                            assert(old_keys[j0] == k);
                            assert(new_keys[j0] == k);
                            assert(j == j0);
                        }
                    }
                    assert(self.infos() =~= old(self).infos().insert(id@, new_info));
                }
            },
        }
        let filename = audio_file_name(id);
        let ghost old_files = self.cache@;
        let file = self.cache.create_file_handle(filename.as_str());
        proof {
            assert forall|f: Seq<Seq<char>>| #[trigger] self.cache@.contains(f) implies exists|
                id2: Seq<char>,
            | #[trigger] self.info_keys().contains(id2) && f == audio_key(id2) by {
                if f == audio_key(id@) {
                    assert(self.info_keys().contains(id@));
                } else {
                    assert(old_files.contains(f));
                    let id2 = choose|id2: Seq<char>|
                        #[trigger] old_keys.contains(id2) && f == audio_key(id2);
                    assert(self.infos().contains_key(id2));
                    assert(self.info_keys().contains(id2));
                }
            }
        }
        proof {
            assert(self@ =~= after_fetch(old(self)@, id@, title@));
        }
        Track::new(info, file)
    }
}

} // verus!
