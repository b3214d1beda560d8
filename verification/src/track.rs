use crate::file::FileHandle;
use vstd::prelude::*;

verus! {

/// What is known of a track: where it came from and its title.
#[derive(Debug, PartialEq, Eq)]
pub struct TrackInfo {
    pub url: String,
    pub name: String,
}

/// The mathematical value of a [`TrackInfo`].
pub struct TrackInfoView {
    pub url: Seq<char>,
    pub name: Seq<char>,
}

impl View for TrackInfo {
    type V = TrackInfoView;

    open spec fn view(&self) -> TrackInfoView {
        TrackInfoView { url: self.url@, name: self.name@ }
    }
}

impl Clone for TrackInfo {
    fn clone(&self) -> (r: Self)
        ensures
            r == *self,
    {
        TrackInfo { url: self.url.clone(), name: self.name.clone() }
    }
}

impl TrackInfo {
    /// Builds the info from the url and the name, both copied.
    pub fn new(url: &str, name: &str) -> (r: TrackInfo)
        ensures
            r.url@ == url@,
            r.name@ == name@,
    {
        TrackInfo { url: url.to_owned(), name: name.to_owned() }
    }
}

/// A track that was downloaded: its info and the handle that keeps its file.
#[derive(Debug)]
pub struct Track<G> {
    pub info: TrackInfo,
    pub file: FileHandle<G>,
}

/// The mathematical value of a [`Track`]: its info and the path of its file.
pub struct TrackView {
    pub info: TrackInfoView,
    pub path: Seq<char>,
}

impl<G> View for Track<G> {
    type V = TrackView;

    open spec fn view(&self) -> TrackView {
        TrackView { info: self.info@, path: self.file@ }
    }
}

impl<G> Track<G> {
    /// Puts the info and the file handle together.
    pub fn new(info: TrackInfo, file: FileHandle<G>) -> (r: Track<G>)
        ensures
            r.info == info,
            r.file == file,
    {
        Track { info, file }
    }
}

} // verus!
