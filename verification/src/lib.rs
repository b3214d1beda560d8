//! A music bot: a request/response channel, a cache of downloaded audio
//! files, the play-queue state machine of the player worker, the decisions of
//! the downloader, and the text of the chat replies.
pub mod track;
pub mod json;

pub mod channel;
pub mod file;
pub mod player;
pub mod probe;
pub mod path;
pub mod download;
pub mod bot;
