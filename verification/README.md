# music_bot

A Telegram bot that downloads the audio of videos and plays it on the machine
it runs on.

- `src/` is the verified library:
  - `channel` — a request channel whose requests carry their own reply channel;
  - `path` — paths compared by their components, as the file system reads them;
  - `file` — the cache of audio files on disk, shared by the tracks that use them;
  - `track` — what is known of a track;
  - `player` — the play queue of the worker, what it does on each request and on
    each look at the audio sink, the laws that hold of it, and the client that
    sends it requests;
  - `probe` — reading the downloader's answer about a video (id and duration);
  - `download` — which videos are refused, when a file on disk is used again,
    what is recorded once a video was fetched, and the step a download takes
    after each outside run;
  - `bot` — what the bot does on each command, and the text of its replies;
  - `json` — the one call into `serde_json`.
- `app/` is the program around it: the audio output (`rodio`), the worker thread,
  the external downloader runs (`tokio::process`), the files it reads and
  removes, and the Telegram dispatch (`teloxide`).
