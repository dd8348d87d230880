# stream_download

Streaming content from a remote source into local storage and reading it back
while the download is still running, with its logic verified by Verus.

- `src/` is the verified library: the circular and in-memory buffers
  (`storage`), the state the download task and the reader share and the
  decisions the task makes (`source`), the read and seek plans of the reader
  (`download`), HTTP header handling and range requests (`http`), input
  routing (`registry`), command construction for process sources (`process`),
  settings, and small text helpers. Calls into `rangemap`, `url`, `regex`,
  `mediatype` and `reqwest` go through a few trusted wrappers whose contracts
  are stated next to them.
- `app/` is the unverified I/O around it: the tokio download task, the HTTP
  client, temporary and permanent files, process spawning and OpenDAL readers.
- `tests/` exercises the library on concrete values.
