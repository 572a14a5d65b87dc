# bilibili_webhook

Downloads every new video of watched Bilibili favourite lists with `yutto`, and
records what was downloaded in a SQLite database so that nothing is fetched twice.

- `src/` is the verified library: the choice of watched lists and login token, the
  per-video decisions (skip a recorded video, download, record, report), the
  downloader's arguments and output logs, the source-id bookkeeping, the steps of
  recording a source, the retry policy for feed requests, and the text helpers
  these rely on. Its contracts and laws are checked by Verus.
- `app/` is the program around it: configuration files, HTTP requests, the
  Bilibili API client, the database, the downloader process, log files and threads.
  It performs the actions the library returns and reports the results back.
- `tests/` runs the library on concrete values.
